//! What is printed: the result of a tool, ready for `jq`.

use vstd::prelude::*;
use vstd::string::*;

use crate::json::{
    array_view, array_wf, copy_list, json_views, member_wf, members_view, object_view, object_wf,
    parse_json, parse_view, parse_wf, parsed_json, shown, to_pretty, Json, JsonV,
};
use crate::text::{join, joined, same, views};

verus! {

/// Whether the result of a tool reports an error.
pub open spec fn failed(result: JsonV) -> bool {
    result.true_at("isError"@)
}

/// Whether the program ends well after the result of a tool.
pub fn exit_code(result: &Json) -> (success: bool)
    ensures
        success == !failed(result@),
{
    !result.true_at("isError")
}

/// What an envelope with one member holds: a list or an object that is the only
/// member of an object, and anything else as it is.
pub open spec fn unwrapped(value: JsonV) -> JsonV {
    match value {
        JsonV::Object(members) => if members.len() == 1 && (members[0].1 is Array
            || members[0].1 is Object) {
            members[0].1
        } else {
            value
        },
        _ => value,
    }
}

/// What an envelope with one member holds.
pub fn unwrap_single_key(value: &Json) -> (r: &Json)
    ensures
        r@ == unwrapped(value@),
        value@.wf() ==> r@.wf(),
{
    if let Json::Object(table) = value {
        proof {
            object_view(*table);
            object_wf(members_view(table@));
        }
        if table.entries.len() == 1 {
            let inner = &table.entries[0].1;
            assert(members_view(table@)[0].1 == inner@);
            match inner {
                Json::Array(_) | Json::Object(_) => {
                    return inner;
                },
                _ => {},
            }
        }
    }
    value
}

// ---------------------------------------------------------------------------
// Text blocks
// ---------------------------------------------------------------------------

/// The text of a block of content, if it is a text.
pub open spec fn block_text(block: JsonV) -> Option<Seq<char>> {
    if block.text_at("type"@) == Some("text"@) {
        block.text_at("text"@)
    } else {
        None
    }
}

/// The texts among blocks of content.
pub open spec fn block_texts(content: Seq<JsonV>) -> Seq<Seq<char>>
    decreases content.len(),
{
    if content.len() == 0 {
        seq![]
    } else {
        match block_text(content.last()) {
            Some(text) => block_texts(content.drop_last()).push(text),
            None => block_texts(content.drop_last()),
        }
    }
}

/// The texts among blocks of content.
pub fn texts_of(content: &Vec<Json>) -> (r: Vec<String>)
    ensures
        views(r@) == block_texts(json_views(content@)),
{
    let mut out: Vec<String> = Vec::new();
    let ghost all = json_views(content@);
    let mut i: usize = 0;
    assert(views(out@) =~= seq![]);
    while i < content.len()
        invariant
            all == json_views(content@),
            i <= content@.len(),
            views(out@) == block_texts(all.take(i as int)),
        decreases content@.len() - i,
    {
        assert(all.take(i + 1).drop_last() =~= all.take(i as int));
        let ghost before = views(out@);
        let block = &content[i];
        let is_text = match block.text_at("type") {
            Some(kind) => same(kind, "text"),
            None => false,
        };
        if is_text {
            if let Some(text) = block.text_at("text") {
                out.push(text.to_owned());
                assert(views(out@) =~= before.push(text@));
            }
        }
        i += 1;
    }
    assert(all.take(i as int) =~= all);
    out
}

// ---------------------------------------------------------------------------
// The result of a tool
// ---------------------------------------------------------------------------

/// What is printed of a result: the mathematical model of [`Shown`].
pub enum Print {
    Value(JsonV),
    Text(Seq<char>),
}

/// What is printed of a result.
#[derive(Debug, PartialEq)]
pub enum Shown {
    /// A JSON value.
    Value(Json),
    /// A text as it is.
    Text(String),
}

impl View for Shown {
    type V = Print;

    open spec fn view(&self) -> Print {
        match self {
            Shown::Value(v) => Print::Value(v@),
            Shown::Text(s) => Print::Text(s@),
        }
    }
}

impl Shown {
    /// Whether a value that is printed is in good order.
    pub open spec fn wf(self) -> bool {
        self matches Shown::Value(v) ==> v@.wf()
    }
}

/// The values that texts stand for, when reading them gave `readings` and each of
/// them is JSON.
pub open spec fn all_values(readings: Seq<Result<JsonV, Seq<char>>>) -> Option<Seq<JsonV>>
    decreases readings.len(),
{
    if readings.len() == 0 {
        Some(seq![])
    } else {
        match (all_values(readings.drop_last()), readings.last()) {
            (Some(values), Ok(value)) => Some(values.push(value)),
            _ => None,
        }
    }
}

/// What is printed of texts, when reading them as JSON gave `readings`: the values
/// when there are some and all texts are JSON, and otherwise the texts.
pub open spec fn texts_print(
    texts: Seq<Seq<char>>,
    readings: Seq<Result<JsonV, Seq<char>>>,
) -> Print {
    match all_values(readings) {
        Some(values) => if values.len() == 0 {
            Print::Text(joined(texts, "\n"@))
        } else if values.len() == 1 {
            Print::Value(unwrapped(values[0]))
        } else {
            Print::Value(JsonV::Array(values))
        },
        None => Print::Text(joined(texts, "\n"@)),
    }
}

/// What reading texts as JSON gives.
pub open spec fn readings_of(texts: Seq<Seq<char>>) -> Seq<Result<JsonV, Seq<char>>> {
    texts.map_values(|text: Seq<char>| parsed_json(text))
}

/// What is printed of a result. `readings` is what reading its texts as JSON gave.
pub open spec fn result_print(
    result: JsonV,
    raw: bool,
    readings: Seq<Result<JsonV, Seq<char>>>,
) -> Print {
    if raw {
        Print::Value(result)
    } else {
        match result.get("structuredContent"@) {
            Some(structured) => if structured is Null {
                content_print(result, readings)
            } else {
                Print::Value(unwrapped(structured))
            },
            None => content_print(result, readings),
        }
    }
}

/// What is printed of a result without structured content.
pub open spec fn content_print(result: JsonV, readings: Seq<Result<JsonV, Seq<char>>>) -> Print {
    match result.array_at("content"@) {
        None => Print::Value(result),
        Some(content) => {
            let texts = block_texts(content);
            // What is no text, such as an image, has no plain form.
            if texts.len() != content.len() {
                Print::Value(JsonV::Array(content))
            } else {
                texts_print(texts, readings)
            }
        },
    }
}

/// The texts of a result that are read as JSON.
pub open spec fn result_texts(result: JsonV) -> Seq<Seq<char>> {
    match result.array_at("content"@) {
        Some(content) => block_texts(content),
        None => seq![],
    }
}

/// The views of what reading texts as JSON gave.
pub open spec fn reading_views(readings: Seq<Result<Json, String>>) -> Seq<Result<JsonV, Seq<char>>> {
    readings.map_values(|r: Result<Json, String>| parse_view(r))
}

/// Whether all that reading texts as JSON gave is in good order.
pub open spec fn readings_wf(readings: Seq<Result<Json, String>>) -> bool {
    forall|i: int| 0 <= i < readings.len() ==> parse_wf(#[trigger] readings[i])
}

/// The values that texts stand for, from what reading them as JSON gave, if each of
/// them is JSON.
fn values_of(readings: &Vec<Result<Json, String>>) -> (r: Option<Vec<Json>>)
    requires
        readings_wf(readings@),
    ensures
        match r {
            Some(values) => all_values(reading_views(readings@)) == Some(json_views(values@)) && (
            forall|i: int| 0 <= i < values@.len() ==> (#[trigger] json_views(values@)[i]).wf()),
            None => all_values(reading_views(readings@)) is None,
        },
{
    let mut out: Vec<Json> = Vec::new();
    let ghost all = reading_views(readings@);
    let mut i: usize = 0;
    assert(json_views(out@) =~= seq![]);
    assert(all.take(0) =~= seq![]);
    while i < readings.len()
        invariant
            readings_wf(readings@),
            all == reading_views(readings@),
            i <= readings@.len(),
            all_values(all.take(i as int)) == Some(json_views(out@)),
            forall|k: int| 0 <= k < out@.len() ==> (#[trigger] json_views(out@)[k]).wf(),
        decreases readings@.len() - i,
    {
        assert(all.take(i + 1).drop_last() =~= all.take(i as int));
        let ghost before = json_views(out@);
        assert(parse_wf(readings@[i as int]));
        match &readings[i] {
            Ok(value) => {
                out.push(value.clone());
                assert(json_views(out@) =~= before.push(value@));
            },
            Err(_) => {
                proof {
                    one_failure_is_enough(all, i + 1);
                }
                return None;
            },
        }
        i += 1;
    }
    assert(all.take(i as int) =~= all);
    Some(out)
}

proof fn one_failure_is_enough(readings: Seq<Result<JsonV, Seq<char>>>, n: int)
    requires
        0 <= n <= readings.len(),
        all_values(readings.take(n)) is None,
    ensures
        all_values(readings) is None,
    decreases readings.len() - n,
{
    if n == readings.len() {
        assert(readings.take(n) =~= readings);
    } else {
        assert(readings.take(n + 1).drop_last() =~= readings.take(n));
        one_failure_is_enough(readings, n + 1);
    }
}

/// What is printed of texts, from what reading them as JSON gave.
pub fn choose_texts(texts: &Vec<String>, readings: &Vec<Result<Json, String>>) -> (r: Shown)
    requires
        readings_wf(readings@),
    ensures
        r@ == texts_print(views(texts@), reading_views(readings@)),
        r.wf(),
{
    match values_of(readings) {
        Some(values) => if values.len() == 0 {
            Shown::Text(join(texts, "\n"))
        } else if values.len() == 1 {
            assert(json_views(values@)[0].wf());
            Shown::Value(unwrap_single_key(&values[0]).clone())
        } else {
            proof {
                array_view(values);
                array_wf(json_views(values@));
            }
            Shown::Value(Json::Array(values))
        },
        None => Shown::Text(join(texts, "\n")),
    }
}

/// What is printed of a result, from what reading its texts as JSON gave.
pub fn choose_result(result: &Json, raw: bool, readings: &Vec<Result<Json, String>>) -> (r: Shown)
    requires
        result@.wf(),
        readings_wf(readings@),
    ensures
        r@ == result_print(result@, raw, reading_views(readings@)),
        r.wf(),
{
    if raw {
        return Shown::Value(result.clone());
    }
    proof {
        member_wf(result@, "structuredContent"@);
        member_wf(result@, "content"@);
    }
    if let Some(structured) = result.get("structuredContent") {
        if !structured.is_null() {
            return Shown::Value(unwrap_single_key(structured).clone());
        }
    }
    match result.get("content") {
        Some(Json::Array(content)) => {
            proof {
                array_view(*content);
                array_wf(json_views(content@));
            }
            let texts = texts_of(content);
            if texts.len() != content.len() {
                let copy = copy_list(content);
                proof {
                    array_view(copy);
                }
                Shown::Value(Json::Array(copy))
            } else {
                choose_texts(&texts, readings)
            }
        },
        _ => Shown::Value(result.clone()),
    }
}

/// Reads texts as JSON.
fn read_all(texts: &Vec<String>) -> (r: Vec<Result<Json, String>>)
    ensures
        reading_views(r@) == readings_of(views(texts@)),
        readings_wf(r@),
{
    let mut out: Vec<Result<Json, String>> = Vec::new();
    let mut i: usize = 0;
    while i < texts.len()
        invariant
            i <= texts@.len(),
            out@.len() == i,
            readings_wf(out@),
            forall|k: int| 0 <= k < i ==> parse_view(#[trigger] out@[k]) == parsed_json(texts@[k]@),
        decreases texts@.len() - i,
    {
        out.push(parse_json(texts[i].as_str()));
        i += 1;
    }
    assert(reading_views(out@) =~= readings_of(views(texts@)));
    out
}

/// The text that is printed.
pub open spec fn print_text(print: Print) -> Seq<char> {
    match print {
        Print::Value(value) => shown(value),
        Print::Text(text) => text,
    }
}

/// What is printed for the result of a tool: the mathematical model of [`Output`].
pub struct Sheet {
    pub text: Seq<char>,
    pub to_stderr: bool,
    pub success: bool,
}

/// What is printed for the result of a tool: to the error stream, with a failure at the
/// end, when the result reports an error.
pub open spec fn sheet(result: JsonV, raw: bool) -> Sheet {
    Sheet {
        text: print_text(result_print(result, raw, readings_of(result_texts(result)))),
        to_stderr: failed(result),
        success: !failed(result),
    }
}

/// What printing the result of a tool comes to.
#[derive(Debug, PartialEq)]
pub struct Output {
    pub text: String,
    /// Whether the text goes to the error stream.
    pub to_stderr: bool,
    /// Whether the program ends well.
    pub success: bool,
}

impl View for Output {
    type V = Sheet;

    open spec fn view(&self) -> Sheet {
        Sheet { text: self.text@, to_stderr: self.to_stderr, success: self.success }
    }
}

/// Prints the result of a tool. What reports an error goes to the error stream, and
/// the program then does not end well.
pub fn print_result(result: &Json, raw: bool) -> (r: Output)
    requires
        result@.wf(),
    ensures
        r@ == sheet(result@, raw),
{
    let texts = match result.array_at("content") {
        Some(content) => texts_of(content),
        None => Vec::new(),
    };
    assert(views(texts@) =~= result_texts(result@));
    let readings = read_all(&texts);
    let text = match choose_result(result, raw, &readings) {
        Shown::Value(value) => to_pretty(&value),
        Shown::Text(text) => text,
    };
    let success = exit_code(result);
    Output { text, to_stderr: !success, success }
}

// ---------------------------------------------------------------------------
// Laws
// ---------------------------------------------------------------------------

/// The raw result is printed as it came.
pub proof fn raw_is_untouched(result: JsonV, readings: Seq<Result<JsonV, Seq<char>>>)
    ensures
        result_print(result, true, readings) == Print::Value(result),
{
}

/// Structured content is printed whatever else the result holds.
pub proof fn structured_content_is_preferred(
    result: JsonV,
    structured: JsonV,
    readings: Seq<Result<JsonV, Seq<char>>>,
)
    requires
        result.get("structuredContent"@) == Some(structured),
        !(structured is Null),
    ensures
        result_print(result, false, readings) == Print::Value(unwrapped(structured)),
{
}

/// One text that is no JSON is printed verbatim.
pub proof fn plain_text_is_verbatim(text: Seq<char>, complaint: Seq<char>)
    ensures
        texts_print(seq![text], seq![Err(complaint)]) == Print::Text(text),
{
    let readings: Seq<Result<JsonV, Seq<char>>> = seq![Err(complaint)];
    assert(readings.last() is Err);
    assert(all_values(readings) is None);
}

/// One text that is JSON is printed as the value that it stands for, without its
/// envelope.
pub proof fn json_text_is_a_value(text: Seq<char>, value: JsonV)
    ensures
        texts_print(seq![text], seq![Ok(value)]) == Print::Value(unwrapped(value)),
{
    let readings: Seq<Result<JsonV, Seq<char>>> = seq![Ok(value)];
    assert(readings.drop_last() =~= seq![]);
    assert(all_values(readings.drop_last()) == Some(Seq::<JsonV>::empty()));
    assert(readings.last() == Ok::<JsonV, Seq<char>>(value));
    let values = Seq::<JsonV>::empty().push(value);
    assert(all_values(readings) == Some(values));
    assert(values.len() == 1 && values[0] == value);
}

/// A list in an envelope comes out of it, under whatever name.
pub proof fn an_envelope_around_a_list_is_opened(name: Seq<char>, items: Seq<JsonV>)
    ensures
        unwrapped(JsonV::Object(seq![(name, JsonV::Array(items))])) == JsonV::Array(items),
{
    let members = seq![(name, JsonV::Array(items))];
    assert(members.len() == 1);
}

/// A block of content is text exactly if it says so and holds a text.
pub proof fn text_blocks_say_so(block: JsonV, text: Seq<char>)
    ensures
        block.get("type"@) == Some(JsonV::Text("text"@)) && block.get("text"@) == Some(JsonV::Text(text))
            ==> block_text(block) == Some(text),
        block.get("type"@) != Some(JsonV::Text("text"@)) ==> block_text(block) is None,
        !(block.get("text"@) matches Some(JsonV::Text(_))) ==> block_text(block) is None,
{
}

proof fn texts_of_blocks(content: Seq<JsonV>)
    ensures
        block_texts(content).len() <= content.len(),
        block_texts(content).len() == content.len() <==> (forall|i: int|
            0 <= i < content.len() ==> block_text(#[trigger] content[i]) is Some),
        (forall|i: int| 0 <= i < content.len() ==> block_text(#[trigger] content[i]) is Some) ==> (forall|
            i: int,
        |
            0 <= i < content.len() ==> block_text(#[trigger] content[i]) == Some(
                block_texts(content)[i],
            )),
    decreases content.len(),
{
    if content.len() > 0 {
        let before = content.drop_last();
        texts_of_blocks(before);
        assert forall|i: int| 0 <= i < before.len() implies before[i] == content[i] by {}
        assert(content[content.len() - 1] == content.last());
        if forall|i: int| 0 <= i < content.len() ==> block_text(#[trigger] content[i]) is Some {
            assert forall|i: int| 0 <= i < before.len() implies block_text(#[trigger] before[i]) is Some by {
                assert(block_text(content[i]) is Some);
            }
            assert forall|i: int| 0 <= i < content.len() implies block_text(#[trigger] content[i])
                == Some(block_texts(content)[i]) by {
                if i < before.len() {
                    assert(block_text(before[i]) == Some(block_texts(before)[i]));
                }
            }
        }
        if block_texts(content).len() == content.len() {
            assert forall|i: int| 0 <= i < content.len() implies block_text(#[trigger] content[i]) is Some by {
                if i < before.len() {
                    assert(block_text(before[i]) is Some);
                }
            }
        }
    }
}

/// Content with a block that is no text, such as an image, is printed whole: no block of
/// it is left out.
pub proof fn no_block_is_left_out(
    result: JsonV,
    content: Seq<JsonV>,
    i: int,
    readings: Seq<Result<JsonV, Seq<char>>>,
)
    requires
        result.get("structuredContent"@) is None || result.get("structuredContent"@) == Some(
            JsonV::Null,
        ),
        result.get("content"@) == Some(JsonV::Array(content)),
        0 <= i < content.len(),
        content[i].get("type"@) != Some(JsonV::Text("text"@)) || !(content[i].get("text"@) matches Some(
            JsonV::Text(_),
        )),
    ensures
        result_print(result, false, readings) == Print::Value(JsonV::Array(content)),
{
    texts_of_blocks(content);
    assert(block_text(content[i]) is None);
}

/// A result without content and without structured content is printed as it is.
pub proof fn a_result_without_content_is_printed(
    result: JsonV,
    readings: Seq<Result<JsonV, Seq<char>>>,
)
    requires
        result.get("structuredContent"@) is None || result.get("structuredContent"@) == Some(
            JsonV::Null,
        ),
        !(result.get("content"@) matches Some(JsonV::Array(_))),
    ensures
        result_print(result, false, readings) == Print::Value(result),
        result_texts(result).len() == 0,
{
}

/// Whether every block of some content is a text, and these are the texts.
pub open spec fn is_all_text(content: Seq<JsonV>, texts: Seq<Seq<char>>) -> bool {
    content.len() == texts.len() && forall|i: int|
        0 <= i < content.len() ==> (#[trigger] content[i]).get("type"@) == Some(JsonV::Text("text"@))
            && content[i].get("text"@) == Some(JsonV::Text(texts[i]))
}

proof fn values_of_readings(readings: Seq<Result<JsonV, Seq<char>>>, values: Seq<JsonV>)
    requires
        readings.len() == values.len(),
        forall|i: int|
            0 <= i < readings.len() ==> #[trigger] readings[i] == Ok::<JsonV, Seq<char>>(values[i]),
    ensures
        all_values(readings) == Some(values),
    decreases readings.len(),
{
    if readings.len() == 0 {
        assert(values =~= seq![]);
    } else {
        let before = readings.drop_last();
        let some = values.drop_last();
        assert forall|i: int| 0 <= i < before.len() implies #[trigger] before[i] == Ok::<
            JsonV,
            Seq<char>,
        >(some[i]) by {
            assert(before[i] == readings[i]);
        }
        values_of_readings(before, some);
        assert(readings[readings.len() - 1] == readings.last());
        assert(some.push(values.last()) =~= values);
    }
}

proof fn content_of_texts(content: Seq<JsonV>, texts: Seq<Seq<char>>)
    requires
        is_all_text(content, texts),
    ensures
        block_texts(content) == texts,
{
    assert forall|i: int| 0 <= i < content.len() implies block_text(#[trigger] content[i]) == Some(
        texts[i],
    ) by {
        assert(content[i].get("type"@) == Some(JsonV::Text("text"@)));
    }
    texts_of_blocks(content);
    assert(block_texts(content) =~= texts) by {
        assert forall|i: int| 0 <= i < texts.len() implies block_texts(content)[i] == texts[i] by {
            assert(block_text(content[i]) == Some(block_texts(content)[i]));
        }
    }
}

/// Texts that are all JSON are printed as JSON: one as the value itself, with an
/// envelope opened, and several as the list of the values.
pub proof fn json_texts_are_printed_as_json(
    result: JsonV,
    content: Seq<JsonV>,
    texts: Seq<Seq<char>>,
    values: Seq<JsonV>,
)
    requires
        result.get("structuredContent"@) is None || result.get("structuredContent"@) == Some(
            JsonV::Null,
        ),
        result.get("content"@) == Some(JsonV::Array(content)),
        is_all_text(content, texts),
        texts.len() == values.len(),
        texts.len() > 0,
        forall|i: int|
            0 <= i < texts.len() ==> parsed_json(#[trigger] texts[i]) == Ok::<JsonV, Seq<char>>(
                values[i],
            ),
    ensures
        result_texts(result) == texts,
        texts.len() == 1 ==> result_print(result, false, readings_of(result_texts(result)))
            == Print::Value(unwrapped(values[0])),
        texts.len() > 1 ==> result_print(result, false, readings_of(result_texts(result)))
            == Print::Value(JsonV::Array(values)),
{
    content_of_texts(content, texts);
    let readings = readings_of(texts);
    assert forall|i: int| 0 <= i < readings.len() implies #[trigger] readings[i] == Ok::<
        JsonV,
        Seq<char>,
    >(values[i]) by {
        assert(readings[i] == parsed_json(texts[i]));
    }
    values_of_readings(readings, values);
}

/// Texts of which one is no JSON are printed as they are, each on a line of its own, and
/// so is content without any block.
pub proof fn other_texts_are_printed_verbatim(
    result: JsonV,
    content: Seq<JsonV>,
    texts: Seq<Seq<char>>,
    i: int,
)
    requires
        result.get("structuredContent"@) is None || result.get("structuredContent"@) == Some(
            JsonV::Null,
        ),
        result.get("content"@) == Some(JsonV::Array(content)),
        is_all_text(content, texts),
        texts.len() == 0 || (0 <= i < texts.len() && parsed_json(texts[i]) is Err),
    ensures
        result_print(result, false, readings_of(result_texts(result))) == Print::Text(
            joined(texts, "\n"@),
        ),
{
    content_of_texts(content, texts);
    let readings = readings_of(texts);
    if texts.len() > 0 {
        assert(readings[i] == parsed_json(texts[i]));
        assert(readings.take(i + 1).last() is Err);
        one_failure_is_enough(readings, i + 1);
    } else {
        assert(readings.len() == 0);
    }
}

/// An envelope is an object with one member that is a list or an object, which is what
/// is in it. Nothing else is opened.
pub proof fn only_envelopes_are_opened(
    name: Seq<char>,
    inner: JsonV,
    members: Seq<(Seq<char>, JsonV)>,
    value: JsonV,
)
    ensures
        inner is Array || inner is Object ==> unwrapped(JsonV::Object(seq![(name, inner)])) == inner,
        !(inner is Array) && !(inner is Object) ==> unwrapped(JsonV::Object(seq![(name, inner)]))
            == JsonV::Object(seq![(name, inner)]),
        members.len() != 1 ==> unwrapped(JsonV::Object(members)) == JsonV::Object(members),
        !(value is Object) ==> unwrapped(value) == value,
{
    assert(seq![(name, inner)][0].1 == inner);
}

/// A result reports an error exactly if it says so.
pub proof fn errors_are_reported_by_the_result(result: JsonV)
    ensures
        failed(result) <==> result.get("isError"@) == Some(JsonV::Bool(true)),
{
}

/// A value is printed as JSON and a text as it is.
pub proof fn prints_are_what_they_show(value: JsonV, text: Seq<char>)
    ensures
        print_text(Print::Value(value)) == shown(value),
        print_text(Print::Text(text)) == text,
{
}

/// Structured content goes before all else, and counts for nothing when it is `null`.
pub proof fn structured_content_is_printed(
    result: JsonV,
    structured: JsonV,
    readings: Seq<Result<JsonV, Seq<char>>>,
)
    requires
        result.get("structuredContent"@) == Some(structured),
    ensures
        structured is Array ==> result_print(result, false, readings) == Print::Value(structured),
        structured is Bool || structured is Number || structured is Text ==> result_print(
            result,
            false,
            readings,
        ) == Print::Value(structured),
        structured is Object ==> result_print(result, false, readings) == Print::Value(
            unwrapped(structured),
        ),
{
}

/// A result that reports an error goes to the error stream and ends the program with a
/// failure; any other goes to the output stream and ends it well, raw or not.
pub proof fn reported_errors_go_to_the_error_stream(result: JsonV, raw: bool)
    ensures
        result.get("isError"@) == Some(JsonV::Bool(true)) ==> sheet(result, raw).to_stderr && !sheet(
            result,
            raw,
        ).success,
        result.get("isError"@) != Some(JsonV::Bool(true)) ==> !sheet(result, raw).to_stderr && sheet(
            result,
            raw,
        ).success,
        sheet(result, true).text == shown(result),
        sheet(result, false).text == match result_print(
            result,
            false,
            readings_of(result_texts(result)),
        ) {
            Print::Value(value) => shown(value),
            Print::Text(text) => text,
        },
{
}

/// What reading texts as JSON gave decides how they are printed: values if all of them
/// are JSON and there are any, and else the texts themselves, a line for each.
pub proof fn readings_decide_how_texts_are_printed(
    texts: Seq<Seq<char>>,
    readings: Seq<Result<JsonV, Seq<char>>>,
    values: Seq<JsonV>,
    i: int,
)
    ensures
        readings.len() == values.len() && (forall|k: int|
            0 <= k < readings.len() ==> #[trigger] readings[k] == Ok::<JsonV, Seq<char>>(values[k])) ==> {
            &&& values.len() == 1 ==> texts_print(texts, readings) == Print::Value(unwrapped(values[0]))
            &&& values.len() > 1 ==> texts_print(texts, readings) == Print::Value(JsonV::Array(values))
            &&& values.len() == 0 ==> texts_print(texts, readings) == Print::Text(joined(texts, "\n"@))
        },
        0 <= i < readings.len() && readings[i] is Err ==> texts_print(texts, readings) == Print::Text(
            joined(texts, "\n"@),
        ),
{
    if readings.len() == values.len() && (forall|k: int|
        0 <= k < readings.len() ==> #[trigger] readings[k] == Ok::<JsonV, Seq<char>>(values[k])) {
        values_of_readings(readings, values);
    }
    if 0 <= i < readings.len() && readings[i] is Err {
        assert(readings.take(i + 1).last() is Err);
        one_failure_is_enough(readings, i + 1);
    }
}

/// Content that is all text is printed by what its texts are read as.
pub proof fn text_content_is_printed_by_its_texts(
    result: JsonV,
    content: Seq<JsonV>,
    texts: Seq<Seq<char>>,
    readings: Seq<Result<JsonV, Seq<char>>>,
)
    requires
        result.get("structuredContent"@) is None || result.get("structuredContent"@) == Some(
            JsonV::Null,
        ),
        result.get("content"@) == Some(JsonV::Array(content)),
        is_all_text(content, texts),
    ensures
        result_print(result, false, readings) == texts_print(texts, readings),
        result_texts(result) == texts,
        readings_of(texts).len() == texts.len(),
        forall|i: int|
            0 <= i < texts.len() ==> #[trigger] readings_of(texts)[i] == parsed_json(texts[i]),
{
    content_of_texts(content, texts);
}

/// What is printed is seen as it is.
pub proof fn outputs_are_seen_as_they_are(value: Json, text: String, output: Output)
    ensures
        Shown::Value(value)@ == Print::Value(value@) && Shown::Text(text)@ == Print::Text(text@),
        output@.text == output.text@ && output@.to_stderr == output.to_stderr,
        output@.success == output.success,
{
}

/// The texts of some blocks and of those behind them are the texts of all of them in
/// their order. A block is a text if it says so and has one; any other holds none.
pub proof fn texts_stand_among_other_blocks(first: Seq<JsonV>, more: Seq<JsonV>, block: JsonV)
    ensures
        block_texts(first + more) == block_texts(first) + block_texts(more),
        forall|text: Seq<char>|
            block.text_at("type"@) == Some("text"@) && block.text_at("text"@) == Some(text)
                ==> #[trigger] seq![text] == block_texts(seq![block]),
        block.text_at("type"@) != Some("text"@) ==> block_texts(seq![block]).len() == 0,
        block.text_at("text"@) is None ==> block_texts(seq![block]).len() == 0,
    decreases more.len(),
{
    assert(seq![block].drop_last() =~= seq![]);
    assert(seq![block].last() == block);
    reveal_with_fuel(block_texts, 2);
    assert forall|text: Seq<char>|
        block.text_at("type"@) == Some("text"@) && block.text_at("text"@) == Some(
            text,
        ) implies #[trigger] seq![text] == block_texts(seq![block]) by {
        assert(block_texts(seq![block]) =~= seq![text]);
    }
    if more.len() == 0 {
        assert(first + more =~= first);
        assert(block_texts(first) + block_texts(more) =~= block_texts(first));
    } else {
        let all = first + more;
        assert(all.drop_last() =~= first + more.drop_last());
        assert(all.last() == more.last());
        texts_stand_among_other_blocks(first, more.drop_last(), block);
        assert(block_texts(all) =~= block_texts(first) + block_texts(more));
    }
}

} // verus!
