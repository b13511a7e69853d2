//! The tools of a server: finding one of them, and showing them to the user.

use vstd::prelude::*;
use vstd::string::*;

use crate::error::{because, plain, Error, Fault};
use crate::json::{
    all_wf, array_view, array_wf, copy_list, json_views, member_wf, opt_ref, pretty, pretty_text,
    shown, to_pretty, Json, JsonV,
};
use crate::numeral::{decimal, show_u64};
use crate::table::keys;
use crate::text::{
    a_part_is_found, blank, chars_of, concat, concat3, has, is_blank, join, joined, lines, lines_of,
    lower_text, same, to_lower_text, trim, trim_text, views,
};

verus! {

// ---------------------------------------------------------------------------
// Finding tools
// ---------------------------------------------------------------------------

/// Whether a tool has the given name.
pub open spec fn is_named(tool: JsonV, name: Seq<char>) -> bool {
    tool.text_at("name"@) == Some(name)
}

/// The first tool that has the given name.
pub open spec fn tool_named(tools: Seq<JsonV>, name: Seq<char>) -> Option<JsonV>
    decreases tools.len(),
{
    if tools.len() == 0 {
        None
    } else if is_named(tools[0], name) {
        Some(tools[0])
    } else {
        tool_named(tools.skip(1), name)
    }
}

/// What a tool wants as its arguments.
pub open spec fn schema_of(tools: Seq<JsonV>, name: Seq<char>) -> Option<JsonV> {
    match tool_named(tools, name) {
        Some(tool) => tool.get("inputSchema"@),
        None => None,
    }
}

/// The texts among values.
pub open spec fn texts_among(items: Seq<JsonV>) -> Seq<Seq<char>>
    decreases items.len(),
{
    if items.len() == 0 {
        seq![]
    } else {
        match items.last().as_text() {
            Some(text) => texts_among(items.drop_last()).push(text),
            None => texts_among(items.drop_last()),
        }
    }
}

/// The names of the tools that have one.
pub open spec fn tool_names(tools: Seq<JsonV>) -> Seq<Seq<char>>
    decreases tools.len(),
{
    if tools.len() == 0 {
        seq![]
    } else {
        match tools.last().text_at("name"@) {
            Some(name) => tool_names(tools.drop_last()).push(name),
            None => tool_names(tools.drop_last()),
        }
    }
}

/// The first tool that has the given name.
pub fn find_tool<'a>(tools: &'a Vec<Json>, name: &str) -> (r: Option<&'a Json>)
    ensures
        opt_ref(r) == tool_named(json_views(tools@), name@),
        all_wf(tools@) ==> (r matches Some(tool) ==> tool@.wf()),
{
    let ghost all = json_views(tools@);
    let mut i: usize = 0;
    assert(all.skip(0) =~= all);
    while i < tools.len()
        invariant
            all == json_views(tools@),
            i <= tools@.len(),
            tool_named(all, name@) == tool_named(all.skip(i as int), name@),
        decreases tools@.len() - i,
    {
        assert(all.skip(i as int)[0] == tools@[i as int]@);
        assert(all.skip(i as int).skip(1) =~= all.skip(i + 1));
        let found = match tools[i].text_at("name") {
            Some(n) => same(n, name),
            None => false,
        };
        if found {
            return Some(&tools[i]);
        }
        i += 1;
    }
    assert(all.skip(i as int) =~= seq![]);
    None
}

/// Whether there is a tool that has the given name.
pub fn has_tool(tools: &Vec<Json>, tool: &str) -> (r: bool)
    ensures
        r == (tool_named(json_views(tools@), tool@) is Some),
{
    find_tool(tools, tool).is_some()
}

/// What a tool wants as its arguments.
pub fn input_schema<'a>(tools: &'a Vec<Json>, tool: &str) -> (r: Option<&'a Json>)
    ensures
        opt_ref(r) == schema_of(json_views(tools@), tool@),
{
    match find_tool(tools, tool) {
        Some(found) => found.get("inputSchema"),
        None => None,
    }
}

/// The names of the tools that have one.
pub fn names_of(tools: &Vec<Json>) -> (r: Vec<String>)
    ensures
        views(r@) == tool_names(json_views(tools@)),
{
    let ghost all = json_views(tools@);
    let mut out: Vec<String> = Vec::new();
    let mut i: usize = 0;
    assert(views(out@) =~= seq![]);
    while i < tools.len()
        invariant
            all == json_views(tools@),
            i <= tools@.len(),
            views(out@) == tool_names(all.take(i as int)),
        decreases tools@.len() - i,
    {
        assert(all.take(i + 1).drop_last() =~= all.take(i as int));
        let ghost before = views(out@);
        if let Some(name) = tools[i].text_at("name") {
            out.push(name.to_owned());
            assert(views(out@) =~= before.push(name@));
        }
        i += 1;
    }
    assert(all.take(i as int) =~= all);
    out
}

/// The texts among values.
pub(crate) fn texts_in(items: &Vec<Json>) -> (r: Vec<String>)
    ensures
        views(r@) == texts_among(json_views(items@)),
{
    let ghost all = json_views(items@);
    let mut out: Vec<String> = Vec::new();
    let mut i: usize = 0;
    assert(views(out@) =~= seq![]);
    while i < items.len()
        invariant
            all == json_views(items@),
            i <= items@.len(),
            views(out@) == texts_among(all.take(i as int)),
        decreases items@.len() - i,
    {
        assert(all.take(i + 1).drop_last() =~= all.take(i as int));
        let ghost before = views(out@);
        if let Some(text) = items[i].as_text() {
            out.push(text.to_owned());
            assert(views(out@) =~= before.push(text@));
        }
        i += 1;
    }
    assert(all.take(i as int) =~= all);
    out
}

// ---------------------------------------------------------------------------
// Showing a tool
// ---------------------------------------------------------------------------

/// The arguments that a tool must be given.
pub open spec fn required_of(tool: JsonV) -> Seq<Seq<char>> {
    match tool.get2("inputSchema"@, "required"@) {
        Some(required) => match required.as_array() {
            Some(items) => texts_among(items),
            None => seq![],
        },
        None => seq![],
    }
}

/// The names that are not among others.
pub open spec fn not_among(names: Seq<Seq<char>>, others: Seq<Seq<char>>) -> Seq<Seq<char>>
    decreases names.len(),
{
    if names.len() == 0 {
        seq![]
    } else if others.contains(names.last()) {
        not_among(names.drop_last(), others)
    } else {
        not_among(names.drop_last(), others).push(names.last())
    }
}

/// The arguments that a tool may be given.
pub open spec fn optional_of(tool: JsonV) -> Seq<Seq<char>> {
    match tool.get2("inputSchema"@, "properties"@) {
        Some(properties) => match properties.as_object() {
            Some(members) => not_among(keys(members), required_of(tool)),
            None => seq![],
        },
        None => seq![],
    }
}

/// How arguments are shown: each with the given text before its flag and behind it.
pub open spec fn flags_shown(names: Seq<Seq<char>>, before: Seq<char>, behind: Seq<char>) -> Seq<char>
    decreases names.len(),
{
    if names.len() == 0 {
        seq![]
    } else {
        flags_shown(names.drop_last(), before, behind) + (before + names.last() + " <"@ + names.last()
            + behind)
    }
}

/// The name of a tool and the arguments that it takes.
pub open spec fn usage(tool: JsonV) -> Seq<char> {
    let name = match tool.text_at("name"@) {
        Some(name) => name,
        None => "?"@,
    };
    name + (flags_shown(required_of(tool), " --"@, ">"@) + flags_shown(
        optional_of(tool),
        " [--"@,
        ">]"@,
    ))
}

/// What a tool says of itself.
pub open spec fn description_of(tool: JsonV) -> Seq<char> {
    let said = match tool.get("description"@) {
        Some(description) => Some(description),
        None => tool.get("title"@),
    };
    match said {
        Some(value) => match value.as_text() {
            Some(text) => text,
            None => seq![],
        },
        None => seq![],
    }
}

/// The first of some lines that is not blank.
pub open spec fn first_line(lines: Seq<Seq<char>>) -> Option<Seq<char>>
    decreases lines.len(),
{
    if lines.len() == 0 {
        None
    } else if !blank(lines[0]) {
        Some(lines[0])
    } else {
        first_line(lines.skip(1))
    }
}

/// The lines that show a tool.
pub open spec fn tool_lines(tool: JsonV) -> Seq<Seq<char>> {
    match first_line(lines(description_of(tool))) {
        Some(line) => seq![usage(tool), "    "@ + trim(line)],
        None => seq![usage(tool)],
    }
}

fn show_flags(names: &Vec<String>, before: &str, behind: &str) -> (r: String)
    ensures
        r@ == flags_shown(views(names@), before@, behind@),
{
    let ghost all = views(names@);
    let mut out = String::new();
    let mut i: usize = 0;
    while i < names.len()
        invariant
            all == views(names@),
            i <= names@.len(),
            out@ == flags_shown(all.take(i as int), before@, behind@),
        decreases names@.len() - i,
    {
        assert(all.take(i + 1).drop_last() =~= all.take(i as int));
        let ghost start = out@;
        let name = names[i].as_str();
        let mut flag = concat3(before, name, " <");
        flag.append(name);
        flag.append(behind);
        out.append(flag.as_str());
        assert(out@ =~= start + (before@ + name@ + " <"@ + name@ + behind@));
        i += 1;
    }
    assert(all.take(i as int) =~= all);
    out
}

/// Whether a name is among others.
fn is_among(name: &str, others: &Vec<String>) -> (r: bool)
    ensures
        r == views(others@).contains(name@),
{
    let mut i: usize = 0;
    while i < others.len()
        invariant
            i <= others@.len(),
            forall|k: int| 0 <= k < i ==> (#[trigger] views(others@)[k]) != name@,
        decreases others@.len() - i,
    {
        if same(others[i].as_str(), name) {
            assert(views(others@)[i as int] == name@);
            return true;
        }
        i += 1;
    }
    false
}

fn leave_out(names: &Vec<String>, others: &Vec<String>) -> (r: Vec<String>)
    ensures
        views(r@) == not_among(views(names@), views(others@)),
{
    let ghost all = views(names@);
    let mut out: Vec<String> = Vec::new();
    let mut i: usize = 0;
    assert(views(out@) =~= seq![]);
    while i < names.len()
        invariant
            all == views(names@),
            i <= names@.len(),
            views(out@) == not_among(all.take(i as int), views(others@)),
        decreases names@.len() - i,
    {
        assert(all.take(i + 1).drop_last() =~= all.take(i as int));
        let ghost before = views(out@);
        if !is_among(names[i].as_str(), others) {
            out.push(names[i].clone());
            assert(views(out@) =~= before.push(names@[i as int]@));
        }
        i += 1;
    }
    assert(all.take(i as int) =~= all);
    out
}

fn required_names(tool: &Json) -> (r: Vec<String>)
    ensures
        views(r@) == required_of(tool@),
{
    match tool.get2("inputSchema", "required") {
        Some(required) => match required.as_array() {
            Some(items) => texts_in(items),
            None => {
                let none: Vec<String> = Vec::new();
                assert(views(none@) =~= seq![]);
                none
            },
        },
        None => {
            let none: Vec<String> = Vec::new();
            assert(views(none@) =~= seq![]);
            none
        },
    }
}

fn optional_names(tool: &Json, required: &Vec<String>) -> (r: Vec<String>)
    requires
        views(required@) == required_of(tool@),
    ensures
        views(r@) == optional_of(tool@),
{
    match tool.get2("inputSchema", "properties") {
        Some(properties) => match properties.as_object() {
            Some(table) => {
                proof {
                    crate::table::on_values_commutes(table@, |j: Json| j@, seq![], Json::Null);
                }
                leave_out(&table.keys(), required)
            },
            None => {
                let none: Vec<String> = Vec::new();
                assert(views(none@) =~= seq![]);
                none
            },
        },
        None => {
            let none: Vec<String> = Vec::new();
            assert(views(none@) =~= seq![]);
            none
        },
    }
}

/// The name of a tool and the arguments that it takes.
pub fn signature(tool: &Json) -> (r: String)
    ensures
        r@ == usage(tool@),
{
    let name: &str = match tool.text_at("name") {
        Some(name) => name,
        None => "?",
    };
    let required = required_names(tool);
    let optional = optional_names(tool, &required);
    let flags = concat(
        show_flags(&required, " --", ">").as_str(),
        show_flags(&optional, " [--", ">]").as_str(),
    );
    concat(name, flags.as_str())
}

fn description(tool: &Json) -> (r: String)
    ensures
        r@ == description_of(tool@),
{
    let said = match tool.get("description") {
        Some(description) => Some(description),
        None => tool.get("title"),
    };
    match said {
        Some(value) => match value.as_text() {
            Some(text) => text.to_owned(),
            None => String::new(),
        },
        None => String::new(),
    }
}

fn first_line_of(parts: &Vec<String>) -> (r: Option<String>)
    ensures
        crate::text::opt_view(r) == first_line(views(parts@)),
{
    let ghost all = views(parts@);
    let mut i: usize = 0;
    assert(all.skip(0) =~= all);
    while i < parts.len()
        invariant
            all == views(parts@),
            i <= parts@.len(),
            first_line(all) == first_line(all.skip(i as int)),
        decreases parts@.len() - i,
    {
        assert(all.skip(i as int)[0] == parts@[i as int]@);
        assert(all.skip(i as int).skip(1) =~= all.skip(i + 1));
        if !is_blank(parts[i].as_str()) {
            return Some(parts[i].clone());
        }
        i += 1;
    }
    assert(all.skip(i as int) =~= seq![]);
    None
}

/// The lines that show a tool.
pub fn show_tool(tool: &Json) -> (r: Vec<String>)
    ensures
        views(r@) == tool_lines(tool@),
{
    let mut out: Vec<String> = Vec::new();
    out.push(signature(tool));
    let said = description(tool);
    if let Some(line) = first_line_of(&lines_of(chars_of(said.as_str()).as_slice())) {
        out.push(concat("    ", trim_text(line.as_str()).as_str()));
    }
    assert(views(out@) =~= tool_lines(tool@));
    out
}

// ---------------------------------------------------------------------------
// Showing all tools
// ---------------------------------------------------------------------------

/// What is printed: the mathematical model of [`Printed`].
pub struct Page {
    pub out: Seq<Seq<char>>,
    pub err: Seq<Seq<char>>,
}

/// What is printed: lines for the output stream, and then lines for the error stream.
#[derive(Debug, PartialEq)]
pub struct Printed {
    pub out: Vec<String>,
    pub err: Vec<String>,
}

impl View for Printed {
    type V = Page;

    open spec fn view(&self) -> Page {
        Page { out: views(self.out@), err: views(self.err@) }
    }
}

/// The lines that show tools, one tool after another.
pub open spec fn tools_lines(tools: Seq<JsonV>) -> Seq<Seq<char>>
    decreases tools.len(),
{
    if tools.len() == 0 {
        seq![]
    } else {
        tools_lines(tools.drop_last()) + tool_lines(tools.last())
    }
}

/// The list of the tools of a server, for the user.
pub open spec fn tools_page(name: Seq<char>, tools: Seq<JsonV>) -> Page {
    if tools.len() == 0 {
        Page { out: seq![], err: seq![name + " exposes no tools."@] }
    } else {
        Page {
            out: tools_lines(tools),
            err: seq![
                "\n"@ + decimal(tools.len()) + " tools. Full schemas: mcp "@ + name + " tools"@,
            ],
        }
    }
}

/// The list of the tools of a server, for the user.
pub fn list_tools(name: &str, tools: &Vec<Json>) -> (r: Printed)
    ensures
        r@ == tools_page(name@, json_views(tools@)),
{
    let ghost all = json_views(tools@);
    let mut out: Vec<String> = Vec::new();
    let mut err: Vec<String> = Vec::new();
    assert(views(out@) =~= seq![]);
    if tools.len() == 0 {
        err.push(concat(name, " exposes no tools."));
        assert(views(err@) =~= seq![name@ + " exposes no tools."@]);
        return Printed { out, err };
    }
    let mut i: usize = 0;
    while i < tools.len()
        invariant
            all == json_views(tools@),
            i <= tools@.len(),
            views(out@) == tools_lines(all.take(i as int)),
        decreases tools@.len() - i,
    {
        assert(all.take(i + 1).drop_last() =~= all.take(i as int));
        let ghost before = views(out@);
        let mut shown = show_tool(&tools[i]);
        let ghost added = views(shown@);
        out.append(&mut shown);
        assert(views(out@) =~= before + added);
        i += 1;
    }
    assert(all.take(i as int) =~= all);
    let mut count = concat3("\n", show_u64(tools.len() as u64).as_str(), " tools. Full schemas: mcp ");
    count.append(name);
    count.append(" tools");
    err.push(count);
    assert(views(err@) =~= seq![count@]);
    Printed { out, err }
}

/// The list of the tools of a server as JSON.
pub fn list_tools_json(tools: &Vec<Json>) -> (r: Result<String, Error>)
    requires
        all_wf(tools@),
    ensures
        match (r, pretty_text(JsonV::Array(json_views(tools@)))) {
            (Ok(text), Ok(printed)) => text@ == printed,
            (Err(e), Err(complaint)) => e@ == plain(complaint),
            _ => false,
        },
{
    let copy = copy_list(tools);
    proof {
        array_view(copy);
        array_wf(json_views(copy@));
        assert forall|i: int| 0 <= i < copy@.len() implies (#[trigger] json_views(copy@)[i]).wf() by {
            assert(copy@[i]@.wf());
        }
    }
    match pretty(&Json::Array(copy)) {
        Ok(text) => Ok(text),
        Err(complaint) => Err(Error::plain(complaint)),
    }
}

/// What is shown of one tool: its description on the error stream and its input
/// schema, or all of it, on the output stream.
pub open spec fn help_page(tool: JsonV) -> Page {
    let schema = match tool.get("inputSchema"@) {
        Some(schema) => schema,
        None => tool,
    };
    Page {
        out: seq![shown(schema)],
        err: match tool.text_at("description"@) {
            Some(description) => seq![trim(description) + "\n"@],
            None => seq![],
        },
    }
}

/// The error that there is no tool of a name.
pub open spec fn no_such_tool(tool: Seq<char>, tools: Seq<JsonV>) -> Fault {
    plain("unknown tool: "@ + tool + ". Available: "@ + joined(tool_names(tools), ", "@))
}

/// The description and the input schema of one tool.
pub fn tool_help(tools: &Vec<Json>, tool: &str) -> (r: Result<Printed, Error>)
    requires
        all_wf(tools@),
    ensures
        match tool_named(json_views(tools@), tool@) {
            Some(found) => r matches Ok(printed) && printed@ == help_page(found),
            None => r matches Err(e) && e@ == no_such_tool(tool@, json_views(tools@)),
        },
{
    match find_tool(tools, tool) {
        None => {
            let names = join(&names_of(tools), ", ");
            let mut headline = concat3("unknown tool: ", tool, ". Available: ");
            headline.append(names.as_str());
            Err(Error::plain(headline))
        },
        Some(found) => {
            let mut out: Vec<String> = Vec::new();
            let mut err: Vec<String> = Vec::new();
            assert(views(err@) =~= seq![]);
            if let Some(said) = found.text_at("description") {
                let line = concat(trim_text(said).as_str(), "\n");
                err.push(line);
                assert(views(err@) =~= seq![line@]);
            }
            proof {
                member_wf(found@, "inputSchema"@);
            }
            let schema = match found.get("inputSchema") {
                Some(schema) => schema,
                None => found,
            };
            let text = to_pretty(schema);
            out.push(text);
            assert(views(out@) =~= seq![text@]);
            Ok(Printed { out, err })
        },
    }
}

// ---------------------------------------------------------------------------
// Calls of tools that do not exist
// ---------------------------------------------------------------------------

/// Whether an error, in lower case, says that there is no such tool.
pub open spec fn says_unknown(lower: Seq<char>) -> bool {
    has(lower, "not found"@) || has(lower, "unknown tool"@)
}

/// Whether an error, in lower case, says that there is no such tool.
pub fn denies_tool(lower: &str) -> (r: bool)
    ensures
        r == says_unknown(lower@),
{
    crate::text::contains(lower, "not found") || crate::text::contains(lower, "unknown tool")
}

/// Whether an error says that there is no such tool, in whatever case.
pub fn is_unknown_tool(error: &Error) -> (r: bool)
    ensures
        r == says_unknown(lower_text(error@.headline)),
{
    denies_tool(to_lower_text(error.headline.as_str()).as_str())
}

/// The error with what is available put before it, if anything is.
pub open spec fn with_available(error: Fault, names: Seq<Seq<char>>) -> Fault {
    if names.len() == 0 {
        error
    } else {
        because("available tools: "@ + joined(names, ", "@), error.message())
    }
}

/// The error with the tools that there are put before it, if there are any.
pub fn name_available(error: Error, tools: &Vec<Json>) -> (r: Error)
    ensures
        r@ == with_available(error@, tool_names(json_views(tools@))),
{
    let names = names_of(tools);
    assert(views(names@).len() == names@.len());
    if names.len() == 0 {
        error
    } else {
        let headline = concat("available tools: ", join(&names, ", ").as_str());
        Error::because(headline, error.message())
    }
}

// ---------------------------------------------------------------------------
// Laws
// ---------------------------------------------------------------------------

/// A tool that is found bears the name that was looked for, and one that is not
/// found is not among the tools.
pub proof fn a_found_tool_bears_its_name(tools: Seq<JsonV>, name: Seq<char>)
    ensures
        match tool_named(tools, name) {
            Some(tool) => tools.contains(tool) && is_named(tool, name),
            None => forall|i: int| 0 <= i < tools.len() ==> !is_named(#[trigger] tools[i], name),
        },
    decreases tools.len(),
{
    if tools.len() > 0 && !is_named(tools[0], name) {
        let rest = tools.skip(1);
        a_found_tool_bears_its_name(rest, name);
        match tool_named(rest, name) {
            Some(tool) => {
                let i = choose|i: int| 0 <= i < rest.len() && rest[i] == tool;
                assert(tools[i + 1] == tool);
            },
            None => {
                assert forall|i: int| 0 <= i < tools.len() implies !is_named(#[trigger] tools[i], name) by {
                    if i > 0 {
                        assert(rest[i - 1] == tools[i]);
                    }
                }
            },
        }
    } else if tools.len() > 0 {
        assert(tools[0] == tools[0]);
    }
}

/// No argument of a tool is shown both as one that it must be given and as one that
/// it may be given.
pub proof fn no_argument_is_shown_twice(tool: JsonV, key: Seq<char>)
    ensures
        optional_of(tool).contains(key) ==> !required_of(tool).contains(key),
{
    if let Some(properties) = tool.get2("inputSchema"@, "properties"@) {
        if let Some(members) = properties.as_object() {
            left_out_is_not_there(keys(members), required_of(tool), key);
        }
    }
}

proof fn left_out_is_not_there(names: Seq<Seq<char>>, others: Seq<Seq<char>>, key: Seq<char>)
    ensures
        not_among(names, others).contains(key) ==> !others.contains(key),
    decreases names.len(),
{
    if names.len() > 0 {
        left_out_is_not_there(names.drop_last(), others, key);
        let before = not_among(names.drop_last(), others);
        if not_among(names, others).contains(key) && others.contains(key) {
            let i = choose|i: int|
                0 <= i < not_among(names, others).len() && not_among(names, others)[i] == key;
            if others.contains(names.last()) {
                assert(before[i] == key);
            } else if i < before.len() {
                assert(before[i] == key);
            }
        }
    }
}

/// A tool is found by its name, the first where several have it.
pub proof fn the_first_tool_of_a_name_is_found(
    before: Seq<JsonV>,
    tool: JsonV,
    more: Seq<JsonV>,
    name: Seq<char>,
)
    requires
        tool.get("name"@) == Some(JsonV::Text(name)),
        forall|i: int|
            0 <= i < before.len() ==> (#[trigger] before[i]).get("name"@) != Some(JsonV::Text(name)),
    ensures
        tool_named(before.push(tool) + more, name) == Some(tool),
        schema_of(before.push(tool) + more, name) == tool.get("inputSchema"@),
        tool_named(before, name) is None,
        schema_of(before, name) is None,
    decreases before.len(),
{
    let all = before.push(tool) + more;
    if before.len() == 0 {
        assert(all[0] == tool);
    } else {
        let rest = before.skip(1);
        assert(all[0] == before[0]);
        assert(all.skip(1) =~= rest.push(tool) + more);
        assert forall|i: int| 0 <= i < rest.len() implies (#[trigger] rest[i]).get("name"@) != Some(
            JsonV::Text(name),
        ) by {
            assert(rest[i] == before[i + 1]);
        }
        assert(before[0].get("name"@) != Some(JsonV::Text(name)));
        the_first_tool_of_a_name_is_found(rest, tool, more, name);
    }
}

/// Of some values the texts are kept in their order, and nothing else.
pub proof fn texts_are_kept_in_order(items: Seq<JsonV>, text: Seq<char>, other: JsonV)
    ensures
        texts_among(seq![]).len() == 0,
        texts_among(items.push(JsonV::Text(text))) == texts_among(items).push(text),
        !(other is Text) ==> texts_among(items.push(other)) == texts_among(items),
{
    assert(items.push(JsonV::Text(text)).drop_last() =~= items);
    assert(items.push(other).drop_last() =~= items);
}

/// The names of tools are kept in their order, and a tool without a name has none.
pub proof fn names_are_kept_in_order(tools: Seq<JsonV>, tool: JsonV, name: Seq<char>)
    ensures
        tool_names(seq![]).len() == 0,
        tool.get("name"@) == Some(JsonV::Text(name)) ==> tool_names(tools.push(tool)) == tool_names(
            tools,
        ).push(name),
        !(tool.get("name"@) matches Some(JsonV::Text(_))) ==> tool_names(tools.push(tool))
            == tool_names(tools),
{
    assert(tools.push(tool).drop_last() =~= tools);
}

/// What a tool requires is what its schema lists, and nothing where it lists nothing.
pub proof fn the_schema_lists_what_is_required(tool: JsonV, schema: JsonV, items: Seq<JsonV>)
    ensures
        tool.get("inputSchema"@) == Some(schema) && schema.get("required"@) == Some(JsonV::Array(items))
            ==> required_of(tool) == texts_among(items),
        tool.get("inputSchema"@) == Some(schema) && !(schema.get("required"@) matches Some(
            JsonV::Array(_),
        )) ==> required_of(tool).len() == 0,
        tool.get("inputSchema"@) is None ==> required_of(tool).len() == 0 && optional_of(tool).len() == 0,
{
}

proof fn kept_or_left_out(names: Seq<Seq<char>>, others: Seq<Seq<char>>, key: Seq<char>)
    ensures
        not_among(names, others).contains(key) <==> names.contains(key) && !others.contains(key),
        not_among(names, others).len() <= names.len(),
    decreases names.len(),
{
    if names.len() > 0 {
        let before = names.drop_last();
        kept_or_left_out(before, others, key);
        let last = names.last();
        assert(names =~= before.push(last));
        let kept = not_among(before, others);
        if names.contains(key) {
            let i = choose|i: int| 0 <= i < names.len() && names[i] == key;
            if i < before.len() {
                assert(before[i] == key);
            }
        }
        if before.contains(key) {
            let i = choose|i: int| 0 <= i < before.len() && before[i] == key;
            assert(names[i] == key);
        }
        if !others.contains(last) {
            assert(kept.push(last)[kept.len() as int] == last);
            if kept.contains(key) {
                let i = choose|i: int| 0 <= i < kept.len() && kept[i] == key;
                assert(kept.push(last)[i] == key);
            }
            if kept.push(last).contains(key) {
                let i = choose|i: int| 0 <= i < kept.push(last).len() && kept.push(last)[i] == key;
                if i < kept.len() {
                    assert(kept[i] == key);
                } else {
                    assert(names[names.len() - 1] == key);
                }
            }
        }
        if last == key {
            assert(names[names.len() - 1] == key);
        }
    }
}

/// Every property of a tool is either required or optional and so is shown in its usage,
/// also where the schema requires nothing; and nothing but properties is optional.
pub proof fn every_property_is_shown(
    tool: JsonV,
    schema: JsonV,
    properties: Seq<(Seq<char>, JsonV)>,
    key: Seq<char>,
)
    requires
        tool.get("inputSchema"@) == Some(schema),
        schema.get("properties"@) == Some(JsonV::Object(properties)),
    ensures
        keys(properties).contains(key) ==> required_of(tool).contains(key) || optional_of(tool).contains(
            key,
        ),
        optional_of(tool).contains(key) <==> keys(properties).contains(key) && !required_of(
            tool,
        ).contains(key),
{
    kept_or_left_out(keys(properties), required_of(tool), key);
}

/// Optional properties stand in the order in which the schema has them, each once.
pub proof fn optional_properties_keep_their_order(
    names: Seq<Seq<char>>,
    name: Seq<char>,
    others: Seq<Seq<char>>,
)
    ensures
        !others.contains(name) ==> not_among(names.push(name), others) == not_among(names, others).push(
            name,
        ),
        others.contains(name) ==> not_among(names.push(name), others) == not_among(names, others),
        not_among(seq![], others).len() == 0,
{
    assert(names.push(name).drop_last() =~= names);
}

/// Where a schema has no object of properties, nothing is optional.
pub proof fn without_properties_nothing_is_optional(tool: JsonV, schema: JsonV)
    requires
        tool.get("inputSchema"@) == Some(schema),
        !(schema.get("properties"@) matches Some(JsonV::Object(_))),
    ensures
        optional_of(tool).len() == 0,
{
}

/// The usage of a tool is its name, then what it requires, then in brackets what it may
/// be given, each as a flag with a value of its name.
pub proof fn usage_shows_names_and_flags(tool: JsonV, name: Seq<char>, names: Seq<Seq<char>>, key: Seq<char>)
    ensures
        tool.get("name"@) == Some(JsonV::Text(name)) ==> usage(tool) == name + (flags_shown(
            required_of(tool),
            " --"@,
            ">"@,
        ) + flags_shown(optional_of(tool), " [--"@, ">]"@)),
        !(tool.get("name"@) matches Some(JsonV::Text(_))) ==> usage(tool) == "?"@ + (flags_shown(
            required_of(tool),
            " --"@,
            ">"@,
        ) + flags_shown(optional_of(tool), " [--"@, ">]"@)),
        flags_shown(seq![], " --"@, ">"@).len() == 0,
        flags_shown(seq![], " [--"@, ">]"@).len() == 0,
        flags_shown(names.push(key), " --"@, ">"@) == flags_shown(names, " --"@, ">"@) + (" --"@ + key
            + " <"@ + key + ">"@),
        flags_shown(names.push(key), " [--"@, ">]"@) == flags_shown(names, " [--"@, ">]"@) + (" [--"@
            + key + " <"@ + key + ">]"@),
{
    assert(names.push(key).drop_last() =~= names);
}

/// A tool is described by its description, by its title where it has none, and not at
/// all where that is no text.
pub proof fn tools_are_described_in_their_words(tool: JsonV, text: Seq<char>)
    ensures
        tool.get("description"@) == Some(JsonV::Text(text)) ==> description_of(tool) == text,
        tool.get("description"@) is None && tool.get("title"@) == Some(JsonV::Text(text))
            ==> description_of(tool) == text,
        tool.get("description"@) is None && tool.get("title"@) is None ==> description_of(tool).len() == 0,
        tool.get("description"@) matches Some(other) && !(other is Text) ==> description_of(tool).len()
            == 0,
{
}

/// The first line that is not blank is taken.
pub proof fn blank_lines_are_passed_over(before: Seq<Seq<char>>, line: Seq<char>, more: Seq<Seq<char>>)
    requires
        forall|i: int| 0 <= i < before.len() ==> blank(#[trigger] before[i]),
        !blank(line),
    ensures
        first_line(before.push(line) + more) == Some(line),
        first_line(before) is None,
    decreases before.len(),
{
    let all = before.push(line) + more;
    if before.len() == 0 {
        assert(all[0] == line);
    } else {
        let rest = before.skip(1);
        assert(all[0] == before[0]);
        assert(all.skip(1) =~= rest.push(line) + more);
        assert forall|i: int| 0 <= i < rest.len() implies blank(#[trigger] rest[i]) by {
            assert(rest[i] == before[i + 1]);
        }
        assert(blank(before[0]));
        blank_lines_are_passed_over(rest, line, more);
    }
}

/// A tool takes a line for its usage, and below that an indented one for the first line
/// of its description if there is one.
pub proof fn a_tool_takes_one_line_or_two(tool: JsonV, line: Seq<char>)
    ensures
        first_line(lines(description_of(tool))) == Some(line) ==> tool_lines(tool) == seq![
            usage(tool),
            "    "@ + trim(line),
        ],
        first_line(lines(description_of(tool))) is None ==> tool_lines(tool) == seq![usage(tool)],
{
}

/// Tools are listed one after another on the output stream, and counted on the error
/// stream, where it is also said that there are none.
pub proof fn tools_are_listed_and_counted(name: Seq<char>, tools: Seq<JsonV>, tool: JsonV)
    ensures
        tools_lines(seq![]).len() == 0,
        tools_lines(tools.push(tool)) == tools_lines(tools) + tool_lines(tool),
        tools.len() > 0 ==> tools_page(name, tools).out == tools_lines(tools),
        tools.len() > 0 ==> tools_page(name, tools).err == seq![
            "\n"@ + decimal(tools.len()) + " tools. Full schemas: mcp "@ + name + " tools"@,
        ],
        tools_page(name, seq![]).out.len() == 0,
        tools_page(name, seq![]).err == seq![name + " exposes no tools."@],
{
    assert(tools.push(tool).drop_last() =~= tools);
}

/// The help for a tool prints its schema, or the whole tool where it has none, and says
/// its description on the error stream.
pub proof fn help_prints_the_schema(tool: JsonV, schema: JsonV, text: Seq<char>)
    ensures
        tool.get("inputSchema"@) == Some(schema) ==> help_page(tool).out == seq![shown(schema)],
        tool.get("inputSchema"@) is None ==> help_page(tool).out == seq![shown(tool)],
        tool.get("description"@) == Some(JsonV::Text(text)) ==> help_page(tool).err == seq![
            trim(text) + "\n"@,
        ],
        !(tool.get("description"@) matches Some(JsonV::Text(_))) ==> help_page(tool).err.len() == 0,
{
}

/// An error denies a tool exactly if it holds one of two phrases.
pub proof fn a_missing_tool_is_told_by_two_phrases(before: Seq<char>, tail: Seq<char>, text: Seq<char>)
    ensures
        says_unknown(before + "not found"@ + tail),
        says_unknown(before + "unknown tool"@ + tail),
        says_unknown(text) ==> has(text, "not found"@) || has(text, "unknown tool"@),
{
    a_part_is_found(seq![], before, "not found"@, tail);
    a_part_is_found(seq![], before, "unknown tool"@, tail);
}

/// An error that denies a tool is reported behind the names of those that there are, if
/// there are any.
pub proof fn available_tools_are_named(error: Fault, names: Seq<Seq<char>>, tool: Seq<char>, tools: Seq<JsonV>)
    ensures
        names.len() > 0 ==> with_available(error, names) == because(
            "available tools: "@ + joined(names, ", "@),
            error.message(),
        ),
        names.len() == 0 ==> with_available(error, names) == error,
        no_such_tool(tool, tools) == plain(
            "unknown tool: "@ + tool + ". Available: "@ + joined(tool_names(tools), ", "@),
        ),
{
}

/// A page is seen with the lines of both streams.
pub proof fn pages_are_seen_whole(printed: Printed)
    ensures
        printed@.out == views(printed.out@) && printed@.err == views(printed.err@),
{
}

} // verus!
