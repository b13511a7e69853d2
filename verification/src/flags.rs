//! Tool arguments: from `--key value` flags and from JSON text to a JSON object.

use vstd::prelude::*;
use vstd::string::*;

use crate::error::{because, plain, Error, Fault};
use crate::json::{
    array_view, array_wf, compact_text, float_view, json_views, members_stay_wf, members_view,
    object_view, object_wf, opt_ref, outcome, parse_float, parse_json, parse_view, parse_wf,
    parsed_json, read_float, to_compact, Float, Json, JsonNumber, JsonV,
};
use crate::numeral::{
    decimal, decimal_int, decimal_int_reads_back, parse_i64, read_i64, signs_and_sizes_of_numbers,
};
use crate::table::{
    a_name_finds_its_value, ascending, key_from, key_is_first, keys, lookup, on_values_commutes,
    place_from, place_is_first, put, put_twice, Table,
};
use crate::text::{
    a_beginning_is_a_prefix, a_text_is_split_at_the_first_sign, begins, behind, chars_of, concat,
    find, found_char, join, joined, joined_pieces_come_apart, normalize, pieces, plain_name, quote,
    quoted, same, same_chars, split_at_first, split_first, split_on, starts_with, string_of, strip,
    trim, trim_text, views,
};

verus! {

// ---------------------------------------------------------------------------
// Values
// ---------------------------------------------------------------------------

/// What `i64`'s reader says of a text that is no integer of 64 bits.
pub uninterp spec fn integer_complaint(text: Seq<char>) -> Seq<char>;

/// `str::parse` to `i64`: the text of the error, empty where there is none.
#[verifier::external_body]
fn integer_error(text: &str) -> (r: String)
    ensures
        r@ == integer_complaint(text@),
{
    match text.parse::<i64>() {
        Ok(_) => String::new(),
        Err(e) => e.to_string(),
    }
}

/// The JSON value of an integer.
pub open spec fn integer_json(i: i64) -> JsonV {
    if i < 0 {
        JsonV::Number(JsonNumber::NegInt(i))
    } else {
        JsonV::Number(JsonNumber::PosInt(i as u64))
    }
}

/// What the text of a flag stands for when the schema asks for a number, and
/// reading it gave `read`. JSON has no number that is not finite.
pub open spec fn number_of(read: Result<Option<Float>, Seq<char>>, text: Seq<char>) -> Result<
    JsonV,
    Fault,
> {
    match read {
        Ok(Some(f)) => Ok(JsonV::Number(JsonNumber::Float(f))),
        Ok(None) => Err(plain("expected a number, got "@ + quoted(text))),
        Err(cause) => Err(because("expected a number, got "@ + quoted(text), cause)),
    }
}

/// What the text of a flag stands for when the schema asks for an integer.
pub open spec fn integer_of(text: Seq<char>) -> Result<JsonV, Fault> {
    match read_i64(text) {
        Some(i) => Ok(integer_json(i)),
        None => Err(because("expected an integer, got "@ + quoted(text), integer_complaint(text))),
    }
}

/// What the text of a flag stands for when the schema asks for a boolean.
pub open spec fn boolean_of(text: Seq<char>) -> Result<JsonV, Fault> {
    if text == "true"@ || text == "1"@ || text == "yes"@ {
        Ok(JsonV::Bool(true))
    } else if text == "false"@ || text == "0"@ || text == "no"@ {
        Ok(JsonV::Bool(false))
    } else {
        Err(plain("expected a boolean, got "@ + quoted(text)))
    }
}

/// What the text of a flag stands for when the schema asks for an object, and
/// reading it as JSON gave `parsed`.
pub open spec fn object_of(parsed: Result<JsonV, Seq<char>>, text: Seq<char>) -> Result<
    JsonV,
    Fault,
> {
    match parsed {
        Ok(v) => if v is Object {
            Ok(v)
        } else {
            Err(plain("expected a JSON object, got "@ + quoted(text)))
        },
        Err(cause) => Err(because("expected a JSON object, got "@ + quoted(text), cause)),
    }
}

/// What the text of a flag stands for when the schema asks for a `kind` other
/// than an array.
pub open spec fn coerced_scalar(value: Seq<char>, kind: Seq<char>) -> Result<JsonV, Fault> {
    if kind == "number"@ {
        number_of(read_float(value), value)
    } else if kind == "integer"@ {
        integer_of(value)
    } else if kind == "boolean"@ {
        boolean_of(value)
    } else if kind == "object"@ {
        object_of(parsed_json(value), value)
    } else {
        Ok(JsonV::Text(value))
    }
}

/// How deep arrays nest in what a schema asks for.
pub open spec fn depth(kind: Seq<char>, item_kind: Seq<char>) -> nat {
    if kind == "array"@ {
        if item_kind == "array"@ {
            2
        } else {
            1
        }
    } else {
        0
    }
}

/// What the text of a flag stands for when the schema asks for a `kind`, with
/// items of `item_kind` where that is an array. An array is either written in
/// JSON or as items between commas.
pub open spec fn coerced(value: Seq<char>, kind: Seq<char>, item_kind: Seq<char>) -> Result<
    JsonV,
    Fault,
>
    decreases depth(kind, item_kind), 0nat,
{
    proof {
        reveal_strlit("array");
        reveal_strlit("string");
        assert("array"@.len() != "string"@.len());
    }
    if kind == "array"@ {
        array_of(parsed_json(value), value, item_kind)
    } else {
        coerced_scalar(value, kind)
    }
}

/// What the text of a flag stands for when the schema asks for an array, and
/// reading it as JSON gave `parsed`: the array that it is in JSON, else the items
/// between its commas.
pub open spec fn array_of(
    parsed: Result<JsonV, Seq<char>>,
    text: Seq<char>,
    item_kind: Seq<char>,
) -> Result<JsonV, Fault>
    decreases depth(item_kind, "string"@), pieces(text, ',').len() + 2,
{
    if parsed is Ok && parsed->Ok_0 is Array {
        Ok(parsed->Ok_0)
    } else {
        match coerced_items(pieces(text, ','), item_kind) {
            Ok(items) => Ok(JsonV::Array(items)),
            Err(e) => Err(e),
        }
    }
}

/// What the items of an array stand for, each without the white space around it;
/// the error of the first that stands for nothing.
pub open spec fn coerced_items(items: Seq<Seq<char>>, item_kind: Seq<char>) -> Result<
    Seq<JsonV>,
    Fault,
>
    decreases depth(item_kind, "string"@), items.len() + 1,
{
    proof {
        reveal_strlit("array");
        reveal_strlit("string");
        assert("array"@.len() != "string"@.len());
    }
    if items.len() == 0 {
        Ok(seq![])
    } else {
        match coerced_items(items.drop_last(), item_kind) {
            Ok(done) => match coerced(trim(items.last()), item_kind, "string"@) {
                Ok(v) => Ok(done.push(v)),
                Err(e) => Err(e),
            },
            Err(e) => Err(e),
        }
    }
}

/// The value of a flag that is to be a number, from what reading its text gave.
pub fn number_value(read: Result<Option<Float>, String>, text: &str) -> (r: Result<Json, Error>)
    ensures
        outcome(r) == number_of(float_view(read), text@),
        r matches Ok(v) ==> v@.wf(),
{
    match read {
        Ok(Some(f)) => Ok(Json::Number(JsonNumber::Float(f))),
        Ok(None) => Err(Error::plain(concat("expected a number, got ", quote(text).as_str()))),
        Err(cause) => {
            let headline = concat("expected a number, got ", quote(text).as_str());
            Err(Error::because(headline, cause))
        },
    }
}

/// The value of a flag that is to be an integer.
pub fn integer_value(text: &str) -> (r: Result<Json, Error>)
    ensures
        outcome(r) == integer_of(text@),
        r matches Ok(v) ==> v@.wf(),
{
    match parse_i64(text) {
        Some(i) => if i < 0 {
            Ok(Json::Number(JsonNumber::NegInt(i)))
        } else {
            Ok(Json::Number(JsonNumber::PosInt(i as u64)))
        },
        None => {
            let headline = concat("expected an integer, got ", quote(text).as_str());
            Err(Error::because(headline, integer_error(text)))
        },
    }
}

/// The value of a flag that is to be a boolean.
pub fn boolean_value(text: &str) -> (r: Result<Json, Error>)
    ensures
        outcome(r) == boolean_of(text@),
        r matches Ok(v) ==> v@.wf(),
{
    if same(text, "true") || same(text, "1") || same(text, "yes") {
        Ok(Json::Bool(true))
    } else if same(text, "false") || same(text, "0") || same(text, "no") {
        Ok(Json::Bool(false))
    } else {
        Err(Error::plain(concat("expected a boolean, got ", quote(text).as_str())))
    }
}

/// The value of a flag that is to be an object, from what reading its text as
/// JSON gave.
pub fn object_value(parsed: Result<Json, String>, text: &str) -> (r: Result<Json, Error>)
    requires
        parse_wf(parsed),
    ensures
        outcome(r) == object_of(parse_view(parsed), text@),
        r matches Ok(v) ==> v@.wf(),
{
    match parsed {
        Ok(v) => match v {
            Json::Object(_) => Ok(v),
            _ => Err(Error::plain(concat("expected a JSON object, got ", quote(text).as_str()))),
        },
        Err(cause) => {
            let headline = concat("expected a JSON object, got ", quote(text).as_str());
            Err(Error::because(headline, cause))
        },
    }
}

/// The value of a flag that is to be an array, from what reading its text as
/// JSON gave.
pub fn array_value(parsed: Result<Json, String>, text: &str, item_kind: &str) -> (r: Result<
    Json,
    Error,
>)
    requires
        parse_wf(parsed),
    ensures
        outcome(r) == array_of(parse_view(parsed), text@, item_kind@),
        r matches Ok(v) ==> v@.wf(),
    decreases depth(item_kind@, "string"@), 1nat,
{
    match parsed {
        Ok(v) => match v {
            Json::Array(_) => {
                return Ok(v);
            },
            _ => {},
        },
        Err(_) => {},
    }
    let parts = split_on(chars_of(text).as_slice(), ',');
    let mut out: Vec<Json> = Vec::new();
    let mut i: usize = 0;
    let ghost all = views(parts@);
    assert(json_views(out@) =~= seq![]);
    while i < parts.len()
        invariant
            all == views(parts@),
            all == pieces(text@, ','),
            !(parse_view(parsed) is Ok && parse_view(parsed)->Ok_0 is Array),
            i <= parts@.len(),
            coerced_items(all.take(i as int), item_kind@) == Ok::<Seq<JsonV>, Fault>(
                json_views(out@),
            ),
            forall|k: int| 0 <= k < out@.len() ==> (#[trigger] json_views(out@)[k]).wf(),
        decreases parts@.len() - i,
    {
        let item = trim_text(parts[i].as_str());
        proof {
            assert(all.take(i + 1).drop_last() =~= all.take(i as int));
        }
        match coerce_kind(item.as_str(), item_kind, "string") {
            Ok(v) => {
                let ghost before = json_views(out@);
                out.push(v);
                assert(json_views(out@) =~= before.push(v@));
            },
            Err(e) => {
                proof {
                    first_error_stays(all, i + 1, item_kind@);
                }
                return Err(e);
            },
        }
        i += 1;
    }
    proof {
        assert(all.take(i as int) =~= all);
        array_view(out);
        array_wf(json_views(out@));
    }
    Ok(Json::Array(out))
}

/// Turns the text of a flag into a value of the given kind, with items of the
/// given kind where that is an array.
fn coerce_kind(value: &str, kind: &str, item_kind: &str) -> (r: Result<Json, Error>)
    ensures
        outcome(r) == coerced(value@, kind@, item_kind@),
        r matches Ok(v) ==> v@.wf(),
    decreases depth(kind@, item_kind@), 0nat,
{
    proof {
        reveal_strlit("array");
        reveal_strlit("string");
        assert("array"@.len() != "string"@.len());
    }
    if same(kind, "array") {
        array_value(parse_json(value), value, item_kind)
    } else if same(kind, "number") {
        number_value(parse_float(value), value)
    } else if same(kind, "integer") {
        integer_value(value)
    } else if same(kind, "boolean") {
        boolean_value(value)
    } else if same(kind, "object") {
        object_value(parse_json(value), value)
    } else {
        Ok(Json::Text(value.to_owned()))
    }
}

/// What is wrong with the first items is wrong with all of them.
proof fn first_error_stays(items: Seq<Seq<char>>, n: int, item_kind: Seq<char>)
    requires
        0 <= n <= items.len(),
        coerced_items(items.take(n), item_kind) is Err,
    ensures
        coerced_items(items, item_kind) == coerced_items(items.take(n), item_kind),
    decreases items.len() - n,
{
    if n < items.len() {
        assert(items.take(n + 1).drop_last() =~= items.take(n));
        first_error_stays(items, n + 1, item_kind);
    } else {
        assert(items.take(n) =~= items);
    }
}

/// The kind of the items that a property of a schema asks for.
pub open spec fn item_kind_of(property: Option<JsonV>) -> Seq<char> {
    match property {
        Some(p) => match p.get2("items"@, "type"@) {
            Some(t) => match t.as_text() {
                Some(kind) => kind,
                None => "string"@,
            },
            None => "string"@,
        },
        None => "string"@,
    }
}

/// Turns the text of a flag into a value of the kind that the schema asks for.
/// `property` is what the schema says of the flag.
pub fn coerce(value: &str, kind: &str, property: Option<&Json>) -> (r: Result<Json, Error>)
    ensures
        outcome(r) == coerced(value@, kind@, item_kind_of(opt_ref(property))),
        r matches Ok(v) ==> v@.wf(),
{
    let item_kind: &str = match property {
        Some(p) => match p.get2("items", "type") {
            Some(t) => match t.as_text() {
                Some(kind) => kind,
                None => "string",
            },
            None => "string",
        },
        None => "string",
    };
    coerce_kind(value, kind, item_kind)
}

// ---------------------------------------------------------------------------
// Flags
// ---------------------------------------------------------------------------

/// The properties that a schema names.
pub open spec fn properties_of(schema: Option<JsonV>) -> Option<Seq<(Seq<char>, JsonV)>> {
    match schema {
        Some(s) => match s.get("properties"@) {
            Some(p) => p.as_object(),
            None => None,
        },
        None => None,
    }
}

/// The first name from `i` on that is `wanted` but for case and separators.
pub open spec fn similar_from(
    properties: Seq<(Seq<char>, JsonV)>,
    wanted: Seq<char>,
    i: int,
) -> Option<Seq<char>>
    decreases properties.len() - i,
{
    if i >= properties.len() {
        None
    } else if plain_name(properties[i].0) == wanted {
        Some(properties[i].0)
    } else {
        similar_from(properties, wanted, i + 1)
    }
}

/// The property that a flag means: the one of its name, else the first whose
/// name is the same but for case and separators, else the name as it is.
pub open spec fn resolved(key: Seq<char>, properties: Seq<(Seq<char>, JsonV)>) -> Seq<char> {
    if lookup(properties, key) is Some {
        key
    } else {
        match similar_from(properties, plain_name(key), 0) {
            Some(name) => name,
            None => key,
        }
    }
}

/// The kind of value that a property asks for.
pub open spec fn kind_of(property: Option<JsonV>) -> Seq<char> {
    match property {
        Some(p) => match p.text_at("type"@) {
            Some(kind) => kind,
            None => "string"@,
        },
        None => "string"@,
    }
}

/// The name of a flag and the value behind its equals sign.
pub open spec fn flag_parts(flag: Seq<char>) -> (Seq<char>, Option<Seq<char>>) {
    match split_at_first(flag, '=') {
        Some((key, value)) => (key, Some(value)),
        None => (flag, None),
    }
}

/// The names of all properties as flags.
pub open spec fn as_flags(names: Seq<Seq<char>>) -> Seq<Seq<char>> {
    names.map_values(|k: Seq<char>| "--"@ + k)
}

/// The error for an argument that is no flag.
pub open spec fn unexpected_argument(argument: Seq<char>) -> Fault {
    plain(
        "unexpected argument "@ + quoted(argument)
            + "; pass tool arguments as JSON or --key value"@,
    )
}

/// The error for a flag that the schema does not know.
pub open spec fn unknown_argument(key: Seq<char>, names: Seq<Seq<char>>) -> Fault {
    plain("unknown argument --"@ + key + "; this tool accepts: "@ + joined(as_flags(names), ", "@))
}

/// The error for a flag without a value.
pub open spec fn needs_value(key: Seq<char>) -> Fault {
    plain("--"@ + key + " needs a value"@)
}

/// The text that a flag's value is given as, and how many arguments that takes:
/// the text behind the equals sign, else the next argument unless that is a flag
/// itself, else `true` for a boolean.
pub open spec fn flag_text(
    args: Seq<Seq<char>>,
    inline: Option<Seq<char>>,
    kind: Seq<char>,
    key: Seq<char>,
) -> Result<(Seq<char>, int), Fault> {
    match inline {
        Some(value) => Ok((value, 1)),
        None => if args.len() > 1 && !begins(args[1], "--"@) {
            Ok((args[1], 2))
        } else if kind == "boolean"@ {
            Ok(("true"@, 1))
        } else {
            Err(needs_value(key))
        },
    }
}

/// What the schema says of the flag with the given name: the property that it
/// means, and that property.
pub open spec fn meant(name: Seq<char>, properties: Option<Seq<(Seq<char>, JsonV)>>) -> (
    Seq<char>,
    Option<JsonV>,
) {
    match properties {
        Some(p) => (resolved(name, p), lookup(p, resolved(name, p))),
        None => (name, None),
    }
}

/// The first flag of `args`: its property, its value, and how many arguments it
/// takes.
pub open spec fn first_flag(
    args: Seq<Seq<char>>,
    properties: Option<Seq<(Seq<char>, JsonV)>>,
) -> Result<(Seq<char>, JsonV, int), Fault> {
    match behind(args[0], "--"@) {
        None => Err(unexpected_argument(args[0])),
        Some(flag) => {
            let (name, inline) = flag_parts(flag);
            let (key, property) = meant(name, properties);
            if properties is Some && property is None {
                Err(unknown_argument(key, keys(properties->0)))
            } else {
                let kind = kind_of(property);
                match flag_text(args, inline, kind, key) {
                    Err(e) => Err(e),
                    Ok((text, used)) => match coerced(text, kind, item_kind_of(property)) {
                        Err(e) => Err(e),
                        Ok(value) => Ok((key, value, used)),
                    },
                }
            }
        },
    }
}

/// The object that flags stand for, on top of the members that are there
/// already. A flag that comes again replaces its value.
pub open spec fn flags_onto(
    args: Seq<Seq<char>>,
    properties: Option<Seq<(Seq<char>, JsonV)>>,
    members: Seq<(Seq<char>, JsonV)>,
) -> Result<JsonV, Fault>
    decreases args.len(),
{
    if args.len() == 0 {
        Ok(JsonV::Object(members))
    } else {
        match first_flag(args, properties) {
            Err(e) => Err(e),
            Ok((key, value, used)) => if 1 <= used <= args.len() {
                flags_onto(args.skip(used), properties, put(members, key, value))
            } else {
                Ok(JsonV::Object(members))
            },
        }
    }
}

/// The object that the flags of a command line stand for.
pub open spec fn flags_object(args: Seq<Seq<char>>, schema: Option<JsonV>) -> Result<JsonV, Fault> {
    flags_onto(args, properties_of(schema), seq![])
}

/// Matches a flag name against the properties of a schema, ignoring case and the
/// word separators `-` and `_`, so that `include-archived` finds
/// `includeArchived`.
pub fn resolve_key(key: &str, properties: &Table<Json>) -> (r: String)
    ensures
        r@ == resolved(key@, members_view(properties@)),
{
    let ghost all = members_view(properties@);
    proof {
        on_values_commutes(properties@, |j: Json| j@, key@, Json::Null);
    }
    if properties.contains_key(key) {
        return key.to_owned();
    }
    let wanted = normalize(key);
    let mut i: usize = 0;
    while i < properties.entries.len()
        invariant
            all == members_view(properties@),
            wanted@ == plain_name(key@),
            lookup(all, key@) is None,
            i <= properties.entries@.len(),
            similar_from(all, wanted@, 0) == similar_from(all, wanted@, i as int),
        decreases properties.entries@.len() - i,
    {
        let name = &properties.entries[i].0;
        assert(all[i as int].0 == name@);
        if same_chars(normalize(name.as_str()).as_slice(), wanted.as_slice()) {
            return name.clone();
        }
        i += 1;
    }
    key.to_owned()
}

/// The names of a table as flags.
fn flag_names(properties: &Table<Json>) -> (r: Vec<String>)
    ensures
        views(r@) == as_flags(keys(properties@)),
{
    let names = properties.keys();
    let ghost all = keys(properties@);
    let mut out: Vec<String> = Vec::new();
    let mut i: usize = 0;
    while i < names.len()
        invariant
            all == views(names@),
            i <= names@.len(),
            views(out@) =~= as_flags(all).take(i as int),
        decreases names@.len() - i,
    {
        let ghost before = views(out@);
        out.push(concat("--", names[i].as_str()));
        assert(views(out@) =~= before.push(as_flags(all)[i as int]));
        assert(as_flags(all).take(i + 1) =~= as_flags(all).take(i as int).push(
            as_flags(all)[i as int],
        ));
        i += 1;
    }
    assert(as_flags(all).take(i as int) =~= as_flags(all));
    out
}

/// Turns `--key value` and `--key=value` pairs into a JSON object, with the
/// values that the tool's input schema asks for where there is one.
pub fn parse_flags(args: &Vec<String>, schema: Option<&Json>) -> (r: Result<Json, Error>)
    ensures
        outcome(r) == flags_object(views(args@), opt_ref(schema)),
        r matches Ok(v) ==> v@.wf(),
{
    let properties: Option<&Table<Json>> = match schema {
        Some(s) => match s.get("properties") {
            Some(p) => p.as_object(),
            None => None,
        },
        None => None,
    };
    let ghost props = properties_of(opt_ref(schema));
    let ghost all = views(args@);
    let mut object: Table<Json> = Table::new();
    let mut index: usize = 0;
    proof {
        assert(all.skip(0) =~= all);
        assert(members_view(object@) =~= seq![]);
    }
    while index < args.len()
        invariant
            all == views(args@),
            props == properties_of(opt_ref(schema)),
            props == match properties {
                Some(p) => Some(members_view(p@)),
                None => None,
            },
            object.wf(),
            forall|k: int|
                0 <= k < members_view(object@).len() ==> (#[trigger] members_view(
                    object@,
                )[k]).1.wf(),
            index <= args@.len(),
            flags_onto(all, props, seq![]) == flags_onto(
                all.skip(index as int),
                props,
                members_view(object@),
            ),
        decreases args@.len() - index,
    {
        let ghost rest = all.skip(index as int);
        let argument = &args[index];
        assert(rest[0] == argument@);
        let chars = chars_of(argument.as_str());
        let flag: &[char] = match strip(chars.as_slice(), chars_of("--").as_slice()) {
            Some(flag) => flag,
            None => {
                let mut headline = concat("unexpected argument ", quote(argument.as_str()).as_str());
                headline.append("; pass tool arguments as JSON or --key value");
                return Err(Error::plain(headline));
            },
        };
        let (name, inline): (String, Option<String>) = match split_first(flag, '=') {
            Some((key, value)) => (string_of(key), Some(string_of(value))),
            None => (string_of(flag), None),
        };
        let key: String = match properties {
            Some(p) => resolve_key(name.as_str(), p),
            None => name,
        };
        proof {
            match properties {
                Some(p) => {
                    on_values_commutes(p@, |j: Json| j@, key@, Json::Null);
                },
                None => {},
            }
        }
        let property: Option<&Json> = match properties {
            Some(p) => p.get(key.as_str()),
            None => None,
        };
        if property.is_none() {
            if let Some(p) = properties {
                let mut headline = concat("unknown argument --", key.as_str());
                headline.append("; this tool accepts: ");
                headline.append(join(&flag_names(p), ", ").as_str());
                return Err(Error::plain(headline));
            }
        }
        let kind: &str = match property {
            Some(p) => match p.text_at("type") {
                Some(kind) => kind,
                None => "string",
            },
            None => "string",
        };
        let mut used: usize = 1;
        let value: String = match inline {
            Some(value) => value,
            None => {
                if index + 1 < args.len() && !starts_with(args[index + 1].as_str(), "--") {
                    assert(rest[1] == args@[index + 1]@);
                    used = 2;
                    args[index + 1].clone()
                } else if same(kind, "boolean") {
                    "true".to_owned()
                } else {
                    let mut headline = concat("--", key.as_str());
                    headline.append(" needs a value");
                    return Err(Error::plain(headline));
                }
            },
        };
        match coerce(value.as_str(), kind, property) {
            Ok(v) => {
                let ghost before = members_view(object@);
                let ghost k = key@;
                proof {
                    on_values_commutes(object@, |j: Json| j@, k, v);
                    assert(rest.skip(used as int) =~= all.skip(index + used));
                }
                object.insert(key, v);
                proof {
                    assert(members_view(object@) =~= put(before, k, v@));
                    members_stay_wf(before, k, v@);
                }
            },
            Err(e) => {
                return Err(e);
            },
        }
        index += used;
    }
    proof {
        object_view(object);
        object_wf(members_view(object@));
        on_values_commutes(object@, |j: Json| j@, seq![], Json::Null);
    }
    Ok(Json::Object(object))
}

// ---------------------------------------------------------------------------
// JSON text
// ---------------------------------------------------------------------------

/// What a JSON argument stands for, when reading its text gave `parsed`.
pub open spec fn json_argument(parsed: Result<JsonV, Seq<char>>, text: Seq<char>) -> Result<
    JsonV,
    Fault,
> {
    match parsed {
        Err(cause) => Err(because("arguments must be a JSON object, got: "@ + trim(text), cause)),
        Ok(v) => if v is Object {
            Ok(v)
        } else {
            Err(plain("arguments must be a JSON object, got: "@ + compact_text(v)))
        },
    }
}

/// The arguments of a tool, from what reading their text gave: a JSON object.
pub fn argument_value(parsed: Result<Json, String>, text: &str) -> (r: Result<Json, Error>)
    requires
        parse_wf(parsed),
    ensures
        outcome(r) == json_argument(parse_view(parsed), text@),
        r matches Ok(v) ==> v@.wf(),
{
    match parsed {
        Err(cause) => {
            let headline = concat(
                "arguments must be a JSON object, got: ",
                trim_text(text).as_str(),
            );
            Err(Error::because(headline, cause))
        },
        Ok(v) => if v.is_object() {
            Ok(v)
        } else {
            let headline = concat(
                "arguments must be a JSON object, got: ",
                to_compact(&v).as_str(),
            );
            Err(Error::plain(headline))
        },
    }
}

/// Whether an argument asks for the JSON text on the standard input.
pub fn reads_stdin(argument: &str) -> (r: bool)
    ensures
        r == (argument@ == "-"@),
{
    same(argument, "-")
}

/// Reads the arguments of a tool, which must be a JSON object.
pub fn parse_json_argument(text: &str) -> (r: Result<Json, Error>)
    ensures
        outcome(r) == json_argument(parsed_json(text@), text@),
        r matches Ok(v) ==> v@.wf(),
{
    argument_value(parse_json(text), text)
}

// ---------------------------------------------------------------------------
// Laws
// ---------------------------------------------------------------------------

/// A value that a schema accepts has the type that the schema names: what a flag
/// stands for is a number, an integer of 64 bits, a boolean, an array or an object
/// where that is asked for, and its text as it is otherwise.
pub proof fn values_have_their_kind(value: Seq<char>, kind: Seq<char>, item_kind: Seq<char>)
    ensures
        coerced(value, kind, item_kind) matches Ok(v) ==> {
            &&& kind == "number"@ ==> v is Number
            &&& kind == "integer"@ ==> exists|i: i64| v == #[trigger] integer_json(i)
            &&& kind == "boolean"@ ==> v is Bool
            &&& kind == "array"@ ==> v is Array
            &&& kind == "object"@ ==> v is Object
            &&& kind != "number"@ && kind != "integer"@ && kind != "boolean"@ && kind != "array"@
                && kind != "object"@ ==> v == JsonV::Text(value)
        },
{
    reveal_strlit("number");
    reveal_strlit("integer");
    reveal_strlit("boolean");
    reveal_strlit("array");
    reveal_strlit("object");
    assert("number"@.len() == 6 && "number"@[0] == 'n');
    assert("object"@.len() == 6 && "object"@[0] == 'o');
    assert("integer"@.len() == 7 && "integer"@[0] == 'i');
    assert("boolean"@.len() == 7 && "boolean"@[0] == 'b');
    assert("array"@.len() == 5);
}

/// Of an array that is written as items between commas, each item is what its text
/// stands for by itself.
pub proof fn items_are_read_one_by_one(items: Seq<Seq<char>>, item_kind: Seq<char>)
    ensures
        coerced_items(items, item_kind) matches Ok(values) ==> {
            &&& values.len() == items.len()
            &&& forall|i: int|
                0 <= i < items.len() ==> coerced(trim(#[trigger] items[i]), item_kind, "string"@)
                    == Ok::<JsonV, Fault>(values[i])
        },
    decreases items.len(),
{
    if items.len() > 0 {
        let before = items.drop_last();
        items_are_read_one_by_one(before, item_kind);
        assert forall|i: int| 0 <= i < before.len() implies before[i] == items[i] by {}
        if let Ok(values) = coerced_items(items, item_kind) {
            let some = coerced_items(before, item_kind)->Ok_0;
            assert forall|i: int| 0 <= i < items.len() implies coerced(
                trim(#[trigger] items[i]),
                item_kind,
                "string"@,
            ) == Ok::<JsonV, Fault>(values[i]) by {
                if i < before.len() {
                    assert(before[i] == items[i]);
                    assert(values[i] == some[i]);
                }
            }
        }
    }
}

/// `--key value` and `--key=value` say the same, wherever they stand, unless the
/// value looks like a flag.
pub proof fn inline_value_equals_separate_value(
    before: Seq<Seq<char>>,
    name: Seq<char>,
    value: Seq<char>,
    rest: Seq<Seq<char>>,
    properties: Option<Seq<(Seq<char>, JsonV)>>,
    members: Seq<(Seq<char>, JsonV)>,
)
    requires
        !name.contains('='),
        !begins(value, "--"@),
    ensures
        flags_onto(before + seq!["--"@ + name, value] + rest, properties, members) == flags_onto(
            before + seq!["--"@ + name + seq!['='] + value] + rest,
            properties,
            members,
        ),
    decreases before.len(),
{
    let separate = before + seq!["--"@ + name, value] + rest;
    let inline = before + seq!["--"@ + name + seq!['='] + value] + rest;
    if before.len() == 0 {
        assert(separate =~= seq!["--"@ + name, value] + rest);
        assert(inline =~= seq!["--"@ + name + seq!['='] + value] + rest);
        inline_value_at_the_front(name, value, rest, properties, members);
    } else {
        assert(separate[0] == before[0] && inline[0] == before[0]);
        if before.len() > 1 {
            assert(separate[1] == before[1] && inline[1] == before[1]);
        } else {
            prefix_comes_off("--"@, name);
            prefix_comes_off("--"@, name + seq!['='] + value);
            assert("--"@ + name + seq!['='] + value =~= "--"@ + (name + seq!['='] + value));
            assert(separate[1] == "--"@ + name);
            assert(inline[1] == "--"@ + (name + seq!['='] + value));
            assert(begins(separate[1], "--"@) && begins(inline[1], "--"@));
        }
        assert(first_flag(separate, properties) == first_flag(inline, properties));
        if let Ok((key, v, used)) = first_flag(separate, properties) {
            let left = before.skip(used);
            assert(separate.skip(used) =~= left + seq!["--"@ + name, value] + rest);
            assert(inline.skip(used) =~= left + seq!["--"@ + name + seq!['='] + value] + rest);
            inline_value_equals_separate_value(
                left,
                name,
                value,
                rest,
                properties,
                put(members, key, v),
            );
        }
    }
}

proof fn inline_value_at_the_front(
    name: Seq<char>,
    value: Seq<char>,
    rest: Seq<Seq<char>>,
    properties: Option<Seq<(Seq<char>, JsonV)>>,
    members: Seq<(Seq<char>, JsonV)>,
)
    requires
        !name.contains('='),
        !begins(value, "--"@),
    ensures
        flags_onto(seq!["--"@ + name, value] + rest, properties, members) == flags_onto(
            seq!["--"@ + name + seq!['='] + value] + rest,
            properties,
            members,
        ),
{
    let separate = seq!["--"@ + name, value] + rest;
    let inline = seq!["--"@ + name + seq!['='] + value] + rest;
    prefix_comes_off("--"@, name);
    assert("--"@ + name + seq!['='] + value =~= "--"@ + (name + seq!['='] + value));
    prefix_comes_off("--"@, name + seq!['='] + value);
    assert(separate[0] == "--"@ + name);
    assert(separate[1] == value);
    assert(inline[0] == "--"@ + (name + seq!['='] + value));
    found_char(name, '=');
    let flag = name + seq!['='] + value;
    found_char(flag, '=');
    assert(find(name, seq!['=']) is None) by {
        if find(name, seq!['=']) is Some {
            assert(name.contains('='));
        }
    }
    assert(flag[name.len() as int] == '=');
    assert(find(flag, seq!['=']) == Some(name.len() as int)) by {
        let i = find(flag, seq!['='])->0;
        if i < name.len() {
            assert(flag[i] == name[i]);
            assert(name.contains('='));
        }
    }
    assert(flag.take(name.len() as int) =~= name);
    assert(flag.skip(name.len() as int + 1) =~= value);
    assert(separate.skip(2) =~= rest);
    assert(inline.skip(1) =~= rest);
}

/// A boolean flag may stand alone: at the end or before another flag it is true.
pub proof fn lone_boolean_is_true(
    name: Seq<char>,
    rest: Seq<Seq<char>>,
    properties: Seq<(Seq<char>, JsonV)>,
    members: Seq<(Seq<char>, JsonV)>,
)
    requires
        !name.contains('='),
        rest.len() == 0 || begins(rest[0], "--"@),
        lookup(properties, resolved(name, properties)) is Some,
        kind_of(lookup(properties, resolved(name, properties))) == "boolean"@,
    ensures
        flags_onto(seq!["--"@ + name] + rest, Some(properties), members) == flags_onto(
            rest,
            Some(properties),
            put(members, resolved(name, properties), JsonV::Bool(true)),
        ),
{
    let args = seq!["--"@ + name] + rest;
    prefix_comes_off("--"@, name);
    assert(args[0] == "--"@ + name);
    found_char(name, '=');
    assert(find(name, seq!['=']) is None) by {
        if find(name, seq!['=']) is Some {
            assert(name.contains('='));
        }
    }
    if rest.len() > 0 {
        assert(args[1] == rest[0]);
    }
    assert(args.skip(1) =~= rest);
    reveal_strlit("boolean");
    reveal_strlit("array");
    reveal_strlit("number");
    reveal_strlit("integer");
    assert("boolean"@.len() != "array"@.len());
    assert("boolean"@.len() != "number"@.len());
    assert("boolean"@[0] != "integer"@[0]);
    let property = lookup(properties, resolved(name, properties));
    assert(coerced("true"@, "boolean"@, item_kind_of(property)) == Ok::<JsonV, Fault>(
        JsonV::Bool(true),
    ));
}

/// Of two flags for one property the later counts.
pub proof fn later_flag_replaces(
    first: Seq<Seq<char>>,
    second: Seq<Seq<char>>,
    rest: Seq<Seq<char>>,
    properties: Option<Seq<(Seq<char>, JsonV)>>,
    members: Seq<(Seq<char>, JsonV)>,
)
    requires
        ascending(members),
        first.len() > 0,
        second.len() > 0,
        first_flag(first + (second + rest), properties) is Ok,
        first_flag(second + rest, properties) is Ok,
        first_flag(first + (second + rest), properties)->Ok_0.2 == first.len(),
        first_flag(second + rest, properties)->Ok_0.2 == second.len(),
        first_flag(first + (second + rest), properties)->Ok_0.0 == first_flag(
            second + rest,
            properties,
        )->Ok_0.0,
    ensures
        flags_onto(first + (second + rest), properties, members) == flags_onto(
            second + rest,
            properties,
            members,
        ),
{
    let tail = second + rest;
    let all = first + tail;
    let (key, value, used) = first_flag(all, properties)->Ok_0;
    let (_, later, _) = first_flag(tail, properties)->Ok_0;
    assert(all.skip(used) =~= tail);
    put_twice(members, key, value, later);
    reveal_with_fuel(flags_onto, 3);
}

/// Where a schema names its properties, no other member gets into the object.
pub proof fn members_are_properties(
    args: Seq<Seq<char>>,
    properties: Seq<(Seq<char>, JsonV)>,
    members: Seq<(Seq<char>, JsonV)>,
)
    requires
        forall|i: int|
            0 <= i < members.len() ==> lookup(properties, (#[trigger] members[i]).0) is Some,
    ensures
        flags_onto(args, Some(properties), members) matches Ok(v) ==> v is Object && (forall|i: int|
            0 <= i < v->Object_0.len() ==> lookup(
                properties,
                (#[trigger] v->Object_0[i]).0,
            ) is Some),
    decreases args.len(),
{
    if args.len() > 0 {
        match first_flag(args, Some(properties)) {
            Ok((key, value, used)) => {
                if 1 <= used <= args.len() {
                    let next = put(members, key, value);
                    place_is_first(members, key, 0);
                    let at = place_from(members, key, 0);
                    assert forall|i: int| 0 <= i < next.len() implies lookup(
                        properties,
                        (#[trigger] next[i]).0,
                    ) is Some by {
                        if at < members.len() && members[at].0 == key {
                            if i != at {
                                assert(next[i] == members[i]);
                            }
                        } else if i < at {
                            assert(next[i] == members[i]);
                        } else if i > at {
                            assert(next[i] == members[i - 1]);
                        }
                    }
                    members_are_properties(args.skip(used), properties, next);
                }
            },
            Err(_) => {},
        }
    }
}

/// A flag finds a property whose name is the same but for case and separators,
/// if there is one.
pub proof fn similar_name_is_found(
    key: Seq<char>,
    properties: Seq<(Seq<char>, JsonV)>,
    i: int,
)
    requires
        0 <= i < properties.len(),
        plain_name(properties[i].0) == plain_name(key),
    ensures
        keys(properties).contains(resolved(key, properties)),
        plain_name(resolved(key, properties)) == plain_name(key),
{
    key_is_first(properties, key, 0);
    match key_from(properties, key, 0) {
        Some(k) => {
            assert(keys(properties)[k] == key);
        },
        None => {
            similar_is_first(properties, plain_name(key), 0, i);
        },
    }
}

proof fn similar_is_first(
    properties: Seq<(Seq<char>, JsonV)>,
    wanted: Seq<char>,
    from: int,
    i: int,
)
    requires
        0 <= from <= i < properties.len(),
        plain_name(properties[i].0) == wanted,
    ensures
        similar_from(properties, wanted, from) is Some,
        keys(properties).contains(similar_from(properties, wanted, from)->0),
        plain_name(similar_from(properties, wanted, from)->0) == wanted,
    decreases i - from,
{
    if plain_name(properties[from].0) == wanted {
        assert(keys(properties)[from] == properties[from].0);
    } else {
        similar_is_first(properties, wanted, from + 1, i);
    }
}

/// Without a schema every value is a string.
pub proof fn without_a_schema_values_are_text(args: Seq<Seq<char>>)
    requires
        args.len() > 0,
    ensures
        first_flag(args, None) matches Ok((_, value, _)) ==> value is Text,
{
    reveal_strlit("string");
    reveal_strlit("array");
    reveal_strlit("number");
    reveal_strlit("integer");
    reveal_strlit("boolean");
    reveal_strlit("object");
    assert("string"@.len() == 6 && "string"@[0] == 's');
    assert("array"@.len() == 5);
    assert("number"@[0] == 'n');
    assert("integer"@.len() == 7);
    assert("boolean"@.len() == 7);
    assert("object"@[0] == 'o');
}

/// A prefix that was put before a text comes off again.
proof fn prefix_comes_off(prefix: Seq<char>, s: Seq<char>)
    ensures
        behind(prefix + s, prefix) == Some(s),
{
    assert((prefix + s).subrange(0, prefix.len() as int) =~= prefix);
    assert((prefix + s).skip(prefix.len() as int) =~= s);
}

proof fn kinds_differ()
    ensures
        "number"@.len() == 6 && "number"@[0] == 'n',
        "object"@.len() == 6 && "object"@[0] == 'o',
        "string"@.len() == 6 && "string"@[0] == 's',
        "integer"@.len() == 7 && "integer"@[0] == 'i',
        "boolean"@.len() == 7 && "boolean"@[0] == 'b',
        "array"@.len() == 5,
{
    reveal_strlit("number");
    reveal_strlit("integer");
    reveal_strlit("boolean");
    reveal_strlit("array");
    reveal_strlit("object");
    reveal_strlit("string");
}

/// Where a boolean is asked for, `true`, `1` and `yes` are true, `false`, `0` and `no`
/// are false, and anything else is refused.
pub proof fn booleans_are_read_as_they_are_meant(text: Seq<char>, item_kind: Seq<char>)
    ensures
        coerced("true"@, "boolean"@, item_kind) == Ok::<JsonV, Fault>(JsonV::Bool(true)),
        coerced("1"@, "boolean"@, item_kind) == Ok::<JsonV, Fault>(JsonV::Bool(true)),
        coerced("yes"@, "boolean"@, item_kind) == Ok::<JsonV, Fault>(JsonV::Bool(true)),
        coerced("false"@, "boolean"@, item_kind) == Ok::<JsonV, Fault>(JsonV::Bool(false)),
        coerced("0"@, "boolean"@, item_kind) == Ok::<JsonV, Fault>(JsonV::Bool(false)),
        coerced("no"@, "boolean"@, item_kind) == Ok::<JsonV, Fault>(JsonV::Bool(false)),
        text != "true"@ && text != "1"@ && text != "yes"@ && text != "false"@ && text != "0"@ && text
            != "no"@ ==> coerced(text, "boolean"@, item_kind) == Err::<JsonV, Fault>(
            plain("expected a boolean, got "@ + quoted(text)),
        ),
{
    kinds_differ();
    reveal_strlit("true");
    reveal_strlit("1");
    reveal_strlit("yes");
    reveal_strlit("false");
    reveal_strlit("0");
    reveal_strlit("no");
    assert("true"@.len() == 4);
    assert("1"@.len() == 1 && "1"@[0] == '1');
    assert("yes"@.len() == 3);
    assert("false"@.len() == 5);
    assert("0"@.len() == 1 && "0"@[0] == '0');
    assert("no"@.len() == 2);
}

/// Where an integer is asked for, every integer of 64 bits is read as itself, with or
/// without a plus sign, and what is none is refused.
pub proof fn integers_are_read_as_themselves(i: i64, text: Seq<char>, item_kind: Seq<char>)
    ensures
        coerced(decimal_int(i as int), "integer"@, item_kind) == Ok::<JsonV, Fault>(
            if i < 0 {
                JsonV::Number(JsonNumber::NegInt(i))
            } else {
                JsonV::Number(JsonNumber::PosInt(i as u64))
            },
        ),
        i >= 0 ==> coerced(seq!['+'] + decimal(i as nat), "integer"@, item_kind) == coerced(
            decimal_int(i as int),
            "integer"@,
            item_kind,
        ),
        read_i64(text) is None ==> coerced(text, "integer"@, item_kind) == Err::<JsonV, Fault>(
            because("expected an integer, got "@ + quoted(text), integer_complaint(text)),
        ),
{
    kinds_differ();
    decimal_int_reads_back(i);
    if i >= 0 {
        signs_and_sizes_of_numbers(i as nat);
    }
}

/// Where a number is asked for, a finite one is handed on, and anything else is refused.
pub proof fn numbers_are_finite(text: Seq<char>, item_kind: Seq<char>, f: Float, cause: Seq<char>)
    ensures
        read_float(text) == Ok::<Option<Float>, Seq<char>>(Some(f)) ==> coerced(
            text,
            "number"@,
            item_kind,
        ) == Ok::<JsonV, Fault>(JsonV::Number(JsonNumber::Float(f))),
        read_float(text) == Ok::<Option<Float>, Seq<char>>(None) ==> coerced(
            text,
            "number"@,
            item_kind,
        ) == Err::<JsonV, Fault>(plain("expected a number, got "@ + quoted(text))),
        read_float(text) == Err::<Option<Float>, Seq<char>>(cause) ==> coerced(
            text,
            "number"@,
            item_kind,
        ) == Err::<JsonV, Fault>(because("expected a number, got "@ + quoted(text), cause)),
{
    kinds_differ();
}

/// Where a text is asked for, or a kind that is not known, every text is handed on as it
/// is.
pub proof fn texts_are_handed_on(text: Seq<char>, kind: Seq<char>, item_kind: Seq<char>)
    ensures
        coerced(text, "string"@, item_kind) == Ok::<JsonV, Fault>(JsonV::Text(text)),
        kind != "number"@ && kind != "integer"@ && kind != "boolean"@ && kind != "array"@ && kind
            != "object"@ ==> coerced(text, kind, item_kind) == Ok::<JsonV, Fault>(JsonV::Text(text)),
{
    kinds_differ();
}

/// Where an object is asked for, a JSON object is handed on, and anything else is
/// refused.
pub proof fn objects_are_written_in_json(
    text: Seq<char>,
    item_kind: Seq<char>,
    members: Seq<(Seq<char>, JsonV)>,
    other: JsonV,
    cause: Seq<char>,
)
    ensures
        parsed_json(text) == Ok::<JsonV, Seq<char>>(JsonV::Object(members)) ==> coerced(
            text,
            "object"@,
            item_kind,
        ) == Ok::<JsonV, Fault>(JsonV::Object(members)),
        parsed_json(text) == Ok::<JsonV, Seq<char>>(other) && !(other is Object) ==> coerced(
            text,
            "object"@,
            item_kind,
        ) == Err::<JsonV, Fault>(plain("expected a JSON object, got "@ + quoted(text))),
        parsed_json(text) == Err::<JsonV, Seq<char>>(cause) ==> coerced(text, "object"@, item_kind)
            == Err::<JsonV, Fault>(
            because("expected a JSON object, got "@ + quoted(text), cause),
        ),
{
    kinds_differ();
}

/// Where an array is asked for, a JSON array is handed on as it is.
pub proof fn arrays_may_be_written_in_json(text: Seq<char>, item_kind: Seq<char>, items: Seq<JsonV>)
    requires
        parsed_json(text) == Ok::<JsonV, Seq<char>>(JsonV::Array(items)),
    ensures
        coerced(text, "array"@, item_kind) == Ok::<JsonV, Fault>(JsonV::Array(items)),
{
    kinds_differ();
}

proof fn items_with_values(parts: Seq<Seq<char>>, values: Seq<JsonV>, item_kind: Seq<char>)
    requires
        parts.len() == values.len(),
        forall|i: int|
            0 <= i < parts.len() ==> coerced(trim(#[trigger] parts[i]), item_kind, "string"@) == Ok::<
                JsonV,
                Fault,
            >(values[i]),
    ensures
        coerced_items(parts, item_kind) == Ok::<Seq<JsonV>, Fault>(values),
    decreases parts.len(),
{
    if parts.len() == 0 {
        assert(values =~= seq![]);
    } else {
        let before = parts.drop_last();
        let some = values.drop_last();
        assert forall|i: int| 0 <= i < before.len() implies coerced(
            trim(#[trigger] before[i]),
            item_kind,
            "string"@,
        ) == Ok::<JsonV, Fault>(some[i]) by {
            assert(before[i] == parts[i]);
        }
        items_with_values(before, some, item_kind);
        assert(parts[parts.len() - 1] == parts.last());
        assert(some.push(values.last()) =~= values);
    }
}

/// Any other text where an array is asked for is a list of items between commas: as many
/// items, in their order, each without the space around it and of the kind of items.
pub proof fn commas_separate_the_items_of_an_array(
    parts: Seq<Seq<char>>,
    values: Seq<JsonV>,
    item_kind: Seq<char>,
)
    requires
        parts.len() > 0,
        parts.len() == values.len(),
        forall|i: int| 0 <= i < parts.len() ==> !(#[trigger] parts[i]).contains(','),
        forall|i: int|
            0 <= i < parts.len() ==> coerced(trim(#[trigger] parts[i]), item_kind, "string"@) == Ok::<
                JsonV,
                Fault,
            >(values[i]),
        !(parsed_json(joined(parts, seq![','])) matches Ok(JsonV::Array(_))),
    ensures
        coerced(joined(parts, seq![',']), "array"@, item_kind) == Ok::<JsonV, Fault>(
            JsonV::Array(values),
        ),
{
    kinds_differ();
    joined_pieces_come_apart(parts, ',');
    items_with_values(parts, values, item_kind);
}

/// The first item between commas that is not of the kind of items refuses the array, for
/// its own reason.
pub proof fn a_bad_item_refuses_the_array(
    good: Seq<Seq<char>>,
    values: Seq<JsonV>,
    bad: Seq<char>,
    more: Seq<Seq<char>>,
    item_kind: Seq<char>,
    e: Fault,
)
    requires
        good.len() == values.len(),
        forall|i: int| 0 <= i < (good.push(bad) + more).len() ==> !(#[trigger] (good.push(bad)
            + more)[i]).contains(','),
        forall|i: int|
            0 <= i < good.len() ==> coerced(trim(#[trigger] good[i]), item_kind, "string"@) == Ok::<
                JsonV,
                Fault,
            >(values[i]),
        coerced(trim(bad), item_kind, "string"@) == Err::<JsonV, Fault>(e),
        !(parsed_json(joined(good.push(bad) + more, seq![','])) matches Ok(JsonV::Array(_))),
    ensures
        coerced(joined(good.push(bad) + more, seq![',']), "array"@, item_kind) == Err::<JsonV, Fault>(e),
{
    kinds_differ();
    let all = good.push(bad) + more;
    joined_pieces_come_apart(all, ',');
    items_with_values(good, values, item_kind);
    let upto = good.push(bad);
    assert(upto.drop_last() =~= good);
    assert(all.take(upto.len() as int) =~= upto);
    first_error_stays(all, upto.len() as int, item_kind);
}

/// The kind of a property, and that of its items, is what the schema says, and text
/// where it says nothing.
pub proof fn kinds_come_from_the_schema(property: JsonV, kind: Seq<char>)
    ensures
        property.get("type"@) == Some(JsonV::Text(kind)) ==> kind_of(Some(property)) == kind,
        !(property.get("type"@) matches Some(JsonV::Text(_))) ==> kind_of(Some(property)) == "string"@,
        kind_of(None) == "string"@,
        property.get("items"@) matches Some(items) && items.get("type"@) == Some(JsonV::Text(kind))
            ==> item_kind_of(Some(property)) == kind,
        property.get("items"@) is None ==> item_kind_of(Some(property)) == "string"@,
        property.get("items"@) matches Some(items) && !(items.get("type"@) matches Some(JsonV::Text(_)))
            ==> item_kind_of(Some(property)) == "string"@,
        item_kind_of(None) == "string"@,
{
}

/// The properties of a schema are the members of its object of properties.
pub proof fn properties_come_from_the_schema(schema: JsonV, members: Seq<(Seq<char>, JsonV)>)
    ensures
        schema.get("properties"@) == Some(JsonV::Object(members)) ==> properties_of(Some(schema))
            == Some(members),
        !(schema.get("properties"@) matches Some(JsonV::Object(_))) ==> properties_of(Some(schema)) is None,
        properties_of(None) is None,
{
}

/// A property is meant by its own name first, then by the first that is the same but for
/// case and separators; a name that is like none is kept.
pub proof fn a_flag_means_its_property(key: Seq<char>, properties: Seq<(Seq<char>, JsonV)>, i: int)
    ensures
        keys(properties).contains(key) ==> resolved(key, properties) == key,
        !keys(properties).contains(key) && 0 <= i < properties.len() && plain_name(properties[i].0)
            == plain_name(key) && (forall|j: int|
            0 <= j < i ==> plain_name((#[trigger] properties[j]).0) != plain_name(key)) ==> resolved(
            key,
            properties,
        ) == properties[i].0,
        (forall|j: int|
            0 <= j < properties.len() ==> plain_name((#[trigger] properties[j]).0) != plain_name(key))
            ==> resolved(key, properties) == key,
{
    a_name_finds_its_value(properties, key);
    if 0 <= i < properties.len() && plain_name(properties[i].0) == plain_name(key) && (forall|j: int|
        0 <= j < i ==> plain_name((#[trigger] properties[j]).0) != plain_name(key)) {
        similar_at(properties, plain_name(key), 0, i);
    }
    if forall|j: int|
        0 <= j < properties.len() ==> plain_name((#[trigger] properties[j]).0) != plain_name(key) {
        similar_nowhere(properties, plain_name(key), 0);
    }
}

proof fn similar_at(properties: Seq<(Seq<char>, JsonV)>, wanted: Seq<char>, from: int, i: int)
    requires
        0 <= from <= i < properties.len(),
        plain_name(properties[i].0) == wanted,
        forall|j: int| from <= j < i ==> plain_name((#[trigger] properties[j]).0) != wanted,
    ensures
        similar_from(properties, wanted, from) == Some(properties[i].0),
    decreases i - from,
{
    if from < i {
        assert(plain_name(properties[from].0) != wanted);
        similar_at(properties, wanted, from + 1, i);
    }
}

proof fn similar_nowhere(properties: Seq<(Seq<char>, JsonV)>, wanted: Seq<char>, from: int)
    requires
        0 <= from <= properties.len(),
        forall|j: int| from <= j < properties.len() ==> plain_name((#[trigger] properties[j]).0) != wanted,
    ensures
        similar_from(properties, wanted, from) is None,
    decreases properties.len() - from,
{
    if from < properties.len() {
        assert(plain_name(properties[from].0) != wanted);
        similar_nowhere(properties, wanted, from + 1);
    }
}

proof fn name_has_no_sign(name: Seq<char>)
    requires
        !name.contains('='),
    ensures
        behind("--"@ + name, "--"@) == Some(name),
        flag_parts(name) == (name, None::<Seq<char>>),
{
    prefix_comes_off("--"@, name);
    a_text_is_split_at_the_first_sign(name, '=', seq![]);
}

/// A flag and the word behind it put one value into the object, under the property that
/// the flag means and of the kind that the property asks for; the words behind those two
/// go on from there.
pub proof fn a_flag_puts_one_value(
    name: Seq<char>,
    word: Seq<char>,
    rest: Seq<Seq<char>>,
    properties: Seq<(Seq<char>, JsonV)>,
    members: Seq<(Seq<char>, JsonV)>,
    property: JsonV,
    e: Fault,
    value: JsonV,
)
    requires
        !name.contains('='),
        !begins(word, "--"@),
        lookup(properties, resolved(name, properties)) == Some(property),
    ensures
        coerced(word, kind_of(Some(property)), item_kind_of(Some(property))) == Ok::<JsonV, Fault>(value)
            ==> flags_onto(seq!["--"@ + name, word] + rest, Some(properties), members) == flags_onto(
            rest,
            Some(properties),
            put(members, resolved(name, properties), value),
        ),
        coerced(word, kind_of(Some(property)), item_kind_of(Some(property))) == Err::<JsonV, Fault>(e)
            ==> flags_onto(seq!["--"@ + name, word] + rest, Some(properties), members) == Err::<
            JsonV,
            Fault,
        >(e),
{
    let args = seq!["--"@ + name, word] + rest;
    name_has_no_sign(name);
    assert(args[0] == "--"@ + name && args[1] == word);
    assert(args.skip(2) =~= rest);
}

/// Without a schema a flag and the word behind it put that word under the name of the
/// flag.
pub proof fn a_flag_puts_its_word_without_a_schema(
    name: Seq<char>,
    word: Seq<char>,
    rest: Seq<Seq<char>>,
    members: Seq<(Seq<char>, JsonV)>,
)
    requires
        !name.contains('='),
        !begins(word, "--"@),
    ensures
        flags_onto(seq!["--"@ + name, word] + rest, None, members) == flags_onto(
            rest,
            None,
            put(members, name, JsonV::Text(word)),
        ),
{
    let args = seq!["--"@ + name, word] + rest;
    name_has_no_sign(name);
    kinds_differ();
    assert(args[0] == "--"@ + name && args[1] == word);
    assert(args.skip(2) =~= rest);
}

/// When the words are used up the object holds what was put into it, in the beginning
/// nothing.
pub proof fn flags_end_with_the_words(
    properties: Option<Seq<(Seq<char>, JsonV)>>,
    members: Seq<(Seq<char>, JsonV)>,
    args: Seq<Seq<char>>,
    schema: Option<JsonV>,
)
    ensures
        flags_onto(seq![], properties, members) == Ok::<JsonV, Fault>(JsonV::Object(members)),
        flags_object(args, schema) == flags_onto(args, properties_of(schema), seq![]),
{
}

/// A word that is no flag where one is due, a flag that no property is meant by, and a
/// flag without a value that is not a boolean are refused.
pub proof fn misplaced_words_are_refused(
    name: Seq<char>,
    rest: Seq<Seq<char>>,
    properties: Seq<(Seq<char>, JsonV)>,
    members: Seq<(Seq<char>, JsonV)>,
    word: Seq<char>,
)
    requires
        !name.contains('='),
    ensures
        !begins(word, "--"@) ==> flags_onto(seq![word] + rest, Some(properties), members) == Err::<
            JsonV,
            Fault,
        >(
            plain(
                "unexpected argument "@ + quoted(word)
                    + "; pass tool arguments as JSON or --key value"@,
            ),
        ),
        lookup(properties, resolved(name, properties)) is None ==> flags_onto(
            seq!["--"@ + name] + rest,
            Some(properties),
            members,
        ) == Err::<JsonV, Fault>(
            plain(
                "unknown argument --"@ + resolved(name, properties) + "; this tool accepts: "@ + joined(
                    as_flags(keys(properties)),
                    ", "@,
                ),
            ),
        ),
        lookup(properties, resolved(name, properties)) matches Some(property) && kind_of(Some(property))
            != "boolean"@ && (rest.len() == 0 || begins(rest[0], "--"@)) ==> flags_onto(
            seq!["--"@ + name] + rest,
            Some(properties),
            members,
        ) == Err::<JsonV, Fault>(plain("--"@ + resolved(name, properties) + " needs a value"@)),
{
    let stray = seq![word] + rest;
    assert(stray[0] == word);
    a_beginning_is_a_prefix(word, "--"@, seq![]);
    let args = seq!["--"@ + name] + rest;
    name_has_no_sign(name);
    assert(args[0] == "--"@ + name);
    if rest.len() > 0 {
        assert(args[1] == rest[0]);
    }
}

/// Properties are named as flags, each with two dashes before its name.
pub proof fn properties_are_named_as_flags(names: Seq<Seq<char>>, i: int)
    requires
        0 <= i < names.len(),
    ensures
        as_flags(names).len() == names.len(),
        as_flags(names)[i] == "--"@ + names[i],
{
}

/// An argument in JSON has to be an object: that is handed on, and anything else is
/// refused.
pub proof fn arguments_in_json_are_objects(
    text: Seq<char>,
    members: Seq<(Seq<char>, JsonV)>,
    other: JsonV,
    cause: Seq<char>,
)
    ensures
        json_argument(Ok(JsonV::Object(members)), text) == Ok::<JsonV, Fault>(JsonV::Object(members)),
        !(other is Object) ==> json_argument(Ok(other), text) == Err::<JsonV, Fault>(
            plain("arguments must be a JSON object, got: "@ + compact_text(other)),
        ),
        json_argument(Err(cause), text) == Err::<JsonV, Fault>(
            because("arguments must be a JSON object, got: "@ + trim(text), cause),
        ),
{
}

/// Whatever reads as an integer is that integer.
pub proof fn what_reads_as_an_integer_is_one(text: Seq<char>, i: i64, item_kind: Seq<char>)
    requires
        read_i64(text) == Some(i),
    ensures
        i < 0 ==> coerced(text, "integer"@, item_kind) == Ok::<JsonV, Fault>(
            JsonV::Number(JsonNumber::NegInt(i)),
        ),
        i >= 0 ==> coerced(text, "integer"@, item_kind) == Ok::<JsonV, Fault>(
            JsonV::Number(JsonNumber::PosInt(i as u64)),
        ),
{
    kinds_differ();
}

/// A value behind an equals sign is taken whatever it looks like, and only the words
/// behind it go on.
pub proof fn an_inline_value_is_always_taken(
    name: Seq<char>,
    value: Seq<char>,
    rest: Seq<Seq<char>>,
    properties: Seq<(Seq<char>, JsonV)>,
    members: Seq<(Seq<char>, JsonV)>,
    property: JsonV,
    taken: JsonV,
    e: Fault,
)
    requires
        !name.contains('='),
    ensures
        ({
            let word = "--"@ + name + seq!['='] + value;
            &&& lookup(properties, resolved(name, properties)) == Some(property) && coerced(
                value,
                kind_of(Some(property)),
                item_kind_of(Some(property)),
            ) == Ok::<JsonV, Fault>(taken) ==> flags_onto(
                seq![word] + rest,
                Some(properties),
                members,
            ) == flags_onto(
                rest,
                Some(properties),
                put(members, resolved(name, properties), taken),
            )
            &&& lookup(properties, resolved(name, properties)) == Some(property) && coerced(
                value,
                kind_of(Some(property)),
                item_kind_of(Some(property)),
            ) == Err::<JsonV, Fault>(e) ==> flags_onto(seq![word] + rest, Some(properties), members)
                == Err::<JsonV, Fault>(e)
            &&& lookup(properties, resolved(name, properties)) is None ==> flags_onto(
                seq![word] + rest,
                Some(properties),
                members,
            ) == flags_onto(seq!["--"@ + name] + rest, Some(properties), members)
            &&& flags_onto(seq![word] + rest, None, members) == flags_onto(
                rest,
                None,
                put(members, name, JsonV::Text(value)),
            )
        }),
{
    let word = "--"@ + name + seq!['='] + value;
    let flag = name + seq!['='] + value;
    let args = seq![word] + rest;
    let short = seq!["--"@ + name] + rest;
    assert(word =~= "--"@ + flag);
    prefix_comes_off("--"@, flag);
    a_text_is_split_at_the_first_sign(name, '=', value);
    assert(args[0] == "--"@ + flag);
    assert(args.skip(1) =~= rest);
    name_has_no_sign(name);
    assert(short[0] == "--"@ + name);
    kinds_differ();
}

/// Without a schema a word that is no flag where one is due, and a flag without a value,
/// are refused as well.
pub proof fn misplaced_words_are_refused_without_a_schema(
    name: Seq<char>,
    rest: Seq<Seq<char>>,
    members: Seq<(Seq<char>, JsonV)>,
    word: Seq<char>,
)
    requires
        !name.contains('='),
    ensures
        !begins(word, "--"@) ==> flags_onto(seq![word] + rest, None, members) == Err::<JsonV, Fault>(
            plain(
                "unexpected argument "@ + quoted(word)
                    + "; pass tool arguments as JSON or --key value"@,
            ),
        ),
        rest.len() == 0 || begins(rest[0], "--"@) ==> flags_onto(
            seq!["--"@ + name] + rest,
            None,
            members,
        ) == Err::<JsonV, Fault>(plain("--"@ + name + " needs a value"@)),
{
    let stray = seq![word] + rest;
    assert(stray[0] == word);
    a_beginning_is_a_prefix(word, "--"@, seq![]);
    let args = seq!["--"@ + name] + rest;
    name_has_no_sign(name);
    assert(args[0] == "--"@ + name);
    if rest.len() > 0 {
        assert(args[1] == rest[0]);
    }
    kinds_differ();
}

} // verus!
