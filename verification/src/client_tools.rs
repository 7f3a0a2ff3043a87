//! Client-driven tool calling: validating the tool list a client supplies
//! (OpenAI `tools` shape, already parsed as JSON) and reading its
//! `tool_choice`.

use vstd::prelude::*;
use crate::conversion::ToolConverter;
use crate::text::{decimal, push_decimal, push_str, str_eq, string_of, trimmed};

verus! {

/// A parsed JSON value. Numbers keep their text; objects keep their entries
/// in order.
#[derive(Debug)]
pub enum JsonValue {
    Null,
    Bool(bool),
    Number(String),
    String(String),
    Array(Vec<JsonValue>),
    Object(Vec<(String, JsonValue)>),
}

/// The value of the first entry of `entries` with key `key`.
pub open spec fn obj_get(entries: Seq<(String, JsonValue)>, key: Seq<char>) -> Option<JsonValue>
    decreases entries.len(),
{
    if entries.len() == 0 {
        None
    } else if entries[0].0@ == key {
        Some(entries[0].1)
    } else {
        obj_get(entries.drop_first(), key)
    }
}

/// The chars of a JSON string value.
pub open spec fn json_str(v: Option<JsonValue>) -> Option<Seq<char>> {
    match v {
        Some(JsonValue::String(s)) => Some(s@),
        _ => None,
    }
}

/// The entries of a JSON object value.
pub open spec fn json_obj(v: Option<JsonValue>) -> Option<Seq<(String, JsonValue)>> {
    match v {
        Some(JsonValue::Object(e)) => Some(e@),
        _ => None,
    }
}

/// A tool supplied by the client: name, parameter schema (forwarded as
/// given) and optional description.
#[derive(Debug)]
pub struct ClientTool {
    pub name: String,
    pub parameters: JsonValue,
    pub description: Option<String>,
}

/// Why one element of the client tool list was rejected.
pub enum EntryFailure {
    NotObject,
    NotFunctionType(Seq<char>),
    MissingFunction,
    MissingName,
    MissingParameters,
    ParametersNotObject,
}

/// Why element `e` of the client tool list is rejected, if it is: it must
/// be an object whose `type` is the string `function`, whose `function` is
/// an object with a non-empty string `name` and an object `parameters`.
pub open spec fn entry_failure(e: JsonValue) -> Option<EntryFailure> {
    match e {
        JsonValue::Object(entries) => {
            let ty = match json_str(obj_get(entries@, "type"@)) {
                Some(s) => s,
                None => Seq::empty(),
            };
            if ty != "function"@ {
                Some(EntryFailure::NotFunctionType(ty))
            } else {
                match json_obj(obj_get(entries@, "function"@)) {
                    None => Some(EntryFailure::MissingFunction),
                    Some(f) => {
                        let name_ok = match json_str(obj_get(f, "name"@)) {
                            Some(n) => n.len() > 0,
                            None => false,
                        };
                        if !name_ok {
                            Some(EntryFailure::MissingName)
                        } else {
                            match obj_get(f, "parameters"@) {
                                None => Some(EntryFailure::MissingParameters),
                                Some(JsonValue::Object(_)) => None,
                                Some(_) => Some(EntryFailure::ParametersNotObject),
                            }
                        }
                    },
                }
            }
        },
        _ => Some(EntryFailure::NotObject),
    }
}

/// The tool an accepted element describes: name, parameters and the
/// description when it is a string.
pub open spec fn entry_tool(e: JsonValue, t: ClientTool) -> bool {
    let f = json_obj(obj_get(e->Object_0@, "function"@))->Some_0;
    &&& Some(t.name@) == json_str(obj_get(f, "name"@))
    &&& Some(t.parameters) == obj_get(f, "parameters"@)
    &&& match t.description {
        Some(d) => json_str(obj_get(f, "description"@)) == Some(d@),
        None => json_str(obj_get(f, "description"@)) is None,
    }
}

/// `j` is the first rejected element of `elems`.
pub open spec fn first_rejected(elems: Seq<JsonValue>, j: int) -> bool {
    &&& 0 <= j < elems.len()
    &&& entry_failure(elems[j]) is Some
    &&& forall|k: int| 0 <= k < j ==> #[trigger] entry_failure(elems[k]) is None
}

/// Why a client tool list was rejected.
#[derive(Debug)]
pub enum ClientToolsError {
    /// The text is not JSON.
    NotJson { message: String },
    /// The top-level value is not an array.
    NotArray,
    /// Element `index` was rejected; `message` says why.
    Invalid { index: usize, message: String },
}

/// The JSON value serde_json reads from `text`, converted one for one
/// (numbers keep their text, objects their entries in serde_json's key
/// order); `None` when `text` is not JSON.
pub uninterp spec fn json_text_value(text: Seq<char>) -> Option<JsonValue>;

/// The library's value for a serde_json value: one variant for one
/// variant, fields moved, numbers by their text. Used only by
/// [`parse_json_text`] to convert what it parsed.
#[verifier::external_body]
fn json_value_from_serde(v: serde_json::Value) -> JsonValue {
    match v {
        serde_json::Value::Null => JsonValue::Null,
        serde_json::Value::Bool(b) => JsonValue::Bool(b),
        serde_json::Value::Number(n) => JsonValue::Number(n.to_string()),
        serde_json::Value::String(t) => JsonValue::String(t),
        serde_json::Value::Array(a) => JsonValue::Array(a.into_iter().map(json_value_from_serde).collect()),
        serde_json::Value::Object(o) => JsonValue::Object(o.into_iter().map(|(k, x)| (k, json_value_from_serde(x))).collect()),
    }
}

/// `serde_json::from_str::<Value>` followed by the one-for-one conversion:
/// the value `text` holds, `None` when it is not JSON.
#[verifier::external_body]
pub(crate) fn parse_json_text(text: &str) -> (r: Option<JsonValue>)
    ensures
        r == json_text_value(text@),
{
    match serde_json::from_str::<serde_json::Value>(text) {
        Ok(v) => Some(json_value_from_serde(v)),
        Err(_) => None,
    }
}

/// What validating the client tool value `value` gives: `NotArray` for a
/// non-array; for an array, the tools in order when every element is a
/// function tool, else the first rejected element with its message.
pub open spec fn client_tools_result(value: JsonValue, r: Result<Vec<ClientTool>, ClientToolsError>) -> bool {
    match value {
        JsonValue::Array(elems) => match r {
            Ok(tools) => {
                &&& forall|k: int| 0 <= k < elems@.len() ==> #[trigger] entry_failure(elems@[k]) is None
                &&& tools@.len() == elems@.len()
                &&& forall|k: int| 0 <= k < elems@.len() ==> entry_tool(elems@[k], #[trigger] tools@[k])
            },
            Err(ClientToolsError::Invalid { index, message }) => first_rejected(elems@, index as int)
                && (entry_failure(elems@[index as int]) matches Some(f) && message@
                == entry_failure_message(index as nat, f)),
            Err(_) => false,
        },
        _ => r matches Err(ClientToolsError::NotArray),
    }
}

/// The text of the error for client tools that are not JSON.
pub open spec fn not_json_text(json: Seq<char>) -> Seq<char> {
    "invalid client_tools_json: not valid JSON ("@ + debug_str(json) + ")"@
}

impl ClientToolsError {
    /// The error's text.
    pub fn message(&self) -> (r: String)
        ensures
            r@ == match *self {
                ClientToolsError::NotJson { message } => message@,
                ClientToolsError::NotArray => "invalid client_tools_json: top-level value must be an array"@,
                ClientToolsError::Invalid { message, .. } => message@,
            },
    {
        match self {
            ClientToolsError::NotJson { message } => message.clone(),
            ClientToolsError::NotArray => string_of("invalid client_tools_json: top-level value must be an array"),
            ClientToolsError::Invalid { message, .. } => message.clone(),
        }
    }
}

/// The text of the error for a client tool list that is not JSON.
pub fn not_json_message(json: &str) -> (r: String)
    ensures
        r@ == "invalid client_tools_json: not valid JSON ("@ + debug_str(json@) + ")"@,
{
    let mut m = string_of("invalid client_tools_json: not valid JSON (");
    push_str(&mut m, debug_string(json).as_str());
    push_str(&mut m, ")");
    m
}

/// The Debug rendering (`{:?}`) of a string: quoted and escaped.
pub uninterp spec fn debug_str(s: Seq<char>) -> Seq<char>;

/// `format!("{:?}", s)` for a string (std `Debug`).
#[verifier::external_body]
pub(crate) fn debug_string(s: &str) -> (r: String)
    ensures
        r@ == debug_str(s@),
{
    format!("{:?}", s)
}

/// The message for a rejected element at `index`.
pub open spec fn entry_failure_message(index: nat, f: EntryFailure) -> Seq<char> {
    "invalid client_tools_json["@ + decimal(index) + "]: "@ + match f {
        EntryFailure::NotObject => "element must be an object"@,
        EntryFailure::NotFunctionType(ty) => "only type=\"function\" is supported, got "@
            + debug_str(ty),
        EntryFailure::MissingFunction => "missing or non-object `function`"@,
        EntryFailure::MissingName => "function.name is required and must be a non-empty string"@,
        EntryFailure::MissingParameters => "function.parameters is required"@,
        EntryFailure::ParametersNotObject => "function.parameters must be an object"@,
    }
}

/// Index of the first entry of `entries` with key `key`.
fn find_key(entries: &Vec<(String, JsonValue)>, key: &str) -> (r: Option<usize>)
    ensures
        match r {
            Some(i) => i < entries@.len() && obj_get(entries@, key@) == Some(entries@[i as int].1),
            None => obj_get(entries@, key@) is None,
        },
{
    let mut i: usize = 0;
    assert(entries@.skip(0) =~= entries@);
    while i < entries.len()
        invariant
            i <= entries@.len(),
            obj_get(entries@, key@) == obj_get(entries@.skip(i as int), key@),
        decreases entries.len() - i,
    {
        proof {
            assert(entries@.skip(i as int).drop_first() =~= entries@.skip(i + 1));
            assert(entries@.skip(i as int)[0] == entries@[i as int]);
        }
        if str_eq(entries[i].0.as_str(), key) {
            return Some(i);
        }
        i = i + 1;
    }
    None
}

/// The string value under `key`, if it is a string.
fn get_str(entries: &Vec<(String, JsonValue)>, key: &str) -> (r: Option<String>)
    ensures
        match r {
            Some(s) => json_str(obj_get(entries@, key@)) == Some(s@),
            None => json_str(obj_get(entries@, key@)) is None,
        },
{
    match find_key(entries, key) {
        Some(i) => match &entries[i].1 {
            JsonValue::String(s) => Some(s.clone()),
            _ => None,
        },
        None => None,
    }
}

/// The message prefix for element `index`, followed by `reason`.
fn entry_error(index: usize, reason: &str) -> (m: String)
    ensures
        m@ == "invalid client_tools_json["@ + decimal(index as nat) + "]: "@ + reason@,
{
    let mut m = string_of("invalid client_tools_json[");
    push_decimal(&mut m, index);
    push_str(&mut m, "]: ");
    push_str(&mut m, reason);
    m
}

/// Check one element and build its tool, or say why it is rejected.
fn read_entry(e: JsonValue, index: usize) -> (r: Result<ClientTool, String>)
    ensures
        match r {
            Ok(t) => entry_failure(e) is None && entry_tool(e, t),
            Err(m) => entry_failure(e) matches Some(f) && m@ == entry_failure_message(
                index as nat,
                f,
            ),
        },
{
    let mut entries = match e {
        JsonValue::Object(entries) => entries,
        _ => {
            return Err(entry_error(index, "element must be an object"));
        },
    };
    let ghost orig = entries@;
    let found = get_str(&entries, "type");
    let ty = match found {
        Some(s) => s,
        None => string_of(""),
    };
    proof {
        reveal_strlit("function");
        reveal_strlit("");
        if found is None {
            assert(ty@.len() == 0);
            assert("function"@.len() == 8);
        }
    }
    assert(ty@ == "function"@ ==> json_str(obj_get(orig, "type"@)) == Some("function"@));
    if !str_eq(ty.as_str(), "function") {
        let mut m = entry_error(index, "only type=\"function\" is supported, got ");
        let d = debug_string(ty.as_str());
        push_str(&mut m, d.as_str());
        proof {
            if json_str(obj_get(entries@, "type"@)) is None {
                assert(ty@ =~= Seq::<char>::empty());
            }
            assert(m@ =~= entry_failure_message(index as nat, EntryFailure::NotFunctionType(ty@)));
        }
        return Err(m);
    }
    let fi = match find_key(&entries, "function") {
        Some(i) => i,
        None => {
            return Err(entry_error(index, "missing or non-object `function`"));
        },
    };
    let (_, fval) = entries.remove(fi);
    let mut f = match fval {
        JsonValue::Object(f) => f,
        _ => {
            return Err(entry_error(index, "missing or non-object `function`"));
        },
    };
    let name = match get_str(&f, "name") {
        Some(n) => n,
        None => {
            return Err(entry_error(index, "function.name is required and must be a non-empty string"));
        },
    };
    if name.as_str().is_empty() {
        return Err(entry_error(index, "function.name is required and must be a non-empty string"));
    }
    let description = get_str(&f, "description");
    let pi = match find_key(&f, "parameters") {
        Some(i) => i,
        None => {
            return Err(entry_error(index, "function.parameters is required"));
        },
    };
    let is_object = match &f[pi].1 {
        JsonValue::Object(_) => true,
        _ => false,
    };
    if !is_object {
        return Err(entry_error(index, "function.parameters must be an object"));
    }
    let (_, parameters) = f.remove(pi);
    Ok(ClientTool { name, parameters, description })
}

impl ToolConverter {
    /// Parse the client tool list `client_tools_json`: text that is not JSON
    /// is an error naming it; otherwise the JSON value is validated.
    pub fn parse_client_tools_json(json: &str) -> (r: Result<Vec<ClientTool>, ClientToolsError>)
        ensures
            match json_text_value(json@) {
                None => r matches Err(ClientToolsError::NotJson { message }) && message@ == not_json_text(json@),
                Some(v) => client_tools_result(v, r),
            },
    {
        match parse_json_text(json) {
            None => Err(ClientToolsError::NotJson { message: not_json_message(json) }),
            Some(v) => Self::validate_client_tools(v),
        }
    }

    /// Validate a client tool list already read as JSON: the value must
    /// be an array whose every element is a function tool with a name and
    /// object parameters. The first rejected element decides the error; the
    /// tools keep the order of the list and their parameters as given.
    pub fn validate_client_tools(value: JsonValue) -> (r: Result<Vec<ClientTool>, ClientToolsError>)
        ensures
            client_tools_result(value, r),
    {
        let elems = match value {
            JsonValue::Array(a) => a,
            _ => return Err(ClientToolsError::NotArray),
        };
        let ghost all = elems@;
        let total: usize = elems.len();
        let mut rest = elems;
        let mut tools: Vec<ClientTool> = Vec::new();
        let mut i: usize = 0;
        while rest.len() > 0
            invariant
                value is Array,
                value->Array_0@ == all,
                total == all.len(),
                i + rest@.len() == total,
                rest@ == all.skip(i as int),
                tools@.len() == i,
                forall|k: int| 0 <= k < i ==> #[trigger] entry_failure(all[k]) is None,
                forall|k: int| 0 <= k < i ==> entry_tool(all[k], #[trigger] tools@[k]),
            decreases rest@.len(),
        {
            let e = rest.remove(0);
            assert(e == all[i as int]);
            match read_entry(e, i) {
                Ok(t) => {
                    tools.push(t);
                },
                Err(message) => {
                    assert(first_rejected(all, i as int));
                    return Err(ClientToolsError::Invalid { index: i, message });
                },
            }
            i = i + 1;
        }
        Ok(tools)
    }
}

/// How the model may use the tools.
#[derive(Debug, Clone, PartialEq, Eq)]
pub enum ToolChoice {
    Auto,
    NoTools,
    Required,
    Tool(String),
}

/// The tool choice a keyword stands for: `auto`, `none` or `required`
/// after trimming.
pub open spec fn keyword_choice(raw: Seq<char>) -> Option<ToolChoice> {
    let t = trimmed(raw);
    if t == "auto"@ {
        Some(ToolChoice::Auto)
    } else if t == "none"@ {
        Some(ToolChoice::NoTools)
    } else if t == "required"@ {
        Some(ToolChoice::Required)
    } else {
        None
    }
}

/// The tool named by the object form `{"type":"function","function":{"name":N}}`
/// with a non-empty string `N`.
pub open spec fn object_choice_name(v: JsonValue) -> Option<Seq<char>> {
    match v {
        JsonValue::Object(entries) => {
            if json_str(obj_get(entries@, "type"@)) == Some("function"@) {
                match json_obj(obj_get(entries@, "function"@)) {
                    Some(f) => match json_str(obj_get(f, "name"@)) {
                        Some(n) => if n.len() > 0 {
                            Some(n)
                        } else {
                            None
                        },
                        None => None,
                    },
                    None => None,
                }
            } else {
                None
            }
        },
        _ => None,
    }
}

/// The keyword form of a client `tool_choice`, if it is one.
fn tool_choice_keyword(raw: &str) -> (r: Option<ToolChoice>)
    ensures
        r == keyword_choice(raw@),
{
    let t = crate::text::trim_to_string(raw);
    if str_eq(t.as_str(), "auto") {
        Some(ToolChoice::Auto)
    } else if str_eq(t.as_str(), "none") {
        Some(ToolChoice::NoTools)
    } else if str_eq(t.as_str(), "required") {
        Some(ToolChoice::Required)
    } else {
        None
    }
}

/// The object form of a client `tool_choice`: the named function, if the
/// object has that shape.
fn tool_choice_object(v: &JsonValue) -> (r: Option<ToolChoice>)
    ensures
        match object_choice_name(*v) {
            Some(n) => r matches Some(ToolChoice::Tool(s)) && s@ == n,
            None => r is None,
        },
{
    let entries = match v {
        JsonValue::Object(e) => e,
        _ => return None,
    };
    let ty = match get_str(entries, "type") {
        Some(t) => t,
        None => return None,
    };
    if !str_eq(ty.as_str(), "function") {
        return None;
    }
    let fi = match find_key(entries, "function") {
        Some(i) => i,
        None => return None,
    };
    let f = match &entries[fi].1 {
        JsonValue::Object(f) => f,
        _ => return None,
    };
    match get_str(f, "name") {
        Some(n) => if n.as_str().is_empty() {
            None
        } else {
            Some(ToolChoice::Tool(n))
        },
        None => None,
    }
}

impl ToolConverter {
    /// Translate the client `tool_choice` text: the keywords `auto`, `none`
    /// and `required` (after trimming), else the trimmed text read as JSON
    /// in the object form naming one function. Anything else gives `None`.
    pub fn parse_tool_choice(raw: &str) -> (r: Option<ToolChoice>)
        ensures
            keyword_choice(raw@) is Some ==> r == keyword_choice(raw@),
            keyword_choice(raw@) is None ==> match json_text_value(trimmed(raw@)) {
                None => r is None,
                Some(v) => match object_choice_name(v) {
                    Some(n) => r matches Some(ToolChoice::Tool(t)) && t@ == n,
                    None => r is None,
                },
            },
    {
        match tool_choice_keyword(raw) {
            Some(c) => Some(c),
            None => {
                let t = crate::text::trim_to_string(raw);
                match parse_json_text(t.as_str()) {
                    Some(v) => tool_choice_object(&v),
                    None => None,
                }
            },
        }
    }

    /// Translate a client `tool_choice`: the keywords `auto`, `none` and
    /// `required` (after trimming), else the object form naming one
    /// function. `parsed` is the trimmed text parsed as JSON by the caller,
    /// `None` when it is not JSON. Anything else gives `None`.
    pub fn tool_choice_of(raw: &str, parsed: Option<&JsonValue>) -> (r: Option<ToolChoice>)
        ensures
            keyword_choice(raw@) is Some ==> r == keyword_choice(raw@),
            keyword_choice(raw@) is None ==> match parsed {
                None => r is None,
                Some(v) => match object_choice_name(*v) {
                    Some(n) => r matches Some(ToolChoice::Tool(s)) && s@ == n,
                    None => r is None,
                },
            },
    {
        match tool_choice_keyword(raw) {
            Some(c) => Some(c),
            None => match parsed {
                Some(v) => tool_choice_object(v),
                None => None,
            },
        }
    }
}

} // verus!
