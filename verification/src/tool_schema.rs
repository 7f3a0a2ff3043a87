//! Functions offered to a model as tools: one tool per method, with its
//! name, description and input JSON Schema.

use vstd::prelude::*;
use crate::conversion::{FunctionSpecs, MethodSchema, ToolConverter, method_tool_name};

verus! {

/// `serde_json::Value`: a JSON value.
#[verifier::external_type_specification]
#[verifier::external_body]
pub struct ExJsonValue(serde_json::Value);

/// `serde_json::Map`: a JSON object.
#[verifier::external_type_specification]
#[verifier::external_body]
#[verifier::reject_recursive_types(K)]
#[verifier::reject_recursive_types(V)]
pub struct ExJsonMap<K, V>(serde_json::Map<K, V>);

/// serde_json reads a JSON value from `text`.
pub uninterp spec fn is_json_text(text: Seq<char>) -> bool;

/// The keys and the string-valued entries of the JSON object that `text`
/// holds; `None` when `text` is not JSON or holds another kind of value.
pub uninterp spec fn text_object(text: Seq<char>) -> Option<(Set<Seq<char>>, Map<Seq<char>, Seq<char>>)>;

/// The keys of a JSON object.
pub uninterp spec fn object_keys(m: serde_json::Map<String, serde_json::Value>) -> Set<Seq<char>>;

/// The entries of a JSON object whose value is a string.
pub uninterp spec fn object_texts(m: serde_json::Map<String, serde_json::Value>) -> Map<
    Seq<char>,
    Seq<char>,
>;

/// `serde_json::from_str::<Value>` followed by taking the object out of
/// `Value::Object`: `Ok(Some(m))` when `text` holds a JSON object,
/// `Ok(None)` when it holds another value, or the parse error's text.
#[verifier::external_body]
fn parse_json_object(text: &str) -> (r: Result<Option<serde_json::Map<String, serde_json::Value>>, String>)
    ensures
        match r {
            Ok(Some(m)) => text_object(text@) == Some((object_keys(m), object_texts(m))),
            Ok(None) => is_json_text(text@) && text_object(text@) is None,
            Err(_) => !is_json_text(text@) && text_object(text@) is None,
        },
{
    match serde_json::from_str::<serde_json::Value>(text) {
        Ok(serde_json::Value::Object(m)) => Ok(Some(m)),
        Ok(_) => Ok(None),
        Err(e) => Err(e.to_string()),
    }
}

/// `Map::new`: an object with no entries.
#[verifier::external_body]
fn new_object() -> (object: serde_json::Map<String, serde_json::Value>)
    ensures
        object_keys(object) =~= Set::empty(),
        object_texts(object) =~= Map::empty(),
{
    serde_json::Map::new()
}

/// `Map::contains_key`.
#[verifier::external_body]
fn object_has_key(m: &serde_json::Map<String, serde_json::Value>, key: &str) -> (r: bool)
    ensures
        r == object_keys(*m).contains(key@),
{
    m.contains_key(key)
}

/// `Map::insert` of `Value::String`: `key` now holds the string `value`.
#[verifier::external_body]
fn object_insert_text(m: &mut serde_json::Map<String, serde_json::Value>, key: &str, value: &str)
    ensures
        object_keys(*final(m)) == object_keys(*old(m)).insert(key@),
        object_texts(*final(m)) == object_texts(*old(m)).insert(key@, value@),
{
    m.insert(key.to_string(), serde_json::Value::String(value.to_string()));
}

/// `Map::insert` of `Value::Object`: `key` now holds the object `value`.
#[verifier::external_body]
fn object_insert_object(
    m: &mut serde_json::Map<String, serde_json::Value>,
    key: &str,
    value: serde_json::Map<String, serde_json::Value>,
)
    ensures
        object_keys(*final(m)) == object_keys(*old(m)).insert(key@),
        object_texts(*final(m)) == object_texts(*old(m)).remove(key@),
{
    m.insert(key.to_string(), serde_json::Value::Object(value));
}

/// A tool offered to a model: its name, description and input schema.
pub struct McpTool {
    pub name: String,
    pub description: String,
    pub input_schema: serde_json::Map<String, serde_json::Value>,
}

/// `m` is `{"type": "object", "properties": {...}}` by its keys and string
/// entries.
pub open spec fn is_empty_object_schema(m: serde_json::Map<String, serde_json::Value>) -> bool {
    &&& object_keys(m) == set!["type"@, "properties"@]
    &&& object_texts(m) == map!["type"@ => "object"@]
}

/// A worker method's schema, by its keys and string entries: the object
/// its arguments schema text holds, given `"type": "object"` when it has no
/// `type`; the empty object schema when the text holds no JSON object.
pub open spec fn worker_schema_ok(
    arguments_schema: Seq<char>,
    schema: serde_json::Map<String, serde_json::Value>,
) -> bool {
    match text_object(arguments_schema) {
        Some((keys, texts)) => if keys.contains("type"@) {
            object_keys(schema) == keys && object_texts(schema) == texts
        } else {
            object_keys(schema) == keys.insert("type"@) && object_texts(schema) == texts.insert(
                "type"@,
                "object"@,
            )
        },
        None => is_empty_object_schema(schema),
    }
}

/// The description of a method's tool: the method's own, else the
/// function's.
pub open spec fn method_description(tool: FunctionSpecs, m: MethodSchema) -> Seq<char> {
    match m.description {
        Some(d) => d@,
        None => tool.description@,
    }
}

/// The tools of the methods `ms` of `tool`, `schemas[j]` being the schema
/// that method `j` got (`None`: the method is left out), as (name,
/// description, schema).
pub open spec fn method_tools(
    tool: FunctionSpecs,
    ms: Seq<(String, MethodSchema)>,
    schemas: Seq<Option<serde_json::Map<String, serde_json::Value>>>,
) -> Seq<(Seq<char>, Seq<char>, serde_json::Map<String, serde_json::Value>)>
    decreases ms.len(),
{
    if ms.len() == 0 {
        Seq::empty()
    } else {
        let rest = method_tools(tool, ms.drop_last(), schemas.drop_last());
        match schemas[ms.len() - 1] {
            Some(s) => rest.push(
                (method_tool_name(tool.name@, ms.last().0@), method_description(tool, ms.last().1), s),
            ),
            None => rest,
        }
    }
}

/// A tool as (name, description, schema).
pub open spec fn tool_view(t: McpTool) -> (Seq<char>, Seq<char>, serde_json::Map<String, serde_json::Value>) {
    (t.name@, t.description@, t.input_schema)
}

/// The views of a list of tools.
pub open spec fn tools_view(ts: Seq<McpTool>) -> Seq<(Seq<char>, Seq<char>, serde_json::Map<String, serde_json::Value>)> {
    ts.map_values(|t: McpTool| tool_view(t))
}

/// `schemas[j]` is a schema that method `j` of `tool` may get: a worker's
/// schema built from its arguments schema, or what `runner_schema` may give
/// for a runner's method.
pub open spec fn schema_choices<F>(
    tool: FunctionSpecs,
    ms: Seq<(String, MethodSchema)>,
    runner_schema: F,
    schemas: Seq<Option<serde_json::Map<String, serde_json::Value>>>,
) -> bool where F: Fn(&FunctionSpecs, &MethodSchema) -> Option<serde_json::Map<String, serde_json::Value>> {
    &&& schemas.len() == ms.len()
    &&& forall|j: int|
        0 <= j < ms.len() ==> (if tool.worker_id is Some {
            #[trigger] schemas[j] matches Some(s) && worker_schema_ok(ms[j].1.arguments_schema@, s)
        } else {
            runner_schema.ensures((&tool, &ms[j].1), schemas[j])
        })
}

/// The tools of one function: those of its methods, none when it lists
/// no methods.
pub open spec fn function_tools<F>(
    tool: FunctionSpecs,
    runner_schema: F,
    out: Seq<(Seq<char>, Seq<char>, serde_json::Map<String, serde_json::Value>)>,
) -> bool where F: Fn(&FunctionSpecs, &MethodSchema) -> Option<serde_json::Map<String, serde_json::Value>> {
    match tool.methods {
        None => out.len() == 0,
        Some(ms) => exists|schemas: Seq<Option<serde_json::Map<String, serde_json::Value>>>|
            schema_choices(tool, ms@, runner_schema, schemas) && out == #[trigger] method_tools(
                tool,
                ms@,
                schemas,
            ),
    }
}

/// The tools of a list of functions, in order: each function's tools in
/// turn.
pub open spec fn all_function_tools<F>(
    fs: Seq<FunctionSpecs>,
    runner_schema: F,
    out: Seq<(Seq<char>, Seq<char>, serde_json::Map<String, serde_json::Value>)>,
) -> bool where F: Fn(&FunctionSpecs, &MethodSchema) -> Option<serde_json::Map<String, serde_json::Value>> {
    exists|parts: Seq<Seq<(Seq<char>, Seq<char>, serde_json::Map<String, serde_json::Value>)>>|
        {
            &&& parts.len() == fs.len()
            &&& forall|i: int| 0 <= i < fs.len() ==> function_tools(fs[i], runner_schema, #[trigger] parts[i])
            &&& out == parts.flatten()
        }
}

impl ToolConverter {
    /// The empty object schema `{"type": "object", "properties": {}}`.
    pub fn empty_object_schema() -> (r: serde_json::Map<String, serde_json::Value>)
        ensures
            is_empty_object_schema(r),
    {
        let mut m = new_object();
        object_insert_text(&mut m, "type", "object");
        object_insert_object(&mut m, "properties", new_object());
        proof {
            reveal_strlit("type");
            reveal_strlit("properties");
            assert("properties"@.len() != "type"@.len());
            assert(object_keys(m) =~= set!["type"@, "properties"@]);
            assert(object_texts(m) =~= map!["type"@ => "object"@]);
        }
        m
    }

    /// `m` with `"type": "object"` added when it has no `type`; kept as it is
    /// when it has one.
    pub fn default_object_type(m: serde_json::Map<String, serde_json::Value>) -> (r:
        serde_json::Map<String, serde_json::Value>)
        ensures
            object_keys(m).contains("type"@) ==> r == m,
            !object_keys(m).contains("type"@) ==> {
                &&& object_keys(r) == object_keys(m).insert("type"@)
                &&& object_texts(r) == object_texts(m).insert("type"@, "object"@)
            },
    {
        let mut m = m;
        if !object_has_key(&m, "type") {
            object_insert_text(&mut m, "type", "object");
        }
        m
    }

    /// The input schema of a worker's method: its arguments schema when that
    /// is a JSON object (given `"type": "object"` when it has no type), else
    /// the empty object schema.
    pub fn build_worker_tool_schema(method_schema: &MethodSchema) -> (r: serde_json::Map<
        String,
        serde_json::Value,
    >)
        ensures
            worker_schema_ok(method_schema.arguments_schema@, r),
    {
        match parse_json_object(method_schema.arguments_schema.as_str()) {
            Ok(Some(m)) => Self::default_object_type(m),
            Ok(None) => Self::empty_object_schema(),
            Err(_) => Self::empty_object_schema(),
        }
    }

    /// The tools of one function, one per method in order: a worker's method
    /// takes its arguments schema directly; a runner's method takes the
    /// schema `runner_schema` builds from the function and the method, and
    /// is left out when that is `None`. The default method is named after
    /// the function alone; a method's description falls back to the
    /// function's. A function without methods gives no tools.
    pub fn convert_normal_function<F>(tool: &FunctionSpecs, runner_schema: &F) -> (r: Vec<McpTool>) where
        F: Fn(&FunctionSpecs, &MethodSchema) -> Option<serde_json::Map<String, serde_json::Value>>,

        requires
            forall|a: &FunctionSpecs, b: &MethodSchema| #[trigger] runner_schema.requires((a, b)),
        ensures
            function_tools(*tool, *runner_schema, tools_view(r@)),
    {
        match &tool.methods {
            None => Vec::new(),
            Some(ms) => {
                let is_worker = tool.worker_id.is_some();
                let mut out: Vec<McpTool> = Vec::new();
                let ghost mut schemas: Seq<Option<serde_json::Map<String, serde_json::Value>>> =
                    Seq::empty();
                let mut j: usize = 0;
                while j < ms.len()
                    invariant
                        tool.methods == Some(*ms),
                        is_worker == tool.worker_id is Some,
                        forall|a: &FunctionSpecs, b: &MethodSchema| #[trigger]
                            runner_schema.requires((a, b)),
                        j <= ms@.len(),
                        schema_choices(*tool, ms@.take(j as int), *runner_schema, schemas),
                        tools_view(out@) == method_tools(*tool, ms@.take(j as int), schemas),
                    decreases ms.len() - j,
                {
                    let method_schema = &ms[j].1;
                    let schema = if is_worker {
                        Some(Self::build_worker_tool_schema(method_schema))
                    } else {
                        runner_schema(tool, method_schema)
                    };
                    let ghost prev_schemas = schemas;
                    proof {
                        schemas = schemas.push(schema);
                    }
                    match schema {
                        Some(s) => {
                            let name = Self::method_tool_name(tool.name.as_str(), ms[j].0.as_str());
                            let description = match &method_schema.description {
                                Some(d) => d.clone(),
                                None => tool.description.clone(),
                            };
                            out.push(McpTool { name, description, input_schema: s });
                        },
                        None => {},
                    }
                    proof {
                        let t = ms@.take(j + 1);
                        assert(t.drop_last() =~= ms@.take(j as int));
                        assert(schemas.drop_last() =~= prev_schemas);
                        assert(t.last() == ms@[j as int]);
                        assert(tools_view(out@) =~= method_tools(*tool, t, schemas));
                    }
                    j = j + 1;
                }
                proof {
                    assert(ms@.take(j as int) =~= ms@);
                }
                out
            },
        }
    }
}

impl ToolConverter {
    /// The tools of all `functions`, in order (`convert_normal_function` of
    /// each, concatenated).
    pub fn convert_functions_to_mcp_tools<F>(functions: Vec<FunctionSpecs>, runner_schema: &F) -> (r: Vec<
        McpTool,
    >) where
        F: Fn(&FunctionSpecs, &MethodSchema) -> Option<serde_json::Map<String, serde_json::Value>>,

        requires
            forall|a: &FunctionSpecs, b: &MethodSchema| #[trigger] runner_schema.requires((a, b)),
        ensures
            all_function_tools(functions@, *runner_schema, tools_view(r@)),
    {
        let mut out: Vec<McpTool> = Vec::new();
        let ghost mut parts: Seq<Seq<(Seq<char>, Seq<char>, serde_json::Map<String, serde_json::Value>)>> =
            Seq::empty();
        let mut i: usize = 0;
        while i < functions.len()
            invariant
                forall|a: &FunctionSpecs, b: &MethodSchema| #[trigger] runner_schema.requires((a, b)),
                i <= functions@.len(),
                parts.len() == i,
                forall|k: int| 0 <= k < i ==> function_tools(functions@[k], *runner_schema, #[trigger] parts[k]),
                tools_view(out@) == parts.flatten_alt(),
            decreases functions.len() - i,
        {
            let mut part = Self::convert_normal_function(&functions[i], runner_schema);
            let ghost prev_parts = parts;
            let ghost added = tools_view(part@);
            out.append(&mut part);
            proof {
                parts = parts.push(added);
                assert(parts.drop_last() =~= prev_parts);
                assert(tools_view(out@) =~= prev_parts.flatten_alt() + added);
            }
            i = i + 1;
        }
        proof {
            parts.lemma_flatten_and_flatten_alt_are_equivalent();
        }
        out
    }
}

} // verus!
