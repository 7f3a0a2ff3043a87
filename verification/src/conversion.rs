//! Tool-call conversion rules shared by the chat backends: selector
//! pseudo-tools for FunctionSet auto-selection, tool-result resolution and
//! validation, and the client-driven tool-calling switches.

use vstd::prelude::*;
use crate::chat_model::{
    FunctionOptions, FunctionOptionsView, LlmChatArgs, ToolCall, ToolExecutionRequest,
    ToolResultView, options_view,
};
use crate::text::{
    chars_of, contains_chars, push_str, seq_contains, seq_starts_with, starts_with_chars, str_eq,
    string_of,
};

verus! {

/// Tool name access across the tool-call types of the different providers.
pub trait ToolCallName {
    /// The tool name, as a char sequence. Implementations in this crate
    /// define it; the default leaves it unspecified.
    open spec fn spec_tool_name(&self) -> Seq<char> {
        arbitrary()
    }

    /// The tool name.
    fn tool_name(&self) -> (r: &str)
        ensures
            r@ == self.spec_tool_name(),
    ;
}

impl ToolCallName for ToolExecutionRequest {
    open spec fn spec_tool_name(&self) -> Seq<char> {
        self.fn_name@
    }

    fn tool_name(&self) -> (r: &str) {
        self.fn_name.as_str()
    }
}

/// A tool result after fn_name resolution and call_id validation.
#[derive(Debug)]
pub struct ResolvedToolResult {
    pub call_id: String,
    pub fn_name: String,
    pub content: String,
    pub is_error: bool,
}

impl View for ResolvedToolResult {
    type V = ToolResultView;

    open spec fn view(&self) -> ToolResultView {
        ToolResultView {
            call_id: self.call_id@,
            fn_name: self.fn_name@,
            content: self.content@,
            is_error: self.is_error,
        }
    }
}

impl ResolvedToolResult {
    /// `content`, prefixed with `[ERROR] ` when the result is an error, for
    /// providers without a native error flag.
    pub fn display_content(&self) -> (r: String)
        ensures
            r@ == if self.is_error { "[ERROR] "@ + self.content@ } else { self.content@ },
    {
        if self.is_error {
            let mut s = string_of("[ERROR] ");
            push_str(&mut s, self.content.as_str());
            s
        } else {
            self.content.clone()
        }
    }
}

/// Prefix of the pseudo-tool names that stand for FunctionSets.
pub open spec fn selector_prefix() -> Seq<char> {
    "select_toolset_"@
}

/// Delimiter between a runner name and a method name in tool names.
pub open spec fn name_delimiter() -> Seq<char> {
    "___"@
}

/// `name` is a selector pseudo-tool name.
pub open spec fn is_selector_name(name: Seq<char>) -> bool {
    seq_starts_with(name, selector_prefix())
}

/// `c` is in `[a-zA-Z0-9_-]`.
pub open spec fn is_set_name_char(c: char) -> bool {
    ('a' <= c && c <= 'z') || ('A' <= c && c <= 'Z') || ('0' <= c && c <= '9') || c == '_' || c
        == '-'
}

/// A FunctionSet name usable as a tool name: non-empty, without the name
/// delimiter, and made of `[a-zA-Z0-9_-]` only.
pub open spec fn valid_set_name(name: Seq<char>) -> bool {
    &&& name.len() > 0
    &&& !seq_contains(name, name_delimiter())
    &&& forall|i: int| 0 <= i < name.len() ==> is_set_name_char(#[trigger] name[i])
}

/// The calls of `calls` whose name is not a selector, in order.
pub open spec fn non_selector_calls<T: ToolCallName>(calls: Seq<T>) -> Seq<T>
    decreases calls.len(),
{
    if calls.len() == 0 {
        Seq::empty()
    } else {
        let rest = non_selector_calls(calls.drop_last());
        if is_selector_name(calls.last().spec_tool_name()) {
            rest
        } else {
            rest.push(calls.last())
        }
    }
}

/// Dropping selector calls keeps exactly the calls whose name does not
/// start with `select_toolset_`: every kept call is such a call, every such
/// call is kept, and no call is added.
pub proof fn law_selector_calls_dropped<T: ToolCallName>(calls: Seq<T>)
    ensures
        non_selector_calls(calls).len() <= calls.len(),
        forall|k: int| 0 <= k < non_selector_calls(calls).len() ==> !seq_starts_with(
            (#[trigger] non_selector_calls(calls)[k]).spec_tool_name(),
            "select_toolset_"@,
        ) && calls.contains(non_selector_calls(calls)[k]),
        forall|i: int| 0 <= i < calls.len() && !seq_starts_with((#[trigger] calls[i]).spec_tool_name(), "select_toolset_"@)
            ==> non_selector_calls(calls).contains(calls[i]),
    decreases calls.len(),
{
    if calls.len() > 0 {
        let prev = calls.drop_last();
        law_selector_calls_dropped(prev);
        let out = non_selector_calls(calls);
        let rest = non_selector_calls(prev);
        assert forall|k: int| 0 <= k < out.len() implies !seq_starts_with(
            (#[trigger] out[k]).spec_tool_name(),
            "select_toolset_"@,
        ) && calls.contains(out[k]) by {
            if k < rest.len() {
                assert(out[k] == rest[k]);
                let j = choose|j: int| 0 <= j < prev.len() && prev[j] == rest[k];
                assert(calls[j] == prev[j]);
            } else {
                assert(out[k] == calls[calls.len() - 1]);
            }
        }
        assert forall|i: int| 0 <= i < calls.len() && !seq_starts_with((#[trigger] calls[i]).spec_tool_name(), "select_toolset_"@)
            implies out.contains(calls[i]) by {
            if i < calls.len() - 1 {
                assert(prev[i] == calls[i]);
                let j = choose|j: int| 0 <= j < rest.len() && rest[j] == prev[i];
                assert(out[j] == rest[j]);
            } else {
                assert(out[out.len() - 1] == calls[i]);
            }
        }
    }
}

/// Converts function specs and FunctionSets to tool descriptions and
/// enforces the tool-calling rules.
pub struct ToolConverter;

impl ToolConverter {
    /// Whether `name` can be used as a FunctionSet selector tool name.
    pub fn is_valid_function_set_name(name: &str) -> (r: bool)
        ensures
            r == valid_set_name(name@),
    {
        let chars = chars_of(name);
        if chars.len() == 0 {
            return false;
        }
        let delim = chars_of("___");
        if contains_chars(&chars, &delim) {
            return false;
        }
        let mut i: usize = 0;
        while i < chars.len()
            invariant
                chars@ == name@,
                i <= chars@.len(),
                forall|k: int| 0 <= k < i ==> is_set_name_char(#[trigger] chars@[k]),
            decreases chars.len() - i,
        {
            let c = chars[i];
            let ok = ('a' <= c && c <= 'z') || ('A' <= c && c <= 'Z') || ('0' <= c && c <= '9')
                || c == '_' || c == '-';
            if !ok {
                return false;
            }
            i = i + 1;
        }
        true
    }

    /// Whether `name` is a selector pseudo-tool (not a real runner/worker).
    pub fn is_selector_tool(name: &str) -> (r: bool)
        ensures
            r == is_selector_name(name@),
    {
        let chars = chars_of(name);
        let prefix = chars_of("select_toolset_");
        starts_with_chars(&chars, &prefix)
    }

    /// Drop selector pseudo-tools from a list of tool calls, keeping order.
    pub fn filter_selector_tools<T: ToolCallName>(tool_calls: Vec<T>) -> (r: Vec<T>)
        ensures
            r@ == non_selector_calls(tool_calls@),
    {
        let mut calls = tool_calls;
        Self::retain_non_selector_tools(&mut calls);
        calls
    }

    /// Keep only the non-selector tool calls, in place and in order.
    pub fn retain_non_selector_tools<T: ToolCallName>(tool_calls: &mut Vec<T>)
        ensures
            final(tool_calls)@ == non_selector_calls(old(tool_calls)@),
    {
        let ghost orig = tool_calls@;
        let total: usize = tool_calls.len();
        let mut rev: Vec<T> = Vec::new();
        while tool_calls.len() > 0
            invariant
                tool_calls@ == orig.take(tool_calls@.len() as int),
                tool_calls@.len() <= orig.len(),
                rev@.len() == orig.len() - tool_calls@.len(),
                forall|k: int| 0 <= k < rev@.len() ==> #[trigger] rev@[k] == orig[orig.len() - 1 - k],
            decreases tool_calls@.len(),
        {
            let c = tool_calls.pop().unwrap();
            proof {
                assert(tool_calls@ =~= orig.take(tool_calls@.len() as int));
            }
            rev.push(c);
        }
        let mut done: usize = 0;
        while rev.len() > 0
            invariant
                rev@.len() + done == orig.len(),
                orig.len() == total,
                forall|k: int| 0 <= k < rev@.len() ==> #[trigger] rev@[k] == orig[orig.len() - 1 - k],
                tool_calls@ == non_selector_calls(orig.take(done as int)),
            decreases rev@.len(),
        {
            let c = rev.pop().unwrap();
            proof {
                assert(c == orig[done as int]);
                assert(orig.take(done + 1).drop_last() =~= orig.take(done as int));
                assert(orig.take(done + 1).last() == c);
            }
            if !Self::is_selector_tool(c.tool_name()) {
                tool_calls.push(c);
            }
            done = done + 1;
        }
        proof {
            assert(orig.take(done as int) =~= orig);
        }
    }
}


impl ToolCallName for ToolCall {
    open spec fn spec_tool_name(&self) -> Seq<char> {
        self.fn_name@
    }

    fn tool_name(&self) -> (r: &str) {
        self.fn_name.as_str()
    }
}

/// A FunctionSet offered to the model as a pseudo-tool: its name, the
/// description that lists its tools, and its (argument-less) input schema
/// as JSON text.
#[derive(Debug)]
pub struct SelectorTool {
    pub name: String,
    pub description: String,
    pub input_schema: String,
}

/// One `- name: description` line of a selector tool description.
pub open spec fn summary_line(name: Seq<char>, desc: Seq<char>) -> Seq<char> {
    "- "@ + name + ": "@ + desc
}

/// The summary lines of `s`, joined with newlines.
pub open spec fn summary_list(s: Seq<(Seq<char>, Seq<char>)>) -> Seq<char>
    decreases s.len(),
{
    if s.len() == 0 {
        Seq::empty()
    } else if s.len() == 1 {
        summary_line(s[0].0, s[0].1)
    } else {
        summary_list(s.drop_last()) + "\n"@ + summary_line(s.last().0, s.last().1)
    }
}

/// The views of `(name, description)` pairs.
pub open spec fn summaries_view(s: Seq<(String, String)>) -> Seq<(Seq<char>, Seq<char>)> {
    s.map_values(|p: (String, String)| (p.0@, p.1@))
}

/// The description of the selector tool of a FunctionSet.
pub open spec fn selector_description(
    set_name: Seq<char>,
    set_description: Seq<char>,
    summaries: Seq<(Seq<char>, Seq<char>)>,
) -> Seq<char> {
    let head = "Activate the '"@ + set_name + "' toolset. "@ + set_description;
    if summaries.len() == 0 {
        head + ". Call this function to load its tools so you can use them."@
    } else {
        head + ". Call this function to load the following tools:\n"@ + summary_list(summaries)
    }
}

/// The name given to a runner method as a tool: the runner name alone for
/// the default method, else runner name, delimiter and method name.
pub open spec fn method_tool_name(runner: Seq<char>, method: Seq<char>) -> Seq<char> {
    if method == default_method_name() {
        runner
    } else {
        runner + name_delimiter() + method
    }
}

/// The name of a runner's default method.
pub open spec fn default_method_name() -> Seq<char> {
    "run"@
}

/// The schema of one method of a function: its description and the JSON
/// Schema text of its arguments.
#[derive(Debug, Clone)]
pub struct MethodSchema {
    pub description: Option<String>,
    pub arguments_schema: String,
}

/// A runner or worker offered as a function: its settings schema text, its
/// methods, and the worker's id when a pre-configured worker backs it.
#[derive(Debug, Clone)]
pub struct FunctionSpecs {
    pub name: String,
    pub description: String,
    pub settings_schema: String,
    pub methods: Option<Vec<(String, MethodSchema)>>,
    pub worker_id: Option<i64>,
}

/// The `(tool name, description)` summaries of one function: one per
/// method (the method's description, else the function's), or one for the
/// function itself when it lists no methods.
pub open spec fn spec_summaries(f: FunctionSpecs) -> Seq<(Seq<char>, Seq<char>)> {
    match f.methods {
        Some(ms) => ms@.map_values(
            |m: (String, MethodSchema)|
                (
                    method_tool_name(f.name@, m.0@),
                    match m.1.description {
                        Some(d) => d@,
                        None => f.description@,
                    },
                ),
        ),
        None => seq![(f.name@, f.description@)],
    }
}

/// The summaries of all functions, in order.
pub open spec fn all_summaries(fs: Seq<FunctionSpecs>) -> Seq<(Seq<char>, Seq<char>)>
    decreases fs.len(),
{
    if fs.len() == 0 {
        Seq::empty()
    } else {
        all_summaries(fs.drop_last()) + spec_summaries(fs.last())
    }
}

impl ToolConverter {
    /// The tool name of a method of a runner (`McpNameConverter::combine_names`
    /// for non-default methods).
    pub fn method_tool_name(runner: &str, method: &str) -> (r: String)
        ensures
            r@ == method_tool_name(runner@, method@),
    {
        if str_eq(method, "run") {
            string_of(runner)
        } else {
            let mut s = string_of(runner);
            push_str(&mut s, "___");
            push_str(&mut s, method);
            s
        }
    }

    /// Convert a FunctionSet to a selector pseudo-tool named
    /// `select_toolset_<set_name>`, whose description lists the set's tools.
    /// `None` when the set name cannot be used as a tool name.
    pub fn convert_function_set_to_selector_tool(
        set_name: &str,
        set_description: &str,
        tool_summaries: &[(String, String)],
    ) -> (r: Option<SelectorTool>)
        ensures
            r is Some <==> valid_set_name(set_name@),
            r matches Some(t) ==> {
                &&& t.name@ == selector_prefix() + set_name@
                &&& t.description@ == selector_description(
                    set_name@,
                    set_description@,
                    summaries_view(tool_summaries@),
                )
                &&& t.input_schema@ == "{\"type\":\"object\",\"properties\":{}}"@
            },
    {
        if !Self::is_valid_function_set_name(set_name) {
            return None;
        }
        let ghost sv = summaries_view(tool_summaries@);
        let mut desc = string_of("Activate the '");
        push_str(&mut desc, set_name);
        push_str(&mut desc, "' toolset. ");
        push_str(&mut desc, set_description);
        let ghost head = desc@;
        assert(head == "Activate the '"@ + set_name@ + "' toolset. "@ + set_description@);
        if tool_summaries.len() == 0 {
            push_str(&mut desc, ". Call this function to load its tools so you can use them.");
        } else {
            push_str(&mut desc, ". Call this function to load the following tools:\n");
            let ghost lead = desc@;
            let mut i: usize = 0;
            while i < tool_summaries.len()
                invariant
                    sv == summaries_view(tool_summaries@),
                    i <= tool_summaries@.len(),
                    desc@ == lead + summary_list(sv.take(i as int)),
                decreases tool_summaries.len() - i,
            {
                if i > 0 {
                    push_str(&mut desc, "\n");
                }
                push_str(&mut desc, "- ");
                push_str(&mut desc, tool_summaries[i].0.as_str());
                push_str(&mut desc, ": ");
                push_str(&mut desc, tool_summaries[i].1.as_str());
                proof {
                    let t = sv.take(i + 1);
                    assert(t.drop_last() =~= sv.take(i as int));
                    assert(t.last() == sv[i as int]);
                    let line = summary_line(sv[i as int].0, sv[i as int].1);
                    if i == 0 {
                        assert(t.len() == 1);
                        assert(summary_list(sv.take(0)) =~= Seq::<char>::empty());
                        assert(desc@ =~= lead + line);
                    } else {
                        assert(desc@ =~= lead + (summary_list(sv.take(i as int)) + "\n"@ + line));
                    }
                }
                i = i + 1;
            }
            assert(sv.take(i as int) =~= sv);
        }
        let mut name = string_of("select_toolset_");
        push_str(&mut name, set_name);
        Some(SelectorTool {
            name,
            description: desc,
            input_schema: string_of("{\"type\":\"object\",\"properties\":{}}"),
        })
    }

    /// Tool name/description summaries of functions: one per method, the
    /// default method under the function's own name.
    pub fn get_tool_summaries(specs: &[FunctionSpecs]) -> (r: Vec<(String, String)>)
        ensures
            summaries_view(r@) == all_summaries(specs@),
    {
        let mut out: Vec<(String, String)> = Vec::new();
        let mut i: usize = 0;
        while i < specs.len()
            invariant
                i <= specs@.len(),
                summaries_view(out@) == all_summaries(specs@.take(i as int)),
            decreases specs.len() - i,
        {
            let f = &specs[i];
            let ghost start = summaries_view(out@);
            let ghost want = spec_summaries(*f);
            match &f.methods {
                Some(ms) => {
                    let mut j: usize = 0;
                    while j < ms.len()
                        invariant
                            f.methods == Some(*ms),
                            want == spec_summaries(*f),
                            j <= ms@.len(),
                            summaries_view(out@) == start + want.take(j as int),
                        decreases ms.len() - j,
                    {
                        let name = Self::method_tool_name(f.name.as_str(), ms[j].0.as_str());
                        let desc = match &ms[j].1.description {
                            Some(d) => d.clone(),
                            None => f.description.clone(),
                        };
                        let ghost prev = out@;
                        let ghost item = (name@, desc@);
                        out.push((name, desc));
                        proof {
                            assert(want[j as int] == item);
                            assert(want.take(j + 1) =~= want.take(j as int).push(want[j as int]));
                            assert(summaries_view(out@) =~= summaries_view(prev).push(item));
                        }
                        j = j + 1;
                    }
                    assert(want.take(j as int) =~= want);
                },
                None => {
                    let ghost prev = out@;
                    out.push((f.name.clone(), f.description.clone()));
                    proof {
                        assert(summaries_view(out@) =~= summaries_view(prev).push((f.name@, f.description@)));
                        assert(summaries_view(out@) =~= start + want);
                    }
                },
            }
            proof {
                assert(specs@.take(i + 1).drop_last() =~= specs@.take(i as int));
            }
            i = i + 1;
        }
        assert(specs@.take(i as int) =~= specs@);
        out
    }
}

/// The views of a list of strings.
pub open spec fn names_view(v: Seq<String>) -> Seq<Seq<char>> {
    v.map_values(|s: String| s@)
}

/// Debug rendering (`{:?}`) of a list of strings: each string's Debug
/// form, separated by `, `, in brackets.
pub open spec fn debug_str_list(names: Seq<Seq<char>>) -> Seq<char> {
    "["@ + crate::function_set_selector::joined(
        names.map_values(|n: Seq<char>| crate::client_tools::debug_str(n)),
        ", "@,
    ) + "]"@
}

/// The `{:?}` rendering of `names`, as std `Debug` writes a list of
/// strings.
fn debug_string_list(names: &Vec<String>) -> (r: String)
    ensures
        r@ == debug_str_list(names_view(names@)),
{
    let ghost want = names_view(names@).map_values(|n: Seq<char>| crate::client_tools::debug_str(n));
    let mut parts: Vec<String> = Vec::new();
    let mut i: usize = 0;
    while i < names.len()
        invariant
            i <= names@.len(),
            want == names_view(names@).map_values(|n: Seq<char>| crate::client_tools::debug_str(n)),
            parts@.map_values(|p: String| p@) == want.take(i as int),
        decreases names.len() - i,
    {
        let d = crate::client_tools::debug_string(names[i].as_str());
        let ghost prev = parts@;
        parts.push(d);
        proof {
            assert(parts@.map_values(|p: String| p@) =~= prev.map_values(|p: String| p@).push(d@));
            assert(want.take(i + 1) =~= want.take(i as int).push(want[i as int]));
        }
        i = i + 1;
    }
    proof {
        assert(want.take(i as int) =~= want);
    }
    let joined = crate::function_set_selector::join_strings(&parts, ", ");
    let mut r = string_of("[");
    push_str(&mut r, joined.as_str());
    push_str(&mut r, "]");
    r
}

/// `name` with the selector prefix removed when it has one.
pub open spec fn strip_selector_prefix(name: Seq<char>) -> Seq<char> {
    if seq_starts_with(name, selector_prefix()) {
        name.skip(selector_prefix().len() as int)
    } else {
        name
    }
}

/// `i` is the first call of `calls` whose name is one of `names`.
pub open spec fn first_selected<T: ToolCallName>(calls: Seq<T>, names: Seq<Seq<char>>, i: int) -> bool {
    &&& 0 <= i < calls.len()
    &&& names.contains(calls[i].spec_tool_name())
    &&& forall|k: int| 0 <= k < i ==> !names.contains(#[trigger] calls[k].spec_tool_name())
}

/// The function options of the second request after FunctionSet `set_name`
/// was selected: the set is fixed and auto-selection turned off; without
/// options, function calling is turned on with just those two settings.
pub open spec fn selected_options(fo: Option<FunctionOptionsView>, set_name: Seq<char>) -> FunctionOptionsView {
    match fo {
        Some(f) => FunctionOptionsView {
            use_function_calling: f.use_function_calling,
            use_runners_as_function: f.use_runners_as_function,
            use_workers_as_function: f.use_workers_as_function,
            function_set_name: Some(set_name),
            is_auto_calling: f.is_auto_calling,
            auto_select_function_set: Some(false),
            client_tools_json: f.client_tools_json,
        },
        None => FunctionOptionsView {
            use_function_calling: true,
            use_runners_as_function: None,
            use_workers_as_function: None,
            function_set_name: Some(set_name),
            is_auto_calling: None,
            auto_select_function_set: Some(false),
            client_tools_json: None,
        },
    }
}

/// The tool calling that the runner performs itself: off without options,
/// off when the client supplies its own tools (non-empty
/// `client_tools_json`), else as requested by `is_auto_calling`.
pub open spec fn effective_auto_calling(fo: Option<FunctionOptionsView>) -> bool {
    match fo {
        None => false,
        Some(f) => {
            if f.client_tools_json matches Some(j) && j.len() > 0 {
                false
            } else {
                f.is_auto_calling == Some(true)
            }
        },
    }
}

/// Some server-driven tool selection knob is engaged.
pub open spec fn server_driven(f: FunctionOptionsView) -> bool {
    f.function_set_name is Some || f.use_runners_as_function is Some
        || f.use_workers_as_function is Some || f.auto_select_function_set == Some(true)
}

/// The outcome of a successful auto-select round: the chosen FunctionSet and
/// the arguments for the second request.
#[derive(Debug)]
pub struct AutoSelectResult {
    pub selected_set_name: String,
    pub second_args: LlmChatArgs,
}

/// The model called no selector tool: the names it did call, and the
/// error message.
#[derive(Debug)]
pub struct AutoSelectFailed {
    pub attempted_names: Vec<String>,
    pub message: String,
}

/// Whether `n` is one of `names`.
fn contains_name(names: &Vec<String>, n: &str) -> (r: bool)
    ensures
        r == names_view(names@).contains(n@),
{
    let ghost nv = names_view(names@);
    let mut k: usize = 0;
    while k < names.len()
        invariant
            nv == names_view(names@),
            k <= names@.len(),
            forall|j: int| 0 <= j < k ==> #[trigger] nv[j] != n@,
        decreases names.len() - k,
    {
        if str_eq(names[k].as_str(), n) {
            assert(nv[k as int] == n@);
            return true;
        }
        k = k + 1;
    }
    false
}

/// `name` without the selector prefix, when it has one.
fn strip_prefix_of(name: &str) -> (r: String)
    ensures
        r@ == strip_selector_prefix(name@),
{
    let chars = chars_of(name);
    let prefix = chars_of("select_toolset_");
    if starts_with_chars(&chars, &prefix) {
        let r = crate::text::string_from_range(&chars, prefix.len(), chars.len());
        assert(chars@.subrange(prefix@.len() as int, chars@.len() as int) =~= name@.skip(
            prefix@.len() as int,
        ));
        r
    } else {
        string_of(name)
    }
}

impl ToolConverter {
    /// Some server-driven tool selection knob is engaged (these exclude
    /// client-supplied tools).
    pub fn server_driven_tool_selection_set(fo: &FunctionOptions) -> (r: bool)
        ensures
            r == server_driven(fo@),
    {
        fo.function_set_name.is_some() || fo.use_runners_as_function.is_some()
            || fo.use_workers_as_function.is_some() || match fo.auto_select_function_set {
            Some(b) => b,
            None => false,
        }
    }

    /// The effective auto-calling switch: forced off when the client drives
    /// the tools (`client_tools_json` non-empty).
    pub fn effective_is_auto_calling(args: &LlmChatArgs) -> (r: bool)
        ensures
            r == effective_auto_calling(options_view(args.function_options)),
    {
        match &args.function_options {
            None => false,
            Some(fo) => {
                let requested = match fo.is_auto_calling {
                    Some(b) => b,
                    None => false,
                };
                let client_driven = match &fo.client_tools_json {
                    Some(s) => !s.as_str().is_empty(),
                    None => false,
                };
                if client_driven {
                    false
                } else {
                    requested
                }
            },
        }
    }

    /// Evaluate the tool calls of an auto-select round: the first call of a
    /// selector tool in `auto_select_names` picks its FunctionSet, and the
    /// second request is `original_args` with that set fixed and
    /// auto-selection off. Fails when no call is a selector tool.
    pub fn evaluate_auto_select<T: ToolCallName>(
        tool_calls: &[T],
        auto_select_names: &Vec<String>,
        original_args: LlmChatArgs,
        context_label: &str,
    ) -> (r: Result<AutoSelectResult, AutoSelectFailed>)
        ensures
            r is Ok <==> exists|i: int| first_selected(tool_calls@, names_view(auto_select_names@), i),
            r matches Ok(res) ==> {
                let i = choose|i: int| first_selected(tool_calls@, names_view(auto_select_names@), i);
                let set_name = strip_selector_prefix(tool_calls@[i].spec_tool_name());
                &&& res.selected_set_name@ == set_name
                &&& res.second_args@.model == original_args@.model
                &&& res.second_args@.messages == original_args@.messages
                &&& res.second_args@.json_schema == original_args@.json_schema
                &&& res.second_args@.function_options == Some(
                    selected_options(original_args@.function_options, set_name),
                )
            },
            r matches Err(e) ==> {
                &&& names_view(e.attempted_names@) == tool_calls@.map_values(
                    |t: T| t.spec_tool_name(),
                )
                &&& e.message@ == "Auto-select failed: LLM called "@ + debug_str_list(
                    names_view(e.attempted_names@),
                ) + " instead of selector tools"@
            },
    {
        let ghost nv = names_view(auto_select_names@);
        let mut i: usize = 0;
        while i < tool_calls.len()
            invariant
                nv == names_view(auto_select_names@),
                i <= tool_calls@.len(),
                forall|k: int| 0 <= k < i ==> !nv.contains(#[trigger] tool_calls@[k].spec_tool_name()),
            decreases tool_calls.len() - i,
        {
            let name = tool_calls[i].tool_name();
            if contains_name(auto_select_names, name) {
                proof {
                    assert(first_selected(tool_calls@, nv, i as int));
                    let j = choose|j: int| first_selected(tool_calls@, nv, j);
                    if j < i {
                        assert(!nv.contains(tool_calls@[j].spec_tool_name()));
                    } else if i < j {
                        assert(!nv.contains(tool_calls@[i as int].spec_tool_name()));
                    }
                }
                let set_name = strip_prefix_of(name);
                let LlmChatArgs { model, messages, function_options, json_schema } = original_args;
                let fo = match function_options {
                    Some(f) => FunctionOptions {
                        use_function_calling: f.use_function_calling,
                        use_runners_as_function: f.use_runners_as_function,
                        use_workers_as_function: f.use_workers_as_function,
                        function_set_name: Some(set_name.clone()),
                        is_auto_calling: f.is_auto_calling,
                        auto_select_function_set: Some(false),
                        client_tools_json: f.client_tools_json,
                    },
                    None => FunctionOptions {
                        use_function_calling: true,
                        use_runners_as_function: None,
                        use_workers_as_function: None,
                        function_set_name: Some(set_name.clone()),
                        is_auto_calling: None,
                        auto_select_function_set: Some(false),
                        client_tools_json: None,
                    },
                };
                let second_args = LlmChatArgs {
                    model,
                    messages,
                    function_options: Some(fo),
                    json_schema,
                };
                return Ok(AutoSelectResult { selected_set_name: set_name, second_args });
            }
            i = i + 1;
        }
        let mut attempted: Vec<String> = Vec::new();
        let mut k: usize = 0;
        while k < tool_calls.len()
            invariant
                k <= tool_calls@.len(),
                names_view(attempted@) == tool_calls@.take(k as int).map_values(
                    |t: T| t.spec_tool_name(),
                ),
            decreases tool_calls.len() - k,
        {
            let ghost prev = attempted@;
            let n = string_of(tool_calls[k].tool_name());
            attempted.push(n);
            proof {
                assert(names_view(attempted@) =~= names_view(prev).push(n@));
                assert(tool_calls@.take(k + 1).map_values(|t: T| t.spec_tool_name())
                    =~= tool_calls@.take(k as int).map_values(|t: T| t.spec_tool_name()).push(
                    tool_calls@[k as int].spec_tool_name(),
                ));
            }
            k = k + 1;
        }
        assert(tool_calls@.take(k as int) =~= tool_calls@);
        let listed = debug_string_list(&attempted);
        let mut message = string_of("Auto-select failed: LLM called ");
        push_str(&mut message, listed.as_str());
        push_str(&mut message, " instead of selector tools");
        proof {
            if exists|j: int| first_selected(tool_calls@, nv, j) {
                let j = choose|j: int| first_selected(tool_calls@, nv, j);
                assert(!nv.contains(tool_calls@[j].spec_tool_name()));
            }
        }
        Err(AutoSelectFailed { attempted_names: attempted, message })
    }
}

/// The selector tool of a FunctionSet is recognised as a selector, and
/// stripping the selector prefix from its name gives back the set name that
/// auto-selection then requests.
pub proof fn law_selector_name_round_trip(set_name: Seq<char>)
    ensures
        is_selector_name(selector_prefix() + set_name),
        strip_selector_prefix(selector_prefix() + set_name) == set_name,
{
    let p = selector_prefix();
    assert((p + set_name).take(p.len() as int) =~= p);
    assert((p + set_name).skip(p.len() as int) =~= set_name);
}

/// Filtering leaves no selector call, keeps every other call, and filtering
/// again changes nothing.
pub proof fn law_filter_selector_tools<T: ToolCallName>(calls: Seq<T>)
    ensures
        forall|k: int|
            0 <= k < non_selector_calls(calls).len() ==> !is_selector_name(
                #[trigger] non_selector_calls(calls)[k].spec_tool_name(),
            ),
        non_selector_calls(non_selector_calls(calls)) == non_selector_calls(calls),
        non_selector_calls(calls).len() <= calls.len(),
    decreases calls.len(),
{
    if calls.len() > 0 {
        law_filter_selector_tools(calls.drop_last());
        let rest = non_selector_calls(calls.drop_last());
        if !is_selector_name(calls.last().spec_tool_name()) {
            let out = rest.push(calls.last());
            assert(out.drop_last() =~= rest);
            assert(non_selector_calls(out) == non_selector_calls(rest).push(calls.last()));
        }
    }
}

/// A client that supplies its own tools always gets manual tool calling.
pub proof fn law_client_tools_force_manual(fo: FunctionOptionsView)
    requires
        fo.client_tools_json matches Some(j) && j.len() > 0,
    ensures
        !effective_auto_calling(Some(fo)),
{
}

} // verus!
