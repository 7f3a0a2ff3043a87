//! Which tools a chat request offers the model: none, the functions of one
//! FunctionSet, a selector tool per FunctionSet (auto-selection), or all
//! runners and workers.

use vstd::prelude::*;
use crate::chat_model::{options_view, LlmChatArgs};
use crate::conversion::{
    is_selector_name, selector_description, selector_prefix, summaries_view, valid_set_name, SelectorTool,
    ToolConverter,
};
use crate::function_set_selector::FunctionSetData;

verus! {

/// Where the tools of a chat request come from.
#[derive(Debug, PartialEq, Eq)]
pub enum ToolSource {
    /// Function calling is off.
    NoTools,
    /// The functions of the named FunctionSet.
    FunctionSet(String),
    /// One selector tool per FunctionSet; the model picks the set first.
    AutoSelectSets,
    /// All functions, leaving out runners and/or workers.
    AllFunctions { exclude_runners: bool, exclude_workers: bool },
}

/// The tool source of a request: with function calling on, a named
/// FunctionSet wins, then auto-selection, then all functions (runners and
/// workers each left out unless asked for).
pub fn tool_source(args: &LlmChatArgs) -> (r: ToolSource)
    ensures
        match options_view(args.function_options) {
            None => r == ToolSource::NoTools,
            Some(f) => if !f.use_function_calling {
                r == ToolSource::NoTools
            } else if f.function_set_name is Some {
                r matches ToolSource::FunctionSet(n) && Some(n@) == f.function_set_name
            } else if f.auto_select_function_set == Some(true) {
                r == ToolSource::AutoSelectSets
            } else {
                r == (ToolSource::AllFunctions {
                    exclude_runners: f.use_runners_as_function != Some(true),
                    exclude_workers: f.use_workers_as_function != Some(true),
                })
            },
        },
{
    match &args.function_options {
        None => ToolSource::NoTools,
        Some(fo) => {
            if !fo.use_function_calling {
                ToolSource::NoTools
            } else {
                match &fo.function_set_name {
                    Some(n) => ToolSource::FunctionSet(n.clone()),
                    None => {
                        let auto = match fo.auto_select_function_set {
                            Some(b) => b,
                            None => false,
                        };
                        if auto {
                            ToolSource::AutoSelectSets
                        } else {
                            let runners = match fo.use_runners_as_function {
                                Some(b) => b,
                                None => false,
                            };
                            let workers = match fo.use_workers_as_function {
                                Some(b) => b,
                                None => false,
                            };
                            ToolSource::AllFunctions { exclude_runners: !runners, exclude_workers: !workers }
                        }
                    },
                }
            }
        },
    }
}

/// The selector tools of FunctionSets with valid names, in order.
pub open spec fn selectable_sets(sets: Seq<(FunctionSetData, Seq<(Seq<char>, Seq<char>)>)>) -> Seq<
    (FunctionSetData, Seq<(Seq<char>, Seq<char>)>),
>
    decreases sets.len(),
{
    if sets.len() == 0 {
        Seq::empty()
    } else {
        let rest = selectable_sets(sets.drop_last());
        if valid_set_name(sets.last().0.name@) {
            rest.push(sets.last())
        } else {
            rest
        }
    }
}

/// The views of FunctionSets with their tool summaries.
pub open spec fn sets_view(sets: Seq<(FunctionSetData, Vec<(String, String)>)>) -> Seq<
    (FunctionSetData, Seq<(Seq<char>, Seq<char>)>),
> {
    sets.map_values(|p: (FunctionSetData, Vec<(String, String)>)| (p.0, summaries_view(p.1@)))
}

/// The selector tools for auto-selection, one per FunctionSet with a valid
/// name, in order, and their names (the names auto-selection listens for).
pub fn selector_tools(sets: &Vec<(FunctionSetData, Vec<(String, String)>)>) -> (r: (
    Vec<SelectorTool>,
    Vec<String>,
))
    ensures
        r.0@.len() == selectable_sets(sets_view(sets@)).len(),
        r.1@.len() == r.0@.len(),
        forall|k: int| 0 <= k < r.0@.len() ==> {
            let s = #[trigger] selectable_sets(sets_view(sets@))[k];
            &&& r.0@[k].name@ == selector_prefix() + s.0.name@
            &&& r.0@[k].description@ == selector_description(s.0.name@, s.0.description@, s.1)
            &&& r.1@[k]@ == r.0@[k].name@
        },
        forall|k: int| 0 <= k < r.1@.len() ==> is_selector_name(#[trigger] r.1@[k]@),
{
    let ghost sv = sets_view(sets@);
    let mut tools: Vec<SelectorTool> = Vec::new();
    let mut names: Vec<String> = Vec::new();
    let mut i: usize = 0;
    while i < sets.len()
        invariant
            sv == sets_view(sets@),
            i <= sets@.len(),
            tools@.len() == selectable_sets(sv.take(i as int)).len(),
            names@.len() == tools@.len(),
            forall|k: int| 0 <= k < tools@.len() ==> {
                let s = #[trigger] selectable_sets(sv.take(i as int))[k];
                &&& tools@[k].name@ == selector_prefix() + s.0.name@
                &&& tools@[k].description@ == selector_description(s.0.name@, s.0.description@, s.1)
                &&& names@[k]@ == tools@[k].name@
            },
        decreases sets.len() - i,
    {
        proof {
            assert(sv.take(i + 1).drop_last() =~= sv.take(i as int));
            assert(sv.take(i + 1).last() == sv[i as int]);
        }
        let (data, summaries) = &sets[i];
        match ToolConverter::convert_function_set_to_selector_tool(
            data.name.as_str(),
            data.description.as_str(),
            summaries.as_slice(),
        ) {
            Some(t) => {
                let n = t.name.clone();
                tools.push(t);
                names.push(n);
            },
            None => {},
        }
        i = i + 1;
    }
    assert(sv.take(i as int) =~= sv);
    assert forall|k: int| 0 <= k < names@.len() implies is_selector_name(#[trigger] names@[k]@) by {
        let s = selectable_sets(sv)[k];
        assert((selector_prefix() + s.0.name@).take(selector_prefix().len() as int) =~= selector_prefix());
    }
    (tools, names)
}

} // verus!
