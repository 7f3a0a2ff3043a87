//! The FunctionSet selector: which FunctionSets a query lists, in which
//! page, and the default texts that present them.

use vstd::prelude::*;
use crate::text::{
    chars_of, contains_chars, push_decimal, push_str, seq_contains, string_of, decimal,
};
use crate::conversion::{FunctionSpecs, ToolConverter, all_summaries, summaries_view};

verus! {

/// Unicode lower-casing of `s` (`str::to_lowercase`).
pub uninterp spec fn lowercase(s: Seq<char>) -> Seq<char>;

/// `str::to_lowercase`.
#[verifier::external_body]
fn to_lowercase(s: &str) -> (r: String)
    ensures
        r@ == lowercase(s@),
{
    s.to_lowercase()
}

/// What the selector reads of a FunctionSet.
#[derive(Debug, Clone)]
pub struct FunctionSetData {
    pub name: String,
    pub description: String,
    pub category: i32,
}

/// A selector query: optional category and name filter, and paging.
#[derive(Debug, Clone, Default)]
pub struct FunctionSetSelectorArgs {
    pub category: Option<i32>,
    pub name_filter: Option<String>,
    pub offset: Option<i32>,
    pub limit: Option<i32>,
}

/// `d` passes the query's filters: same category when one is given, and a
/// name containing the filter, both lower-cased, when one is given.
pub open spec fn passes_filter(d: FunctionSetData, args: FunctionSetSelectorArgs) -> bool {
    &&& (args.category matches Some(c) ==> d.category == c)
    &&& (args.name_filter matches Some(f) ==> seq_contains(lowercase(d.name@), lowercase(f@)))
}

/// The FunctionSets of `sets` that pass the query's filters, in order; sets
/// without data are dropped.
pub open spec fn filtered_sets(sets: Seq<Option<FunctionSetData>>, args: FunctionSetSelectorArgs) -> Seq<
    FunctionSetData,
>
    decreases sets.len(),
{
    if sets.len() == 0 {
        Seq::empty()
    } else {
        let rest = filtered_sets(sets.drop_last(), args);
        match sets.last() {
            Some(d) => if passes_filter(d, args) {
                rest.push(d)
            } else {
                rest
            },
            None => rest,
        }
    }
}

/// The page of `all` that the query asks for: skip `offset` (negative or
/// absent counts as 0), then keep at most `limit` when a positive limit is
/// given.
pub open spec fn page_of(all: Seq<FunctionSetData>, args: FunctionSetSelectorArgs) -> Seq<
    FunctionSetData,
> {
    let offset: int = match args.offset {
        Some(o) => if o > 0 {
            o as int
        } else {
            0
        },
        None => 0,
    };
    let skipped = if offset < all.len() {
        all.skip(offset)
    } else {
        Seq::empty()
    };
    match args.limit {
        Some(l) => if l > 0 && l < skipped.len() {
            skipped.take(l as int)
        } else {
            skipped
        },
        None => skipped,
    }
}

proof fn lemma_filtered_len(sets: Seq<Option<FunctionSetData>>, args: FunctionSetSelectorArgs)
    ensures
        filtered_sets(sets, args).len() <= sets.len(),
    decreases sets.len(),
{
    if sets.len() > 0 {
        lemma_filtered_len(sets.drop_last(), args);
    }
}

/// The filters are conjoined, each independent of the other: every set
/// that is kept has the requested category when one is given and a name
/// containing the filter (both lower-cased) when one is given; every set
/// that has both is kept; and every set of the page is such a set.
pub proof fn law_filters_conjoined(sets: Seq<Option<FunctionSetData>>, args: FunctionSetSelectorArgs)
    ensures
        forall|k: int| 0 <= k < filtered_sets(sets, args).len() ==> {
            &&& (args.category matches Some(c) ==> (#[trigger] filtered_sets(sets, args)[k]).category == c)
            &&& (args.name_filter matches Some(f) ==> seq_contains(
                lowercase(filtered_sets(sets, args)[k].name@),
                lowercase(f@),
            ))
        },
        forall|i: int|
            0 <= i < sets.len() && (#[trigger] sets[i]) is Some && (args.category matches Some(c)
                ==> sets[i]->Some_0.category == c) && (args.name_filter matches Some(f) ==> seq_contains(
                lowercase(sets[i]->Some_0.name@),
                lowercase(f@),
            )) ==> filtered_sets(sets, args).contains(sets[i]->Some_0),
        forall|k: int| 0 <= k < page_of(filtered_sets(sets, args), args).len() ==> {
            &&& (args.category matches Some(c) ==> (#[trigger] page_of(filtered_sets(sets, args), args)[k]).category
                == c)
            &&& (args.name_filter matches Some(f) ==> seq_contains(
                lowercase(page_of(filtered_sets(sets, args), args)[k].name@),
                lowercase(f@),
            ))
        },
    decreases sets.len(),
{
    let all = filtered_sets(sets, args);
    if sets.len() > 0 {
        let prev = sets.drop_last();
        law_filters_conjoined(prev, args);
        let rest = filtered_sets(prev, args);
        assert forall|i: int|
            0 <= i < sets.len() && (#[trigger] sets[i]) is Some && (args.category matches Some(c)
                ==> sets[i]->Some_0.category == c) && (args.name_filter matches Some(f) ==> seq_contains(
                lowercase(sets[i]->Some_0.name@),
                lowercase(f@),
            )) implies all.contains(sets[i]->Some_0) by {
            if i < sets.len() - 1 {
                assert(prev[i] == sets[i]);
                let j = choose|j: int| 0 <= j < rest.len() && rest[j] == sets[i]->Some_0;
                assert(all[j] == rest[j]);
            } else {
                assert(all[all.len() - 1] == sets[i]->Some_0);
            }
        }
        assert forall|k: int| 0 <= k < all.len() implies {
            &&& (args.category matches Some(c) ==> (#[trigger] all[k]).category == c)
            &&& (args.name_filter matches Some(f) ==> seq_contains(lowercase(all[k].name@), lowercase(f@)))
        } by {
            if k < rest.len() {
                assert(all[k] == rest[k]);
            }
        }
    }
    let page = page_of(all, args);
    assert forall|k: int| 0 <= k < page.len() implies {
        &&& (args.category matches Some(c) ==> (#[trigger] page[k]).category == c)
        &&& (args.name_filter matches Some(f) ==> seq_contains(lowercase(page[k].name@), lowercase(f@)))
    } by {
        let offset: int = match args.offset {
            Some(o) => if o > 0 { o as int } else { 0 },
            None => 0,
        };
        assert(page[k] == all[offset + k]);
    }
}

/// The page is a window of the filtered sets: it starts at the offset
/// (0 when absent or negative) and holds what remains from there, cut to
/// the limit when a positive limit is smaller.
pub proof fn law_page_is_window(all: Seq<FunctionSetData>, args: FunctionSetSelectorArgs)
    ensures
        ({
            let off: int = match args.offset {
                Some(o) => if o > 0 { o as int } else { 0 },
                None => 0,
            };
            let avail: int = if off < all.len() { all.len() - off } else { 0 };
            &&& page_of(all, args).len() == (match args.limit {
                Some(l) => if l > 0 && l < avail { l as int } else { avail },
                None => avail,
            })
            &&& forall|k: int| 0 <= k < page_of(all, args).len() ==> #[trigger] page_of(all, args)[k] == all[off + k]
        }),
{
}

/// Whether `d` passes the query's filters.
fn passes(d: &FunctionSetData, args: &FunctionSetSelectorArgs) -> (r: bool)
    ensures
        r == passes_filter(*d, *args),
{
    let cat_ok = match args.category {
        Some(c) => d.category == c,
        None => true,
    };
    if !cat_ok {
        return false;
    }
    match &args.name_filter {
        Some(f) => {
            let name = to_lowercase(d.name.as_str());
            let filter = to_lowercase(f.as_str());
            let nc = chars_of(name.as_str());
            let fc = chars_of(filter.as_str());
            contains_chars(&nc, &fc)
        },
        None => true,
    }
}

/// Filter the FunctionSets by the query and cut out its page. Returns the
/// page and the number of sets that passed the filters (before paging).
pub fn filter_and_page(sets: Vec<Option<FunctionSetData>>, args: &FunctionSetSelectorArgs) -> (r: (
    Vec<FunctionSetData>,
    i64,
))
    requires
        sets@.len() <= i64::MAX,
    ensures
        r.1 == filtered_sets(sets@, *args).len(),
        r.0@ == page_of(filtered_sets(sets@, *args), *args),
{
    let ghost all = sets@;
    let total: usize = sets.len();
    let mut rest = sets;
    let mut kept: Vec<FunctionSetData> = Vec::new();
    let mut taken: usize = 0;
    while rest.len() > 0
        invariant
            total == all.len(),
            taken + rest@.len() == total,
            rest@ == all.skip(taken as int),
            kept@ == filtered_sets(all.take(taken as int), *args),
        decreases rest@.len(),
    {
        let ghost i = taken as int;
        let item = rest.remove(0);
        proof {
            assert(item == all[i]);
            assert(all.take(i + 1).drop_last() =~= all.take(i));
            assert(all.take(i + 1).last() == all[i]);
        }
        match item {
            Some(d) => {
                if passes(&d, args) {
                    kept.push(d);
                }
            },
            None => {},
        }
        taken = taken + 1;
    }
    assert(all.take(total as int) =~= all);
    let ghost filtered = kept@;
    let count: usize = kept.len();
    proof {
        lemma_filtered_len(all, *args);
    }
    assert(count <= total);
    let total_count = count as i64;
    let offset: usize = match args.offset {
        Some(o) => if o > 0 {
            o as usize
        } else {
            0
        },
        None => 0,
    };
    let mut page: Vec<FunctionSetData> = Vec::new();
    if offset < kept.len() {
        let mut k: usize = 0;
        let mut rest = kept;
        while k < offset
            invariant
                k <= offset,
                offset < filtered.len(),
                rest@ == filtered.skip(k as int),
            decreases offset - k,
        {
            let _ = rest.remove(0);
            k = k + 1;
            assert(filtered.skip(k as int) =~= filtered.skip(k - 1).drop_first());
        }
        page = rest;
    }
    match args.limit {
        Some(l) => {
            if l > 0 && (l as usize) < page.len() {
                page.truncate(l as usize);
            }
        },
        None => {},
    }
    (page, total_count)
}

/// The default text of one tool of a FunctionSet.
pub open spec fn tool_entry_text(name: Seq<char>, description: Seq<char>) -> Seq<char> {
    "- "@ + name + ": "@ + description
}

/// The default text of one FunctionSet entry.
pub open spec fn entry_text(
    name: Seq<char>,
    description: Seq<char>,
    tools: Seq<char>,
    tool_count: nat,
) -> Seq<char> {
    "## "@ + name + "\n"@ + description + "\n\nAvailable tools ("@ + decimal(tool_count) + "):\n"@
        + tools
}

/// The default text of the whole selector result.
pub open spec fn result_text(entries: Seq<char>) -> Seq<char> {
    "The following FunctionSets are available. Select the most appropriate one for the user's task by name.\n\n"@
        + entries
}

/// The default tool entry: `- name: description`.
pub fn default_tool_entry(tool_name: &str, tool_description: &str) -> (r: String)
    ensures
        r@ == tool_entry_text(tool_name@, tool_description@),
{
    let mut s = string_of("- ");
    push_str(&mut s, tool_name);
    push_str(&mut s, ": ");
    push_str(&mut s, tool_description);
    s
}

/// The default FunctionSet entry: heading, description and its tools.
pub fn default_entry(name: &str, description: &str, tools: &str, tool_count: usize) -> (r: String)
    ensures
        r@ == entry_text(name@, description@, tools@, tool_count as nat),
{
    let mut s = string_of("## ");
    push_str(&mut s, name);
    push_str(&mut s, "\n");
    push_str(&mut s, description);
    push_str(&mut s, "\n\nAvailable tools (");
    push_decimal(&mut s, tool_count);
    push_str(&mut s, "):\n");
    push_str(&mut s, tools);
    s
}

/// The default selector result: the instruction followed by the entries.
pub fn default_result(entries: &str) -> (r: String)
    ensures
        r@ == result_text(entries@),
{
    let mut s = string_of(
        "The following FunctionSets are available. Select the most appropriate one for the user's task by name.\n\n",
    );
    push_str(&mut s, entries);
    s
}

/// `parts` joined with `sep` between consecutive parts.
pub open spec fn joined(parts: Seq<Seq<char>>, sep: Seq<char>) -> Seq<char>
    decreases parts.len(),
{
    if parts.len() == 0 {
        Seq::empty()
    } else if parts.len() == 1 {
        parts[0]
    } else {
        joined(parts.drop_last(), sep) + sep + parts.last()
    }
}

/// `[String]::join`.
pub fn join_strings(parts: &Vec<String>, sep: &str) -> (r: String)
    ensures
        r@ == joined(parts@.map_values(|p: String| p@), sep@),
{
    let ghost pv = parts@.map_values(|p: String| p@);
    let mut s = String::new();
    let mut i: usize = 0;
    while i < parts.len()
        invariant
            pv == parts@.map_values(|p: String| p@),
            i <= parts@.len(),
            s@ == joined(pv.take(i as int), sep@),
        decreases parts.len() - i,
    {
        if i > 0 {
            push_str(&mut s, sep);
        }
        push_str(&mut s, parts[i].as_str());
        proof {
            let t = pv.take(i + 1);
            assert(t.drop_last() =~= pv.take(i as int));
            assert(t.last() == pv[i as int]);
            if i == 0 {
                assert(joined(pv.take(0), sep@) =~= Seq::<char>::empty());
                assert(s@ =~= pv[0]);
            } else {
                assert(s@ =~= joined(pv.take(i as int), sep@) + sep@ + pv[i as int]);
            }
        }
        i = i + 1;
    }
    assert(pv.take(i as int) =~= pv);
    s
}

} // verus!

verus! {

/// `liquid::Template`: a parsed template.
#[verifier::external_type_specification]
#[verifier::external_body]
pub struct ExLiquidTemplate(liquid::Template);

/// `liquid::Object`: the globals a template is rendered with.
#[verifier::external_type_specification]
#[verifier::external_body]
pub struct ExLiquidObject(liquid::Object);

/// A global handed to a template: a text or an integer scalar.
pub enum TemplateGlobal {
    Text(Seq<char>),
    Integer(int),
}

/// The globals that a `liquid::Object` holds, by name.
pub uninterp spec fn object_globals(o: liquid::Object) -> Map<Seq<char>, TemplateGlobal>;

/// liquid's standard-library parser accepts `text` as a template.
pub uninterp spec fn liquid_parses(text: Seq<char>) -> bool;

/// `ParserBuilder::with_stdlib().build()` then `Parser::parse`: `text`
/// parsed with liquid's standard tags, blocks and filters, or the error's
/// text. It succeeds exactly on the texts that parser accepts; building the
/// parser does not fail (it has no partials to compile).
#[verifier::external_body]
fn parse_stdlib_template(text: &str) -> (r: Result<liquid::Template, TemplateError>)
    ensures
        r is Ok <==> liquid_parses(text@),
        !(r matches Err(TemplateError::ParserBuild(_))),
{
    let parser = match liquid::ParserBuilder::with_stdlib().build() {
        Ok(p) => p,
        Err(e) => return Err(TemplateError::ParserBuild(e.to_string())),
    };
    match parser.parse(text) {
        Ok(t) => Ok(t),
        Err(e) => Err(TemplateError::Parse(e.to_string())),
    }
}

/// `Object::new`: an object with no globals.
#[verifier::external_body]
fn new_globals() -> (globals: liquid::Object)
    ensures
        object_globals(globals) =~= Map::empty(),
{
    liquid::Object::new()
}

/// `Object::insert` of a text scalar: the global `key` now holds `value`,
/// the others are kept.
#[verifier::external_body]
fn insert_text(o: &mut liquid::Object, key: &str, value: &str)
    ensures
        object_globals(*final(o)) == object_globals(*old(o)).insert(
            key@,
            TemplateGlobal::Text(value@),
        ),
{
    o.insert(liquid::model::KString::from_ref(key), liquid::model::Value::scalar(value.to_owned()));
}

/// `Object::insert` of an integer scalar: the global `key` now holds
/// `value`, the others are kept.
#[verifier::external_body]
fn insert_integer(o: &mut liquid::Object, key: &str, value: i64)
    ensures
        object_globals(*final(o)) == object_globals(*old(o)).insert(
            key@,
            TemplateGlobal::Integer(value as int),
        ),
{
    o.insert(liquid::model::KString::from_ref(key), liquid::model::Value::scalar(value));
}

/// `Template::render`: the rendered text, or the error's text. What it
/// renders is not stated: the template is opaque here, and some filters
/// (`date` of `now`) read the clock.
#[verifier::external_body]
fn render_with(template: &liquid::Template, globals: &liquid::Object) -> Result<String, String> {
    match template.render(globals) {
        Ok(s) => Ok(s),
        Err(e) => Err(e.to_string()),
    }
}

/// The default liquid template of a FunctionSet entry.
pub open spec fn default_entry_template() -> Seq<char> {
    "## {{ name }}\n{{ description }}\n\nAvailable tools ({{ tool_count }}):\n{{ tools }}"@
}

/// The default liquid template of the whole selector result.
pub open spec fn default_result_template() -> Seq<char> {
    "The following FunctionSets are available. Select the most appropriate one for the user's task by name.\n\n{{ entries }}"@
}

/// The default liquid template of one tool line.
pub open spec fn default_tool_entry_template() -> Seq<char> {
    "- {{ tool_name }}: {{ tool_description }}"@
}

/// The default entry template's text.
pub fn default_entry_template_text() -> (r: &'static str)
    ensures
        r@ == default_entry_template(),
{
    "## {{ name }}\n{{ description }}\n\nAvailable tools ({{ tool_count }}):\n{{ tools }}"
}

/// The default result template's text.
pub fn default_result_template_text() -> (r: &'static str)
    ensures
        r@ == default_result_template(),
{
    "The following FunctionSets are available. Select the most appropriate one for the user's task by name.\n\n{{ entries }}"
}

/// The default tool entry template's text.
pub fn default_tool_entry_template_text() -> (r: &'static str)
    ensures
        r@ == default_tool_entry_template(),
{
    "- {{ tool_name }}: {{ tool_description }}"
}

/// The template text used for a setting: the configured one when it is
/// non-empty, else the default.
pub open spec fn chosen_source(custom: Option<String>, default: Seq<char>) -> Seq<char> {
    match custom {
        Some(s) => if s@.len() > 0 {
            s@
        } else {
            default
        },
        None => default,
    }
}

/// The selector's settings: a template for each text, empty or absent for
/// the default.
#[derive(Debug, Clone, Default)]
pub struct FunctionSetSelectorSettings {
    pub entry_template: Option<String>,
    pub result_template: Option<String>,
    pub tool_entry_template: Option<String>,
}

/// A parsed template together with the text it was parsed from.
pub struct SelectorTemplate {
    pub source: String,
    pub template: liquid::Template,
}

/// Why a template could not be loaded.
#[derive(Debug, Clone)]
pub enum TemplateError {
    /// The parser itself could not be built.
    ParserBuild(String),
    /// The template text does not parse.
    Parse(String),
}

impl TemplateError {
    /// The error's text.
    pub fn message(&self) -> (r: String)
        ensures
            r@ == match *self {
                TemplateError::ParserBuild(e) => "Failed to create liquid parser: "@ + e@,
                TemplateError::Parse(e) => "Failed to parse liquid template: "@ + e@,
            },
    {
        match self {
            TemplateError::ParserBuild(e) => {
                let mut m = string_of("Failed to create liquid parser: ");
                push_str(&mut m, e.as_str());
                m
            },
            TemplateError::Parse(e) => {
                let mut m = string_of("Failed to parse liquid template: ");
                push_str(&mut m, e.as_str());
                m
            },
        }
    }
}

/// The FunctionSet selector's presentation: one optional template for each
/// text; where a template is absent the default text is written directly.
pub struct FunctionSetSelectorImpl {
    pub entry_template: Option<SelectorTemplate>,
    pub result_template: Option<SelectorTemplate>,
    pub tool_entry_template: Option<SelectorTemplate>,
}

/// `t` holds a template parsed from `source`.
pub open spec fn holds_source(t: Option<SelectorTemplate>, source: Seq<char>) -> bool {
    t matches Some(st) && st.source@ == source
}

/// The text a template setting selects, as a `String`.
fn template_source(custom: &Option<String>, default: &str) -> (r: String)
    ensures
        r@ == chosen_source(*custom, default@),
{
    match custom {
        Some(s) => if !s.as_str().is_empty() {
            s.clone()
        } else {
            string_of(default)
        },
        None => string_of(default),
    }
}

impl FunctionSetSelectorImpl {
    /// A selector with no templates loaded.
    pub fn new() -> (r: Self)
        ensures
            r.entry_template is None,
            r.result_template is None,
            r.tool_entry_template is None,
    {
        FunctionSetSelectorImpl { entry_template: None, result_template: None, tool_entry_template: None }
    }

    /// Parse `text` with liquid's standard library.
    pub fn parse_template(text: &str) -> (r: Result<SelectorTemplate, TemplateError>)
        ensures
            r is Ok <==> liquid_parses(text@),
            r matches Ok(t) ==> t.source@ == text@,
            r matches Err(e) ==> e is Parse,
    {
        match parse_stdlib_template(text) {
            Ok(template) => Ok(SelectorTemplate { source: string_of(text), template }),
            Err(e) => Err(e),
        }
    }

    /// Load the three templates of `settings` (each default where unset or
    /// empty), in the order entry, result, tool entry; the first that fails
    /// to parse ends the load, and the ones before it stay loaded.
    pub fn load(&mut self, settings: &FunctionSetSelectorSettings) -> (r: Result<(), TemplateError>)
        ensures
            r is Ok <==> {
                &&& liquid_parses(chosen_source(settings.entry_template, default_entry_template()))
                &&& liquid_parses(chosen_source(settings.result_template, default_result_template()))
                &&& liquid_parses(chosen_source(settings.tool_entry_template, default_tool_entry_template()))
            },
            r is Ok ==> {
                &&& holds_source(final(self).entry_template, chosen_source(settings.entry_template, default_entry_template()))
                &&& holds_source(final(self).result_template, chosen_source(settings.result_template, default_result_template()))
                &&& holds_source(final(self).tool_entry_template, chosen_source(settings.tool_entry_template, default_tool_entry_template()))
            },
            r is Err ==> {
                &&& (final(self).entry_template == old(self).entry_template
                    || holds_source(final(self).entry_template, chosen_source(settings.entry_template, default_entry_template())))
                &&& (final(self).result_template == old(self).result_template
                    || holds_source(final(self).result_template, chosen_source(settings.result_template, default_result_template())))
                &&& final(self).tool_entry_template == old(self).tool_entry_template
            },
    {
        let entry_src = template_source(&settings.entry_template, default_entry_template_text());
        let entry = Self::parse_template(entry_src.as_str())?;
        self.entry_template = Some(entry);
        let result_src = template_source(&settings.result_template, default_result_template_text());
        let result = Self::parse_template(result_src.as_str())?;
        self.result_template = Some(result);
        let tool_src = template_source(
            &settings.tool_entry_template,
            default_tool_entry_template_text(),
        );
        let tool = Self::parse_template(tool_src.as_str())?;
        self.tool_entry_template = Some(tool);
        Ok(())
    }
}


/// The globals a tool line is rendered with.
pub open spec fn tool_entry_globals_of(tool_name: Seq<char>, tool_description: Seq<char>) -> Map<
    Seq<char>,
    TemplateGlobal,
> {
    Map::empty().insert("tool_name"@, TemplateGlobal::Text(tool_name)).insert(
        "tool_description"@,
        TemplateGlobal::Text(tool_description),
    )
}

/// The globals a FunctionSet entry is rendered with.
pub open spec fn entry_globals_of(
    name: Seq<char>,
    description: Seq<char>,
    category: int,
    tools: Seq<char>,
    tool_count: int,
) -> Map<Seq<char>, TemplateGlobal> {
    Map::empty().insert("name"@, TemplateGlobal::Text(name)).insert(
        "description"@,
        TemplateGlobal::Text(description),
    ).insert("category"@, TemplateGlobal::Integer(category)).insert(
        "tools"@,
        TemplateGlobal::Text(tools),
    ).insert("tool_count"@, TemplateGlobal::Integer(tool_count))
}

/// The globals the selector result is rendered with.
pub open spec fn result_globals_of(entries: Seq<char>, total_count: int) -> Map<
    Seq<char>,
    TemplateGlobal,
> {
    Map::empty().insert("entries"@, TemplateGlobal::Text(entries)).insert(
        "total_count"@,
        TemplateGlobal::Integer(total_count),
    )
}

fn tool_entry_globals(tool_name: &str, tool_description: &str) -> (globals: liquid::Object)
    ensures
        object_globals(globals) == tool_entry_globals_of(tool_name@, tool_description@),
{
    let mut g = new_globals();
    insert_text(&mut g, "tool_name", tool_name);
    insert_text(&mut g, "tool_description", tool_description);
    g
}

fn entry_globals(name: &str, description: &str, category: i32, tools: &str, tool_count: i64) -> (globals:
    liquid::Object)
    ensures
        object_globals(globals) == entry_globals_of(
            name@,
            description@,
            category as int,
            tools@,
            tool_count as int,
        ),
{
    let mut g = new_globals();
    insert_text(&mut g, "name", name);
    insert_text(&mut g, "description", description);
    insert_integer(&mut g, "category", category as i64);
    insert_text(&mut g, "tools", tools);
    insert_integer(&mut g, "tool_count", tool_count);
    g
}

fn result_globals(entries: &str, total_count: i64) -> (globals: liquid::Object)
    ensures
        object_globals(globals) == result_globals_of(entries@, total_count as int),
{
    let mut g = new_globals();
    insert_text(&mut g, "entries", entries);
    insert_integer(&mut g, "total_count", total_count);
    g
}

/// What a render came to: the rendered text, or `fallback` when rendering
/// failed.
pub fn rendered_or(rendered: Result<String, String>, fallback: String) -> (r: String)
    ensures
        r == match rendered {
            Ok(s) => s,
            Err(_) => fallback,
        },
{
    match rendered {
        Ok(s) => s,
        Err(_) => fallback,
    }
}

/// The tool lines of a FunctionSet's functions in the default layout; none
/// when its functions could not be read.
pub open spec fn tool_lines(specs: Option<Vec<FunctionSpecs>>) -> Seq<Seq<char>> {
    match specs {
        Some(v) => all_summaries(v@).map_values(
            |p: (Seq<char>, Seq<char>)| tool_entry_text(p.0, p.1),
        ),
        None => Seq::empty(),
    }
}

/// The default text of a FunctionSet entry with its tool lines.
pub open spec fn default_entry_of(d: FunctionSetData, specs: Option<Vec<FunctionSpecs>>) -> Seq<char> {
    entry_text(
        d.name@,
        d.description@,
        joined(tool_lines(specs), "\n"@),
        tool_lines(specs).len(),
    )
}

/// The default text of the selector output for a page of FunctionSets and
/// their functions.
pub open spec fn default_output(
    page: Seq<FunctionSetData>,
    tools: Seq<Option<Vec<FunctionSpecs>>>,
) -> Seq<char> {
    result_text(
        joined(Seq::new(page.len(), |i: int| default_entry_of(page[i], tools[i])), "\n\n"@),
    )
}

/// The views of a list of strings.
pub open spec fn texts(v: Seq<String>) -> Seq<Seq<char>> {
    v.map_values(|p: String| p@)
}

impl FunctionSetSelectorImpl {
    /// No template is loaded: every text is written in its default layout.
    pub open spec fn uses_defaults(&self) -> bool {
        &&& self.entry_template is None
        &&& self.result_template is None
        &&& self.tool_entry_template is None
    }

    /// One tool line: the tool entry template rendered with `tool_name` and
    /// `tool_description`, or the default line when no template is loaded
    /// or rendering fails.
    pub fn render_tool_entry(&self, tool_name: &str, tool_description: &str) -> (r: String)
        ensures
            self.tool_entry_template is None ==> r@ == tool_entry_text(
                tool_name@,
                tool_description@,
            ),
    {
        match &self.tool_entry_template {
            Some(t) => {
                let globals = tool_entry_globals(tool_name, tool_description);
                rendered_or(
                    render_with(&t.template, &globals),
                    default_tool_entry(tool_name, tool_description),
                )
            },
            None => default_tool_entry(tool_name, tool_description),
        }
    }

    /// One FunctionSet entry: the entry template rendered with the set's
    /// name, description, category, tool lines and tool count, or the
    /// default entry when no template is loaded or rendering fails.
    pub fn render_entry(
        &self,
        name: &str,
        description: &str,
        category: i32,
        tools: &str,
        tool_count: usize,
    ) -> (r: String)
        ensures
            self.entry_template is None ==> r@ == entry_text(
                name@,
                description@,
                tools@,
                tool_count as nat,
            ),
    {
        match &self.entry_template {
            Some(t) => {
                let globals = entry_globals(name, description, category, tools, tool_count as i64);
                rendered_or(
                    render_with(&t.template, &globals),
                    default_entry(name, description, tools, tool_count),
                )
            },
            None => default_entry(name, description, tools, tool_count),
        }
    }

    /// The whole output: the result template rendered with the entries and
    /// the total count, or the default result when no template is loaded or
    /// rendering fails.
    pub fn render_result(&self, entries: &str, total_count: i64) -> (r: String)
        ensures
            self.result_template is None ==> r@ == result_text(entries@),
    {
        match &self.result_template {
            Some(t) => {
                let globals = result_globals(entries, total_count);
                rendered_or(render_with(&t.template, &globals), default_result(entries))
            },
            None => default_result(entries),
        }
    }

    /// The tool lines of one FunctionSet: one rendered line per tool
    /// summary of its functions, none when they could not be read.
    pub fn tool_lines_of(&self, specs: &Option<Vec<FunctionSpecs>>) -> (r: Vec<String>)
        ensures
            self.tool_entry_template is None ==> texts(r@) == tool_lines(*specs),
            r@.len() == tool_lines(*specs).len(),
    {
        match specs {
            Some(v) => {
                let summaries = ToolConverter::get_tool_summaries(v.as_slice());
                let ghost sv = summaries_view(summaries@);
                let ghost want = tool_lines(*specs);
                let mut lines: Vec<String> = Vec::new();
                let mut j: usize = 0;
                while j < summaries.len()
                    invariant
                        sv == summaries_view(summaries@),
                        sv == all_summaries(v@),
                        want == tool_lines(*specs),
                        *specs == Some(*v),
                        j <= summaries@.len(),
                        lines@.len() == j,
                        self.tool_entry_template is None ==> texts(lines@) == want.take(j as int),
                    decreases summaries.len() - j,
                {
                    let line = self.render_tool_entry(
                        summaries[j].0.as_str(),
                        summaries[j].1.as_str(),
                    );
                    let ghost prev = lines@;
                    lines.push(line);
                    proof {
                        assert(sv[j as int] == (summaries@[j as int].0@, summaries@[j as int].1@));
                        assert(texts(lines@) =~= texts(prev).push(line@));
                        assert(want.take(j + 1) =~= want.take(j as int).push(want[j as int]));
                    }
                    j = j + 1;
                }
                proof {
                    assert(want.take(j as int) =~= want);
                }
                lines
            },
            None => Vec::new(),
        }
    }

    /// The selector's output for a page of FunctionSets, `tools[i]` being
    /// the functions of `page[i]` (`None` when they could not be read):
    /// each set's entry with its tool lines, entries separated by a blank
    /// line, inside the result text.
    pub fn format_output(
        &self,
        page: &Vec<FunctionSetData>,
        tools: &Vec<Option<Vec<FunctionSpecs>>>,
        total_count: i64,
    ) -> (r: String)
        requires
            page@.len() == tools@.len(),
        ensures
            self.uses_defaults() ==> r@ == default_output(page@, tools@),
    {
        let ghost want = Seq::new(page@.len(), |i: int| default_entry_of(page@[i], tools@[i]));
        let mut entries: Vec<String> = Vec::new();
        let mut i: usize = 0;
        while i < page.len()
            invariant
                page@.len() == tools@.len(),
                want == Seq::new(page@.len(), |k: int| default_entry_of(page@[k], tools@[k])),
                i <= page@.len(),
                entries@.len() == i,
                self.uses_defaults() ==> texts(entries@) == want.take(i as int),
            decreases page.len() - i,
        {
            let lines = self.tool_lines_of(&tools[i]);
            let tools_str = join_strings(&lines, "\n");
            let entry = self.render_entry(
                page[i].name.as_str(),
                page[i].description.as_str(),
                page[i].category,
                tools_str.as_str(),
                lines.len(),
            );
            let ghost prev = entries@;
            entries.push(entry);
            proof {
                assert(texts(entries@) =~= texts(prev).push(entry@));
                assert(want.take(i + 1) =~= want.take(i as int).push(want[i as int]));
                if self.uses_defaults() {
                    assert(lines@.map_values(|p: String| p@) == texts(lines@));
                    assert(entry@ == want[i as int]);
                }
            }
            i = i + 1;
        }
        proof {
            assert(want.take(i as int) =~= want);
        }
        let entries_str = join_strings(&entries, "\n\n");
        self.render_result(entries_str.as_str(), total_count)
    }
}

} // verus!
