//! The Codex model catalog: which models are offered, in which order, and what each can do.

use vstd::prelude::*;
use vstd::string::StringExecFns;
use crate::json::{array_view, as_items, as_signed, as_truth, json_parse, member, str_view, text_at, Json, JsonView};
use crate::providers::{model_views, ApiStyle, ModelView, RemoteModelOption};
use crate::text;

verus! {

/// The address under which the Codex backend takes requests.
pub const CODEX_BASE: &'static str = "https://chatgpt.com/backend-api/codex";

// ---------------------------------------------------------------------------
// Efforts
// ---------------------------------------------------------------------------

/// Whether the shared thinking control knows how to send an effort. Codex-only names such as
/// `xhigh` and `ultra` are not advertised.
pub open spec fn is_shared_effort(effort: Seq<char>) -> bool {
    effort == "low"@ || effort == "medium"@ || effort == "high"@ || effort == "max"@
}

fn shared_effort(effort: &str) -> (r: bool)
    ensures
        r == is_shared_effort(effort@),
{
    text::same(effort, "low") || text::same(effort, "medium") || text::same(effort, "high")
        || text::same(effort, "max")
}

/// The effort that a reasoning level stands for, if it is one to advertise.
pub open spec fn level_effort(level: JsonView) -> Option<Seq<char>> {
    match text_at(level, "effort"@) {
        Some(effort) => {
            let effort = text::lowered(text::trimmed(effort));
            if is_shared_effort(effort) {
                Some(effort)
            } else {
                None
            }
        },
        None => None,
    }
}

/// The efforts that reasoning levels stand for, each once, in the order of the levels.
pub open spec fn level_efforts(levels: Seq<JsonView>) -> Seq<Seq<char>>
    decreases levels.len(),
{
    if levels.len() == 0 {
        seq![]
    } else {
        let before = level_efforts(levels.drop_last());
        match level_effort(levels.last()) {
            Some(effort) => if before.contains(effort) {
                before
            } else {
                before.push(effort)
            },
            None => before,
        }
    }
}

/// The efforts that a catalog entry advertises.
pub open spec fn entry_efforts(item: JsonView) -> Seq<Seq<char>> {
    match as_items(member(item, "supported_reasoning_levels"@)) {
        Some(levels) => level_efforts(levels),
        None => seq![],
    }
}

/// Whether `texts` holds `wanted`.
fn holds(texts: &Vec<String>, wanted: &str) -> (r: bool)
    ensures
        r == texts.deep_view().contains(wanted@),
{
    let ghost views = texts.deep_view();
    let mut i: usize = 0;
    while i < texts.len()
        invariant
            views == texts.deep_view(),
            i <= texts@.len(),
            forall|j: int| 0 <= j < i ==> views[j] != wanted@,
        decreases texts@.len() - i,
    {
        proof {
            assert(views[i as int] == texts@[i as int]@);
        }
        if text::same(texts[i].as_str(), wanted) {
            return true;
        }
        i += 1;
    }
    false
}

fn codex_thinking_efforts(item: &Json) -> (r: Vec<String>)
    ensures
        r.deep_view() == entry_efforts(item.view()),
{
    let mut efforts: Vec<String> = Vec::new();
    proof {
        assert(efforts.deep_view() =~= seq![]);
    }
    let levels = match item.items_at("supported_reasoning_levels") {
        Some(levels) => levels,
        None => {
            return efforts;
        },
    };
    let ghost views = array_view(levels@);
    for i in 0..levels.len()
        invariant
            views == array_view(levels@),
            efforts.deep_view() == level_efforts(views.take(i as int)),
    {
        proof {
            assert(views.take(i + 1).drop_last() == views.take(i as int));
        }
        match levels[i].text_at("effort") {
            Some(effort) => {
                let effort = text::to_lower(text::trim(effort));
                if shared_effort(effort.as_str()) && !holds(&efforts, effort.as_str()) {
                    let ghost before = efforts.deep_view();
                    let ghost added = effort@;
                    efforts.push(effort);
                    proof {
                        assert(efforts.deep_view() =~= before.push(added));
                    }
                }
            },
            None => {},
        }
    }
    proof {
        assert(views.take(levels@.len() as int) == views);
    }
    efforts
}

/// The summary and the context that the Codex backend expects beside the effort. The catalog
/// omits the summary flag where the model accepts one; only Responses Lite models take a context.
pub open spec fn entry_wire(item: JsonView) -> (Option<Seq<char>>, Option<Seq<char>>) {
    (
        if as_truth(member(item, "supports_reasoning_summary_parameter"@)) == Some(false) {
            None
        } else {
            Some("detailed"@)
        },
        if as_truth(member(item, "use_responses_lite"@)) == Some(true) {
            Some("all_turns"@)
        } else {
            None
        },
    )
}

fn codex_reasoning_wire(item: &Json) -> (r: (Option<String>, Option<String>))
    ensures
        (r.0.deep_view(), r.1.deep_view()) == entry_wire(item.view()),
{
    let summarised = match item.get("supports_reasoning_summary_parameter") {
        Some(value) => match value.as_bool() {
            Some(yes) => yes,
            None => true,
        },
        None => true,
    };
    let lite = match item.get("use_responses_lite") {
        Some(value) => match value.as_bool() {
            Some(yes) => yes,
            None => false,
        },
        None => false,
    };
    let summary = if summarised {
        Some("detailed".to_owned())
    } else {
        None
    };
    let context = if lite {
        Some("all_turns".to_owned())
    } else {
        None
    };
    (summary, context)
}

// ---------------------------------------------------------------------------
// Options
// ---------------------------------------------------------------------------

/// The option for a Codex model. Summary and context go only with a model whose effort can be
/// chosen.
pub open spec fn model_option(
    model: Seq<char>,
    efforts: Seq<Seq<char>>,
    wire: (Option<Seq<char>>, Option<Seq<char>>),
) -> ModelView {
    let controllable = efforts.len() > 0;
    ModelView {
        id: "remote|"@ + CODEX_BASE@ + "|"@ + model,
        model,
        base: CODEX_BASE@,
        port: 443,
        ready: true,
        label: model,
        thinking_supported: controllable,
        thinking_control: if controllable {
            Some("reasoning"@)
        } else {
            None
        },
        thinking_efforts: efforts,
        thinking_can_disable: false,
        reasoning_summary: if controllable {
            wire.0
        } else {
            None
        },
        reasoning_context: if controllable {
            wire.1
        } else {
            None
        },
        attachments_supported: false,
        context_length: None,
        prompt_progress_supported: false,
        provider_id: seq![],
        provider_name: seq![],
        request_style: ApiStyle::Responses,
        connect_kind: None,
    }
}

/// The option for a Codex model.
pub fn codex_model_option(
    model: &str,
    efforts: Vec<String>,
    wire: (Option<String>, Option<String>),
) -> (r: RemoteModelOption)
    ensures
        r@ == model_option(model@, efforts.deep_view(), (wire.0.deep_view(), wire.1.deep_view())),
{
    let controllable = !efforts.is_empty();
    proof {
        assert(efforts.deep_view().len() == efforts@.len());
    }
    let (summary, context) = wire;
    let (reasoning_summary, reasoning_context) = if controllable {
        (summary, context)
    } else {
        (None, None)
    };
    let mut id = "remote|".to_owned();
    id.append(CODEX_BASE);
    id.append("|");
    id.append(model);
    RemoteModelOption {
        id,
        model: model.to_owned(),
        base: CODEX_BASE.to_owned(),
        port: 443,
        ready: true,
        label: model.to_owned(),
        thinking_supported: controllable,
        thinking_control: if controllable {
            Some("reasoning".to_owned())
        } else {
            None
        },
        thinking_efforts: efforts,
        thinking_can_disable: false,
        reasoning_summary,
        reasoning_context,
        attachments_supported: false,
        context_length: None,
        prompt_progress_supported: false,
        provider_id: String::new(),
        provider_name: String::new(),
        request_style: ApiStyle::Responses,
        connect_kind: None,
    }
}

// ---------------------------------------------------------------------------
// Entries and their order
// ---------------------------------------------------------------------------

/// A catalog entry that can be offered.
#[verifier::ext_equal]
pub struct EntryView {
    pub priority: i64,
    pub slug: Seq<char>,
    pub efforts: Seq<Seq<char>>,
    pub wire: (Option<Seq<char>>, Option<Seq<char>>),
}

struct Entry {
    priority: i64,
    slug: String,
    efforts: Vec<String>,
    wire: (Option<String>, Option<String>),
}

impl View for Entry {
    type V = EntryView;

    closed spec fn view(&self) -> EntryView {
        EntryView {
            priority: self.priority,
            slug: self.slug@,
            efforts: self.efforts.deep_view(),
            wire: (self.wire.0.deep_view(), self.wire.1.deep_view()),
        }
    }
}

/// Whether a catalog item is marked as hidden.
pub open spec fn is_hidden(item: JsonView) -> bool {
    match text_at(item, "visibility"@) {
        Some(visibility) => {
            let visibility = text::lowered(text::trimmed(visibility));
            visibility == "hide"@ || visibility == "hidden"@
        },
        None => false,
    }
}

/// The entry that a catalog item stands for; one without a name, or a hidden one, is not offered.
pub open spec fn entry_of(item: JsonView) -> Option<EntryView> {
    match text_at(item, "slug"@) {
        Some(slug) => if text::trimmed(slug).len() == 0 || is_hidden(item) {
            None
        } else {
            Some(
                EntryView {
                    priority: match as_signed(member(item, "priority"@)) {
                        Some(priority) => priority,
                        None => 10_000,
                    },
                    slug: text::trimmed(slug),
                    efforts: entry_efforts(item),
                    wire: entry_wire(item),
                },
            )
        },
        None => None,
    }
}

/// The entries that catalog items stand for.
pub open spec fn entries_of(items: Seq<JsonView>) -> Seq<EntryView>
    decreases items.len(),
{
    if items.len() == 0 {
        seq![]
    } else {
        match entry_of(items.last()) {
            Some(entry) => entries_of(items.drop_last()).push(entry),
            None => entries_of(items.drop_last()),
        }
    }
}

/// Whether `a` is listed before `b`: by priority, then by name.
pub open spec fn listed_before(a: EntryView, b: EntryView) -> bool {
    a.priority < b.priority || (a.priority == b.priority && text::precedes(a.slug, b.slug))
}

/// `entries` with `entry` put behind all those that it is not listed before.
pub open spec fn placed(entries: Seq<EntryView>, entry: EntryView) -> Seq<EntryView>
    decreases entries.len(),
{
    if entries.len() == 0 || !listed_before(entry, entries.last()) {
        entries.push(entry)
    } else {
        placed(entries.drop_last(), entry).push(entries.last())
    }
}

/// `entries` in listing order; entries that neither is listed before the other keep their order.
pub open spec fn ranked(entries: Seq<EntryView>) -> Seq<EntryView>
    decreases entries.len(),
{
    if entries.len() == 0 {
        seq![]
    } else {
        placed(ranked(entries.drop_last()), entries.last())
    }
}

/// The options for entries: one for each name, the first entry of that name.
pub open spec fn options_of(entries: Seq<EntryView>) -> Seq<ModelView>
    decreases entries.len(),
{
    if entries.len() == 0 {
        seq![]
    } else {
        let before = options_of(entries.drop_last());
        let entry = entries.last();
        if names_model(before, entry.slug) {
            before
        } else {
            before.push(model_option(entry.slug, entry.efforts, entry.wire))
        }
    }
}

/// Whether one of the options is the model `slug`.
pub open spec fn names_model(options: Seq<ModelView>, slug: Seq<char>) -> bool {
    exists|i: int| 0 <= i < options.len() && (#[trigger] options[i]).model == slug
}

/// The models that a catalog offers.
pub open spec fn catalog_models(body: JsonView) -> Seq<ModelView> {
    match as_items(member(body, "models"@)) {
        Some(items) => options_of(ranked(entries_of(items))),
        None => seq![],
    }
}

/// What entries hold.
spec fn entry_views(entries: Seq<Entry>) -> Seq<EntryView> {
    entries.map_values(|entry: Entry| entry@)
}

fn hidden(item: &Json) -> (r: bool)
    ensures
        r == is_hidden(item.view()),
{
    match item.text_at("visibility") {
        Some(visibility) => {
            let visibility = text::to_lower(text::trim(visibility));
            text::same(visibility.as_str(), "hide") || text::same(visibility.as_str(), "hidden")
        },
        None => false,
    }
}

fn read_entry(item: &Json) -> (r: Option<Entry>)
    ensures
        r is Some <==> entry_of(item.view()) is Some,
        r is Some ==> r->0@ == entry_of(item.view())->0,
{
    let slug = match item.text_at("slug") {
        Some(slug) => text::trim(slug),
        None => {
            return None;
        },
    };
    if slug.is_empty() || hidden(item) {
        return None;
    }
    let given = match item.get("priority") {
        Some(value) => value.as_i64(),
        None => None,
    };
    let priority: i64 = match given {
        Some(priority) => priority,
        None => 10_000,
    };
    Some(
        Entry {
            priority,
            slug: slug.to_owned(),
            efforts: codex_thinking_efforts(item),
            wire: codex_reasoning_wire(item),
        },
    )
}

fn goes_before(a: &Entry, b: &Entry) -> (r: bool)
    ensures
        r == listed_before(a@, b@),
{
    a.priority < b.priority || (a.priority == b.priority && text::before(
        a.slug.as_str(),
        b.slug.as_str(),
    ))
}

/// The place of an entry is right before those that it is listed before.
proof fn lemma_placed(entries: Seq<EntryView>, entry: EntryView, at: int)
    requires
        0 <= at <= entries.len(),
        forall|i: int| at <= i < entries.len() ==> listed_before(entry, #[trigger] entries[i]),
        at == 0 || !listed_before(entry, entries[at - 1]),
    ensures
        placed(entries, entry) == entries.insert(at, entry),
    decreases entries.len(),
{
    if at == entries.len() {
        assert(entries.insert(at, entry) =~= entries.push(entry));
    } else {
        assert(listed_before(entry, entries[entries.len() - 1]));
        lemma_placed(entries.drop_last(), entry, at);
        assert(entries.drop_last().insert(at, entry).push(entries.last()) =~= entries.insert(
            at,
            entry,
        ));
    }
}

/// Puts an entry in its place.
fn place(entries: &mut Vec<Entry>, entry: Entry)
    ensures
        entry_views(final(entries)@) == placed(entry_views(old(entries)@), entry@),
{
    let ghost views = entry_views(entries@);
    let ghost added = entry@;
    let mut at: usize = entries.len();
    while at > 0 && goes_before(&entry, &entries[at - 1])
        invariant
            at <= entries@.len(),
            views == entry_views(entries@),
            added == entry@,
            forall|i: int| at <= i < views.len() ==> listed_before(added, #[trigger] views[i]),
        decreases at,
    {
        at -= 1;
    }
    entries.insert(at, entry);
    proof {
        lemma_placed(views, added, at as int);
        assert(entry_views(entries@) =~= views.insert(at as int, added));
    }
}

/// Whether one of the options is the model `slug`, and which.
fn position_of(options: &Vec<RemoteModelOption>, slug: &str) -> (r: Option<usize>)
    ensures
        r is Some <==> names_model(model_views(options@), slug@),
        r is Some ==> {
            &&& r->0 < options@.len()
            &&& options@[r->0 as int].model@ == slug@
            &&& forall|j: int| 0 <= j < r->0 ==> (#[trigger] options@[j]).model@ != slug@
        },
{
    let mut i: usize = 0;
    while i < options.len()
        invariant
            i <= options@.len(),
            forall|j: int| 0 <= j < i ==> (#[trigger] options@[j]).model@ != slug@,
        decreases options@.len() - i,
    {
        if text::same(options[i].model.as_str(), slug) {
            proof {
                assert(model_views(options@)[i as int].model == slug@);
            }
            return Some(i);
        }
        i += 1;
    }
    proof {
        assert forall|j: int| 0 <= j < model_views(options@).len() implies (
        #[trigger] model_views(options@)[j]).model != slug@ by {
            assert(model_views(options@)[j] == options@[j]@);
        }
    }
    None
}

/// The models that a catalog offers.
pub fn codex_catalog_models(body: &Json) -> (r: Vec<RemoteModelOption>)
    ensures
        model_views(r@) == catalog_models(body.view()),
{
    let mut out: Vec<RemoteModelOption> = Vec::new();
    proof {
        assert(model_views(out@) =~= seq![]);
    }
    let items = match body.items_at("models") {
        Some(items) => items,
        None => {
            return out;
        },
    };
    let ghost views = array_view(items@);
    let mut entries: Vec<Entry> = Vec::new();
    proof {
        assert(entry_views(entries@) =~= ranked(entries_of(views.take(0))));
    }
    for i in 0..items.len()
        invariant
            views == array_view(items@),
            entry_views(entries@) == ranked(entries_of(views.take(i as int))),
    {
        proof {
            assert(views.take(i + 1).drop_last() == views.take(i as int));
        }
        match read_entry(&items[i]) {
            Some(entry) => {
                let ghost read = entries_of(views.take(i as int));
                proof {
                    assert(read.push(entry@).drop_last() =~= read);
                }
                place(&mut entries, entry);
            },
            None => {},
        }
    }
    proof {
        assert(views.take(items@.len() as int) == views);
    }
    let ghost all = entry_views(entries@);
    proof {
        assert(model_views(out@) =~= options_of(all.take(0)));
    }
    for i in 0..entries.len()
        invariant
            all == entry_views(entries@),
            model_views(out@) == options_of(all.take(i as int)),
    {
        proof {
            assert(all.take(i + 1).drop_last() == all.take(i as int));
            assert(all.take(i + 1).last() == entries@[i as int]@);
        }
        let entry = &entries[i];
        if position_of(&out, entry.slug.as_str()).is_none() {
            let ghost before = model_views(out@);
            let option = codex_model_option(
                entry.slug.as_str(),
                copy_texts(&entry.efforts),
                (entry.wire.0.clone(), entry.wire.1.clone()),
            );
            let ghost added = option@;
            out.push(option);
            proof {
                assert(model_views(out@) =~= before.push(added));
            }
        }
    }
    proof {
        assert(all.take(entries@.len() as int) == all);
    }
    out
}

/// A copy of texts.
pub fn copy_texts(texts: &Vec<String>) -> (r: Vec<String>)
    ensures
        r.deep_view() == texts.deep_view(),
{
    let mut out: Vec<String> = Vec::new();
    for i in 0..texts.len()
        invariant
            out@.len() == i,
            forall|j: int| 0 <= j < i ==> #[trigger] out@[j]@ == texts@[j]@,
    {
        out.push(texts[i].clone());
    }
    proof {
        assert(out.deep_view() =~= texts.deep_view());
    }
    out
}

// ---------------------------------------------------------------------------
// Models recorded on this machine
// ---------------------------------------------------------------------------

/// The text that `toml` reads at a top-level key of a document, or nothing where the document
/// is no TOML or holds no text there.
pub uninterp spec fn toml_text(source: Seq<char>, key: Seq<char>) -> Option<Seq<char>>;

/// `toml::from_str` into a `toml::Value`, then its `get` and `as_str`: the result is named
/// `toml_text`.
#[verifier::external_body]
fn read_toml(source: &str, key: &str) -> (r: Option<String>)
    ensures
        r.deep_view() == toml_text(source@, key@),
{
    let document: toml::Value = toml::from_str(source).ok()?;
    document.get(key)?.as_str().map(str::to_owned)
}

/// The model that a configuration text names, where it is not blank.
pub open spec fn default_model(named: Option<Seq<char>>) -> Option<Seq<char>> {
    match named {
        Some(model) => if text::trimmed(model).len() == 0 {
            None
        } else {
            Some(text::trimmed(model))
        },
        None => None,
    }
}

/// The model to prefer, out of the name that a configuration holds.
pub fn chosen_model(named: Option<&str>) -> (r: Option<String>)
    ensures
        r.deep_view() == default_model(match named {
            Some(model) => Some(model@),
            None => None,
        }),
{
    match named {
        Some(model) => {
            let model = text::trim(model);
            if model.is_empty() {
                None
            } else {
                Some(model.to_owned())
            }
        },
        None => None,
    }
}

/// The default model that the text of a Codex `config.toml` names.
pub fn read_codex_default_model(config: &str) -> (r: Option<String>)
    ensures
        r.deep_view() == default_model(toml_text(config@, "model"@)),
{
    match read_toml(config, "model") {
        Some(model) => chosen_model(Some(model.as_str())),
        None => None,
    }
}

/// The models that the text of a Codex `models_cache.json` records; none where it is no JSON.
pub fn read_codex_cache_models(cache: &str) -> (r: Vec<RemoteModelOption>)
    ensures
        model_views(r@) == (match json_parse(cache@) {
            Some(body) => catalog_models(body),
            None => seq![],
        }),
{
    match Json::parse(cache) {
        Some(body) => codex_catalog_models(&body),
        None => {
            let none: Vec<RemoteModelOption> = Vec::new();
            proof {
                assert(model_views(none@) =~= seq![]);
            }
            none
        },
    }
}

/// `models` with the model `slug` first: moved there from its first place, or added.
pub open spec fn preferred(models: Seq<ModelView>, slug: Option<Seq<char>>) -> Seq<ModelView> {
    match slug {
        Some(slug) => if names_model(models, slug) {
            let at = first_named(models, slug) as int;
            seq![models[at]] + models.remove(at)
        } else {
            seq![model_option(slug, seq![], (None, None))] + models
        },
        None => models,
    }
}

/// The place of the first option that is the model `slug`.
pub open spec fn first_named(models: Seq<ModelView>, slug: Seq<char>) -> nat
    decreases models.len(),
{
    if models.len() == 0 || models[0].model == slug {
        0
    } else {
        1 + first_named(models.drop_first(), slug)
    }
}

proof fn lemma_first_named(models: Seq<ModelView>, slug: Seq<char>, at: int)
    requires
        0 <= at < models.len(),
        models[at].model == slug,
        forall|j: int| 0 <= j < at ==> (#[trigger] models[j]).model != slug,
    ensures
        first_named(models, slug) == at,
    decreases models.len(),
{
    if at > 0 {
        let rest = models.drop_first();
        assert forall|j: int| 0 <= j < at - 1 implies (#[trigger] rest[j]).model != slug by {
            assert(rest[j] == models[j + 1]);
        }
        assert(models[0].model != slug);
        lemma_first_named(rest, slug, at - 1);
    }
}

/// Puts the model `slug` first.
pub fn prefer_model(models: &mut Vec<RemoteModelOption>, slug: Option<&str>)
    ensures
        model_views(final(models)@) == preferred(
            model_views(old(models)@),
            match slug {
                Some(slug) => Some(slug@),
                None => None,
            },
        ),
{
    let slug = match slug {
        Some(slug) => slug,
        None => {
            return;
        },
    };
    let ghost before = model_views(models@);
    match position_of(models, slug) {
        Some(at) => {
            proof {
                assert(before[at as int].model == slug@);
                assert forall|j: int| 0 <= j < at implies (#[trigger] before[j]).model != slug@ by {
                    assert(before[j] == models@[j]@);
                }
                lemma_first_named(before, slug@, at as int);
            }
            let ghost all = models@;
            let first = models.remove(at);
            let ghost moved = first@;
            models.insert(0, first);
            proof {
                assert(model_views(models@) =~= seq![before[at as int]] + before.remove(at as int));
            }
        },
        None => {
            let efforts: Vec<String> = Vec::new();
            proof {
                assert(efforts.deep_view() =~= seq![]);
            }
            let first = codex_model_option(slug, efforts, (None, None));
            let ghost added = first@;
            models.insert(0, first);
            proof {
                assert(model_views(models@) =~= seq![added] + before);
            }
        },
    }
}

/// The models recorded on this machine, out of the texts of a model cache and a configuration.
pub open spec fn local_models(cache: Option<Seq<char>>, config: Option<Seq<char>>) -> Seq<ModelView> {
    preferred(
        match cache {
            Some(cache) => match json_parse(cache) {
                Some(body) => catalog_models(body),
                None => seq![],
            },
            None => seq![],
        },
        match config {
            Some(config) => default_model(toml_text(config, "model"@)),
            None => None,
        },
    )
}

/// The models already recorded by the Codex CLI on this machine, out of the texts of its model
/// cache and its configuration where they can be read. Used only when the live account catalog
/// cannot be fetched; no name is invented.
pub fn local_codex_models(cache: Option<&str>, config: Option<&str>) -> (r: Vec<RemoteModelOption>)
    ensures
        model_views(r@) == local_models(str_view(cache), str_view(config)),
{
    let mut models = match cache {
        Some(cache) => read_codex_cache_models(cache),
        None => {
            let none: Vec<RemoteModelOption> = Vec::new();
            proof {
                assert(model_views(none@) =~= seq![]);
            }
            none
        },
    };
    let chosen = match config {
        Some(config) => read_codex_default_model(config),
        None => None,
    };
    match chosen {
        Some(slug) => prefer_model(&mut models, Some(slug.as_str())),
        None => {},
    }
    models
}

// ---------------------------------------------------------------------------
// Laws
// ---------------------------------------------------------------------------

/// Whether no entry is listed before one that stands ahead of it.
pub open spec fn in_listing_order(entries: Seq<EntryView>) -> bool {
    forall|i: int, j: int|
        0 <= i < j < entries.len() ==> !listed_before(#[trigger] entries[j], #[trigger] entries[i])
}

proof fn lemma_listed_asymmetric(a: EntryView, b: EntryView)
    ensures
        !(listed_before(a, b) && listed_before(b, a)),
{
    text::lemma_precedes_asymmetric(a.slug, b.slug);
}

proof fn lemma_listed_between(a: EntryView, b: EntryView, c: EntryView)
    requires
        listed_before(a, c),
    ensures
        listed_before(a, b) || listed_before(b, c),
{
    if a.priority == b.priority && b.priority == c.priority {
        text::lemma_precedes_between(a.slug, b.slug, c.slug);
    }
}

/// Where an entry is placed.
proof fn lemma_place_of(entries: Seq<EntryView>, entry: EntryView) -> (at: int)
    ensures
        0 <= at <= entries.len(),
        placed(entries, entry) == entries.insert(at, entry),
        forall|i: int| at <= i < entries.len() ==> listed_before(entry, #[trigger] entries[i]),
        at == 0 || !listed_before(entry, entries[at - 1]),
    decreases entries.len(),
{
    if entries.len() == 0 || !listed_before(entry, entries.last()) {
        assert(entries.insert(entries.len() as int, entry) =~= entries.push(entry));
        entries.len() as int
    } else {
        let shorter = entries.drop_last();
        let at = lemma_place_of(shorter, entry);
        assert forall|i: int| at <= i < entries.len() implies listed_before(
            entry,
            #[trigger] entries[i],
        ) by {
            if i < shorter.len() {
                assert(shorter[i] == entries[i]);
            }
        }
        lemma_placed(entries, entry, at);
        at
    }
}

proof fn lemma_placed_in_order(entries: Seq<EntryView>, entry: EntryView)
    requires
        in_listing_order(entries),
    ensures
        in_listing_order(placed(entries, entry)),
{
    let at = lemma_place_of(entries, entry);
    let all = placed(entries, entry);
    assert forall|i: int, j: int| 0 <= i < j < all.len() implies !listed_before(
        #[trigger] all[j],
        #[trigger] all[i],
    ) by {
        if j == at {
            assert(all[i] == entries[i]);
            if listed_before(entry, entries[i]) {
                lemma_listed_between(entry, entries[at - 1], entries[i]);
                assert(i < at - 1);
                assert(!listed_before(entries[at - 1], entries[i]));
            }
        } else if i == at {
            assert(all[j] == entries[j - 1]);
            assert(listed_before(entry, entries[j - 1]));
            lemma_listed_asymmetric(entry, entries[j - 1]);
        } else {
            let k = if i < at {
                i
            } else {
                i - 1
            };
            let l = if j < at {
                j
            } else {
                j - 1
            };
            assert(all[i] == entries[k] && all[j] == entries[l]);
        }
    }
}

/// The listing is ordered by priority, then by name.
pub proof fn law_listing_is_ordered(entries: Seq<EntryView>)
    ensures
        in_listing_order(ranked(entries)),
    decreases entries.len(),
{
    if entries.len() > 0 {
        law_listing_is_ordered(entries.drop_last());
        lemma_placed_in_order(ranked(entries.drop_last()), entries.last());
    }
}

proof fn lemma_placed_multiset(entries: Seq<EntryView>, entry: EntryView)
    ensures
        placed(entries, entry).to_multiset() == entries.to_multiset().insert(entry),
    decreases entries.len(),
{
    broadcast use vstd::seq_lib::group_to_multiset_ensures;

    if entries.len() > 0 && listed_before(entry, entries.last()) {
        lemma_placed_multiset(entries.drop_last(), entry);
        assert(entries =~= entries.drop_last().push(entries.last()));
        assert(placed(entries, entry).to_multiset() =~= entries.to_multiset().insert(entry));
    }
}

/// The listing holds the entries of the catalog, each as often as the catalog does.
pub proof fn law_listing_is_complete(entries: Seq<EntryView>)
    ensures
        ranked(entries).to_multiset() == entries.to_multiset(),
    decreases entries.len(),
{
    broadcast use vstd::seq_lib::group_to_multiset_ensures;

    if entries.len() > 0 {
        law_listing_is_complete(entries.drop_last());
        lemma_placed_multiset(ranked(entries.drop_last()), entries.last());
        assert(entries =~= entries.drop_last().push(entries.last()));
    } else {
        assert(ranked(entries) =~= entries);
    }
}

/// The entries of one priority and name.
pub open spec fn alike(entries: Seq<EntryView>, priority: i64, slug: Seq<char>) -> Seq<EntryView>
    decreases entries.len(),
{
    if entries.len() == 0 {
        seq![]
    } else if entries.last().priority == priority && entries.last().slug == slug {
        alike(entries.drop_last(), priority, slug).push(entries.last())
    } else {
        alike(entries.drop_last(), priority, slug)
    }
}

proof fn lemma_placed_alike(entries: Seq<EntryView>, entry: EntryView, priority: i64, slug: Seq<char>)
    ensures
        alike(placed(entries, entry), priority, slug) == alike(entries.push(entry), priority, slug),
    decreases entries.len(),
{
    reveal_with_fuel(alike, 3);
    assert(entries.push(entry).drop_last() =~= entries);
    if entries.len() > 0 && listed_before(entry, entries.last()) {
        let shorter = entries.drop_last();
        lemma_placed_alike(shorter, entry, priority, slug);
        assert(placed(shorter, entry).push(entries.last()).drop_last() =~= placed(shorter, entry));
        assert(shorter.push(entry).drop_last() =~= shorter);
        text::lemma_precedes_asymmetric(entry.slug, entries.last().slug);
    }
}

/// Entries of the same priority and name keep the order in which the catalog has them.
pub proof fn law_ties_keep_their_order(entries: Seq<EntryView>, priority: i64, slug: Seq<char>)
    ensures
        alike(ranked(entries), priority, slug) == alike(entries, priority, slug),
    decreases entries.len(),
{
    if entries.len() > 0 {
        let before = entries.drop_last();
        law_ties_keep_their_order(before, priority, slug);
        lemma_placed_alike(ranked(before), entries.last(), priority, slug);
        assert(ranked(before).push(entries.last()).drop_last() =~= ranked(before));
    }
}

/// Every entry of the catalog is offered under its name, and nothing else is.
pub proof fn law_every_entry_is_offered(entries: Seq<EntryView>, slug: Seq<char>)
    ensures
        names_model(options_of(entries), slug) <==> exists|i: int|
            0 <= i < entries.len() && (#[trigger] entries[i]).slug == slug,
    decreases entries.len(),
{
    if entries.len() > 0 {
        let before = entries.drop_last();
        let options = options_of(before);
        let entry = entries.last();
        law_every_entry_is_offered(before, slug);
        let all = options_of(entries);
        if names_model(all, slug) {
            let i = choose|i: int| 0 <= i < all.len() && (#[trigger] all[i]).model == slug;
            if i < options.len() {
                assert(options[i] == all[i]);
                assert(names_model(options, slug));
                let k = choose|k: int| 0 <= k < before.len() && (#[trigger] before[k]).slug == slug;
                assert(entries[k].slug == slug);
            } else {
                assert(entries[entries.len() - 1].slug == slug);
            }
        }
        if exists|i: int| 0 <= i < entries.len() && (#[trigger] entries[i]).slug == slug {
            let k = choose|k: int| 0 <= k < entries.len() && (#[trigger] entries[k]).slug == slug;
            if k < before.len() {
                assert(before[k].slug == slug);
                let i = choose|i: int| 0 <= i < options.len() && (#[trigger] options[i]).model == slug;
                assert(all[i].model == slug);
            } else if names_model(options, slug) {
                let i = choose|i: int| 0 <= i < options.len() && (#[trigger] options[i]).model == slug;
                assert(all[i].model == slug);
            } else {
                assert(all[options.len() as int].model == slug);
            }
        }
    }
}

/// No two models of a catalog have the same name.
pub proof fn law_models_are_offered_once(entries: Seq<EntryView>)
    ensures
        forall|i: int, j: int|
            0 <= i < j < options_of(entries).len() ==> (#[trigger] options_of(entries)[i]).model != (
            #[trigger] options_of(entries)[j]).model,
    decreases entries.len(),
{
    if entries.len() > 0 {
        law_models_are_offered_once(entries.drop_last());
    }
}

/// Of the entries of one name, the first listed one is offered.
pub proof fn law_first_listed_counts(entries: Seq<EntryView>, k: int)
    requires
        0 <= k < entries.len(),
        forall|i: int| 0 <= i < k ==> (#[trigger] entries[i]).slug != entries[k].slug,
    ensures
        options_of(entries).contains(
            model_option(entries[k].slug, entries[k].efforts, entries[k].wire),
        ),
    decreases entries.len(),
{
    let before = entries.drop_last();
    let options = options_of(before);
    let wanted = model_option(entries[k].slug, entries[k].efforts, entries[k].wire);
    if k < before.len() {
        assert(before[k] == entries[k]);
        assert forall|i: int| 0 <= i < k implies (#[trigger] before[i]).slug != before[k].slug by {
            assert(before[i] == entries[i]);
        }
        law_first_listed_counts(before, k);
        let i = choose|i: int| 0 <= i < options.len() && options[i] == wanted;
        assert(options_of(entries)[i] == wanted);
    } else {
        law_every_entry_is_offered(before, entries[k].slug);
        assert forall|i: int| 0 <= i < before.len() implies (#[trigger] before[i]).slug
            != entries[k].slug by {
            assert(before[i] == entries[i]);
        }
        assert(options_of(entries)[options.len() as int] == wanted);
    }
}

/// Only efforts that the shared control can send are advertised, each once.
pub proof fn law_efforts_are_shared(levels: Seq<JsonView>)
    ensures
        forall|i: int|
            0 <= i < level_efforts(levels).len() ==> is_shared_effort(
                #[trigger] level_efforts(levels)[i],
            ),
        level_efforts(levels).no_duplicates(),
    decreases levels.len(),
{
    if levels.len() > 0 {
        law_efforts_are_shared(levels.drop_last());
    }
}

/// Every model of a catalog is a Codex model whose reasoning settings go together: it has a
/// control, a summary or a context only where an effort can be chosen.
pub proof fn law_reasoning_needs_an_effort(entries: Seq<EntryView>, i: int)
    requires
        0 <= i < options_of(entries).len(),
    ensures
        ({
            let option = options_of(entries)[i];
            &&& option.base == CODEX_BASE@
            &&& option.request_style == ApiStyle::Responses
            &&& option.thinking_supported == (option.thinking_efforts.len() > 0)
            &&& option.thinking_control is Some == option.thinking_supported
            &&& option.reasoning_summary is Some ==> option.thinking_supported
            &&& option.reasoning_context is Some ==> option.thinking_supported
            &&& !option.thinking_can_disable
        }),
    decreases entries.len(),
{
    if entries.len() > 0 && i < options_of(entries.drop_last()).len() {
        law_reasoning_needs_an_effort(entries.drop_last(), i);
    }
}

/// Whether a catalog item offers the model `slug`.
pub open spec fn offers(item: JsonView, slug: Seq<char>) -> bool {
    entry_of(item) is Some && (entry_of(item)->0).slug == slug
}

proof fn lemma_entries(items: Seq<JsonView>, slug: Seq<char>)
    ensures
        (exists|i: int| 0 <= i < entries_of(items).len() && (#[trigger] entries_of(items)[i]).slug == slug)
            <==> exists|i: int| 0 <= i < items.len() && offers(#[trigger] items[i], slug),
    decreases items.len(),
{
    if items.len() > 0 {
        let fewer = items.drop_last();
        let before = entries_of(fewer);
        let all = entries_of(items);
        lemma_entries(fewer, slug);
        if exists|i: int| 0 <= i < all.len() && (#[trigger] all[i]).slug == slug {
            let i = choose|i: int| 0 <= i < all.len() && (#[trigger] all[i]).slug == slug;
            if i < before.len() {
                assert(before[i].slug == slug);
                let k = choose|k: int| 0 <= k < fewer.len() && offers(#[trigger] fewer[k], slug);
                assert(offers(items[k], slug));
            } else {
                assert(offers(items[items.len() - 1], slug));
            }
        }
        if exists|i: int| 0 <= i < items.len() && offers(#[trigger] items[i], slug) {
            let k = choose|k: int| 0 <= k < items.len() && offers(#[trigger] items[k], slug);
            if k < fewer.len() {
                assert(offers(fewer[k], slug));
                let i = choose|i: int| 0 <= i < before.len() && (#[trigger] before[i]).slug == slug;
                assert(all[i].slug == slug);
            } else {
                assert(all[before.len() as int].slug == slug);
            }
        }
    }
}

/// A catalog offers the models that its items name, without the hidden ones, and no others.
pub proof fn law_catalog_offers_its_items(body: JsonView, items: Seq<JsonView>, slug: Seq<char>)
    requires
        as_items(member(body, "models"@)) == Some(items),
    ensures
        names_model(catalog_models(body), slug) <==> exists|i: int|
            0 <= i < items.len() && offers(#[trigger] items[i], slug),
{
    broadcast use vstd::seq_lib::group_to_multiset_ensures;

    let entries = entries_of(items);
    let listing = ranked(entries);
    lemma_entries(items, slug);
    law_listing_is_complete(entries);
    law_every_entry_is_offered(listing, slug);
    if exists|i: int| 0 <= i < listing.len() && (#[trigger] listing[i]).slug == slug {
        let i = choose|i: int| 0 <= i < listing.len() && (#[trigger] listing[i]).slug == slug;
        assert(listing.contains(listing[i]));
        assert(entries.to_multiset().count(listing[i]) > 0);
        assert(entries.contains(listing[i]));
        let k = choose|k: int| 0 <= k < entries.len() && entries[k] == listing[i];
        assert(entries[k].slug == slug);
    }
    if exists|i: int| 0 <= i < entries.len() && (#[trigger] entries[i]).slug == slug {
        let i = choose|i: int| 0 <= i < entries.len() && (#[trigger] entries[i]).slug == slug;
        assert(entries.contains(entries[i]));
        assert(listing.to_multiset().count(entries[i]) > 0);
        assert(listing.contains(entries[i]));
        let k = choose|k: int| 0 <= k < listing.len() && listing[k] == entries[i];
        assert(listing[k].slug == slug);
    }
}

/// The first model of a name is one of the models, and has that name.
pub proof fn lemma_first_named_within(models: Seq<ModelView>, slug: Seq<char>)
    requires
        names_model(models, slug),
    ensures
        first_named(models, slug) < models.len(),
        models[first_named(models, slug) as int].model == slug,
    decreases models.len(),
{
    let i = choose|i: int| 0 <= i < models.len() && (#[trigger] models[i]).model == slug;
    if models[0].model != slug {
        assert(models.drop_first()[i - 1].model == slug);
        lemma_first_named_within(models.drop_first(), slug);
    }
}

/// Preferring a model puts it first, loses none and invents none: what is offered was recorded,
/// or is the preferred model itself.
pub proof fn law_no_model_is_invented(models: Seq<ModelView>, slug: Seq<char>, name: Seq<char>)
    ensures
        preferred(models, Some(slug)).len() > 0,
        preferred(models, Some(slug))[0].model == slug,
        names_model(preferred(models, Some(slug)), name) <==> names_model(models, name) || name == slug,
{
    let all = preferred(models, Some(slug));
    if names_model(models, slug) {
        lemma_first_named_within(models, slug);
        let at = first_named(models, slug) as int;
        if names_model(all, name) {
            let i = choose|i: int| 0 <= i < all.len() && (#[trigger] all[i]).model == name;
            if i > 0 {
                let k = if i - 1 < at {
                    i - 1
                } else {
                    i
                };
                assert(models[k] == all[i]);
            }
        }
        if names_model(models, name) {
            let k = choose|k: int| 0 <= k < models.len() && (#[trigger] models[k]).model == name;
            let i = if k == at {
                0
            } else if k < at {
                k + 1
            } else {
                k
            };
            assert(all[i] == models[k]);
        }
        assert(all[0].model == slug);
    } else {
        if names_model(all, name) {
            let i = choose|i: int| 0 <= i < all.len() && (#[trigger] all[i]).model == name;
            if i > 0 {
                assert(models[i - 1] == all[i]);
            }
        }
        if names_model(models, name) {
            let k = choose|k: int| 0 <= k < models.len() && (#[trigger] models[k]).model == name;
            assert(all[k + 1] == models[k]);
        }
        assert(all[0].model == slug);
    }
}

} // verus!
