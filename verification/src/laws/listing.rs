//! Laws of the model listing.

use vstd::prelude::*;
use crate::catalog::{alike, catalog_models, entries_of, entry_of, first_named, law_every_entry_is_offered, law_listing_is_complete, law_listing_is_ordered, law_models_are_offered_once, law_ties_keep_their_order, lemma_first_named_within, level_effort, level_efforts, listed_before, local_models, model_option, names_model, options_of, preferred, ranked, toml_text, EntryView};
use crate::json::{as_items, as_signed, json_parse, member, text_at, JsonView};
use crate::providers::{ApiStyle, ModelView};
use crate::text::{lemma_precedes_total, lowered, precedes, trimmed};

verus! {

// ---------------------------------------------------------------------------
// One item
// ---------------------------------------------------------------------------

/// Whether a catalog holds these items.
pub open spec fn has_items(body: JsonView, items: Seq<JsonView>) -> bool {
    member(body, "models"@) == Some(JsonView::Array(items))
}

/// The catalog with one item.
pub open spec fn catalog_with(item: JsonView) -> JsonView {
    JsonView::Object(map!["models"@ => JsonView::Array(seq![item])])
}

/// What an item is offered as when it stands alone: one option, or none.
pub open spec fn alone(item: JsonView) -> Seq<ModelView> {
    catalog_models(catalog_with(item))
}

proof fn lemma_one(body: JsonView, item: JsonView)
    requires
        has_items(body, seq![item]),
    ensures
        catalog_models(body) == (match entry_of(item) {
            Some(entry) => seq![model_option(entry.slug, entry.efforts, entry.wire)],
            None => seq![],
        }),
{
    assert(seq![item].drop_last() =~= Seq::<JsonView>::empty());
    assert(entries_of(Seq::<JsonView>::empty()) =~= Seq::<EntryView>::empty());
    match entry_of(item) {
        Some(entry) => {
            assert(entries_of(seq![item]) =~= seq![entry]);
            assert(seq![entry].drop_last() =~= Seq::<EntryView>::empty());
            assert(ranked(Seq::<EntryView>::empty()) =~= Seq::<EntryView>::empty());
            assert(ranked(seq![entry]) =~= seq![entry]);
            assert(options_of(Seq::<EntryView>::empty()) =~= Seq::<ModelView>::empty());
            assert(options_of(seq![entry]) =~= seq![
                model_option(entry.slug, entry.efforts, entry.wire),
            ]);
        },
        None => {
            assert(entries_of(seq![item]) =~= Seq::<EntryView>::empty());
            assert(ranked(Seq::<EntryView>::empty()) =~= Seq::<EntryView>::empty());
            assert(options_of(Seq::<EntryView>::empty()) =~= Seq::<ModelView>::empty());
        },
    }
}

proof fn lemma_alone(item: JsonView)
    ensures
        alone(item) == (match entry_of(item) {
            Some(entry) => seq![model_option(entry.slug, entry.efforts, entry.wire)],
            None => seq![],
        }),
{
    lemma_one(catalog_with(item), item);
}

/// A catalog without a list of models offers none.
pub proof fn law_no_list_no_models(body: JsonView)
    requires
        as_items(member(body, "models"@)) is None,
    ensures
        catalog_models(body).len() == 0,
{
}

/// An item is offered if it has a name that is not blank and is not marked as hidden. It is
/// offered under that name, trimmed, at the Codex address, ready, in the Responses form.
pub proof fn law_item_is_offered(body: JsonView, item: JsonView)
    requires
        has_items(body, seq![item]),
    ensures
        ({
            let models = catalog_models(body);
            let option = models[0];
            let slug = text_at(item, "slug"@);
            let marked = text_at(item, "visibility"@) matches Some(v) && (lowered(trimmed(v))
                == "hide"@ || lowered(trimmed(v)) == "hidden"@);
            if slug is Some && trimmed(slug->0).len() > 0 && !marked {
                &&& models.len() == 1
                &&& option.model == trimmed(slug->0)
                &&& option.label == trimmed(slug->0)
                &&& option.id == "remote|"@ + "https://chatgpt.com/backend-api/codex"@ + "|"@ + trimmed(
                    slug->0,
                )
                &&& option.base == "https://chatgpt.com/backend-api/codex"@
                &&& option.port == 443
                &&& option.ready
                &&& option.request_style == ApiStyle::Responses
                &&& option.connect_kind is None
                &&& option.context_length is None
                &&& !option.attachments_supported
                &&& !option.prompt_progress_supported
                &&& !option.thinking_can_disable
                &&& option.provider_id.len() == 0
                &&& option.provider_name.len() == 0
            } else {
                models.len() == 0
            }
        }),
{
    lemma_one(body, item);
}

/// A model whose effort can be chosen has the control for it; it takes a summary unless its item
/// says `false` to one, and all turns as context only if its item says `true` to Responses Lite:
/// an item that leaves a flag out, or holds something else there, takes the summary and no
/// context. A model without an effort to choose has none of these.
pub proof fn law_reasoning_settings_follow_the_flags(body: JsonView, item: JsonView)
    requires
        has_items(body, seq![item]),
        catalog_models(body).len() == 1,
    ensures
        ({
            let option = catalog_models(body)[0];
            let summary = member(item, "supports_reasoning_summary_parameter"@);
            let lite = member(item, "use_responses_lite"@);
            if option.thinking_efforts.len() > 0 {
                &&& option.thinking_supported
                &&& option.thinking_control == Some("reasoning"@)
                &&& summary == Some(JsonView::Bool(false)) ==> option.reasoning_summary is None
                &&& summary != Some(JsonView::Bool(false)) ==> option.reasoning_summary == Some(
                    "detailed"@,
                )
                &&& lite == Some(JsonView::Bool(true)) ==> option.reasoning_context == Some(
                    "all_turns"@,
                )
                &&& lite != Some(JsonView::Bool(true)) ==> option.reasoning_context is None
            } else {
                &&& !option.thinking_supported
                &&& option.thinking_control is None
                &&& option.reasoning_summary is None
                &&& option.reasoning_context is None
            }
        }),
{
    lemma_one(body, item);
}

/// Whether a reasoning level names an effort, in any case and with any white space around it.
pub open spec fn names_effort(level: JsonView, effort: Seq<char>) -> bool {
    text_at(level, "effort"@) matches Some(named) && lowered(trimmed(named)) == effort
}

/// Whether one of the first `l` reasoning levels names an effort.
pub open spec fn is_named_before(levels: Seq<JsonView>, l: int, effort: Seq<char>) -> bool {
    exists|k: int| 0 <= k < l && names_effort(#[trigger] levels[k], effort)
}

proof fn lemma_efforts(levels: Seq<JsonView>)
    ensures
        forall|effort: Seq<char>|
            #![trigger level_efforts(levels).contains(effort)]
            level_efforts(levels).contains(effort) <==> (effort == "low"@ || effort == "medium"@
                || effort == "high"@ || effort == "max"@) && exists|l: int|
                0 <= l < levels.len() && names_effort(#[trigger] levels[l], effort),
        forall|i: int, j: int|
            0 <= i < j < level_efforts(levels).len() ==> #[trigger] level_efforts(levels)[i]
                != #[trigger] level_efforts(levels)[j],
        forall|i: int, j: int, l: int|
            #![trigger level_efforts(levels)[i], level_efforts(levels)[j], levels[l]]
            0 <= i < j < level_efforts(levels).len() && 0 <= l < levels.len() && names_effort(
                levels[l],
                level_efforts(levels)[j],
            ) ==> is_named_before(levels, l, level_efforts(levels)[i]),
    decreases levels.len(),
{
    let all = level_efforts(levels);
    if levels.len() > 0 {
        let fewer = levels.drop_last();
        let before = level_efforts(fewer);
        let last = levels.last();
        lemma_efforts(fewer);
        assert forall|effort: Seq<char>|
            #![trigger all.contains(effort)]
            all.contains(effort) <==> (effort == "low"@ || effort == "medium"@ || effort == "high"@
                || effort == "max"@) && exists|l: int|
                0 <= l < levels.len() && names_effort(#[trigger] levels[l], effort) by {
            if all.contains(effort) {
                let i = choose|i: int| 0 <= i < all.len() && all[i] == effort;
                if i < before.len() {
                    assert(before[i] == effort);
                    assert(before.contains(effort));
                    let l = choose|l: int|
                        0 <= l < fewer.len() && names_effort(#[trigger] fewer[l], effort);
                    assert(names_effort(levels[l], effort));
                } else {
                    assert(names_effort(levels[levels.len() - 1], effort));
                }
            }
            if (effort == "low"@ || effort == "medium"@ || effort == "high"@ || effort == "max"@)
                && exists|l: int| 0 <= l < levels.len() && names_effort(#[trigger] levels[l], effort) {
                let l = choose|l: int|
                    0 <= l < levels.len() && names_effort(#[trigger] levels[l], effort);
                if l < fewer.len() {
                    assert(names_effort(fewer[l], effort));
                    assert(before.contains(effort));
                    let i = choose|i: int| 0 <= i < before.len() && before[i] == effort;
                    assert(all[i] == effort);
                } else {
                    assert(level_effort(last) == Some(effort));
                    if before.contains(effort) {
                        let i = choose|i: int| 0 <= i < before.len() && before[i] == effort;
                        assert(all[i] == effort);
                    } else {
                        assert(all[all.len() - 1] == effort);
                    }
                }
            }
        }
        assert forall|i: int, j: int| 0 <= i < j < all.len() implies #[trigger] all[i]
            != #[trigger] all[j] by {
            if j < before.len() {
                assert(before[i] != before[j]);
            } else {
                assert(before[i] == all[i]);
                assert(!before.contains(all[j]));
            }
        }
        assert forall|i: int, j: int, l: int|
            #![trigger all[i], all[j], levels[l]]
            0 <= i < j < all.len() && 0 <= l < levels.len() && names_effort(
                levels[l],
                all[j],
            ) implies is_named_before(levels, l, all[i]) by {
            assert(before[i] == all[i]);
            assert(before.contains(all[i]));
            if j < before.len() && l < fewer.len() {
                assert(before[j] == all[j]);
                assert(fewer[l] == levels[l]);
                assert(is_named_before(fewer, l, before[i]));
                let k = choose|k: int| 0 <= k < l && names_effort(#[trigger] fewer[k], before[i]);
                assert(names_effort(levels[k], all[i]));
            } else if l < fewer.len() {
                assert(fewer[l] == levels[l]);
                assert(names_effort(fewer[l], all[j]));
                assert(before.contains(all[j]));
            } else {
                let k = choose|k: int| 0 <= k < fewer.len() && names_effort(
                    #[trigger] fewer[k],
                    before[i],
                );
                assert(names_effort(levels[k], all[i]));
            }
        }
    }
}

/// The efforts that a model advertises are those of `low`, `medium`, `high` and `max` that one of
/// its reasoning levels names, each once, in the order in which the levels first name them.
pub proof fn law_efforts_follow_the_levels(body: JsonView, item: JsonView)
    requires
        has_items(body, seq![item]),
        catalog_models(body).len() == 1,
    ensures
        ({
            let efforts = catalog_models(body)[0].thinking_efforts;
            match as_items(member(item, "supported_reasoning_levels"@)) {
                Some(levels) => {
                    &&& forall|effort: Seq<char>|
                        #![trigger efforts.contains(effort)]
                        efforts.contains(effort) <==> (effort == "low"@ || effort == "medium"@
                            || effort == "high"@ || effort == "max"@) && exists|l: int|
                            0 <= l < levels.len() && names_effort(#[trigger] levels[l], effort)
                    &&& efforts.no_duplicates()
                    &&& forall|i: int, j: int, l: int|
                        #![trigger efforts[i], efforts[j], levels[l]]
                        0 <= i < j < efforts.len() && 0 <= l < levels.len() && names_effort(
                            levels[l],
                            efforts[j],
                        ) ==> is_named_before(levels, l, efforts[i])
                },
                None => efforts.len() == 0,
            }
        }),
{
    lemma_one(body, item);
    match as_items(member(item, "supported_reasoning_levels"@)) {
        Some(levels) => {
            lemma_efforts(levels);
        },
        None => {},
    }
}

// ---------------------------------------------------------------------------
// Many items
// ---------------------------------------------------------------------------

/// The priority by which an item is listed; one that gives none is listed late.
pub open spec fn rank_of(item: JsonView) -> i64 {
    match as_signed(member(item, "priority"@)) {
        Some(priority) => priority,
        None => 10000,
    }
}

/// Whether an option is that of item number `k`: what the item is offered as when it stands alone;
/// and of the items offered under that name, it is the one with the least priority, and the first
/// of those.
pub open spec fn stands_for(items: Seq<JsonView>, k: int, option: ModelView) -> bool {
    &&& 0 <= k < items.len()
    &&& alone(items[k]) == seq![option]
    &&& forall|m: int|
        0 <= m < items.len() && alone(#[trigger] items[m]).len() == 1 && alone(items[m])[0].model
            == option.model ==> rank_of(items[k]) < rank_of(items[m]) || (rank_of(items[k]) == rank_of(
            items[m],
        ) && k <= m)
}

/// Whether an option is that of one of the items.
pub open spec fn is_item_option(items: Seq<JsonView>, option: ModelView) -> bool {
    exists|k: int| stands_for(items, k, option)
}

/// The entry that an option comes from is the first of its name.
proof fn lemma_source(entries: Seq<EntryView>, j: int) -> (e: int)
    requires
        0 <= j < options_of(entries).len(),
    ensures
        0 <= e < entries.len(),
        options_of(entries)[j] == model_option(entries[e].slug, entries[e].efforts, entries[e].wire),
        forall|x: int| 0 <= x < e ==> (#[trigger] entries[x]).slug != entries[e].slug,
    decreases entries.len(),
{
    let before = entries.drop_last();
    if j < options_of(before).len() {
        let e = lemma_source(before, j);
        assert(before[e] == entries[e]);
        assert forall|x: int| 0 <= x < e implies (#[trigger] entries[x]).slug != entries[e].slug by {
            assert(before[x] == entries[x]);
        }
        e
    } else {
        let e = entries.len() - 1;
        law_every_entry_is_offered(before, entries[e].slug);
        assert forall|x: int| 0 <= x < e implies (#[trigger] entries[x]).slug != entries[e].slug by {
            assert(before[x] == entries[x]);
        }
        e
    }
}

/// Options stand in the order of the entries that they come from.
proof fn lemma_source_order(entries: Seq<EntryView>, i: int, j: int, a: int, b: int)
    requires
        0 <= i < j < options_of(entries).len(),
        0 <= a < entries.len(),
        0 <= b < entries.len(),
        options_of(entries)[i].model == entries[a].slug,
        options_of(entries)[j].model == entries[b].slug,
        forall|x: int| 0 <= x < a ==> (#[trigger] entries[x]).slug != entries[a].slug,
        forall|x: int| 0 <= x < b ==> (#[trigger] entries[x]).slug != entries[b].slug,
    ensures
        a < b,
    decreases entries.len(),
{
    let before = entries.drop_last();
    let options = options_of(before);
    law_models_are_offered_once(entries);
    assert(options_of(entries)[i].model != options_of(entries)[j].model);
    law_every_entry_is_offered(before, entries[a].slug);
    assert(options[i].model == entries[a].slug);
    let x = choose|x: int| 0 <= x < before.len() && (#[trigger] before[x]).slug == entries[a].slug;
    assert(entries[x].slug == entries[a].slug);
    assert(a < before.len());
    if b < before.len() {
        assert(before[a] == entries[a] && before[b] == entries[b]);
        assert forall|x: int| 0 <= x < a implies (#[trigger] before[x]).slug != before[a].slug by {
            assert(before[x] == entries[x]);
        }
        assert forall|x: int| 0 <= x < b implies (#[trigger] before[x]).slug != before[b].slug by {
            assert(before[x] == entries[x]);
        }
        law_every_entry_is_offered(before, entries[b].slug);
        if j >= options.len() {
            assert(before[b].slug == entries.last().slug);
        }
        lemma_source_order(before, i, j, a, b);
    }
}

proof fn lemma_alike_first(entries: Seq<EntryView>, e: int)
    requires
        0 <= e < entries.len(),
        forall|x: int|
            0 <= x < e ==> (#[trigger] entries[x]).slug != entries[e].slug || entries[x].priority
                != entries[e].priority,
    ensures
        alike(entries, entries[e].priority, entries[e].slug).len() > 0,
        alike(entries, entries[e].priority, entries[e].slug)[0] == entries[e],
    decreases entries.len(),
{
    let before = entries.drop_last();
    let p = entries[e].priority;
    let s = entries[e].slug;
    if e < before.len() {
        assert(before[e] == entries[e]);
        assert forall|x: int| 0 <= x < e implies (#[trigger] before[x]).slug != before[e].slug
            || before[x].priority != before[e].priority by {
            assert(before[x] == entries[x]);
        }
        lemma_alike_first(before, e);
        assert(alike(entries, p, s)[0] == alike(before, p, s)[0]);
    } else {
        lemma_alike_none(before, p, s);
    }
}

proof fn lemma_alike_none(entries: Seq<EntryView>, p: i64, s: Seq<char>)
    requires
        forall|x: int|
            0 <= x < entries.len() ==> (#[trigger] entries[x]).slug != s || entries[x].priority != p,
    ensures
        alike(entries, p, s).len() == 0,
    decreases entries.len(),
{
    if entries.len() > 0 {
        let before = entries.drop_last();
        assert forall|x: int| 0 <= x < before.len() implies (#[trigger] before[x]).slug != s
            || before[x].priority != p by {
            assert(before[x] == entries[x]);
        }
        assert(entries[entries.len() - 1] == entries.last());
        lemma_alike_none(before, p, s);
    }
}

/// The first item with an entry of a priority and name.
proof fn lemma_first_item(items: Seq<JsonView>, p: i64, s: Seq<char>) -> (k: int)
    requires
        alike(entries_of(items), p, s).len() > 0,
    ensures
        0 <= k < items.len(),
        entry_of(items[k]) == Some(alike(entries_of(items), p, s)[0]),
        alike(entries_of(items), p, s)[0].priority == p,
        alike(entries_of(items), p, s)[0].slug == s,
        forall|m: int|
            0 <= m < k ==> !(entry_of(#[trigger] items[m]) is Some && (entry_of(items[m])->0).priority
                == p && (entry_of(items[m])->0).slug == s),
    decreases items.len(),
{
    let fewer = items.drop_last();
    let before = entries_of(fewer);
    let all = entries_of(items);
    if entry_of(items.last()) is Some {
        assert(all.drop_last() =~= before);
    }
    if alike(before, p, s).len() > 0 {
        let k = lemma_first_item(fewer, p, s);
        assert(fewer[k] == items[k]);
        assert(alike(all, p, s)[0] == alike(before, p, s)[0]);
        assert forall|m: int| 0 <= m < k implies !(entry_of(#[trigger] items[m]) is Some && (entry_of(
            items[m],
        )->0).priority == p && (entry_of(items[m])->0).slug == s) by {
            assert(fewer[m] == items[m]);
        }
        k
    } else {
        let k = items.len() - 1;
        assert forall|m: int| 0 <= m < k implies !(entry_of(#[trigger] items[m]) is Some && (entry_of(
            items[m],
        )->0).priority == p && (entry_of(items[m])->0).slug == s) by {
            assert(fewer[m] == items[m]);
            if entry_of(items[m]) is Some && (entry_of(items[m])->0).priority == p && (entry_of(
                items[m],
            )->0).slug == s {
                lemma_entry_of_item(fewer, m);
                let x = choose|x: int| 0 <= x < before.len() && before[x] == entry_of(fewer[m])->0;
                lemma_alike_some(before, x);
            }
        }
        k
    }
}

proof fn lemma_alike_some(entries: Seq<EntryView>, x: int)
    requires
        0 <= x < entries.len(),
    ensures
        alike(entries, entries[x].priority, entries[x].slug).len() > 0,
    decreases entries.len(),
{
    if x < entries.len() - 1 {
        assert(entries.drop_last()[x] == entries[x]);
        lemma_alike_some(entries.drop_last(), x);
    }
}

proof fn lemma_entry_of_item(items: Seq<JsonView>, m: int)
    requires
        0 <= m < items.len(),
        entry_of(items[m]) is Some,
    ensures
        entries_of(items).contains(entry_of(items[m])->0),
    decreases items.len(),
{
    let fewer = items.drop_last();
    let all = entries_of(items);
    if m < fewer.len() {
        assert(fewer[m] == items[m]);
        lemma_entry_of_item(fewer, m);
        let x = choose|x: int|
            0 <= x < entries_of(fewer).len() && entries_of(fewer)[x] == entry_of(items[m])->0;
        assert(all[x] == entry_of(items[m])->0);
    } else {
        assert(all[all.len() - 1] == entry_of(items[m])->0);
    }
}

proof fn lemma_stands_for(items: Seq<JsonView>, j: int) -> (r: (int, int))
    requires
        0 <= j < options_of(ranked(entries_of(items))).len(),
    ensures
        stands_for(items, r.0, options_of(ranked(entries_of(items)))[j]),
        0 <= r.1 < ranked(entries_of(items)).len(),
        rank_of(items[r.0]) == ranked(entries_of(items))[r.1].priority,
        options_of(ranked(entries_of(items)))[j].model == ranked(entries_of(items))[r.1].slug,
        forall|x: int|
            0 <= x < r.1 ==> (#[trigger] ranked(entries_of(items))[x]).slug != ranked(
                entries_of(items),
            )[r.1].slug,
{
    broadcast use vstd::seq_lib::group_to_multiset_ensures;

    let entries = entries_of(items);
    let listing = ranked(entries);
    let option = options_of(listing)[j];
    let e = lemma_source(listing, j);
    let p = listing[e].priority;
    let s = listing[e].slug;
    lemma_alike_first(listing, e);
    law_ties_keep_their_order(entries, p, s);
    let k = lemma_first_item(items, p, s);
    assert(entry_of(items[k]) == Some(listing[e]));
    lemma_alone(items[k]);
    law_listing_is_ordered(entries);
    law_listing_is_complete(entries);
    assert forall|m: int|
        0 <= m < items.len() && alone(#[trigger] items[m]).len() == 1 && alone(items[m])[0].model
            == option.model implies rank_of(items[k]) < rank_of(items[m]) || (rank_of(items[k])
        == rank_of(items[m]) && k <= m) by {
        lemma_alone(items[m]);
        let entry = entry_of(items[m])->0;
        assert(entry.slug == s);
        assert(rank_of(items[m]) == entry.priority);
        lemma_entry_of_item(items, m);
        assert(entries.to_multiset().count(entry) > 0);
        assert(listing.contains(entry));
        let x = choose|x: int| 0 <= x < listing.len() && listing[x] == entry;
        assert(x >= e);
        if x > e {
            assert(!listed_before(listing[x], listing[e]));
        }
        assert(p <= entry.priority);
    }
    (k, e)
}

/// Every option of a catalog is that of one of its items: of several items under one name, the
/// one with the least priority, or the first of those. No name is offered twice, and every item
/// that is offered alone is offered under its name among others.
pub proof fn law_options_are_their_items(body: JsonView, items: Seq<JsonView>)
    requires
        has_items(body, items),
    ensures
        forall|j: int|
            0 <= j < catalog_models(body).len() ==> is_item_option(
                items,
                #[trigger] catalog_models(body)[j],
            ),
        forall|i: int, j: int|
            0 <= i < j < catalog_models(body).len() ==> (#[trigger] catalog_models(body)[i]).model != (
            #[trigger] catalog_models(body)[j]).model,
        forall|m: int|
            0 <= m < items.len() && alone(#[trigger] items[m]).len() == 1 ==> exists|j: int|
                0 <= j < catalog_models(body).len() && (#[trigger] catalog_models(body)[j]).model
                    == alone(items[m])[0].model,
{
    broadcast use vstd::seq_lib::group_to_multiset_ensures;

    let entries = entries_of(items);
    let listing = ranked(entries);
    let models = catalog_models(body);
    assert forall|j: int| 0 <= j < models.len() implies is_item_option(
        items,
        #[trigger] models[j],
    ) by {
        let r = lemma_stands_for(items, j);
        assert(stands_for(items, r.0, models[j]));
    }
    law_models_are_offered_once(listing);
    law_listing_is_complete(entries);
    assert forall|m: int| 0 <= m < items.len() && alone(#[trigger] items[m]).len() == 1 implies exists|
        j: int,
    |
        0 <= j < models.len() && (#[trigger] models[j]).model == alone(items[m])[0].model by {
        lemma_alone(items[m]);
        let entry = entry_of(items[m])->0;
        lemma_entry_of_item(items, m);
        assert(entries.to_multiset().count(entry) > 0);
        assert(listing.contains(entry));
        let x = choose|x: int| 0 <= x < listing.len() && listing[x] == entry;
        assert(listing[x].slug == entry.slug);
        law_every_entry_is_offered(listing, entry.slug);
        assert(names_model(models, entry.slug));
    }
}

/// Options stand in the order of the priorities of their items, those of one priority in the
/// order of their names.
pub proof fn law_options_are_in_order(
    body: JsonView,
    items: Seq<JsonView>,
    i: int,
    j: int,
    k: int,
    l: int,
)
    requires
        has_items(body, items),
        0 <= i < j < catalog_models(body).len(),
        stands_for(items, k, catalog_models(body)[i]),
        stands_for(items, l, catalog_models(body)[j]),
    ensures
        rank_of(items[k]) < rank_of(items[l]) || (rank_of(items[k]) == rank_of(items[l]) && precedes(
            catalog_models(body)[i].model,
            catalog_models(body)[j].model,
        )),
{
    let entries = entries_of(items);
    let listing = ranked(entries);
    let models = catalog_models(body);
    let a = lemma_stands_for(items, i);
    let b = lemma_stands_for(items, j);
    assert(alone(items[a.0])[0] == models[i] && alone(items[b.0])[0] == models[j]);
    assert(alone(items[k])[0] == models[i] && alone(items[l])[0] == models[j]);
    assert(rank_of(items[k]) == rank_of(items[a.0]));
    assert(rank_of(items[l]) == rank_of(items[b.0]));
    lemma_source_order(listing, i, j, a.1, b.1);
    law_listing_is_ordered(entries);
    assert(!listed_before(listing[b.1], listing[a.1]));
    law_models_are_offered_once(listing);
    lemma_precedes_total(models[i].model, models[j].model);
}

// ---------------------------------------------------------------------------
// Models recorded on this machine
// ---------------------------------------------------------------------------

/// Whether `out` is `models` with number `k` moved to the front.
pub open spec fn is_moved_to_front(models: Seq<ModelView>, out: Seq<ModelView>, k: int) -> bool {
    &&& out.len() == models.len()
    &&& out[0] == models[k]
    &&& forall|i: int| 0 <= i < k ==> out[i + 1] == #[trigger] models[i]
    &&& forall|i: int| k < i < models.len() ==> out[i] == #[trigger] models[i]
}

/// Whether number `k` is the first of the models of a name.
pub open spec fn is_first_of_name(models: Seq<ModelView>, slug: Seq<char>, k: int) -> bool {
    &&& 0 <= k < models.len()
    &&& models[k].model == slug
    &&& forall|i: int| 0 <= i < k ==> (#[trigger] models[i]).model != slug
}

/// A preferred model that is recorded moves to the front as it is recorded, whole, and the others
/// keep their order behind it: the same options come out, each as often. One that is not recorded
/// comes first as a model of which nothing but the name is known, and the recorded ones follow as
/// they were. Without a preferred model nothing moves.
pub proof fn law_preferred_model_moves_whole(models: Seq<ModelView>, slug: Seq<char>, k: int)
    ensures
        preferred(models, None) == models,
        is_first_of_name(models, slug, k) ==> {
            &&& is_moved_to_front(models, preferred(models, Some(slug)), k)
            &&& preferred(models, Some(slug)).to_multiset() == models.to_multiset()
        },
        (forall|i: int| 0 <= i < models.len() ==> (#[trigger] models[i]).model != slug) ==> {
            let out = preferred(models, Some(slug));
            &&& out.len() == models.len() + 1
            &&& out.skip(1) == models
            &&& out[0].model == slug
            &&& out[0].label == slug
            &&& out[0].thinking_efforts.len() == 0
            &&& !out[0].thinking_supported
            &&& out[0].thinking_control is None
            &&& out[0].reasoning_summary is None
            &&& out[0].reasoning_context is None
        },
{
    let out = preferred(models, Some(slug));
    if is_first_of_name(models, slug, k) {
        lemma_first_named_within(models, slug);
        lemma_none_before(models, slug);
        let at = first_named(models, slug) as int;
        assert(models[at].model == slug);
        assert(at == k);
        assert(out == seq![models[k]] + models.remove(k));
        lemma_moved_multiset(models, k);
    } else if !names_model(models, slug) {
        assert(out.skip(1) =~= models);
    }
}

proof fn lemma_moved_multiset(models: Seq<ModelView>, k: int)
    requires
        0 <= k < models.len(),
    ensures
        (seq![models[k]] + models.remove(k)).to_multiset() == models.to_multiset(),
{
    let one = seq![models[k]];
    let rest = models.remove(k);
    vstd::seq_lib::lemma_multiset_commutative(one, rest);
    rest.to_multiset_ensures();
    models.to_multiset_ensures();
    Seq::<ModelView>::empty().to_multiset_ensures();
    assert(one =~= Seq::<ModelView>::empty().push(models[k]));
    assert(Seq::<ModelView>::empty().to_multiset().len() == 0);
    assert(models.contains(models[k]));
    assert(models.to_multiset().count(models[k]) > 0);
    assert(rest.to_multiset() =~= models.to_multiset().remove(models[k]));
    assert((one + rest).to_multiset() =~= models.to_multiset());
}

proof fn lemma_none_before(models: Seq<ModelView>, slug: Seq<char>)
    ensures
        forall|i: int| 0 <= i < first_named(models, slug) && i < models.len() ==> (#[trigger] models[i]).model
            != slug,
    decreases models.len(),
{
    if models.len() > 0 && models[0].model != slug {
        let rest = models.drop_first();
        lemma_none_before(rest, slug);
        assert forall|i: int| 0 <= i < first_named(models, slug) && i < models.len() implies (
        #[trigger] models[i]).model != slug by {
            if i > 0 {
                assert(rest[i - 1] == models[i]);
            }
        }
    }
}

/// The option of a preferred model that is not recorded is the one that a catalog has for an item
/// with nothing but that name.
pub proof fn law_unrecorded_model_is_bare(models: Seq<ModelView>, slug: Seq<char>)
    requires
        !names_model(models, slug),
        trimmed(slug) == slug,
        slug.len() > 0,
    ensures
        seq![preferred(models, Some(slug))[0]] == alone(
            JsonView::Object(map!["slug"@ => JsonView::Text(slug)]),
        ),
{
    let item = JsonView::Object(map!["slug"@ => JsonView::Text(slug)]);
    reveal_strlit("slug");
    reveal_strlit("visibility");
    reveal_strlit("supported_reasoning_levels");
    assert("slug"@.len() == 4 && "visibility"@.len() == 10 && "supported_reasoning_levels"@.len() == 26);
    lemma_alone(item);
    assert(entry_of(item) is Some);
    assert((entry_of(item)->0).efforts =~= Seq::<Seq<char>>::empty());
    assert(seq![preferred(models, Some(slug))[0]] =~= alone(item));
}

/// The models recorded on this machine are those that the cache, read as a catalog, offers, with
/// the model first that the configuration names, trimmed, if it names one that is not blank. A
/// cache or a configuration that is missing or cannot be read counts as an empty one.
pub proof fn law_recorded_models(
    cache: Option<Seq<char>>,
    config: Option<Seq<char>>,
    models: Seq<ModelView>,
)
    requires
        match cache {
            Some(source) => match json_parse(source) {
                Some(body) => models == catalog_models(body),
                None => models.len() == 0,
            },
            None => models.len() == 0,
        },
    ensures
        ({
            let named = match config {
                Some(source) => toml_text(source, "model"@),
                None => None,
            };
            if named is Some && trimmed(named->0).len() > 0 {
                local_models(cache, config) == preferred(models, Some(trimmed(named->0)))
            } else {
                local_models(cache, config) == models
            }
        }),
{
    assert(models.len() == 0 ==> models =~= Seq::<ModelView>::empty());
}

} // verus!
