//! Properties that hold of the library as a whole.
use vstd::prelude::*;
use crate::text::{occurs_in, is_blank, is_white_space, lines_of, scan_lines, strip_cr};
use crate::suggestion::{SuggestionView, failure_view};
use crate::fallback::{
    mentions_hint, hint_line, hint_filter, hint_lines, fallback_views, salvaged_view,
    unformatted_view,
};
use crate::analysis::{
    BASE_SYSTEM_PROMPT, ModelQuery, empty_text_message, kept_hints, query_for, system_prompt_text,
    reply_view,
};
use crate::session::{invalid_request_message, unavailable_message};
use crate::models::{ModelCatalog, ModelInfo, ModelView, catalog_map, listed_among, writing_model_views};

verus! {

/// A non-whitespace first character keeps a pattern out of a blank text.
proof fn lemma_blank_excludes(pat: Seq<char>, text: Seq<char>)
    requires
        is_blank(text),
        pat.len() > 0,
        !is_white_space(pat[0]),
    ensures
        !occurs_in(pat, text),
{
    if occurs_in(pat, text) {
        let i = choose|i: int|
            0 <= i && i + pat.len() <= text.len() && #[trigger] text.subrange(i, i + pat.len())
                == pat;
        assert(text.subrange(i, i + pat.len())[0] == text[i]);
        assert(is_white_space(text[i]));
    }
}

/// What the line filter keeps comes from its input.
proof fn lemma_filter_from(lines: Seq<Seq<char>>, k: int)
    requires
        0 <= k < hint_filter(lines).len(),
    ensures
        lines.contains(hint_filter(lines)[k]),
        hint_line(hint_filter(lines)[k]),
    decreases lines.len(),
{
    reveal_with_fuel(Seq::<_>::filter, 1);
    let init = lines.drop_last();
    if hint_line(lines.last()) && k == hint_filter(lines).len() - 1 {
        assert(lines[lines.len() - 1] == lines.last());
    } else {
        lemma_filter_from(init, k);
        let j = choose|j: int| 0 <= j < init.len() && init[j] == hint_filter(init)[k];
        assert(lines[j] == init[j]);
    }
}

/// Where each kept line stands among the lines it was kept from.
proof fn lemma_filter_positions(lines: Seq<Seq<char>>) -> (idx: Seq<int>)
    ensures
        idx.len() == hint_filter(lines).len(),
        forall|k: int|
            0 <= k < idx.len() ==> 0 <= #[trigger] idx[k] < lines.len() && hint_filter(lines)[k]
                == lines[idx[k]],
        forall|k: int, k2: int| 0 <= k < k2 < idx.len() ==> #[trigger] idx[k] < #[trigger] idx[k2],
        forall|j: int|
            0 <= j < lines.len() && hint_line(#[trigger] lines[j]) ==> exists|k: int|
                0 <= k < idx.len() && #[trigger] idx[k] == j,
    decreases lines.len(),
{
    reveal_with_fuel(Seq::<_>::filter, 1);
    if lines.len() == 0 {
        Seq::empty()
    } else {
        let init = lines.drop_last();
        let prev = lemma_filter_positions(init);
        let last = lines.len() - 1;
        let idx = if hint_line(lines.last()) {
            prev.push(last)
        } else {
            prev
        };
        assert forall|k: int| 0 <= k < idx.len() implies 0 <= #[trigger] idx[k] < lines.len()
            && hint_filter(lines)[k] == lines[idx[k]] by {
            if k < prev.len() {
                assert(idx[k] == prev[k]);
                assert(init[prev[k]] == lines[prev[k]]);
            }
        }
        assert forall|j: int| 0 <= j < lines.len() && hint_line(#[trigger] lines[j]) implies exists|
            k: int,
        | 0 <= k < idx.len() && #[trigger] idx[k] == j by {
            if j < last {
                assert(init[j] == lines[j]);
                let k = choose|k: int| 0 <= k < prev.len() && #[trigger] prev[k] == j;
                assert(idx[k] == j);
            } else {
                assert(idx[idx.len() - 1] == j);
            }
        }
        idx
    }
}

/// A line reads as a hint when it holds a colon and speaks of a change, a
/// replacement or a suggestion.
pub open spec fn reads_as_hint(l: Seq<char>) -> bool {
    occurs_in(":"@, l) && (occurs_in("change"@, l) || occurs_in("replace"@, l) || occurs_in(
        "suggestion"@,
        l,
    ))
}

/// The hint made of a line taken over from a reply.
pub open spec fn taken_over(l: Seq<char>) -> SuggestionView {
    SuggestionView {
        start: 0,
        end: 0,
        original: Seq::empty(),
        suggestion: l,
        reason: "Extracted from model response"@,
        category: "general"@,
        severity: "suggestion"@,
    }
}

/// A reply that speaks of a suggestion, a change or an improvement is
/// searched line by line: when some line reads as a hint, the result holds
/// one hint per such line, each line taken over whole, in the order of the
/// lines, and nothing else. Any other reply yields the notice that it is not
/// in the expected format, or nothing when it is blank.
pub proof fn law_fallback_salvages_hint_lines(text: Seq<char>)
    ensures
        ({
            let lines = lines_of(text);
            let out = fallback_views(text);
            if (occurs_in("suggestion"@, text) || occurs_in("change"@, text) || occurs_in(
                "improve"@,
                text,
            )) && exists|j: int| 0 <= j < lines.len() && reads_as_hint(#[trigger] lines[j]) {
                exists|idx: Seq<int>|
                    {
                        &&& #[trigger] idx.len() == out.len()
                        &&& forall|k: int|
                            0 <= k < idx.len() ==> 0 <= #[trigger] idx[k] < lines.len()
                                && reads_as_hint(lines[idx[k]]) && out[k] == taken_over(
                                lines[idx[k]],
                            )
                        &&& forall|k: int, k2: int|
                            0 <= k < k2 < idx.len() ==> #[trigger] idx[k] < #[trigger] idx[k2]
                        &&& forall|j: int|
                            0 <= j < lines.len() && reads_as_hint(#[trigger] lines[j]) ==> exists|
                                k: int,
                            | 0 <= k < idx.len() && #[trigger] idx[k] == j
                    }
            } else if is_blank(text) {
                out.len() == 0
            } else {
                out == seq![
                    SuggestionView {
                        start: 0,
                        end: 0,
                        original: Seq::empty(),
                        suggestion: Seq::empty(),
                        reason: "The model provided a response but not in the expected format."@,
                        category: "general"@,
                        severity: "info"@,
                    },
                ]
            }
        }),
{
    let lines = lines_of(text);
    let out = fallback_views(text);
    let searched = occurs_in("suggestion"@, text) || occurs_in("change"@, text) || occurs_in(
        "improve"@,
        text,
    );
    let idx = lemma_filter_positions(lines);
    let kept = hint_filter(lines);
    if searched && exists|j: int| 0 <= j < lines.len() && reads_as_hint(#[trigger] lines[j]) {
        let j = choose|j: int| 0 <= j < lines.len() && reads_as_hint(#[trigger] lines[j]);
        assert(hint_line(lines[j]));
        let k = choose|k: int| 0 <= k < idx.len() && #[trigger] idx[k] == j;
        assert(hint_lines(text) == kept);
        let found = kept.map_values(|l: Seq<char>| salvaged_view(l));
        assert(found.len() > 0);
        assert(out == found);
        assert forall|k: int| 0 <= k < idx.len() implies 0 <= #[trigger] idx[k] < lines.len()
            && reads_as_hint(lines[idx[k]]) && out[k] == taken_over(lines[idx[k]]) by {
            assert(kept[k] == lines[idx[k]]);
            lemma_filter_from(lines, k);
        }
        assert forall|j: int| 0 <= j < lines.len() && reads_as_hint(#[trigger] lines[j]) implies exists|
            k: int,
        | 0 <= k < idx.len() && #[trigger] idx[k] == j by {
            assert(hint_line(lines[j]));
        }
        assert(idx.len() == out.len());
    } else {
        assert(hint_lines(text).len() == 0) by {
            if searched {
                assert(mentions_hint(text));
                if kept.len() > 0 {
                    lemma_filter_from(lines, 0);
                    let j = choose|j: int| 0 <= j < lines.len() && lines[j] == kept[0];
                    assert(reads_as_hint(lines[j]));
                }
            }
        }
        law_fallback_empty_iff_blank(text);
    }
}

/// Salvaging hints from a reply yields nothing exactly when the reply is
/// blank (trimming it leaves nothing).
pub proof fn law_fallback_empty_iff_blank(text: Seq<char>)
    ensures
        fallback_views(text).len() == 0 <==> is_blank(text),
{
    if is_blank(text) {
        reveal_strlit("suggestion");
        reveal_strlit("change");
        reveal_strlit("improve");
        lemma_blank_excludes("suggestion"@, text);
        lemma_blank_excludes("change"@, text);
        lemma_blank_excludes("improve"@, text);
        assert(!mentions_hint(text));
    }
}

/// Every salvaged hint concerns the whole text (start and end 0, no original
/// span) and is filed under the category "general".
pub proof fn law_fallback_hints_are_general(text: Seq<char>)
    ensures
        forall|i: int|
            0 <= i < fallback_views(text).len() ==> {
                let v = #[trigger] fallback_views(text)[i];
                &&& v.start == 0
                &&& v.end == 0
                &&& v.original.len() == 0
                &&& v.category == "general"@
            },
{
}

/// Every salvaged hint is either the notice that the reply was not in the
/// expected format, or a line of the reply that holds a colon and speaks of a
/// change, a replacement or a suggestion, taken over unchanged.
pub proof fn law_salvaged_hints_are_lines(text: Seq<char>)
    ensures
        forall|i: int|
            0 <= i < fallback_views(text).len() ==> {
                let v = #[trigger] fallback_views(text)[i];
                ||| v == unformatted_view()
                ||| v == salvaged_view(v.suggestion) && lines_of(text).contains(v.suggestion)
                    && hint_line(v.suggestion)
            },
{
    assert forall|i: int| 0 <= i < fallback_views(text).len() implies {
        let v = #[trigger] fallback_views(text)[i];
        ||| v == unformatted_view()
        ||| v == salvaged_view(v.suggestion) && lines_of(text).contains(v.suggestion) && hint_line(
            v.suggestion,
        )
    } by {
        let found = hint_lines(text).map_values(|l: Seq<char>| salvaged_view(l));
        if found.len() > 0 {
            assert(mentions_hint(text));
            lemma_filter_from(lines_of(text), i);
        }
    }
}

/// A reply that speaks of no suggestion, change or improvement yields no
/// salvaged line: only the notice, or nothing when it is blank.
pub proof fn law_keywordless_reply(text: Seq<char>)
    requires
        !mentions_hint(text),
    ensures
        fallback_views(text) == (if is_blank(text) {
            Seq::<SuggestionView>::empty()
        } else {
            seq![unformatted_view()]
        }),
{
    assert(hint_lines(text).map_values(|l: Seq<char>| salvaged_view(l)) =~= Seq::<
        SuggestionView,
    >::empty());
}

proof fn lemma_scan_no_newline(s: Seq<char>)
    ensures
        !scan_lines(s).1.contains('\n'),
        forall|i: int|
            0 <= i < scan_lines(s).0.len() ==> !(#[trigger] scan_lines(s).0[i]).contains('\n'),
    decreases s.len(),
{
    if s.len() > 0 {
        lemma_scan_no_newline(s.drop_last());
        let (done, cur) = scan_lines(s.drop_last());
        if s.last() == '\n' {
            let closed = strip_cr(cur);
            assert(!closed.contains('\n')) by {
                if closed.contains('\n') {
                    let j = choose|j: int| 0 <= j < closed.len() && closed[j] == '\n';
                    assert(cur[j] == '\n');
                }
            }
            assert forall|i: int| 0 <= i < scan_lines(s).0.len() implies !(#[trigger] scan_lines(
                s,
            ).0[i]).contains('\n') by {
                if i < done.len() {
                    assert(scan_lines(s).0[i] == done[i]);
                }
            }
            assert(!Seq::<char>::empty().contains('\n'));
        } else {
            assert(!cur.push(s.last()).contains('\n')) by {
                if cur.push(s.last()).contains('\n') {
                    let j = choose|j: int|
                        0 <= j < cur.push(s.last()).len() && cur.push(s.last())[j] == '\n';
                    if j < cur.len() {
                        assert(cur[j] == '\n');
                    }
                }
            }
        }
    }
}

/// No line of a text holds a line feed: the terminators are dropped.
pub proof fn law_lines_hold_no_line_feed(s: Seq<char>)
    ensures
        forall|i: int| 0 <= i < lines_of(s).len() ==> !(#[trigger] lines_of(s)[i]).contains('\n'),
{
    lemma_scan_no_newline(s);
    let (done, cur) = scan_lines(s);
    assert forall|i: int| 0 <= i < lines_of(s).len() implies !(#[trigger] lines_of(s)[i]).contains(
        '\n',
    ) by {
        if i < done.len() {
            assert(lines_of(s)[i] == done[i]);
        }
    }
}

proof fn lemma_scan_rejoins(s: Seq<char>)
    requires
        !s.contains('\r'),
    ensures
        scan_lines(s).0.map_values(|l: Seq<char>| l.push('\n')).flatten_alt() + scan_lines(s).1
            == s,
    decreases s.len(),
{
    if s.len() > 0 {
        let init = s.drop_last();
        assert(!init.contains('\r')) by {
            if init.contains('\r') {
                let j = choose|j: int| 0 <= j < init.len() && init[j] == '\r';
                assert(s[j] == '\r');
            }
        }
        lemma_scan_rejoins(init);
        let (done, cur) = scan_lines(init);
        let f = |l: Seq<char>| l.push('\n');
        let flat = done.map_values(f).flatten_alt();
        assert(flat + cur == init);
        assert(s =~= init.push(s.last()));
        if s.last() == '\n' {
            assert(strip_cr(cur) == cur) by {
                if cur.len() > 0 && cur.last() == '\r' {
                    assert(init[flat.len() + cur.len() - 1] == cur.last());
                    assert(s[flat.len() + cur.len() - 1] == '\r');
                }
            }
            assert(done.push(cur).map_values(f) =~= done.map_values(f).push(cur.push('\n')));
            assert(done.map_values(f).push(cur.push('\n')).drop_last() =~= done.map_values(f));
            assert(done.push(cur).map_values(f).flatten_alt() =~= flat + cur.push('\n'));
            assert(flat + cur.push('\n') + Seq::<char>::empty() =~= s);
        } else {
            assert(flat + cur.push(s.last()) =~= s);
        }
    }
}

/// In a text without carriage returns, the lines, each followed by a line
/// feed, make up the text again, with a final line feed added when the text
/// lacks one.
pub proof fn law_lines_rejoin(text: Seq<char>)
    requires
        !text.contains('\r'),
    ensures
        lines_of(text).map_values(|l: Seq<char>| l.push('\n')).flatten() == (if text.len() == 0
            || text.last() == '\n' {
            text
        } else {
            text.push('\n')
        }),
{
    lemma_scan_rejoins(text);
    let (done, cur) = scan_lines(text);
    let f = |l: Seq<char>| l.push('\n');
    let joined = lines_of(text).map_values(f);
    joined.lemma_flatten_and_flatten_alt_are_equivalent();
    let flat = done.map_values(f).flatten_alt();
    if cur.len() == 0 {
        assert(flat + cur =~= flat);
        if text.len() > 0 {
            // the text ends where the last closed line ended: with a line feed
            assert(text.drop_last().len() >= 0);
            if text.last() != '\n' {
                assert(scan_lines(text).1 == scan_lines(text.drop_last()).1.push(text.last()));
            }
        }
    } else {
        assert(joined =~= done.map_values(f).push(cur.push('\n')));
        assert(joined.drop_last() =~= done.map_values(f));
        assert(text.last() == cur.last());
        assert(joined.flatten_alt() =~= text.push('\n'));
    }
}

/// The mistral and phi3:mini models are told one more sentence after the
/// common instructions; every other model gets the common instructions alone.
pub proof fn law_model_specific_prompts(model: Seq<char>)
    ensures
        system_prompt_text("mistral"@) == BASE_SYSTEM_PROMPT@
            + "\n\nYou excel at identifying grammar issues and improving writing style."@,
        system_prompt_text("phi3:mini"@) == BASE_SYSTEM_PROMPT@
            + "\n\nYou are excellent at providing concise and clear improvements to text."@,
        model != "mistral"@ && model != "phi3:mini"@ ==> system_prompt_text(model)
            == BASE_SYSTEM_PROMPT@,
{
    reveal_strlit("mistral");
    reveal_strlit("phi3:mini");
    assert("mistral"@.len() != "phi3:mini"@.len());
}

/// The messages with which requests are refused before the model is asked.
pub proof fn law_refusal_messages(model: Seq<char>)
    ensures
        empty_text_message() == "Please provide text to analyze"@,
        invalid_request_message() == "Invalid request format"@,
        unavailable_message(model) == "Model '"@ + model
            + "' is not available or not downloaded. Try running with --download-model flag."@,
{
}

/// Whatever the model, its system prompt begins with the common instructions.
pub proof fn law_system_prompt_extends_base(model: Seq<char>)
    ensures
        BASE_SYSTEM_PROMPT@.len() <= system_prompt_text(model).len(),
        system_prompt_text(model).subrange(0, BASE_SYSTEM_PROMPT@.len() as int)
            == BASE_SYSTEM_PROMPT@,
{
    assert(system_prompt_text(model).subrange(0, BASE_SYSTEM_PROMPT@.len() as int)
        =~= BASE_SYSTEM_PROMPT@);
}

/// Where each kept hint stands among the decoded items.
proof fn lemma_kept_positions(items: Seq<Option<SuggestionView>>) -> (idx: Seq<int>)
    ensures
        idx.len() == kept_hints(items).len(),
        forall|k: int|
            0 <= k < idx.len() ==> 0 <= #[trigger] idx[k] < items.len() && items[idx[k]]
                == Some(kept_hints(items)[k]),
        forall|k: int, k2: int| 0 <= k < k2 < idx.len() ==> #[trigger] idx[k] < #[trigger] idx[k2],
        forall|j: int|
            0 <= j < items.len() && (#[trigger] items[j]) is Some ==> exists|k: int|
                0 <= k < idx.len() && #[trigger] idx[k] == j,
    decreases items.len(),
{
    if items.len() == 0 {
        Seq::empty()
    } else {
        let init = items.drop_last();
        let prev = lemma_kept_positions(init);
        let last = items.len() - 1;
        let idx = if items.last() is Some {
            prev.push(last)
        } else {
            prev
        };
        assert forall|k: int| 0 <= k < idx.len() implies 0 <= #[trigger] idx[k] < items.len()
            && items[idx[k]] == Some(kept_hints(items)[k]) by {
            if k < prev.len() {
                assert(idx[k] == prev[k]);
                assert(init[prev[k]] == items[prev[k]]);
            }
        }
        assert forall|j: int| 0 <= j < items.len() && (#[trigger] items[j]) is Some implies exists|
            k: int,
        | 0 <= k < idx.len() && #[trigger] idx[k] == j by {
            if j < last {
                assert(init[j] == items[j]);
                let k = choose|k: int| 0 <= k < prev.len() && #[trigger] prev[k] == j;
                assert(idx[k] == j);
            } else {
                assert(idx[idx.len() - 1] == j);
            }
        }
        idx
    }
}

/// A JSON reply with a "suggestions" array yields, with no error, the items
/// that decode as hints, each unchanged, in the order of the array, and no
/// others. A JSON reply without such an array yields the one notice that the
/// model did not answer in the expected format, with its error message.
pub proof fn law_json_reply(text: Seq<char>, items: Seq<Option<SuggestionView>>)
    ensures
        reply_view(text, true, Some(items)).error is None,
        exists|idx: Seq<int>|
            {
                &&& #[trigger] idx.len() == reply_view(text, true, Some(items)).suggestions.len()
                &&& forall|k: int|
                    0 <= k < idx.len() ==> 0 <= #[trigger] idx[k] < items.len() && items[idx[k]]
                        == Some(reply_view(text, true, Some(items)).suggestions[k])
                &&& forall|k: int, k2: int|
                    0 <= k < k2 < idx.len() ==> #[trigger] idx[k] < #[trigger] idx[k2]
                &&& forall|j: int|
                    0 <= j < items.len() && (#[trigger] items[j]) is Some ==> exists|k: int|
                        0 <= k < idx.len() && #[trigger] idx[k] == j
            },
        reply_view(text, true, None).error == Some(
            "Failed to parse model response as expected JSON format"@,
        ),
        reply_view(text, true, None).suggestions == seq![
            (SuggestionView {
                start: 0,
                end: 0,
                original: Seq::empty(),
                suggestion: Seq::empty(),
                reason: "The model didn't return properly formatted JSON. Please try a different model."@,
                category: "error"@,
                severity: "critical"@,
            }),
        ],
{
    let idx = lemma_kept_positions(items);
    assert(idx.len() == reply_view(text, true, Some(items)).suggestions.len());
}

/// The query for a text (what `prepare_analysis` and `plan_step` build)
/// carries the whole text as its prompt, the model's name, a system prompt
/// that begins with the common instructions, JSON format, and no streaming.
pub proof fn law_query_carries_text(query: ModelQuery, text: Seq<char>, model: Seq<char>)
    requires
        query_for(query, text, model),
    ensures
        query.prompt@ == text,
        query.model@ == model,
        BASE_SYSTEM_PROMPT@.len() <= query.system@.len(),
        query.system@.subrange(0, BASE_SYSTEM_PROMPT@.len() as int) == BASE_SYSTEM_PROMPT@,
        !query.stream,
        query.format matches Some(f) && f@ == "json"@,
{
    law_system_prompt_extends_base(model);
}

/// A reply that is no JSON yields, unless it is blank, exactly the hints that
/// `extract_fallback_suggestions` salvages from it, all of them, and no
/// error; a blank one yields only the error "Failed to parse model response".
pub proof fn law_non_json_reply(text: Seq<char>, listed: Option<Seq<Option<SuggestionView>>>)
    ensures
        !is_blank(text) ==> reply_view(text, false, listed).error is None && reply_view(
            text,
            false,
            listed,
        ).suggestions.len() > 0,
        !is_blank(text) ==> reply_view(text, false, listed).suggestions == fallback_views(text),
        is_blank(text) ==> reply_view(text, false, listed) == failure_view(
            "Failed to parse model response"@,
        ),
{
    law_fallback_empty_iff_blank(text);
}

/// Registering a model (what `ModelCatalog::insert` does) makes it the
/// catalogue's entry for its name, and one of its entries, and leaves every
/// other name as it was.
pub proof fn law_register_then_look_up(
    before: ModelCatalog,
    after: ModelCatalog,
    model: ModelInfo,
    other: Seq<char>,
)
    requires
        after@ == before@.insert(model.name@, model@),
    ensures
        after@.dom().contains(model.name@),
        after@[model.name@] == model@,
        after.entries().contains(model@),
        other != model.name@ ==> (after@.dom().contains(other) == before@.dom().contains(other)),
        other != model.name@ && before@.dom().contains(other) ==> after@[other] == before@[other],
{
    after.entry_named_by_key(model.name@);
}

/// In a catalogue built from a list of models, each name stands for the last
/// model of that name in the list.
pub proof fn law_later_registration_wins(models: Seq<ModelView>, i: int)
    requires
        0 <= i < models.len(),
        forall|j: int| i < j < models.len() ==> #[trigger] models[j].name != models[i].name,
    ensures
        catalog_map(models).dom().contains(models[i].name),
        catalog_map(models)[models[i].name] == models[i],
    decreases models.len(),
{
    if i < models.len() - 1 {
        let init = models.drop_last();
        assert forall|j: int| i < j < init.len() implies #[trigger] init[j].name
            != init[i].name by {
            assert(init[j] == models[j]);
        }
        law_later_registration_wins(init, i);
        assert(models[models.len() - 1].name != models[i].name);
    }
}

/// A model counts as downloaded exactly when some tag begins with its whole
/// name.
pub proof fn law_listed_means_tag_prefix(tags: Seq<Seq<char>>, name: Seq<char>)
    ensures
        listed_among(tags, name) <==> exists|i: int|
            0 <= i < tags.len() && name.len() <= (#[trigger] tags[i]).len() && tags[i].subrange(
                0,
                name.len() as int,
            ) == name,
{
}

/// After marking the catalogue from `tags` (what `mark_downloaded` does), the
/// same names are stored, each model keeps every field but its flag, and a
/// model is marked downloaded exactly when some tag begins with its whole name.
pub proof fn law_marking_by_tag_prefix(
    before: ModelCatalog,
    after: ModelCatalog,
    tags: Seq<Seq<char>>,
    k: Seq<char>,
)
    requires
        after@ == before@.map_values(
            |m: ModelView| m.with_downloaded(listed_among(tags, m.name)),
        ),
    ensures
        after@.dom() == before@.dom(),
        after@.dom().contains(k) ==> (after@[k].downloaded <==> exists|i: int|
            0 <= i < tags.len() && k.len() <= (#[trigger] tags[i]).len() && tags[i].subrange(
                0,
                k.len() as int,
            ) == k),
        after@.dom().contains(k) ==> after@[k].name == before@[k].name
            && after@[k].display_name == before@[k].display_name
            && after@[k].description == before@[k].description
            && after@[k].size_tenths_gb == before@[k].size_tenths_gb
            && after@[k].writing_focused == before@[k].writing_focused,
{
    before.entry_named_by_key(k);
    assert(after@.dom() =~= before@.dom());
}

/// Marking the catalogue from the same list of tags a second time changes
/// nothing more.
pub proof fn law_marking_is_idempotent(
    catalog: Map<Seq<char>, ModelView>,
    tags: Seq<Seq<char>>,
)
    ensures
        ({
            let mark = |m: ModelView| m.with_downloaded(listed_among(tags, m.name));
            catalog.map_values(mark).map_values(mark) == catalog.map_values(mark)
        }),
{
    let mark = |m: ModelView| m.with_downloaded(listed_among(tags, m.name));
    assert(catalog.map_values(mark).map_values(mark) =~= catalog.map_values(mark));
}

/// A model of the catalogue is either available (`is_available`) or waiting
/// to be downloaded (`needs_download`), never both; a name that no entry
/// carries is neither.
pub proof fn law_available_or_pending(catalog: ModelCatalog, name: Seq<char>)
    ensures
        ({
            let available = catalog@.dom().contains(name) && catalog@[name].downloaded;
            let pending = catalog@.dom().contains(name) && !catalog@[name].downloaded;
            &&& !(available && pending)
            &&& (available || pending) <==> exists|i: int|
                0 <= i < catalog.entries().len() && #[trigger] catalog.entries()[i].name == name
        }),
{
    catalog.entry_named_by_key(name);
}

/// Every field of the built-in models: name, display name, description,
/// size in tenths of a gigabyte, not downloaded, writing-focused.
pub proof fn law_builtin_model_details()
    ensures
        writing_model_views().len() == 5,
        writing_model_views()[0] == (ModelView {
            name: "llama3.2"@,
            display_name: "Llama 3.2 (8B)"@,
            description: "General purpose model with good writing capabilities"@,
            downloaded: false,
            size_tenths_gb: 47,
            writing_focused: true,
        }),
        writing_model_views()[1] == (ModelView {
            name: "mistral"@,
            display_name: "Mistral 7B"@,
            description: "Excellent for grammar and style improvements"@,
            downloaded: false,
            size_tenths_gb: 41,
            writing_focused: true,
        }),
        writing_model_views()[2] == (ModelView {
            name: "phi3:mini"@,
            display_name: "Phi-3 Mini"@,
            description: "Microsoft's small but capable writing assistant"@,
            downloaded: false,
            size_tenths_gb: 28,
            writing_focused: true,
        }),
        writing_model_views()[3] == (ModelView {
            name: "gemma:2b"@,
            display_name: "Gemma 2B"@,
            description: "Fast and lightweight for basic writing assistance"@,
            downloaded: false,
            size_tenths_gb: 13,
            writing_focused: true,
        }),
        writing_model_views()[4] == (ModelView {
            name: "neural-chat"@,
            display_name: "Neural Chat"@,
            description: "Optimized for conversational writing and flow"@,
            downloaded: false,
            size_tenths_gb: 41,
            writing_focused: true,
        }),
{
}

/// The built-in catalogue holds five writing-focused models under distinct
/// names, none of them downloaded at first.
pub proof fn law_builtin_catalogue()
    ensures
        ({
            let catalog = catalog_map(writing_model_views());
            &&& catalog.dom().contains("llama3.2"@)
            &&& catalog.dom().contains("mistral"@)
            &&& catalog.dom().contains("phi3:mini"@)
            &&& catalog.dom().contains("gemma:2b"@)
            &&& catalog.dom().contains("neural-chat"@)
            &&& catalog.dom().len() == 5
            &&& forall|k: Seq<char>|
                #[trigger] catalog.dom().contains(k) ==> !catalog[k].downloaded
                    && catalog[k].writing_focused
        }),
{
    reveal_strlit("llama3.2");
    reveal_strlit("mistral");
    reveal_strlit("phi3:mini");
    reveal_strlit("gemma:2b");
    reveal_strlit("neural-chat");
    let ms = writing_model_views();
    assert("llama3.2"@[0] != "gemma:2b"@[0]);
    let names = seq!["llama3.2"@, "mistral"@, "phi3:mini"@, "gemma:2b"@, "neural-chat"@];
    assert forall|i: int, j: int| 0 <= i < 5 && 0 <= j < 5 && i != j implies #[trigger] names[i]
        != #[trigger] names[j] by {
        if names[i].len() == names[j].len() {
            assert(names[i][0] != names[j][0]);
        }
    }
    assert forall|i: int| 0 <= i < 5 implies #[trigger] ms[i].name == names[i] by {}
    assert(crate::models::distinct_names(ms));
    crate::models::lemma_catalog_len(ms);
    let catalog = catalog_map(ms);
    assert forall|k: Seq<char>| #[trigger] catalog.dom().contains(k) implies !catalog[k].downloaded
        && catalog[k].writing_focused by {
        crate::models::lemma_catalog_dom(ms, k);
        let j = choose|j: int| 0 <= j < ms.len() && #[trigger] ms[j].name == k;
        crate::models::lemma_catalog_value(ms, j);
    }
    assert(ms[0].name == "llama3.2"@);
    crate::models::lemma_catalog_value(ms, 0);
    crate::models::lemma_catalog_value(ms, 1);
    crate::models::lemma_catalog_value(ms, 2);
    crate::models::lemma_catalog_value(ms, 3);
    crate::models::lemma_catalog_value(ms, 4);
}

} // verus!
