//! Salvaging hints from a model reply that is not in the expected format.
use vstd::prelude::*;
use vstd::string::StrSliceExecFns;
use crate::suggestion::{TextSuggestion, SuggestionView, views_of};
use crate::text::{
    occurs_in, is_blank, lines_of, chars_of, occurs_within, all_white_space, line_spans,
    span_texts,
};

verus! {

/// A reply worth searching line by line: it speaks of a suggestion, a change
/// or an improvement somewhere.
pub open spec fn mentions_hint(text: Seq<char>) -> bool {
    occurs_in("suggestion"@, text) || occurs_in("change"@, text) || occurs_in("improve"@, text)
}

/// A line that reads as a hint: it holds a colon and speaks of a change, a
/// replacement or a suggestion.
pub open spec fn hint_line(line: Seq<char>) -> bool {
    occurs_in(":"@, line) && (occurs_in("change"@, line) || occurs_in("replace"@, line)
        || occurs_in("suggestion"@, line))
}

/// The lines among `lines` that read as hints, in order.
pub open spec fn hint_filter(lines: Seq<Seq<char>>) -> Seq<Seq<char>> {
    lines.filter(|l: Seq<char>| hint_line(l))
}

/// The lines of a reply that are taken over as hints.
pub open spec fn hint_lines(text: Seq<char>) -> Seq<Seq<char>> {
    if mentions_hint(text) {
        hint_filter(lines_of(text))
    } else {
        Seq::empty()
    }
}

/// The hint made of one salvaged line.
pub open spec fn salvaged_view(line: Seq<char>) -> SuggestionView {
    SuggestionView {
        start: 0,
        end: 0,
        original: Seq::empty(),
        suggestion: line,
        reason: "Extracted from model response"@,
        category: "general"@,
        severity: "suggestion"@,
    }
}

/// The notice given when a reply has content but no salvageable line.
pub open spec fn unformatted_view() -> SuggestionView {
    SuggestionView {
        start: 0,
        end: 0,
        original: Seq::empty(),
        suggestion: Seq::empty(),
        reason: "The model provided a response but not in the expected format."@,
        category: "general"@,
        severity: "info"@,
    }
}

/// What is salvaged from a reply: one hint per hint line, or, when there is
/// none and the reply is not blank, a single notice.
pub open spec fn fallback_views(text: Seq<char>) -> Seq<SuggestionView> {
    let found = hint_lines(text).map_values(|l: Seq<char>| salvaged_view(l));
    if found.len() == 0 && !is_blank(text) {
        seq![unformatted_view()]
    } else {
        found
    }
}

fn salvaged_hint(line: &str) -> (r: TextSuggestion)
    ensures
        r@ == salvaged_view(line@),
{
    TextSuggestion {
        start: 0,
        end: 0,
        original: String::new(),
        suggestion: line.to_owned(),
        reason: "Extracted from model response".to_owned(),
        category: "general".to_owned(),
        severity: "suggestion".to_owned(),
    }
}

fn unformatted_notice() -> (r: TextSuggestion)
    ensures
        r@ == unformatted_view(),
{
    TextSuggestion {
        start: 0,
        end: 0,
        original: String::new(),
        suggestion: String::new(),
        reason: "The model provided a response but not in the expected format.".to_owned(),
        category: "general".to_owned(),
        severity: "info".to_owned(),
    }
}

/// Hints salvaged from a reply that is not in the expected format.
pub fn extract_fallback_suggestions(text: &str) -> (r: Vec<TextSuggestion>)
    ensures
        views_of(r@) == fallback_views(text@),
{
    let chars = chars_of(text);
    let n = chars.len();
    let mut out: Vec<TextSuggestion> = Vec::new();
    let colon = chars_of(":");
    let change = chars_of("change");
    let replace = chars_of("replace");
    let suggestion = chars_of("suggestion");
    let improve = chars_of("improve");
    assert(chars@.subrange(0, n as int) =~= chars@);
    let mentions = occurs_within(&chars, 0, n, &suggestion) || occurs_within(&chars, 0, n, &change)
        || occurs_within(&chars, 0, n, &improve);
    if mentions {
        let spans = line_spans(&chars);
        let ghost lines = span_texts(chars@, spans@);
        assert(views_of(out@) =~= hint_filter(lines.take(0)).map_values(
            |l: Seq<char>| salvaged_view(l),
        )) by {
            reveal_with_fuel(Seq::<_>::filter, 1);
        }
        for k in 0..spans.len()
            invariant
                chars@ == text@,
                lines == span_texts(chars@, spans@),
                lines == lines_of(text@),
                crate::text::spans_within(chars@, spans@),
                colon@ == ":"@,
                change@ == "change"@,
                replace@ == "replace"@,
                suggestion@ == "suggestion"@,
                views_of(out@) == hint_filter(lines.take(k as int)).map_values(
                    |l: Seq<char>| salvaged_view(l),
                ),
        {
            let (a, b) = spans[k];
            assert(lines[k as int] == chars@.subrange(a as int, b as int));
            let ghost before = out@;
            let is_hint = occurs_within(&chars, a, b, &colon) && (occurs_within(
                &chars,
                a,
                b,
                &change,
            ) || occurs_within(&chars, a, b, &replace) || occurs_within(
                &chars,
                a,
                b,
                &suggestion,
            ));
            if is_hint {
                out.push(salvaged_hint(text.substring_char(a, b)));
                assert(views_of(out@) =~= views_of(before).push(salvaged_view(lines[k as int])));
            }
            assert(lines.take(k + 1).drop_last() =~= lines.take(k as int));
            assert(hint_filter(lines.take(k + 1)) == if hint_line(lines[k as int]) {
                hint_filter(lines.take(k as int)).push(lines[k as int])
            } else {
                hint_filter(lines.take(k as int))
            }) by {
                reveal_with_fuel(Seq::<_>::filter, 1);
            }
            assert(views_of(out@) =~= hint_filter(lines.take(k + 1)).map_values(
                |l: Seq<char>| salvaged_view(l),
            ));
        }
        assert(lines.take(spans.len() as int) =~= lines);
    } else {
        assert(views_of(out@) =~= hint_lines(text@).map_values(|l: Seq<char>| salvaged_view(l)));
    }
    if out.len() == 0 && !all_white_space(&chars) {
        out.push(unformatted_notice());
        assert(views_of(out@) =~= seq![unformatted_view()]);
    }
    out
}

} // verus!
