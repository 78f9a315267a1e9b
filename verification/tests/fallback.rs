use writing_helper::fallback::extract_fallback_suggestions;
use writing_helper::text::{all_white_space, chars_of, is_white_space_char, line_spans, occurs_within};

#[test]
fn test_extract_fallback_suggestions_with_keywords() {
    let text = "suggestion: change 'their' to 'there'.\nreplace the comma.";
    let suggestions = extract_fallback_suggestions(text);
    // The second line "replace the comma." doesn't contain ":" so it shouldn't be extracted.
    assert_eq!(suggestions.len(), 1);
    assert_eq!(suggestions[0].suggestion, "suggestion: change 'their' to 'there'.");
    assert_eq!(suggestions[0].category, "general");
    assert_eq!(suggestions[0].severity, "suggestion");
}

#[test]
fn test_extract_fallback_suggestions_no_keywords_non_empty() {
    let text = "The model output this text without specific formatting.";
    let suggestions = extract_fallback_suggestions(text);
    assert_eq!(suggestions.len(), 1);
    assert_eq!(
        suggestions[0].reason,
        "The model provided a response but not in the expected format."
    );
    assert_eq!(suggestions[0].category, "general");
    assert_eq!(suggestions[0].severity, "info");
}

#[test]
fn test_extract_fallback_suggestions_empty_text() {
    let text = "";
    let suggestions = extract_fallback_suggestions(text);
    assert!(suggestions.is_empty());
}

#[test]
fn test_extract_fallback_suggestions_whitespace_text() {
    let text = "   \n  \t ";
    let suggestions = extract_fallback_suggestions(text);
    assert!(suggestions.is_empty());
}

#[test]
fn salvages_every_hint_line_in_order() {
    let text = "Here is a suggestion list\r\nchange: use 'there'\r\nnothing here\nreplace: the comma\nsuggestion without colon\n";
    let hints = extract_fallback_suggestions(text);
    assert_eq!(hints.len(), 2);
    assert_eq!(hints[0].suggestion, "change: use 'there'");
    assert_eq!(hints[1].suggestion, "replace: the comma");
    for h in &hints {
        assert_eq!(h.start, 0);
        assert_eq!(h.end, 0);
        assert_eq!(h.original, "");
        assert_eq!(h.reason, "Extracted from model response");
        assert_eq!(h.category, "general");
        assert_eq!(h.severity, "suggestion");
    }
}

#[test]
fn hint_lines_need_a_keyword_in_the_whole_reply() {
    // The line holds a colon and "replace", but the reply never says
    // "suggestion", "change" or "improve": only the notice comes back.
    let hints = extract_fallback_suggestions("replace: the comma");
    assert_eq!(hints.len(), 1);
    assert_eq!(hints[0].severity, "info");
    assert_eq!(hints[0].suggestion, "");
    // "improve" opens the search, but no line qualifies.
    let hints = extract_fallback_suggestions("improve the flow: please");
    assert_eq!(hints.len(), 1);
    assert_eq!(hints[0].severity, "info");
}

#[test]
fn a_hint_line_keeps_a_trailing_carriage_return_when_unterminated() {
    let hints = extract_fallback_suggestions("suggestion: a\r");
    assert_eq!(hints.len(), 1);
    assert_eq!(hints[0].suggestion, "suggestion: a\r");
}

#[test]
fn fallback_is_empty_exactly_for_blank_replies() {
    for text in ["", " ", "\t\n\r", "\u{3000}\u{a0}", "x", " . ", "\u{200b}"] {
        let blank = text.trim().is_empty();
        assert_eq!(extract_fallback_suggestions(text).is_empty(), blank, "{:?}", text);
    }
}

#[test]
fn whitespace_agrees_with_std_for_every_char() {
    for v in 0u32..=0x10FFFF {
        if let Some(c) = char::from_u32(v) {
            assert_eq!(is_white_space_char(c), c.is_whitespace(), "U+{:04X}", v);
        }
    }
}

#[test]
fn blank_agrees_with_trim() {
    for text in ["", "  ", "\u{85}\u{2028}", " a ", "\u{feff}"] {
        assert_eq!(all_white_space(&chars_of(text)), text.trim().is_empty(), "{:?}", text);
    }
}

#[test]
fn lines_agree_with_std() {
    let samples = [
        "",
        "\n",
        "a",
        "a\n",
        "a\r\n",
        "a\r",
        "\r\n\r\n",
        "a\n\nb",
        "one\r\ntwo\nthree\r",
        "x\r\r\ny",
        "ünï\ncødé\n",
    ];
    for text in samples {
        let chars = chars_of(text);
        let spans = line_spans(&chars);
        let ours: Vec<String> = spans.iter().map(|&(a, b)| chars[a..b].iter().collect()).collect();
        let theirs: Vec<String> = text.lines().map(String::from).collect();
        assert_eq!(ours, theirs, "{:?}", text);
    }
}

#[test]
fn occurrence_agrees_with_std() {
    let hay = "the quick brown fox";
    let chars = chars_of(hay);
    for pat in ["", "the", "fox", "quick b", "foxes", "x", "brown fox", "q"] {
        let p = chars_of(pat);
        assert_eq!(occurs_within(&chars, 0, chars.len(), &p), hay.contains(pat), "{:?}", pat);
    }
    // Within a window only.
    let p = chars_of("quick");
    assert!(!occurs_within(&chars, 0, 8, &p));
    assert!(occurs_within(&chars, 4, 9, &p));
}
