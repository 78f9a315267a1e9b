use writing_helper::analysis::{
    analysis_from_reply, finish_analysis, interpret_reply, prepare_analysis, system_prompt_for,
    ModelReply, BASE_SYSTEM_PROMPT,
};
use writing_helper::suggestion::{failure_response, TextSuggestion};

/// Decodes an item of the form {"s": "..."} into a hint.
fn decode(item: String) -> Option<TextSuggestion> {
    let v = serde_json::from_str::<serde_json::Value>(&item).ok()?;
    v.get("s")?.as_str().map(hint)
}

fn hint(s: &str) -> TextSuggestion {
    TextSuggestion {
        start: 1,
        end: 4,
        original: "abc".to_string(),
        suggestion: s.to_string(),
        reason: "r".to_string(),
        category: "style".to_string(),
        severity: "optional".to_string(),
    }
}

#[test]
fn system_prompts_per_model() {
    assert_eq!(system_prompt_for("llama3.2"), BASE_SYSTEM_PROMPT);
    assert_eq!(
        system_prompt_for("mistral"),
        format!("{}\n\nYou excel at identifying grammar issues and improving writing style.", BASE_SYSTEM_PROMPT)
    );
    assert_eq!(
        system_prompt_for("phi3:mini"),
        format!("{}\n\nYou are excellent at providing concise and clear improvements to text.", BASE_SYSTEM_PROMPT)
    );
    assert!(BASE_SYSTEM_PROMPT.starts_with("You are a non-generative writing assistant"));
    assert!(BASE_SYSTEM_PROMPT.ends_with("Only output the JSON structure."));
    assert!(BASE_SYSTEM_PROMPT.contains("\n        {\n            \"suggestions\": [\n"));
    assert!(!BASE_SYSTEM_PROMPT.contains("{{"));
}

#[test]
fn blank_text_is_refused_before_asking() {
    let r = prepare_analysis(" \n\t", "mistral").unwrap_err();
    assert!(r.suggestions.is_empty());
    assert_eq!(r.error.as_deref(), Some("Please provide text to analyze"));
    assert!(prepare_analysis("", "mistral").is_err());
}

#[test]
fn text_becomes_a_json_query() {
    let q = prepare_analysis("Teh cat", "phi3:mini").unwrap();
    assert_eq!(q.model, "phi3:mini");
    assert_eq!(q.prompt, "Teh cat");
    assert_eq!(q.system, system_prompt_for("phi3:mini"));
    assert!(!q.stream);
    assert_eq!(q.format.as_deref(), Some("json"));
}

#[test]
fn json_reply_keeps_decoded_hints() {
    let text = r#"{"suggestions": [{"s": "a"}, {"x": 2}, 3, {"s": "b"}]}"#;
    let r = analysis_from_reply(text, decode);
    assert!(r.error.is_none());
    assert_eq!(r.suggestions.len(), 2);
    assert_eq!(r.suggestions[0].suggestion, "a");
    assert_eq!(r.suggestions[1].suggestion, "b");
    assert_eq!(r.suggestions[1].start, 1);
    assert_eq!(r.suggestions[1].end, 4);
}

#[test]
fn items_are_handed_over_as_json_text_in_order() {
    let seen = std::cell::RefCell::new(Vec::new());
    let r = analysis_from_reply(r#"{"suggestions": [1, "two", {"k": [true, null]}]}"#, |item: String| {
        seen.borrow_mut().push(item);
        None
    });
    assert!(r.suggestions.is_empty());
    assert!(r.error.is_none());
    assert_eq!(*seen.borrow(), vec!["1".to_string(), "\"two\"".to_string(), r#"{"k":[true,null]}"#.to_string()]);
}

#[test]
fn json_reply_without_list_is_malformed() {
    // Valid JSON, so the salvage path is not taken even though it mentions a change.
    for text in [r#"{"change": "x: y"}"#, r#"{"suggestions": 5}"#, "[1, 2]", "7"] {
        let r = analysis_from_reply(text, decode);
        assert_eq!(r.error.as_deref(), Some("Failed to parse model response as expected JSON format"), "{:?}", text);
        assert_eq!(r.suggestions.len(), 1);
        assert_eq!(
            r.suggestions[0].reason,
            "The model didn't return properly formatted JSON. Please try a different model."
        );
        assert_eq!(r.suggestions[0].category, "error");
        assert_eq!(r.suggestions[0].severity, "critical");
    }
}

#[test]
fn non_json_reply_is_salvaged() {
    let r = analysis_from_reply("suggestion: change it\nok", decode);
    assert!(r.error.is_none());
    assert_eq!(r.suggestions.len(), 1);
    assert_eq!(r.suggestions[0].suggestion, "suggestion: change it");
    // A reply that is neither JSON nor anything at all.
    let r = analysis_from_reply("   ", decode);
    assert!(r.suggestions.is_empty());
    assert_eq!(r.error.as_deref(), Some("Failed to parse model response"));
    // A reply that is not JSON and holds no hint line.
    let r = analysis_from_reply("plain words", |_item: String| Some(hint("a")));
    assert_eq!(r.suggestions.len(), 1);
    assert_eq!(r.suggestions[0].severity, "info");
}

#[test]
fn interpretation_follows_the_given_verdict() {
    let r = interpret_reply("{}", false, None);
    assert_eq!(r.suggestions[0].severity, "info");
    let r = interpret_reply("not json", true, None);
    assert_eq!(r.suggestions[0].severity, "critical");
}

#[test]
fn exchange_failures() {
    let r = finish_analysis(ModelReply::Unreachable { detail: "connection refused".to_string() }, decode);
    assert!(r.suggestions.is_empty());
    assert_eq!(r.error.as_deref(), Some("Ollama API error: connection refused"));
    let r = finish_analysis(ModelReply::Undecodable, decode);
    assert_eq!(r.error.as_deref(), Some("Failed to parse response from Ollama"));
    let r = finish_analysis(ModelReply::Answered { text: r#"{"suggestions": []}"#.to_string() }, decode);
    assert!(r.suggestions.is_empty());
    assert!(r.error.is_none());
}

#[test]
fn failure_response_has_only_the_message() {
    let r = failure_response("boom");
    assert!(r.suggestions.is_empty());
    assert_eq!(r.error.as_deref(), Some("boom"));
}
