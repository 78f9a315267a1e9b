//! Asking a local model for writing hints, and turning its reply into an
//! analysis response.
use vstd::prelude::*;
use vstd::string::StringExecFns;
use crate::suggestion::{
    AnalysisResponse, AnalysisView, SuggestionView, TextSuggestion, failure_response, failure_view,
    success_view, views_of,
};
use crate::fallback::{extract_fallback_suggestions, fallback_views};
use crate::text::{is_blank, chars_of, all_white_space};

verus! {

/// The instructions that every model receives with the text to analyse.
pub const BASE_SYSTEM_PROMPT: &'static str = "You are a non-generative writing assistant designed to provide helpful HINTS and GUIDANCE, not direct corrections.
        Your task is to analyze the text and identify specific areas where the user might consider improvements.
        Provide balanced feedback on grammar, clarity, flow, word-choice, and style.
        
        CRITICAL RULE: NEVER provide a direct replacement or rewrite of the user's text in the 'suggestion' field. Instead, offer a hint, question, or guidance.
        
        For each area you identify:
        1. Pinpoint the exact text span (`original`) that the hint relates to (using `start` and `end` character positions).
        2. In the `suggestion` field, provide a HINT or QUESTION that prompts the user to think about the identified span. Examples: 'Consider if this word choice is the most effective.', 'Is there a more concise way to phrase this?', 'Check punctuation here.', 'Does this sentence flow well with the previous one?'.
        3. Provide a brief `reason` explaining *why* this area might warrant attention (e.g., 'Potential ambiguity', 'Wordiness', 'Possible grammatical error').
        4. Assign a `category` (grammar, clarity, flow, word-choice, or style).
        5. Assign a `severity` level (critical, suggestion, or optional).
        
        Format your response STRICTLY as a JSON array of suggestion objects, following this exact structure:
        {
            \"suggestions\": [
                {
                    \"start\": 12,
                    \"end\": 18,
                    \"original\": \"melody\",
                    \"suggestion\": \"Consider using a different word instead of 'melody'.\",
                    \"reason\": \"'Melody' might not fit the context of a forest floor.\",
                    \"category\": \"word-choice\",
                    \"severity\": \"suggestion\"
                },
                // ... more hints if applicable
            ]
        }
        Ensure the output is valid JSON. Only output the JSON structure.";

/// What the mistral model is told in addition.
pub const MISTRAL_PROMPT_NOTE: &'static str = "\n\nYou excel at identifying grammar issues and improving writing style.";

/// What the phi3:mini model is told in addition.
pub const PHI3_MINI_PROMPT_NOTE: &'static str = "\n\nYou are excellent at providing concise and clear improvements to text.";

/// The system prompt given to the model named `model`.
pub open spec fn system_prompt_text(model: Seq<char>) -> Seq<char> {
    if model == "mistral"@ {
        BASE_SYSTEM_PROMPT@ + MISTRAL_PROMPT_NOTE@
    } else if model == "phi3:mini"@ {
        BASE_SYSTEM_PROMPT@ + PHI3_MINI_PROMPT_NOTE@
    } else {
        BASE_SYSTEM_PROMPT@
    }
}

/// The system prompt given to the model named `model`.
pub fn system_prompt_for(model: &str) -> (r: String)
    ensures
        r@ == system_prompt_text(model@),
{
    let name = model.to_owned();
    let base = BASE_SYSTEM_PROMPT.to_owned();
    if name == "mistral".to_owned() {
        base.concat(MISTRAL_PROMPT_NOTE)
    } else if name == "phi3:mini".to_owned() {
        base.concat(PHI3_MINI_PROMPT_NOTE)
    } else {
        base
    }
}

/// A generation request for the model: everything but the sampling
/// temperature, which the caller adds.
#[derive(Clone, Debug)]
pub struct ModelQuery {
    pub model: String,
    pub prompt: String,
    pub system: String,
    pub stream: bool,
    pub format: Option<String>,
}

/// The message given for a text that holds nothing but whitespace.
pub open spec fn empty_text_message() -> Seq<char> {
    "Please provide text to analyze"@
}

/// `query` asks the model named `model` for hints on `text`, with the system
/// prompt for that model, without streaming, in JSON format.
pub open spec fn query_for(query: ModelQuery, text: Seq<char>, model: Seq<char>) -> bool {
    &&& query.model@ == model
    &&& query.prompt@ == text
    &&& query.system@ == system_prompt_text(model)
    &&& !query.stream
    &&& query.format matches Some(f) && f@ == "json"@
}

/// The request to send to the model named `model` for the text `text`, or
/// the response to give at once when the text is blank.
pub fn prepare_analysis(text: &str, model: &str) -> (r: Result<ModelQuery, AnalysisResponse>)
    ensures
        r is Err <==> is_blank(text@),
        r matches Err(e) ==> e@ == failure_view(empty_text_message()),
        r matches Ok(q) ==> query_for(q, text@, model@),
        r matches Ok(q) ==> q.prompt@ == text@ && q.model@ == model@,
{
    let chars = chars_of(text);
    if all_white_space(&chars) {
        return Err(failure_response("Please provide text to analyze"));
    }
    Ok(
        ModelQuery {
            model: model.to_owned(),
            prompt: text.to_owned(),
            system: system_prompt_for(model),
            stream: false,
            format: Some("json".to_owned()),
        },
    )
}

/// How serde_json reads a model reply `reply`: absent when it does not accept
/// `reply` as a JSON value; otherwise the JSON text of each item of the
/// value's "suggestions" array, absent when there is no such array.
pub uninterp spec fn reply_suggestion_items(reply: Seq<char>) -> Option<Option<Seq<Seq<char>>>>;

/// The views of a list of item texts.
pub open spec fn item_texts(items: Seq<String>) -> Seq<Seq<char>> {
    items.map_values(|s: String| s@)
}

/// Parses `reply` with `serde_json::from_str::<serde_json::Value>`, then
/// takes `get("suggestions")` and `as_array`, and writes each item back as
/// JSON text with `to_string`. Claimed: the result depends on `reply` alone
/// (named `reply_suggestion_items`); what the parser accepts and how it
/// writes an item is left unsaid.
#[verifier::external_body]
fn read_suggestion_items(reply: &str) -> (r: Option<Option<Vec<String>>>)
    ensures
        (match r {
            Some(Some(v)) => Some(Some(item_texts(v@))),
            Some(None) => Some(None),
            None => None,
        }) == reply_suggestion_items(reply@),
{
    let json = serde_json::from_str::<serde_json::Value>(reply).ok()?;
    let items = json.get("suggestions").and_then(|v| v.as_array());
    Some(items.map(|items| items.iter().map(|item| item.to_string()).collect()))
}

/// The hints among `items` that could be decoded, in order.
pub open spec fn kept_hints(items: Seq<Option<SuggestionView>>) -> Seq<SuggestionView>
    decreases items.len(),
{
    if items.len() == 0 {
        Seq::empty()
    } else {
        let rest = kept_hints(items.drop_last());
        match items.last() {
            Some(h) => rest.push(h),
            None => rest,
        }
    }
}

/// The views of decoded array items.
pub open spec fn item_views(items: Seq<Option<TextSuggestion>>) -> Seq<Option<SuggestionView>> {
    items.map_values(
        |o: Option<TextSuggestion>|
            match o {
                Some(h) => Some(h@),
                None => None,
            },
    )
}

/// The views of the decoded "suggestions" array, if there is one.
pub open spec fn listed_views(listed: Option<Vec<Option<TextSuggestion>>>) -> Option<
    Seq<Option<SuggestionView>>,
> {
    match listed {
        Some(items) => Some(item_views(items@)),
        None => None,
    }
}

/// The notice given when a reply is JSON but holds no "suggestions" array.
pub open spec fn malformed_view() -> SuggestionView {
    SuggestionView {
        start: 0,
        end: 0,
        original: Seq::empty(),
        suggestion: Seq::empty(),
        reason: "The model didn't return properly formatted JSON. Please try a different model."@,
        category: "error"@,
        severity: "critical"@,
    }
}

/// The analysis that a model reply yields, given whether it is JSON
/// (`is_json`) and the items of its "suggestions" array, each decoded as a
/// hint or not (`listed`, absent when there is no such array).
pub open spec fn reply_view(
    text: Seq<char>,
    is_json: bool,
    listed: Option<Seq<Option<SuggestionView>>>,
) -> AnalysisView {
    if is_json {
        match listed {
            Some(items) => success_view(kept_hints(items)),
            None => AnalysisView {
                suggestions: seq![malformed_view()],
                error: Some("Failed to parse model response as expected JSON format"@),
            },
        }
    } else {
        let salvaged = fallback_views(text);
        if salvaged.len() > 0 {
            success_view(salvaged)
        } else {
            failure_view("Failed to parse model response"@)
        }
    }
}

fn malformed_notice() -> (r: TextSuggestion)
    ensures
        r@ == malformed_view(),
{
    TextSuggestion {
        start: 0,
        end: 0,
        original: String::new(),
        suggestion: String::new(),
        reason: "The model didn't return properly formatted JSON. Please try a different model.".to_owned(),
        category: "error".to_owned(),
        severity: "critical".to_owned(),
    }
}

/// The decoded hints among `items`, in order.
fn keep_decoded(items: Vec<Option<TextSuggestion>>) -> (r: Vec<TextSuggestion>)
    ensures
        views_of(r@) == kept_hints(item_views(items@)),
{
    let ghost all = item_views(items@);
    let mut rest = items;
    let mut reversed: Vec<Option<TextSuggestion>> = Vec::new();
    let n = rest.len();
    while rest.len() > 0
        invariant
            rest@.len() + reversed@.len() == n,
            all.len() == n,
            forall|j: int| 0 <= j < rest@.len() ==> #[trigger] item_views(rest@)[j] == all[j],
            forall|j: int|
                0 <= j < reversed@.len() ==> #[trigger] item_views(reversed@)[j] == all[n - 1 - j],
        decreases rest.len(),
    {
        let ghost before_rest = rest@;
        let ghost before_rev = reversed@;
        let item = rest.pop().unwrap();
        reversed.push(item);
        assert forall|j: int| 0 <= j < rest@.len() implies #[trigger] item_views(rest@)[j]
            == all[j] by {
            assert(rest@[j] == before_rest[j]);
            assert(item_views(before_rest)[j] == all[j]);
        }
        assert forall|j: int| 0 <= j < reversed@.len() implies #[trigger] item_views(reversed@)[j]
            == all[n - 1 - j] by {
            if j < before_rev.len() {
                assert(reversed@[j] == before_rev[j]);
                assert(item_views(before_rev)[j] == all[n - 1 - j]);
            } else {
                assert(item_views(before_rest)[before_rest.len() - 1] == all[n - 1 - j]);
            }
        }
    }
    let mut out: Vec<TextSuggestion> = Vec::new();
    let mut k: usize = 0;
    while reversed.len() > 0
        invariant
            k + reversed@.len() == n,
            all.len() == n,
            forall|j: int|
                0 <= j < reversed@.len() ==> #[trigger] item_views(reversed@)[j] == all[n - 1 - j],
            views_of(out@) == kept_hints(all.take(k as int)),
        decreases reversed.len(),
    {
        let ghost before_rev = reversed@;
        let ghost before_out = out@;
        let item = reversed.pop().unwrap();
        assert(item_views(before_rev)[before_rev.len() - 1] == all[k as int]);
        assert(all.take(k + 1).drop_last() =~= all.take(k as int));
        match item {
            Some(h) => {
                out.push(h);
                assert(views_of(out@) =~= views_of(before_out).push(all[k as int]->Some_0));
            },
            None => {},
        }
        assert forall|j: int| 0 <= j < reversed@.len() implies #[trigger] item_views(reversed@)[j]
            == all[n - 1 - j] by {
            assert(reversed@[j] == before_rev[j]);
            assert(item_views(before_rev)[j] == all[n - 1 - j]);
        }
        k += 1;
    }
    assert(all.take(n as int) =~= all);
    out
}

/// The analysis that a model reply yields, given whether the reply is JSON
/// (`is_json`) and the items of its "suggestions" array (`listed`).
pub fn interpret_reply(
    text: &str,
    is_json: bool,
    listed: Option<Vec<Option<TextSuggestion>>>,
) -> (r: AnalysisResponse)
    ensures
        r@ == reply_view(text@, is_json, listed_views(listed)),
{
    if is_json {
        match listed {
            Some(items) => AnalysisResponse { suggestions: keep_decoded(items), error: None },
            None => {
                let mut notes: Vec<TextSuggestion> = Vec::new();
                notes.push(malformed_notice());
                let r = AnalysisResponse {
                    suggestions: notes,
                    error: Some("Failed to parse model response as expected JSON format".to_owned()),
                };
                assert(views_of(r.suggestions@) =~= seq![malformed_view()]);
                r
            },
        }
    } else {
        let salvaged = extract_fallback_suggestions(text);
        if salvaged.len() > 0 {
            AnalysisResponse { suggestions: salvaged, error: None }
        } else {
            failure_response("Failed to parse model response")
        }
    }
}

/// `decode` was called on the texts `items` in order, with the arguments
/// `args`, and returned `outs`.
pub open spec fn decoded_in_order<F: Fn(String) -> Option<TextSuggestion>>(
    decode: F,
    items: Seq<Seq<char>>,
    args: Seq<String>,
    outs: Seq<Option<TextSuggestion>>,
) -> bool {
    &&& args.len() == items.len()
    &&& outs.len() == items.len()
    &&& forall|i: int|
        0 <= i < items.len() ==> #[trigger] args[i]@ == items[i] && call_ensures(
            decode,
            (args[i],),
            outs[i],
        )
}

/// `r` is the analysis of the model reply `reply` when `decode` turns the JSON
/// text of one item of its "suggestions" array into a hint: the salvaged
/// hints when the reply is no JSON, the malformed-reply notice when it is JSON
/// without such an array, and otherwise the hints that `decode` returns for
/// the items, in order, those it returns none for left out.
pub open spec fn reply_analysis<F: Fn(String) -> Option<TextSuggestion>>(
    decode: F,
    reply: Seq<char>,
    r: AnalysisView,
) -> bool {
    match reply_suggestion_items(reply) {
        None => r == reply_view(reply, false, None),
        Some(None) => r == reply_view(reply, true, None),
        Some(Some(items)) => exists|args: Seq<String>, outs: Seq<Option<TextSuggestion>>|
            #[trigger] decoded_in_order(decode, items, args, outs) && r == reply_view(
                reply,
                true,
                Some(item_views(outs)),
            ),
    }
}

/// The analysis that the model's reply `reply` yields, `decode` being what
/// turns the JSON text of one item of its "suggestions" array into a hint
/// (None when the item is no hint). `decode` may be any function without a
/// precondition.
pub fn analysis_from_reply<F: Fn(String) -> Option<TextSuggestion>>(
    reply: &str,
    decode: F,
) -> (r: AnalysisResponse)
    requires
        forall|s: String| #[trigger] decode.requires((s,)),
    ensures
        reply_analysis(decode, reply@, r@),
{
    match read_suggestion_items(reply) {
        None => interpret_reply(reply, false, None),
        Some(None) => interpret_reply(reply, true, None),
        Some(Some(items)) => {
            let ghost texts = item_texts(items@);
            let mut decoded: Vec<Option<TextSuggestion>> = Vec::new();
            let ghost mut args: Seq<String> = Seq::empty();
            let mut i: usize = 0;
            while i < items.len()
                invariant
                    i <= items@.len(),
                    texts == item_texts(items@),
                    forall|s: String| #[trigger] decode.requires((s,)),
                    decoded_in_order(decode, texts.take(i as int), args, decoded@),
                decreases items.len() - i,
            {
                let arg = items[i].clone();
                let out = decode(arg);
                proof {
                    args = args.push(arg);
                }
                decoded.push(out);
                assert forall|j: int| 0 <= j < i + 1 implies #[trigger] args[j]@ == texts.take(
                    i + 1,
                )[j] && call_ensures(decode, (args[j],), decoded@[j]) by {
                    if j < i {
                        assert(texts.take(i as int)[j] == texts.take(i + 1)[j]);
                    }
                }
                i += 1;
            }
            assert(texts.take(items@.len() as int) =~= texts);
            let ghost outs = decoded@;
            let r = interpret_reply(reply, true, Some(decoded));
            assert(listed_views(Some(decoded)) == Some(item_views(outs)));
            assert(reply_suggestion_items(reply@)->Some_0->Some_0 == texts);
            assert(decoded_in_order(
                decode,
                reply_suggestion_items(reply@)->Some_0->Some_0,
                args,
                outs,
            ));
            r
        },
    }
}

/// How the exchange with the model ended.
pub enum ModelReply {
    /// The request did not reach Ollama or failed there; `detail` describes the error.
    Unreachable { detail: String },
    /// Ollama answered, but its answer could not be decoded.
    Undecodable,
    /// The model replied with `text`.
    Answered { text: String },
}

/// `r` is the analysis that an exchange with the model yields, `decode` being
/// what turns one item of the reply's "suggestions" array into a hint.
pub open spec fn outcome_analysis<F: Fn(String) -> Option<TextSuggestion>>(
    decode: F,
    reply: ModelReply,
    r: AnalysisView,
) -> bool {
    match reply {
        ModelReply::Unreachable { detail } => r == failure_view("Ollama API error: "@ + detail@),
        ModelReply::Undecodable => r == failure_view("Failed to parse response from Ollama"@),
        ModelReply::Answered { text } => reply_analysis(decode, text@, r),
    }
}

/// The analysis that an exchange with the model yields, `decode` being what
/// turns the JSON text of one item of the reply's "suggestions" array into a
/// hint. `decode` may be any function without a precondition.
pub fn finish_analysis<F: Fn(String) -> Option<TextSuggestion>>(
    reply: ModelReply,
    decode: F,
) -> (r: AnalysisResponse)
    requires
        forall|s: String| #[trigger] decode.requires((s,)),
    ensures
        outcome_analysis(decode, reply, r@),
{
    match reply {
        ModelReply::Unreachable { detail } => {
            let message = "Ollama API error: ".to_owned().concat(detail.as_str());
            let r = AnalysisResponse { suggestions: Vec::new(), error: Some(message) };
            assert(views_of(r.suggestions@) =~= Seq::<SuggestionView>::empty());
            r
        },
        ModelReply::Undecodable => failure_response("Failed to parse response from Ollama"),
        ModelReply::Answered { text } => analysis_from_reply(text.as_str(), decode),
    }
}

} // verus!
