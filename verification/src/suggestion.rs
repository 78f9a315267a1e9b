//! The values exchanged with the browser: analysis requests, writing hints,
//! and analysis responses, each with its mathematical view.
use vstd::prelude::*;

verus! {

/// A request to analyse a text, as the browser sends it.
#[derive(Clone, Debug)]
pub struct AnalysisRequest {
    pub text: String,
    /// What the hints should concentrate on, such as "grammar"; required in a
    /// request, and not consulted by the analysis.
    pub focus: String,
    pub model: Option<String>,
}

/// One writing hint about a span of the analysed text.
#[derive(Clone, Debug)]
pub struct TextSuggestion {
    pub start: usize,
    pub end: usize,
    pub original: String,
    pub suggestion: String,
    pub reason: String,
    /// "grammar", "flow", "clarity", ...
    pub category: String,
    /// "critical", "suggestion", "optional", ...
    pub severity: String,
}

/// The view of a [`TextSuggestion`]: its positions and its texts as character sequences.
#[verifier::ext_equal]
pub struct SuggestionView {
    pub start: usize,
    pub end: usize,
    pub original: Seq<char>,
    pub suggestion: Seq<char>,
    pub reason: Seq<char>,
    pub category: Seq<char>,
    pub severity: Seq<char>,
}

impl View for TextSuggestion {
    type V = SuggestionView;

    open spec fn view(&self) -> SuggestionView {
        SuggestionView {
            start: self.start,
            end: self.end,
            original: self.original@,
            suggestion: self.suggestion@,
            reason: self.reason@,
            category: self.category@,
            severity: self.severity@,
        }
    }
}

/// The views of a sequence of hints.
pub open spec fn views_of(hints: Seq<TextSuggestion>) -> Seq<SuggestionView> {
    hints.map_values(|h: TextSuggestion| h@)
}

/// The answer to one analysis request: the hints found, and an error message
/// when something went wrong.
#[derive(Clone, Debug)]
pub struct AnalysisResponse {
    pub suggestions: Vec<TextSuggestion>,
    pub error: Option<String>,
}

/// The view of an [`AnalysisResponse`].
#[verifier::ext_equal]
pub struct AnalysisView {
    pub suggestions: Seq<SuggestionView>,
    pub error: Option<Seq<char>>,
}

impl View for AnalysisResponse {
    type V = AnalysisView;

    open spec fn view(&self) -> AnalysisView {
        AnalysisView {
            suggestions: views_of(self.suggestions@),
            error: match self.error {
                Some(e) => Some(e@),
                None => None,
            },
        }
    }
}

/// A response that carries no hints, only the error message `message`.
pub open spec fn failure_view(message: Seq<char>) -> AnalysisView {
    AnalysisView { suggestions: Seq::empty(), error: Some(message) }
}

/// A response that carries the given hints and no error.
pub open spec fn success_view(hints: Seq<SuggestionView>) -> AnalysisView {
    AnalysisView { suggestions: hints, error: None }
}

/// A response that carries no hints, only the error message `message`.
pub fn failure_response(message: &str) -> (r: AnalysisResponse)
    ensures
        r@ == failure_view(message@),
{
    let r = AnalysisResponse { suggestions: Vec::new(), error: Some(message.to_owned()) };
    assert(views_of(r.suggestions@) =~= Seq::<SuggestionView>::empty());
    r
}

} // verus!
