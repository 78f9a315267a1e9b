//! What the server does with each message of a browser session, the health
//! report, and the page it serves.
use vstd::prelude::*;
use vstd::string::StringExecFns;
use crate::suggestion::{
    AnalysisRequest, AnalysisResponse, SuggestionView, failure_response, failure_view, views_of,
};
use crate::analysis::{ModelQuery, prepare_analysis, empty_text_message, query_for};
use crate::models::ModelCatalog;
use crate::text::is_blank;

verus! {

/// The next thing to do with a browser message.
pub enum Step {
    /// Send this request to the model, then answer with what it yields.
    Ask(ModelQuery),
    /// Answer at once with this response.
    Answer(AnalysisResponse),
}

/// The message given when the selected model cannot answer.
pub open spec fn unavailable_message(model: Seq<char>) -> Seq<char> {
    "Model '"@ + model + "' is not available or not downloaded. Try running with --download-model flag."@
}

/// The message given for a browser message that is no analysis request.
pub open spec fn invalid_request_message() -> Seq<char> {
    "Invalid request format"@
}

/// What to do with a browser message, `request` being its decoding (absent
/// when it could not be decoded), when the server runs with the model named
/// `selected`. The model named in the request is not consulted: the server
/// always uses its selected model.
pub fn plan_step(
    catalog: &ModelCatalog,
    selected: &str,
    request: Option<AnalysisRequest>,
) -> (r: Step)
    ensures
        match request {
            None => r matches Step::Answer(a) && a@ == failure_view(invalid_request_message()),
            Some(req) => if !(catalog@.dom().contains(selected@) && catalog@[selected@].downloaded) {
                r matches Step::Answer(a) && a@ == failure_view(unavailable_message(selected@))
            } else if is_blank(req.text@) {
                r matches Step::Answer(a) && a@ == failure_view(empty_text_message())
            } else {
                r matches Step::Ask(q) && query_for(q, req.text@, selected@) && q.prompt@
                    == req.text@ && q.model@ == selected@
            },
        },
{
    match request {
        None => Step::Answer(failure_response("Invalid request format")),
        Some(req) => {
            if !catalog.is_available(selected) {
                let message = "Model '".to_owned().concat(selected).concat(
                    "' is not available or not downloaded. Try running with --download-model flag.",
                );
                let a = AnalysisResponse { suggestions: Vec::new(), error: Some(message) };
                assert(views_of(a.suggestions@) =~= Seq::<SuggestionView>::empty());
                Step::Answer(a)
            } else {
                match prepare_analysis(req.text.as_str(), selected) {
                    Ok(q) => Step::Ask(q),
                    Err(a) => Step::Answer(a),
                }
            }
        },
    }
}

/// What happened on a browser connection.
pub enum SocketEvent {
    /// A text message arrived.
    TextReceived,
    /// A message of another kind arrived.
    OtherReceived,
    /// Receiving failed.
    ReceiveFailed,
    /// The connection ended.
    Closed,
    /// The answer to a message was sent.
    Sent,
    /// Sending the answer failed.
    SendFailed,
    /// Not even the error response could be encoded, so nothing was sent.
    Unencodable,
}

/// Whether the server goes on serving a browser connection after `event`:
/// it handles text messages and goes on after each answer, or after an
/// answer it could not encode; anything else ends the connection.
pub fn keeps_serving(event: &SocketEvent) -> (r: bool)
    ensures
        r == (event is TextReceived || event is Sent || event is Unencodable),
{
    match event {
        SocketEvent::TextReceived => true,
        SocketEvent::Sent => true,
        SocketEvent::Unencodable => true,
        SocketEvent::OtherReceived => false,
        SocketEvent::ReceiveFailed => false,
        SocketEvent::Closed => false,
        SocketEvent::SendFailed => false,
    }
}

/// The response sent when an analysis response could not be encoded.
pub fn encoding_failure_response() -> (r: AnalysisResponse)
    ensures
        r@ == failure_view("Internal server error: Failed to serialize response"@),
{
    failure_response("Internal server error: Failed to serialize response")
}

/// The health report of the server.
#[derive(Clone, Debug)]
pub struct HealthStatus {
    pub status: String,
    pub version: String,
}

/// The health report of a server of version `version`: always "ok".
pub fn health_status(version: &str) -> (r: HealthStatus)
    ensures
        r.status@ == "ok"@,
        r.version@ == version@,
{
    HealthStatus { status: "ok".to_owned(), version: version.to_owned() }
}

/// The page shown when the front page cannot be read.
pub const MISSING_PAGE: &'static str = "<html><body><h1>Error loading page</h1><p>Could not find the index.html file.</p></body></html>";

/// The front page: its content when it could be read, else a short error page.
pub fn front_page(content: Option<String>) -> (r: String)
    ensures
        r@ == match content {
            Some(c) => c@,
            None => MISSING_PAGE@,
        },
{
    match content {
        Some(c) => c,
        None => MISSING_PAGE.to_owned(),
    }
}

} // verus!
