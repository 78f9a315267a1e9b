use writing_helper::models::{writing_models, ModelCatalog};
use writing_helper::session::{
    encoding_failure_response, front_page, health_status, keeps_serving, plan_step, SocketEvent, Step,
    MISSING_PAGE,
};
use writing_helper::suggestion::AnalysisRequest;

fn ready_catalog() -> ModelCatalog {
    let mut c = ModelCatalog::from_models(writing_models());
    c.mark_downloaded(&vec!["mistral:latest".to_string()]);
    c
}

fn request(text: &str, model: Option<&str>) -> Option<AnalysisRequest> {
    Some(AnalysisRequest { text: text.to_string(), focus: "grammar".to_string(), model: model.map(String::from) })
}

#[test]
fn undecodable_message_is_answered_as_invalid() {
    match plan_step(&ready_catalog(), "mistral", None) {
        Step::Answer(a) => {
            assert!(a.suggestions.is_empty());
            assert_eq!(a.error.as_deref(), Some("Invalid request format"));
        }
        Step::Ask(_) => panic!("asked the model"),
    }
}

#[test]
fn unavailable_model_is_reported() {
    match plan_step(&ready_catalog(), "llama3.2", request("Some text", None)) {
        Step::Answer(a) => assert_eq!(
            a.error.as_deref(),
            Some("Model 'llama3.2' is not available or not downloaded. Try running with --download-model flag.")
        ),
        Step::Ask(_) => panic!("asked the model"),
    }
    match plan_step(&ready_catalog(), "unknown", request("Some text", None)) {
        Step::Answer(a) => assert!(a.error.unwrap().starts_with("Model 'unknown' is not available")),
        Step::Ask(_) => panic!("asked the model"),
    }
}

#[test]
fn blank_text_is_answered_at_once() {
    match plan_step(&ready_catalog(), "mistral", request("  ", None)) {
        Step::Answer(a) => assert_eq!(a.error.as_deref(), Some("Please provide text to analyze")),
        Step::Ask(_) => panic!("asked the model"),
    }
}

#[test]
fn text_goes_to_the_selected_model() {
    // The request names another model; the server's selection decides.
    match plan_step(&ready_catalog(), "mistral", request("Teh text", Some("llama3.2"))) {
        Step::Ask(q) => {
            assert_eq!(q.model, "mistral");
            assert_eq!(q.prompt, "Teh text");
            assert_eq!(q.format.as_deref(), Some("json"));
        }
        Step::Answer(_) => panic!("answered without asking"),
    }
}

#[test]
fn encoding_failure_message() {
    let r = encoding_failure_response();
    assert!(r.suggestions.is_empty());
    assert_eq!(r.error.as_deref(), Some("Internal server error: Failed to serialize response"));
}

#[test]
fn health_is_ok() {
    let h = health_status("0.1.0");
    assert_eq!(h.status, "ok");
    assert_eq!(h.version, "0.1.0");
}

#[test]
fn front_page_or_error_page() {
    assert_eq!(front_page(Some("<p>hi</p>".to_string())), "<p>hi</p>");
    assert_eq!(front_page(None), MISSING_PAGE);
    assert!(MISSING_PAGE.contains("Could not find the index.html file."));
}

#[test]
fn connection_stays_open_only_for_text_and_answers() {
    assert!(keeps_serving(&SocketEvent::TextReceived));
    assert!(keeps_serving(&SocketEvent::Sent));
    assert!(keeps_serving(&SocketEvent::Unencodable));
    assert!(!keeps_serving(&SocketEvent::OtherReceived));
    assert!(!keeps_serving(&SocketEvent::ReceiveFailed));
    assert!(!keeps_serving(&SocketEvent::Closed));
    assert!(!keeps_serving(&SocketEvent::SendFailed));
}
