use writing_helper::models::{writing_models, ModelCatalog, ModelInfo};

fn model(name: &str, size: u32) -> ModelInfo {
    ModelInfo {
        name: name.to_string(),
        display_name: name.to_uppercase(),
        description: format!("about {}", name),
        downloaded: false,
        size_tenths_gb: size,
        writing_focused: true,
    }
}

#[test]
fn builtin_models_are_the_five_writing_models() {
    let models = writing_models();
    let names: Vec<&str> = models.iter().map(|m| m.name.as_str()).collect();
    assert_eq!(names, ["llama3.2", "mistral", "phi3:mini", "gemma:2b", "neural-chat"]);
    assert_eq!(models[0].display_name, "Llama 3.2 (8B)");
    assert_eq!(models[1].description, "Excellent for grammar and style improvements");
    assert_eq!(models[2].size_tenths_gb, 28);
    assert_eq!(models[3].size_tenths_gb, 13);
    assert!(models.iter().all(|m| !m.downloaded && m.writing_focused));
}

#[test]
fn builtin_catalogue_knows_each_model() {
    let catalog = ModelCatalog::from_models(writing_models());
    assert_eq!(catalog.models().len(), 5);
    for name in ["llama3.2", "mistral", "phi3:mini", "gemma:2b", "neural-chat"] {
        assert!(catalog.contains(name));
        assert!(!catalog.is_available(name));
        assert!(catalog.needs_download(name));
    }
    assert!(!catalog.contains("gpt-4"));
    assert!(!catalog.needs_download("gpt-4"));
    assert!(!catalog.is_available("gpt-4"));
}

#[test]
fn later_registration_replaces_earlier() {
    let catalog = ModelCatalog::from_models(vec![model("a", 1), model("b", 2), model("a", 3)]);
    assert_eq!(catalog.models().len(), 2);
    assert_eq!(catalog.get("a").unwrap().size_tenths_gb, 3);
    assert_eq!(catalog.get("b").unwrap().size_tenths_gb, 2);
    assert!(catalog.get("c").is_none());
}

#[test]
fn register_then_look_up() {
    let mut catalog = ModelCatalog::new();
    assert!(!catalog.contains("x"));
    catalog.insert(model("x", 5));
    assert!(catalog.contains("x"));
    assert_eq!(catalog.get("x").unwrap().size_tenths_gb, 5);
    catalog.insert(model("y", 6));
    catalog.insert(model("x", 7));
    assert_eq!(catalog.get("x").unwrap().size_tenths_gb, 7);
    assert_eq!(catalog.get("y").unwrap().size_tenths_gb, 6);
}

#[test]
fn tags_mark_models_downloaded_by_prefix() {
    let mut catalog = ModelCatalog::from_models(writing_models());
    let tags = vec!["llama3.2:latest".to_string(), "phi3:mini".to_string(), "mist".to_string()];
    catalog.mark_downloaded(&tags);
    assert!(catalog.is_available("llama3.2"));
    assert!(catalog.is_available("phi3:mini"));
    assert!(!catalog.is_available("mistral"));
    assert!(catalog.needs_download("mistral"));
    assert!(!catalog.is_available("gemma:2b"));
    // Names and order stay; only the flags change.
    let names: Vec<&str> = catalog.models().iter().map(|m| m.name.as_str()).collect();
    assert_eq!(names, ["llama3.2", "mistral", "phi3:mini", "gemma:2b", "neural-chat"]);
    // Marking again from the same tags changes nothing.
    let before: Vec<bool> = catalog.models().iter().map(|m| m.downloaded).collect();
    catalog.mark_downloaded(&tags);
    let after: Vec<bool> = catalog.models().iter().map(|m| m.downloaded).collect();
    assert_eq!(before, after);
    // An empty tag list marks everything as missing.
    catalog.mark_downloaded(&Vec::new());
    assert!(catalog.models().iter().all(|m| !m.downloaded));
}

#[test]
fn duplicate_copies_every_field() {
    let m = model("q", 9);
    let d = m.duplicate();
    assert_eq!(d.name, m.name);
    assert_eq!(d.display_name, m.display_name);
    assert_eq!(d.description, m.description);
    assert_eq!(d.size_tenths_gb, 9);
}

#[test]
fn tags_reply_marks_downloaded_models() {
    let mut catalog = ModelCatalog::from_models(writing_models());
    let body = r#"{"models": [{"name": "mistral:latest"}, {"name": 3}, {"size": 1}, {"name": "gemma:2b", "size": 2}]}"#;
    assert!(catalog.mark_from_tags_reply(body));
    assert!(catalog.is_available("mistral"));
    assert!(catalog.is_available("gemma:2b"));
    assert!(!catalog.is_available("llama3.2"));
    assert!(catalog.needs_download("phi3:mini"));
}

#[test]
fn tags_reply_without_models_array_changes_nothing() {
    let mut catalog = ModelCatalog::from_models(writing_models());
    assert!(catalog.mark_from_tags_reply(r#"{"models": [{"name": "llama3.2:latest"}]}"#));
    for body in ["not json", r#"{"models": 5}"#, "[]", r#"{"other": []}"#, ""] {
        assert!(!catalog.mark_from_tags_reply(body), "{:?}", body);
        assert!(catalog.is_available("llama3.2"), "{:?}", body);
    }
    // An empty list is a list: nothing is downloaded.
    assert!(catalog.mark_from_tags_reply(r#"{"models": []}"#));
    assert!(!catalog.is_available("llama3.2"));
}
