use diaspor_vfs::models::{
    filter_by_category, InMemoryModelRegistry, ModelCategory, ModelManager, ModelMetadata,
    ModelProviderSlot, OllamaModelProvider,
};

fn model(id: &str, category: ModelCategory) -> ModelMetadata {
    ModelMetadata {
        id: id.to_string(),
        name: id.to_uppercase(),
        category,
        size_bytes: 1,
        description: None,
        provider: "ollama".to_string(),
        version: None,
        is_installed: false,
        is_running: false,
        local_path: None,
        dependencies: Vec::new(),
        supported_languages: Vec::new(),
        capabilities: Vec::new(),
    }
}

#[test]
fn registry_register_get_update_unregister() {
    let mut r = InMemoryModelRegistry::new();
    assert!(r.get_model("a").is_none());
    r.register_model(model("a", ModelCategory::Embedding));
    r.register_model(model("b", ModelCategory::Other));
    assert_eq!(r.get_model("a").unwrap().category, ModelCategory::Embedding);
    let mut a2 = model("a", ModelCategory::CodeGeneration);
    a2.size_bytes = 99;
    r.update_model(a2);
    let a = r.get_model("a").unwrap();
    assert_eq!(a.category, ModelCategory::CodeGeneration);
    assert_eq!(a.size_bytes, 99);
    assert_eq!(r.list_models().len(), 2);
    r.unregister_model("a");
    assert!(r.get_model("a").is_none());
    assert_eq!(r.get_model("b").unwrap().name, "B");
    r.unregister_model("missing");
    assert_eq!(r.list_models().len(), 1);
}

#[test]
fn default_catalog() {
    let r = InMemoryModelRegistry::with_defaults();
    let w = r.get_model("whisper").unwrap();
    assert_eq!(w.name, "Whisper");
    assert_eq!(w.category, ModelCategory::Transcription);
    assert_eq!(w.supported_languages.len(), 9);
    assert_eq!(w.capabilities, vec!["transcription", "audio-to-text"]);
    assert_eq!(w.dependencies, vec!["ollama"]);
    assert!(!w.is_installed);
    let wl = r.get_model("whisper-large").unwrap();
    assert_eq!(wl.capabilities.len(), 3);
    let v = r.get_model("video-tagger").unwrap();
    assert_eq!(v.category, ModelCategory::VideoTagging);
    assert_eq!(v.supported_languages, vec!["en"]);
    assert!(r.get_model("llama3").is_none());
    assert_eq!(r.list_models().len(), 3);
}

#[test]
fn categories_from_names() {
    assert_eq!(OllamaModelProvider::infer_category("whisper:base"), ModelCategory::Transcription);
    assert_eq!(OllamaModelProvider::infer_category("video-llava"), ModelCategory::VideoTagging);
    assert_eq!(OllamaModelProvider::infer_category("Vision-Pro"), ModelCategory::ImageTagging);
    assert_eq!(OllamaModelProvider::infer_category("deepseek-coder"), ModelCategory::CodeGeneration);
    assert_eq!(OllamaModelProvider::infer_category("nomic-embed-text"), ModelCategory::Embedding);
    assert_eq!(OllamaModelProvider::infer_category("llama3"), ModelCategory::TextGeneration);
    assert_eq!(OllamaModelProvider::infer_category("phi"), ModelCategory::Other);
}

#[test]
fn listed_models_get_records() {
    let p = OllamaModelProvider::new(InMemoryModelRegistry::with_defaults());
    assert_eq!(p.provider_name(), "ollama");
    let known = p.listing_record("whisper", 1234);
    assert_eq!(known.name, "Whisper");
    assert_eq!(known.size_bytes, 1234);
    assert!(known.is_installed);
    let fresh = p.listing_record("mistral:7b", 55);
    assert_eq!(fresh.id, "mistral:7b");
    assert_eq!(fresh.category, ModelCategory::TextGeneration);
    assert_eq!(fresh.provider, "ollama");
    assert_eq!(fresh.dependencies, vec!["ollama"]);
    assert!(fresh.is_installed && !fresh.is_running);
}

#[test]
fn manager_and_category_filter() {
    let mut m = ModelManager::new(InMemoryModelRegistry::new());
    m.add_provider(ModelProviderSlot::External { name: "hf".to_string() });
    assert_eq!(m.providers().len(), 2);
    assert!(matches!(m.providers()[0], ModelProviderSlot::Ollama(_)));
    let all = vec![
        model("a", ModelCategory::Embedding),
        model("b", ModelCategory::Other),
        model("c", ModelCategory::Embedding),
    ];
    let e = filter_by_category(all, ModelCategory::Embedding);
    assert_eq!(e.iter().map(|m| m.id.clone()).collect::<Vec<_>>(), vec!["a", "c"]);
}

#[test]
fn all_models_come_from_the_available_providers_in_order() {
    let listings = vec![
        Some(Ok(vec![model("a", ModelCategory::Transcription), model("b", ModelCategory::TextGeneration)])),
        None,
        Some(Err("connection refused".to_string())),
        Some(Ok(vec![model("c", ModelCategory::TextGeneration)])),
    ];
    let all = ModelManager::list_all_models(listings);
    let ids: Vec<String> = all.into_iter().map(|m| m.id).collect();
    assert_eq!(ids, vec!["a", "b", "c"]);
    assert!(ModelManager::list_all_models(Vec::new()).is_empty());
}
