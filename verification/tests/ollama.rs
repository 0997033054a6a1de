use diaspor_vfs::ollama::{StreamChunk, StreamStep, TranscriptStream};
use diaspor_vfs::ollama::{
    list_items_of, parse_tags, parse_vision_text, split_stream_buffer, transcription_request,
    vision_request, OllamaClient, OllamaModel, VisionTask,
};

#[test]
fn client_addresses_and_endpoints() {
    let c = OllamaClient::new(None);
    assert_eq!(c.base_url(), "http://localhost:11434");
    assert_eq!(c.timeout_secs(), 300);
    let c = OllamaClient::new(Some("http://gpu-box:11434//".to_string()));
    assert_eq!(c.base_url(), "http://gpu-box:11434");
    assert_eq!(c.endpoint("/api/tags"), "http://gpu-box:11434/api/tags");
}

#[test]
fn model_kinds_by_name() {
    assert!(OllamaClient::is_transcription_model("Whisper-Large"));
    assert!(OllamaClient::is_transcription_model("audio-net"));
    assert!(!OllamaClient::is_transcription_model("llama3"));
    assert!(OllamaClient::is_vision_model("LLaVA:13b"));
    assert!(OllamaClient::is_vision_model("moondream"));
    assert!(!OllamaClient::is_vision_model("mistral"));
}

#[test]
fn structured_vision_answers_are_parsed() {
    let c = OllamaClient::new(None);
    let r = c.parse_vision_response(
        "DESCRIPTION: A dog on a beach.\nTAGS: Dog, Beach, , sunny day\nOBJECTS: dog, ball\nSCENE: Outdoor\n",
    );
    assert_eq!(r.description, "A dog on a beach.");
    assert_eq!(r.tags, vec!["dog", "beach", "sunny day", "ball", "outdoor"]);
    assert_eq!(r.objects, vec!["dog", "ball"]);
    assert_eq!(r.scene.as_deref(), Some("outdoor"));
}

#[test]
fn unstructured_vision_answers_fall_back() {
    let r = parse_vision_text("Dog, cat\nsome long sentence with many words here. end");
    assert_eq!(r.tags, vec!["dog", "cat"]);
    assert_eq!(r.description, "Dog, cat\nsome long sentence with many words here");
    assert!(r.objects.is_empty());
    assert!(r.scene.is_none());
}

#[test]
fn long_tags_are_dropped() {
    let long = "x".repeat(60);
    let text = format!("TAGS: ok, {}\n", long);
    let r = parse_vision_text(&text);
    assert_eq!(r.tags, vec!["ok"]);
    assert_eq!(r.description, "");
}

#[test]
fn list_items_are_cleaned() {
    assert_eq!(list_items_of("a, B ,,c", Some(50)), vec!["a", "b", "c"]);
    assert_eq!(list_items_of("abc, de", Some(3)), vec!["de"]);
    assert!(list_items_of("", None).is_empty());
}

#[test]
fn stream_buffers_keep_partial_lines() {
    let (lines, rest) = split_stream_buffer("l1\nl2\npart");
    assert_eq!(lines, vec!["l1", "l2"]);
    assert_eq!(rest, "part");
    let (lines, rest) = split_stream_buffer("l1\n");
    assert_eq!(lines, vec!["l1"]);
    assert_eq!(rest, "");
}

#[test]
fn vision_and_transcription_requests() {
    let r = vision_request(VisionTask::Tags, "llava", &[1, 2, 3]);
    assert_eq!(r.model, "llava");
    assert_eq!(r.images, vec!["AQID"]);
    assert!(!r.stream);
    assert_eq!(r.num_predict, 200);
    assert!(r.prompt.starts_with("List 5-10 relevant tags for organizing this image in a file manager. Return only"));
    let a = vision_request(VisionTask::Analysis, "llava", b"hi");
    assert_eq!(a.images, vec!["aGk="]);
    assert_eq!(a.num_predict, 500);
    assert!(a.prompt.ends_with("OBJECTS: [object1], [object2], ...\nSCENE: [scene type]"));
    let t = transcription_request("whisper", b"hi", Some("en".to_string()), true);
    assert_eq!(t.prompt, "data:audio/wav;base64,aGk=");
    assert!(t.stream);
    assert_eq!(t.language.as_deref(), Some("en"));
}

#[test]
fn tag_answers_are_split_and_cleaned() {
    assert_eq!(parse_tags(" Nature, SUNSET ,, beach"), vec!["nature", "sunset", "beach"]);
    let long = format!("ok,{}", "y".repeat(50));
    assert_eq!(parse_tags(&long), vec!["ok"]);
}

fn model(name: &str) -> OllamaModel {
    OllamaModel {
        name: name.to_string(),
        model: name.to_string(),
        size: 1,
        digest: "d".to_string(),
        modified_at: "2024-01-01T00:00:00Z".to_string(),
    }
}

#[test]
fn listed_models_are_sorted_out_by_what_they_do() {
    let listed = vec![model("llama3"), model("Whisper:base"), model("llava:7b"), model("audio-x"), model("my-Vision")];
    let names = |v: Vec<OllamaModel>| v.into_iter().map(|m| m.name).collect::<Vec<_>>();
    assert_eq!(names(OllamaClient::get_transcription_models(&listed)), vec!["Whisper:base", "audio-x"]);
    assert_eq!(names(OllamaClient::get_vision_models(&listed)), vec!["llava:7b", "my-Vision"]);
}

#[test]
fn vision_tags_are_clean_and_hold_objects_and_scene() {
    let r = parse_vision_text("DESCRIPTION: A dog.\nTAGS:  Dog , Park,,\nOBJECTS: Ball, dog\nSCENE:  Outdoor ");
    assert_eq!(r.tags, vec!["dog", "park", "ball", "outdoor"]);
    assert_eq!(r.objects, vec!["ball", "dog"]);
    assert_eq!(r.scene.as_deref(), Some("outdoor"));
    for t in &r.tags {
        assert!(!t.is_empty());
        assert_eq!(t, &t.trim().to_lowercase());
    }
}

fn piece(text: &str, done: bool) -> Option<StreamChunk> {
    Some(StreamChunk { response: text.to_string(), done })
}

#[test]
fn a_streamed_transcript_stops_at_its_last_line() {
    let mut t = TranscriptStream::new();
    let lines = t.feed("{\"a\":1}\n{\"b\":");
    assert_eq!(lines, vec!["{\"a\":1}".to_string()]);
    let lines = t.feed("2}\n");
    assert_eq!(lines, vec!["{\"b\":2}".to_string()]);
    match t.take_lines(vec![piece(" Hello", false), None, piece(" world", false)]) {
        StreamStep::Continue(ps) => assert_eq!(ps, vec![" Hello".to_string(), " world".to_string()]),
        other => panic!("unexpected {:?}", other),
    }
    match t.take_lines(vec![piece("! ", true), piece("ignored", false)]) {
        StreamStep::Finished { text, pieces } => {
            assert_eq!(text, "Hello world!");
            assert_eq!(pieces, vec!["! ".to_string()]);
        }
        other => panic!("unexpected {:?}", other),
    }
    let mut u = TranscriptStream::new();
    u.feed("{\"tail\":true}");
    assert_eq!(u.leftover().as_deref(), Some("{\"tail\":true}"));
    assert_eq!(u.finish(piece(" end ", false)), "end");
    let mut v = TranscriptStream::new();
    v.feed("  \n");
    assert!(v.leftover().is_none());
    assert_eq!(v.finish(None), "");
}
