use diaspor_vfs::media::{
    ggml_model_file, speech_audio_params, thumbnail_batches, thumbnail_result,
    transcription_models, whisper_model_candidates, ThumbnailQueue,
};

#[test]
fn thumbnail_results_carry_the_outcome() {
    let ok = thumbnail_result("/a.png".to_string(), Ok::<Option<u32>, String>(Some(7)));
    assert_eq!(ok.path, "/a.png");
    assert_eq!(ok.thumbnail, Some(7));
    assert!(ok.error.is_none());
    let err = thumbnail_result::<u32>("/b.png".to_string(), Err("decode failed".to_string()));
    assert!(err.thumbnail.is_none());
    assert_eq!(err.error.as_deref(), Some("decode failed"));
}

#[test]
fn batches_cover_the_requests() {
    assert_eq!(thumbnail_batches(10, 4), vec![(0, 4), (4, 8), (8, 10)]);
    assert_eq!(thumbnail_batches(8, 4), vec![(0, 4), (4, 8)]);
    assert!(thumbnail_batches(0, 4).is_empty());
}

#[test]
fn audio_parameters_for_speech() {
    assert_eq!(speech_audio_params(None, None), (16000, 1));
    assert_eq!(speech_audio_params(Some(44100), Some(2)), (44100, 2));
    assert_eq!(speech_audio_params(Some(48000), Some(6)), (48000, 1));
}

#[test]
fn whisper_models_are_looked_for_in_order() {
    assert_eq!(ggml_model_file("base"), "ggml-base.bin");
    let with_home = whisper_model_candidates(Some("/home/me"), "ggml-base.bin");
    assert_eq!(
        with_home,
        vec![
            "/home/me/.local/share/whisper-cpp/models/ggml-base.bin",
            "/home/me/.cache/whisper/ggml-base.bin",
            "/opt/homebrew/share/whisper-cpp/models/ggml-base.bin",
            "/usr/local/share/whisper-cpp/models/ggml-base.bin",
            "models/ggml-base.bin",
        ]
    );
    assert_eq!(whisper_model_candidates(None, "x.bin").len(), 3);
}

#[test]
fn offered_transcription_models() {
    let ollama = vec!["whisper:base".to_string()];
    assert_eq!(
        transcription_models(true, false, true, &ollama, true),
        vec![
            "whisper-cpp:base",
            "whisper-cpp:small",
            "whisper-cpp:medium",
            "ffmpeg-whisper:default",
            "ollama:whisper:base",
        ]
    );
    assert_eq!(
        transcription_models(false, false, false, &Vec::new(), true),
        vec!["whisper-base", "whisper-small", "whisper-medium", "whisper-large"]
    );
    assert!(transcription_models(false, false, false, &Vec::new(), false).is_empty());
    assert_eq!(
        transcription_models(false, true, false, &Vec::new(), false),
        vec!["insanely-fast-whisper:base", "insanely-fast-whisper:small"]
    );
}

#[test]
fn thumbnails_are_cached_by_path_until_cleared() {
    let mut q: ThumbnailQueue<Vec<u8>> = ThumbnailQueue::new("/cache/thumbs".to_string(), 3);
    assert_eq!(q.cache_dir(), "/cache/thumbs");
    assert_eq!(q.cached("/a.jpg"), None);
    q.remember("/a.jpg".to_string(), vec![1, 2]);
    q.remember("/b.jpg".to_string(), vec![3]);
    q.remember("/a.jpg".to_string(), vec![9]);
    assert_eq!(q.cached("/a.jpg"), Some(&vec![9]));
    assert_eq!(q.cached("/b.jpg"), Some(&vec![3]));
    assert_eq!(q.batches(7), vec![(0, 3), (3, 6), (6, 7)]);
    q.clear_cache();
    assert_eq!(q.cached("/b.jpg"), None);
}
