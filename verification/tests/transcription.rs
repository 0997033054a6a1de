use diaspor_vfs::media::TranscriptionStatus;
use diaspor_vfs::transcription::{
    ffmpeg_whisper_args, insanely_fast_whisper_args, live_transcription_args, transcript_format,
    whisper_cpp_args, whisper_cpp_model_file, SubtitleCue, TranscriptFormat, TranscriptionConfig,
    TranscriptionEngine, TranscriptionError, TranscriptionJob, TranscriptionService,
};

#[derive(Clone, Debug, PartialEq)]
struct Segment {
    text: String,
    start: f64,
    end: f64,
}

type Service = TranscriptionService<Segment, f64>;

fn service() -> Service {
    TranscriptionService::new(
        Some("/usr/bin/ffmpeg".to_string()),
        Some("/usr/bin/ffprobe".to_string()),
        "/tmp/tx".to_string(),
        Some(vec!["whisper".to_string(), "whisper-large".to_string()]),
    )
}

fn cue(start: &str, end: &str, text: &str) -> SubtitleCue {
    SubtitleCue { start: start.to_string(), end: end.to_string(), text: text.to_string() }
}

fn strings(v: &[&str]) -> Vec<String> {
    v.iter().map(|s| s.to_string()).collect()
}

#[test]
fn a_new_service_knows_its_tools_and_has_no_jobs() {
    let s = service();
    assert!(s.is_available());
    assert!(s.is_transcription_available());
    assert_eq!(s.ffmpeg_program(), "/usr/bin/ffmpeg");
    assert_eq!(s.ffprobe_program(), "/usr/bin/ffprobe");
    assert!(s.list_job_ids().is_empty());
    assert_eq!(s.get_status("x"), None);

    let bare: Service = TranscriptionService::new(None, Some("/usr/bin/ffprobe".to_string()), "/tmp".to_string(), None);
    assert!(!bare.is_available());
    assert_eq!(bare.ffmpeg_program(), "ffmpeg");
}

#[test]
fn jobs_move_through_their_states() {
    let mut s = service();
    let config = TranscriptionConfig::with_chunk_duration(1.0);
    let args = s.start_live_transcription(
        "job-1".to_string(),
        "/videos/a.mp4".to_string(),
        config,
        Some((Some(44100), Some(6))),
        false,
        0.0,
    );
    assert_eq!(
        args,
        strings(&["-i", "/videos/a.mp4", "-vn", "-f", "s16le", "-ar", "44100", "-ac", "1", "-"])
    );
    assert_eq!(s.get_status("job-1"), Some(TranscriptionStatus::Starting));
    assert_eq!(s.get_job_progress("job-1"), Some(0.0));
    assert_eq!(s.get_job_file_path("job-1").as_deref(), Some("/videos/a.mp4"));
    s.mark_running("job-1");
    s.set_process_id("job-1", 4242);
    s.record_progress("job-1", 30.0, 0.5);
    assert_eq!(s.get_status("job-1"), Some(TranscriptionStatus::Running));
    assert_eq!(s.get_job_progress("job-1"), Some(0.5));
    assert_eq!(s.stop_transcription("job-1"), Some(4242));
    assert_eq!(s.get_status("job-1"), Some(TranscriptionStatus::Stopped));
    assert_eq!(s.stop_transcription("nothing"), None);

    let mut job = TranscriptionJob::starting(
        "job-2".to_string(),
        "/videos/b.mp4".to_string(),
        TranscriptionConfig::with_chunk_duration(1.0),
        0.0,
    );
    job.segments.push(Segment { text: "hello".to_string(), start: 0.0, end: 1.5 });
    s.insert_job(job);
    s.mark_failed("job-2", "boom".to_string());
    assert_eq!(s.get_status("job-2"), Some(TranscriptionStatus::Failed));
    assert_eq!(s.get_job_error("job-2").as_deref(), Some("boom"));
    assert_eq!(s.get_job_error("job-1"), None);
    assert_eq!(s.get_segments("job-2").map(|v| v.len()), Some(1));
    assert_eq!(s.list_job_ids(), strings(&["job-1", "job-2"]));
    s.mark_completed("job-1");
    assert_eq!(s.get_status("job-1"), Some(TranscriptionStatus::Completed));
}

#[test]
fn live_transcription_needs_the_tools_and_the_video() {
    let s = service();
    assert_eq!(s.check_live_transcription(true), Ok(()));
    assert_eq!(s.check_live_transcription(false), Err(TranscriptionError::VideoMissing));
    let bare: Service = TranscriptionService::new(None, None, "/tmp".to_string(), None);
    assert_eq!(bare.check_live_transcription(true), Err(TranscriptionError::FfmpegUnavailable));
    assert_eq!(TranscriptionError::FfmpegUnavailable.message(), "FFmpeg not available");
    assert_eq!(TranscriptionError::VideoMissing.message(), "Video file does not exist");
}

#[test]
fn the_whisper_filter_is_used_when_configured_and_supported() {
    let mut config: TranscriptionConfig<f64> = TranscriptionConfig::with_chunk_duration(1.0);
    config.whisper_model_path = Some("/models/base.bin".to_string());
    config.language = Some("fr".to_string());
    assert_eq!(
        live_transcription_args("/v.mkv", &config, true),
        strings(&["-i", "/v.mkv", "-af", "whisper=model=/models/base.bin:language=fr", "-f", "null", "-"])
    );
    assert_eq!(
        live_transcription_args("/v.mkv", &config, false),
        strings(&["-i", "/v.mkv", "-vn", "-f", "s16le", "-ar", "16000", "-ac", "1", "-"])
    );
    config.whisper_model_path = None;
    assert_eq!(live_transcription_args("/v.mkv", &config, true)[2], "-vn");
}

#[test]
fn audio_extraction_and_output_files_live_in_the_scratch_directory() {
    let s = service();
    let (audio, args) = s.extraction_command("/videos/a.mp4", "job-9");
    assert_eq!(audio, "/tmp/tx/job-9.wav");
    assert_eq!(
        args,
        strings(&[
            "-i", "/videos/a.mp4", "-vn", "-acodec", "pcm_s16le", "-ar", "16000", "-ac", "1", "-y",
            "/tmp/tx/job-9.wav",
        ])
    );
    assert_eq!(s.transcript_output("run"), "/tmp/tx/run.json");
}

#[test]
fn engines_are_chosen_in_order_of_preference() {
    let s = service();
    assert_eq!(
        s.transcription_engine(Some("/usr/bin/whisper-cli".to_string()), true, true),
        Ok(TranscriptionEngine::WhisperCpp("/usr/bin/whisper-cli".to_string()))
    );
    assert_eq!(s.transcription_engine(None, true, true), Ok(TranscriptionEngine::InsanelyFastWhisper));
    assert_eq!(
        s.transcription_engine(None, false, true),
        Ok(TranscriptionEngine::Ollama("whisper".to_string()))
    );
    let no_ollama: Service = TranscriptionService::new(
        Some("ffmpeg".to_string()),
        Some("ffprobe".to_string()),
        "/tmp".to_string(),
        Some(Vec::new()),
    );
    assert_eq!(no_ollama.transcription_engine(None, false, true), Ok(TranscriptionEngine::FfmpegWhisper));
    assert_eq!(no_ollama.transcription_engine(None, false, false), Err(TranscriptionError::NoEngine));
    assert_eq!(
        TranscriptionError::NoEngine.message(),
        "No transcription engine available. Please install one of:\n\
         - whisper.cpp: brew install whisper-cpp\n\
         - insanely-fast-whisper: pip install insanely-fast-whisper\n\
         - Ollama with whisper: ollama pull whisper"
    );
    let bare: Service = TranscriptionService::new(None, None, "/tmp".to_string(), None);
    assert_eq!(
        bare.transcription_engine(Some("w".to_string()), true, true),
        Err(TranscriptionError::ExtractionUnavailable)
    );
    assert_eq!(
        TranscriptionError::ExtractionUnavailable.message(),
        "FFmpeg not available for audio extraction"
    );
}

#[test]
fn engine_command_lines() {
    assert_eq!(whisper_cpp_model_file(None), "ggml-base.bin");
    assert_eq!(whisper_cpp_model_file(Some("small")), "ggml-small.bin");
    assert_eq!(
        whisper_cpp_args("ggml-base.bin", "/a.wav", "/tmp/o.json", Some("en")),
        strings(&["-m", "ggml-base.bin", "-f", "/a.wav", "-oj", "-of", "/tmp/o.json", "-l", "en"])
    );
    assert_eq!(
        insanely_fast_whisper_args("/a.wav", None, "/tmp/o.json", None),
        strings(&[
            "--file-name", "/a.wav", "--model-name", "openai/whisper-base", "--transcript-path",
            "/tmp/o.json",
        ])
    );
    assert_eq!(
        ffmpeg_whisper_args("/a.wav", "/tmp/o.json", Some("de")),
        strings(&[
            "-i", "/a.wav", "-vn", "-af", "whisper=format=json:language=de:destination=/tmp/o.json",
            "-f", "null", "-",
        ])
    );
}

#[test]
fn transcripts_are_written_as_srt_vtt_or_txt() {
    let s = service();
    let cues = vec![
        cue("00:00:00,000", "00:00:01,500", "Hello"),
        cue("00:00:01,500", "00:00:03,000", "world"),
    ];
    assert_eq!(
        s.transcript_document(&cues, "srt").unwrap(),
        "1\n00:00:00,000 --> 00:00:01,500\nHello\n\n2\n00:00:01,500 --> 00:00:03,000\nworld\n\n"
    );
    assert_eq!(
        s.transcript_document(&cues, "vtt").unwrap(),
        "WEBVTT\n\n00:00:00,000 --> 00:00:01,500\nHello\n\n00:00:01,500 --> 00:00:03,000\nworld\n\n"
    );
    assert_eq!(s.transcript_document(&cues, "txt").unwrap(), "Hello\nworld");
    assert_eq!(
        s.transcript_document(&cues, "doc"),
        Err(TranscriptionError::UnsupportedFormat("doc".to_string()))
    );
    assert_eq!(TranscriptionError::UnsupportedFormat("doc".to_string()).message(), "Unsupported format: doc");
    assert_eq!(transcript_format("vtt"), Ok(TranscriptFormat::Vtt));
    assert_eq!(s.transcript_document(&Vec::new(), "vtt").unwrap(), "WEBVTT\n\n");
}

#[test]
fn offered_models_depend_on_availability() {
    let s = service();
    assert_eq!(
        s.get_available_models(false, false, false, &strings(&["whisper"])),
        strings(&["ollama:whisper"])
    );
    assert_eq!(
        s.get_available_models(false, false, false, &Vec::new()),
        strings(&["whisper-base", "whisper-small", "whisper-medium", "whisper-large"])
    );
    let bare: Service = TranscriptionService::new(None, None, "/tmp".to_string(), None);
    assert!(bare.get_available_models(false, false, false, &Vec::new()).is_empty());
}
