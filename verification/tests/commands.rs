use diaspor_vfs::commands::{
    drain_complete_lines, ffmpeg_candidates, effective_transcoding_limits, ffmpeg_install_instructions,
    is_pull_complete, model_was_pulled, ollama_install_instructions, platform_name, ModelConfig,
    ModelRunError, ModelRunner, Platform, TranscodingResourceLimits, pull_line_outcome, pull_start,
    pull_step, PullAction, PullEvent,
};

#[test]
fn transcoding_limits_default_to_conservative() {
    let l = effective_transcoding_limits(None);
    assert_eq!(l.threads, 2);
    assert!(l.use_gpu);
    assert_eq!(l.gpu_device, -1);
    assert_eq!(l.memory_limit_mb, 2048);
    assert_eq!(l.preset, "fast");
    assert_eq!(l.max_concurrent_jobs, 1);
    let saved = TranscodingResourceLimits {
        threads: 8,
        use_gpu: false,
        gpu_device: 0,
        memory_limit_mb: 512,
        preset: "slow".to_string(),
        max_concurrent_jobs: 3,
    };
    let l = effective_transcoding_limits(Some(saved));
    assert_eq!(l.threads, 8);
    assert_eq!(l.preset, "slow");
}

#[test]
fn one_model_runs_at_a_time() {
    let mut runner = ModelRunner::new();
    assert_eq!(runner.check_can_start(), Ok(()));
    assert!(runner.status(5).is_none());
    let started = runner.record_start("llama3".to_string(), 42, 100).unwrap();
    assert!(started.running);
    assert_eq!(started.started_at, 100);
    assert_eq!(started.duration_seconds, 0);
    assert_eq!(runner.check_can_start(), Err(ModelRunError::AlreadyRunning));
    assert_eq!(
        runner.record_start("other".to_string(), 7, 101).unwrap_err(),
        ModelRunError::AlreadyRunning
    );
    let st = runner.status(160).unwrap();
    assert_eq!(st.name, "llama3");
    assert_eq!(st.duration_seconds, 60);
    let stopped = runner.stop().unwrap();
    assert_eq!(stopped.pid, 42);
    assert_eq!(runner.stop().unwrap_err(), ModelRunError::NothingRunning);
}

#[test]
fn ollama_address_defaults_to_localhost() {
    let c = ModelConfig { name: "m".to_string(), ollama_url: None };
    assert_eq!(ModelRunner::start_address(&c), "http://localhost:11434");
    let c = ModelConfig { name: "m".to_string(), ollama_url: Some("http://gpu:11434".to_string()) };
    assert_eq!(ModelRunner::start_address(&c), "http://gpu:11434");
}

#[test]
fn pull_progress_is_read_line_by_line() {
    let (lines, rest) = drain_complete_lines("{\"status\":\"pulling\"}\n  \n{\"status\":\"success\"}\n{\"sta");
    assert_eq!(lines, vec!["{\"status\":\"pulling\"}".to_string(), "{\"status\":\"success\"}".to_string()]);
    assert_eq!(rest, "{\"sta");
    let (lines, rest) = drain_complete_lines("no newline yet");
    assert!(lines.is_empty());
    assert_eq!(rest, "no newline yet");
    assert!(is_pull_complete("success"));
    assert!(is_pull_complete("download complete"));
    assert!(!is_pull_complete("pulling manifest"));
}

#[test]
fn pulled_models_are_recognised_by_name() {
    let listed = vec!["Llama3:latest".to_string(), "mistral:7b".to_string()];
    assert!(model_was_pulled(&listed, "llama3"));
    assert!(model_was_pulled(&listed, "MISTRAL"));
    assert!(!model_was_pulled(&listed, "phi3"));
    assert!(!model_was_pulled(&Vec::new(), "phi3"));
}

#[test]
fn install_instructions_per_platform() {
    assert_eq!(platform_name(Platform::MacOs), "macos");
    assert_eq!(platform_name(Platform::Other), "unknown");
    let mac = ollama_install_instructions(Platform::MacOs).unwrap();
    assert_eq!(mac.platform, "macOS");
    assert_eq!(mac.method, "Homebrew");
    assert_eq!(mac.command, "brew install ollama");
    assert_eq!(mac.url.as_deref(), Some("https://ollama.ai/download/Ollama-darwin.zip"));
    let linux = ollama_install_instructions(Platform::Linux).unwrap();
    assert_eq!(linux.command, "curl -fsSL https://ollama.ai/install.sh | sh");
    assert!(linux.url.is_none());
    assert!(ollama_install_instructions(Platform::Other).is_none());
    let win = ffmpeg_install_instructions(Platform::Windows).unwrap();
    assert_eq!(win.command, "winget install ffmpeg");
    assert_eq!(win.alternative.as_deref(), Some("Or download from https://ffmpeg.org/download.html"));
    let mac = ffmpeg_install_instructions(Platform::MacOs).unwrap();
    assert!(mac.alternative.is_none());
    assert!(ffmpeg_install_instructions(Platform::Other).is_none());
}

#[test]
fn ffmpeg_is_looked_for_on_the_path_first() {
    assert_eq!(
        ffmpeg_candidates(Platform::MacOs),
        vec!["ffmpeg", "/opt/homebrew/bin/ffmpeg", "/usr/local/bin/ffmpeg", "/usr/bin/ffmpeg"]
    );
    assert_eq!(ffmpeg_candidates(Platform::Linux), vec!["ffmpeg", "/usr/bin/ffmpeg", "/usr/local/bin/ffmpeg"]);
    assert_eq!(ffmpeg_candidates(Platform::Windows).len(), 3);
}

#[test]
fn pull_lines_report_completion_and_errors() {
    assert_eq!(pull_line_outcome(r#"{"status":"pulling manifest"}"#), Ok(false));
    assert_eq!(pull_line_outcome(r#"{"status":"success"}"#), Ok(true));
    assert_eq!(pull_line_outcome(r#"{"status":"verifying sha256 digest complete"}"#), Ok(true));
    assert_eq!(
        pull_line_outcome(r#"{"status":"success","error":"disk full"}"#),
        Err("Ollama pull error: disk full".to_string())
    );
    assert_eq!(pull_line_outcome("not json"), Ok(false));
}

#[test]
fn a_pull_is_followed_step_by_step() {
    let s = pull_start("llava".to_string());
    let (s, a) = pull_step(s, PullEvent::Data("{\"status\":\"pulling\"}\n{\"sta".to_string()));
    match a {
        PullAction::Continue(lines) => assert_eq!(lines, vec!["{\"status\":\"pulling\"}".to_string()]),
        _ => panic!("expected to continue"),
    }
    let (_, a) = pull_step(s, PullEvent::Data("tus\":\"success\"}\n".to_string()));
    assert!(matches!(a, PullAction::Succeed(m) if m == "Model llava pulled successfully"));

    let s = pull_start("llava".to_string());
    let (s, a) = pull_step(s, PullEvent::Data("{\"status\":\"x\"}\n{\"status\":\"y\",\"error\":\"boom\"}".to_string()));
    assert!(matches!(a, PullAction::Continue(_)));
    let (_, a) = pull_step(s, PullEvent::End);
    assert!(matches!(a, PullAction::Fail(m) if m == "Ollama pull error: boom"));

    let s = pull_start("llava".to_string());
    let (s, a) = pull_step(s, PullEvent::End);
    assert!(matches!(a, PullAction::ListModels));
    let (_, a) = pull_step(s, PullEvent::Listed(Some(vec!["mistral:latest".to_string()])));
    assert!(matches!(a, PullAction::Fail(m) if m == "Model download may have failed. Model 'llava' not found after pull completed."));
    let s = pull_start("llava".to_string());
    let (s, _) = pull_step(s, PullEvent::End);
    let (_, a) = pull_step(s, PullEvent::Listed(Some(vec!["LLaVA:latest".to_string()])));
    assert!(matches!(a, PullAction::Succeed(_)));
    let (_, a) = pull_step(pull_start("m".to_string()), PullEvent::Timeout(120));
    assert!(matches!(a, PullAction::Fail(m) if m.starts_with("Timeout waiting for Ollama response (no data received for 120 seconds).")));
    let (_, a) = pull_step(pull_start("m".to_string()), PullEvent::StreamError("reset".to_string()));
    assert!(matches!(a, PullAction::Fail(m) if m == "Stream error: reset"));
}

#[test]
fn pull_error_after_success_line_fails_the_pull() {
    let s = pull_start("llava".to_string());
    let (_, a) = pull_step(
        s,
        PullEvent::Data("{\"status\":\"success\"}\n{\"status\":\"x\",\"error\":\"disk full\"}".to_string()),
    );
    match a {
        PullAction::Fail(m) => assert_eq!(m, "Ollama pull error: disk full"),
        _ => panic!("expected a failure"),
    }
    let s = pull_start("llava".to_string());
    let (_, a) = pull_step(
        s,
        PullEvent::Data("\n{\"status\":\"pulling\"}\n{\"status\":\"success\"}\n  \n{\"status\":\"x\"}".to_string()),
    );
    match a {
        PullAction::Succeed(m) => assert_eq!(m, "Model llava pulled successfully"),
        _ => panic!("expected success"),
    }
    let s = pull_start("llava".to_string());
    let (_, a) = pull_step(
        s,
        PullEvent::Data("{\"status\":\"success\"}\n{\"status\":\"a\"}\n{\"status\":\"b\",\"error\":\"e\"}".to_string()),
    );
    match a {
        PullAction::Succeed(_) => {}
        _ => panic!("two leftover lines do not read as one message"),
    }
}
