use diaspor_vfs::commands::{InstallResult, Platform};
use diaspor_vfs::installers::{
    install_plan, join_lines, required_models, DependencyReport, DependencySetup, InstallAction,
    InstallEvent, Installer, SetupAction, SetupEvent, Tool,
};

fn finished(a: InstallAction) -> Result<InstallResult, String> {
    match a {
        InstallAction::Finish(r) => r,
        other => panic!("expected an answer, got {:?}", other),
    }
}

fn argv(a: &InstallAction) -> Vec<String> {
    match a {
        InstallAction::Probe(v) | InstallAction::Run(v) => v.clone(),
        other => panic!("expected a command, got {:?}", other),
    }
}

#[test]
fn ffmpeg_on_linux_tries_package_managers_in_turn() {
    let (mut run, a) = Installer::new(Tool::Ffmpeg, Platform::Linux);
    assert!(matches!(a, InstallAction::CheckInstalled));
    let a = run.advance(InstallEvent::Installed(false));
    assert_eq!(argv(&a), vec!["which", "apt-get"]);
    let a = run.advance(InstallEvent::Probed(true));
    assert!(matches!(a, InstallAction::Run(_)));
    assert_eq!(argv(&a), vec!["sh", "-c", "sudo apt-get update && sudo apt-get install -y ffmpeg"]);
    let a = run.advance(InstallEvent::Ran(false));
    assert_eq!(argv(&a), vec!["which", "yum"]);
    let a = run.advance(InstallEvent::Probed(true));
    assert_eq!(argv(&a), vec!["sh", "-c", "sudo yum install -y ffmpeg"]);
    assert!(!run.expects(&InstallEvent::Probed(true)));
    assert!(run.expects(&InstallEvent::Ran(true)));
    let r = finished(run.advance(InstallEvent::Ran(true))).unwrap();
    assert!(r.success);
    assert_eq!(r.message, "FFmpeg installed successfully via yum");
    assert!(!r.requires_restart);
}

#[test]
fn ffmpeg_on_linux_fails_when_nothing_works() {
    let (mut run, _) = Installer::new(Tool::Ffmpeg, Platform::Linux);
    run.advance(InstallEvent::Installed(false));
    run.advance(InstallEvent::Probed(false));
    run.advance(InstallEvent::Probed(false));
    let r = finished(run.advance(InstallEvent::Probed(false))).unwrap();
    assert!(!r.success);
    assert!(r.message.starts_with("FFmpeg installation failed. Please install manually. Run: sudo apt-get install ffmpeg"));
}

#[test]
fn ffmpeg_already_installed_or_unsupported() {
    let (mut run, _) = Installer::new(Tool::Ffmpeg, Platform::Other);
    let r = finished(run.advance(InstallEvent::Installed(true))).unwrap();
    assert_eq!(r.message, "FFmpeg is already installed");
    assert!(r.success);
    let (mut run, _) = Installer::new(Tool::Ffmpeg, Platform::Other);
    assert_eq!(finished(run.advance(InstallEvent::Installed(false))).unwrap_err(), "Unsupported platform");
    let (_, a) = Installer::new(Tool::Docker, Platform::Other);
    assert_eq!(finished(a).unwrap_err(), "Unsupported platform");
}

#[test]
fn ffmpeg_on_windows_needs_winget() {
    let (mut run, _) = Installer::new(Tool::Ffmpeg, Platform::Windows);
    let a = run.advance(InstallEvent::Installed(false));
    assert_eq!(argv(&a), vec!["winget", "--version"]);
    let r = finished(run.advance(InstallEvent::Probed(false))).unwrap();
    assert_eq!(
        r.message,
        "winget not found. Please install FFmpeg manually. Download from https://ffmpeg.org/download.html"
    );
}

#[test]
fn docker_on_macos_goes_through_homebrew() {
    let (mut run, a) = Installer::new(Tool::Docker, Platform::MacOs);
    assert!(matches!(a, InstallAction::FindBrew));
    let r = finished(run.advance(InstallEvent::BrewFound(None))).unwrap();
    assert!(!r.success);
    assert!(r.message.starts_with("Homebrew not found. Please install Docker manually:"));
    let (mut run, _) = Installer::new(Tool::Docker, Platform::MacOs);
    let a = run.advance(InstallEvent::BrewFound(Some("/opt/homebrew/bin/brew".to_string())));
    assert_eq!(argv(&a), vec!["/opt/homebrew/bin/brew", "install", "--cask", "docker"]);
    let r = finished(run.advance(InstallEvent::Ran(true))).unwrap();
    assert!(r.success && r.requires_restart);
}

#[test]
fn other_tools_and_platforms() {
    let (_, a) = Installer::new(Tool::WhisperCpp, Platform::Windows);
    let r = finished(a).unwrap();
    assert!(!r.success);
    assert_eq!(
        r.message,
        "Please install whisper.cpp manually. Download from https://github.com/ggerganov/whisper.cpp/releases"
    );
    let (mut run, a) = Installer::new(Tool::Ollama, Platform::Linux);
    assert_eq!(argv(&a), vec!["sh", "-c", "curl -fsSL https://ollama.ai/install.sh | sh"]);
    let r = finished(run.advance(InstallEvent::Ran(false))).unwrap();
    assert_eq!(r.message, "Please install Ollama manually. Run: curl -fsSL https://ollama.ai/install.sh | sh");
    let (mut run, a) = Installer::new(Tool::Ollama, Platform::Windows);
    assert_eq!(argv(&a), vec!["winget", "install", "Ollama.Ollama"]);
    let r = finished(run.advance(InstallEvent::Ran(true))).unwrap();
    assert!(r.success && r.requires_restart);
    let plan = install_plan(Tool::WhisperCpp, Platform::MacOs);
    assert!(plan.already_installed.is_none());
    assert_eq!(plan.body.unwrap().attempts.len(), 1);
}

fn ok(success: bool, message: &str) -> Result<InstallResult, String> {
    Ok(InstallResult { success, message: message.to_string(), requires_restart: false })
}

#[test]
fn dependency_reports() {
    assert_eq!(join_lines(&vec!["a".to_string(), "b".to_string()]), "a\nb");
    assert_eq!(join_lines(&Vec::new()), "");
    assert_eq!(required_models(), vec!["llava"]);

    let mut all_good = DependencyReport::new();
    all_good.note_ffmpeg(&ok(true, "x"));
    all_good.note_whisper(true, &None);
    assert!(all_good.note_ollama(&ok(true, "y")));
    all_good.note_model_pull("llava", &Ok(()));
    let r = all_good.summary();
    assert!(r.success);
    assert_eq!(
        r.message,
        "All dependencies installed successfully:\nFFmpeg installed successfully\nwhisper.cpp already installed\nOllama installed successfully\nModel 'llava' installed successfully"
    );

    let mut mixed = DependencyReport::new();
    mixed.note_ffmpeg(&Err("Unsupported platform".to_string()));
    mixed.note_whisper(false, &Some(ok(false, "no brew")));
    assert!(!mixed.note_ollama(&ok(false, "Please install Ollama manually.")));
    let r = mixed.summary();
    assert!(!r.success);
    assert_eq!(
        r.message,
        "Some installations failed:\nFFmpeg: Unsupported platform\nOllama: Please install Ollama manually.\n\nSuccessful:\n"
    );

    let mut pulls = DependencyReport::new();
    pulls.note_ollama_stopped();
    pulls.note_model_skipped("llava");
    pulls.note_model_pull("llava", &Err("network".to_string()));
    let r = pulls.summary();
    assert_eq!(
        r.message,
        "Some installations failed:\nOllama stopped running before model download could start. Please ensure Ollama is running and try again.\nOllama stopped running before pulling model 'llava'. Please ensure Ollama is running and try again.\nModel 'llava': network\n\nSuccessful:\n"
    );
}

fn ok_install(message: &str) -> SetupEvent {
    SetupEvent::Installed(Ok(InstallResult {
        success: true,
        message: message.to_string(),
        requires_restart: false,
    }))
}

#[test]
fn setup_installs_everything_and_pulls_the_model() {
    let (mut setup, action) = DependencySetup::begin();
    assert!(matches!(action, SetupAction::Install(Tool::Ffmpeg)));
    assert!(matches!(setup.step(ok_install("ok")), SetupAction::FindWhisper));
    assert!(matches!(setup.step(SetupEvent::WhisperFound(true)), SetupAction::Install(Tool::Ollama)));
    assert!(matches!(setup.step(ok_install("ok")), SetupAction::Sleep(3)));
    assert!(matches!(setup.step(SetupEvent::Slept), SetupAction::CheckRunning));
    assert!(matches!(setup.step(SetupEvent::Running(true)), SetupAction::CheckRunning));
    assert!(matches!(setup.step(SetupEvent::Running(true)), SetupAction::CheckRunning));
    match setup.step(SetupEvent::Running(true)) {
        SetupAction::Pull(m) => assert_eq!(m, "llava"),
        other => panic!("expected a pull, got {:?}", other),
    }
    match setup.step(SetupEvent::Pulled(Ok(()))) {
        SetupAction::Finish(r) => {
            assert!(r.success);
            assert_eq!(
                r.message,
                "All dependencies installed successfully:\nFFmpeg installed successfully\nwhisper.cpp already installed\nOllama installed successfully\nModel 'llava' installed successfully"
            );
        }
        other => panic!("expected the end, got {:?}", other),
    }
}

#[test]
fn setup_starts_ollama_and_gives_up_after_ten_checks() {
    let (mut setup, _) = DependencySetup::begin();
    setup.step(SetupEvent::Installed(Err("no brew".to_string())));
    assert!(matches!(setup.step(SetupEvent::WhisperFound(false)), SetupAction::Install(Tool::WhisperCpp)));
    assert!(matches!(setup.step(SetupEvent::Installed(Err("x".to_string()))), SetupAction::Install(Tool::Ollama)));
    setup.step(ok_install("ok"));
    setup.step(SetupEvent::Slept);
    assert!(matches!(setup.step(SetupEvent::Running(false)), SetupAction::StartOllama));
    assert!(matches!(setup.step(SetupEvent::Started), SetupAction::Sleep(2)));
    let mut checks = 0;
    loop {
        assert!(matches!(setup.step(SetupEvent::Slept), SetupAction::CheckRunning));
        checks += 1;
        match setup.step(SetupEvent::Running(false)) {
            SetupAction::Sleep(2) => {}
            SetupAction::CheckRunning => break,
            other => panic!("unexpected {:?}", other),
        }
    }
    assert_eq!(checks, 10);
    match setup.step(SetupEvent::Running(false)) {
        SetupAction::Finish(r) => {
            assert!(!r.success);
            assert_eq!(
                r.message,
                "Some installations failed:\nFFmpeg: no brew\nOllama stopped running before model download could start. Please ensure Ollama is running and try again.\n\nSuccessful:\nOllama installed successfully"
            );
        }
        other => panic!("expected the end, got {:?}", other),
    }
}

#[test]
fn setup_ends_when_ollama_fails_to_install() {
    let (mut setup, _) = DependencySetup::begin();
    setup.step(ok_install("ok"));
    setup.step(SetupEvent::WhisperFound(true));
    match setup.step(SetupEvent::Installed(Ok(InstallResult {
        success: false,
        message: "denied".to_string(),
        requires_restart: false,
    }))) {
        SetupAction::Finish(r) => {
            assert!(!r.success);
            assert_eq!(
                r.message,
                "Some installations failed:\nOllama: denied\n\nSuccessful:\nFFmpeg installed successfully\nwhisper.cpp already installed"
            );
        }
        other => panic!("expected the end, got {:?}", other),
    }
}
