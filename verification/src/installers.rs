//! Installing the tools the application relies on (Docker, Ollama, FFmpeg, whisper.cpp): for
//! each tool and platform, the commands tried in turn and what each outcome means, and the
//! step-by-step run of such a plan, which hands each command to its caller to execute.

use vstd::prelude::*;
use crate::commands::{InstallResult, Platform};

verus! {

/// A tool that can be installed.
#[derive(Clone, Copy, PartialEq, Eq, Debug, Structural)]
pub enum Tool {
    Docker,
    Ollama,
    Ffmpeg,
    WhisperCpp,
}

/// The program a command runs: Homebrew, wherever it was found, or a program by name.
#[derive(Debug)]
pub enum Program {
    Brew,
    Named(String),
}

/// A command: a program and its arguments.
#[derive(Debug)]
pub struct ShellCommand {
    pub program: Program,
    pub args: Vec<String>,
}

/// One way of installing: an optional check that the installer is there, what to answer when
/// that check fails (none: try the next way), the installing command, and the answer when it
/// succeeds.
#[derive(Debug)]
pub struct Attempt {
    pub probe: Option<ShellCommand>,
    pub on_probe_failure: Option<InstallResult>,
    pub command: ShellCommand,
    pub success: InstallResult,
}

/// How a tool is installed on a supported platform: the answer when Homebrew is needed and
/// missing (none when it is not needed), the ways tried in order, and the answer when none
/// worked.
#[derive(Debug)]
pub struct PlanBody {
    pub brew_missing: Option<InstallResult>,
    pub attempts: Vec<Attempt>,
    pub failure: InstallResult,
}

/// How a tool is installed: the answer when it already is (none when that is not checked),
/// then the plan for the platform, or why there is none.
#[derive(Debug)]
pub struct InstallPlan {
    pub already_installed: Option<InstallResult>,
    pub body: Result<PlanBody, String>,
}

/// An answer: success, message, whether a restart is needed.
pub type ResultView = (bool, Seq<char>, bool);

/// A command: its program (none for Homebrew) and arguments.
pub type CommandView = (Option<Seq<char>>, Seq<Seq<char>>);

/// A way of installing: probe, answer on probe failure, command, answer on success.
pub type AttemptView = (Option<CommandView>, Option<ResultView>, CommandView, ResultView);

/// A platform's plan: answer when Homebrew is missing, ways tried, answer when none worked.
pub type BodyView = (Option<ResultView>, Seq<AttemptView>, ResultView);

pub open spec fn result_view(r: InstallResult) -> ResultView {
    (r.success, r.message@, r.requires_restart)
}

pub open spec fn opt_result_view(r: Option<InstallResult>) -> Option<ResultView> {
    match r {
        Some(x) => Some(result_view(x)),
        None => None,
    }
}

pub open spec fn command_view(c: ShellCommand) -> CommandView {
    (
        match c.program {
            Program::Brew => None,
            Program::Named(p) => Some(p@),
        },
        c.args@.map_values(|s: String| s@),
    )
}

pub open spec fn opt_command_view(c: Option<ShellCommand>) -> Option<CommandView> {
    match c {
        Some(x) => Some(command_view(x)),
        None => None,
    }
}

pub open spec fn attempt_view(a: Attempt) -> AttemptView {
    (
        opt_command_view(a.probe),
        opt_result_view(a.on_probe_failure),
        command_view(a.command),
        result_view(a.success),
    )
}

pub open spec fn body_view(b: PlanBody) -> BodyView {
    (
        opt_result_view(b.brew_missing),
        b.attempts@.map_values(|a: Attempt| attempt_view(a)),
        result_view(b.failure),
    )
}

pub open spec fn plan_view(p: InstallPlan) -> (Option<ResultView>, Result<BodyView, Seq<char>>) {
    (
        opt_result_view(p.already_installed),
        match p.body {
            Ok(b) => Ok(body_view(b)),
            Err(e) => Err(e@),
        },
    )
}

/// A way of installing with no probe: run the command, succeed with `ok`.
pub open spec fn plain(command: CommandView, ok: ResultView) -> AttemptView {
    (None, None, command, ok)
}

/// The plan for a tool on a platform.
pub open spec fn planned(tool: Tool, platform: Platform) -> (Option<ResultView>, Result<BodyView, Seq<char>>) {
    let already = match tool {
        Tool::Ffmpeg => Some((true, "FFmpeg is already installed"@, false)),
        _ => None,
    };
    let body: Result<BodyView, Seq<char>> = match platform {
        Platform::Other => Err("Unsupported platform"@),
        Platform::MacOs => Ok(
            match tool {
                Tool::Docker => (
                    Some(
                        (
                            false,
                            "Homebrew not found. Please install Docker manually:\n\n1. Install Homebrew: https://brew.sh\n2. Then run: brew install --cask docker\n\nOr download from: https://docker.com"@,
                            false,
                        ),
                    ),
                    seq![
                        plain(
                            (None, seq!["install"@, "--cask"@, "docker"@]),
                            (
                                true,
                                "Docker installed successfully via Homebrew. Please launch Docker Desktop from Applications."@,
                                true,
                            ),
                        ),
                    ],
                    (
                        false,
                        "Please install Docker manually. Run: brew install --cask docker or download from docker.com"@,
                        false,
                    ),
                ),
                Tool::Ollama => (
                    Some(
                        (
                            false,
                            "Homebrew not found. Please install Ollama manually:\n\n1. Install Homebrew: https://brew.sh\n2. Then run: brew install ollama\n\nOr download from: https://ollama.com"@,
                            false,
                        ),
                    ),
                    seq![
                        plain(
                            (None, seq!["install"@, "ollama"@]),
                            (true, "Ollama installed successfully via Homebrew"@, true),
                        ),
                    ],
                    (false, "Please install Ollama manually. Run: brew install ollama"@, false),
                ),
                Tool::Ffmpeg => (
                    Some(
                        (
                            false,
                            "FFmpeg not found. To install:\n\n1. Install Homebrew: https://brew.sh\n2. Then run: brew install ffmpeg\n\nOr download FFmpeg directly from: https://ffmpeg.org/download.html"@,
                            false,
                        ),
                    ),
                    seq![
                        plain(
                            (None, seq!["install"@, "ffmpeg"@]),
                            (true, "FFmpeg installed successfully via Homebrew"@, false),
                        ),
                    ],
                    (
                        false,
                        "FFmpeg installation failed. Please install manually:\n\nRun: brew install ffmpeg\n\nOr download from: https://ffmpeg.org/download.html"@,
                        false,
                    ),
                ),
                Tool::WhisperCpp => (
                    Some(
                        (
                            false,
                            "Homebrew not found. Please install whisper.cpp manually:\n\n1. Install Homebrew: https://brew.sh\n2. Then run: brew install whisper-cpp"@,
                            false,
                        ),
                    ),
                    seq![
                        plain(
                            (None, seq!["install"@, "whisper-cpp"@]),
                            (true, "whisper.cpp installed successfully via Homebrew"@, false),
                        ),
                    ],
                    (false, "Please install whisper.cpp manually. Run: brew install whisper-cpp"@, false),
                ),
            },
        ),
        Platform::Windows => Ok(
            match tool {
                Tool::Docker => (
                    None,
                    seq![
                        plain(
                            (Some("winget"@), seq!["install"@, "Docker.DockerDesktop"@]),
                            (
                                true,
                                "Docker installed successfully via winget. Please launch Docker Desktop."@,
                                true,
                            ),
                        ),
                    ],
                    (
                        false,
                        "Please install Docker manually. Download from docker.com/products/docker-desktop"@,
                        false,
                    ),
                ),
                Tool::Ollama => (
                    None,
                    seq![
                        plain(
                            (Some("winget"@), seq!["install"@, "Ollama.Ollama"@]),
                            (true, "Ollama installed successfully via winget"@, true),
                        ),
                    ],
                    (
                        false,
                        "Please install Ollama manually. Download from https://ollama.ai/download"@,
                        false,
                    ),
                ),
                Tool::Ffmpeg => (
                    None,
                    seq![
                        (
                            Some((Some("winget"@), seq!["--version"@])),
                            Some(
                                (
                                    false,
                                    "winget not found. Please install FFmpeg manually. Download from https://ffmpeg.org/download.html"@,
                                    false,
                                ),
                            ),
                            (
                                Some("winget"@),
                                seq![
                                    "install"@,
                                    "ffmpeg"@,
                                    "--accept-source-agreements"@,
                                    "--accept-package-agreements"@,
                                ],
                            ),
                            (true, "FFmpeg installed successfully via winget"@, false),
                        ),
                    ],
                    (
                        false,
                        "FFmpeg installation failed. Please install manually. Download from https://ffmpeg.org/download.html or run: winget install ffmpeg"@,
                        false,
                    ),
                ),
                Tool::WhisperCpp => (
                    None,
                    Seq::empty(),
                    (
                        false,
                        "Please install whisper.cpp manually. Download from https://github.com/ggerganov/whisper.cpp/releases"@,
                        false,
                    ),
                ),
            },
        ),
        Platform::Linux => Ok(
            match tool {
                Tool::Docker => (
                    None,
                    seq![
                        plain(
                            (
                                Some("sh"@),
                                seq![
                                    "-c"@,
                                    "curl -fsSL https://get.docker.com -o get-docker.sh && sh get-docker.sh"@,
                                ],
                            ),
                            (
                                true,
                                "Docker installed successfully. You may need to add your user to the docker group: sudo usermod -aG docker $USER"@,
                                true,
                            ),
                        ),
                    ],
                    (
                        false,
                        "Please install Docker manually. Run: curl -fsSL https://get.docker.com -o get-docker.sh && sh get-docker.sh"@,
                        false,
                    ),
                ),
                Tool::Ollama => (
                    None,
                    seq![
                        plain(
                            (Some("sh"@), seq!["-c"@, "curl -fsSL https://ollama.ai/install.sh | sh"@]),
                            (true, "Ollama installed successfully"@, true),
                        ),
                    ],
                    (
                        false,
                        "Please install Ollama manually. Run: curl -fsSL https://ollama.ai/install.sh | sh"@,
                        false,
                    ),
                ),
                Tool::Ffmpeg => (
                    None,
                    seq![
                        (
                            Some((Some("which"@), seq!["apt-get"@])),
                            None,
                            (
                                Some("sh"@),
                                seq!["-c"@, "sudo apt-get update && sudo apt-get install -y ffmpeg"@],
                            ),
                            (true, "FFmpeg installed successfully via apt-get"@, false),
                        ),
                        (
                            Some((Some("which"@), seq!["yum"@])),
                            None,
                            (Some("sh"@), seq!["-c"@, "sudo yum install -y ffmpeg"@]),
                            (true, "FFmpeg installed successfully via yum"@, false),
                        ),
                        (
                            Some((Some("which"@), seq!["pacman"@])),
                            None,
                            (Some("sh"@), seq!["-c"@, "sudo pacman -S --noconfirm ffmpeg"@]),
                            (true, "FFmpeg installed successfully via pacman"@, false),
                        ),
                    ],
                    (
                        false,
                        "FFmpeg installation failed. Please install manually. Run: sudo apt-get install ffmpeg (Debian/Ubuntu), sudo yum install ffmpeg (RHEL/CentOS), or sudo pacman -S ffmpeg (Arch)"@,
                        false,
                    ),
                ),
                Tool::WhisperCpp => (
                    None,
                    seq![
                        plain(
                            (
                                Some("sh"@),
                                seq![
                                    "-c"@,
                                    "which whisper-cpp || (git clone https://github.com/ggerganov/whisper.cpp.git /tmp/whisper-cpp && cd /tmp/whisper-cpp && make && sudo cp main /usr/local/bin/whisper-cpp)"@,
                                ],
                            ),
                            (true, "whisper.cpp installed successfully"@, false),
                        ),
                    ],
                    (
                        false,
                        "Please install whisper.cpp manually. See: https://github.com/ggerganov/whisper.cpp"@,
                        false,
                    ),
                ),
            },
        ),
    };
    (already, body)
}

fn answer(success: bool, message: &str, requires_restart: bool) -> (r: InstallResult)
    ensures
        result_view(r) == (success, message@, requires_restart),
{
    InstallResult { success, message: message.to_string(), requires_restart }
}

fn command(program: Option<&str>, args: &[&str]) -> (r: ShellCommand)
    ensures
        command_view(r) == ((
            match program {
                Some(p) => Some(p@),
                None => None,
            },
            args@.map_values(|s: &str| s@),
        )),
{
    let mut v: Vec<String> = Vec::new();
    let mut i: usize = 0;
    while i < args.len()
        invariant
            i <= args@.len(),
            v@.len() == i,
            forall|k: int| 0 <= k < i ==> (#[trigger] v@[k])@ == args@[k]@,
        decreases args.len() - i,
    {
        v.push(args[i].to_string());
        i = i + 1;
    }
    assert(v@.map_values(|s: String| s@) =~= args@.map_values(|s: &str| s@));
    ShellCommand {
        program: match program {
            Some(p) => Program::Named(p.to_string()),
            None => Program::Brew,
        },
        args: v,
    }
}

fn plain_attempt(command: ShellCommand, success: InstallResult) -> (r: Attempt)
    ensures
        attempt_view(r) == plain(command_view(command), result_view(success)),
{
    Attempt { probe: None, on_probe_failure: None, command, success }
}

fn single(a: Attempt) -> (r: Vec<Attempt>)
    ensures
        r@.map_values(|x: Attempt| attempt_view(x)) == seq![attempt_view(a)],
{
    let mut v: Vec<Attempt> = Vec::new();
    let ghost av = attempt_view(a);
    v.push(a);
    assert(v@.map_values(|x: Attempt| attempt_view(x)) =~= seq![av]);
    v
}

fn body(brew_missing: Option<InstallResult>, attempts: Vec<Attempt>, failure: InstallResult) -> (r: PlanBody)
    ensures
        body_view(r) == (opt_result_view(brew_missing), attempts@.map_values(|x: Attempt| attempt_view(x)), result_view(failure)),
{
    PlanBody { brew_missing, attempts, failure }
}

fn mac_body(tool: Tool) -> (r: PlanBody)
    ensures
        planned(tool, Platform::MacOs).1 == Ok::<BodyView, Seq<char>>(body_view(r)),
{
    match tool {
        Tool::Docker => {
            let args = ["install", "--cask", "docker"];
            assert(args@.map_values(|s: &str| s@) =~= seq!["install"@, "--cask"@, "docker"@]);
            body(
                Some(answer(false, "Homebrew not found. Please install Docker manually:\n\n1. Install Homebrew: https://brew.sh\n2. Then run: brew install --cask docker\n\nOr download from: https://docker.com", false)),
                single(plain_attempt(
                    command(None, &args),
                    answer(true, "Docker installed successfully via Homebrew. Please launch Docker Desktop from Applications.", true),
                )),
                answer(false, "Please install Docker manually. Run: brew install --cask docker or download from docker.com", false),
            )
        },
        Tool::Ollama => {
            let args = ["install", "ollama"];
            assert(args@.map_values(|s: &str| s@) =~= seq!["install"@, "ollama"@]);
            body(
                Some(answer(false, "Homebrew not found. Please install Ollama manually:\n\n1. Install Homebrew: https://brew.sh\n2. Then run: brew install ollama\n\nOr download from: https://ollama.com", false)),
                single(plain_attempt(command(None, &args), answer(true, "Ollama installed successfully via Homebrew", true))),
                answer(false, "Please install Ollama manually. Run: brew install ollama", false),
            )
        },
        Tool::Ffmpeg => {
            let args = ["install", "ffmpeg"];
            assert(args@.map_values(|s: &str| s@) =~= seq!["install"@, "ffmpeg"@]);
            body(
                Some(answer(false, "FFmpeg not found. To install:\n\n1. Install Homebrew: https://brew.sh\n2. Then run: brew install ffmpeg\n\nOr download FFmpeg directly from: https://ffmpeg.org/download.html", false)),
                single(plain_attempt(command(None, &args), answer(true, "FFmpeg installed successfully via Homebrew", false))),
                answer(false, "FFmpeg installation failed. Please install manually:\n\nRun: brew install ffmpeg\n\nOr download from: https://ffmpeg.org/download.html", false),
            )
        },
        Tool::WhisperCpp => {
            let args = ["install", "whisper-cpp"];
            assert(args@.map_values(|s: &str| s@) =~= seq!["install"@, "whisper-cpp"@]);
            body(
                Some(answer(false, "Homebrew not found. Please install whisper.cpp manually:\n\n1. Install Homebrew: https://brew.sh\n2. Then run: brew install whisper-cpp", false)),
                single(plain_attempt(command(None, &args), answer(true, "whisper.cpp installed successfully via Homebrew", false))),
                answer(false, "Please install whisper.cpp manually. Run: brew install whisper-cpp", false),
            )
        },
    }
}

fn windows_body(tool: Tool) -> (r: PlanBody)
    ensures
        planned(tool, Platform::Windows).1 == Ok::<BodyView, Seq<char>>(body_view(r)),
{
    match tool {
        Tool::Docker => {
            let args = ["install", "Docker.DockerDesktop"];
            assert(args@.map_values(|s: &str| s@) =~= seq!["install"@, "Docker.DockerDesktop"@]);
            body(
                None,
                single(plain_attempt(
                    command(Some("winget"), &args),
                    answer(true, "Docker installed successfully via winget. Please launch Docker Desktop.", true),
                )),
                answer(false, "Please install Docker manually. Download from docker.com/products/docker-desktop", false),
            )
        },
        Tool::Ollama => {
            let args = ["install", "Ollama.Ollama"];
            assert(args@.map_values(|s: &str| s@) =~= seq!["install"@, "Ollama.Ollama"@]);
            body(
                None,
                single(plain_attempt(command(Some("winget"), &args), answer(true, "Ollama installed successfully via winget", true))),
                answer(false, "Please install Ollama manually. Download from https://ollama.ai/download", false),
            )
        },
        Tool::Ffmpeg => {
            let probe_args = ["--version"];
            let args = ["install", "ffmpeg", "--accept-source-agreements", "--accept-package-agreements"];
            assert(probe_args@.map_values(|s: &str| s@) =~= seq!["--version"@]);
            assert(args@.map_values(|s: &str| s@) =~= seq![
                "install"@,
                "ffmpeg"@,
                "--accept-source-agreements"@,
                "--accept-package-agreements"@,
            ]);
            let a = Attempt {
                probe: Some(command(Some("winget"), &probe_args)),
                on_probe_failure: Some(answer(false, "winget not found. Please install FFmpeg manually. Download from https://ffmpeg.org/download.html", false)),
                command: command(Some("winget"), &args),
                success: answer(true, "FFmpeg installed successfully via winget", false),
            };
            body(
                None,
                single(a),
                answer(false, "FFmpeg installation failed. Please install manually. Download from https://ffmpeg.org/download.html or run: winget install ffmpeg", false),
            )
        },
        Tool::WhisperCpp => {
            let none: Vec<Attempt> = Vec::new();
            assert(none@.map_values(|x: Attempt| attempt_view(x)) =~= Seq::<AttemptView>::empty());
            body(
                None,
                none,
                answer(false, "Please install whisper.cpp manually. Download from https://github.com/ggerganov/whisper.cpp/releases", false),
            )
        },
    }
}

fn linux_body(tool: Tool) -> (r: PlanBody)
    ensures
        planned(tool, Platform::Linux).1 == Ok::<BodyView, Seq<char>>(body_view(r)),
{
    match tool {
        Tool::Docker => {
            let args = ["-c", "curl -fsSL https://get.docker.com -o get-docker.sh && sh get-docker.sh"];
            assert(args@.map_values(|s: &str| s@) =~= seq![
                "-c"@,
                "curl -fsSL https://get.docker.com -o get-docker.sh && sh get-docker.sh"@,
            ]);
            body(
                None,
                single(plain_attempt(
                    command(Some("sh"), &args),
                    answer(true, "Docker installed successfully. You may need to add your user to the docker group: sudo usermod -aG docker $USER", true),
                )),
                answer(false, "Please install Docker manually. Run: curl -fsSL https://get.docker.com -o get-docker.sh && sh get-docker.sh", false),
            )
        },
        Tool::Ollama => {
            let args = ["-c", "curl -fsSL https://ollama.ai/install.sh | sh"];
            assert(args@.map_values(|s: &str| s@) =~= seq!["-c"@, "curl -fsSL https://ollama.ai/install.sh | sh"@]);
            body(
                None,
                single(plain_attempt(command(Some("sh"), &args), answer(true, "Ollama installed successfully", true))),
                answer(false, "Please install Ollama manually. Run: curl -fsSL https://ollama.ai/install.sh | sh", false),
            )
        },
        Tool::Ffmpeg => {
            let apt = ["apt-get"];
            let yum = ["yum"];
            let pacman = ["pacman"];
            let apt_run = ["-c", "sudo apt-get update && sudo apt-get install -y ffmpeg"];
            let yum_run = ["-c", "sudo yum install -y ffmpeg"];
            let pacman_run = ["-c", "sudo pacman -S --noconfirm ffmpeg"];
            assert(apt@.map_values(|s: &str| s@) =~= seq!["apt-get"@]);
            assert(yum@.map_values(|s: &str| s@) =~= seq!["yum"@]);
            assert(pacman@.map_values(|s: &str| s@) =~= seq!["pacman"@]);
            assert(apt_run@.map_values(|s: &str| s@) =~= seq!["-c"@, "sudo apt-get update && sudo apt-get install -y ffmpeg"@]);
            assert(yum_run@.map_values(|s: &str| s@) =~= seq!["-c"@, "sudo yum install -y ffmpeg"@]);
            assert(pacman_run@.map_values(|s: &str| s@) =~= seq!["-c"@, "sudo pacman -S --noconfirm ffmpeg"@]);
            let a1 = Attempt {
                probe: Some(command(Some("which"), &apt)),
                on_probe_failure: None,
                command: command(Some("sh"), &apt_run),
                success: answer(true, "FFmpeg installed successfully via apt-get", false),
            };
            let a2 = Attempt {
                probe: Some(command(Some("which"), &yum)),
                on_probe_failure: None,
                command: command(Some("sh"), &yum_run),
                success: answer(true, "FFmpeg installed successfully via yum", false),
            };
            let a3 = Attempt {
                probe: Some(command(Some("which"), &pacman)),
                on_probe_failure: None,
                command: command(Some("sh"), &pacman_run),
                success: answer(true, "FFmpeg installed successfully via pacman", false),
            };
            let ghost v1 = attempt_view(a1);
            let ghost v2 = attempt_view(a2);
            let ghost v3 = attempt_view(a3);
            let mut v: Vec<Attempt> = Vec::new();
            v.push(a1);
            v.push(a2);
            v.push(a3);
            assert(v@.map_values(|x: Attempt| attempt_view(x)) =~= seq![v1, v2, v3]);
            body(
                None,
                v,
                answer(false, "FFmpeg installation failed. Please install manually. Run: sudo apt-get install ffmpeg (Debian/Ubuntu), sudo yum install ffmpeg (RHEL/CentOS), or sudo pacman -S ffmpeg (Arch)", false),
            )
        },
        Tool::WhisperCpp => {
            let args = [
                "-c",
                "which whisper-cpp || (git clone https://github.com/ggerganov/whisper.cpp.git /tmp/whisper-cpp && cd /tmp/whisper-cpp && make && sudo cp main /usr/local/bin/whisper-cpp)",
            ];
            assert(args@.map_values(|s: &str| s@) =~= seq![
                "-c"@,
                "which whisper-cpp || (git clone https://github.com/ggerganov/whisper.cpp.git /tmp/whisper-cpp && cd /tmp/whisper-cpp && make && sudo cp main /usr/local/bin/whisper-cpp)"@,
            ]);
            body(
                None,
                single(plain_attempt(command(Some("sh"), &args), answer(true, "whisper.cpp installed successfully", false))),
                answer(false, "Please install whisper.cpp manually. See: https://github.com/ggerganov/whisper.cpp", false),
            )
        },
    }
}

/// Every plan answers truthfully: the way it tried succeeding is reported as success, while a
/// missing Homebrew, a failed probe and the end of all ways are reported as failures; FFmpeg
/// found already installed is a success; an unsupported platform has no plan.
pub proof fn lemma_plan_answers(tool: Tool, platform: Platform)
    ensures
        planned(tool, platform).0 matches Some(x) ==> x.0,
        planned(tool, platform).1 is Err <==> platform == Platform::Other,
        planned(tool, platform).1 matches Ok(b) ==> {
            &&& b.0 matches Some(x) ==> !x.0
            &&& !b.2.0
            &&& forall|i: int| 0 <= i < b.1.len() ==> (#[trigger] b.1[i]).3.0 && (b.1[i].1 matches Some(y) ==> !y.0)
        },
{
    match (tool, platform) {
        (Tool::Docker, Platform::MacOs) => lemma_plan_answers_at(tool, platform),
        (Tool::Docker, Platform::Windows) => lemma_plan_answers_at(tool, platform),
        (Tool::Docker, Platform::Linux) => lemma_plan_answers_at(tool, platform),
        (Tool::Docker, Platform::Other) => lemma_plan_answers_at(tool, platform),
        (Tool::Ollama, Platform::MacOs) => lemma_plan_answers_at(tool, platform),
        (Tool::Ollama, Platform::Windows) => lemma_plan_answers_at(tool, platform),
        (Tool::Ollama, Platform::Linux) => lemma_plan_answers_at(tool, platform),
        (Tool::Ollama, Platform::Other) => lemma_plan_answers_at(tool, platform),
        (Tool::Ffmpeg, Platform::MacOs) => lemma_plan_answers_at(tool, platform),
        (Tool::Ffmpeg, Platform::Windows) => lemma_plan_answers_at(tool, platform),
        (Tool::Ffmpeg, Platform::Linux) => lemma_plan_answers_at(tool, platform),
        (Tool::Ffmpeg, Platform::Other) => lemma_plan_answers_at(tool, platform),
        (Tool::WhisperCpp, Platform::MacOs) => lemma_plan_answers_at(tool, platform),
        (Tool::WhisperCpp, Platform::Windows) => lemma_plan_answers_at(tool, platform),
        (Tool::WhisperCpp, Platform::Linux) => lemma_plan_answers_at(tool, platform),
        (Tool::WhisperCpp, Platform::Other) => lemma_plan_answers_at(tool, platform),
    }
}

proof fn lemma_plan_answers_at(tool: Tool, platform: Platform)
    ensures
        planned(tool, platform).1 matches Ok(b) ==> forall|i: int|
            0 <= i < b.1.len() ==> (#[trigger] b.1[i]).3.0 && (b.1[i].1 matches Some(y) ==> !y.0),
{
    match planned(tool, platform).1 {
        Ok(b) => {
            assert forall|i: int| 0 <= i < b.1.len() implies (#[trigger] b.1[i]).3.0 && (b.1[i].1 matches Some(y) ==> !y.0) by {
                if i == 0 {
                } else if i == 1 {
                } else {
                }
            }
        },
        Err(_) => {},
    }
}

/// Wherever Docker is installed through a shell (`sh`), the shell both downloads Docker's
/// install script from get.docker.com and runs it; on Linux that is how Docker is installed,
/// in a single way, and when it fails the user is told to run exactly that command.
pub proof fn lemma_docker_script_is_run(platform: Platform)
    ensures
        planned(Tool::Docker, platform).1 matches Ok(b) ==> forall|i: int|
            0 <= i < b.1.len() && (#[trigger] b.1[i]).2.0 == Some("sh"@) ==> b.1[i].2.1 == seq![
                "-c"@,
                "curl -fsSL https://get.docker.com -o get-docker.sh"@ + " && sh get-docker.sh"@,
            ],
        platform == Platform::Linux ==> (planned(Tool::Docker, platform).1 matches Ok(b) && b.1.len() == 1
            && b.1[0].2.0 == Some("sh"@) && b.2.1 == "Please install Docker manually. Run: "@ + b.1[0].2.1[1]),
{
    reveal_strlit("sh");
    reveal_strlit("winget");
    reveal_strlit("curl -fsSL https://get.docker.com -o get-docker.sh");
    reveal_strlit(" && sh get-docker.sh");
    reveal_strlit("curl -fsSL https://get.docker.com -o get-docker.sh && sh get-docker.sh");
    reveal_strlit("Please install Docker manually. Run: ");
    reveal_strlit("Please install Docker manually. Run: curl -fsSL https://get.docker.com -o get-docker.sh && sh get-docker.sh");
    assert("sh"@.len() == 2 && "winget"@.len() == 6);
    assert("curl -fsSL https://get.docker.com -o get-docker.sh"@ + " && sh get-docker.sh"@
        =~= "curl -fsSL https://get.docker.com -o get-docker.sh && sh get-docker.sh"@);
    assert("Please install Docker manually. Run: "@ + "curl -fsSL https://get.docker.com -o get-docker.sh && sh get-docker.sh"@
        =~= "Please install Docker manually. Run: curl -fsSL https://get.docker.com -o get-docker.sh && sh get-docker.sh"@);
}

/// The plan for installing a tool on a platform (see `planned`).
pub fn install_plan(tool: Tool, platform: Platform) -> (r: InstallPlan)
    ensures
        plan_view(r) == planned(tool, platform),
        tool == Tool::Docker && platform == Platform::Linux ==> (r.body matches Ok(b) && b.attempts@.len() == 1
            && (b.attempts@[0].command.program matches Program::Named(p) && p@ == "sh"@)
            && b.attempts@[0].command.args@.map_values(|a: String| a@) == seq![
            "-c"@,
            "curl -fsSL https://get.docker.com -o get-docker.sh && sh get-docker.sh"@,
        ]),
{
    let already = match tool {
        Tool::Ffmpeg => Some(answer(true, "FFmpeg is already installed", false)),
        _ => None,
    };
    let body = match platform {
        Platform::MacOs => Ok(mac_body(tool)),
        Platform::Windows => Ok(windows_body(tool)),
        Platform::Linux => Ok(linux_body(tool)),
        Platform::Other => Err("Unsupported platform".to_string()),
    };
    let r = InstallPlan { already_installed: already, body };
    proof {
        if tool == Tool::Docker && platform == Platform::Linux {
            lemma_docker_script_is_run(platform);
            reveal_strlit("curl -fsSL https://get.docker.com -o get-docker.sh");
            reveal_strlit(" && sh get-docker.sh");
            reveal_strlit("curl -fsSL https://get.docker.com -o get-docker.sh && sh get-docker.sh");
            assert("curl -fsSL https://get.docker.com -o get-docker.sh"@ + " && sh get-docker.sh"@
                =~= "curl -fsSL https://get.docker.com -o get-docker.sh && sh get-docker.sh"@);
            match &r.body {
                Ok(b) => {
                    let v = b.attempts@.map_values(|a: Attempt| attempt_view(a));
                    assert(v[0] == attempt_view(b.attempts@[0]));
                    assert(v[0].2 == command_view(b.attempts@[0].command));
                },
                Err(_) => {},
            }
        }
    }
    r
}


/// Whether commands run by Homebrew only appear where Homebrew is looked for first.
pub open spec fn brew_first(b: BodyView) -> bool {
    b.0 is None ==> forall|i: int|
        0 <= i < b.1.len() ==> (#[trigger] b.1[i]).2.0 is Some && (b.1[i].0 matches Some(p)
            ==> p.0 is Some)
}

proof fn lemma_planned_brew_first(tool: Tool, platform: Platform)
    ensures
        planned(tool, platform).1 matches Ok(b) ==> brew_first(b),
{
}

/// Where a run of a plan stands.
#[derive(Clone, Copy, PartialEq, Eq, Debug, Structural)]
pub enum Phase {
    /// Asking whether the tool is already installed.
    Checking,
    /// Looking for Homebrew.
    FindingBrew,
    /// Checking that the installer of way `i` is there.
    Probing(usize),
    /// Running the command of way `i`.
    Running(usize),
    /// Answered.
    Done,
}

/// What the caller found out.
#[derive(Debug)]
pub enum InstallEvent {
    /// Whether the tool is already installed.
    Installed(bool),
    /// Where Homebrew is, if it was found.
    BrewFound(Option<String>),
    /// Whether the check could be run.
    Probed(bool),
    /// Whether the command ran and succeeded.
    Ran(bool),
}

/// What the caller is to do next.
#[derive(Debug)]
pub enum InstallAction {
    /// Find out whether the tool is already installed.
    CheckInstalled,
    /// Look for Homebrew.
    FindBrew,
    /// Run this check (program, then arguments) and report whether it could be run.
    Probe(Vec<String>),
    /// Run this command (program, then arguments) and report whether it succeeded.
    Run(Vec<String>),
    /// The answer.
    Finish(Result<InstallResult, String>),
}

/// An action: its kind (check, find Homebrew, probe, run, answer), the command line of a probe
/// or run, and the answer.
pub type ActionView = (int, Seq<Seq<char>>, Option<Result<ResultView, Seq<char>>>);

pub open spec fn action_view(a: InstallAction) -> ActionView {
    match a {
        InstallAction::CheckInstalled => (0, Seq::empty(), None),
        InstallAction::FindBrew => (1, Seq::empty(), None),
        InstallAction::Probe(v) => (2, v@.map_values(|s: String| s@), None),
        InstallAction::Run(v) => (3, v@.map_values(|s: String| s@), None),
        InstallAction::Finish(Ok(r)) => (4, Seq::empty(), Some(Ok(result_view(r)))),
        InstallAction::Finish(Err(e)) => (4, Seq::empty(), Some(Err(e@))),
    }
}

/// The answer `r`, as an action.
pub open spec fn finish(r: Result<ResultView, Seq<char>>) -> ActionView {
    (4, Seq::empty(), Some(r))
}

/// The command line of a command: its program (Homebrew where it was found) then arguments.
pub open spec fn argv_of(c: CommandView, brew: Option<Seq<char>>) -> Seq<Seq<char>> {
    seq![
        match c.0 {
            Some(p) => p,
            None => brew.unwrap(),
        },
    ] + c.1
}

/// Trying way `i` of a plan and those after it: the probe of way `i` if it has one, else its
/// command; when no way is left, the plan's failure answer.
pub open spec fn begin_attempt(b: BodyView, i: int, brew: Option<Seq<char>>) -> (Phase, ActionView) {
    if i >= b.1.len() {
        (Phase::Done, finish(Ok(b.2)))
    } else {
        match b.1[i].0 {
            Some(p) => (Phase::Probing(i as usize), (2, argv_of(p, brew), None)),
            None => (Phase::Running(i as usize), (3, argv_of(b.1[i].2, brew), None)),
        }
    }
}

/// Going on to the platform's plan: no plan is an error answer; Homebrew is looked for first
/// where it is needed; else the first way is tried.
pub open spec fn enter_body(
    pv: (Option<ResultView>, Result<BodyView, Seq<char>>),
    brew: Option<Seq<char>>,
) -> (Phase, ActionView) {
    match pv.1 {
        Err(e) => (Phase::Done, finish(Err(e))),
        Ok(b) => if b.0 is Some {
            (Phase::FindingBrew, (1, Seq::empty(), None))
        } else {
            begin_attempt(b, 0, brew)
        },
    }
}

/// The first step of a run: asking whether the tool is installed where the plan checks that,
/// else going on to the platform's plan.
pub open spec fn first_step(pv: (Option<ResultView>, Result<BodyView, Seq<char>>)) -> (Phase, ActionView) {
    if pv.0 is Some {
        (Phase::Checking, (0, Seq::empty(), None))
    } else {
        enter_body(pv, None)
    }
}

/// Whether the event answers what the run asked for.
pub open spec fn answers(phase: Phase, e: InstallEvent) -> bool {
    match phase {
        Phase::Checking => e is Installed,
        Phase::FindingBrew => e is BrewFound,
        Phase::Probing(_) => e is Probed,
        Phase::Running(_) => e is Ran,
        Phase::Done => false,
    }
}

/// The step after event `e`: the new phase, where Homebrew is, and the next action.
pub open spec fn next_step(
    pv: (Option<ResultView>, Result<BodyView, Seq<char>>),
    phase: Phase,
    brew: Option<Seq<char>>,
    e: InstallEvent,
) -> (Phase, Option<Seq<char>>, ActionView) {
    let b = pv.1->Ok_0;
    match phase {
        Phase::Checking => match e {
            InstallEvent::Installed(true) => (Phase::Done, brew, finish(Ok(pv.0.unwrap()))),
            _ => {
                let s = enter_body(pv, brew);
                (s.0, brew, s.1)
            },
        },
        Phase::FindingBrew => match e {
            InstallEvent::BrewFound(Some(p)) => {
                let s = begin_attempt(b, 0, Some(p@));
                (s.0, Some(p@), s.1)
            },
            _ => (Phase::Done, brew, finish(Ok(b.0.unwrap()))),
        },
        Phase::Probing(i) => match e {
            InstallEvent::Probed(true) => (
                Phase::Running(i),
                brew,
                (3, argv_of(b.1[i as int].2, brew), None),
            ),
            _ => match b.1[i as int].1 {
                Some(r) => (Phase::Done, brew, finish(Ok(r))),
                None => {
                    let s = begin_attempt(b, i + 1, brew);
                    (s.0, brew, s.1)
                },
            },
        },
        Phase::Running(i) => match e {
            InstallEvent::Ran(true) => (Phase::Done, brew, finish(Ok(b.1[i as int].3))),
            _ => {
                let s = begin_attempt(b, i + 1, brew);
                (s.0, brew, s.1)
            },
        },
        Phase::Done => (Phase::Done, brew, finish(Err(Seq::empty()))),
    }
}

fn copy_answer(r: &InstallResult) -> (c: InstallResult)
    ensures
        result_view(c) == result_view(*r),
{
    InstallResult { success: r.success, message: r.message.clone(), requires_restart: r.requires_restart }
}

/// A run of an installation plan: it says what to do next, and is told what came of it.
pub struct Installer {
    plan: InstallPlan,
    phase: Phase,
    brew: Option<String>,
}

impl Installer {
    /// The plan being run.
    pub closed spec fn plan(&self) -> (Option<ResultView>, Result<BodyView, Seq<char>>) {
        plan_view(self.plan)
    }

    /// Where the run stands.
    pub closed spec fn phase(&self) -> Phase {
        self.phase
    }

    /// Where Homebrew was found.
    pub closed spec fn brew(&self) -> Option<Seq<char>> {
        match self.brew {
            Some(p) => Some(p@),
            None => None,
        }
    }

    /// Whether the run is in a state a run can reach.
    pub closed spec fn well_formed(&self) -> bool {
        &&& exists|t: Tool, p: Platform| self.plan() == planned(t, p)
        &&& self.phase is Checking ==> self.plan().0 is Some
        &&& (self.phase is Checking || self.phase is FindingBrew) ==> self.brew is None
        &&& (self.phase is FindingBrew || self.phase is Probing || self.phase is Running)
            ==> self.plan().1 is Ok
        &&& self.phase is FindingBrew ==> (self.plan().1->Ok_0).0 is Some
        &&& self.phase matches Phase::Probing(i) ==> i < (self.plan().1->Ok_0).1.len()
            && ((self.plan().1->Ok_0).1[i as int]).0 is Some
        &&& self.phase matches Phase::Running(i) ==> i < (self.plan().1->Ok_0).1.len()
        &&& (self.phase is Probing || self.phase is Running) && (self.plan().1->Ok_0).0 is Some
            ==> self.brew is Some
    }

    fn command_line(&self, c: &ShellCommand) -> (r: Vec<String>)
        requires
            c.program is Brew ==> self.brew is Some,
        ensures
            r@.map_values(|s: String| s@) == argv_of(command_view(*c), self.brew()),
    {
        let mut out: Vec<String> = Vec::new();
        match &c.program {
            Program::Named(p) => out.push(p.clone()),
            Program::Brew => match &self.brew {
                Some(b) => out.push(b.clone()),
                None => {},
            },
        }
        let mut i: usize = 0;
        while i < c.args.len()
            invariant
                i <= c.args@.len(),
                out@.len() == i + 1,
                c.program is Brew ==> self.brew is Some,
                out@[0]@ == argv_of(command_view(*c), self.brew())[0],
                forall|k: int| 0 <= k < i ==> (#[trigger] out@[k + 1])@ == c.args@[k]@,
            decreases c.args.len() - i,
        {
            out.push(c.args[i].clone());
            i = i + 1;
        }
        let ghost want = argv_of(command_view(*c), self.brew());
        let ghost got = out@.map_values(|s: String| s@);
        assert forall|k: int| 0 <= k < out@.len() implies #[trigger] got[k] == want[k] by {
            if k > 0 {
                assert(out@[(k - 1) + 1] == out@[k]);
            }
        }
        assert(got =~= want);
        out
    }

    fn begin(&mut self, i: usize) -> (a: InstallAction)
        requires
            old(self).plan().1 is Ok,
            exists|t: Tool, p: Platform| old(self).plan() == planned(t, p),
            (old(self).plan().1->Ok_0).0 is Some ==> old(self).brew is Some,
        ensures
            final(self).plan() == old(self).plan(),
            final(self).brew() == old(self).brew(),
            final(self).brew == old(self).brew,
            final(self).well_formed(),
            (final(self).phase(), action_view(a)) == begin_attempt(
                old(self).plan().1->Ok_0,
                i as int,
                old(self).brew(),
            ),
    {
        let ghost bv = self.plan().1->Ok_0;
        proof {
            let (t, p) = choose|t: Tool, p: Platform| self.plan() == planned(t, p);
            lemma_planned_brew_first(t, p);
        }
        let n = match &self.plan.body {
            Ok(b) => b.attempts.len(),
            Err(_) => 0,
        };
        if i >= n {
            let f = match &self.plan.body {
                Ok(b) => copy_answer(&b.failure),
                Err(_) => InstallResult { success: false, message: String::new(), requires_restart: false },
            };
            self.phase = Phase::Done;
            return InstallAction::Finish(Ok(f));
        }
        let act = match &self.plan.body {
            Ok(b) => {
                let at = &b.attempts[i];
                proof {
                    assert(attempt_view(*at) == bv.1[i as int]);
                }
                match &at.probe {
                    Some(p) => {
                        let line = self.command_line(p);
                        (Phase::Probing(i), InstallAction::Probe(line))
                    },
                    None => {
                        let line = self.command_line(&at.command);
                        (Phase::Running(i), InstallAction::Run(line))
                    },
                }
            },
            Err(_) => (Phase::Done, InstallAction::CheckInstalled),
        };
        self.phase = act.0;
        act.1
    }

    fn enter(&mut self) -> (a: InstallAction)
        requires
            exists|t: Tool, p: Platform| old(self).plan() == planned(t, p),
            old(self).brew is None,
        ensures
            final(self).plan() == old(self).plan(),
            final(self).brew == old(self).brew,
            final(self).well_formed(),
            (final(self).phase(), action_view(a)) == enter_body(old(self).plan(), old(self).brew()),
    {
        let needs_brew = match &self.plan.body {
            Err(e) => {
                let m = e.clone();
                self.phase = Phase::Done;
                return InstallAction::Finish(Err(m));
            },
            Ok(b) => b.brew_missing.is_some(),
        };
        if needs_brew {
            self.phase = Phase::FindingBrew;
            InstallAction::FindBrew
        } else {
            self.begin(0)
        }
    }

    /// A run of the plan for a tool on a platform (see `install_plan`), with its first action
    /// (see `first_step`).
    pub fn new(tool: Tool, platform: Platform) -> (r: (Installer, InstallAction))
        ensures
            r.0.well_formed(),
            r.0.plan() == planned(tool, platform),
            r.0.brew() is None,
            (r.0.phase(), action_view(r.1)) == first_step(planned(tool, platform)),
    {
        let plan = install_plan(tool, platform);
        let checks = plan.already_installed.is_some();
        let mut run = Installer { plan, phase: Phase::Checking, brew: None };
        if checks {
            return (run, InstallAction::CheckInstalled);
        }
        let a = run.enter();
        (run, a)
    }

    /// Whether the run waits for an event of this kind.
    pub fn expects(&self, e: &InstallEvent) -> (r: bool)
        ensures
            r == answers(self.phase(), *e),
    {
        match (self.phase, e) {
            (Phase::Checking, InstallEvent::Installed(_)) => true,
            (Phase::FindingBrew, InstallEvent::BrewFound(_)) => true,
            (Phase::Probing(_), InstallEvent::Probed(_)) => true,
            (Phase::Running(_), InstallEvent::Ran(_)) => true,
            _ => false,
        }
    }

    /// Takes in what came of the last action and says what to do next (see `next_step`).
    pub fn advance(&mut self, e: InstallEvent) -> (a: InstallAction)
        requires
            old(self).well_formed(),
            answers(old(self).phase(), e),
        ensures
            final(self).well_formed(),
            final(self).plan() == old(self).plan(),
            (final(self).phase(), final(self).brew(), action_view(a)) == next_step(
                old(self).plan(),
                old(self).phase(),
                old(self).brew(),
                e,
            ),
    {
        match self.phase {
            Phase::Checking => match e {
                InstallEvent::Installed(true) => {
                    let r = match &self.plan.already_installed {
                        Some(x) => copy_answer(x),
                        None => InstallResult { success: false, message: String::new(), requires_restart: false },
                    };
                    self.phase = Phase::Done;
                    InstallAction::Finish(Ok(r))
                },
                _ => self.enter(),
            },
            Phase::FindingBrew => match e {
                InstallEvent::BrewFound(Some(p)) => {
                    self.brew = Some(p);
                    self.begin(0)
                },
                _ => {
                    let r = match &self.plan.body {
                        Ok(b) => match &b.brew_missing {
                            Some(x) => copy_answer(x),
                            None => InstallResult { success: false, message: String::new(), requires_restart: false },
                        },
                        Err(_) => InstallResult { success: false, message: String::new(), requires_restart: false },
                    };
                    self.phase = Phase::Done;
                    InstallAction::Finish(Ok(r))
                },
            },
            Phase::Probing(i) => {
                let ok = match e {
                    InstallEvent::Probed(b) => b,
                    _ => false,
                };
                if ok {
                    let line = match &self.plan.body {
                        Ok(b) => self.command_line(&b.attempts[i].command),
                        Err(_) => Vec::new(),
                    };
                    self.phase = Phase::Running(i);
                    InstallAction::Run(line)
                } else {
                    let stop = match &self.plan.body {
                        Ok(b) => match &b.attempts[i].on_probe_failure {
                            Some(x) => Some(copy_answer(x)),
                            None => None,
                        },
                        Err(_) => None,
                    };
                    match stop {
                        Some(r) => {
                            self.phase = Phase::Done;
                            InstallAction::Finish(Ok(r))
                        },
                        None => self.begin(i + 1),
                    }
                }
            },
            Phase::Running(i) => {
                let ok = match e {
                    InstallEvent::Ran(b) => b,
                    _ => false,
                };
                if ok {
                    let r = match &self.plan.body {
                        Ok(b) => copy_answer(&b.attempts[i].success),
                        Err(_) => InstallResult { success: false, message: String::new(), requires_restart: false },
                    };
                    self.phase = Phase::Done;
                    InstallAction::Finish(Ok(r))
                } else {
                    self.begin(i + 1)
                }
            },
            Phase::Done => InstallAction::Finish(Err(String::new())),
        }
    }
}

/// The lines of `s` joined with newlines (`join("\n")`).
pub open spec fn newline_joined(s: Seq<Seq<char>>) -> Seq<char>
    decreases s.len(),
{
    if s.len() == 0 {
        Seq::empty()
    } else if s.len() == 1 {
        s[0]
    } else {
        newline_joined(s.drop_last()) + seq!['\n'] + s.last()
    }
}

/// The lines of `v` joined with newlines.
pub fn join_lines(v: &Vec<String>) -> (r: String)
    ensures
        r@ == newline_joined(v@.map_values(|s: String| s@)),
{
    let ghost views = v@.map_values(|s: String| s@);
    let mut out = String::new();
    let mut i: usize = 0;
    proof {
        reveal_strlit("\n");
    }
    while i < v.len()
        invariant
            i <= v@.len(),
            views == v@.map_values(|s: String| s@),
            "\n"@ == seq!['\n'],
            out@ == newline_joined(views.subrange(0, i as int)),
        decreases v.len() - i,
    {
        proof {
            assert(views.subrange(0, i + 1).drop_last() =~= views.subrange(0, i as int));
            assert(views.subrange(0, i + 1).last() == v@[i as int]@);
        }
        if i == 0 {
            out = v[0].clone();
            proof {
                assert(views.subrange(0, 1) =~= seq![v@[0]@]);
            }
        } else {
            out = out.concat("\n");
            out = out.concat(v[i].as_str());
        }
        i = i + 1;
    }
    proof {
        assert(views.subrange(0, v@.len() as int) =~= views);
    }
    out
}

/// What installing everything the AI features need came to: what was done and what failed,
/// each in the order it happened.
pub struct DependencyReport {
    results: Vec<String>,
    errors: Vec<String>,
}

/// The answer of an installer as a plain value: success and message, or the error's text.
pub open spec fn outcome_view(o: Result<InstallResult, String>) -> Result<(bool, Seq<char>), Seq<char>> {
    match o {
        Ok(r) => Ok((r.success, r.message@)),
        Err(e) => Err(e@),
    }
}

/// The note a step's answer leaves: `done` when it succeeded, else the step's name, a colon
/// and the answer's message or error.
pub open spec fn step_note(
    o: Result<(bool, Seq<char>), Seq<char>>,
    name: Seq<char>,
    done: Seq<char>,
) -> Result<Seq<char>, Seq<char>> {
    match o {
        Ok((true, _)) => Ok(done),
        Ok((false, m)) => Err(name + ": "@ + m),
        Err(e) => Err(name + ": "@ + e),
    }
}

impl DependencyReport {
    /// What was done.
    pub closed spec fn done(&self) -> Seq<Seq<char>> {
        self.results@.map_values(|s: String| s@)
    }

    /// What failed.
    pub closed spec fn failed(&self) -> Seq<Seq<char>> {
        self.errors@.map_values(|s: String| s@)
    }

    /// Nothing done, nothing failed.
    pub fn new() -> (r: Self)
        ensures
            r.done() == Seq::<Seq<char>>::empty(),
            r.failed() == Seq::<Seq<char>>::empty(),
    {
        let r = DependencyReport { results: Vec::new(), errors: Vec::new() };
        assert(r.done() =~= Seq::<Seq<char>>::empty());
        assert(r.failed() =~= Seq::<Seq<char>>::empty());
        r
    }

    fn push_done(&mut self, line: String)
        ensures
            final(self).done() == old(self).done().push(line@),
            final(self).failed() == old(self).failed(),
    {
        self.results.push(line);
        assert(self.done() =~= old(self).done().push(line@));
    }

    fn push_failed(&mut self, line: String)
        ensures
            final(self).failed() == old(self).failed().push(line@),
            final(self).done() == old(self).done(),
    {
        self.errors.push(line);
        assert(self.failed() =~= old(self).failed().push(line@));
    }

    fn note_step(&mut self, outcome: &Result<InstallResult, String>, name: &str, done: &str) -> (ok: bool)
        ensures
            ok == (outcome_view(*outcome) matches Ok((true, _))),
            match step_note(outcome_view(*outcome), name@, done@) {
                Ok(d) => final(self).done() == old(self).done().push(d) && final(self).failed()
                    == old(self).failed(),
                Err(f) => final(self).failed() == old(self).failed().push(f) && final(self).done()
                    == old(self).done(),
            },
    {
        match outcome {
            Ok(r) => {
                if r.success {
                    self.push_done(done.to_string());
                    true
                } else {
                    let line = name.to_string().concat(": ").concat(r.message.as_str());
                    self.push_failed(line);
                    false
                }
            },
            Err(e) => {
                let line = name.to_string().concat(": ").concat(e.as_str());
                self.push_failed(line);
                false
            },
        }
    }

    /// Notes FFmpeg's installation (see `step_note`; done: `FFmpeg installed successfully`).
    pub fn note_ffmpeg(&mut self, outcome: &Result<InstallResult, String>)
        ensures
            match step_note(outcome_view(*outcome), "FFmpeg"@, "FFmpeg installed successfully"@) {
                Ok(d) => final(self).done() == old(self).done().push(d) && final(self).failed()
                    == old(self).failed(),
                Err(f) => final(self).failed() == old(self).failed().push(f) && final(self).done()
                    == old(self).done(),
            },
    {
        self.note_step(outcome, "FFmpeg", "FFmpeg installed successfully");
    }

    /// Notes whisper.cpp: already there, or installed now; a failure is not an error (the
    /// transcription has a fallback).
    pub fn note_whisper(&mut self, already_installed: bool, outcome: &Option<Result<InstallResult, String>>)
        ensures
            final(self).failed() == old(self).failed(),
            already_installed ==> final(self).done() == old(self).done().push(
                "whisper.cpp already installed"@,
            ),
            !already_installed && (outcome matches Some(Ok(r)) && r.success) ==> final(self).done()
                == old(self).done().push("whisper.cpp installed successfully"@),
            !already_installed && !(outcome matches Some(Ok(r)) && r.success) ==> final(self).done()
                == old(self).done(),
    {
        if already_installed {
            self.push_done("whisper.cpp already installed".to_string());
        } else {
            match outcome {
                Some(Ok(r)) => {
                    if r.success {
                        self.push_done("whisper.cpp installed successfully".to_string());
                    }
                },
                _ => {},
            }
        }
    }

    /// Notes Ollama's installation (see `step_note`; done: `Ollama installed successfully`);
    /// whether it succeeded, so that the models are pulled next.
    pub fn note_ollama(&mut self, outcome: &Result<InstallResult, String>) -> (ok: bool)
        ensures
            ok == (outcome_view(*outcome) matches Ok((true, _))),
            match step_note(outcome_view(*outcome), "Ollama"@, "Ollama installed successfully"@) {
                Ok(d) => final(self).done() == old(self).done().push(d) && final(self).failed()
                    == old(self).failed(),
                Err(f) => final(self).failed() == old(self).failed().push(f) && final(self).done()
                    == old(self).done(),
            },
    {
        self.note_step(outcome, "Ollama", "Ollama installed successfully")
    }

    /// Notes that Ollama stopped before the models could be pulled.
    pub fn note_ollama_stopped(&mut self)
        ensures
            final(self).failed() == old(self).failed().push(
                "Ollama stopped running before model download could start. Please ensure Ollama is running and try again."@,
            ),
            final(self).done() == old(self).done(),
    {
        self.push_failed(
            "Ollama stopped running before model download could start. Please ensure Ollama is running and try again.".to_string(),
        );
    }

    /// Notes that Ollama was not running when `model` was to be pulled.
    pub fn note_model_skipped(&mut self, model: &str)
        ensures
            final(self).failed() == old(self).failed().push(
                "Ollama stopped running before pulling model '"@ + model@
                    + "'. Please ensure Ollama is running and try again."@,
            ),
            final(self).done() == old(self).done(),
    {
        let line = "Ollama stopped running before pulling model '".to_string().concat(model).concat(
            "'. Please ensure Ollama is running and try again.",
        );
        self.push_failed(line);
    }

    /// Notes how pulling `model` went.
    pub fn note_model_pull(&mut self, model: &str, outcome: &Result<(), String>)
        ensures
            outcome is Ok ==> final(self).done() == old(self).done().push(
                "Model '"@ + model@ + "' installed successfully"@,
            ) && final(self).failed() == old(self).failed(),
            outcome matches Err(e) ==> final(self).failed() == old(self).failed().push(
                "Model '"@ + model@ + "': "@ + e@,
            ) && final(self).done() == old(self).done(),
    {
        match outcome {
            Ok(()) => {
                let line = "Model '".to_string().concat(model).concat("' installed successfully");
                self.push_done(line);
            },
            Err(e) => {
                let line = "Model '".to_string().concat(model).concat("': ").concat(e.as_str());
                self.push_failed(line);
            },
        }
    }

    /// The overall answer: success with everything done when nothing failed, else failure with
    /// what failed and then what was done.
    pub fn summary(&self) -> (r: InstallResult)
        ensures
            !r.requires_restart,
            r.success == (self.failed().len() == 0),
            self.failed().len() == 0 ==> r.message@ == "All dependencies installed successfully:\n"@
                + newline_joined(self.done()),
            self.failed().len() > 0 ==> r.message@ == "Some installations failed:\n"@
                + newline_joined(self.failed()) + "\n\nSuccessful:\n"@ + newline_joined(self.done()),
    {
        let done = join_lines(&self.results);
        if self.errors.len() == 0 {
            assert(self.failed().len() == 0);
            let m = "All dependencies installed successfully:\n".to_string().concat(done.as_str());
            InstallResult { success: true, message: m, requires_restart: false }
        } else {
            let failed = join_lines(&self.errors);
            let m = "Some installations failed:\n".to_string().concat(failed.as_str()).concat(
                "\n\nSuccessful:\n",
            ).concat(done.as_str());
            InstallResult { success: false, message: m, requires_restart: false }
        }
    }
}

/// The message of a finished installation of everything (see `DependencyReport::summary`).
pub open spec fn report_message(done: Seq<Seq<char>>, failed: Seq<Seq<char>>) -> Seq<char> {
    if failed.len() == 0 {
        "All dependencies installed successfully:\n"@ + newline_joined(done)
    } else {
        "Some installations failed:\n"@ + newline_joined(failed) + "\n\nSuccessful:\n"@ + newline_joined(done)
    }
}

/// Where installing everything the AI features need stands.
#[derive(Clone, Copy, PartialEq, Eq, Debug, Structural)]
pub enum SetupPhase {
    /// FFmpeg is being installed.
    Ffmpeg,
    /// whisper.cpp is being looked for.
    WhisperCheck,
    /// whisper.cpp is being installed.
    Whisper,
    /// Ollama is being installed.
    Ollama,
    /// Ollama is given time to settle after its installation.
    Settle,
    /// Whether Ollama runs is being checked for the first time.
    FirstCheck,
    /// Ollama is being started.
    Starting,
    /// Waiting before check number `n` that the started Ollama runs.
    StartWait(usize),
    /// Check number `n` that the started Ollama runs.
    StartCheck(usize),
    /// The last check that Ollama runs, before the models.
    FinalCheck,
    /// Whether Ollama still runs before pulling model `i`.
    ModelCheck(usize),
    /// Model `i` is being pulled.
    ModelPull(usize),
    /// Everything is done.
    Finished,
}

/// What happened while installing everything.
#[derive(Debug)]
pub enum SetupEvent {
    /// An installer answered.
    Installed(Result<InstallResult, String>),
    /// whisper.cpp was found, or not.
    WhisperFound(bool),
    /// The wait asked for is over.
    Slept,
    /// Ollama runs, or not.
    Running(bool),
    /// Ollama was asked to start.
    Started,
    /// A model pull ended.
    Pulled(Result<(), String>),
}

/// What to do next while installing everything.
#[derive(Debug)]
pub enum SetupAction {
    Install(Tool),
    FindWhisper,
    /// Wait this many seconds.
    Sleep(u64),
    CheckRunning,
    StartOllama,
    Pull(String),
    /// Everything is done; this is the outcome.
    Finish(InstallResult),
}

/// The installation of FFmpeg, whisper.cpp, Ollama and the tagging models, one step at a time:
/// FFmpeg; whisper.cpp unless it is there; Ollama, and when it installed, a wait of
/// `OLLAMA_SETTLE_SECS` and a check that it runs; if not, a start and up to
/// `OLLAMA_START_CHECKS` checks two seconds apart; a last check; then each model of
/// `required_models`, pulled while Ollama still runs.
pub struct DependencySetup {
    phase: SetupPhase,
    report: DependencyReport,
    models: Vec<String>,
}

/// The phase that follows model `i` of `n`.
pub open spec fn after_model(i: int, n: int) -> SetupPhase {
    if i + 1 < n {
        SetupPhase::ModelCheck((i + 1) as usize)
    } else {
        SetupPhase::Finished
    }
}

impl DependencySetup {
    /// Where the installation stands.
    pub closed spec fn phase(&self) -> SetupPhase {
        self.phase
    }

    /// What was done so far.
    pub closed spec fn done(&self) -> Seq<Seq<char>> {
        self.report.done()
    }

    /// What failed so far.
    pub closed spec fn failed(&self) -> Seq<Seq<char>> {
        self.report.failed()
    }

    /// The models to pull.
    pub closed spec fn models(&self) -> Seq<Seq<char>> {
        self.models@.map_values(|m: String| m@)
    }

    /// The start: nothing done, FFmpeg to install.
    pub fn begin() -> (r: (Self, SetupAction))
        ensures
            r.0.phase() == SetupPhase::Ffmpeg,
            r.0.done().len() == 0,
            r.0.failed().len() == 0,
            r.0.models() == seq!["llava"@],
            (r.1 matches SetupAction::Install(Tool::Ffmpeg)),
    {
        (DependencySetup { phase: SetupPhase::Ffmpeg, report: DependencyReport::new(), models: required_models() }, SetupAction::Install(Tool::Ffmpeg))
    }

    fn finish(&self) -> (r: SetupAction)
        ensures
            (r matches SetupAction::Finish(res) && res.success == (self.failed().len() == 0)
                && res.message@ == report_message(self.done(), self.failed()) && !res.requires_restart),
    {
        SetupAction::Finish(self.report.summary())
    }

    fn after_model_step(&mut self, i: usize) -> (r: SetupAction)
        requires
            i < old(self).models().len(),
        ensures
            final(self).phase() == after_model(i as int, old(self).models().len() as int),
            final(self).done() == old(self).done(),
            final(self).failed() == old(self).failed(),
            final(self).models() == old(self).models(),
            i + 1 < old(self).models().len() ==> r is CheckRunning,
            i + 1 >= old(self).models().len() ==> (r matches SetupAction::Finish(res) && res.success
                == (final(self).failed().len() == 0) && res.message@ == report_message(
                final(self).done(),
                final(self).failed(),
            )),
    {
        assert(self.models@.len() == self.models().len());
        if i < self.models.len() - 1 {
            self.phase = SetupPhase::ModelCheck(i + 1);
            SetupAction::CheckRunning
        } else {
            self.phase = SetupPhase::Finished;
            self.finish()
        }
    }

    /// One step of the installation (see `DependencySetup`); an event that does not fit the
    /// phase changes nothing.
    pub fn step(&mut self, event: SetupEvent) -> (r: SetupAction)
        ensures
            final(self).models() == old(self).models(),
            match (old(self).phase(), event) {
                (SetupPhase::Ffmpeg, SetupEvent::Installed(o)) => {
                    &&& final(self).phase() == SetupPhase::WhisperCheck
                    &&& r is FindWhisper
                    &&& match step_note(outcome_view(o), "FFmpeg"@, "FFmpeg installed successfully"@) {
                        Ok(d) => final(self).done() == old(self).done().push(d) && final(self).failed() == old(self).failed(),
                        Err(f) => final(self).failed() == old(self).failed().push(f) && final(self).done() == old(self).done(),
                    }
                },
                (SetupPhase::WhisperCheck, SetupEvent::WhisperFound(true)) => {
                    &&& final(self).phase() == SetupPhase::Ollama
                    &&& r matches SetupAction::Install(Tool::Ollama)
                    &&& final(self).done() == old(self).done().push("whisper.cpp already installed"@)
                    &&& final(self).failed() == old(self).failed()
                },
                (SetupPhase::WhisperCheck, SetupEvent::WhisperFound(false)) => {
                    &&& final(self).phase() == SetupPhase::Whisper
                    &&& r matches SetupAction::Install(Tool::WhisperCpp)
                    &&& final(self).done() == old(self).done()
                    &&& final(self).failed() == old(self).failed()
                },
                (SetupPhase::Whisper, SetupEvent::Installed(o)) => {
                    &&& final(self).phase() == SetupPhase::Ollama
                    &&& r matches SetupAction::Install(Tool::Ollama)
                    &&& final(self).done() == if o matches Ok(res) && res.success {
                        old(self).done().push("whisper.cpp installed successfully"@)
                    } else {
                        old(self).done()
                    }
                    &&& final(self).failed() == old(self).failed()
                },
                (SetupPhase::Ollama, SetupEvent::Installed(o)) => {
                    &&& match step_note(outcome_view(o), "Ollama"@, "Ollama installed successfully"@) {
                        Ok(d) => final(self).done() == old(self).done().push(d) && final(self).failed() == old(self).failed(),
                        Err(f) => final(self).failed() == old(self).failed().push(f) && final(self).done() == old(self).done(),
                    }
                    &&& if outcome_view(o) matches Ok((true, _)) {
                        final(self).phase() == SetupPhase::Settle && (r matches SetupAction::Sleep(n) && n == OLLAMA_SETTLE_SECS)
                    } else {
                        final(self).phase() == SetupPhase::Finished && (r matches SetupAction::Finish(res)
                            && res.success == (final(self).failed().len() == 0)
                            && res.message@ == report_message(final(self).done(), final(self).failed()))
                    }
                },
                (SetupPhase::Settle, SetupEvent::Slept) => {
                    &&& final(self).phase() == SetupPhase::FirstCheck
                    &&& r is CheckRunning
                    &&& final(self).done() == old(self).done() && final(self).failed() == old(self).failed()
                },
                (SetupPhase::FirstCheck, SetupEvent::Running(b)) => {
                    &&& final(self).phase() == if b { SetupPhase::FinalCheck } else { SetupPhase::Starting }
                    &&& if b { r is CheckRunning } else { r is StartOllama }
                    &&& final(self).done() == old(self).done() && final(self).failed() == old(self).failed()
                },
                (SetupPhase::Starting, SetupEvent::Started) => {
                    &&& final(self).phase() == SetupPhase::StartWait(0)
                    &&& (r matches SetupAction::Sleep(n) && n == 2)
                    &&& final(self).done() == old(self).done() && final(self).failed() == old(self).failed()
                },
                (SetupPhase::StartWait(n), SetupEvent::Slept) => {
                    &&& final(self).phase() == SetupPhase::StartCheck(n)
                    &&& r is CheckRunning
                    &&& final(self).done() == old(self).done() && final(self).failed() == old(self).failed()
                },
                (SetupPhase::StartCheck(n), SetupEvent::Running(b)) => {
                    &&& if b || n + 1 >= OLLAMA_START_CHECKS {
                        final(self).phase() == SetupPhase::FinalCheck && r is CheckRunning
                    } else {
                        final(self).phase() == SetupPhase::StartWait((n + 1) as usize) && (r matches SetupAction::Sleep(s) && s == 2)
                    }
                    &&& final(self).done() == old(self).done() && final(self).failed() == old(self).failed()
                },
                (SetupPhase::FinalCheck, SetupEvent::Running(false)) => {
                    &&& final(self).phase() == SetupPhase::Finished
                    &&& final(self).done() == old(self).done()
                    &&& final(self).failed() == old(self).failed().push(
                        "Ollama stopped running before model download could start. Please ensure Ollama is running and try again."@,
                    )
                    &&& (r matches SetupAction::Finish(res) && res.success == false
                        && res.message@ == report_message(final(self).done(), final(self).failed()))
                },
                (SetupPhase::FinalCheck, SetupEvent::Running(true)) => {
                    &&& final(self).done() == old(self).done() && final(self).failed() == old(self).failed()
                    &&& if old(self).models().len() > 0 {
                        final(self).phase() == SetupPhase::ModelCheck(0) && r is CheckRunning
                    } else {
                        final(self).phase() == SetupPhase::Finished && (r matches SetupAction::Finish(res)
                            && res.success == (final(self).failed().len() == 0)
                            && res.message@ == report_message(final(self).done(), final(self).failed()))
                    }
                },
                (SetupPhase::ModelCheck(i), SetupEvent::Running(true)) => i < old(self).models().len() ==> {
                    &&& final(self).phase() == SetupPhase::ModelPull(i)
                    &&& (r matches SetupAction::Pull(m) && m@ == old(self).models()[i as int])
                    &&& final(self).done() == old(self).done() && final(self).failed() == old(self).failed()
                },
                (SetupPhase::ModelCheck(i), SetupEvent::Running(false)) => i < old(self).models().len() ==> {
                    &&& final(self).phase() == after_model(i as int, old(self).models().len() as int)
                    &&& final(self).done() == old(self).done()
                    &&& final(self).failed() == old(self).failed().push(
                        "Ollama stopped running before pulling model '"@ + old(self).models()[i as int]
                            + "'. Please ensure Ollama is running and try again."@,
                    )
                    &&& (i + 1 < old(self).models().len() ==> r is CheckRunning)
                    &&& (i + 1 >= old(self).models().len() ==> (r matches SetupAction::Finish(res)
                        && res.success == (final(self).failed().len() == 0)
                        && res.message@ == report_message(final(self).done(), final(self).failed())))
                },
                (SetupPhase::ModelPull(i), SetupEvent::Pulled(o)) => i < old(self).models().len() ==> {
                    &&& final(self).phase() == after_model(i as int, old(self).models().len() as int)
                    &&& match o {
                        Ok(()) => final(self).done() == old(self).done().push(
                            "Model '"@ + old(self).models()[i as int] + "' installed successfully"@,
                        ) && final(self).failed() == old(self).failed(),
                        Err(e) => final(self).failed() == old(self).failed().push(
                            "Model '"@ + old(self).models()[i as int] + "': "@ + e@,
                        ) && final(self).done() == old(self).done(),
                    }
                    &&& (i + 1 < old(self).models().len() ==> r is CheckRunning)
                    &&& (i + 1 >= old(self).models().len() ==> (r matches SetupAction::Finish(res)
                        && res.success == (final(self).failed().len() == 0)
                        && res.message@ == report_message(final(self).done(), final(self).failed())))
                },
                _ => final(self).phase() == old(self).phase() && final(self).done() == old(self).done()
                    && final(self).failed() == old(self).failed(),
            },
    {
        match (self.phase, event) {
            (SetupPhase::Ffmpeg, SetupEvent::Installed(o)) => {
                self.report.note_ffmpeg(&o);
                self.phase = SetupPhase::WhisperCheck;
                SetupAction::FindWhisper
            },
            (SetupPhase::WhisperCheck, SetupEvent::WhisperFound(found)) => {
                if found {
                    self.report.note_whisper(true, &None);
                    self.phase = SetupPhase::Ollama;
                    SetupAction::Install(Tool::Ollama)
                } else {
                    self.phase = SetupPhase::Whisper;
                    SetupAction::Install(Tool::WhisperCpp)
                }
            },
            (SetupPhase::Whisper, SetupEvent::Installed(o)) => {
                self.report.note_whisper(false, &Some(o));
                self.phase = SetupPhase::Ollama;
                SetupAction::Install(Tool::Ollama)
            },
            (SetupPhase::Ollama, SetupEvent::Installed(o)) => {
                if self.report.note_ollama(&o) {
                    self.phase = SetupPhase::Settle;
                    SetupAction::Sleep(OLLAMA_SETTLE_SECS)
                } else {
                    self.phase = SetupPhase::Finished;
                    self.finish()
                }
            },
            (SetupPhase::Settle, SetupEvent::Slept) => {
                self.phase = SetupPhase::FirstCheck;
                SetupAction::CheckRunning
            },
            (SetupPhase::FirstCheck, SetupEvent::Running(b)) => {
                if b {
                    self.phase = SetupPhase::FinalCheck;
                    SetupAction::CheckRunning
                } else {
                    self.phase = SetupPhase::Starting;
                    SetupAction::StartOllama
                }
            },
            (SetupPhase::Starting, SetupEvent::Started) => {
                self.phase = SetupPhase::StartWait(0);
                SetupAction::Sleep(2)
            },
            (SetupPhase::StartWait(n), SetupEvent::Slept) => {
                self.phase = SetupPhase::StartCheck(n);
                SetupAction::CheckRunning
            },
            (SetupPhase::StartCheck(n), SetupEvent::Running(b)) => {
                if b || n >= OLLAMA_START_CHECKS - 1 {
                    self.phase = SetupPhase::FinalCheck;
                    SetupAction::CheckRunning
                } else {
                    self.phase = SetupPhase::StartWait(n + 1);
                    SetupAction::Sleep(2)
                }
            },
            (SetupPhase::FinalCheck, SetupEvent::Running(b)) => {
                if !b {
                    self.report.note_ollama_stopped();
                    self.phase = SetupPhase::Finished;
                    self.finish()
                } else if self.models.len() > 0 {
                    self.phase = SetupPhase::ModelCheck(0);
                    SetupAction::CheckRunning
                } else {
                    self.phase = SetupPhase::Finished;
                    self.finish()
                }
            },
            (SetupPhase::ModelCheck(i), SetupEvent::Running(b)) => {
                if i >= self.models.len() {
                    return SetupAction::CheckRunning;
                }
                if b {
                    self.phase = SetupPhase::ModelPull(i);
                    SetupAction::Pull(self.models[i].clone())
                } else {
                    let m = self.models[i].clone();
                    self.report.note_model_skipped(m.as_str());
                    self.after_model_step(i)
                }
            },
            (SetupPhase::ModelPull(i), SetupEvent::Pulled(o)) => {
                if i >= self.models.len() {
                    return SetupAction::CheckRunning;
                }
                let m = self.models[i].clone();
                self.report.note_model_pull(m.as_str(), &o);
                self.after_model_step(i)
            },
            _ => SetupAction::CheckRunning,
        }
    }
}

/// The models pulled for tagging once Ollama runs.
pub fn required_models() -> (r: Vec<String>)
    ensures
        r@.map_values(|s: String| s@) == seq!["llava"@],
{
    let mut v: Vec<String> = Vec::new();
    v.push("llava".to_string());
    assert(v@.map_values(|s: String| s@) =~= seq!["llava"@]);
    v
}

/// Seconds to wait after installing Ollama before checking that it runs.
pub const OLLAMA_SETTLE_SECS: u64 = 3;

/// How often, two seconds apart, to check that Ollama has started.
pub const OLLAMA_START_CHECKS: usize = 10;

/// Where an installed whisper.cpp binary is looked for, in order.
pub open spec fn whisper_cpp_paths() -> Seq<Seq<char>> {
    seq![
        "/opt/homebrew/bin/whisper-cli"@,
        "/usr/local/bin/whisper-cli"@,
        "/usr/bin/whisper-cli"@,
        "/opt/homebrew/bin/whisper-cpp"@,
        "/usr/local/bin/whisper-cpp"@,
        "/usr/bin/whisper-cpp"@,
        "/opt/homebrew/bin/main"@,
        "/usr/local/bin/whisper"@,
    ]
}

/// Where an installed whisper.cpp binary is looked for (see `whisper_cpp_paths`); after these,
/// the programs `whisper-cli` and `whisper-cpp` are asked for their help text.
pub fn whisper_cpp_candidates() -> (r: Vec<String>)
    ensures
        r@.map_values(|s: String| s@) == whisper_cpp_paths(),
{
    let names = [
        "/opt/homebrew/bin/whisper-cli",
        "/usr/local/bin/whisper-cli",
        "/usr/bin/whisper-cli",
        "/opt/homebrew/bin/whisper-cpp",
        "/usr/local/bin/whisper-cpp",
        "/usr/bin/whisper-cpp",
        "/opt/homebrew/bin/main",
        "/usr/local/bin/whisper",
    ];
    let mut v: Vec<String> = Vec::new();
    let mut i: usize = 0;
    while i < names.len()
        invariant
            i <= names@.len(),
            v@.len() == i,
            forall|k: int| 0 <= k < i ==> (#[trigger] v@[k])@ == names@[k]@,
        decreases names.len() - i,
    {
        v.push(names[i].to_string());
        i = i + 1;
    }
    assert(names@.map_values(|s: &str| s@) =~= whisper_cpp_paths());
    assert(v@.map_values(|s: String| s@) =~= whisper_cpp_paths());
    v
}
} // verus!
