//! The desktop commands' own logic: the running-model record, Ollama pull progress, install
//! instructions per platform, and resource limits.

use vstd::prelude::*;
use crate::text::{
    chars_of, contains, contains_seq, decimal, lowercase, same_text, split_on, string_of_range,
    to_decimal, to_lowercase, trim, trimmed,
};

verus! {

/// Status of the model started from the application.
#[derive(Clone, Debug)]
pub struct ModelStatus {
    pub name: String,
    pub running: bool,
    pub started_at: u64,
    pub duration_seconds: u64,
}

/// What starting a model asks for.
#[derive(Clone, Debug)]
pub struct ModelConfig {
    pub name: String,
    pub ollama_url: Option<String>,
}

/// A model known to the local Ollama server.
#[derive(Clone, Debug)]
pub struct OllamaModel {
    pub name: String,
    pub size: u64,
    pub modified_at: String,
    pub digest: String,
}

/// The models known to the local Ollama server.
#[derive(Clone, Debug)]
pub struct OllamaModelsResponse {
    pub models: Vec<OllamaModel>,
}

/// A model the Ollama server has loaded.
#[derive(Clone, Debug)]
pub struct RunningModelInfo {
    pub name: String,
    pub model: String,
    pub size: u64,
    pub expires_at: Option<String>,
}

/// The models the Ollama server has loaded.
#[derive(Clone, Debug)]
pub struct RunningModelsResponse {
    pub models: Vec<RunningModelInfo>,
}

/// How to install a dependency by hand.
#[derive(Clone, Debug)]
pub struct InstallInstructions {
    pub platform: String,
    pub method: String,
    pub command: String,
    pub alternative: Option<String>,
    pub url: Option<String>,
}

/// The outcome of an automatic installation.
#[derive(Clone, Debug)]
pub struct InstallResult {
    pub success: bool,
    pub message: String,
    pub requires_restart: bool,
}

/// Limits for transcoding jobs.
#[derive(Clone, Debug)]
pub struct TranscodingResourceLimits {
    /// Threads; zero lets ffmpeg choose.
    pub threads: i32,
    pub use_gpu: bool,
    /// GPU device; -1 lets ffmpeg choose.
    pub gpu_device: i32,
    /// Memory limit in MiB; zero is no limit.
    pub memory_limit_mb: u32,
    /// The ffmpeg preset.
    pub preset: String,
    pub max_concurrent_jobs: u32,
}

impl TranscodingResourceLimits {
    /// The conservative limits used until others are saved: two threads, the GPU if there is
    /// one (chosen automatically), 2 GiB, the `fast` preset, one job at a time.
    pub fn conservative() -> (r: Self)
        ensures
            r.threads == 2,
            r.use_gpu,
            r.gpu_device == -1,
            r.memory_limit_mb == 2048,
            r.preset@ == "fast"@,
            r.max_concurrent_jobs == 1,
    {
        TranscodingResourceLimits {
            threads: 2,
            use_gpu: true,
            gpu_device: -1,
            memory_limit_mb: 2048,
            preset: String::from_str("fast"),
            max_concurrent_jobs: 1,
        }
    }
}

/// The saved transcoding limits, or the conservative ones when none were saved.
pub fn effective_transcoding_limits(saved: Option<TranscodingResourceLimits>) -> (r: TranscodingResourceLimits)
    ensures
        saved is Some ==> r == saved->0,
        saved is None ==> r.threads == 2 && r.use_gpu && r.gpu_device == -1 && r.memory_limit_mb
            == 2048 && r.preset@ == "fast"@ && r.max_concurrent_jobs == 1,
{
    match saved {
        Some(l) => l,
        None => TranscodingResourceLimits::conservative(),
    }
}

/// The model started from the application, with its process id.
#[derive(Clone, Debug)]
pub struct RunningModel {
    pub name: String,
    pub pid: u32,
    pub started_at: u64,
}

/// Why a model could not be started or stopped.
#[derive(Clone, Copy, PartialEq, Eq, Debug, Structural)]
pub enum ModelRunError {
    /// A model is already running.
    AlreadyRunning,
    /// No model is running.
    NothingRunning,
}

/// The at-most-one model started from the application.
pub struct ModelRunner {
    running: Option<RunningModel>,
}

/// The Ollama address a model is started against: the configured one, or the local default.
pub open spec fn ollama_address(url: Option<String>) -> Seq<char> {
    match url {
        Some(u) => u@,
        None => "http://localhost:11434"@,
    }
}

impl ModelRunner {
    /// Whether a model is running, and which.
    pub closed spec fn current(&self) -> Option<(Seq<char>, u32, u64)> {
        match self.running {
            Some(m) => Some((m.name@, m.pid, m.started_at)),
            None => None,
        }
    }

    /// No model running.
    pub fn new() -> (r: Self)
        ensures
            r.current() is None,
    {
        ModelRunner { running: None }
    }

    /// Whether a model may be started now.
    pub fn check_can_start(&self) -> (r: Result<(), ModelRunError>)
        ensures
            r is Ok <==> self.current() is None,
            r is Err ==> r == Err::<(), _>(ModelRunError::AlreadyRunning),
    {
        match &self.running {
            Some(_) => Err(ModelRunError::AlreadyRunning),
            None => Ok(()),
        }
    }

    /// The address the model is started against (see `ollama_address`).
    pub fn start_address(config: &ModelConfig) -> (r: String)
        ensures
            r@ == ollama_address(config.ollama_url),
    {
        match &config.ollama_url {
            Some(u) => u.clone(),
            None => String::from_str("http://localhost:11434"),
        }
    }

    /// Records a model whose process was started, and returns its status (just started).
    pub fn record_start(&mut self, name: String, pid: u32, now: u64) -> (r: Result<ModelStatus, ModelRunError>)
        ensures
            old(self).current() is Some ==> r == Err::<ModelStatus, _>(ModelRunError::AlreadyRunning) && final(self).current() == old(self).current(),
            old(self).current() is None ==> (r matches Ok(s) && s.name@ == name@ && s.running && s.started_at == now && s.duration_seconds == 0
                && final(self).current() == Some((name@, pid, now))),
    {
        if self.running.is_some() {
            return Err(ModelRunError::AlreadyRunning);
        }
        let status = ModelStatus { name: name.clone(), running: true, started_at: now, duration_seconds: 0 };
        self.running = Some(RunningModel { name, pid, started_at: now });
        Ok(status)
    }

    /// Forgets the running model and returns it, so that its process can be stopped.
    pub fn stop(&mut self) -> (r: Result<RunningModel, ModelRunError>)
        ensures
            final(self).current() is None,
            old(self).current() is None ==> r == Err::<RunningModel, _>(ModelRunError::NothingRunning),
            old(self).current() matches Some(c) ==> (r matches Ok(m) && (m.name@, m.pid, m.started_at) == c),
    {
        match self.running.take() {
            Some(m) => Ok(m),
            None => Err(ModelRunError::NothingRunning),
        }
    }

    /// The status of the running model at time `now`.
    pub fn status(&self, now: u64) -> (r: Option<ModelStatus>)
        requires
            self.current() matches Some(c) ==> c.2 <= now,
        ensures
            self.current() is None ==> r is None,
            self.current() matches Some(c) ==> (r matches Some(s) && s.name@ == c.0 && s.running
                && s.started_at == c.2 && s.duration_seconds == now - c.2),
    {
        match &self.running {
            Some(m) => Some(ModelStatus {
                name: m.name.clone(),
                running: true,
                started_at: m.started_at,
                duration_seconds: now - m.started_at,
            }),
            None => None,
        }
    }
}

/// Lines trimmed, the empty ones left out.
pub open spec fn kept_lines(ps: Seq<Seq<char>>) -> Seq<Seq<char>>
    decreases ps.len(),
{
    if ps.len() == 0 {
        ps
    } else if trimmed(ps.last()).len() > 0 {
        kept_lines(ps.drop_last()).push(trimmed(ps.last()))
    } else {
        kept_lines(ps.drop_last())
    }
}

/// The complete lines of a pull's output buffer, trimmed, the empty ones left out.
pub open spec fn complete_lines(buf: Seq<char>) -> Seq<Seq<char>> {
    kept_lines(split_on(buf, '\n').drop_last())
}

/// What is left of a pull's output buffer after its last newline.
pub open spec fn unfinished_line(buf: Seq<char>) -> Seq<char> {
    split_on(buf, '\n').last()
}

/// Splits a pull's output buffer into its complete lines (see `complete_lines`) and the
/// unfinished rest (see `unfinished_line`).
pub fn drain_complete_lines(buffer: &str) -> (r: (Vec<String>, String))
    ensures
        r.0@.len() == complete_lines(buffer@).len(),
        forall|k: int| 0 <= k < r.0@.len() ==> (#[trigger] r.0@[k])@ == complete_lines(buffer@)[k],
        r.1@ == unfinished_line(buffer@),
{
    let v = chars_of(buffer);
    let mut out: Vec<String> = Vec::new();
    let mut start: usize = 0;
    let mut i: usize = 0;
    while i < v.len()
        invariant
            start <= i <= v.len(),
            ({
                let ps = split_on(v@.subrange(0, i as int), '\n');
                let done = kept_lines(ps.drop_last());
                &&& ps.len() >= 1
                &&& ps.last() == v@.subrange(start as int, i as int)
                &&& out@.len() == done.len()
                &&& forall|k: int| 0 <= k < out@.len() ==> (#[trigger] out@[k])@ == done[k]
            }),
        decreases v.len() - i,
    {
        let ghost ps = split_on(v@.subrange(0, i as int), '\n');
        proof {
            assert(v@.subrange(0, i + 1).drop_last() =~= v@.subrange(0, i as int));
        }
        if v[i] == '\n' {
            let line = string_of_range(v.as_slice(), start, i);
            let t = trim(line.as_str());
            let ghost before = out@;
            if !t.as_str().is_empty() {
                out.push(t);
            }
            proof {
                let ps2 = split_on(v@.subrange(0, i + 1), '\n');
                assert(ps2 == ps.push(Seq::<char>::empty()));
                assert(ps2.drop_last() =~= ps);
                let done2 = kept_lines(ps);
                assert forall|k: int| 0 <= k < out@.len() implies (#[trigger] out@[k])@ == done2[k] by {
                    if k < before.len() {
                        assert(out@[k] == before[k]);
                    }
                }
            }
            start = i + 1;
            i = i + 1;
            proof {
                assert(v@.subrange(start as int, i as int) =~= Seq::<char>::empty());
            }
        } else {
            proof {
                let ps2 = split_on(v@.subrange(0, i + 1), '\n');
                assert(ps2.drop_last() =~= ps.drop_last());
            }
            i = i + 1;
            proof {
                assert(v@.subrange(start as int, i as int) =~= v@.subrange(start as int, i - 1).push(v@[i - 1]));
            }
        }
    }
    proof {
        assert(v@.subrange(0, v@.len() as int) =~= v@);
    }
    let tail = string_of_range(v.as_slice(), start, v.len());
    (out, tail)
}

/// Whether a pull status line reports completion.
pub open spec fn pull_completed(status: Seq<char>) -> bool {
    status == "success"@ || contains_seq(status, "complete"@)
}

/// Whether a pull status reports completion (`success`, or a status mentioning `complete`).
pub fn is_pull_complete(status: &str) -> (r: bool)
    ensures
        r == pull_completed(status@),
{
    same_text(status, "success") || contains(status, "complete")
}

/// Whether a listed model name is the pulled model: the same name (case aside), its `latest`
/// tag, or a name containing it.
pub open spec fn names_model(listed: Seq<char>, model: Seq<char>) -> bool {
    let n = lowercase(listed);
    let m = lowercase(model);
    n == m || n == m + ":latest"@ || contains_seq(n, m)
}

/// Whether some listed model is the pulled one (see `names_model`).
pub fn model_was_pulled(listed: &Vec<String>, model: &str) -> (r: bool)
    ensures
        r == exists|k: int| 0 <= k < listed@.len() && names_model(#[trigger] listed@[k]@, model@),
{
    let m = to_lowercase(model);
    let tagged = m.clone().concat(":latest");
    let mut i: usize = 0;
    while i < listed.len()
        invariant
            i <= listed@.len(),
            m@ == lowercase(model@),
            tagged@ == lowercase(model@) + ":latest"@,
            forall|k: int| 0 <= k < i ==> !names_model(#[trigger] listed@[k]@, model@),
        decreases listed.len() - i,
    {
        let n = to_lowercase(listed[i].as_str());
        if same_text(n.as_str(), m.as_str()) || same_text(n.as_str(), tagged.as_str()) || contains(n.as_str(), m.as_str()) {
            assert(names_model(listed@[i as int]@, model@));
            return true;
        }
        i = i + 1;
    }
    false
}

/// The text field `key` of a JSON object line: none when the line is not JSON, not an
/// object, lacks the field, or the field is not a string (what `serde_json` reads).
pub uninterp spec fn json_str_field(line: Seq<char>, key: Seq<char>) -> Option<Seq<char>>;

/// Reads the text field `key` of a JSON line (`serde_json::from_str` into a `Value`, then
/// `Value::get` and `Value::as_str`). The result is named `json_str_field`, a function of the
/// line and the key alone.
#[verifier::external_body]
fn json_str_field_of(line: &str, key: &str) -> (r: Option<String>)
    ensures
        match r {
            Some(s) => json_str_field(line@, key@) == Some(s@),
            None => json_str_field(line@, key@) is None,
        },
{
    serde_json::from_str::<serde_json::Value>(line).ok().and_then(|v| v.get(key).and_then(|x| x.as_str()).map(|x| x.to_string()))
}

/// What one line of a pull's progress stream says: the pull is complete when its status is
/// (see `pull_completed`); then, complete or not, an `error` field fails the pull. A line
/// that is not JSON says nothing.
pub open spec fn pull_line(line: Seq<char>) -> Result<bool, Seq<char>> {
    let complete = match json_str_field(line, "status"@) {
        Some(st) => pull_completed(st),
        None => pull_completed(Seq::empty()),
    };
    match json_str_field(line, "error"@) {
        Some(e) => Err("Ollama pull error: "@ + e),
        None => Ok(complete),
    }
}

/// What one line of a pull's progress stream says (see `pull_line`).
pub fn pull_line_outcome(line: &str) -> (r: Result<bool, String>)
    ensures
        match pull_line(line@) {
            Ok(b) => r == Ok::<bool, String>(b),
            Err(e) => r matches Err(m) && m@ == e,
        },
{
    proof {
        reveal_strlit("");
        assert(""@ =~= Seq::<char>::empty());
    }
    let complete = match json_str_field_of(line, "status") {
        Some(st) => is_pull_complete(st.as_str()),
        None => is_pull_complete(""),
    };
    match json_str_field_of(line, "error") {
        Some(e) => Err(String::from_str("Ollama pull error: ").concat(e.as_str())),
        None => Ok(complete),
    }
}

/// What the unfinished last line of a pull's stream says: an error only where the line has
/// both a status and an error field.
pub open spec fn pull_tail(line: Seq<char>) -> Option<Seq<char>> {
    match (json_str_field(line, "status"@), json_str_field(line, "error"@)) {
        (Some(_), Some(e)) => Some("Ollama pull error: "@ + e),
        _ => None,
    }
}

/// Where the first newline of `s` is, or -1 when it has none.
pub open spec fn first_newline(s: Seq<char>) -> int
    decreases s.len(),
{
    if s.len() == 0 {
        -1
    } else if s[0] == '\n' {
        0
    } else {
        let r = first_newline(s.subrange(1, s.len() as int));
        if r < 0 {
            -1
        } else {
            r + 1
        }
    }
}

/// What follows the line that completes a pull in `buf`, read line by line from the front
/// as the pull's output is: none when no complete line completes it, or when a line fails it
/// first. Empty lines are passed over.
pub open spec fn rest_after_completion(buf: Seq<char>) -> Option<Seq<char>>
    decreases buf.len(),
{
    let p = first_newline(buf);
    if p < 0 || p >= buf.len() {
        None
    } else {
        let line = trimmed(buf.subrange(0, p));
        let rest = buf.subrange(p + 1, buf.len() as int);
        if line.len() > 0 && pull_line(line) is Err {
            None
        } else if line.len() > 0 && pull_line(line) == Ok::<bool, Seq<char>>(true) {
            Some(rest)
        } else {
            rest_after_completion(rest)
        }
    }
}

/// What is left over after some output: when it is not blank, it is read as one message
/// (see `pull_tail`), which may fail the pull.
pub open spec fn leftover_failure(text: Seq<char>) -> Option<Seq<char>> {
    let t = trimmed(text);
    if t.len() > 0 {
        pull_tail(t)
    } else {
        None
    }
}

/// The failure that the output left after the completing line in `buf` brings, if any.
pub open spec fn completion_tail(buf: Seq<char>) -> Option<Seq<char>> {
    match rest_after_completion(buf) {
        Some(rest) => leftover_failure(rest),
        None => None,
    }
}

proof fn lemma_first_newline_at(s: Seq<char>, p: int)
    requires
        0 <= p < s.len(),
        s[p] == '\n',
        forall|q: int| 0 <= q < p ==> s[q] != '\n',
    ensures
        first_newline(s) == p,
    decreases p,
{
    if p > 0 {
        let t = s.subrange(1, s.len() as int);
        assert forall|q: int| 0 <= q < p - 1 implies t[q] != '\n' by {
            assert(t[q] == s[q + 1]);
        }
        assert(t[p - 1] == s[p]);
        lemma_first_newline_at(t, p - 1);
    }
}

proof fn lemma_first_newline_none(s: Seq<char>)
    requires
        forall|q: int| 0 <= q < s.len() ==> s[q] != '\n',
    ensures
        first_newline(s) == -1,
    decreases s.len(),
{
    if s.len() > 0 {
        let t = s.subrange(1, s.len() as int);
        assert forall|q: int| 0 <= q < t.len() implies t[q] != '\n' by {
            assert(t[q] == s[q + 1]);
        }
        lemma_first_newline_none(t);
    }
}

fn completion_rest(buf: &str) -> (r: Option<String>)
    ensures
        match rest_after_completion(buf@) {
            Some(x) => r matches Some(y) && y@ == x,
            None => r is None,
        },
{
    let v = chars_of(buf);
    let n = v.len();
    let mut start: usize = 0;
    assert(v@.subrange(0, n as int) =~= v@);
    while start < n
        invariant
            start <= n == v@.len(),
            v@ == buf@,
            rest_after_completion(v@) == rest_after_completion(v@.subrange(start as int, n as int)),
        decreases n - start,
    {
        let mut i: usize = start;
        while i < n && v[i] != '\n'
            invariant
                start <= i <= n == v@.len(),
                forall|q: int| start <= q < i ==> v@[q] != '\n',
            decreases n - i,
        {
            i = i + 1;
        }
        let ghost s = v@.subrange(start as int, n as int);
        if i == n {
            proof {
                assert forall|q: int| 0 <= q < s.len() implies s[q] != '\n' by {
                    assert(s[q] == v@[start + q]);
                }
                lemma_first_newline_none(s);
            }
            return None;
        }
        proof {
            assert forall|q: int| 0 <= q < i - start implies s[q] != '\n' by {
                assert(s[q] == v@[start + q]);
            }
            assert(s[i - start] == v@[i as int]);
            lemma_first_newline_at(s, i - start);
            assert(s.subrange(0, i - start) =~= v@.subrange(start as int, i as int));
            assert(s.subrange(i - start + 1, s.len() as int) =~= v@.subrange(i + 1, n as int));
        }
        let piece = string_of_range(v.as_slice(), start, i);
        let line = trim(piece.as_str());
        if !line.as_str().is_empty() {
            match pull_line_outcome(line.as_str()) {
                Err(_) => {
                    return None;
                },
                Ok(true) => {
                    return Some(string_of_range(v.as_slice(), i + 1, n));
                },
                Ok(false) => {},
            }
        }
        start = i + 1;
    }
    proof {
        assert(v@.subrange(start as int, n as int) =~= Seq::<char>::empty());
    }
    None
}

fn leftover_failure_of(text: &str) -> (r: Option<String>)
    ensures
        match leftover_failure(text@) {
            Some(e) => r matches Some(m) && m@ == e,
            None => r is None,
        },
{
    let tail = trim(text);
    if !tail.as_str().is_empty() {
        match json_str_field_of(tail.as_str(), "status") {
            Some(_) => match json_str_field_of(tail.as_str(), "error") {
                Some(e) => {
                    return Some(String::from_str("Ollama pull error: ").concat(e.as_str()));
                },
                None => {},
            },
            None => {},
        }
    }
    None
}

/// The first line of `ls` that decides a pull: one that fails it or completes it.
pub open spec fn first_decisive(ls: Seq<Seq<char>>) -> Option<Result<(), Seq<char>>>
    decreases ls.len(),
{
    if ls.len() == 0 {
        None
    } else {
        match pull_line(ls[0]) {
            Err(e) => Some(Err(e)),
            Ok(true) => Some(Ok(())),
            Ok(false) => first_decisive(ls.drop_first()),
        }
    }
}

/// Where a model pull stands: the model, the unfinished output, and whether the stream has
/// ended and the model listing is awaited.
pub struct PullState {
    pub model: String,
    pub buffer: String,
    pub verifying: bool,
}

/// What happened while following a pull.
pub enum PullEvent {
    /// Output arrived (decoded as UTF-8, invalid bytes replaced).
    Data(String),
    /// The stream broke.
    StreamError(String),
    /// No output arrived for the given number of seconds.
    Timeout(u64),
    /// The stream ended.
    End,
    /// The models the server lists, none when they could not be listed.
    Listed(Option<Vec<String>>),
}

/// What to do next while following a pull.
pub enum PullAction {
    /// Wait for more output; the complete lines just read are given (for progress reports).
    Continue(Vec<String>),
    /// List the server's models to see that the pull worked.
    ListModels,
    /// The pull succeeded, with this message.
    Succeed(String),
    /// The pull failed, with this message.
    Fail(String),
}

/// The message of a pull that stalled for `secs` seconds.
pub open spec fn stall_message(secs: u64) -> Seq<char> {
    "Timeout waiting for Ollama response (no data received for "@ + decimal(secs as nat)
        + " seconds). The download may have stalled. Please check your network connection and Ollama status."@
}

/// The message of a pull that succeeded.
pub open spec fn pulled_message(model: Seq<char>) -> Seq<char> {
    "Model "@ + model + " pulled successfully"@
}

/// The message of a pull whose model is not listed afterwards.
pub open spec fn missing_message(model: Seq<char>) -> Seq<char> {
    "Model download may have failed. Model '"@ + model + "' not found after pull completed."@
}

/// The start of following a pull of `model`.
pub fn pull_start(model: String) -> (r: PullState)
    ensures
        r.model == model,
        r.buffer@.len() == 0,
        !r.verifying,
{
    PullState { model, buffer: String::new(), verifying: false }
}

fn first_decisive_of(lines: &Vec<String>) -> (r: Option<Result<(), String>>)
    ensures
        match first_decisive(lines@.map_values(|l: String| l@)) {
            None => r is None,
            Some(Ok(())) => r == Some(Ok::<(), String>(())),
            Some(Err(e)) => r matches Some(Err(m)) && m@ == e,
        },
{
    let ghost ls = lines@.map_values(|l: String| l@);
    let mut i: usize = 0;
    assert(ls.subrange(0, ls.len() as int) =~= ls);
    while i < lines.len()
        invariant
            i <= lines@.len(),
            ls == lines@.map_values(|l: String| l@),
            first_decisive(ls) == first_decisive(ls.subrange(i as int, ls.len() as int)),
        decreases lines.len() - i,
    {
        let ghost rest = ls.subrange(i as int, ls.len() as int);
        proof {
            assert(rest[0] == lines@[i as int]@);
            assert(rest.drop_first() =~= ls.subrange(i + 1, ls.len() as int));
        }
        match pull_line_outcome(lines[i].as_str()) {
            Err(e) => {
                return Some(Err(e));
            },
            Ok(true) => {
                return Some(Ok(()));
            },
            Ok(false) => {},
        }
        i = i + 1;
    }
    proof {
        assert(ls.subrange(i as int, ls.len() as int) =~= Seq::<Seq<char>>::empty());
    }
    None
}

/// One step of following a pull (the stream's lines are read as `drain_complete_lines`
/// splits them):
/// - new output is added to the unfinished output and its complete lines are read in order:
///   the first that decides the pull (see `first_decisive`) fails it or completes it; after a
///   completing line, what follows it is read as one last message that may still fail the
///   pull (see `completion_tail`); otherwise the rest waits for more output;
/// - a broken stream or a stall fails the pull;
/// - when the stream ends, the unfinished last line may fail the pull (see `pull_tail`), and
///   otherwise the models are listed;
/// - the pull then succeeds if the model is listed (see `names_model`) or the listing failed,
///   and fails otherwise.
pub fn pull_step(state: PullState, event: PullEvent) -> (r: (PullState, PullAction))
    ensures
        r.0.model == state.model,
        match event {
            PullEvent::Data(text) => !state.verifying ==> {
                let buf = state.buffer@ + text@;
                match first_decisive(complete_lines(buf)) {
                    Some(Ok(())) => match completion_tail(buf) {
                        Some(e) => r.1 matches PullAction::Fail(m) && m@ == e,
                        None => r.1 matches PullAction::Succeed(m) && m@ == pulled_message(state.model@),
                    },
                    Some(Err(e)) => r.1 matches PullAction::Fail(m) && m@ == e,
                    None => r.1 matches PullAction::Continue(ls) && ls@.map_values(|l: String| l@)
                        == complete_lines(buf) && r.0.buffer@ == unfinished_line(buf) && !r.0.verifying,
                }
            },
            PullEvent::StreamError(e) => r.1 matches PullAction::Fail(m) && m@ == "Stream error: "@ + e@,
            PullEvent::Timeout(secs) => r.1 matches PullAction::Fail(m) && m@ == stall_message(secs),
            PullEvent::End => {
                match leftover_failure(state.buffer@) {
                    Some(e) => r.1 matches PullAction::Fail(m) && m@ == e,
                    None => r.1 is ListModels && r.0.verifying,
                }
            },
            PullEvent::Listed(names) => match names {
                None => r.1 matches PullAction::Succeed(m) && m@ == pulled_message(state.model@),
                Some(v) => if exists|k: int| 0 <= k < v@.len() && names_model(#[trigger] v@[k]@, state.model@) {
                    r.1 matches PullAction::Succeed(m) && m@ == pulled_message(state.model@)
                } else {
                    r.1 matches PullAction::Fail(m) && m@ == missing_message(state.model@)
                },
            },
        },
{
    let PullState { model, buffer, verifying } = state;
    match event {
        PullEvent::Data(text) => {
            if verifying {
                return (PullState { model, buffer, verifying }, PullAction::ListModels);
            }
            let buf = buffer.concat(text.as_str());
            let (lines, rest) = drain_complete_lines(buf.as_str());
            proof {
                assert(lines@.map_values(|l: String| l@) =~= complete_lines(buf@));
            }
            match first_decisive_of(&lines) {
                Some(Ok(())) => {
                    let after = match completion_rest(buf.as_str()) {
                        Some(x) => leftover_failure_of(x.as_str()),
                        None => None,
                    };
                    match after {
                        Some(e) => (PullState { model, buffer: rest, verifying: false }, PullAction::Fail(e)),
                        None => {
                            let m = String::from_str("Model ").concat(model.as_str()).concat(" pulled successfully");
                            (PullState { model, buffer: rest, verifying: false }, PullAction::Succeed(m))
                        },
                    }
                },
                Some(Err(e)) => (PullState { model, buffer: rest, verifying: false }, PullAction::Fail(e)),
                None => (PullState { model, buffer: rest, verifying: false }, PullAction::Continue(lines)),
            }
        },
        PullEvent::StreamError(e) => {
            let m = String::from_str("Stream error: ").concat(e.as_str());
            (PullState { model, buffer, verifying }, PullAction::Fail(m))
        },
        PullEvent::Timeout(secs) => {
            let n = to_decimal(secs);
            let m = String::from_str("Timeout waiting for Ollama response (no data received for ").concat(
                n.as_str(),
            ).concat(
                " seconds). The download may have stalled. Please check your network connection and Ollama status.",
            );
            (PullState { model, buffer, verifying }, PullAction::Fail(m))
        },
        PullEvent::End => {
            match leftover_failure_of(buffer.as_str()) {
                Some(m) => (PullState { model, buffer, verifying }, PullAction::Fail(m)),
                None => (PullState { model, buffer, verifying: true }, PullAction::ListModels),
            }
        },
        PullEvent::Listed(names) => {
            let ok = match &names {
                None => true,
                Some(v) => model_was_pulled(v, model.as_str()),
            };
            if ok {
                let m = String::from_str("Model ").concat(model.as_str()).concat(" pulled successfully");
                (PullState { model, buffer, verifying }, PullAction::Succeed(m))
            } else {
                let m = String::from_str("Model download may have failed. Model '").concat(model.as_str()).concat(
                    "' not found after pull completed.",
                );
                (PullState { model, buffer, verifying }, PullAction::Fail(m))
            }
        },
    }
}

/// The platforms the application installs on.
#[derive(Clone, Copy, PartialEq, Eq, Debug, Structural)]
pub enum Platform {
    MacOs,
    Windows,
    Linux,
    Other,
}

/// The platform's name as the front end knows it.
pub fn platform_name(p: Platform) -> (r: &'static str)
    ensures
        r@ == match p {
            Platform::MacOs => "macos"@,
            Platform::Windows => "windows"@,
            Platform::Linux => "linux"@,
            Platform::Other => "unknown"@,
        },
{
    match p {
        Platform::MacOs => "macos",
        Platform::Windows => "windows",
        Platform::Linux => "linux",
        Platform::Other => "unknown",
    }
}

fn instructions(
    platform: &str,
    method: &str,
    command: &str,
    alternative: Option<&str>,
    url: Option<&str>,
) -> (r: InstallInstructions)
    ensures
        r.platform@ == platform@,
        r.method@ == method@,
        r.command@ == command@,
        match alternative {
            Some(a) => r.alternative matches Some(x) && x@ == a@,
            None => r.alternative is None,
        },
        match url {
            Some(u) => r.url matches Some(x) && x@ == u@,
            None => r.url is None,
        },
{
    InstallInstructions {
        platform: String::from_str(platform),
        method: String::from_str(method),
        command: String::from_str(command),
        alternative: match alternative {
            Some(a) => Some(String::from_str(a)),
            None => None,
        },
        url: match url {
            Some(u) => Some(String::from_str(u)),
            None => None,
        },
    }
}

/// The fields of installation instructions: platform, method, command, alternative, link.
pub open spec fn instructions_view(i: InstallInstructions) -> (
    Seq<char>,
    Seq<char>,
    Seq<char>,
    Option<Seq<char>>,
    Option<Seq<char>>,
) {
    (
        i.platform@,
        i.method@,
        i.command@,
        match i.alternative {
            Some(a) => Some(a@),
            None => None,
        },
        match i.url {
            Some(u) => Some(u@),
            None => None,
        },
    )
}

/// The view of optional installation instructions.
pub open spec fn opt_instructions_view(o: Option<InstallInstructions>) -> Option<
    (Seq<char>, Seq<char>, Seq<char>, Option<Seq<char>>, Option<Seq<char>>),
> {
    match o {
        Some(i) => Some(instructions_view(i)),
        None => None,
    }
}

/// How Ollama is installed on each platform (none on an unknown one).
pub open spec fn ollama_instructions_of(p: Platform) -> Option<
    (Seq<char>, Seq<char>, Seq<char>, Option<Seq<char>>, Option<Seq<char>>),
> {
    match p {
        Platform::MacOs => Some(
            (
                "macOS"@,
                "Homebrew"@,
                "brew install ollama"@,
                Some("Download from https://ollama.ai/download"@),
                Some("https://ollama.ai/download/Ollama-darwin.zip"@),
            ),
        ),
        Platform::Windows => Some(
            (
                "Windows"@,
                "Download Installer"@,
                "winget install Ollama.Ollama"@,
                Some("Download from https://ollama.ai/download"@),
                Some("https://ollama.ai/download/OllamaSetup.exe"@),
            ),
        ),
        Platform::Linux => Some(
            (
                "Linux"@,
                "curl script"@,
                "curl -fsSL https://ollama.ai/install.sh | sh"@,
                Some("Or use your package manager"@),
                None,
            ),
        ),
        Platform::Other => None,
    }
}

/// How FFmpeg is installed on each platform (none on an unknown one).
pub open spec fn ffmpeg_instructions_of(p: Platform) -> Option<
    (Seq<char>, Seq<char>, Seq<char>, Option<Seq<char>>, Option<Seq<char>>),
> {
    match p {
        Platform::MacOs => Some(("macOS"@, "Homebrew"@, "brew install ffmpeg"@, None, None)),
        Platform::Windows => Some(
            (
                "Windows"@,
                "winget"@,
                "winget install ffmpeg"@,
                Some("Or download from https://ffmpeg.org/download.html"@),
                Some("https://ffmpeg.org/download.html"@),
            ),
        ),
        Platform::Linux => Some(
            (
                "Linux"@,
                "Package Manager"@,
                "sudo apt-get install ffmpeg"@,
                Some("Or: sudo yum install ffmpeg / sudo pacman -S ffmpeg"@),
                None,
            ),
        ),
        Platform::Other => None,
    }
}

/// How Ollama is installed on the platform (see `ollama_instructions_of`).
pub fn ollama_install_instructions(p: Platform) -> (r: Option<InstallInstructions>)
    ensures
        opt_instructions_view(r) == ollama_instructions_of(p),
{
    match p {
        Platform::MacOs => Some(instructions(
            "macOS",
            "Homebrew",
            "brew install ollama",
            Some("Download from https://ollama.ai/download"),
            Some("https://ollama.ai/download/Ollama-darwin.zip"),
        )),
        Platform::Windows => Some(instructions(
            "Windows",
            "Download Installer",
            "winget install Ollama.Ollama",
            Some("Download from https://ollama.ai/download"),
            Some("https://ollama.ai/download/OllamaSetup.exe"),
        )),
        Platform::Linux => Some(instructions(
            "Linux",
            "curl script",
            "curl -fsSL https://ollama.ai/install.sh | sh",
            Some("Or use your package manager"),
            None,
        )),
        Platform::Other => None,
    }
}

/// How FFmpeg is installed on the platform (see `ffmpeg_instructions_of`).
pub fn ffmpeg_install_instructions(p: Platform) -> (r: Option<InstallInstructions>)
    ensures
        opt_instructions_view(r) == ffmpeg_instructions_of(p),
{
    match p {
        Platform::MacOs => Some(instructions("macOS", "Homebrew", "brew install ffmpeg", None, None)),
        Platform::Windows => Some(instructions(
            "Windows",
            "winget",
            "winget install ffmpeg",
            Some("Or download from https://ffmpeg.org/download.html"),
            Some("https://ffmpeg.org/download.html"),
        )),
        Platform::Linux => Some(instructions(
            "Linux",
            "Package Manager",
            "sudo apt-get install ffmpeg",
            Some("Or: sudo yum install ffmpeg / sudo pacman -S ffmpeg"),
            None,
        )),
        Platform::Other => None,
    }
}

/// Where FFmpeg is looked for on a platform, in order: on the search path, then the usual
/// install locations.
pub open spec fn ffmpeg_candidates_of(p: Platform) -> Seq<Seq<char>> {
    match p {
        Platform::MacOs => seq![
            "ffmpeg"@,
            "/opt/homebrew/bin/ffmpeg"@,
            "/usr/local/bin/ffmpeg"@,
            "/usr/bin/ffmpeg"@,
        ],
        Platform::Windows => seq![
            "ffmpeg"@,
            "C:\\ffmpeg\\bin\\ffmpeg.exe"@,
            "C:\\Program Files\\ffmpeg\\bin\\ffmpeg.exe"@,
        ],
        _ => seq!["ffmpeg"@, "/usr/bin/ffmpeg"@, "/usr/local/bin/ffmpeg"@],
    }
}

/// Where FFmpeg is looked for (see `ffmpeg_candidates_of`).
pub fn ffmpeg_candidates(p: Platform) -> (r: Vec<String>)
    ensures
        r@.map_values(|s: String| s@) == ffmpeg_candidates_of(p),
{
    let mut v: Vec<String> = Vec::new();
    v.push("ffmpeg".to_string());
    match p {
        Platform::MacOs => {
            v.push("/opt/homebrew/bin/ffmpeg".to_string());
            v.push("/usr/local/bin/ffmpeg".to_string());
            v.push("/usr/bin/ffmpeg".to_string());
        },
        Platform::Windows => {
            v.push("C:\\ffmpeg\\bin\\ffmpeg.exe".to_string());
            v.push("C:\\Program Files\\ffmpeg\\bin\\ffmpeg.exe".to_string());
        },
        _ => {
            v.push("/usr/bin/ffmpeg".to_string());
            v.push("/usr/local/bin/ffmpeg".to_string());
        },
    }
    assert(v@.map_values(|s: String| s@) =~= ffmpeg_candidates_of(p));
    v
}

} // verus!
