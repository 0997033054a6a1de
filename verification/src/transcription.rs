//! Transcription jobs kept by id, the choice of a transcription engine, the command lines
//! handed to the tools, and the subtitle files written from a transcript.
//!
//! Times and progress fractions are of a type `P` chosen by the caller, and transcript
//! segments of a type `S`: the bookkeeping here never computes with them.

use vstd::prelude::*;
use crate::keyed::{find_keyed, keys_unique, lemma_find_at, lemma_find_index, lemma_push_keyed, lemma_set_keyed};
use crate::media::TranscriptionStatus;
use crate::installers::{join_lines, newline_joined};
use crate::media::{offered_models, speech_audio_params, transcription_models};
use crate::paths::{join_path, joined};
use crate::text::{contains, contains_seq, decimal, has_prefix, has_suffix, same_text, to_decimal};

verus! {

/// How a transcription is run.
pub struct TranscriptionConfig<P> {
    /// Sample rate for audio extraction (16 kHz suits speech).
    pub sample_rate: u32,
    /// Audio channels: 1 for mono, 2 for stereo.
    pub channels: u8,
    /// Length in seconds of the chunks read while transcribing live.
    pub chunk_duration: P,
    /// Whether ffmpeg's own whisper filter is used.
    pub use_ffmpeg_whisper: bool,
    /// The whisper model for ffmpeg's filter, its default when none.
    pub whisper_model_path: Option<String>,
    /// A language code such as `en`, `es` or `fr`.
    pub language: Option<String>,
}

impl<P> TranscriptionConfig<P> {
    /// 16 kHz mono audio through ffmpeg's whisper filter with its default model and no
    /// language set, read in chunks of `chunk_duration` seconds.
    pub fn with_chunk_duration(chunk_duration: P) -> (r: Self)
        ensures
            r.sample_rate == 16000,
            r.channels == 1,
            r.chunk_duration == chunk_duration,
            r.use_ffmpeg_whisper,
            r.whisper_model_path is None,
            r.language is None,
    {
        TranscriptionConfig {
            sample_rate: 16000,
            channels: 1,
            chunk_duration,
            use_ffmpeg_whisper: true,
            whisper_model_path: None,
            language: None,
        }
    }
}

/// A transcription job: the file it transcribes, where it stands, and the transcript so far.
pub struct TranscriptionJob<S, P> {
    pub id: String,
    pub file_path: String,
    pub status: TranscriptionStatus,
    pub segments: Vec<S>,
    /// The ffmpeg process working for the job.
    pub process_id: Option<u32>,
    /// How far into the media the job has come, in seconds.
    pub current_time: P,
    /// The fraction done, from 0 to 1.
    pub progress: P,
    pub error: Option<String>,
    pub config: TranscriptionConfig<P>,
}

impl<S, P: Copy> TranscriptionJob<S, P> {
    /// A job that is starting: no segments, no process and no error yet, at time and
    /// progress `start`.
    pub fn starting(id: String, file_path: String, config: TranscriptionConfig<P>, start: P) -> (r: Self)
        ensures
            r.id == id,
            r.file_path == file_path,
            r.status == TranscriptionStatus::Starting,
            r.segments@.len() == 0,
            r.process_id is None,
            r.current_time == start,
            r.progress == start,
            r.error is None,
            r.config == config,
    {
        TranscriptionJob {
            id,
            file_path,
            status: TranscriptionStatus::Starting,
            segments: Vec::new(),
            process_id: None,
            current_time: start,
            progress: start,
            error: None,
            config,
        }
    }
}

/// The key a job is kept under: its id.
pub open spec fn job_key<S, P>() -> spec_fn(TranscriptionJob<S, P>) -> Seq<char> {
    |j: TranscriptionJob<S, P>| j.id@
}

/// What happens to a job after it was started.
enum JobChange<P> {
    Running,
    ProcessId(u32),
    Progress(P, P),
    Completed,
    Failed(String),
    Stopped,
}

spec fn changed<S, P>(j: TranscriptionJob<S, P>, c: JobChange<P>) -> TranscriptionJob<S, P> {
    match c {
        JobChange::Running => TranscriptionJob { status: TranscriptionStatus::Running, ..j },
        JobChange::ProcessId(p) => TranscriptionJob { process_id: Some(p), ..j },
        JobChange::Progress(t, f) => TranscriptionJob { current_time: t, progress: f, ..j },
        JobChange::Completed => TranscriptionJob { status: TranscriptionStatus::Completed, ..j },
        JobChange::Failed(e) => TranscriptionJob {
            status: TranscriptionStatus::Failed,
            error: Some(e),
            ..j
        },
        JobChange::Stopped => TranscriptionJob { status: TranscriptionStatus::Stopped, ..j },
    }
}

/// The transcription service: where ffmpeg and ffprobe are, the scratch directory, the
/// whisper model Ollama offers, and the jobs, one per id.
pub struct TranscriptionService<S, P> {
    ffmpeg_path: String,
    ffprobe_path: String,
    temp_dir: String,
    jobs: Vec<TranscriptionJob<S, P>>,
    available: bool,
    default_model: Option<String>,
}

impl<S, P: Copy> TranscriptionService<S, P> {
    /// The jobs, in the order they were added.
    pub closed spec fn records(&self) -> Seq<TranscriptionJob<S, P>> {
        self.jobs@
    }

    /// Whether each id has one job.
    pub closed spec fn well_formed(&self) -> bool {
        keys_unique(self.jobs@, job_key())
    }

    /// The job with id `id`, if any.
    pub open spec fn job(&self, id: Seq<char>) -> Option<TranscriptionJob<S, P>> {
        find_keyed(self.records(), job_key(), id)
    }

    /// The ffmpeg program run.
    pub closed spec fn ffmpeg(&self) -> Seq<char> {
        self.ffmpeg_path@
    }

    /// The ffprobe program run.
    pub closed spec fn ffprobe(&self) -> Seq<char> {
        self.ffprobe_path@
    }

    /// The scratch directory.
    pub closed spec fn temp(&self) -> Seq<char> {
        self.temp_dir@
    }

    /// Whether both ffmpeg and ffprobe were found.
    pub closed spec fn ready(&self) -> bool {
        self.available
    }

    /// The Ollama whisper model used, if Ollama offered one.
    pub closed spec fn model(&self) -> Option<Seq<char>> {
        match self.default_model {
            Some(m) => Some(m@),
            None => None,
        }
    }

    /// Whether two states of the service differ in their jobs alone.
    pub open spec fn same_setup(&self, other: &Self) -> bool {
        &&& self.ffmpeg() == other.ffmpeg()
        &&& self.ffprobe() == other.ffprobe()
        &&& self.temp() == other.temp()
        &&& self.ready() == other.ready()
        &&& self.model() == other.model()
    }

    /// A service without jobs. `ffmpeg` and `ffprobe` are the programs found (when not found,
    /// the bare names are kept and transcription is unavailable); `ollama_models` are the
    /// whisper models Ollama lists, none when Ollama is not running, and the first of them
    /// is used.
    pub fn new(
        ffmpeg: Option<String>,
        ffprobe: Option<String>,
        temp_dir: String,
        ollama_models: Option<Vec<String>>,
    ) -> (r: Self)
        ensures
            r.well_formed(),
            forall|id: Seq<char>| r.job(id) is None,
            r.ready() == (ffmpeg is Some && ffprobe is Some),
            r.ffmpeg() == match ffmpeg {
                Some(p) => p@,
                None => "ffmpeg"@,
            },
            r.ffprobe() == match ffprobe {
                Some(p) => p@,
                None => "ffprobe"@,
            },
            r.temp() == temp_dir@,
            r.model() == match ollama_models {
                Some(v) => if v@.len() > 0 {
                    Some(v@[0]@)
                } else {
                    None
                },
                None => None,
            },
    {
        let available = ffmpeg.is_some() && ffprobe.is_some();
        let ffmpeg_path = match ffmpeg {
            Some(p) => p,
            None => String::from_str("ffmpeg"),
        };
        let ffprobe_path = match ffprobe {
            Some(p) => p,
            None => String::from_str("ffprobe"),
        };
        let default_model = match ollama_models {
            Some(v) => if v.len() > 0 {
                Some(v[0].clone())
            } else {
                None
            },
            None => None,
        };
        TranscriptionService {
            ffmpeg_path,
            ffprobe_path,
            temp_dir,
            jobs: Vec::new(),
            available,
            default_model,
        }
    }

    /// Whether transcription can run: ffmpeg and ffprobe were found.
    pub fn is_transcription_available(&self) -> (r: bool)
        ensures
            r == self.ready(),
    {
        self.available
    }

    /// Whether ffmpeg and ffprobe were found.
    pub fn is_available(&self) -> (r: bool)
        ensures
            r == self.ready(),
    {
        self.available
    }

    /// The ffmpeg program run.
    pub fn ffmpeg_program(&self) -> (r: &str)
        ensures
            r@ == self.ffmpeg(),
    {
        self.ffmpeg_path.as_str()
    }

    /// The ffprobe program run.
    pub fn ffprobe_program(&self) -> (r: &str)
        ensures
            r@ == self.ffprobe(),
    {
        self.ffprobe_path.as_str()
    }

    /// The scratch directory.
    pub fn temp_directory(&self) -> (r: &str)
        ensures
            r@ == self.temp(),
    {
        self.temp_dir.as_str()
    }

    fn position(&self, id: &str) -> (r: Option<usize>)
        requires
            self.well_formed(),
        ensures
            match r {
                Some(i) => i < self.records().len() && self.records()[i as int].id@ == id@
                    && self.job(id@) == Some(self.records()[i as int]),
                None => self.job(id@) is None,
            },
    {
        let mut i: usize = 0;
        while i < self.jobs.len()
            invariant
                i <= self.jobs@.len(),
                self.well_formed(),
                forall|j: int| 0 <= j < i ==> (#[trigger] self.jobs@[j]).id@ != id@,
            decreases self.jobs.len() - i,
        {
            if same_text(self.jobs[i].id.as_str(), id) {
                proof {
                    lemma_find_at(self.jobs@, job_key(), i as int);
                }
                return Some(i);
            }
            i = i + 1;
        }
        proof {
            lemma_find_index(self.jobs@, job_key(), id@);
        }
        None
    }

    /// Keeps `job`, in place of the job with the same id if there is one.
    pub fn insert_job(&mut self, job: TranscriptionJob<S, P>)
        requires
            old(self).well_formed(),
        ensures
            final(self).well_formed(),
            final(self).same_setup(old(self)),
            final(self).job(job.id@) == Some(job),
            forall|other: Seq<char>| other != job.id@ ==> final(self).job(other) == old(self).job(other),
    {
        match self.position(job.id.as_str()) {
            Some(i) => {
                let ghost before = self.jobs@;
                let ghost m = job;
                let _replaced = self.jobs.remove(i);
                self.jobs.insert(i, job);
                proof {
                    assert(self.jobs@ =~= before.update(i as int, m));
                    lemma_set_keyed(before, job_key(), i as int, m);
                }
            },
            None => {
                let ghost before = self.jobs@;
                let ghost m = job;
                self.jobs.push(job);
                proof {
                    lemma_find_index(before, job_key(), m.id@);
                    lemma_push_keyed(before, job_key(), m);
                }
            },
        }
    }

    fn apply(&mut self, id: &str, c: JobChange<P>)
        requires
            old(self).well_formed(),
        ensures
            final(self).well_formed(),
            final(self).same_setup(old(self)),
            final(self).job(id@) == match old(self).job(id@) {
                Some(j) => Some(changed(j, c)),
                None => None,
            },
            forall|other: Seq<char>| other != id@ ==> final(self).job(other) == old(self).job(other),
    {
        match self.position(id) {
            Some(i) => {
                let ghost before = self.jobs@;
                let ghost change = c;
                let mut job = self.jobs.remove(i);
                let ghost old_job = job;
                match c {
                    JobChange::Running => {
                        job.status = TranscriptionStatus::Running;
                    },
                    JobChange::ProcessId(p) => {
                        job.process_id = Some(p);
                    },
                    JobChange::Progress(t, f) => {
                        job.current_time = t;
                        job.progress = f;
                    },
                    JobChange::Completed => {
                        job.status = TranscriptionStatus::Completed;
                    },
                    JobChange::Failed(e) => {
                        job.status = TranscriptionStatus::Failed;
                        job.error = Some(e);
                    },
                    JobChange::Stopped => {
                        job.status = TranscriptionStatus::Stopped;
                    },
                }
                let ghost m = job;
                assert(m == changed(old_job, change));
                self.jobs.insert(i, job);
                proof {
                    assert(self.jobs@ =~= before.update(i as int, m));
                    lemma_set_keyed(before, job_key(), i as int, m);
                }
            },
            None => {},
        }
    }

    /// Marks the job running, if there is one with id `id`.
    pub fn mark_running(&mut self, id: &str)
        requires
            old(self).well_formed(),
        ensures
            final(self).well_formed(),
            final(self).same_setup(old(self)),
            final(self).job(id@) == match old(self).job(id@) {
                Some(j) => Some(TranscriptionJob { status: TranscriptionStatus::Running, ..j }),
                None => None,
            },
            forall|other: Seq<char>| other != id@ ==> final(self).job(other) == old(self).job(other),
    {
        self.apply(id, JobChange::Running);
    }

    /// Records the process working for the job, if there is one with id `id`.
    pub fn set_process_id(&mut self, id: &str, process_id: u32)
        requires
            old(self).well_formed(),
        ensures
            final(self).well_formed(),
            final(self).same_setup(old(self)),
            final(self).job(id@) == match old(self).job(id@) {
                Some(j) => Some(TranscriptionJob { process_id: Some(process_id), ..j }),
                None => None,
            },
            forall|other: Seq<char>| other != id@ ==> final(self).job(other) == old(self).job(other),
    {
        self.apply(id, JobChange::ProcessId(process_id));
    }

    /// Records how far the job has come, if there is one with id `id`.
    pub fn record_progress(&mut self, id: &str, current_time: P, progress: P)
        requires
            old(self).well_formed(),
        ensures
            final(self).well_formed(),
            final(self).same_setup(old(self)),
            final(self).job(id@) == match old(self).job(id@) {
                Some(j) => Some(TranscriptionJob { current_time, progress, ..j }),
                None => None,
            },
            forall|other: Seq<char>| other != id@ ==> final(self).job(other) == old(self).job(other),
    {
        self.apply(id, JobChange::Progress(current_time, progress));
    }

    /// Marks the job completed, if there is one with id `id`.
    pub fn mark_completed(&mut self, id: &str)
        requires
            old(self).well_formed(),
        ensures
            final(self).well_formed(),
            final(self).same_setup(old(self)),
            final(self).job(id@) == match old(self).job(id@) {
                Some(j) => Some(TranscriptionJob { status: TranscriptionStatus::Completed, ..j }),
                None => None,
            },
            forall|other: Seq<char>| other != id@ ==> final(self).job(other) == old(self).job(other),
    {
        self.apply(id, JobChange::Completed);
    }

    /// Marks the job failed with `error`, if there is one with id `id`.
    pub fn mark_failed(&mut self, id: &str, error: String)
        requires
            old(self).well_formed(),
        ensures
            final(self).well_formed(),
            final(self).same_setup(old(self)),
            final(self).job(id@) == match old(self).job(id@) {
                Some(j) => Some(TranscriptionJob {
                    status: TranscriptionStatus::Failed,
                    error: Some(error),
                    ..j
                }),
                None => None,
            },
            forall|other: Seq<char>| other != id@ ==> final(self).job(other) == old(self).job(other),
    {
        self.apply(id, JobChange::Failed(error));
    }

    /// Marks the job stopped, if there is one with id `id`, and gives the process working
    /// for it, which is to be ended.
    pub fn stop_transcription(&mut self, id: &str) -> (r: Option<u32>)
        requires
            old(self).well_formed(),
        ensures
            final(self).well_formed(),
            final(self).same_setup(old(self)),
            final(self).job(id@) == match old(self).job(id@) {
                Some(j) => Some(TranscriptionJob { status: TranscriptionStatus::Stopped, ..j }),
                None => None,
            },
            forall|other: Seq<char>| other != id@ ==> final(self).job(other) == old(self).job(other),
            r == match old(self).job(id@) {
                Some(j) => j.process_id,
                None => None,
            },
    {
        let pid = match self.position(id) {
            Some(i) => self.jobs[i].process_id,
            None => None,
        };
        self.apply(id, JobChange::Stopped);
        pid
    }

    /// The state of the job with id `id`.
    pub fn get_status(&self, id: &str) -> (r: Option<TranscriptionStatus>)
        requires
            self.well_formed(),
        ensures
            r == match self.job(id@) {
                Some(j) => Some(j.status),
                None => None,
            },
    {
        match self.position(id) {
            Some(i) => Some(self.jobs[i].status),
            None => None,
        }
    }

    /// The transcript of the job with id `id`.
    pub fn get_segments(&self, id: &str) -> (r: Option<&Vec<S>>)
        requires
            self.well_formed(),
        ensures
            match self.job(id@) {
                Some(j) => r matches Some(v) && v@ == j.segments@,
                None => r is None,
            },
    {
        match self.position(id) {
            Some(i) => Some(&self.jobs[i].segments),
            None => None,
        }
    }

    /// The file the job with id `id` transcribes.
    pub fn get_job_file_path(&self, id: &str) -> (r: Option<String>)
        requires
            self.well_formed(),
        ensures
            r == match self.job(id@) {
                Some(j) => Some(j.file_path),
                None => None,
            },
    {
        match self.position(id) {
            Some(i) => Some(self.jobs[i].file_path.clone()),
            None => None,
        }
    }

    /// The error of the job with id `id`, if it has one.
    pub fn get_job_error(&self, id: &str) -> (r: Option<String>)
        requires
            self.well_formed(),
        ensures
            r == match self.job(id@) {
                Some(j) => j.error,
                None => None,
            },
    {
        match self.position(id) {
            Some(i) => match &self.jobs[i].error {
                Some(e) => Some(e.clone()),
                None => None,
            },
            None => None,
        }
    }

    /// The fraction done of the job with id `id`.
    pub fn get_job_progress(&self, id: &str) -> (r: Option<P>)
        requires
            self.well_formed(),
        ensures
            r == match self.job(id@) {
                Some(j) => Some(j.progress),
                None => None,
            },
    {
        match self.position(id) {
            Some(i) => Some(self.jobs[i].progress),
            None => None,
        }
    }

    /// The ids of the jobs, in the order they were added.
    pub fn list_job_ids(&self) -> (r: Vec<String>)
        ensures
            r@.len() == self.records().len(),
            forall|k: int| 0 <= k < r@.len() ==> #[trigger] r@[k] == self.records()[k].id,
    {
        let mut out: Vec<String> = Vec::new();
        let mut i: usize = 0;
        while i < self.jobs.len()
            invariant
                i <= self.jobs@.len(),
                out@.len() == i,
                forall|k: int| 0 <= k < i ==> #[trigger] out@[k] == self.jobs@[k].id,
            decreases self.jobs.len() - i,
        {
            out.push(self.jobs[i].id.clone());
            i = i + 1;
        }
        out
    }
}


/// Why a transcription could not be done.
#[derive(Clone, PartialEq, Eq, Debug)]
pub enum TranscriptionError {
    /// Live transcription needs ffmpeg and ffprobe.
    FfmpegUnavailable,
    /// The video to transcribe is not there.
    VideoMissing,
    /// Transcribing a file needs ffmpeg to extract its audio.
    ExtractionUnavailable,
    /// None of the transcription engines is installed.
    NoEngine,
    /// Transcripts are written as srt, vtt or txt only.
    UnsupportedFormat(String),
}

/// The message of each error.
pub open spec fn error_text(e: TranscriptionError) -> Seq<char> {
    match e {
        TranscriptionError::FfmpegUnavailable => "FFmpeg not available"@,
        TranscriptionError::VideoMissing => "Video file does not exist"@,
        TranscriptionError::ExtractionUnavailable => "FFmpeg not available for audio extraction"@,
        TranscriptionError::NoEngine => "No transcription engine available. Please install one of:\n- whisper.cpp: brew install whisper-cpp\n- insanely-fast-whisper: pip install insanely-fast-whisper\n- Ollama with whisper: ollama pull whisper"@,
        TranscriptionError::UnsupportedFormat(f) => "Unsupported format: "@ + f@,
    }
}

impl TranscriptionError {
    /// The message shown for the error.
    pub fn message(&self) -> (r: String)
        ensures
            r@ == error_text(*self),
    {
        match self {
            TranscriptionError::FfmpegUnavailable => String::from_str("FFmpeg not available"),
            TranscriptionError::VideoMissing => String::from_str("Video file does not exist"),
            TranscriptionError::ExtractionUnavailable => String::from_str(
                "FFmpeg not available for audio extraction",
            ),
            TranscriptionError::NoEngine => String::from_str(
                "No transcription engine available. Please install one of:\n- whisper.cpp: brew install whisper-cpp\n- insanely-fast-whisper: pip install insanely-fast-whisper\n- Ollama with whisper: ollama pull whisper",
            ),
            TranscriptionError::UnsupportedFormat(f) => String::from_str("Unsupported format: ").concat(
                f.as_str(),
            ),
        }
    }
}

/// The program that transcribes a file.
#[derive(Clone, PartialEq, Eq, Debug)]
pub enum TranscriptionEngine {
    /// whisper.cpp, found at the given path.
    WhisperCpp(String),
    InsanelyFastWhisper,
    /// Ollama with the given whisper model.
    Ollama(String),
    /// ffmpeg's whisper filter.
    FfmpegWhisper,
}

/// The argument list `-i video -vn -acodec pcm_s16le -ar 16000 -ac 1 -y audio`.
pub open spec fn extraction_args(video: Seq<char>, audio: Seq<char>) -> Seq<Seq<char>> {
    seq!["-i"@, video, "-vn"@, "-acodec"@, "pcm_s16le"@, "-ar"@, "16000"@, "-ac"@, "1"@, "-y"@, audio]
}

/// The filter of ffmpeg's whisper for live transcription: the model, then the language
/// when one is set.
pub open spec fn live_filter(model: Seq<char>, language: Option<Seq<char>>) -> Seq<char> {
    match language {
        Some(l) => "whisper=model="@ + model + ":language="@ + l,
        None => "whisper=model="@ + model,
    }
}

/// The ffmpeg arguments for live transcription: through the whisper filter when it is used
/// and a model is set, else raw 16-bit audio at the configured rate and channels to the
/// standard output.
pub open spec fn live_args<P>(video: Seq<char>, config: TranscriptionConfig<P>, use_whisper: bool) -> Seq<Seq<char>> {
    if use_whisper && config.whisper_model_path is Some {
        let lang = match config.language {
            Some(l) => Some(l@),
            None => None,
        };
        seq![
            "-i"@,
            video,
            "-af"@,
            live_filter(config.whisper_model_path->0@, lang),
            "-f"@,
            "null"@,
            "-"@,
        ]
    } else {
        seq![
            "-i"@,
            video,
            "-vn"@,
            "-f"@,
            "s16le"@,
            "-ar"@,
            decimal(config.sample_rate as nat),
            "-ac"@,
            decimal(config.channels as nat),
            "-"@,
        ]
    }
}

/// `args` followed by `flag value` when a value is given.
pub open spec fn with_option(args: Seq<Seq<char>>, flag: Seq<char>, value: Option<Seq<char>>) -> Seq<Seq<char>> {
    match value {
        Some(v) => args + seq![flag, v],
        None => args,
    }
}

/// An optional text, taken by its characters.
pub open spec fn opt_text(o: Option<&str>) -> Option<Seq<char>> {
    match o {
        Some(s) => Some(s@),
        None => None,
    }
}

/// The views of a list of strings.
pub open spec fn texts(v: Seq<String>) -> Seq<Seq<char>> {
    v.map_values(|s: String| s@)
}

fn strings_of(v: &[&str]) -> (r: Vec<String>)
    ensures
        texts(r@) == v@.map_values(|s: &str| s@),
{
    let mut out: Vec<String> = Vec::new();
    let mut i: usize = 0;
    while i < v.len()
        invariant
            i <= v@.len(),
            out@.len() == i,
            forall|k: int| 0 <= k < i ==> (#[trigger] out@[k])@ == v@[k]@,
        decreases v.len() - i,
    {
        out.push(String::from_str(v[i]));
        i = i + 1;
    }
    assert(texts(out@) =~= v@.map_values(|s: &str| s@));
    out
}

fn push_option(args: &mut Vec<String>, flag: &str, value: Option<&str>)
    ensures
        texts(final(args)@) == with_option(texts(old(args)@), flag@, opt_text(value)),
{
    match value {
        Some(v) => {
            let ghost before = texts(args@);
            args.push(String::from_str(flag));
            args.push(String::from_str(v));
            assert(texts(args@) =~= before + seq![flag@, v@]);
        },
        None => {},
    }
}

/// The whisper.cpp arguments: model, audio file, JSON output to `output`, then the language
/// when one is given.
pub open spec fn whisper_cpp_args_of(model_path: Seq<char>, audio: Seq<char>, output: Seq<char>, language: Option<Seq<char>>) -> Seq<Seq<char>> {
    with_option(seq!["-m"@, model_path, "-f"@, audio, "-oj"@, "-of"@, output], "-l"@, language)
}

/// The arguments of whisper.cpp for a transcription.
pub fn whisper_cpp_args(model_path: &str, audio: &str, output: &str, language: Option<&str>) -> (r: Vec<String>)
    ensures
        texts(r@) == whisper_cpp_args_of(model_path@, audio@, output@, opt_text(language)),
{
    let mut args = strings_of(&["-m", model_path, "-f", audio, "-oj", "-of", output]);
    proof {
        assert(texts(args@) =~= seq!["-m"@, model_path@, "-f"@, audio@, "-oj"@, "-of"@, output@]);
    }
    push_option(&mut args, "-l", language);
    args
}

/// The model file whisper.cpp is given: `ggml-<model>.bin`, the base model when none is named.
pub fn whisper_cpp_model_file(model: Option<&str>) -> (r: String)
    ensures
        r@ == "ggml-"@ + match model {
            Some(m) => m@,
            None => "base"@,
        } + ".bin"@,
{
    let name = match model {
        Some(m) => m,
        None => "base",
    };
    crate::media::ggml_model_file(name)
}

/// The insanely-fast-whisper arguments: audio file, model (`openai/whisper-base` when none is
/// named), transcript file, then the language when one is given.
pub open spec fn fast_whisper_args_of(audio: Seq<char>, model: Option<Seq<char>>, output: Seq<char>, language: Option<Seq<char>>) -> Seq<Seq<char>> {
    let m = match model {
        Some(m) => m,
        None => "openai/whisper-base"@,
    };
    with_option(
        seq!["--file-name"@, audio, "--model-name"@, m, "--transcript-path"@, output],
        "--language"@,
        language,
    )
}

/// The arguments of insanely-fast-whisper for a transcription.
pub fn insanely_fast_whisper_args(audio: &str, model: Option<&str>, output: &str, language: Option<&str>) -> (r: Vec<String>)
    ensures
        texts(r@) == fast_whisper_args_of(audio@, opt_text(model), output@, opt_text(language)),
{
    let m = match model {
        Some(m) => m,
        None => "openai/whisper-base",
    };
    let mut args = strings_of(&["--file-name", audio, "--model-name", m, "--transcript-path", output]);
    proof {
        assert(texts(args@) =~= seq![
            "--file-name"@,
            audio@,
            "--model-name"@,
            m@,
            "--transcript-path"@,
            output@,
        ]);
    }
    push_option(&mut args, "--language", language);
    args
}

/// The filter of ffmpeg's whisper writing JSON to `output`, with the language when one is given.
pub open spec fn whisper_filter(output: Seq<char>, language: Option<Seq<char>>) -> Seq<char> {
    match language {
        Some(l) => "whisper=format=json"@ + ":language="@ + l + ":destination="@ + output,
        None => "whisper=format=json"@ + ":destination="@ + output,
    }
}

/// The ffmpeg arguments transcribing `audio` with its whisper filter.
pub open spec fn ffmpeg_whisper_args_of(audio: Seq<char>, output: Seq<char>, language: Option<Seq<char>>) -> Seq<Seq<char>> {
    seq!["-i"@, audio, "-vn"@, "-af"@, whisper_filter(output, language), "-f"@, "null"@, "-"@]
}

/// The arguments of ffmpeg transcribing with its whisper filter.
pub fn ffmpeg_whisper_args(audio: &str, output: &str, language: Option<&str>) -> (r: Vec<String>)
    ensures
        texts(r@) == ffmpeg_whisper_args_of(audio@, output@, opt_text(language)),
{
    let mut filter = String::from_str("whisper=format=json");
    match language {
        Some(l) => {
            filter.append(":language=");
            filter.append(l);
        },
        None => {},
    }
    filter.append(":destination=");
    filter.append(output);
    let args = strings_of(&["-i", audio, "-vn", "-af", filter.as_str(), "-f", "null", "-"]);
    proof {
        assert(texts(args@) =~= ffmpeg_whisper_args_of(audio@, output@, opt_text(language)));
    }
    args
}

/// whisper.cpp is handed the model file (`-m`), the audio (`-f`), JSON output (`-oj`) under
/// the output name (`-of`); a language, when given, adds `-l` and the language at the end and
/// changes nothing else.
pub proof fn lemma_whisper_cpp_arguments(model_path: Seq<char>, audio: Seq<char>, output: Seq<char>, language: Option<Seq<char>>)
    ensures
        ({
            let without = whisper_cpp_args_of(model_path, audio, output, None);
            &&& without =~= seq!["-m"@, model_path, "-f"@, audio, "-oj"@, "-of"@, output]
            &&& whisper_cpp_args_of(model_path, audio, output, language) == match language {
                Some(l) => without + seq!["-l"@, l],
                None => without,
            }
        }),
{
}

/// insanely-fast-whisper is handed the audio file, the model (`openai/whisper-base` when none
/// is named) and the transcript file, each after its flag; a language, when given, adds the
/// two arguments `--language` and the language at the end and changes nothing else.
pub proof fn lemma_fast_whisper_arguments(
    audio: Seq<char>,
    model: Option<Seq<char>>,
    output: Seq<char>,
    language: Option<Seq<char>>,
)
    ensures
        ({
            let without = fast_whisper_args_of(audio, model, output, None);
            let args = fast_whisper_args_of(audio, model, output, language);
            &&& without.len() == 6
            &&& without[0] == "--file-name"@ && without[1] == audio
            &&& without[2] == "--model-name"@ && without[3] == match model {
                Some(m) => m,
                None => "openai/whisper-base"@,
            }
            &&& without[4] == "--transcript-path"@ && without[5] == output
            &&& match language {
                Some(l) => args == without + seq!["--language"@, l],
                None => args == without,
            }
        }),
{
}

/// ffmpeg reads `audio` without its video and runs its whisper filter, whose output is thrown
/// away (`-f null -`) because the filter writes the JSON transcript itself: whatever the
/// language, the filter starts with `whisper=format=json` and ends with `:destination=`
/// followed by the output path; a language, when given, is named by `:language=` right
/// after the format.
pub proof fn lemma_ffmpeg_whisper_writes_output(audio: Seq<char>, output: Seq<char>, language: Option<Seq<char>>)
    ensures
        ({
            let args = ffmpeg_whisper_args_of(audio, output, language);
            let filter = args[4];
            &&& args.len() == 8
            &&& args[0] == "-i"@ && args[1] == audio && args[2] == "-vn"@ && args[3] == "-af"@
            &&& args[5] == "-f"@ && args[6] == "null"@ && args[7] == "-"@
            &&& has_prefix(filter, "whisper=format=json"@)
            &&& has_suffix(filter, ":destination="@ + output)
            &&& language matches Some(l) ==> has_prefix(filter, "whisper=format=json:language="@ + l)
        }),
{
    reveal_strlit("whisper=format=json");
    reveal_strlit(":language=");
    reveal_strlit(":destination=");
    reveal_strlit("whisper=format=json:language=");
    let filter = whisper_filter(output, language);
    let d = ":destination="@ + output;
    assert(filter.subrange(0, "whisper=format=json"@.len() as int) =~= "whisper=format=json"@);
    assert(filter.subrange(filter.len() - d.len(), filter.len() as int) =~= d);
    match language {
        Some(l) => {
            let p = "whisper=format=json:language="@ + l;
            assert(p =~= "whisper=format=json"@ + ":language="@ + l);
            assert(filter.subrange(0, p.len() as int) =~= p);
        },
        None => {},
    }
}

/// The text of a transcript cue, with its start and end already written as timestamps.
pub struct SubtitleCue {
    pub start: String,
    pub end: String,
    pub text: String,
}

/// The formats a transcript is written in.
#[derive(Clone, Copy, PartialEq, Eq, Debug, Structural)]
pub enum TranscriptFormat {
    /// SubRip: numbered cues, times as `HH:MM:SS,mmm`.
    Srt,
    /// WebVTT: a header, times as `HH:MM:SS.mmm`.
    Vtt,
    /// The texts alone, one per line.
    Txt,
}

/// The format named `srt`, `vtt` or `txt`.
pub open spec fn format_named(name: Seq<char>) -> Option<TranscriptFormat> {
    if name == "srt"@ {
        Some(TranscriptFormat::Srt)
    } else if name == "vtt"@ {
        Some(TranscriptFormat::Vtt)
    } else if name == "txt"@ {
        Some(TranscriptFormat::Txt)
    } else {
        None
    }
}

/// The format a name gives, or the error for a name of none.
pub fn transcript_format(name: &str) -> (r: Result<TranscriptFormat, TranscriptionError>)
    ensures
        match format_named(name@) {
            Some(f) => r == Ok::<TranscriptFormat, TranscriptionError>(f),
            None => r matches Err(TranscriptionError::UnsupportedFormat(n)) && n@ == name@,
        },
{
    if same_text(name, "srt") {
        Ok(TranscriptFormat::Srt)
    } else if same_text(name, "vtt") {
        Ok(TranscriptFormat::Vtt)
    } else if same_text(name, "txt") {
        Ok(TranscriptFormat::Txt)
    } else {
        Err(TranscriptionError::UnsupportedFormat(String::from_str(name)))
    }
}

/// The times of a cue: `start --> end` and a newline.
pub open spec fn cue_times(c: SubtitleCue) -> Seq<char> {
    c.start@ + " --> "@ + c.end@ + "\n"@
}

/// A SubRip document: each cue numbered from one, its times, its text and a blank line.
pub open spec fn srt_text(cues: Seq<SubtitleCue>) -> Seq<char>
    decreases cues.len(),
{
    if cues.len() == 0 {
        Seq::empty()
    } else {
        srt_text(cues.drop_last()) + decimal(cues.len()) + "\n"@ + cue_times(cues.last())
            + cues.last().text@ + "\n\n"@
    }
}

/// The cues of a WebVTT document: each cue's times, its text and a blank line.
pub open spec fn vtt_cues(cues: Seq<SubtitleCue>) -> Seq<char>
    decreases cues.len(),
{
    if cues.len() == 0 {
        Seq::empty()
    } else {
        vtt_cues(cues.drop_last()) + cue_times(cues.last()) + cues.last().text@ + "\n\n"@
    }
}

/// The texts of the cues.
pub open spec fn cue_texts(cues: Seq<SubtitleCue>) -> Seq<Seq<char>> {
    cues.map_values(|c: SubtitleCue| c.text@)
}

/// The document of a transcript in a format.
pub open spec fn transcript_text(cues: Seq<SubtitleCue>, f: TranscriptFormat) -> Seq<char> {
    match f {
        TranscriptFormat::Srt => srt_text(cues),
        TranscriptFormat::Vtt => "WEBVTT\n\n"@ + vtt_cues(cues),
        TranscriptFormat::Txt => newline_joined(cue_texts(cues)),
    }
}

fn srt_document(cues: &Vec<SubtitleCue>) -> (r: String)
    ensures
        r@ == srt_text(cues@),
{
    let mut out = String::new();
    let mut i: usize = 0;
    while i < cues.len()
        invariant
            i <= cues@.len(),
            out@ == srt_text(cues@.subrange(0, i as int)),
        decreases cues.len() - i,
    {
        let ghost before = out@;
        let n = to_decimal((i + 1) as u64);
        out.append(n.as_str());
        out.append("\n");
        out.append(cues[i].start.as_str());
        out.append(" --> ");
        out.append(cues[i].end.as_str());
        out.append("\n");
        out.append(cues[i].text.as_str());
        out.append("\n\n");
        proof {
            let s = cues@.subrange(0, i + 1);
            assert(s.drop_last() =~= cues@.subrange(0, i as int));
            assert(s.last() == cues@[i as int]);
            assert(out@ =~= srt_text(s));
        }
        i = i + 1;
    }
    assert(cues@.subrange(0, cues@.len() as int) =~= cues@);
    out
}

fn vtt_document(cues: &Vec<SubtitleCue>) -> (r: String)
    ensures
        r@ == "WEBVTT\n\n"@ + vtt_cues(cues@),
{
    let mut out = String::from_str("WEBVTT\n\n");
    let mut i: usize = 0;
    while i < cues.len()
        invariant
            i <= cues@.len(),
            out@ == "WEBVTT\n\n"@ + vtt_cues(cues@.subrange(0, i as int)),
        decreases cues.len() - i,
    {
        out.append(cues[i].start.as_str());
        out.append(" --> ");
        out.append(cues[i].end.as_str());
        out.append("\n");
        out.append(cues[i].text.as_str());
        out.append("\n\n");
        proof {
            let s = cues@.subrange(0, i + 1);
            assert(s.drop_last() =~= cues@.subrange(0, i as int));
            assert(s.last() == cues@[i as int]);
            assert(out@ =~= "WEBVTT\n\n"@ + vtt_cues(s));
        }
        i = i + 1;
    }
    assert(cues@.subrange(0, cues@.len() as int) =~= cues@);
    out
}

fn txt_document(cues: &Vec<SubtitleCue>) -> (r: String)
    ensures
        r@ == newline_joined(cue_texts(cues@)),
{
    let mut lines: Vec<String> = Vec::new();
    let mut i: usize = 0;
    while i < cues.len()
        invariant
            i <= cues@.len(),
            lines@.len() == i,
            forall|k: int| 0 <= k < i ==> (#[trigger] lines@[k])@ == cues@[k].text@,
        decreases cues.len() - i,
    {
        lines.push(cues[i].text.clone());
        i = i + 1;
    }
    assert(texts(lines@) =~= cue_texts(cues@));
    join_lines(&lines)
}

impl<S, P: Copy> TranscriptionService<S, P> {
    /// Whether live transcription may begin: the tools are there and so is the video.
    pub fn check_live_transcription(&self, video_exists: bool) -> (r: Result<(), TranscriptionError>)
        ensures
            !self.ready() ==> r == Err::<(), TranscriptionError>(TranscriptionError::FfmpegUnavailable),
            self.ready() && !video_exists ==> r == Err::<(), TranscriptionError>(
                TranscriptionError::VideoMissing,
            ),
            self.ready() && video_exists ==> r is Ok,
    {
        if !self.available {
            Err(TranscriptionError::FfmpegUnavailable)
        } else if !video_exists {
            Err(TranscriptionError::VideoMissing)
        } else {
            Ok(())
        }
    }

    /// Adds a starting job `job_id` for `video_path` and gives the ffmpeg arguments that run
    /// it. The audio parameters are those the video reports (`probed`, see
    /// `speech_audio_params`), the configured ones when it could not be probed; ffmpeg's
    /// whisper filter is used when configured and `whisper_supported`.
    pub fn start_live_transcription(
        &mut self,
        job_id: String,
        video_path: String,
        config: TranscriptionConfig<P>,
        probed: Option<(Option<u32>, Option<u8>)>,
        whisper_supported: bool,
        start: P,
    ) -> (r: Vec<String>)
        requires
            old(self).well_formed(),
        ensures
            final(self).well_formed(),
            final(self).same_setup(old(self)),
            final(self).job(job_id@) matches Some(j) && {
                let (rate, channels) = match probed {
                    Some((s, c)) => (
                        match s {
                            Some(s) => s,
                            None => 16000u32,
                        },
                        match c {
                            Some(c) => if c == 1 || c == 2 {
                                c
                            } else {
                                1u8
                            },
                            None => 1u8,
                        },
                    ),
                    None => (config.sample_rate, config.channels),
                };
                let used = TranscriptionConfig { sample_rate: rate, channels, ..config };
                &&& j.id == job_id
                &&& j.file_path == video_path
                &&& j.status == TranscriptionStatus::Starting
                &&& j.segments@.len() == 0
                &&& j.process_id is None
                &&& j.current_time == start
                &&& j.progress == start
                &&& j.error is None
                &&& j.config == used
                &&& texts(r@) == live_args(
                    video_path@,
                    used,
                    config.use_ffmpeg_whisper && whisper_supported,
                )
            },
            forall|other: Seq<char>| other != job_id@ ==> final(self).job(other) == old(self).job(other),
    {
        let mut config = config;
        let (rate, channels) = match probed {
            Some((s, c)) => speech_audio_params(s, c),
            None => (config.sample_rate, config.channels),
        };
        config.sample_rate = rate;
        config.channels = channels;
        let use_whisper = config.use_ffmpeg_whisper && whisper_supported;
        let args = live_transcription_args(video_path.as_str(), &config, use_whisper);
        let job = TranscriptionJob::starting(job_id, video_path, config, start);
        self.insert_job(job);
        args
    }

    /// The audio file extracted for job `job_id` (`<job_id>.wav` in the scratch directory) and
    /// the ffmpeg arguments extracting it from `video`: 16 kHz mono 16-bit PCM, overwriting.
    pub fn extraction_command(&self, video: &str, job_id: &str) -> (r: (String, Vec<String>))
        ensures
            r.0@ == joined(self.temp(), job_id@ + ".wav"@),
            texts(r.1@) == extraction_args(video@, r.0@),
    {
        let name = String::from_str(job_id).concat(".wav");
        let audio = join_path(self.temp_dir.as_str(), name.as_str());
        let args = strings_of(
            &["-i", video, "-vn", "-acodec", "pcm_s16le", "-ar", "16000", "-ac", "1", "-y", audio.as_str()],
        );
        proof {
            assert(texts(args@) =~= extraction_args(video@, audio@));
        }
        (audio, args)
    }

    /// The file a transcription engine writes its JSON to for run `run_id`: `<run_id>.json` in
    /// the scratch directory.
    pub fn transcript_output(&self, run_id: &str) -> (r: String)
        ensures
            r@ == joined(self.temp(), run_id@ + ".json"@),
    {
        let name = String::from_str(run_id).concat(".json");
        join_path(self.temp_dir.as_str(), name.as_str())
    }

    /// The engine that transcribes a file, in order of preference: whisper.cpp where it was
    /// found, insanely-fast-whisper where it runs, Ollama where it offers a whisper model,
    /// ffmpeg's whisper filter where ffmpeg has it; an error without ffmpeg or without any.
    pub fn transcription_engine(
        &self,
        whisper_cpp: Option<String>,
        insanely_fast_whisper: bool,
        ffmpeg_whisper: bool,
    ) -> (r: Result<TranscriptionEngine, TranscriptionError>)
        ensures
            !self.ready() ==> r == Err::<TranscriptionEngine, TranscriptionError>(
                TranscriptionError::ExtractionUnavailable,
            ),
            self.ready() ==> match whisper_cpp {
                Some(p) => r == Ok::<TranscriptionEngine, TranscriptionError>(
                    TranscriptionEngine::WhisperCpp(p),
                ),
                None => if insanely_fast_whisper {
                    r == Ok::<TranscriptionEngine, TranscriptionError>(
                        TranscriptionEngine::InsanelyFastWhisper,
                    )
                } else if self.model() is Some {
                    r matches Ok(TranscriptionEngine::Ollama(m)) && m@ == self.model()->0
                } else if ffmpeg_whisper {
                    r == Ok::<TranscriptionEngine, TranscriptionError>(
                        TranscriptionEngine::FfmpegWhisper,
                    )
                } else {
                    r == Err::<TranscriptionEngine, TranscriptionError>(TranscriptionError::NoEngine)
                },
            },
    {
        if !self.available {
            return Err(TranscriptionError::ExtractionUnavailable);
        }
        match whisper_cpp {
            Some(p) => Ok(TranscriptionEngine::WhisperCpp(p)),
            None => if insanely_fast_whisper {
                Ok(TranscriptionEngine::InsanelyFastWhisper)
            } else {
                match &self.default_model {
                    Some(m) => Ok(TranscriptionEngine::Ollama(m.clone())),
                    None => if ffmpeg_whisper {
                        Ok(TranscriptionEngine::FfmpegWhisper)
                    } else {
                        Err(TranscriptionError::NoEngine)
                    },
                }
            },
        }
    }

    /// The transcription models offered (see `offered_models`), given which tools were found
    /// and the whisper models Ollama lists.
    pub fn get_available_models(
        &self,
        whisper_cpp: bool,
        fast_whisper: bool,
        ffmpeg_whisper: bool,
        ollama_models: &Vec<String>,
    ) -> (r: Vec<String>)
        ensures
            texts(r@) == offered_models(
                whisper_cpp,
                fast_whisper,
                ffmpeg_whisper,
                texts(ollama_models@),
                self.ready(),
            ),
    {
        transcription_models(whisper_cpp, fast_whisper, ffmpeg_whisper, ollama_models, self.available)
    }

    /// The document of a transcript in the format named `format` (`srt`, `vtt` or `txt`).
    pub fn transcript_document(&self, cues: &Vec<SubtitleCue>, format: &str) -> (r: Result<String, TranscriptionError>)
        ensures
            match format_named(format@) {
                Some(f) => r matches Ok(doc) && doc@ == transcript_text(cues@, f),
                None => r matches Err(TranscriptionError::UnsupportedFormat(n)) && n@ == format@,
            },
    {
        match transcript_format(format) {
            Ok(TranscriptFormat::Srt) => Ok(srt_document(cues)),
            Ok(TranscriptFormat::Vtt) => Ok(vtt_document(cues)),
            Ok(TranscriptFormat::Txt) => Ok(txt_document(cues)),
            Err(e) => Err(e),
        }
    }
}

/// The ffmpeg arguments for live transcription of `video` (see `live_args`).
pub fn live_transcription_args<P>(video: &str, config: &TranscriptionConfig<P>, use_whisper: bool) -> (r: Vec<String>)
    ensures
        texts(r@) == live_args(video@, *config, use_whisper),
{
    if use_whisper && config.whisper_model_path.is_some() {
        let model = match &config.whisper_model_path {
            Some(m) => m.as_str(),
            None => "",
        };
        let mut filter = String::from_str("whisper=model=").concat(model);
        match &config.language {
            Some(l) => {
                filter.append(":language=");
                filter.append(l.as_str());
            },
            None => {},
        }
        let args = strings_of(&["-i", video, "-af", filter.as_str(), "-f", "null", "-"]);
        proof {
            assert(texts(args@) =~= live_args(video@, *config, use_whisper));
        }
        args
    } else {
        let rate = to_decimal(config.sample_rate as u64);
        let channels = to_decimal(config.channels as u64);
        let args = strings_of(
            &["-i", video, "-vn", "-f", "s16le", "-ar", rate.as_str(), "-ac", channels.as_str(), "-"],
        );
        proof {
            assert(texts(args@) =~= live_args(video@, *config, use_whisper));
        }
        args
    }
}


/// Where ffmpeg or ffprobe (`tool`) is looked for, in order: Homebrew's, `/usr/local/bin`,
/// `/usr/bin`, then the bare name on the search path.
pub open spec fn tool_paths(tool: Seq<char>) -> Seq<Seq<char>> {
    seq!["/opt/homebrew/bin/"@ + tool, "/usr/local/bin/"@ + tool, "/usr/bin/"@ + tool, tool]
}

/// The places ffmpeg or ffprobe is looked for (see `tool_paths`).
pub fn tool_candidates(tool: &str) -> (r: Vec<String>)
    ensures
        texts(r@) == tool_paths(tool@),
{
    let mut v: Vec<String> = Vec::new();
    v.push(String::from_str("/opt/homebrew/bin/").concat(tool));
    v.push(String::from_str("/usr/local/bin/").concat(tool));
    v.push(String::from_str("/usr/bin/").concat(tool));
    v.push(String::from_str(tool));
    assert(texts(v@) =~= tool_paths(tool@));
    v
}

/// The flags a program is tried with to see that it runs: `-version`, then `-h`.
pub open spec fn probe_flags() -> Seq<Seq<char>> {
    seq!["-version"@, "-h"@]
}

/// The flags a program is tried with to see that it runs (see `probe_flags`).
pub fn program_probe_flags() -> (r: Vec<String>)
    ensures
        texts(r@) == probe_flags(),
{
    let v = strings_of(&["-version", "-h"]);
    assert(texts(v@) =~= probe_flags());
    v
}

/// Where whisper.cpp is looked for when transcribing, in order: its `whisper-cli` then its
/// `whisper-cpp` program in Homebrew's, `/usr/local/bin`, `/usr/bin` and on the search path,
/// then Homebrew's `main` and `/usr/local/bin/whisper`.
pub open spec fn whisper_program_paths() -> Seq<Seq<char>> {
    seq![
        "/opt/homebrew/bin/whisper-cli"@,
        "/usr/local/bin/whisper-cli"@,
        "/usr/bin/whisper-cli"@,
        "whisper-cli"@,
        "/opt/homebrew/bin/whisper-cpp"@,
        "/usr/local/bin/whisper-cpp"@,
        "/usr/bin/whisper-cpp"@,
        "whisper-cpp"@,
        "/opt/homebrew/bin/main"@,
        "/usr/local/bin/whisper"@,
    ]
}

/// Where whisper.cpp is looked for when transcribing (see `whisper_program_paths`).
pub fn whisper_program_candidates() -> (r: Vec<String>)
    ensures
        texts(r@) == whisper_program_paths(),
{
    let v = strings_of(
        &[
            "/opt/homebrew/bin/whisper-cli",
            "/usr/local/bin/whisper-cli",
            "/usr/bin/whisper-cli",
            "whisper-cli",
            "/opt/homebrew/bin/whisper-cpp",
            "/usr/local/bin/whisper-cpp",
            "/usr/bin/whisper-cpp",
            "whisper-cpp",
            "/opt/homebrew/bin/main",
            "/usr/local/bin/whisper",
        ],
    );
    assert(texts(v@) =~= whisper_program_paths());
    v
}

/// The ffprobe arguments describing a media file's format and streams as JSON.
pub open spec fn media_probe_args(path: Seq<char>) -> Seq<Seq<char>> {
    seq!["-v"@, "quiet"@, "-print_format"@, "json"@, "-show_format"@, "-show_streams"@, path]
}

/// The ffprobe arguments describing `path` (see `media_probe_args`).
pub fn probe_args(path: &str) -> (r: Vec<String>)
    ensures
        texts(r@) == media_probe_args(path@),
{
    let v = strings_of(&["-v", "quiet", "-print_format", "json", "-show_format", "-show_streams", path]);
    assert(texts(v@) =~= media_probe_args(path@));
    v
}

/// Whether what `ffmpeg -filters` wrote to its error output names a whisper filter.
pub fn lists_whisper_filter(filters: &str) -> (r: bool)
    ensures
        r == (contains_seq(filters@, "whisper"@) || contains_seq(filters@, "libwhisper"@)),
{
    contains(filters, "whisper") || contains(filters, "libwhisper")
}

} // verus!
