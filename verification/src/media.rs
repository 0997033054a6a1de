//! Media work planning: thumbnail batches and their results, transcription job states and
//! audio parameters, and where whisper models are looked for.

use vstd::prelude::*;
use crate::paths::{join_path, joined};
use crate::keyed::{find_keyed, keys_unique, lemma_find_at, lemma_find_index, lemma_push_keyed, lemma_set_keyed};
use crate::text::{decimal, same_text};

verus! {

/// A thumbnail asked for.
#[derive(Clone, Debug)]
pub struct ThumbnailRequest<K> {
    pub path: String,
    /// Edge length in pixels.
    pub size: u32,
    /// The kind of thumbnail.
    pub thumb_type: K,
}

/// The thumbnail made for a request, or why there is none.
#[derive(Clone, Debug)]
pub struct ThumbnailResult<D> {
    pub path: String,
    pub thumbnail: Option<D>,
    pub error: Option<String>,
}

/// The result for a request from what its generation gave.
pub fn thumbnail_result<D>(path: String, outcome: Result<Option<D>, String>) -> (r: ThumbnailResult<D>)
    ensures
        r.path@ == path@,
        outcome matches Ok(t) ==> r.thumbnail == t && r.error is None,
        outcome matches Err(e) ==> r.thumbnail is None && r.error == Some(e),
{
    match outcome {
        Ok(t) => ThumbnailResult { path, thumbnail: t, error: None },
        Err(e) => ThumbnailResult { path, thumbnail: None, error: Some(e) },
    }
}

/// Whether `r` cuts `0..n` into consecutive batches of `size`, the last one possibly shorter
/// (`slice::chunks`).
pub open spec fn batches_of(r: Seq<(usize, usize)>, n: nat, size: nat) -> bool {
    &&& (n == 0 <==> r.len() == 0)
    &&& r.len() > 0 ==> r[0].0 == 0 && r.last().1 == n
    &&& forall|k: int| 0 <= k < r.len() - 1 ==> (#[trigger] r[k]).1 == r[k + 1].0 && r[k].1 - r[k].0 == size
    &&& forall|k: int| 0 <= k < r.len() ==> 0 < (#[trigger] r[k]).1 - r[k].0 <= size
}

/// The bounds of the batches requests are processed in (see `batches_of`).
pub fn thumbnail_batches(count: usize, batch_size: usize) -> (r: Vec<(usize, usize)>)
    requires
        batch_size > 0,
    ensures
        batches_of(r@, count as nat, batch_size as nat),
{
    let mut out: Vec<(usize, usize)> = Vec::new();
    let mut lo: usize = 0;
    while lo < count
        invariant
            batch_size > 0,
            lo <= count,
            out@.len() == 0 <==> lo == 0,
            out@.len() > 0 ==> out@[0].0 == 0 && out@.last().1 == lo,
            forall|k: int| 0 <= k < out@.len() - 1 ==> (#[trigger] out@[k]).1 == out@[k + 1].0 && out@[k].1 - out@[k].0 == batch_size,
            forall|k: int| 0 <= k < out@.len() ==> 0 < (#[trigger] out@[k]).1 - out@[k].0 <= batch_size,
            out@.len() > 0 && lo < count ==> out@.last().1 - out@.last().0 == batch_size,
        decreases count - lo,
    {
        let hi = if count - lo > batch_size { lo + batch_size } else { count };
        let ghost before = out@;
        out.push((lo, hi));
        proof {
            assert forall|k: int| 0 <= k < out@.len() - 1 implies (#[trigger] out@[k]).1 == out@[k + 1].0 && out@[k].1 - out@[k].0 == batch_size by {
                assert(out@[k] == before[k]);
                if k + 1 < before.len() {
                    assert(out@[k + 1] == before[k + 1]);
                }
            }
        }
        lo = hi;
    }
    out
}

/// The key a cached thumbnail is kept under: the path of its file.
pub open spec fn thumb_key<D>() -> spec_fn((String, D)) -> Seq<char> {
    |e: (String, D)| e.0@
}

/// The thumbnails made so far, by the path of their file, the folder they are also kept in
/// on disk, and how many are made at once.
pub struct ThumbnailQueue<D> {
    cache: Vec<(String, D)>,
    cache_dir: String,
    max_concurrent: usize,
}

impl<D> ThumbnailQueue<D> {
    /// The cached thumbnails with their paths.
    pub closed spec fn entries(&self) -> Seq<(String, D)> {
        self.cache@
    }

    /// Whether each path has one thumbnail.
    pub closed spec fn well_formed(&self) -> bool {
        keys_unique(self.cache@, thumb_key())
    }

    /// The thumbnail cached for `path`, if any.
    pub open spec fn thumbnail(&self, path: Seq<char>) -> Option<D> {
        match find_keyed(self.entries(), thumb_key(), path) {
            Some(e) => Some(e.1),
            None => None,
        }
    }

    /// The folder of the thumbnails kept on disk.
    pub closed spec fn dir(&self) -> Seq<char> {
        self.cache_dir@
    }

    /// How many thumbnails are made at once.
    pub closed spec fn concurrency(&self) -> nat {
        self.max_concurrent as nat
    }

    /// A queue with nothing cached.
    pub fn new(cache_dir: String, max_concurrent: usize) -> (r: Self)
        ensures
            r.well_formed(),
            forall|p: Seq<char>| r.thumbnail(p) is None,
            r.dir() == cache_dir@,
            r.concurrency() == max_concurrent,
    {
        ThumbnailQueue { cache: Vec::new(), cache_dir, max_concurrent }
    }

    /// The folder of the thumbnails kept on disk.
    pub fn cache_dir(&self) -> (r: &str)
        ensures
            r@ == self.dir(),
    {
        self.cache_dir.as_str()
    }

    fn position(&self, path: &str) -> (r: Option<usize>)
        requires
            self.well_formed(),
        ensures
            match r {
                Some(i) => i < self.entries().len() && self.entries()[i as int].0@ == path@
                    && find_keyed(self.entries(), thumb_key(), path@) == Some(self.entries()[i as int]),
                None => find_keyed(self.entries(), thumb_key(), path@) is None,
            },
    {
        let mut i: usize = 0;
        while i < self.cache.len()
            invariant
                i <= self.cache@.len(),
                self.well_formed(),
                forall|j: int| 0 <= j < i ==> (#[trigger] self.cache@[j]).0@ != path@,
            decreases self.cache.len() - i,
        {
            if same_text(self.cache[i].0.as_str(), path) {
                proof {
                    lemma_find_at(self.cache@, thumb_key(), i as int);
                }
                return Some(i);
            }
            i = i + 1;
        }
        proof {
            lemma_find_index(self.cache@, thumb_key(), path@);
        }
        None
    }

    /// The thumbnail cached for `path`.
    pub fn cached(&self, path: &str) -> (r: Option<&D>)
        requires
            self.well_formed(),
        ensures
            match self.thumbnail(path@) {
                Some(d) => r matches Some(x) && *x == d,
                None => r is None,
            },
    {
        match self.position(path) {
            Some(i) => Some(&self.cache[i].1),
            None => None,
        }
    }

    /// Caches `data` as the thumbnail of `path`, in place of the one it had.
    pub fn remember(&mut self, path: String, data: D)
        requires
            old(self).well_formed(),
        ensures
            final(self).well_formed(),
            final(self).dir() == old(self).dir(),
            final(self).concurrency() == old(self).concurrency(),
            final(self).thumbnail(path@) == Some(data),
            forall|p: Seq<char>| p != path@ ==> final(self).thumbnail(p) == old(self).thumbnail(p),
    {
        let ghost key = path@;
        match self.position(path.as_str()) {
            Some(i) => {
                let ghost before = self.cache@;
                let ghost e = (path, data);
                let _replaced = self.cache.remove(i);
                self.cache.insert(i, (path, data));
                proof {
                    assert(self.cache@ =~= before.update(i as int, e));
                    lemma_set_keyed(before, thumb_key(), i as int, e);
                }
            },
            None => {
                let ghost before = self.cache@;
                let ghost e = (path, data);
                self.cache.push((path, data));
                proof {
                    lemma_find_index(before, thumb_key(), key);
                    lemma_push_keyed(before, thumb_key(), e);
                }
            },
        }
    }

    /// Forgets every cached thumbnail.
    pub fn clear_cache(&mut self)
        ensures
            final(self).well_formed(),
            final(self).dir() == old(self).dir(),
            final(self).concurrency() == old(self).concurrency(),
            forall|p: Seq<char>| final(self).thumbnail(p) is None,
    {
        self.cache = Vec::new();
    }

    /// The batches `count` requests are processed in: as many at once as are made at once
    /// (see `batches_of`).
    pub fn batches(&self, count: usize) -> (r: Vec<(usize, usize)>)
        requires
            self.concurrency() > 0,
        ensures
            batches_of(r@, count as nat, self.concurrency()),
    {
        thumbnail_batches(count, self.max_concurrent)
    }
}

/// The state of a transcription job.
#[derive(Clone, Copy, PartialEq, Eq, Debug, Structural)]
pub enum TranscriptionStatus {
    Idle,
    Starting,
    Running,
    Paused,
    Completed,
    Failed,
    Stopped,
}

/// The audio parameters for speech recognition from what the video reports: its sample rate
/// (16 kHz when unknown), and its channels when mono or stereo (mono otherwise).
pub fn speech_audio_params(sample_rate: Option<u32>, channels: Option<u8>) -> (r: (u32, u8))
    ensures
        r.0 == match sample_rate {
            Some(s) => s,
            None => 16000u32,
        },
        r.1 == match channels {
            Some(c) => if c == 1 || c == 2 { c } else { 1u8 },
            None => 1u8,
        },
{
    let rate = match sample_rate {
        Some(s) => s,
        None => 16000,
    };
    let ch = match channels {
        Some(c) => if c == 1 || c == 2 { c } else { 1 },
        None => 1,
    };
    (rate, ch)
}

/// The transcription models offered, given which tools were found: whisper.cpp's base, small
/// and medium models, insanely-fast-whisper's base and small, FFmpeg's whisper filter, then
/// each whisper model Ollama has (prefixed `ollama:`); when none of these is there but FFmpeg
/// is, the four plain whisper sizes.
pub open spec fn offered_models(
    whisper_cpp: bool,
    fast_whisper: bool,
    ffmpeg_whisper: bool,
    ollama: Seq<Seq<char>>,
    ffmpeg: bool,
) -> Seq<Seq<char>> {
    let a: Seq<Seq<char>> = if whisper_cpp {
        seq!["whisper-cpp:base"@, "whisper-cpp:small"@, "whisper-cpp:medium"@]
    } else {
        Seq::empty()
    };
    let b: Seq<Seq<char>> = if fast_whisper {
        seq!["insanely-fast-whisper:base"@, "insanely-fast-whisper:small"@]
    } else {
        Seq::empty()
    };
    let c: Seq<Seq<char>> = if ffmpeg_whisper {
        seq!["ffmpeg-whisper:default"@]
    } else {
        Seq::empty()
    };
    let d = ollama.map_values(|n: Seq<char>| "ollama:"@ + n);
    let all = a + b + c + d;
    if all.len() == 0 && ffmpeg {
        seq!["whisper-base"@, "whisper-small"@, "whisper-medium"@, "whisper-large"@]
    } else {
        all
    }
}

/// The transcription models offered (see `offered_models`); `ollama_models` are the names of
/// the whisper models Ollama has.
pub fn transcription_models(
    whisper_cpp: bool,
    fast_whisper: bool,
    ffmpeg_whisper: bool,
    ollama_models: &Vec<String>,
    ffmpeg: bool,
) -> (r: Vec<String>)
    ensures
        r@.map_values(|s: String| s@) == offered_models(
            whisper_cpp,
            fast_whisper,
            ffmpeg_whisper,
            ollama_models@.map_values(|s: String| s@),
            ffmpeg,
        ),
{
    let ghost names = ollama_models@.map_values(|s: String| s@);
    let mut out: Vec<String> = Vec::new();
    if whisper_cpp {
        out.push("whisper-cpp:base".to_string());
        out.push("whisper-cpp:small".to_string());
        out.push("whisper-cpp:medium".to_string());
    }
    if fast_whisper {
        out.push("insanely-fast-whisper:base".to_string());
        out.push("insanely-fast-whisper:small".to_string());
    }
    if ffmpeg_whisper {
        out.push("ffmpeg-whisper:default".to_string());
    }
    let ghost head = out@.map_values(|s: String| s@);
    let mut i: usize = 0;
    while i < ollama_models.len()
        invariant
            i <= ollama_models@.len(),
            names == ollama_models@.map_values(|s: String| s@),
            out@.len() == head.len() + i,
            forall|k: int| 0 <= k < head.len() ==> (#[trigger] out@[k])@ == head[k],
            forall|k: int|
                0 <= k < i ==> (#[trigger] out@[head.len() + k])@ == "ollama:"@ + names[k],
        decreases ollama_models.len() - i,
    {
        let s = "ollama:".to_string();
        let s = s.concat(ollama_models[i].as_str());
        out.push(s);
        i = i + 1;
    }
    if out.len() == 0 && ffmpeg {
        out.push("whisper-base".to_string());
        out.push("whisper-small".to_string());
        out.push("whisper-medium".to_string());
        out.push("whisper-large".to_string());
    }
    proof {
        let a: Seq<Seq<char>> = if whisper_cpp {
            seq!["whisper-cpp:base"@, "whisper-cpp:small"@, "whisper-cpp:medium"@]
        } else {
            Seq::empty()
        };
        let b: Seq<Seq<char>> = if fast_whisper {
            seq!["insanely-fast-whisper:base"@, "insanely-fast-whisper:small"@]
        } else {
            Seq::empty()
        };
        let c: Seq<Seq<char>> = if ffmpeg_whisper {
            seq!["ffmpeg-whisper:default"@]
        } else {
            Seq::empty()
        };
        assert(head =~= a + b + c);
        let d = names.map_values(|n: Seq<char>| "ollama:"@ + n);
        let all = a + b + c + d;
        if !(all.len() == 0 && ffmpeg) {
            assert(all.len() == out@.len());
            let mv = out@.map_values(|s: String| s@);
            assert forall|k: int| 0 <= k < all.len() implies #[trigger] mv[k] == all[k] by {
                if k < head.len() {
                    assert(all[k] == head[k]);
                } else {
                    assert(all[k] == d[k - head.len()]);
                    assert(out@[head.len() + (k - head.len())] == out@[k]);
                }
            }
            assert(mv =~= all);
        } else {
            assert(out@.map_values(|s: String| s@) =~= seq![
                "whisper-base"@,
                "whisper-small"@,
                "whisper-medium"@,
                "whisper-large"@,
            ]);
        }
    }
    out
}

/// The file name of a whisper.cpp model.
pub fn ggml_model_file(model_name: &str) -> (r: String)
    ensures
        r@ == "ggml-"@ + model_name@ + ".bin"@,
{
    String::from_str("ggml-").concat(model_name).concat(".bin")
}

/// Where a whisper.cpp model is looked for, in order: under the home directory's
/// `.local/share/whisper-cpp/models` and `.cache/whisper` (when there is a home directory),
/// then the Homebrew and `/usr/local` model folders, then `models`.
pub fn whisper_model_candidates(home: Option<&str>, file: &str) -> (r: Vec<String>)
    ensures
        home is Some ==> r@.len() == 5 && r@[0]@ == joined(joined(home->0@, ".local/share/whisper-cpp/models"@), file@)
            && r@[1]@ == joined(joined(home->0@, ".cache/whisper"@), file@),
        home is None ==> r@.len() == 3,
        r@[r@.len() - 3]@ == joined("/opt/homebrew/share/whisper-cpp/models"@, file@),
        r@[r@.len() - 2]@ == joined("/usr/local/share/whisper-cpp/models"@, file@),
        r@[r@.len() - 1]@ == joined("models"@, file@),
{
    let mut out: Vec<String> = Vec::new();
    match home {
        Some(h) => {
            let a = join_path(h, ".local/share/whisper-cpp/models");
            out.push(join_path(a.as_str(), file));
            let b = join_path(h, ".cache/whisper");
            out.push(join_path(b.as_str(), file));
        },
        None => {},
    }
    out.push(join_path("/opt/homebrew/share/whisper-cpp/models", file));
    out.push(join_path("/usr/local/share/whisper-cpp/models", file));
    out.push(join_path("models", file));
    out
}

} // verus!
