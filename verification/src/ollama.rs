//! The Ollama client's own logic: its address, which models do what, the parsing of vision
//! answers into tags, and the transcription stream's line handling.

use vstd::prelude::*;
use crate::text::{
    before_first, byte_length, chars_of, contains, contains_seq, contains_string, ends_with,
    find_char, has_prefix, has_suffix, lines, lines_of, lowercase, split_any, split_chars,
    split_whitespace, string_of_range, strip_prefix, to_lowercase, trim, trim_end_by,
    trim_end_class, trimmed, utf8_len, words_of, CharClass,
};

verus! {

/// A model known to the Ollama server.
#[derive(Clone, Debug)]
pub struct OllamaModel {
    pub name: String,
    pub model: String,
    pub size: u64,
    pub digest: String,
    pub modified_at: String,
}

impl OllamaModel {
    /// A copy of the record.
    pub fn duplicate(&self) -> (r: Self)
        ensures
            r == *self,
    {
        OllamaModel {
            name: self.name.clone(),
            model: self.model.clone(),
            size: self.size,
            digest: self.digest.clone(),
            modified_at: self.modified_at.clone(),
        }
    }
}

/// The models of `listed` whose name `keep` accepts, in their order.
pub open spec fn models_where(listed: Seq<OllamaModel>, keep: spec_fn(Seq<char>) -> bool) -> Seq<OllamaModel> {
    listed.filter(|m: OllamaModel| keep(m.name@))
}

/// The models known to the Ollama server.
#[derive(Clone, Debug)]
pub struct OllamaModelsResponse {
    pub models: Vec<OllamaModel>,
}

/// A finished transcription.
#[derive(Clone, Debug)]
pub struct TranscriptionResponse {
    pub model: String,
    pub created_at: String,
    pub response: String,
    pub done: bool,
    pub context: Option<Vec<u64>>,
    pub total_duration: Option<u64>,
    pub load_duration: Option<u64>,
    pub prompt_eval_count: Option<u32>,
    pub prompt_eval_duration: Option<u64>,
    pub eval_count: Option<u32>,
    pub eval_duration: Option<u64>,
}

/// One piece of a streamed transcription.
#[derive(Clone, Debug)]
pub struct TranscriptionChunk {
    pub model: String,
    pub created_at: String,
    pub response: String,
    pub done: bool,
}

/// A vision model's answer.
#[derive(Clone, Debug)]
pub struct VisionResponse {
    pub model: String,
    pub created_at: String,
    pub response: String,
    pub done: bool,
}

/// What an image analysis found.
#[derive(Clone, Debug)]
pub struct ImageAnalysisResult {
    pub tags: Vec<String>,
    pub description: String,
    pub objects: Vec<String>,
    pub scene: Option<String>,
}

/// A client of an Ollama server.
#[derive(Clone, Debug)]
pub struct OllamaClient {
    base_url: String,
    timeout_secs: u64,
}

/// The server address a client uses: the given one, else the local default, without trailing
/// slashes.
pub open spec fn client_address(base_url: Option<String>) -> Seq<char> {
    trim_end_by(
        match base_url {
            Some(u) => u@,
            None => "http://localhost:11434"@,
        },
        CharClass::Exactly('/'),
    )
}

/// Whether a model name is a transcription model (it mentions whisper, transcribe or audio,
/// case aside).
pub open spec fn transcription_model(name: Seq<char>) -> bool {
    let n = lowercase(name);
    contains_seq(n, "whisper"@) || contains_seq(n, "transcribe"@) || contains_seq(n, "audio"@)
}

/// Whether a model name is a vision model (llava, bakllava, moondream, cogvlm or vision).
pub open spec fn vision_model(name: Seq<char>) -> bool {
    let n = lowercase(name);
    contains_seq(n, "llava"@) || contains_seq(n, "bakllava"@) || contains_seq(n, "moondream"@)
        || contains_seq(n, "cogvlm"@) || contains_seq(n, "vision"@)
}

impl OllamaClient {
    /// The server address.
    pub closed spec fn address(&self) -> Seq<char> {
        self.base_url@
    }

    /// The request timeout in seconds.
    pub closed spec fn timeout(&self) -> u64 {
        self.timeout_secs
    }

    /// A client for the given server (the local one by default), with a five-minute timeout.
    pub fn new(base_url: Option<String>) -> (r: Self)
        ensures
            r.address() == client_address(base_url),
            r.timeout() == 300,
    {
        let url = match base_url {
            Some(u) => u,
            None => String::from_str("http://localhost:11434"),
        };
        OllamaClient { base_url: trim_end_class(url.as_str(), CharClass::Exactly('/')), timeout_secs: 300 }
    }

    /// The server address.
    pub fn base_url(&self) -> (r: &str)
        ensures
            r@ == self.address(),
    {
        self.base_url.as_str()
    }

    /// The request timeout in seconds.
    pub fn timeout_secs(&self) -> (r: u64)
        ensures
            r == self.timeout(),
    {
        self.timeout_secs
    }

    /// The URL of an API endpoint: the address then the path.
    pub fn endpoint(&self, path: &str) -> (r: String)
        ensures
            r@ == self.address() + path@,
    {
        self.base_url.clone().concat(path)
    }

    /// Whether a model is a transcription model (see `transcription_model`).
    pub fn is_transcription_model(model_name: &str) -> (r: bool)
        ensures
            r == transcription_model(model_name@),
    {
        let lower = to_lowercase(model_name);
        let n = lower.as_str();
        contains(n, "whisper") || contains(n, "transcribe") || contains(n, "audio")
    }

    /// Whether a model is a vision model (see `vision_model`).
    pub fn is_vision_model(model_name: &str) -> (r: bool)
        ensures
            r == vision_model(model_name@),
    {
        let lower = to_lowercase(model_name);
        let n = lower.as_str();
        contains(n, "llava") || contains(n, "bakllava") || contains(n, "moondream") || contains(
            n,
            "cogvlm",
        ) || contains(n, "vision")
    }

    /// The transcription models among those the server lists (see `transcription_model`),
    /// in their order.
    pub fn get_transcription_models(listed: &Vec<OllamaModel>) -> (r: Vec<OllamaModel>)
        ensures
            r@ == models_where(listed@, |n: Seq<char>| transcription_model(n)),
    {
        let mut out: Vec<OllamaModel> = Vec::new();
        let mut i: usize = 0;
        let ghost keep = |n: Seq<char>| transcription_model(n);
        while i < listed.len()
            invariant
                i <= listed@.len(),
                keep == (|n: Seq<char>| transcription_model(n)),
                out@ == models_where(listed@.subrange(0, i as int), keep),
            decreases listed.len() - i,
        {
            proof {
                reveal(Seq::filter);
                assert(listed@.subrange(0, i + 1).drop_last() =~= listed@.subrange(0, i as int));
                assert(listed@.subrange(0, i + 1).last() == listed@[i as int]);
            }
            if Self::is_transcription_model(listed[i].name.as_str()) {
                out.push(listed[i].duplicate());
            }
            i = i + 1;
        }
        assert(listed@.subrange(0, i as int) =~= listed@);
        out
    }

    /// The vision models among those the server lists (see `vision_model`), in their order.
    pub fn get_vision_models(listed: &Vec<OllamaModel>) -> (r: Vec<OllamaModel>)
        ensures
            r@ == models_where(listed@, |n: Seq<char>| vision_model(n)),
    {
        let mut out: Vec<OllamaModel> = Vec::new();
        let mut i: usize = 0;
        let ghost keep = |n: Seq<char>| vision_model(n);
        while i < listed.len()
            invariant
                i <= listed@.len(),
                keep == (|n: Seq<char>| vision_model(n)),
                out@ == models_where(listed@.subrange(0, i as int), keep),
            decreases listed.len() - i,
        {
            proof {
                reveal(Seq::filter);
                assert(listed@.subrange(0, i + 1).drop_last() =~= listed@.subrange(0, i as int));
                assert(listed@.subrange(0, i + 1).last() == listed@[i as int]);
            }
            if Self::is_vision_model(listed[i].name.as_str()) {
                out.push(listed[i].duplicate());
            }
            i = i + 1;
        }
        assert(listed@.subrange(0, i as int) =~= listed@);
        out
    }

    /// The vision analysis read from a model's answer (see `vision_analysis`).
    pub fn parse_vision_response(&self, response: &str) -> (r: ImageAnalysisResult)
        ensures
            analysis_matches(r, vision_analysis(response@)),
    {
        parse_vision_text(response)
    }
}

/// The cleaned items of a comma-separated list: trimmed, lower-cased, non-empty, and shorter
/// than `limit` bytes where a limit is given.
pub open spec fn kept_items(ps: Seq<Seq<char>>, limit: Option<nat>) -> Seq<Seq<char>>
    decreases ps.len(),
{
    if ps.len() == 0 {
        Seq::empty()
    } else {
        let prev = kept_items(ps.drop_last(), limit);
        let t = lowercase(trimmed(ps.last()));
        if t.len() > 0 && (limit matches Some(l) ==> utf8_len(t) < l) {
            prev.push(t)
        } else {
            prev
        }
    }
}

/// The items of a comma-separated list (see `kept_items`).
pub open spec fn list_items(s: Seq<char>, limit: Option<nat>) -> Seq<Seq<char>> {
    kept_items(split_any(s, ',', ','), limit)
}

/// The items of a comma-separated list (see `list_items`).
pub fn list_items_of(s: &str, limit: Option<usize>) -> (r: Vec<String>)
    ensures
        r@.len() == list_items(s@, match limit { Some(l) => Some(l as nat), None => None }).len(),
        forall|k: int| 0 <= k < r@.len() ==> (#[trigger] r@[k])@ == list_items(s@, match limit { Some(l) => Some(l as nat), None => None })[k],
{
    let ghost lim = match limit { Some(l) => Some(l as nat), None => None::<nat> };
    let ps = split_chars(s, ',', ',');
    let ghost pv = split_any(s@, ',', ',');
    let mut out: Vec<String> = Vec::new();
    let mut i: usize = 0;
    while i < ps.len()
        invariant
            i <= ps@.len(),
            lim == match limit { Some(l) => Some(l as nat), None => None::<nat> },
            ps@.len() == pv.len(),
            forall|k: int| 0 <= k < ps@.len() ==> (#[trigger] ps@[k])@ == pv[k],
            out@.len() == kept_items(pv.subrange(0, i as int), lim).len(),
            forall|k: int| 0 <= k < out@.len() ==> (#[trigger] out@[k])@ == kept_items(pv.subrange(0, i as int), lim)[k],
        decreases ps.len() - i,
    {
        let t = trim(ps[i].as_str());
        let c = to_lowercase(t.as_str());
        proof {
            assert(pv.subrange(0, i + 1).drop_last() =~= pv.subrange(0, i as int));
            assert(pv.subrange(0, i + 1).last() == pv[i as int]);
        }
        let ok = !c.as_str().is_empty() && match limit {
            Some(l) => byte_length(c.as_str()) < l,
            None => true,
        };
        if ok {
            out.push(c);
        }
        i = i + 1;
    }
    proof {
        assert(pv.subrange(0, i as int) =~= pv);
    }
    out
}

/// The state of a vision answer's parse: description, tags, objects and scene.
pub type VisionState = (Seq<char>, Seq<Seq<char>>, Seq<Seq<char>>, Option<Seq<char>>);

/// One line of a vision answer applied to the parse: `DESCRIPTION:`, `TAGS:` (items under 50
/// bytes), `OBJECTS:` and `SCENE:` (when not empty) replace what was read before.
pub open spec fn vision_step(st: VisionState, line: Seq<char>) -> VisionState {
    let l = trimmed(line);
    if has_prefix(l, "DESCRIPTION:"@) {
        (trimmed(l.subrange("DESCRIPTION:"@.len() as int, l.len() as int)), st.1, st.2, st.3)
    } else if has_prefix(l, "TAGS:"@) {
        (st.0, list_items(l.subrange("TAGS:"@.len() as int, l.len() as int), Some(50)), st.2, st.3)
    } else if has_prefix(l, "OBJECTS:"@) {
        (st.0, st.1, list_items(l.subrange("OBJECTS:"@.len() as int, l.len() as int), None), st.3)
    } else if has_prefix(l, "SCENE:"@) {
        let s = lowercase(trimmed(l.subrange("SCENE:"@.len() as int, l.len() as int)));
        if s.len() > 0 {
            (st.0, st.1, st.2, Some(s))
        } else {
            st
        }
    } else {
        st
    }
}

/// The parse of the lines, in order.
pub open spec fn vision_lines(ls: Seq<Seq<char>>) -> VisionState
    decreases ls.len(),
{
    if ls.len() == 0 {
        (Seq::empty(), Seq::empty(), Seq::empty(), None)
    } else {
        vision_step(vision_lines(ls.drop_last()), ls.last())
    }
}

/// The fallback tags of an unstructured answer: pieces between commas and newlines, cleaned,
/// under 30 bytes and at most three words, the first ten of them.
pub open spec fn fallback_items(ps: Seq<Seq<char>>) -> Seq<Seq<char>>
    decreases ps.len(),
{
    if ps.len() == 0 {
        Seq::empty()
    } else {
        let prev = fallback_items(ps.drop_last());
        let t = lowercase(trimmed(ps.last()));
        if t.len() > 0 && utf8_len(t) < 30 && words_of(t).len() <= 3 {
            prev.push(t)
        } else {
            prev
        }
    }
}

/// The first ten fallback tags.
pub open spec fn fallback_tags(response: Seq<char>) -> Seq<Seq<char>> {
    let all = fallback_items(split_any(response, ',', '\n'));
    if all.len() > 10 {
        all.subrange(0, 10)
    } else {
        all
    }
}

/// Tags with the objects added that are new and shorter than 30 bytes, in order.
pub open spec fn with_objects(tags: Seq<Seq<char>>, objects: Seq<Seq<char>>) -> Seq<Seq<char>>
    decreases objects.len(),
{
    if objects.len() == 0 {
        tags
    } else {
        let prev = with_objects(tags, objects.drop_last());
        let o = objects.last();
        if !prev.contains(o) && utf8_len(o) < 30 {
            prev.push(o)
        } else {
            prev
        }
    }
}

/// Adding objects to tags keeps the tags in front and appends only objects not yet there,
/// each once: nothing appended repeats a tag or another appended object.
pub proof fn lemma_objects_added_once(tags: Seq<Seq<char>>, objects: Seq<Seq<char>>)
    ensures
        ({
            let r = with_objects(tags, objects);
            &&& r.len() >= tags.len()
            &&& r.subrange(0, tags.len() as int) == tags
            &&& forall|i: int, j: int| tags.len() <= i < j < r.len() ==> r[i] != r[j]
            &&& forall|i: int, k: int| tags.len() <= i < r.len() && 0 <= k < tags.len() ==> r[i] != tags[k]
            &&& forall|i: int| tags.len() <= i < r.len() ==> objects.contains(#[trigger] r[i])
        }),
    decreases objects.len(),
{
    if objects.len() > 0 {
        let prev = with_objects(tags, objects.drop_last());
        lemma_objects_added_once(tags, objects.drop_last());
        let o = objects.last();
        let r = with_objects(tags, objects);
        assert forall|i: int| tags.len() <= i < prev.len() implies objects.contains(#[trigger] prev[i]) by {
            let w = choose|w: int| 0 <= w < objects.drop_last().len() && objects.drop_last()[w] == prev[i];
            assert(objects[w] == prev[i]);
        }
        if !prev.contains(o) && utf8_len(o) < 30 {
            assert(r == prev.push(o));
            assert(r.subrange(0, tags.len() as int) =~= prev.subrange(0, tags.len() as int));
            assert forall|i: int, k: int| tags.len() <= i < r.len() && 0 <= k < tags.len() implies r[i] != tags[k] by {
                if i == prev.len() {
                    assert(prev[k] == tags[k]);
                    assert(prev.contains(prev[k]));
                }
            }
            assert forall|i: int, j: int| tags.len() <= i < j < r.len() implies r[i] != r[j] by {
                if j == prev.len() {
                    assert(prev.contains(prev[i]));
                }
            }
            assert(objects.contains(objects[objects.len() - 1]));
        }
    } else {
        assert(with_objects(tags, objects).subrange(0, tags.len() as int) =~= tags);
    }
}

/// The scene is added to the tags only when it is not already one of them.
pub proof fn lemma_scene_added_once(response: Seq<char>)
    ensures
        ({
            let a = vision_analysis(response);
            let st = vision_lines(lines_of(response));
            let fell_back = st.1.len() == 0 && st.0.len() == 0;
            let tags0 = if fell_back && fallback_tags(response).len() > 0 {
                fallback_tags(response)
            } else {
                st.1
            };
            let tags1 = with_objects(tags0, st.2);
            &&& a.1.len() <= tags1.len() + 1
            &&& a.1.subrange(0, tags1.len() as int) == tags1
            &&& a.1.len() == tags1.len() + 1 ==> (a.3 matches Some(s) && a.1.last() == s && !tags1.contains(s))
        }),
{
    let a = vision_analysis(response);
    let st = vision_lines(lines_of(response));
    let fell_back = st.1.len() == 0 && st.0.len() == 0;
    let tags0 = if fell_back && fallback_tags(response).len() > 0 {
        fallback_tags(response)
    } else {
        st.1
    };
    let tags1 = with_objects(tags0, st.2);
    assert(a.1.subrange(0, tags1.len() as int) =~= tags1);
}

/// Whether a tag is cleaned: not empty, and the lower-cased form of a trimmed text.
pub open spec fn is_clean(t: Seq<char>) -> bool {
    t.len() > 0 && exists|x: Seq<char>| t == lowercase(trimmed(x))
}

/// Whether every item of `s` is cleaned.
pub open spec fn all_clean(s: Seq<Seq<char>>) -> bool {
    forall|k: int| 0 <= k < s.len() ==> is_clean(#[trigger] s[k])
}

proof fn lemma_kept_items_clean(ps: Seq<Seq<char>>, limit: Option<nat>)
    ensures
        all_clean(kept_items(ps, limit)),
    decreases ps.len(),
{
    if ps.len() > 0 {
        lemma_kept_items_clean(ps.drop_last(), limit);
        let prev = kept_items(ps.drop_last(), limit);
        let t = lowercase(trimmed(ps.last()));
        assert(t == lowercase(trimmed(ps.last())));
        if t.len() > 0 && (limit matches Some(l) ==> utf8_len(t) < l) {
            assert forall|k: int| 0 <= k < prev.push(t).len() implies is_clean(#[trigger] prev.push(t)[k]) by {
                if k < prev.len() {
                    assert(prev.push(t)[k] == prev[k]);
                }
            }
        }
    }
}

proof fn lemma_fallback_items_clean(ps: Seq<Seq<char>>)
    ensures
        all_clean(fallback_items(ps)),
    decreases ps.len(),
{
    if ps.len() > 0 {
        lemma_fallback_items_clean(ps.drop_last());
        let prev = fallback_items(ps.drop_last());
        let t = lowercase(trimmed(ps.last()));
        assert(t == lowercase(trimmed(ps.last())));
        assert forall|k: int| 0 <= k < prev.push(t).len() && t.len() > 0 implies is_clean(#[trigger] prev.push(t)[k]) by {
            if k < prev.len() {
                assert(prev.push(t)[k] == prev[k]);
            }
        }
    }
}

proof fn lemma_vision_lines_clean(ls: Seq<Seq<char>>)
    ensures
        all_clean(vision_lines(ls).1),
        all_clean(vision_lines(ls).2),
        vision_lines(ls).3 matches Some(s) ==> is_clean(s),
    decreases ls.len(),
{
    if ls.len() > 0 {
        lemma_vision_lines_clean(ls.drop_last());
        let l = trimmed(ls.last());
        if has_prefix(l, "TAGS:"@) {
            lemma_kept_items_clean(split_any(l.subrange("TAGS:"@.len() as int, l.len() as int), ',', ','), Some(50));
        }
        if has_prefix(l, "OBJECTS:"@) {
            lemma_kept_items_clean(split_any(l.subrange("OBJECTS:"@.len() as int, l.len() as int), ',', ','), None);
        }
        if has_prefix(l, "SCENE:"@) {
            let x = l.subrange("SCENE:"@.len() as int, l.len() as int);
            assert(lowercase(trimmed(x)) == lowercase(trimmed(x)));
        }
    }
}

proof fn lemma_with_objects(tags: Seq<Seq<char>>, objects: Seq<Seq<char>>)
    requires
        all_clean(tags),
        all_clean(objects),
    ensures
        all_clean(with_objects(tags, objects)),
        forall|t: Seq<char>| tags.contains(t) ==> with_objects(tags, objects).contains(t),
        forall|k: int| 0 <= k < objects.len() && utf8_len(objects[k]) < 30 ==> with_objects(tags, objects).contains(#[trigger] objects[k]),
    decreases objects.len(),
{
    if objects.len() > 0 {
        let init = objects.drop_last();
        assert(all_clean(init)) by {
            assert forall|k: int| 0 <= k < init.len() implies is_clean(#[trigger] init[k]) by {
                assert(init[k] == objects[k]);
            }
        }
        lemma_with_objects(tags, init);
        let prev = with_objects(tags, init);
        let o = objects.last();
        assert(is_clean(objects[objects.len() - 1]));
        if !prev.contains(o) && utf8_len(o) < 30 {
            let r = prev.push(o);
            assert forall|k: int| 0 <= k < r.len() implies is_clean(#[trigger] r[k]) by {
                if k < prev.len() {
                    assert(r[k] == prev[k]);
                }
            }
            assert forall|t: Seq<char>| prev.contains(t) implies r.contains(t) by {
                let j = choose|j: int| 0 <= j < prev.len() && prev[j] == t;
                assert(r[j] == t);
            }
            assert(r[r.len() - 1] == o);
        }
        assert forall|k: int| 0 <= k < objects.len() && utf8_len(objects[k]) < 30 implies with_objects(tags, objects).contains(#[trigger] objects[k]) by {
            if k < init.len() {
                assert(objects[k] == init[k]);
            }
        }
    }
}

/// The tags of a vision answer are cleaned (trimmed, lower-cased, not empty) and hold every
/// object shorter than 30 bytes and the scene; the objects and the scene are cleaned too.
pub proof fn lemma_vision_tags(response: Seq<char>)
    ensures
        ({
            let a = vision_analysis(response);
            &&& all_clean(a.1)
            &&& all_clean(a.2)
            &&& forall|k: int| 0 <= k < a.2.len() && utf8_len(a.2[k]) < 30 ==> a.1.contains(#[trigger] a.2[k])
            &&& a.3 matches Some(s) ==> is_clean(s) && a.1.contains(s)
        }),
{
    let st = vision_lines(lines_of(response));
    lemma_vision_lines_clean(lines_of(response));
    lemma_fallback_items_clean(split_any(response, ',', '\n'));
    let all = fallback_items(split_any(response, ',', '\n'));
    assert(all_clean(fallback_tags(response))) by {
        if all.len() > 10 {
            assert forall|k: int| 0 <= k < all.subrange(0, 10).len() implies is_clean(#[trigger] all.subrange(0, 10)[k]) by {
                assert(all.subrange(0, 10)[k] == all[k]);
            }
        }
    }
    let fell_back = st.1.len() == 0 && st.0.len() == 0;
    let tags0 = if fell_back && fallback_tags(response).len() > 0 {
        fallback_tags(response)
    } else {
        st.1
    };
    lemma_with_objects(tags0, st.2);
    let tags1 = with_objects(tags0, st.2);
    match st.3 {
        Some(sc) => {
            if !tags1.contains(sc) {
                let r = tags1.push(sc);
                assert forall|k: int| 0 <= k < r.len() implies is_clean(#[trigger] r[k]) by {
                    if k < tags1.len() {
                        assert(r[k] == tags1[k]);
                    }
                }
                assert forall|t: Seq<char>| tags1.contains(t) implies r.contains(t) by {
                    let j = choose|j: int| 0 <= j < tags1.len() && tags1[j] == t;
                    assert(r[j] == t);
                }
                assert(r[r.len() - 1] == sc);
            }
        },
        None => {},
    }
}

/// The analysis of a vision answer: the parse of its lines; when that found neither tags nor a
/// description, the fallback tags (when there are any) and the first sentence as description;
/// then the objects and the scene added to the tags where new.
pub open spec fn vision_analysis(response: Seq<char>) -> VisionState {
    let st = vision_lines(lines_of(response));
    let fell_back = st.1.len() == 0 && st.0.len() == 0;
    let tags0 = if fell_back && fallback_tags(response).len() > 0 {
        fallback_tags(response)
    } else {
        st.1
    };
    let desc = if fell_back {
        trimmed(before_first(response, '.'))
    } else {
        st.0
    };
    let tags1 = with_objects(tags0, st.2);
    let tags = match st.3 {
        Some(s) => if !tags1.contains(s) {
            tags1.push(s)
        } else {
            tags1
        },
        None => tags1,
    };
    (desc, tags, st.2, st.3)
}

/// Whether a result holds an analysis.
pub open spec fn analysis_matches(r: ImageAnalysisResult, a: VisionState) -> bool {
    &&& r.description@ == a.0
    &&& r.tags@.len() == a.1.len()
    &&& forall|k: int| 0 <= k < a.1.len() ==> (#[trigger] r.tags@[k])@ == a.1[k]
    &&& r.objects@.len() == a.2.len()
    &&& forall|k: int| 0 <= k < a.2.len() ==> (#[trigger] r.objects@[k])@ == a.2[k]
    &&& match r.scene {
        Some(s) => a.3 == Some(s@),
        None => a.3 is None,
    }
}

/// Whether the strings of `v` hold the sequences of `s`.
pub open spec fn holds(v: Seq<String>, s: Seq<Seq<char>>) -> bool {
    v.len() == s.len() && forall|k: int| 0 <= k < s.len() ==> (#[trigger] v[k])@ == s[k]
}

proof fn lemma_holds_contains(v: Seq<String>, s: Seq<Seq<char>>, x: Seq<char>)
    requires
        holds(v, s),
    ensures
        s.contains(x) == exists|k: int| 0 <= k < v.len() && (#[trigger] v[k])@ == x,
{
    if s.contains(x) {
        let k = choose|k: int| 0 <= k < s.len() && s[k] == x;
        assert(v[k]@ == x);
    }
    if exists|k: int| 0 <= k < v.len() && (#[trigger] v[k])@ == x {
        let k = choose|k: int| 0 <= k < v.len() && (#[trigger] v[k])@ == x;
        assert(s[k] == x);
    }
}

/// Parses a vision model's answer (see `vision_analysis`).
pub fn parse_vision_text(response: &str) -> (r: ImageAnalysisResult)
    ensures
        analysis_matches(r, vision_analysis(response@)),
{
    let ls = lines(response);
    let ghost lv = lines_of(response@);
    let mut description = String::new();
    let mut tags: Vec<String> = Vec::new();
    let mut objects: Vec<String> = Vec::new();
    let mut scene: Option<String> = None;
    let mut i: usize = 0;
    while i < ls.len()
        invariant
            i <= ls@.len(),
            ls@.len() == lv.len(),
            forall|k: int| 0 <= k < ls@.len() ==> (#[trigger] ls@[k])@ == lv[k],
            ({
                let st = vision_lines(lv.subrange(0, i as int));
                &&& description@ == st.0
                &&& holds(tags@, st.1)
                &&& holds(objects@, st.2)
                &&& match scene {
                    Some(s) => st.3 == Some(s@),
                    None => st.3 is None,
                }
            }),
        decreases ls.len() - i,
    {
        proof {
            assert(lv.subrange(0, i + 1).drop_last() =~= lv.subrange(0, i as int));
            assert(lv.subrange(0, i + 1).last() == lv[i as int]);
        }
        let l = trim(ls[i].as_str());
        let ls_ = l.as_str();
        if let Some(rest) = strip_prefix(ls_, "DESCRIPTION:") {
            description = trim(rest.as_str());
        } else if let Some(rest) = strip_prefix(ls_, "TAGS:") {
            tags = list_items_of(rest.as_str(), Some(50));
        } else if let Some(rest) = strip_prefix(ls_, "OBJECTS:") {
            objects = list_items_of(rest.as_str(), None);
        } else if let Some(rest) = strip_prefix(ls_, "SCENE:") {
            let t = trim(rest.as_str());
            let s = to_lowercase(t.as_str());
            if !s.as_str().is_empty() {
                scene = Some(s);
            }
        }
        i = i + 1;
    }
    proof {
        assert(lv.subrange(0, i as int) =~= lv);
    }
    let ghost st = vision_lines(lv);
    let ghost fell_back = st.1.len() == 0 && st.0.len() == 0;
    let ghost tg0 = if fell_back && fallback_tags(response@).len() > 0 {
        fallback_tags(response@)
    } else {
        st.1
    };
    if tags.len() == 0 && description.as_str().is_empty() {
        let ps = split_chars(response, ',', '\n');
        let ghost pv = split_any(response@, ',', '\n');
        let mut words: Vec<String> = Vec::new();
        let mut j: usize = 0;
        while j < ps.len()
            invariant
                j <= ps@.len(),
                ps@.len() == pv.len(),
                forall|k: int| 0 <= k < ps@.len() ==> (#[trigger] ps@[k])@ == pv[k],
                holds(words@, fallback_items(pv.subrange(0, j as int))),
            decreases ps.len() - j,
        {
            proof {
                assert(pv.subrange(0, j + 1).drop_last() =~= pv.subrange(0, j as int));
                assert(pv.subrange(0, j + 1).last() == pv[j as int]);
            }
            let t = trim(ps[j].as_str());
            let c = to_lowercase(t.as_str());
            if !c.as_str().is_empty() && byte_length(c.as_str()) < 30 && split_whitespace(c.as_str()).len() <= 3 {
                words.push(c);
            }
            j = j + 1;
        }
        proof {
            assert(pv.subrange(0, j as int) =~= pv);
        }
        let ghost all = fallback_items(pv);
        if words.len() > 10 {
            words.truncate(10);
            proof {
                assert(holds(words@, all.subrange(0, 10)));
            }
        }
        assert(holds(words@, fallback_tags(response@)));
        if words.len() > 0 {
            tags = words;
        }
        let v = chars_of(response);
        let first = match find_char(v.as_slice(), '.') {
            Some(k) => {
                proof {
                    let s = v@;
                    let m = choose|m: int| 0 <= m < s.len() && s[m] == '.' && forall|j: int| 0 <= j < m ==> s[j] != '.';
                    if m < k {
                        assert(s[m] != '.');
                    } else if m > k {
                        assert(s[k as int] != '.');
                    }
                }
                string_of_range(v.as_slice(), 0, k)
            },
            None => {
                assert(v@.subrange(0, v@.len() as int) =~= v@);
                string_of_range(v.as_slice(), 0, v.len())
            },
        };
        description = trim(first.as_str());
    }
    proof {
        assert(holds(tags@, tg0));
        assert(with_objects(tg0, st.2.subrange(0, 0)) == tg0);
    }
    let mut k: usize = 0;
    while k < objects.len()
        invariant
            k <= objects@.len(),
            holds(objects@, st.2),
            holds(tags@, with_objects(tg0, st.2.subrange(0, k as int))),
            st.2.len() == objects@.len(),
        decreases objects.len() - k,
    {
        proof {
            assert(st.2.subrange(0, k + 1).drop_last() =~= st.2.subrange(0, k as int));
            assert(st.2.subrange(0, k + 1).last() == objects@[k as int]@);
            lemma_holds_contains(tags@, with_objects(tg0, st.2.subrange(0, k as int)), objects@[k as int]@);
        }
        let o = objects[k].as_str();
        if !contains_string(&tags, o) && byte_length(o) < 30 {
            let c = objects[k].clone();
            tags.push(c);
        }
        k = k + 1;
    }
    proof {
        assert(st.2.subrange(0, k as int) =~= st.2);
    }
    match &scene {
        Some(s) => {
            proof {
                lemma_holds_contains(tags@, with_objects(tg0, st.2), s@);
            }
            if !contains_string(&tags, s.as_str()) {
                tags.push(s.clone());
            }
        },
        None => {},
    }
    ImageAnalysisResult { tags, description, objects, scene }
}

/// The complete lines of a transcription stream's buffer and what stays buffered: when the
/// buffer does not end with a newline, its last line waits for more data.
pub open spec fn stream_split(buf: Seq<char>) -> (Seq<Seq<char>>, Seq<char>) {
    let ls = lines_of(buf);
    if !has_suffix(buf, "\n"@) && ls.len() > 0 {
        (ls.drop_last(), ls.last())
    } else {
        (ls, Seq::empty())
    }
}

/// Splits a transcription stream's buffer (see `stream_split`).
pub fn split_stream_buffer(buffer: &str) -> (r: (Vec<String>, String))
    ensures
        holds(r.0@, stream_split(buffer@).0),
        r.1@ == stream_split(buffer@).1,
{
    let mut ls = lines(buffer);
    let ghost lv = lines_of(buffer@);
    if !ends_with(buffer, "\n") && ls.len() > 0 {
        let last = ls.pop().unwrap();
        proof {
            assert(lv.drop_last().len() == ls@.len());
        }
        (ls, last)
    } else {
        (ls, String::new())
    }
}

/// What an image is sent to a vision model for.
#[derive(Clone, Copy, PartialEq, Eq, Debug, Structural)]
pub enum VisionTask {
    /// A comma-separated list of tags.
    Tags,
    /// A structured description, tags, objects and scene.
    Analysis,
}

/// The prompt sent with an image for a task.
pub open spec fn vision_prompt(task: VisionTask) -> Seq<char> {
    match task {
        VisionTask::Tags => "List 5-10 relevant tags for organizing this image in a file manager. Return only the tags as a comma-separated list, nothing else. Use single words or short phrases. Examples: nature, sunset, beach, family, portrait"@,
        VisionTask::Analysis => "Analyze this image and provide:\n1. A brief description (1-2 sentences)\n2. A list of relevant tags for organizing this file (single words or short phrases)\n3. Main objects/subjects visible\n4. The type of scene (e.g., outdoor, indoor, portrait, landscape, product, document, etc.)\n\nFormat your response exactly like this:\nDESCRIPTION: [your description]\nTAGS: [tag1], [tag2], [tag3], ...\nOBJECTS: [object1], [object2], ...\nSCENE: [scene type]"@,
    }
}

/// The parts of a vision request the library decides (the sampling temperature is set by the
/// caller).
#[derive(Debug)]
pub struct VisionRequestPlan {
    pub model: String,
    pub prompt: String,
    /// The images, Base64-encoded.
    pub images: Vec<String>,
    pub stream: bool,
    /// The longest answer asked for, in tokens.
    pub num_predict: i32,
}

/// The request that sends an image to a model for a task: the task's prompt, the image in
/// standard Base64, no streaming, and at most 200 tokens of tags or 500 of analysis.
pub fn vision_request(task: VisionTask, model: &str, image: &[u8]) -> (r: VisionRequestPlan)
    ensures
        r.model@ == model@,
        r.prompt@ == vision_prompt(task),
        r.images@.len() == 1,
        r.images@[0]@ == crate::store::base64_standard(image@),
        !r.stream,
        r.num_predict == match task {
            VisionTask::Tags => 200i32,
            VisionTask::Analysis => 500i32,
        },
{
    let prompt = match task {
        VisionTask::Tags => "List 5-10 relevant tags for organizing this image in a file manager. Return only the tags as a comma-separated list, nothing else. Use single words or short phrases. Examples: nature, sunset, beach, family, portrait",
        VisionTask::Analysis => "Analyze this image and provide:\n1. A brief description (1-2 sentences)\n2. A list of relevant tags for organizing this file (single words or short phrases)\n3. Main objects/subjects visible\n4. The type of scene (e.g., outdoor, indoor, portrait, landscape, product, document, etc.)\n\nFormat your response exactly like this:\nDESCRIPTION: [your description]\nTAGS: [tag1], [tag2], [tag3], ...\nOBJECTS: [object1], [object2], ...\nSCENE: [scene type]",
    };
    let mut images: Vec<String> = Vec::new();
    images.push(crate::store::base64_encode(image));
    VisionRequestPlan {
        model: model.to_string(),
        prompt: prompt.to_string(),
        images,
        stream: false,
        num_predict: match task {
            VisionTask::Tags => 200,
            VisionTask::Analysis => 500,
        },
    }
}

/// The tags in a model's answer to a tag request (see `list_items`; tags under 50 bytes).
pub fn parse_tags(response: &str) -> (r: Vec<String>)
    ensures
        r@.len() == list_items(response@, Some(50)).len(),
        forall|k: int| 0 <= k < r@.len() ==> (#[trigger] r@[k])@ == list_items(response@, Some(50))[k],
{
    list_items_of(response, Some(50))
}

/// The parts of a transcription request the library decides (the sampling temperature is set
/// by the caller).
#[derive(Debug)]
pub struct TranscriptionRequestPlan {
    pub model: String,
    /// The audio as a WAV data URL.
    pub prompt: String,
    pub stream: bool,
    pub language: Option<String>,
}

/// The request that sends audio to a whisper model: the audio as a WAV data URL in standard
/// Base64, streamed or not, in the given language.
pub fn transcription_request(model: &str, audio: &[u8], language: Option<String>, stream: bool) -> (r: TranscriptionRequestPlan)
    ensures
        r.model@ == model@,
        r.prompt@ == "data:audio/wav;base64,"@ + crate::store::base64_standard(audio@),
        r.stream == stream,
        r.language == language,
{
    let encoded = crate::store::base64_encode(audio);
    let prompt = "data:audio/wav;base64,".to_string().concat(encoded.as_str());
    TranscriptionRequestPlan { model: model.to_string(), prompt, stream, language }
}

/// One line of a streamed transcription, as read: the text it adds and whether it is the
/// last.
pub struct StreamChunk {
    pub response: String,
    pub done: bool,
}

/// Taking in parsed lines after the text `text` so far: the text then, the pieces handed on
/// in order, and whether a last line came (the lines after it are not read). Lines that did
/// not parse (none) are passed over.
pub open spec fn absorb(text: Seq<char>, cs: Seq<Option<StreamChunk>>) -> (Seq<char>, Seq<Seq<char>>, bool)
    decreases cs.len(),
{
    if cs.len() == 0 {
        (text, Seq::empty(), false)
    } else {
        match cs[0] {
            None => absorb(text, cs.subrange(1, cs.len() as int)),
            Some(c) => if c.done {
                (text + c.response@, seq![c.response@], true)
            } else {
                let rest = absorb(text + c.response@, cs.subrange(1, cs.len() as int));
                (rest.0, seq![c.response@] + rest.1, rest.2)
            },
        }
    }
}

/// What to do after a streamed transcription's lines were taken in.
#[derive(Debug)]
pub enum StreamStep {
    /// Hand on these pieces and read more.
    Continue(Vec<String>),
    /// Hand on these pieces; the transcript is complete, with this text.
    Finished { text: String, pieces: Vec<String> },
}

/// A streamed transcription being read: the text so far and the unfinished last line.
pub struct TranscriptStream {
    text: String,
    buffer: String,
}

impl TranscriptStream {
    /// The text so far.
    pub closed spec fn text(&self) -> Seq<char> {
        self.text@
    }

    /// The output not yet split into lines.
    pub closed spec fn pending(&self) -> Seq<char> {
        self.buffer@
    }

    /// The start: no text, nothing pending.
    pub fn new() -> (r: Self)
        ensures
            r.text().len() == 0,
            r.pending().len() == 0,
    {
        TranscriptStream { text: String::new(), buffer: String::new() }
    }

    /// Adds output and gives its complete lines (see `stream_split`), keeping the
    /// unfinished last one.
    pub fn feed(&mut self, data: &str) -> (r: Vec<String>)
        ensures
            holds(r@, stream_split(old(self).pending() + data@).0),
            final(self).pending() == stream_split(old(self).pending() + data@).1,
            final(self).text() == old(self).text(),
    {
        let all = self.buffer.clone().concat(data);
        let (lines, rest) = split_stream_buffer(all.as_str());
        self.buffer = rest;
        lines
    }

    /// Takes in the parsed complete lines (none for a line that did not parse), in order
    /// (see `absorb`): the text grows by each line's piece until a last line, which finishes
    /// the transcript with its text trimmed.
    pub fn take_lines(&mut self, parsed: Vec<Option<StreamChunk>>) -> (r: StreamStep)
        ensures
            final(self).pending() == old(self).pending(),
            ({
                let a = absorb(old(self).text(), parsed@);
                &&& final(self).text() == a.0
                &&& match r {
                    StreamStep::Continue(ps) => !a.2 && ps@.map_values(|p: String| p@) == a.1,
                    StreamStep::Finished { text, pieces } => a.2 && text@ == trimmed(a.0)
                        && pieces@.map_values(|p: String| p@) == a.1,
                }
            }),
    {
        let ghost t0 = self.text@;
        let ghost cs = parsed@;
        let mut pieces: Vec<String> = Vec::new();
        let mut i: usize = 0;
        let n = parsed.len();
        assert(cs.subrange(0, n as int) =~= cs);
        while i < n
            invariant
                i <= n == cs.len(),
                cs == parsed@,
                ({
                    let whole = absorb(t0, cs);
                    let rest = absorb(self.text@, cs.subrange(i as int, n as int));
                    &&& whole.0 == rest.0
                    &&& whole.1 == pieces@.map_values(|p: String| p@) + rest.1
                    &&& whole.2 == rest.2
                }),
                self.buffer@ == old(self).buffer@,
                t0 == old(self).text@,
            decreases n - i,
        {
            let ghost before = pieces@.map_values(|p: String| p@);
            let ghost sub = cs.subrange(i as int, n as int);
            proof {
                assert(sub[0] == cs[i as int]);
                assert(sub.subrange(1, sub.len() as int) =~= cs.subrange(i + 1, n as int));
            }
            match &parsed[i] {
                None => {},
                Some(c) => {
                    let ghost prev = self.text@;
                    proof {
                        assert(sub[0] == Some(*c));
                        if c.done {
                            assert(absorb(prev, sub) == (prev + c.response@, seq![c.response@], true));
                        } else {
                            assert(absorb(prev, sub).1 == seq![c.response@] + absorb(
                                prev + c.response@,
                                cs.subrange(i + 1, n as int),
                            ).1);
                        }
                    }
                    self.text = self.text.clone().concat(c.response.as_str());
                    pieces.push(c.response.clone());
                    proof {
                        assert(pieces@.map_values(|p: String| p@) =~= before.push(c.response@));
                        assert(before.push(c.response@) + absorb(self.text@, cs.subrange(i + 1, n as int)).1 =~= before + (
                        seq![c.response@] + absorb(self.text@, cs.subrange(i + 1, n as int)).1));
                    }
                    if c.done {
                        proof {
                            assert(pieces@.map_values(|p: String| p@) =~= before + seq![c.response@]);
                        }
                        let text = trim(self.text.as_str());
                        return StreamStep::Finished { text, pieces };
                    }
                },
            }
            i = i + 1;
        }
        proof {
            assert(cs.subrange(n as int, n as int) =~= Seq::<Option<StreamChunk>>::empty());
            assert(pieces@.map_values(|p: String| p@) + Seq::<Seq<char>>::empty() =~= pieces@.map_values(|p: String| p@));
        }
        StreamStep::Continue(pieces)
    }

    /// What is left once the stream ended: the unfinished line, when it is not blank, to be
    /// parsed as one more line.
    pub fn leftover(&self) -> (r: Option<String>)
        ensures
            trimmed(self.pending()).len() > 0 ==> (r matches Some(b) && b@ == self.pending()),
            trimmed(self.pending()).len() == 0 ==> r is None,
    {
        let t = trim(self.buffer.as_str());
        if t.as_str().is_empty() {
            None
        } else {
            Some(self.buffer.clone())
        }
    }

    /// The transcript once the stream ended, with the last line parsed (if there was one and
    /// it parsed): the text with its piece added, trimmed.
    pub fn finish(&self, last: Option<StreamChunk>) -> (r: String)
        ensures
            r@ == trimmed(match last {
                Some(c) => self.text() + c.response@,
                None => self.text(),
            }),
    {
        match last {
            Some(c) => {
                let t = self.text.clone().concat(c.response.as_str());
                trim(t.as_str())
            },
            None => trim(self.text.as_str()),
        }
    }
}

} // verus!
