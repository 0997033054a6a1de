//! Model management: categories, the registry of known models, and the providers that list
//! them.

use vstd::prelude::*;
use crate::keyed::{
    find_keyed, keys_unique, lemma_find_at, lemma_find_index, lemma_push_keyed,
    lemma_remove_keyed, lemma_set_keyed,
};
use crate::ollama::OllamaClient;
use crate::text::{contains, contains_seq, lowercase, same_text, to_lowercase};

verus! {

/// What a model is for.
#[derive(Clone, Copy, PartialEq, Eq, Debug, Structural)]
pub enum ModelCategory {
    Transcription,
    VideoTagging,
    ImageTagging,
    CodeGeneration,
    Embedding,
    TextGeneration,
    Other,
}

/// What is known of a model.
#[derive(Debug)]
pub struct ModelMetadata {
    pub id: String,
    pub name: String,
    pub category: ModelCategory,
    pub size_bytes: u64,
    pub description: Option<String>,
    pub provider: String,
    pub version: Option<String>,
    pub is_installed: bool,
    pub is_running: bool,
    pub local_path: Option<String>,
    pub dependencies: Vec<String>,
    pub supported_languages: Vec<String>,
    pub capabilities: Vec<String>,
}

/// The views of an optional string.
pub open spec fn opt_chars(o: Option<String>) -> Option<Seq<char>> {
    match o {
        Some(s) => Some(s@),
        None => None,
    }
}

/// The views of a list of strings.
pub open spec fn str_views(v: Seq<String>) -> Seq<Seq<char>> {
    v.map_values(|s: String| s@)
}

/// Whether two records say the same of a model.
pub open spec fn same_metadata(a: ModelMetadata, b: ModelMetadata) -> bool {
    &&& a.id@ == b.id@
    &&& a.name@ == b.name@
    &&& a.category == b.category
    &&& a.size_bytes == b.size_bytes
    &&& opt_chars(a.description) == opt_chars(b.description)
    &&& a.provider@ == b.provider@
    &&& opt_chars(a.version) == opt_chars(b.version)
    &&& a.is_installed == b.is_installed
    &&& a.is_running == b.is_running
    &&& opt_chars(a.local_path) == opt_chars(b.local_path)
    &&& str_views(a.dependencies@) == str_views(b.dependencies@)
    &&& str_views(a.supported_languages@) == str_views(b.supported_languages@)
    &&& str_views(a.capabilities@) == str_views(b.capabilities@)
}

pub(crate) fn copy_opt(o: &Option<String>) -> (r: Option<String>)
    ensures
        opt_chars(r) == opt_chars(*o),
{
    match o {
        Some(s) => Some(s.clone()),
        None => None,
    }
}

fn copy_strings(v: &Vec<String>) -> (r: Vec<String>)
    ensures
        str_views(r@) == str_views(v@),
{
    let mut r: Vec<String> = Vec::new();
    let mut i: usize = 0;
    while i < v.len()
        invariant
            i <= v@.len(),
            r@.len() == i,
            forall|k: int| 0 <= k < i ==> (#[trigger] r@[k])@ == v@[k]@,
        decreases v.len() - i,
    {
        let c = v[i].clone();
        r.push(c);
        i = i + 1;
    }
    assert(str_views(r@) =~= str_views(v@));
    r
}

impl ModelMetadata {
    /// A copy of the record.
    pub fn duplicate(&self) -> (r: Self)
        ensures
            same_metadata(r, *self),
    {
        ModelMetadata {
            id: self.id.clone(),
            name: self.name.clone(),
            category: self.category,
            size_bytes: self.size_bytes,
            description: copy_opt(&self.description),
            provider: self.provider.clone(),
            version: copy_opt(&self.version),
            is_installed: self.is_installed,
            is_running: self.is_running,
            local_path: copy_opt(&self.local_path),
            dependencies: copy_strings(&self.dependencies),
            supported_languages: copy_strings(&self.supported_languages),
            capabilities: copy_strings(&self.capabilities),
        }
    }
}

/// The key a model is registered under: its id.
pub open spec fn model_key() -> spec_fn(ModelMetadata) -> Seq<char> {
    |m: ModelMetadata| m.id@
}

/// The languages the whisper models transcribe.
pub open spec fn whisper_languages() -> Seq<Seq<char>> {
    seq!["en"@, "es"@, "fr"@, "de"@, "it"@, "pt"@, "ru"@, "ja"@, "zh"@]
}

/// Whether `m` is the catalog record of an Ollama model not yet installed: the given id, name,
/// category, description, languages and capabilities, no size or version or local path, and
/// a dependency on Ollama.
pub open spec fn catalog_record(
    m: ModelMetadata,
    id: Seq<char>,
    name: Seq<char>,
    category: ModelCategory,
    description: Seq<char>,
    languages: Seq<Seq<char>>,
    capabilities: Seq<Seq<char>>,
) -> bool {
    &&& m.id@ == id
    &&& m.name@ == name
    &&& m.category == category
    &&& m.size_bytes == 0
    &&& opt_chars(m.description) == Some(description)
    &&& m.provider@ == "ollama"@
    &&& m.version is None
    &&& !m.is_installed
    &&& !m.is_running
    &&& m.local_path is None
    &&& str_views(m.dependencies@) == seq!["ollama"@]
    &&& str_views(m.supported_languages@) == languages
    &&& str_views(m.capabilities@) == capabilities
}

fn strings_of(items: &[&str]) -> (r: Vec<String>)
    ensures
        str_views(r@) == items@.map_values(|s: &str| s@),
{
    let mut out: Vec<String> = Vec::new();
    let mut i: usize = 0;
    while i < items.len()
        invariant
            i <= items@.len(),
            out@.len() == i,
            forall|k: int| 0 <= k < i ==> (#[trigger] out@[k])@ == items@[k]@,
        decreases items.len() - i,
    {
        out.push(items[i].to_string());
        i = i + 1;
    }
    assert(str_views(out@) =~= items@.map_values(|s: &str| s@));
    out
}

fn catalog_entry(
    id: &str,
    name: &str,
    category: ModelCategory,
    description: &str,
    languages: &[&str],
    capabilities: &[&str],
) -> (r: ModelMetadata)
    ensures
        catalog_record(
            r,
            id@,
            name@,
            category,
            description@,
            languages@.map_values(|s: &str| s@),
            capabilities@.map_values(|s: &str| s@),
        ),
{
    let mut deps: Vec<String> = Vec::new();
    deps.push("ollama".to_string());
    assert(str_views(deps@) =~= seq!["ollama"@]);
    ModelMetadata {
        id: id.to_string(),
        name: name.to_string(),
        category,
        size_bytes: 0,
        description: Some(description.to_string()),
        provider: "ollama".to_string(),
        version: None,
        is_installed: false,
        is_running: false,
        local_path: None,
        dependencies: deps,
        supported_languages: strings_of(languages),
        capabilities: strings_of(capabilities),
    }
}

/// The registry of models the application knows, one record per id.
pub struct InMemoryModelRegistry {
    models: Vec<ModelMetadata>,
}

impl InMemoryModelRegistry {
    /// The records.
    pub closed spec fn records(&self) -> Seq<ModelMetadata> {
        self.models@
    }

    /// Whether each id has one record.
    pub closed spec fn well_formed(&self) -> bool {
        keys_unique(self.models@, model_key())
    }

    /// The record for `id`, if any.
    pub open spec fn entry(&self, id: Seq<char>) -> Option<ModelMetadata> {
        find_keyed(self.records(), model_key(), id)
    }

    /// An empty registry.
    pub fn new() -> (r: Self)
        ensures
            r.well_formed(),
            forall|id: Seq<char>| r.entry(id) is None,
    {
        InMemoryModelRegistry { models: Vec::new() }
    }

    /// The registry with the models known in advance: `whisper`, `whisper-large` and
    /// `video-tagger` (see `catalog_record`).
    pub fn with_defaults() -> (r: Self)
        ensures
            r.well_formed(),
            r.entry("whisper"@) matches Some(m) && catalog_record(
                m,
                "whisper"@,
                "Whisper"@,
                ModelCategory::Transcription,
                "OpenAI Whisper - High-quality speech-to-text transcription"@,
                whisper_languages(),
                seq!["transcription"@, "audio-to-text"@],
            ),
            r.entry("whisper-large"@) matches Some(m) && catalog_record(
                m,
                "whisper-large"@,
                "Whisper Large"@,
                ModelCategory::Transcription,
                "OpenAI Whisper Large - Highest quality transcription with better accuracy"@,
                whisper_languages(),
                seq!["transcription"@, "audio-to-text"@, "high-accuracy"@],
            ),
            r.entry("video-tagger"@) matches Some(m) && catalog_record(
                m,
                "video-tagger"@,
                "Video Tagger"@,
                ModelCategory::VideoTagging,
                "Automatic video content tagging and description"@,
                seq!["en"@],
                seq!["video-tagging"@, "content-analysis"@],
            ),
            forall|id: Seq<char>|
                id != "whisper"@ && id != "whisper-large"@ && id != "video-tagger"@ ==> r.entry(id)
                    is None,
    {
        proof {
            reveal_strlit("whisper");
            reveal_strlit("whisper-large");
            reveal_strlit("video-tagger");
            assert("whisper"@.len() == 7 && "whisper-large"@.len() == 13 && "video-tagger"@.len()
                == 12);
        }
        let mut r = InMemoryModelRegistry::new();
        let langs = ["en", "es", "fr", "de", "it", "pt", "ru", "ja", "zh"];
        let caps = ["transcription", "audio-to-text"];
        let caps_large = ["transcription", "audio-to-text", "high-accuracy"];
        let english = ["en"];
        let caps_video = ["video-tagging", "content-analysis"];
        proof {
            assert(english@.map_values(|s: &str| s@) =~= seq!["en"@]);
            assert(caps_video@.map_values(|s: &str| s@) =~= seq![
                "video-tagging"@,
                "content-analysis"@,
            ]);
            assert(langs@.map_values(|s: &str| s@) =~= whisper_languages());
            assert(caps@.map_values(|s: &str| s@) =~= seq!["transcription"@, "audio-to-text"@]);
            assert(caps_large@.map_values(|s: &str| s@) =~= seq![
                "transcription"@,
                "audio-to-text"@,
                "high-accuracy"@,
            ]);
        }
        r.register_model(
            catalog_entry(
                "whisper",
                "Whisper",
                ModelCategory::Transcription,
                "OpenAI Whisper - High-quality speech-to-text transcription",
                &langs,
                &caps,
            ),
        );
        r.register_model(
            catalog_entry(
                "whisper-large",
                "Whisper Large",
                ModelCategory::Transcription,
                "OpenAI Whisper Large - Highest quality transcription with better accuracy",
                &langs,
                &caps_large,
            ),
        );
        r.register_model(
            catalog_entry(
                "video-tagger",
                "Video Tagger",
                ModelCategory::VideoTagging,
                "Automatic video content tagging and description",
                &english,
                &caps_video,
            ),
        );
        r
    }

    fn position(&self, id: &str) -> (r: Option<usize>)
        requires
            self.well_formed(),
        ensures
            match r {
                Some(i) => i < self.records().len() && self.records()[i as int].id@ == id@ && self.entry(id@) == Some(self.records()[i as int]),
                None => self.entry(id@) is None && forall|j: int| 0 <= j < self.records().len() ==> (#[trigger] self.records()[j]).id@ != id@,
            },
    {
        let mut i: usize = 0;
        while i < self.models.len()
            invariant
                i <= self.models@.len(),
                self.well_formed(),
                forall|j: int| 0 <= j < i ==> (#[trigger] self.models@[j]).id@ != id@,
            decreases self.models.len() - i,
        {
            if same_text(self.models[i].id.as_str(), id) {
                proof {
                    lemma_find_at(self.models@, model_key(), i as int);
                }
                return Some(i);
            }
            i = i + 1;
        }
        proof {
            lemma_find_index(self.models@, model_key(), id@);
        }
        None
    }

    /// Records a model, replacing the record with the same id.
    pub fn register_model(&mut self, metadata: ModelMetadata)
        requires
            old(self).well_formed(),
        ensures
            final(self).well_formed(),
            final(self).entry(metadata.id@) == Some(metadata),
            forall|id: Seq<char>| id != metadata.id@ ==> final(self).entry(id) == old(self).entry(id),
    {
        match self.position(metadata.id.as_str()) {
            Some(i) => {
                let ghost before = self.models@;
                let ghost m = metadata;
                self.models.set(i, metadata);
                proof {
                    lemma_set_keyed(before, model_key(), i as int, m);
                }
            },
            None => {
                let ghost before = self.models@;
                let ghost m = metadata;
                self.models.push(metadata);
                proof {
                    lemma_push_keyed(before, model_key(), m);
                }
            },
        }
    }

    /// Records a model (the same as registering it).
    pub fn update_model(&mut self, metadata: ModelMetadata)
        requires
            old(self).well_formed(),
        ensures
            final(self).well_formed(),
            final(self).entry(metadata.id@) == Some(metadata),
            forall|id: Seq<char>| id != metadata.id@ ==> final(self).entry(id) == old(self).entry(id),
    {
        self.register_model(metadata);
    }

    /// A copy of the record for `id`, if any.
    pub fn get_model(&self, id: &str) -> (r: Option<ModelMetadata>)
        requires
            self.well_formed(),
        ensures
            match self.entry(id@) {
                Some(m) => r matches Some(c) && same_metadata(c, m),
                None => r is None,
            },
    {
        match self.position(id) {
            Some(i) => Some(self.models[i].duplicate()),
            None => None,
        }
    }

    /// Forgets the record for `id`.
    pub fn unregister_model(&mut self, id: &str)
        requires
            old(self).well_formed(),
        ensures
            final(self).well_formed(),
            final(self).entry(id@) is None,
            forall|other: Seq<char>| other != id@ ==> final(self).entry(other) == old(self).entry(other),
    {
        match self.position(id) {
            Some(i) => {
                let ghost before = self.models@;
                let _removed = self.models.remove(i);
                proof {
                    lemma_remove_keyed(before, model_key(), i as int);
                }
            },
            None => {},
        }
    }

    /// Copies of all records.
    pub fn list_models(&self) -> (r: Vec<ModelMetadata>)
        ensures
            r@.len() == self.records().len(),
            forall|k: int| 0 <= k < r@.len() ==> same_metadata(#[trigger] r@[k], self.records()[k]),
    {
        let mut out: Vec<ModelMetadata> = Vec::new();
        let mut i: usize = 0;
        while i < self.models.len()
            invariant
                i <= self.models@.len(),
                out@.len() == i,
                forall|k: int| 0 <= k < i ==> same_metadata(#[trigger] out@[k], self.models@[k]),
            decreases self.models.len() - i,
        {
            out.push(self.models[i].duplicate());
            i = i + 1;
        }
        out
    }
}

/// The category a model's name suggests, checked in this order: transcription (whisper,
/// transcribe, audio), video tagging (video, tag), image tagging (image, vision), code (code,
/// coder), embedding (embed, vector), text generation (llama, mistral, gpt), else other.
pub open spec fn category_of(name: Seq<char>) -> ModelCategory {
    let n = lowercase(name);
    if contains_seq(n, "whisper"@) || contains_seq(n, "transcribe"@) || contains_seq(n, "audio"@) {
        ModelCategory::Transcription
    } else if contains_seq(n, "video"@) || contains_seq(n, "tag"@) {
        ModelCategory::VideoTagging
    } else if contains_seq(n, "image"@) || contains_seq(n, "vision"@) {
        ModelCategory::ImageTagging
    } else if contains_seq(n, "code"@) || contains_seq(n, "coder"@) {
        ModelCategory::CodeGeneration
    } else if contains_seq(n, "embed"@) || contains_seq(n, "vector"@) {
        ModelCategory::Embedding
    } else if contains_seq(n, "llama"@) || contains_seq(n, "mistral"@) || contains_seq(n, "gpt"@) {
        ModelCategory::TextGeneration
    } else {
        ModelCategory::Other
    }
}

/// What a model's name says of it, case aside: each keyword group decides the category,
/// checked in order, so a name is only put in a later category when it has none of the
/// earlier keywords. In particular a name mentioning `llama`, `mistral` or `gpt` (and no
/// earlier keyword) is a text-generation model, and a name with none of the keywords is
/// `Other`.
pub proof fn lemma_category_keywords(name: Seq<char>)
    ensures
        ({
            let n = lowercase(name);
            let speech = contains_seq(n, "whisper"@) || contains_seq(n, "transcribe"@) || contains_seq(n, "audio"@);
            let video = contains_seq(n, "video"@) || contains_seq(n, "tag"@);
            let image = contains_seq(n, "image"@) || contains_seq(n, "vision"@);
            let code = contains_seq(n, "code"@) || contains_seq(n, "coder"@);
            let embed = contains_seq(n, "embed"@) || contains_seq(n, "vector"@);
            let text = contains_seq(n, "llama"@) || contains_seq(n, "mistral"@) || contains_seq(n, "gpt"@);
            &&& speech ==> category_of(name) == ModelCategory::Transcription
            &&& !speech && video ==> category_of(name) == ModelCategory::VideoTagging
            &&& !speech && !video && image ==> category_of(name) == ModelCategory::ImageTagging
            &&& !speech && !video && !image && code ==> category_of(name) == ModelCategory::CodeGeneration
            &&& !speech && !video && !image && !code && embed ==> category_of(name) == ModelCategory::Embedding
            &&& !speech && !video && !image && !code && !embed && text ==> category_of(name)
                == ModelCategory::TextGeneration
            &&& !speech && !video && !image && !code && !embed && !text ==> category_of(name) == ModelCategory::Other
        }),
{
}

/// Models served by Ollama.
pub struct OllamaModelProvider {
    client: OllamaClient,
    registry: InMemoryModelRegistry,
}

/// Whether a record describes an installed Ollama model first seen in a listing.
pub open spec fn fresh_listing_record(m: ModelMetadata, name: Seq<char>, size: u64) -> bool {
    &&& m.id@ == name
    &&& m.name@ == name
    &&& m.category == category_of(name)
    &&& m.size_bytes == size
    &&& m.description is None
    &&& m.provider@ == "ollama"@
    &&& m.version is None
    &&& m.is_installed
    &&& !m.is_running
    &&& m.local_path is None
    &&& str_views(m.dependencies@) == seq!["ollama"@]
    &&& m.supported_languages@.len() == 0
    &&& m.capabilities@.len() == 0
}

impl OllamaModelProvider {
    /// The registry the provider consults.
    pub closed spec fn registry_view(&self) -> InMemoryModelRegistry {
        self.registry
    }

    /// The client the provider reaches the server with.
    pub closed spec fn client_view(&self) -> OllamaClient {
        self.client
    }

    /// A provider for the local Ollama server, consulting `registry`.
    pub fn new(registry: InMemoryModelRegistry) -> (r: Self)
        ensures
            r.registry_view() == registry,
            r.client_view().address() == crate::ollama::client_address(None),
            r.client_view().timeout() == 300,
    {
        OllamaModelProvider { client: OllamaClient::new(None), registry }
    }

    /// A provider for the server of `client`, consulting `registry`.
    pub fn with_client(client: OllamaClient, registry: InMemoryModelRegistry) -> (r: Self)
        ensures
            r.registry_view() == registry,
            r.client_view() == client,
    {
        OllamaModelProvider { client, registry }
    }

    /// The provider's name.
    pub fn provider_name(&self) -> (r: &'static str)
        ensures
            r@ == "ollama"@,
    {
        "ollama"
    }

    /// The client used to reach the server.
    pub fn client(&self) -> (r: &OllamaClient)
        ensures
            *r == self.client_view(),
    {
        &self.client
    }

    /// The category a model's name suggests (see `category_of`).
    pub fn infer_category(model_name: &str) -> (r: ModelCategory)
        ensures
            r == category_of(model_name@),
    {
        let lower = to_lowercase(model_name);
        let n = lower.as_str();
        if contains(n, "whisper") || contains(n, "transcribe") || contains(n, "audio") {
            ModelCategory::Transcription
        } else if contains(n, "video") || contains(n, "tag") {
            ModelCategory::VideoTagging
        } else if contains(n, "image") || contains(n, "vision") {
            ModelCategory::ImageTagging
        } else if contains(n, "code") || contains(n, "coder") {
            ModelCategory::CodeGeneration
        } else if contains(n, "embed") || contains(n, "vector") {
            ModelCategory::Embedding
        } else if contains(n, "llama") || contains(n, "mistral") || contains(n, "gpt") {
            ModelCategory::TextGeneration
        } else {
            ModelCategory::Other
        }
    }

    /// The record for a model the server lists: the registry's record when it has one, else a
    /// fresh one; either way with the listed size and marked installed.
    pub fn listing_record(&self, name: &str, size: u64) -> (r: ModelMetadata)
        requires
            self.registry_view().well_formed(),
        ensures
            r.size_bytes == size,
            r.is_installed,
            match self.registry_view().entry(name@) {
                Some(m) => same_metadata(r, ModelMetadata { size_bytes: size, is_installed: true, ..m }),
                None => fresh_listing_record(r, name@, size),
            },
    {
        let mut m = match self.registry.get_model(name) {
            Some(m) => m,
            None => {
                let mut deps: Vec<String> = Vec::new();
                deps.push(String::from_str("ollama"));
                let r = ModelMetadata {
                    id: String::from_str(name),
                    name: String::from_str(name),
                    category: Self::infer_category(name),
                    size_bytes: size,
                    description: None,
                    provider: String::from_str("ollama"),
                    version: None,
                    is_installed: true,
                    is_running: false,
                    local_path: None,
                    dependencies: deps,
                    supported_languages: Vec::new(),
                    capabilities: Vec::new(),
                };
                assert(str_views(r.dependencies@) =~= seq!["ollama"@]);
                r
            },
        };
        m.size_bytes = size;
        m.is_installed = true;
        m
    }
}

/// A source of models.
pub enum ModelProviderSlot {
    /// The Ollama provider.
    Ollama(OllamaModelProvider),
    /// A provider served by the host application, known by its name.
    External { name: String },
}

/// All model providers, Ollama's first.
pub struct ModelManager {
    providers: Vec<ModelProviderSlot>,
}

impl ModelManager {
    /// The providers, in the order they are asked.
    pub closed spec fn providers_view(&self) -> Seq<ModelProviderSlot> {
        self.providers@
    }

    /// How many providers there are.
    pub closed spec fn provider_count(&self) -> nat {
        self.providers@.len()
    }

    /// Whether the first provider is Ollama's.
    pub closed spec fn starts_with_ollama(&self) -> bool {
        self.providers@.len() > 0 && self.providers@[0] is Ollama
    }

    /// A manager with the Ollama provider, which consults `registry`.
    pub fn new(registry: InMemoryModelRegistry) -> (r: Self)
        ensures
            r.provider_count() == 1,
            r.starts_with_ollama(),
            r.providers_view()[0] matches ModelProviderSlot::Ollama(p) && p.registry_view() == registry
                && p.client_view().address() == crate::ollama::client_address(None),
    {
        let mut providers: Vec<ModelProviderSlot> = Vec::new();
        providers.push(ModelProviderSlot::Ollama(OllamaModelProvider::new(registry)));
        ModelManager { providers }
    }

    /// Adds a provider after the others.
    pub fn add_provider(&mut self, provider: ModelProviderSlot)
        ensures
            final(self).providers_view() == old(self).providers_view().push(provider),
            final(self).provider_count() == old(self).provider_count() + 1,
            old(self).starts_with_ollama() ==> final(self).starts_with_ollama(),
    {
        self.providers.push(provider);
    }

    /// The providers, in the order they are asked.
    pub fn providers(&self) -> (r: &Vec<ModelProviderSlot>)
        ensures
            r@ == self.providers_view(),
            r@.len() == self.provider_count(),
    {
        &self.providers
    }
}

/// The models the providers listed, in the providers' order: `listings[k]` is what provider
/// `k` gave, none when it was not available, an error when its listing failed (and is
/// passed over).
pub open spec fn gathered(listings: Seq<Option<Result<Vec<ModelMetadata>, String>>>) -> Seq<ModelMetadata>
    decreases listings.len(),
{
    if listings.len() == 0 {
        Seq::empty()
    } else {
        gathered(listings.drop_last()) + match listings.last() {
            Some(Ok(v)) => v@,
            _ => Seq::empty(),
        }
    }
}

impl ModelManager {
    /// All models the available providers list (see `gathered`).
    pub fn list_all_models(listings: Vec<Option<Result<Vec<ModelMetadata>, String>>>) -> (r: Vec<ModelMetadata>)
        ensures
            r@ == gathered(listings@),
    {
        let ghost orig = listings@;
        let n = listings.len();
        let mut rest = listings;
        let mut out: Vec<ModelMetadata> = Vec::new();
        let mut i: usize = 0;
        while rest.len() > 0
            invariant
                i + rest@.len() == orig.len(),
                orig.len() == n,
                rest@ == orig.subrange(i as int, orig.len() as int),
                out@ == gathered(orig.subrange(0, i as int)),
            decreases rest@.len(),
        {
            let l = rest.remove(0);
            proof {
                assert(orig.subrange(0, i + 1).drop_last() =~= orig.subrange(0, i as int));
                assert(orig.subrange(0, i + 1).last() == l);
            }
            match l {
                Some(Ok(v)) => {
                    let mut v = v;
                    out.append(&mut v);
                },
                _ => {},
            }
            i = i + 1;
            assert(rest@ =~= orig.subrange(i as int, orig.len() as int));
        }
        assert(orig.subrange(0, i as int) =~= orig);
        out
    }
}

/// The records of one category, in order.
pub open spec fn of_category(s: Seq<ModelMetadata>, c: ModelCategory) -> Seq<ModelMetadata>
    decreases s.len(),
{
    if s.len() == 0 {
        s
    } else if s.last().category == c {
        of_category(s.drop_last(), c).push(s.last())
    } else {
        of_category(s.drop_last(), c)
    }
}

/// The models of one category, in order (`list_models_by_category` over listed models).
pub fn filter_by_category(models: Vec<ModelMetadata>, category: ModelCategory) -> (r: Vec<ModelMetadata>)
    ensures
        r@ == of_category(models@, category),
{
    let ghost orig = models@;
    let n = models.len();
    let mut rest = models;
    let mut out: Vec<ModelMetadata> = Vec::new();
    let mut i: usize = 0;
    while rest.len() > 0
        invariant
            i + rest@.len() == orig.len(),
            orig.len() == n,
            rest@ == orig.subrange(i as int, orig.len() as int),
            out@ == of_category(orig.subrange(0, i as int), category),
        decreases rest@.len(),
    {
        let m = rest.remove(0);
        proof {
            assert(orig.subrange(0, i + 1).drop_last() =~= orig.subrange(0, i as int));
            assert(orig.subrange(0, i + 1).last() == m);
        }
        if m.category == category {
            out.push(m);
        }
        i = i + 1;
        assert(rest@ =~= orig.subrange(i as int, orig.len() as int));
    }
    assert(orig.subrange(0, i as int) =~= orig);
    out
}

} // verus!
