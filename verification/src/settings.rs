//! Application settings by category, their defaults, and where logs and settings live.

use vstd::prelude::*;
use crate::paths::{join_path, joined};

verus! {

/// The categories of settings.
#[derive(Clone, Copy, PartialEq, Eq, Debug, Hash, Structural)]
pub enum SettingType {
    Logging,
    Ui,
    Storage,
    Ai,
    Performance,
    Security,
}

/// Logging settings.
#[derive(Clone, Debug)]
pub struct LoggingSettings {
    /// The log directory.
    pub log_path: Option<String>,
    /// DEBUG, INFO, WARN, ERROR or TRACE.
    pub log_level: Option<String>,
    /// Size in bytes at which a log file is rotated.
    pub max_file_size: Option<u64>,
    /// How many rotated files are kept.
    pub max_rotated_files: Option<usize>,
    pub enable_file_logging: Option<bool>,
}

impl Default for LoggingSettings {
    /// INFO level, 10 MiB files, five rotated files, file logging on.
    fn default() -> (r: Self)
        ensures
            r.log_path is None,
            r.log_level matches Some(l) && l@ == "INFO"@,
            r.max_file_size == Some(10485760u64),
            r.max_rotated_files == Some(5usize),
            r.enable_file_logging == Some(true),
    {
        LoggingSettings {
            log_path: None,
            log_level: Some(String::from_str("INFO")),
            max_file_size: Some(10 * 1024 * 1024),
            max_rotated_files: Some(5),
            enable_file_logging: Some(true),
        }
    }
}

/// Interface settings.
#[derive(Clone, Debug)]
pub struct UiSettings {
    /// light, dark or auto.
    pub theme: Option<String>,
    /// grid or list.
    pub default_view: Option<String>,
    pub show_hidden_files: Option<bool>,
}

impl Default for UiSettings {
    /// Automatic theme, grid view, hidden files hidden.
    fn default() -> (r: Self)
        ensures
            r.theme matches Some(t) && t@ == "auto"@,
            r.default_view matches Some(v) && v@ == "grid"@,
            r.show_hidden_files == Some(false),
    {
        UiSettings {
            theme: Some(String::from_str("auto")),
            default_view: Some(String::from_str("grid")),
            show_hidden_files: Some(false),
        }
    }
}

/// Storage settings.
#[derive(Clone, Debug)]
pub struct StorageSettings {
    pub default_source_id: Option<String>,
    pub cache_path: Option<String>,
    /// Cache size limit in bytes.
    pub max_cache_size: Option<u64>,
}

impl Default for StorageSettings {
    /// A 1 GiB cache, no default source, the default cache location.
    fn default() -> (r: Self)
        ensures
            r.default_source_id is None,
            r.cache_path is None,
            r.max_cache_size == Some(1073741824u64),
    {
        StorageSettings {
            default_source_id: None,
            cache_path: None,
            max_cache_size: Some(1024 * 1024 * 1024),
        }
    }
}

/// AI settings.
#[derive(Clone, Debug)]
pub struct AiSettings {
    pub default_model: Option<String>,
    pub ollama_url: Option<String>,
    pub enable_ai: Option<bool>,
}

impl Default for AiSettings {
    /// The local Ollama server, AI features on, no default model.
    fn default() -> (r: Self)
        ensures
            r.default_model is None,
            r.ollama_url matches Some(u) && u@ == "http://localhost:11434"@,
            r.enable_ai == Some(true),
    {
        AiSettings {
            default_model: None,
            ollama_url: Some(String::from_str("http://localhost:11434")),
            enable_ai: Some(true),
        }
    }
}

/// Performance settings.
#[derive(Clone, Debug)]
pub struct PerformanceSettings {
    pub worker_threads: Option<usize>,
    pub enable_gpu: Option<bool>,
    pub thumbnail_cache_size: Option<usize>,
}

impl Default for PerformanceSettings {
    /// GPU on, a thousand cached thumbnails, the default number of workers.
    fn default() -> (r: Self)
        ensures
            r.worker_threads is None,
            r.enable_gpu == Some(true),
            r.thumbnail_cache_size == Some(1000usize),
    {
        PerformanceSettings {
            worker_threads: None,
            enable_gpu: Some(true),
            thumbnail_cache_size: Some(1000),
        }
    }
}

/// Security settings.
#[derive(Clone, Debug)]
pub struct SecuritySettings {
    pub require_auth: Option<bool>,
    /// Session timeout in seconds.
    pub session_timeout: Option<u64>,
    pub enable_audit_log: Option<bool>,
}

impl Default for SecuritySettings {
    /// No authentication, one-hour sessions, audit log on.
    fn default() -> (r: Self)
        ensures
            r.require_auth == Some(false),
            r.session_timeout == Some(3600u64),
            r.enable_audit_log == Some(true),
    {
        SecuritySettings {
            require_auth: Some(false),
            session_timeout: Some(3600),
            enable_audit_log: Some(true),
        }
    }
}

/// All settings.
#[derive(Clone, Debug)]
pub struct AppSettings {
    pub logging: LoggingSettings,
    pub ui: UiSettings,
    pub storage: StorageSettings,
    pub ai: AiSettings,
    pub performance: PerformanceSettings,
    pub security: SecuritySettings,
}

/// Whether each category holds its defaults.
pub open spec fn is_default(s: AppSettings) -> bool {
    &&& s.logging.log_path is None
    &&& s.logging.log_level matches Some(l) && l@ == "INFO"@
    &&& s.logging.max_file_size == Some(10485760u64)
    &&& s.logging.max_rotated_files == Some(5usize)
    &&& s.logging.enable_file_logging == Some(true)
    &&& s.ui.theme matches Some(t) && t@ == "auto"@
    &&& s.ui.default_view matches Some(v) && v@ == "grid"@
    &&& s.ui.show_hidden_files == Some(false)
    &&& s.storage.default_source_id is None
    &&& s.storage.cache_path is None
    &&& s.storage.max_cache_size == Some(1073741824u64)
    &&& s.ai.default_model is None
    &&& s.ai.ollama_url matches Some(u) && u@ == "http://localhost:11434"@
    &&& s.ai.enable_ai == Some(true)
    &&& s.performance.worker_threads is None
    &&& s.performance.enable_gpu == Some(true)
    &&& s.performance.thumbnail_cache_size == Some(1000usize)
    &&& s.security.require_auth == Some(false)
    &&& s.security.session_timeout == Some(3600u64)
    &&& s.security.enable_audit_log == Some(true)
}

impl Default for AppSettings {
    /// Every category at its defaults.
    fn default() -> (r: Self)
        ensures
            is_default(r),
    {
        AppSettings {
            logging: LoggingSettings::default(),
            ui: UiSettings::default(),
            storage: StorageSettings::default(),
            ai: AiSettings::default(),
            performance: PerformanceSettings::default(),
            security: SecuritySettings::default(),
        }
    }
}

/// A setting after a change: the new value where one is given, else the current one.
pub open spec fn patched<T>(current: Option<T>, new: Option<T>) -> Option<T> {
    match new {
        Some(v) => Some(v),
        None => current,
    }
}

/// An optional text, copied.
fn copy_text(o: &Option<String>) -> (r: Option<String>)
    ensures
        r == *o,
{
    match o {
        Some(s) => Some(s.clone()),
        None => None,
    }
}

impl LoggingSettings {
    /// A copy of these settings.
    pub fn duplicate(&self) -> (r: Self)
        ensures
            r == *self,
    {
        LoggingSettings {
            log_path: copy_text(&self.log_path),
            log_level: copy_text(&self.log_level),
            max_file_size: self.max_file_size,
            max_rotated_files: self.max_rotated_files,
            enable_file_logging: self.enable_file_logging,
        }
    }
}

impl UiSettings {
    /// A copy of these settings.
    pub fn duplicate(&self) -> (r: Self)
        ensures
            r == *self,
    {
        UiSettings {
            theme: copy_text(&self.theme),
            default_view: copy_text(&self.default_view),
            show_hidden_files: self.show_hidden_files,
        }
    }
}

impl StorageSettings {
    /// A copy of these settings.
    pub fn duplicate(&self) -> (r: Self)
        ensures
            r == *self,
    {
        StorageSettings {
            default_source_id: copy_text(&self.default_source_id),
            cache_path: copy_text(&self.cache_path),
            max_cache_size: self.max_cache_size,
        }
    }
}

impl AiSettings {
    /// A copy of these settings.
    pub fn duplicate(&self) -> (r: Self)
        ensures
            r == *self,
    {
        AiSettings {
            default_model: copy_text(&self.default_model),
            ollama_url: copy_text(&self.ollama_url),
            enable_ai: self.enable_ai,
        }
    }
}

impl PerformanceSettings {
    /// A copy of these settings.
    pub fn duplicate(&self) -> (r: Self)
        ensures
            r == *self,
    {
        PerformanceSettings {
            worker_threads: self.worker_threads,
            enable_gpu: self.enable_gpu,
            thumbnail_cache_size: self.thumbnail_cache_size,
        }
    }
}

impl SecuritySettings {
    /// A copy of these settings.
    pub fn duplicate(&self) -> (r: Self)
        ensures
            r == *self,
    {
        SecuritySettings {
            require_auth: self.require_auth,
            session_timeout: self.session_timeout,
            enable_audit_log: self.enable_audit_log,
        }
    }
}

impl AppSettings {
    /// A copy of all settings.
    pub fn duplicate(&self) -> (r: Self)
        ensures
            r == *self,
    {
        AppSettings {
            logging: self.logging.duplicate(),
            ui: self.ui.duplicate(),
            storage: self.storage.duplicate(),
            ai: self.ai.duplicate(),
            performance: self.performance.duplicate(),
            security: self.security.duplicate(),
        }
    }
}

/// The settings held in memory, one category replaced at a time, and the file
/// they are kept in.
pub struct SettingsManager {
    settings: AppSettings,
    settings_file: String,
}

impl SettingsManager {
    /// The settings held.
    pub closed spec fn current(&self) -> AppSettings {
        self.settings
    }

    /// The file the settings are kept in.
    pub closed spec fn file(&self) -> Seq<char> {
        self.settings_file@
    }

    /// Holds the settings read from `settings.json` in `settings_dir`, or the
    /// defaults when there were none or they could not be parsed.
    pub fn new(settings_dir: &str, read: Option<AppSettings>) -> (r: Self)
        ensures
            read is Some ==> r.current() == read->0,
            read is None ==> is_default(r.current()),
            r.file() == joined(settings_dir@, "settings.json"@),
    {
        let file = settings_file(settings_dir);
        match read {
            Some(s) => SettingsManager { settings: s, settings_file: file },
            None => SettingsManager { settings: AppSettings::default(), settings_file: file },
        }
    }

    /// The settings directory under the data directory.
    pub fn default_settings_dir(data_dir: Option<&str>) -> (r: String)
        ensures
            r@ == app_dir(match data_dir {
                Some(d) => Some(d@),
                None => None,
            }, "settings"@),
    {
        app_directory(data_dir, "settings")
    }

    /// The file the settings are kept in.
    pub fn file_path(&self) -> (r: &str)
        ensures
            r@ == self.file(),
    {
        self.settings_file.as_str()
    }

    /// A copy of all settings.
    pub fn get_all(&self) -> (r: AppSettings)
        ensures
            r == self.current(),
    {
        self.settings.duplicate()
    }

    /// A copy of the logging settings.
    pub fn get_logging(&self) -> (r: LoggingSettings)
        ensures
            r == self.current().logging,
    {
        self.settings.logging.duplicate()
    }

    /// A copy of the interface settings.
    pub fn get_ui(&self) -> (r: UiSettings)
        ensures
            r == self.current().ui,
    {
        self.settings.ui.duplicate()
    }

    /// A copy of the storage settings.
    pub fn get_storage(&self) -> (r: StorageSettings)
        ensures
            r == self.current().storage,
    {
        self.settings.storage.duplicate()
    }

    /// A copy of the AI settings.
    pub fn get_ai(&self) -> (r: AiSettings)
        ensures
            r == self.current().ai,
    {
        self.settings.ai.duplicate()
    }

    /// A copy of the performance settings.
    pub fn get_performance(&self) -> (r: PerformanceSettings)
        ensures
            r == self.current().performance,
    {
        self.settings.performance.duplicate()
    }

    /// A copy of the security settings.
    pub fn get_security(&self) -> (r: SecuritySettings)
        ensures
            r == self.current().security,
    {
        self.settings.security.duplicate()
    }

    /// The log directory: the configured one, else `diaspor/logs` under the
    /// data directory.
    pub fn get_log_directory(&self, data_dir: Option<&str>) -> (r: String)
        ensures
            self.current().logging.log_path is Some ==> r@ == self.current().logging.log_path->0@,
            self.current().logging.log_path is None ==> r@ == app_dir(match data_dir {
                Some(d) => Some(d@),
                None => None,
            }, "logs"@),
    {
        log_directory(&self.settings.logging, data_dir)
    }

    /// Replaces the logging settings.
    pub fn update_logging(&mut self, logging: LoggingSettings)
        ensures
            final(self).current() == (AppSettings { logging, ..old(self).current() }),
    {
        self.settings.logging = logging;
    }

    /// Replaces the interface settings.
    pub fn update_ui(&mut self, ui: UiSettings)
        ensures
            final(self).current() == (AppSettings { ui, ..old(self).current() }),
    {
        self.settings.ui = ui;
    }

    /// Replaces the storage settings.
    pub fn update_storage(&mut self, storage: StorageSettings)
        ensures
            final(self).current() == (AppSettings { storage, ..old(self).current() }),
    {
        self.settings.storage = storage;
    }

    /// Replaces the AI settings.
    pub fn update_ai(&mut self, ai: AiSettings)
        ensures
            final(self).current() == (AppSettings { ai, ..old(self).current() }),
    {
        self.settings.ai = ai;
    }

    /// Replaces the performance settings.
    pub fn update_performance(&mut self, performance: PerformanceSettings)
        ensures
            final(self).current() == (AppSettings { performance, ..old(self).current() }),
    {
        self.settings.performance = performance;
    }

    /// Replaces the security settings.
    pub fn update_security(&mut self, security: SecuritySettings)
        ensures
            final(self).current() == (AppSettings { security, ..old(self).current() }),
    {
        self.settings.security = security;
    }

    /// Changes the logging settings given, keeping the others.
    pub fn patch_logging(
        &mut self,
        log_path: Option<String>,
        log_level: Option<String>,
        max_file_size: Option<u64>,
        max_rotated_files: Option<usize>,
        enable_file_logging: Option<bool>,
    )
        ensures
            final(self).current() == (AppSettings {
                logging: LoggingSettings {
                    log_path: patched(old(self).current().logging.log_path, log_path),
                    log_level: patched(old(self).current().logging.log_level, log_level),
                    max_file_size: patched(old(self).current().logging.max_file_size, max_file_size),
                    max_rotated_files: patched(
                        old(self).current().logging.max_rotated_files,
                        max_rotated_files,
                    ),
                    enable_file_logging: patched(
                        old(self).current().logging.enable_file_logging,
                        enable_file_logging,
                    ),
                },
                ..old(self).current()
            }),
    {
        if let Some(p) = log_path {
            self.settings.logging.log_path = Some(p);
        }
        if let Some(l) = log_level {
            self.settings.logging.log_level = Some(l);
        }
        if let Some(m) = max_file_size {
            self.settings.logging.max_file_size = Some(m);
        }
        if let Some(f) = max_rotated_files {
            self.settings.logging.max_rotated_files = Some(f);
        }
        if let Some(e) = enable_file_logging {
            self.settings.logging.enable_file_logging = Some(e);
        }
    }

    /// Changes the interface settings given, keeping the others.
    pub fn patch_ui(&mut self, theme: Option<String>, default_view: Option<String>, show_hidden_files: Option<bool>)
        ensures
            final(self).current() == (AppSettings {
                ui: UiSettings {
                    theme: patched(old(self).current().ui.theme, theme),
                    default_view: patched(old(self).current().ui.default_view, default_view),
                    show_hidden_files: patched(
                        old(self).current().ui.show_hidden_files,
                        show_hidden_files,
                    ),
                },
                ..old(self).current()
            }),
    {
        if let Some(t) = theme {
            self.settings.ui.theme = Some(t);
        }
        if let Some(v) = default_view {
            self.settings.ui.default_view = Some(v);
        }
        if let Some(h) = show_hidden_files {
            self.settings.ui.show_hidden_files = Some(h);
        }
    }

    /// Puts every category back to its defaults.
    pub fn reset(&mut self)
        ensures
            is_default(final(self).current()),
    {
        self.settings = AppSettings::default();
    }
}

/// `dir/diaspor/leaf`, under the data directory or the current one.
pub open spec fn app_dir(data_dir: Option<Seq<char>>, leaf: Seq<char>) -> Seq<char> {
    let base = match data_dir {
        Some(d) => d,
        None => "."@,
    };
    joined(joined(base, "diaspor"@), leaf)
}

/// The directory under the data directory where the application keeps `leaf`.
pub fn app_directory(data_dir: Option<&str>, leaf: &str) -> (r: String)
    ensures
        r@ == app_dir(match data_dir {
            Some(d) => Some(d@),
            None => None,
        }, leaf@),
{
    let base = match data_dir {
        Some(d) => d,
        None => ".",
    };
    let a = join_path(base, "diaspor");
    join_path(a.as_str(), leaf)
}

/// The log directory: the configured one, else `diaspor/logs` under the data directory.
pub fn log_directory(logging: &LoggingSettings, data_dir: Option<&str>) -> (r: String)
    ensures
        logging.log_path is Some ==> r@ == logging.log_path->0@,
        logging.log_path is None ==> r@ == app_dir(match data_dir {
            Some(d) => Some(d@),
            None => None,
        }, "logs"@),
{
    match &logging.log_path {
        Some(p) => p.clone(),
        None => app_directory(data_dir, "logs"),
    }
}

/// The settings file in a settings directory.
pub fn settings_file(dir: &str) -> (r: String)
    ensures
        r@ == joined(dir@, "settings.json"@),
{
    join_path(dir, "settings.json")
}

/// The log file path reported to the user: the current log file, the one the log writer
/// writes and the log reader reads (see `crate::logs::log_file_name_of`).
pub fn reported_log_file(log_dir: &str) -> (r: String)
    ensures
        r@ == joined(log_dir@, crate::logs::log_file_name_of(0)),
{
    let name = crate::logs::log_file_name(0);
    join_path(log_dir, name.as_str())
}

} // verus!
