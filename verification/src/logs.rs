//! The application's own log files: their names, when and how they rotate, and which entries
//! are shown to the user.

use vstd::prelude::*;
use crate::paths::{join_path, joined};
use crate::recency::{
    lemma_newest_first_ordered, lemma_newest_first_permutes, newest_first, sort_newest_first,
    values_of, by_recency,
};
use crate::text::{decimal, same_text, to_decimal};

verus! {

/// How many log files are read and cleared: the current one and five rotated ones.
pub const LOG_FILE_SLOTS: usize = 6;

/// The size at which the current log file is rotated unless the settings say otherwise (10 MiB).
pub const DEFAULT_MAX_LOG_FILE_SIZE: u64 = 10485760;

/// How many rotated files are kept unless the settings say otherwise.
pub const DEFAULT_MAX_ROTATED_FILES: usize = 5;

/// The severity of a log entry.
#[derive(Clone, Copy, PartialEq, Eq, Debug, Structural)]
pub enum LogLevel {
    Error,
    Warn,
    Info,
    Debug,
    Trace,
}

/// The name a level is written under.
pub open spec fn level_text(l: LogLevel) -> Seq<char> {
    match l {
        LogLevel::Error => "ERROR"@,
        LogLevel::Warn => "WARN"@,
        LogLevel::Info => "INFO"@,
        LogLevel::Debug => "DEBUG"@,
        LogLevel::Trace => "TRACE"@,
    }
}

/// The name a level is written under (see `level_text`).
pub fn level_name(l: LogLevel) -> (r: &'static str)
    ensures
        r@ == level_text(l),
{
    match l {
        LogLevel::Error => "ERROR",
        LogLevel::Warn => "WARN",
        LogLevel::Info => "INFO",
        LogLevel::Debug => "DEBUG",
        LogLevel::Trace => "TRACE",
    }
}

/// The name of log file `i`: `diaspor.log` for the current one, `diaspor.<i>.log` for the
/// rotated ones.
pub open spec fn log_file_name_of(i: nat) -> Seq<char> {
    if i == 0 {
        "diaspor.log"@
    } else {
        "diaspor."@ + decimal(i) + ".log"@
    }
}

/// The name of log file `index` (see `log_file_name_of`).
pub fn log_file_name(index: usize) -> (r: String)
    ensures
        r@ == log_file_name_of(index as nat),
{
    if index == 0 {
        "diaspor.log".to_string()
    } else {
        let d = to_decimal(index as u64);
        let s = "diaspor.".to_string();
        let s = s.concat(d.as_str());
        s.concat(".log")
    }
}

/// The path of log file `index` in the folder `dir`.
pub fn log_file_path(dir: &str, index: usize) -> (r: String)
    ensures
        r@ == joined(dir@, log_file_name_of(index as nat)),
{
    let name = log_file_name(index);
    join_path(dir, name.as_str())
}

/// Whether the current log file has reached the size at which it is rotated.
pub fn needs_rotation(size: u64, max_file_size: u64) -> (r: bool)
    ensures
        r == (size >= max_file_size),
{
    size >= max_file_size
}

/// The renames that rotate the log files, in the order they are made: file `i` becomes file
/// `i + 1`, from the oldest kept file down to the current one, so that no file is overwritten
/// before it has moved.
pub fn rotation_moves(max_files: usize) -> (r: Vec<(usize, usize)>)
    ensures
        r@.len() == max_files,
        forall|k: int|
            0 <= k < max_files ==> (#[trigger] r@[k]).0 == max_files - 1 - k && r@[k].1
                == max_files - k,
{
    let mut out: Vec<(usize, usize)> = Vec::new();
    let mut i: usize = max_files;
    while i > 0
        invariant
            i <= max_files,
            out@.len() == max_files - i,
            forall|k: int|
                0 <= k < out@.len() ==> (#[trigger] out@[k]).0 == max_files - 1 - k && out@[k].1
                    == max_files - k,
        decreases i,
    {
        out.push((i - 1, i));
        i = i - 1;
    }
    out
}

/// The text a line handed to the log writer is recorded with: the line without surrounding
/// white space, or nothing when only white space is left.
pub fn log_line_message(line: &str) -> (r: Option<String>)
    ensures
        crate::text::trimmed(line@).len() == 0 ==> r is None,
        crate::text::trimmed(line@).len() > 0 ==> (r matches Some(m) && m@ == crate::text::trimmed(
            line@,
        )),
{
    let t = crate::text::trim(line);
    if t.as_str().unicode_len() == 0 {
        proof {
            assert(t@.len() == 0);
        }
        None
    } else {
        Some(t)
    }
}

/// The text of `bytes` read as UTF-8, each malformed sequence replaced by U+FFFD
/// (`String::from_utf8_lossy`).
pub uninterp spec fn utf8_lossy(bytes: Seq<u8>) -> Seq<char>;

/// Calls `String::from_utf8_lossy`; the contract names the text it gives, and states what
/// its documentation promises of valid UTF-8: the text it encodes, unchanged. How malformed
/// sequences are replaced is left to the name.
#[verifier::external_body]
fn decode_lossy(bytes: &[u8]) -> (r: String)
    ensures
        r@ == utf8_lossy(bytes@),
        vstd::utf8::valid_utf8(bytes@) ==> r@ == vstd::utf8::decode_utf8(bytes@),
{
    String::from_utf8_lossy(bytes).into_owned()
}

/// What the log writer records of the bytes handed to it: their text without surrounding
/// white space, or nothing when only white space is left (see `log_line_message`).
pub fn log_bytes_message(buf: &[u8]) -> (r: Option<String>)
    ensures
        crate::text::trimmed(utf8_lossy(buf@)).len() == 0 ==> r is None,
        crate::text::trimmed(utf8_lossy(buf@)).len() > 0 ==> (r matches Some(m) && m@
            == crate::text::trimmed(utf8_lossy(buf@))),
{
    let text = decode_lossy(buf);
    log_line_message(text.as_str())
}

/// One entry of a log file.
#[derive(Debug)]
pub struct LogRecord {
    /// Seconds since the Unix epoch.
    pub timestamp_secs: i64,
    /// Nanoseconds within the second.
    pub timestamp_nanos: u32,
    pub level: String,
    pub target: String,
    pub message: String,
    /// The entry's structured fields, as JSON text.
    pub fields: Option<String>,
}

/// The time of an entry as one number that orders entries as their timestamps do.
pub open spec fn record_time(e: LogRecord) -> i128 {
    (e.timestamp_secs as int * 4294967296 + e.timestamp_nanos as int) as i128
}

/// Whether an entry passes the level filter (an entry passes when there is none).
pub open spec fn level_passes(e: LogRecord, level: Option<Seq<char>>) -> bool {
    match level {
        Some(l) => e.level@ == l,
        None => true,
    }
}

/// The entries that pass the level filter, each with its time, in the order they were read.
pub open spec fn timed_kept(s: Seq<LogRecord>, level: Option<Seq<char>>) -> Seq<(i128, LogRecord)>
    decreases s.len(),
{
    if s.len() == 0 {
        Seq::empty()
    } else if level_passes(s.last(), level) {
        timed_kept(s.drop_last(), level).push((record_time(s.last()), s.last()))
    } else {
        timed_kept(s.drop_last(), level)
    }
}

/// The entries shown: those that pass the level filter, newest first (entries with the same
/// time in the order they were read), at most `limit` of them.
pub open spec fn selected_logs(
    s: Seq<LogRecord>,
    limit: Option<usize>,
    level: Option<Seq<char>>,
) -> Seq<LogRecord> {
    let sorted = newest_first(timed_kept(s, level)).map_values(|p: (i128, LogRecord)| p.1);
    match limit {
        Some(n) => if n < sorted.len() {
            sorted.take(n as int)
        } else {
            sorted
        },
        None => sorted,
    }
}

/// The view of an optional string slice.
pub open spec fn opt_text(o: Option<&str>) -> Option<Seq<char>> {
    match o {
        Some(x) => Some(x@),
        None => None,
    }
}

/// The entries to show of those read from the log files, in the order the files were read
/// (see `selected_logs`).
pub fn select_logs(entries: Vec<LogRecord>, limit: Option<usize>, level: Option<&str>) -> (r: Vec<
    LogRecord,
>)
    ensures
        r@ == selected_logs(entries@, limit, opt_text(level)),
{
    let ghost orig = entries@;
    let ghost lv = opt_text(level);
    let mut rest = entries;
    let mut kept: Vec<(i128, LogRecord)> = Vec::new();
    let mut i: usize = 0;
    let n = rest.len();
    while rest.len() > 0
        invariant
            n == orig.len(),
            lv == opt_text(level),
            i + rest@.len() == n,
            rest@ == orig.subrange(i as int, n as int),
            kept@ == timed_kept(orig.subrange(0, i as int), lv),
        decreases rest@.len(),
    {
        let e = rest.remove(0);
        proof {
            assert(e == orig[i as int]);
            assert(orig.subrange(0, i + 1).drop_last() =~= orig.subrange(0, i as int));
            assert(orig.subrange(0, i + 1).last() == e);
            assert(rest@ =~= orig.subrange(i + 1, n as int));
        }
        let pass = match level {
            Some(l) => same_text(e.level.as_str(), l),
            None => true,
        };
        if pass {
            let t: i128 = e.timestamp_secs as i128 * 4294967296 + e.timestamp_nanos as i128;
            kept.push((t, e));
        }
        i = i + 1;
    }
    proof {
        assert(orig.subrange(0, n as int) =~= orig);
    }
    let sorted = sort_newest_first(kept);
    let mut out = values_of(sorted);
    proof {
        let ghost full = newest_first(timed_kept(orig, lv)).map_values(
            |p: (i128, LogRecord)| p.1,
        );
        assert(out@ =~= full);
    }
    match limit {
        Some(k) => {
            out.truncate(k);
        },
        None => {},
    }
    out
}

/// The entries shown are ordered newest first, and each of them passed the level filter and
/// was read from the files.
pub proof fn lemma_selected_logs_sound(s: Seq<LogRecord>, limit: Option<usize>, level: Option<Seq<char>>)
    ensures
        forall|i: int, j: int|
            0 <= i < j < selected_logs(s, limit, level).len() ==> record_time(
                #[trigger] selected_logs(s, limit, level)[i],
            ) >= record_time(#[trigger] selected_logs(s, limit, level)[j]),
        forall|k: int|
            0 <= k < selected_logs(s, limit, level).len() ==> level_passes(
                #[trigger] selected_logs(s, limit, level)[k],
                level,
            ) && s.contains(selected_logs(s, limit, level)[k]),
        match limit {
            Some(n) => selected_logs(s, limit, level).len() <= n,
            None => true,
        },
{
    broadcast use vstd::seq_lib::group_to_multiset_ensures;

    let t = timed_kept(s, level);
    lemma_timed_kept_sound(s, level);
    lemma_newest_first_ordered(t);
    lemma_newest_first_permutes(t);
    let sorted = newest_first(t);
    let sel = selected_logs(s, limit, level);
    assert forall|k: int| 0 <= k < sorted.len() implies sorted[k].0 == record_time(
        #[trigger] sorted[k].1,
    ) && level_passes(sorted[k].1, level) && s.contains(sorted[k].1) by {
        assert(sorted.contains(sorted[k]));
        assert(sorted.to_multiset().count(sorted[k]) > 0);
        assert(t.to_multiset().count(sorted[k]) > 0);
        assert(t.contains(sorted[k]));
    }
    assert forall|i: int, j: int| 0 <= i < j < sel.len() implies record_time(#[trigger] sel[i])
        >= record_time(#[trigger] sel[j]) by {
        assert(sel[i] == sorted[i].1 && sel[j] == sorted[j].1);
    }
    assert forall|k: int| 0 <= k < sel.len() implies level_passes(#[trigger] sel[k], level)
        && s.contains(sel[k]) by {
        assert(sel[k] == sorted[k].1);
    }
}

proof fn lemma_timed_kept_sound(s: Seq<LogRecord>, level: Option<Seq<char>>)
    ensures
        forall|k: int|
            0 <= k < timed_kept(s, level).len() ==> (#[trigger] timed_kept(s, level)[k]).0
                == record_time(timed_kept(s, level)[k].1) && level_passes(
                timed_kept(s, level)[k].1,
                level,
            ) && s.contains(timed_kept(s, level)[k].1),
    decreases s.len(),
{
    if s.len() > 0 {
        let d = s.drop_last();
        lemma_timed_kept_sound(d, level);
        let t = timed_kept(s, level);
        let td = timed_kept(d, level);
        assert forall|k: int| 0 <= k < t.len() implies (#[trigger] t[k]).0 == record_time(t[k].1)
            && level_passes(t[k].1, level) && s.contains(t[k].1) by {
            if k < td.len() {
                assert(t[k] == td[k]);
                let j = choose|j: int| 0 <= j < d.len() && d[j] == td[k].1;
                assert(s[j] == d[j]);
            } else {
                assert(t[k].1 == s.last());
                assert(s[s.len() - 1] == s.last());
            }
        }
    }
}

} // verus!
