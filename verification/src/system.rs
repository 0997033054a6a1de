//! System information, the disk counters of `/proc/diskstats`, I/O rate bookkeeping, and the
//! processes that belong to model runtimes.

use vstd::prelude::*;
use crate::text::{
    contains, contains_seq, has_prefix, lines, lines_of, lowercase, parse_u64, parsed_u64,
    split_whitespace, starts_with, to_lowercase, words_of,
};

verus! {

/// What the machine is.
#[derive(Clone, Debug)]
pub struct SystemInfo {
    pub os_name: String,
    pub os_version: String,
    pub kernel_version: String,
    pub hostname: String,
    pub cpu_brand: String,
    pub cpu_cores: usize,
    pub total_memory_mb: u64,
    pub total_swap_mb: u64,
}

/// A reported value, or `Unknown`.
pub open spec fn or_unknown(v: Option<String>) -> Seq<char> {
    match v {
        Some(s) => s@,
        None => "Unknown"@,
    }
}

fn known(v: Option<String>) -> (r: String)
    ensures
        r@ == or_unknown(v),
{
    match v {
        Some(s) => s,
        None => String::from_str("Unknown"),
    }
}

impl SystemInfo {
    /// The system information from what the platform reports: names default to `Unknown`, the
    /// CPU brand is the first CPU's (`Unknown CPU` without CPUs), memory is in whole MiB.
    pub fn from_probe(
        os_name: Option<String>,
        os_version: Option<String>,
        kernel_version: Option<String>,
        hostname: Option<String>,
        cpu_brands: Vec<String>,
        total_memory_bytes: u64,
        total_swap_bytes: u64,
    ) -> (r: Self)
        ensures
            r.os_name@ == or_unknown(os_name),
            r.os_version@ == or_unknown(os_version),
            r.kernel_version@ == or_unknown(kernel_version),
            r.hostname@ == or_unknown(hostname),
            r.cpu_cores == cpu_brands@.len(),
            cpu_brands@.len() > 0 ==> r.cpu_brand@ == cpu_brands@[0]@,
            cpu_brands@.len() == 0 ==> r.cpu_brand@ == "Unknown CPU"@,
            r.total_memory_mb == total_memory_bytes / 1048576,
            r.total_swap_mb == total_swap_bytes / 1048576,
    {
        let cores = cpu_brands.len();
        let brand = if cpu_brands.len() > 0 {
            cpu_brands[0].clone()
        } else {
            String::from_str("Unknown CPU")
        };
        SystemInfo {
            os_name: known(os_name),
            os_version: known(os_version),
            kernel_version: known(kernel_version),
            hostname: known(hostname),
            cpu_brand: brand,
            cpu_cores: cores,
            total_memory_mb: total_memory_bytes / (1024 * 1024),
            total_swap_mb: total_swap_bytes / (1024 * 1024),
        }
    }
}

/// Whether a process belongs to a model runtime: its lower-cased name mentions ollama, llama,
/// python, torch, cuda or transformers.
pub open spec fn is_model_process_name(name: Seq<char>) -> bool {
    let n = lowercase(name);
    contains_seq(n, "ollama"@) || contains_seq(n, "llama"@) || contains_seq(n, "python"@)
        || contains_seq(n, "torch"@) || contains_seq(n, "cuda"@) || contains_seq(
        n,
        "transformers"@,
    )
}

/// Whether a process belongs to a model runtime (see `is_model_process_name`).
pub fn is_model_process(name: &str) -> (r: bool)
    ensures
        r == is_model_process_name(name@),
{
    let lower = to_lowercase(name);
    let n = lower.as_str();
    contains(n, "ollama") || contains(n, "llama") || contains(n, "python") || contains(n, "torch")
        || contains(n, "cuda") || contains(n, "transformers")
}

/// The sectors read and written on one `/proc/diskstats` line: counted for physical disks
/// (`sd*`, `nvme*`, `vd*`, `hd*`; never `loop*` or `dm-*`) on lines of at least fourteen
/// fields, taken from fields six and ten (zero where they do not parse).
pub open spec fn line_sectors(words: Seq<Seq<char>>) -> (nat, nat) {
    if words.len() >= 14 {
        let name = words[2];
        if has_prefix(name, "loop"@) || has_prefix(name, "dm-"@) {
            (0, 0)
        } else if has_prefix(name, "sd"@) || has_prefix(name, "nvme"@) || has_prefix(name, "vd"@)
            || has_prefix(name, "hd"@) {
            (
                match parsed_u64(words[5]) {
                    Some(v) => v as nat,
                    None => 0,
                },
                match parsed_u64(words[9]) {
                    Some(v) => v as nat,
                    None => 0,
                },
            )
        } else {
            (0, 0)
        }
    } else {
        (0, 0)
    }
}

/// The sectors read and written over all lines.
pub open spec fn sector_totals(ls: Seq<Seq<char>>) -> (nat, nat)
    decreases ls.len(),
{
    if ls.len() == 0 {
        (0, 0)
    } else {
        let prev = sector_totals(ls.drop_last());
        let cur = line_sectors(words_of(ls.last()));
        (prev.0 + cur.0, prev.1 + cur.1)
    }
}

proof fn lemma_sector_totals_grow(ls: Seq<Seq<char>>, i: int)
    requires
        0 <= i <= ls.len(),
    ensures
        sector_totals(ls.subrange(0, i)).0 <= sector_totals(ls).0,
        sector_totals(ls.subrange(0, i)).1 <= sector_totals(ls).1,
    decreases ls.len() - i,
{
    if i < ls.len() {
        lemma_sector_totals_grow(ls, i + 1);
        assert(ls.subrange(0, i + 1).drop_last() =~= ls.subrange(0, i));
    } else {
        assert(ls.subrange(0, i) =~= ls);
    }
}

/// The bytes read and written by physical disks since boot, from the text of
/// `/proc/diskstats` (512-byte sectors).
pub fn disk_totals_from_diskstats(content: &str) -> (r: (u64, u64))
    requires
        sector_totals(lines_of(content@)).0 * 512 <= u64::MAX,
        sector_totals(lines_of(content@)).1 * 512 <= u64::MAX,
    ensures
        r.0 == sector_totals(lines_of(content@)).0 * 512,
        r.1 == sector_totals(lines_of(content@)).1 * 512,
{
    let ls = lines(content);
    let ghost all = lines_of(content@);
    let mut read: u64 = 0;
    let mut written: u64 = 0;
    let mut i: usize = 0;
    while i < ls.len()
        invariant
            i <= ls@.len(),
            ls@.len() == all.len(),
            forall|k: int| 0 <= k < ls@.len() ==> (#[trigger] ls@[k])@ == all[k],
            sector_totals(all).0 * 512 <= u64::MAX,
            sector_totals(all).1 * 512 <= u64::MAX,
            read == sector_totals(all.subrange(0, i as int)).0,
            written == sector_totals(all.subrange(0, i as int)).1,
        decreases ls.len() - i,
    {
        let parts = split_whitespace(ls[i].as_str());
        proof {
            assert(all.subrange(0, i + 1).drop_last() =~= all.subrange(0, i as int));
            assert(all.subrange(0, i + 1).last() == all[i as int]);
            lemma_sector_totals_grow(all, i + 1);
        }
        let mut r_add: u64 = 0;
        let mut w_add: u64 = 0;
        if parts.len() >= 14 {
            let name = parts[2].as_str();
            if starts_with(name, "loop") || starts_with(name, "dm-") {
            } else if starts_with(name, "sd") || starts_with(name, "nvme") || starts_with(name, "vd")
                || starts_with(name, "hd") {
                r_add = match parse_u64(parts[5].as_str()) {
                    Some(v) => v,
                    None => 0,
                };
                w_add = match parse_u64(parts[9].as_str()) {
                    Some(v) => v,
                    None => 0,
                };
            }
        }
        proof {
            let cur = line_sectors(words_of(all[i as int]));
            assert(r_add == cur.0 && w_add == cur.1);
        }
        read = read + r_add;
        written = written + w_add;
        i = i + 1;
    }
    proof {
        assert(all.subrange(0, i as int) =~= all);
    }
    (read * 512, written * 512)
}

/// What happens to one rate at an update.
#[derive(Clone, Copy, PartialEq, Eq, Debug, Structural)]
pub enum RateUpdate {
    /// The counter grew by this much: the rate is this over the elapsed time.
    Grew(u64),
    /// The rate becomes zero.
    Zero,
    /// The rate stays as it was (the counter went backwards).
    Keep,
}

/// The update of all four rates.
#[derive(Clone, Copy, PartialEq, Eq, Debug, Structural)]
pub struct IoRateStep {
    pub net_rx: RateUpdate,
    pub net_tx: RateUpdate,
    pub disk_read: RateUpdate,
    pub disk_write: RateUpdate,
}

/// The cumulative counters seen at the last update.
#[derive(Clone, Copy, PartialEq, Eq, Debug, Structural)]
pub struct IoCounters {
    pub last_net_rx: u64,
    pub last_net_tx: u64,
    pub last_disk_read: u64,
    pub last_disk_write: u64,
}

/// A network rate's update: the growth, or keep the rate when the counter went backwards.
pub open spec fn net_update(last: u64, cur: u64) -> RateUpdate {
    if cur >= last {
        RateUpdate::Grew((cur - last) as u64)
    } else {
        RateUpdate::Keep
    }
}

impl IoCounters {
    /// The counters first seen.
    pub fn new(net_rx: u64, net_tx: u64, disk_read: u64, disk_write: u64) -> (r: Self)
        ensures
            r == (IoCounters { last_net_rx: net_rx, last_net_tx: net_tx, last_disk_read: disk_read, last_disk_write: disk_write }),
    {
        IoCounters { last_net_rx: net_rx, last_net_tx: net_tx, last_disk_read: disk_read, last_disk_write: disk_write }
    }

    /// One update from the current counters, when enough time has passed since the last
    /// (otherwise nothing changes). Disk counters that are still all zero keep the disk rates
    /// at zero; the first non-zero disk counters are only recorded; after that, rates follow
    /// the growth, and a counter that went backwards is recorded and keeps its rate.
    pub fn update(&mut self, enough_time: bool, net_rx: u64, net_tx: u64, disk_read: u64, disk_write: u64) -> (r: Option<IoRateStep>)
        ensures
            !enough_time ==> r is None && *final(self) == *old(self),
            enough_time ==> ({
                let o = *old(self);
                let disk_idle = o.last_disk_read == 0 && o.last_disk_write == 0;
                &&& r matches Some(step) && step.net_rx == net_update(o.last_net_rx, net_rx)
                    && step.net_tx == net_update(o.last_net_tx, net_tx)
                    && (disk_idle ==> step.disk_read == RateUpdate::Zero && step.disk_write == RateUpdate::Zero)
                    && (!disk_idle ==> step.disk_read == net_update(o.last_disk_read, disk_read)
                        && step.disk_write == net_update(o.last_disk_write, disk_write))
                &&& final(self).last_net_rx == net_rx
                &&& final(self).last_net_tx == net_tx
                &&& (disk_idle && disk_read == 0 && disk_write == 0) ==> (final(self).last_disk_read == 0 && final(self).last_disk_write == 0)
                &&& !(disk_idle && disk_read == 0 && disk_write == 0) ==> (final(self).last_disk_read == disk_read
                    && final(self).last_disk_write == disk_write)
            }),
    {
        if !enough_time {
            return None;
        }
        let nrx = if net_rx >= self.last_net_rx { RateUpdate::Grew(net_rx - self.last_net_rx) } else { RateUpdate::Keep };
        let ntx = if net_tx >= self.last_net_tx { RateUpdate::Grew(net_tx - self.last_net_tx) } else { RateUpdate::Keep };
        let (dr, dw) = if self.last_disk_read == 0 && self.last_disk_write == 0 {
            if disk_read != 0 || disk_write != 0 {
                self.last_disk_read = disk_read;
                self.last_disk_write = disk_write;
            }
            (RateUpdate::Zero, RateUpdate::Zero)
        } else {
            let dr = if disk_read >= self.last_disk_read {
                RateUpdate::Grew(disk_read - self.last_disk_read)
            } else {
                RateUpdate::Keep
            };
            let dw = if disk_write >= self.last_disk_write {
                RateUpdate::Grew(disk_write - self.last_disk_write)
            } else {
                RateUpdate::Keep
            };
            self.last_disk_read = disk_read;
            self.last_disk_write = disk_write;
            (dr, dw)
        };
        self.last_net_rx = net_rx;
        self.last_net_tx = net_tx;
        Some(IoRateStep { net_rx: nrx, net_tx: ntx, disk_read: dr, disk_write: dw })
    }
}

/// The bytes received and sent over all interfaces, from each interface's counters.
pub open spec fn traffic_totals(c: Seq<(u64, u64)>) -> (nat, nat)
    decreases c.len(),
{
    if c.len() == 0 {
        (0, 0)
    } else {
        let prev = traffic_totals(c.drop_last());
        (prev.0 + c.last().0 as nat, prev.1 + c.last().1 as nat)
    }
}

proof fn lemma_traffic_totals_grow(c: Seq<(u64, u64)>, i: int)
    requires
        0 <= i <= c.len(),
    ensures
        traffic_totals(c.subrange(0, i)).0 <= traffic_totals(c).0,
        traffic_totals(c.subrange(0, i)).1 <= traffic_totals(c).1,
    decreases c.len() - i,
{
    if i < c.len() {
        lemma_traffic_totals_grow(c, i + 1);
        assert(c.subrange(0, i + 1).drop_last() =~= c.subrange(0, i));
    } else {
        assert(c.subrange(0, i) =~= c);
    }
}

/// The bytes received and sent over all interfaces (see `traffic_totals`).
pub fn network_totals(counters: &Vec<(u64, u64)>) -> (r: (u64, u64))
    requires
        traffic_totals(counters@).0 <= u64::MAX,
        traffic_totals(counters@).1 <= u64::MAX,
    ensures
        r.0 == traffic_totals(counters@).0,
        r.1 == traffic_totals(counters@).1,
{
    let mut rx: u64 = 0;
    let mut tx: u64 = 0;
    let mut i: usize = 0;
    while i < counters.len()
        invariant
            i <= counters@.len(),
            traffic_totals(counters@).0 <= u64::MAX,
            traffic_totals(counters@).1 <= u64::MAX,
            rx == traffic_totals(counters@.subrange(0, i as int)).0,
            tx == traffic_totals(counters@.subrange(0, i as int)).1,
        decreases counters.len() - i,
    {
        proof {
            lemma_traffic_totals_grow(counters@, i + 1);
            assert(counters@.subrange(0, i + 1).drop_last() =~= counters@.subrange(0, i as int));
        }
        rx = rx + counters[i].0;
        tx = tx + counters[i].1;
        i = i + 1;
    }
    proof {
        assert(counters@.subrange(0, i as int) =~= counters@);
    }
    (rx, tx)
}

} // verus!
