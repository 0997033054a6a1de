//! GPU inventory from the graphics adapters, metric histories, and the polling switch.

use vstd::prelude::*;

verus! {

/// A GPU the application can report on.
#[derive(Clone, Debug)]
pub struct GpuInfo {
    pub id: u32,
    pub name: String,
    pub vendor: String,
    pub driver_version: String,
    pub memory_total_mb: u64,
    pub cuda_cores: Option<u32>,
    pub compute_capability: Option<String>,
}

/// A graphics adapter as the platform enumerates it.
#[derive(Clone, Debug)]
pub struct AdapterInfo {
    pub name: String,
    /// The PCI vendor id.
    pub vendor: u32,
    pub driver: String,
    /// Whether it is a software renderer on the CPU.
    pub is_cpu: bool,
}

/// The vendor name for a PCI vendor id.
pub open spec fn vendor_name_of(id: u32) -> Seq<char> {
    if id == 0x10DE {
        "NVIDIA"@
    } else if id == 0x1002 {
        "AMD"@
    } else if id == 0x8086 {
        "Intel"@
    } else if id == 0x106B {
        "Apple"@
    } else {
        "Unknown"@
    }
}

/// The vendor name for a PCI vendor id.
pub fn vendor_name(id: u32) -> (r: &'static str)
    ensures
        r@ == vendor_name_of(id),
{
    if id == 0x10DE {
        "NVIDIA"
    } else if id == 0x1002 {
        "AMD"
    } else if id == 0x8086 {
        "Intel"
    } else if id == 0x106B {
        "Apple"
    } else {
        "Unknown"
    }
}

/// The adapters that are GPUs (software renderers left out), each with its position in the
/// enumeration.
pub open spec fn hardware_adapters(adapters: Seq<AdapterInfo>) -> Seq<int>
    decreases adapters.len(),
{
    if adapters.len() == 0 {
        Seq::empty()
    } else if adapters.last().is_cpu {
        hardware_adapters(adapters.drop_last())
    } else {
        hardware_adapters(adapters.drop_last()).push(adapters.len() - 1)
    }
}

/// The GPUs among the enumerated adapters: each hardware adapter, with its position as id and
/// the vendor named from its PCI id (memory and CUDA details are not known this way).
pub fn detect_gpus(adapters: &Vec<AdapterInfo>) -> (r: Vec<GpuInfo>)
    requires
        adapters@.len() <= u32::MAX + 1,
    ensures
        r@.len() == hardware_adapters(adapters@).len(),
        forall|k: int|
            0 <= k < r@.len() ==> {
                let i = #[trigger] hardware_adapters(adapters@)[k];
                &&& 0 <= i < adapters@.len()
                &&& r@[k].id == i
                &&& r@[k].name@ == adapters@[i].name@
                &&& r@[k].vendor@ == vendor_name_of(adapters@[i].vendor)
                &&& r@[k].driver_version@ == adapters@[i].driver@
                &&& r@[k].memory_total_mb == 0
                &&& r@[k].cuda_cores is None
                &&& r@[k].compute_capability is None
            },
{
    let mut gpus: Vec<GpuInfo> = Vec::new();
    let mut i: usize = 0;
    while i < adapters.len()
        invariant
            i <= adapters@.len(),
            adapters@.len() <= u32::MAX + 1,
            gpus@.len() == hardware_adapters(adapters@.subrange(0, i as int)).len(),
            forall|k: int|
                0 <= k < gpus@.len() ==> {
                    let j = #[trigger] hardware_adapters(adapters@.subrange(0, i as int))[k];
                    &&& 0 <= j < i
                    &&& gpus@[k].id == j
                    &&& gpus@[k].name@ == adapters@[j].name@
                    &&& gpus@[k].vendor@ == vendor_name_of(adapters@[j].vendor)
                    &&& gpus@[k].driver_version@ == adapters@[j].driver@
                    &&& gpus@[k].memory_total_mb == 0
                    &&& gpus@[k].cuda_cores is None
                    &&& gpus@[k].compute_capability is None
                },
        decreases adapters.len() - i,
    {
        let a = &adapters[i];
        proof {
            assert(adapters@.subrange(0, i + 1).drop_last() =~= adapters@.subrange(0, i as int));
            assert(adapters@.subrange(0, i + 1).last() == adapters@[i as int]);
        }
        if !a.is_cpu {
            let g = GpuInfo {
                id: i as u32,
                name: a.name.clone(),
                vendor: String::from_str(vendor_name(a.vendor)),
                driver_version: a.driver.clone(),
                memory_total_mb: 0,
                cuda_cores: None,
                compute_capability: None,
            };
            gpus.push(g);
        }
        i = i + 1;
    }
    proof {
        assert(adapters@.subrange(0, i as int) =~= adapters@);
    }
    gpus
}

/// The last samples of a metric, at most `max_samples` of them.
#[derive(Clone, Debug)]
pub struct GpuMetricsHistory<T> {
    pub gpu_id: u32,
    pub samples: Vec<T>,
    pub max_samples: usize,
}

impl<T> GpuMetricsHistory<T> {
    /// An empty history for a GPU.
    pub fn new(gpu_id: u32, max_samples: usize) -> (r: Self)
        ensures
            r.gpu_id == gpu_id,
            r.samples@.len() == 0,
            r.max_samples == max_samples,
    {
        GpuMetricsHistory { gpu_id, samples: Vec::new(), max_samples }
    }

    /// Adds a sample, dropping the oldest when the history is full.
    pub fn push(&mut self, metrics: T)
        requires
            old(self).max_samples > 0 || old(self).samples@.len() > 0,
        ensures
            final(self).gpu_id == old(self).gpu_id,
            final(self).max_samples == old(self).max_samples,
            final(self).samples@ == if old(self).samples@.len() >= old(self).max_samples {
                old(self).samples@.drop_first().push(metrics)
            } else {
                old(self).samples@.push(metrics)
            },
    {
        if self.samples.len() >= self.max_samples {
            self.samples.remove(0);
        }
        self.samples.push(metrics);
    }
}

/// A history never holds more samples than its limit, and its newest sample is the one just
/// added.
pub proof fn lemma_history_bounded<T>(before: Seq<T>, max: nat, x: T)
    requires
        max > 0,
        before.len() <= max,
    ensures
        ({
            let after = if before.len() >= max {
                before.drop_first().push(x)
            } else {
                before.push(x)
            };
            after.len() <= max && after.last() == x
        }),
{
}

/// The samples after one is added to a history with room for `max`: the oldest dropped
/// when it is full.
pub open spec fn pushed_samples<T>(before: Seq<T>, max: nat, x: T) -> Seq<T> {
    if before.len() >= max {
        before.drop_first().push(x)
    } else {
        before.push(x)
    }
}

/// How many samples each polled GPU keeps: two minutes at one sample a second.
pub const HISTORY_SAMPLES: usize = 120;

/// A fresh history for each GPU, holding `HISTORY_SAMPLES` samples.
pub fn fresh_histories<T>(gpus: &Vec<GpuInfo>) -> (r: Vec<GpuMetricsHistory<T>>)
    ensures
        r@.len() == gpus@.len(),
        forall|k: int|
            0 <= k < r@.len() ==> (#[trigger] r@[k]).gpu_id == gpus@[k].id && r@[k].samples@.len()
                == 0 && r@[k].max_samples == HISTORY_SAMPLES,
{
    let mut out: Vec<GpuMetricsHistory<T>> = Vec::new();
    let mut i: usize = 0;
    while i < gpus.len()
        invariant
            i <= gpus@.len(),
            out@.len() == i,
            forall|k: int|
                0 <= k < i ==> (#[trigger] out@[k]).gpu_id == gpus@[k].id && out@[k].samples@.len()
                    == 0 && out@[k].max_samples == HISTORY_SAMPLES,
        decreases gpus.len() - i,
    {
        out.push(GpuMetricsHistory::new(gpus[i].id, HISTORY_SAMPLES));
        i = i + 1;
    }
    out
}

/// Adds a sample to the first history of GPU `gpu_id`, leaving the others as they are; nothing
/// changes when no history is of that GPU.
pub fn record_sample<T>(histories: &mut Vec<GpuMetricsHistory<T>>, gpu_id: u32, metrics: T)
    requires
        forall|k: int| 0 <= k < old(histories)@.len() ==> (#[trigger] old(histories)@[k]).max_samples > 0,
    ensures
        final(histories)@.len() == old(histories)@.len(),
        (forall|k: int| 0 <= k < old(histories)@.len() ==> (#[trigger] old(histories)@[k]).gpu_id != gpu_id)
            ==> final(histories)@ == old(histories)@,
        forall|i: int|
            0 <= i < old(histories)@.len() && old(histories)@[i].gpu_id == gpu_id && (forall|j: int|
                0 <= j < i ==> (#[trigger] old(histories)@[j]).gpu_id != gpu_id) ==> {
                &&& final(histories)@[i].gpu_id == gpu_id
                &&& final(histories)@[i].max_samples == old(histories)@[i].max_samples
                &&& final(histories)@[i].samples@ == pushed_samples(
                    old(histories)@[i].samples@,
                    old(histories)@[i].max_samples as nat,
                    metrics,
                )
                &&& forall|k: int|
                    0 <= k < old(histories)@.len() && k != i ==> #[trigger] final(histories)@[k]
                        == old(histories)@[k]
            },
{
    let mut i: usize = 0;
    while i < histories.len()
        invariant
            i <= histories@.len(),
            histories@ == old(histories)@,
            forall|k: int| 0 <= k < histories@.len() ==> (#[trigger] histories@[k]).max_samples > 0,
            forall|j: int| 0 <= j < i ==> (#[trigger] histories@[j]).gpu_id != gpu_id,
        decreases histories.len() - i,
    {
        if histories[i].gpu_id == gpu_id {
            let ghost before = histories@;
            let mut h = histories.remove(i);
            assert(h.max_samples > 0);
            h.push(metrics);
            histories.insert(i, h);
            proof {
                assert forall|k: int| 0 <= k < before.len() && k != i implies #[trigger] histories@[k]
                    == before[k] by {
                    if k < i {
                        assert(histories@[k] == before.remove(i as int)[k]);
                    } else {
                        assert(histories@[k] == before.remove(i as int)[k - 1]);
                    }
                }
                assert forall|i2: int|
                    0 <= i2 < before.len() && before[i2].gpu_id == gpu_id && (forall|j: int|
                        0 <= j < i2 ==> (#[trigger] before[j]).gpu_id != gpu_id) implies i2 == i by {
                    if i2 < i {
                    } else if i2 > i {
                        assert(before[i as int].gpu_id == gpu_id);
                    }
                }
            }
            return;
        }
        i = i + 1;
    }
}

/// Whether metrics are being polled.
pub struct PollingState {
    active: bool,
}

impl PollingState {
    /// Whether polling is on.
    pub closed spec fn is_active(&self) -> bool {
        self.active
    }

    /// Polling off.
    pub fn new() -> (r: Self)
        ensures
            !r.is_active(),
    {
        PollingState { active: false }
    }

    /// Turns polling on; false when it already was (and nothing is to be started).
    pub fn start(&mut self) -> (r: bool)
        ensures
            final(self).is_active(),
            r == !old(self).is_active(),
    {
        let was = self.active;
        self.active = true;
        !was
    }

    /// Whether the polling loop goes on.
    pub fn should_continue(&self) -> (r: bool)
        ensures
            r == self.is_active(),
    {
        self.active
    }
}

/// Stops metrics polling (the polling loop ends at its next check).
pub fn stop_metrics_polling(state: &mut PollingState)
    ensures
        !final(state).is_active(),
{
    state.active = false;
}

} // verus!
