//! CPU frequency throttling and per-process efficiency mode.
use vstd::prelude::*;

verus! {

/// Why the CPU runs below its top frequency.
#[derive(Debug, Clone, Copy, PartialEq, Eq, Structural)]
pub enum ThrottleReason {
    /// Not throttled.
    NotThrottled,
    Thermal,
    PowerPolicy,
    Idle,
    Unknown,
}

/// Frequencies of one core, in MHz, as the platform reports them.
pub trait CorePowerInfo {
    fn max_mhz(&self) -> u32;

    fn current_mhz(&self) -> u32;

    fn mhz_limit(&self) -> u32;
}

/// The integer part of a throttling report: top frequency, mean current
/// frequency, frequency limit, and whether the limit holds the CPU below
/// its top.
#[derive(Debug, Clone, Copy, PartialEq, Eq, Structural)]
pub struct ThrottleSummary {
    pub max_mhz: u32,
    pub current_mhz: u32,
    pub mhz_limit: u32,
    pub is_throttled: bool,
}

pub open spec fn max_of(cores: Seq<(u32, u32, u32)>) -> u32
    decreases cores.len(),
{
    if cores.len() == 0 {
        0
    } else {
        let m = max_of(cores.drop_last());
        if cores.last().0 > m {
            cores.last().0
        } else {
            m
        }
    }
}

pub open spec fn sum_current(cores: Seq<(u32, u32, u32)>) -> nat
    decreases cores.len(),
{
    if cores.len() == 0 {
        0
    } else {
        (sum_current(cores.drop_last()) + cores.last().1) as nat
    }
}

pub open spec fn min_limit(cores: Seq<(u32, u32, u32)>) -> u32
    decreases cores.len(),
{
    if cores.len() <= 1 {
        if cores.len() == 1 {
            cores[0].2
        } else {
            0
        }
    } else {
        let m = min_limit(cores.drop_last());
        if cores.last().2 < m {
            cores.last().2
        } else {
            m
        }
    }
}

/// The summary of per-core `(max, current, limit)` frequencies: the
/// highest top frequency, the mean current frequency (rounded down) and the
/// lowest limit; throttled when that limit is positive and below the top.
pub open spec fn throttle_summary_of(cores: Seq<(u32, u32, u32)>) -> ThrottleSummary {
    let max = max_of(cores);
    let limit = min_limit(cores);
    ThrottleSummary {
        max_mhz: max,
        current_mhz: (sum_current(cores) / cores.len()) as u32,
        mhz_limit: limit,
        is_throttled: limit > 0 && limit < max,
    }
}

/// Summarises per-core `(max, current, limit)` frequencies; `None` without
/// cores.  (The sum of the current frequencies must fit in a `u32`, as the
/// platform's own reports do.)
pub fn detect_throttle_from_raw(cores: &[(u32, u32, u32)]) -> (r: Option<ThrottleSummary>)
    requires
        sum_current(cores@) <= u32::MAX,
    ensures
        cores@.len() == 0 ==> r.is_none(),
        cores@.len() > 0 ==> r == Some(throttle_summary_of(cores@)),
{
    if cores.len() == 0 {
        return None;
    }
    let mut max: u32 = 0;
    let mut sum: u32 = 0;
    let mut limit: u32 = cores[0].2;
    let mut i: usize = 0;
    while i < cores.len()
        invariant
            i <= cores.len(),
            cores.len() > 0,
            sum_current(cores@) <= u32::MAX,
            max == max_of(cores@.take(i as int)),
            sum == sum_current(cores@.take(i as int)),
            i > 0 ==> limit == min_limit(cores@.take(i as int)),
            i == 0 ==> limit == cores@[0].2,
        decreases cores.len() - i,
    {
        let ghost t = cores@.take(i + 1);
        assert(t.drop_last() =~= cores@.take(i as int));
        assert(t.last() == cores@[i as int]);
        proof {
            lemma_sum_prefix(cores@, i + 1);
        }
        let c = cores[i];
        if c.0 > max {
            max = c.0;
        }
        sum = sum + c.1;
        if i > 0 && c.2 < limit {
            limit = c.2;
        }
        if i == 0 {
            assert(t =~= seq![cores@[0]]);
        }
        i += 1;
    }
    assert(cores@.take(i as int) =~= cores@);
    let n: u64 = cores.len() as u64;
    let current: u32 = ((sum as u64) / n) as u32;
    assert((sum as u64) / n <= sum as u64) by (nonlinear_arith)
        requires
            n > 0,
    ;
    Some(ThrottleSummary { max_mhz: max, current_mhz: current, mhz_limit: limit, is_throttled: limit > 0 && limit < max })
}

proof fn lemma_sum_prefix(cores: Seq<(u32, u32, u32)>, k: int)
    requires
        0 <= k <= cores.len(),
    ensures
        sum_current(cores.take(k)) <= sum_current(cores),
    decreases cores.len(),
{
    if k < cores.len() {
        assert(cores.drop_last().take(k) =~= cores.take(k));
        lemma_sum_prefix(cores.drop_last(), k);
    } else {
        assert(cores.take(k) =~= cores);
    }
}

/// Whether a process runs in the platform's efficiency mode.
#[derive(Debug, Clone, Copy, PartialEq, Eq, Structural)]
pub enum EcoQoSState {
    Normal,
    Eco,
    Unknown,
}

impl Default for EcoQoSState {
    fn default() -> (s: EcoQoSState)
        ensures
            s == EcoQoSState::Normal,
    {
        EcoQoSState::Normal
    }
}

pub open spec fn eco_badge(s: EcoQoSState) -> Seq<char> {
    match s {
        EcoQoSState::Eco => " \u{1F343}"@,
        _ => ""@,
    }
}

pub open spec fn eco_label(s: EcoQoSState) -> Seq<char> {
    match s {
        EcoQoSState::Normal => "Normal"@,
        EcoQoSState::Eco => "Eco"@,
        EcoQoSState::Unknown => "Unknown"@,
    }
}

impl EcoQoSState {
    /// The badge shown after an efficiency-mode process: a leaf, or nothing.
    pub fn badge(self) -> (b: &'static str)
        ensures
            b@ == eco_badge(self),
    {
        match self {
            EcoQoSState::Eco => " \u{1F343}",
            EcoQoSState::Normal => "",
            EcoQoSState::Unknown => "",
        }
    }

    /// The name of the state.
    pub fn label(self) -> (l: &'static str)
        ensures
            l@ == eco_label(self),
    {
        match self {
            EcoQoSState::Normal => "Normal",
            EcoQoSState::Eco => "Eco",
            EcoQoSState::Unknown => "Unknown",
        }
    }
}

} // verus!
