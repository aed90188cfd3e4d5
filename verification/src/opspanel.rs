//! The operations panel: the user's thresholds, which operation is selected, how a
//! run of it is prepared from the panel's state and reported, when a run may start,
//! and the arrays a machine-state record is made of.

use vstd::prelude::*;
use std::collections::HashMap;
use crate::text::str_eq;
use crate::procedure::{OpError, OpMessage, map_get_or};
use crate::operations::Operations;

verus! {

broadcast use vstd::std_specs::hash::group_hash_axioms;

/// The operations the panel can run on the Z steppers.
#[derive(Clone, Copy, Debug, PartialEq, Eq, Structural)]
pub enum OperationKind {
    ZCalibrate,
    ZAdjust,
    BumpCheck,
}

/// The operation a name selects.
pub open spec fn kind_named(name: Seq<char>) -> Option<OperationKind> {
    if name == "z_calibrate"@ {
        Some(OperationKind::ZCalibrate)
    } else if name == "z_adjust"@ {
        Some(OperationKind::ZAdjust)
    } else if name == "bump_check"@ {
        Some(OperationKind::BumpCheck)
    } else {
        None
    }
}

impl OperationKind {
    /// The operation named `z_calibrate`, `z_adjust` or `bump_check`.
    pub fn from_name(name: &str) -> (r: Option<OperationKind>)
        ensures
            r == kind_named(name@),
    {
        if str_eq(name, "z_calibrate") {
            Some(OperationKind::ZCalibrate)
        } else if str_eq(name, "z_adjust") {
            Some(OperationKind::ZAdjust)
        } else if str_eq(name, "bump_check") {
            Some(OperationKind::BumpCheck)
        } else {
            None
        }
    }
}

/// The user's per-string ranges.
#[derive(Clone, Debug)]
pub struct Thresholds {
    pub voice_count_min: Vec<i32>,
    pub voice_count_max: Vec<i32>,
    pub amp_sum_min: Vec<i32>,
    pub amp_sum_max: Vec<i32>,
}

/// The voice-count cap for a number of partials per channel (at least 1).
pub open spec fn voice_cap(partials_per_channel: int) -> int {
    if partials_per_channel < 1 { 1 } else { partials_per_channel }
}

impl Thresholds {
    /// The starting ranges: voice counts from `min(2, cap)` to the cap, amplitude sums from 20 to 250.
    pub fn new(string_num: usize, partials_per_channel: i32) -> (r: Self)
        ensures
            r.voice_count_min@ == Seq::new(string_num as nat, |i: int| (if voice_cap(partials_per_channel as int) < 2 { voice_cap(partials_per_channel as int) } else { 2 }) as i32),
            r.voice_count_max@ == Seq::new(string_num as nat, |i: int| voice_cap(partials_per_channel as int) as i32),
            r.amp_sum_min@ == Seq::new(string_num as nat, |i: int| 20i32),
            r.amp_sum_max@ == Seq::new(string_num as nat, |i: int| 250i32),
    {
        let cap: i32 = if partials_per_channel < 1 { 1 } else { partials_per_channel };
        let lo: i32 = if cap < 2 { cap } else { 2 };
        let mut a: Vec<i32> = Vec::new();
        let mut b: Vec<i32> = Vec::new();
        let mut c: Vec<i32> = Vec::new();
        let mut d: Vec<i32> = Vec::new();
        let mut i: usize = 0;
        while i < string_num
            invariant
                i <= string_num,
                a@ == Seq::new(i as nat, |j: int| lo),
                b@ == Seq::new(i as nat, |j: int| cap),
                c@ == Seq::new(i as nat, |j: int| 20i32),
                d@ == Seq::new(i as nat, |j: int| 250i32),
            decreases string_num - i,
        {
            a.push(lo);
            b.push(cap);
            c.push(20);
            d.push(250);
            i = i + 1;
            assert(a@ =~= Seq::new(i as nat, |j: int| lo));
            assert(b@ =~= Seq::new(i as nat, |j: int| cap));
            assert(c@ =~= Seq::new(i as nat, |j: int| 20i32));
            assert(d@ =~= Seq::new(i as nat, |j: int| 250i32));
        }
        Thresholds { voice_count_min: a, voice_count_max: b, amp_sum_min: c, amp_sum_max: d }
    }

    /// Lowers the voice-count ranges to a new cap (at least 1): every maximum and minimum
    /// above the cap comes down to it, and a minimum above its string's maximum comes down to that.
    pub fn sync_voice_threshold_caps(&mut self, new_cap: i32)
        ensures
            ({
                let cap: i32 = if new_cap < 1 { 1 } else { new_cap };
                &&& final(self).voice_count_max@ == Seq::new(old(self).voice_count_max@.len(), |i: int|
                        if old(self).voice_count_max@[i] > cap { cap } else { old(self).voice_count_max@[i] })
                &&& final(self).voice_count_min@ == Seq::new(old(self).voice_count_min@.len(), |i: int| {
                        let m = if old(self).voice_count_min@[i] > cap { cap } else { old(self).voice_count_min@[i] };
                        if i < final(self).voice_count_max@.len() && m > final(self).voice_count_max@[i] { final(self).voice_count_max@[i] } else { m }
                    })
                &&& final(self).amp_sum_min == old(self).amp_sum_min
                &&& final(self).amp_sum_max == old(self).amp_sum_max
            }),
    {
        let cap: i32 = if new_cap < 1 { 1 } else { new_cap };
        let ghost old_max = self.voice_count_max@;
        let ghost old_min = self.voice_count_min@;
        let mut i: usize = 0;
        while i < self.voice_count_max.len()
            invariant
                i <= self.voice_count_max@.len(),
                self.voice_count_max@.len() == old_max.len(),
                self.voice_count_min@ == old_min,
                self.amp_sum_min == old(self).amp_sum_min,
                self.amp_sum_max == old(self).amp_sum_max,
                forall|j: int| 0 <= j < old_max.len() ==> #[trigger] self.voice_count_max@[j] ==
                    if j < i { if old_max[j] > cap { cap } else { old_max[j] } } else { old_max[j] },
            decreases old_max.len() - i,
        {
            if self.voice_count_max[i] > cap {
                self.voice_count_max.set(i, cap);
            }
            i = i + 1;
        }
        let ghost new_max = self.voice_count_max@;
        let mut k: usize = 0;
        while k < self.voice_count_min.len()
            invariant
                k <= self.voice_count_min@.len(),
                self.voice_count_min@.len() == old_min.len(),
                self.voice_count_max@ == new_max,
                self.amp_sum_min == old(self).amp_sum_min,
                self.amp_sum_max == old(self).amp_sum_max,
                forall|j: int| 0 <= j < old_min.len() ==> #[trigger] self.voice_count_min@[j] == if j < k {
                    let m = if old_min[j] > cap { cap } else { old_min[j] };
                    if j < new_max.len() && m > new_max[j] { new_max[j] } else { m }
                } else { old_min[j] },
            decreases old_min.len() - k,
        {
            let mut m = self.voice_count_min[k];
            if m > cap {
                m = cap;
            }
            if k < self.voice_count_max.len() && m > self.voice_count_max[k] {
                m = self.voice_count_max[k];
            }
            self.voice_count_min.set(k, m);
            k = k + 1;
        }
        assert(self.voice_count_max@ =~= Seq::new(old_max.len(), |i: int| if old_max[i] > cap { cap } else { old_max[i] }));
        assert(self.voice_count_min@ =~= Seq::new(old_min.len(), |i: int| {
            let m = if old_min[i] > cap { cap } else { old_min[i] };
            if i < new_max.len() && m > new_max[i] { new_max[i] } else { m }
        }));
    }
}

/// `s` extended to length `n` with `d` (unchanged when already that long).
pub open spec fn padded(s: Seq<i32>, n: int, d: i32) -> Seq<i32> {
    if s.len() >= n { s } else { s + Seq::new((n - s.len()) as nat, |i: int| d) }
}

/// `v` limited to `[lo, hi]`.
pub open spec fn limited(v: i32, lo: i32, hi: i32) -> i32 {
    if v < lo { lo } else if v > hi { hi } else { v }
}

/// Extends `v` to at least `n` entries with `d`.
fn pad(v: &mut Vec<i32>, n: usize, d: i32)
    ensures
        final(v)@ == padded(old(v)@, n as int, d),
{
    let ghost start = v@;
    if v.len() >= n {
        return;
    }
    while v.len() < n
        invariant
            start.len() <= v@.len() <= n,
            v@ == start + Seq::new((v@.len() - start.len()) as nat, |i: int| d),
        decreases n - v@.len(),
    {
        v.push(d);
        assert(v@ =~= start + Seq::new((v@.len() - start.len()) as nat, |i: int| d));
    }
}

impl Thresholds {
    /// Sets the voice-count range of string `ch` as the panel's entry does: both bounds
    /// limited to `0..=cap` (the cap being the partials per channel, at least 1), the
    /// minimum lowered to the maximum when above it; the lists are first extended to the
    /// string with the defaults (the cap, and `min(2, cap)`).
    pub fn set_voice_range(&mut self, ch: usize, min: i32, max: i32, partials_per_channel: i32)
        requires
            ch < usize::MAX,
        ensures
            ({
                let cap = voice_cap(partials_per_channel as int) as i32;
                let hi = limited(max, 0, cap);
                let lo0 = limited(min, 0, cap);
                let lo = if lo0 > hi { hi } else { lo0 };
                &&& final(self).voice_count_max@ == padded(old(self).voice_count_max@, ch + 1, cap).update(ch as int, hi)
                &&& final(self).voice_count_min@ == padded(old(self).voice_count_min@, ch + 1, if cap < 2 { cap } else { 2i32 }).update(ch as int, lo)
                &&& final(self).amp_sum_min == old(self).amp_sum_min
                &&& final(self).amp_sum_max == old(self).amp_sum_max
            }),
    {
        let cap: i32 = if partials_per_channel < 1 { 1 } else { partials_per_channel };
        let lo_default: i32 = if cap < 2 { cap } else { 2 };
        pad(&mut self.voice_count_max, ch + 1, cap);
        pad(&mut self.voice_count_min, ch + 1, lo_default);
        let hi: i32 = if max < 0 { 0 } else if max > cap { cap } else { max };
        let lo0: i32 = if min < 0 { 0 } else if min > cap { cap } else { min };
        let lo: i32 = if lo0 > hi { hi } else { lo0 };
        self.voice_count_max.set(ch, hi);
        self.voice_count_min.set(ch, lo);
    }

    /// Sets the amplitude-sum range of string `ch` as the panel's entry does: both bounds
    /// limited to `0..=250`; the lists are first extended to the string with the defaults
    /// (250 and 20).
    pub fn set_amp_range(&mut self, ch: usize, min: i32, max: i32)
        requires
            ch < usize::MAX,
        ensures
            final(self).amp_sum_max@ == padded(old(self).amp_sum_max@, ch + 1, 250).update(ch as int, limited(max, 0, 250)),
            final(self).amp_sum_min@ == padded(old(self).amp_sum_min@, ch + 1, 20).update(ch as int, limited(min, 0, 250)),
            final(self).voice_count_min == old(self).voice_count_min,
            final(self).voice_count_max == old(self).voice_count_max,
    {
        pad(&mut self.amp_sum_max, ch + 1, 250);
        pad(&mut self.amp_sum_min, ch + 1, 20);
        let hi: i32 = if max < 0 { 0 } else if max > 250 { 250 } else { max };
        let lo: i32 = if min < 0 { 0 } else if min > 250 { 250 } else { min };
        self.amp_sum_max.set(ch, hi);
        self.amp_sum_min.set(ch, lo);
    }
}

/// What a run of an operation starts from.
#[derive(Debug)]
pub struct OperationPlan {
    pub kind: OperationKind,
    pub positions: Vec<i32>,
    pub max_positions: HashMap<usize, i32>,
    pub min_voices: Vec<usize>,
    pub max_voices: Vec<usize>,
}

/// Why a run cannot start.
#[derive(Clone, Copy, Debug, PartialEq, Eq, Structural)]
pub enum PlanError {
    /// No Z steppers are configured.
    NoZSteppers,
    /// The selected name is no operation.
    NothingSelected,
}

/// The largest Z index (0 for none).
pub open spec fn max_of(s: Seq<usize>) -> usize
    decreases s.len(),
{
    if s.len() == 0 {
        0
    } else {
        let m = max_of(s.drop_last());
        if s.last() > m { s.last() } else { m }
    }
}

/// A threshold as a count: negative values count as 0.
pub open spec fn as_count(v: i32) -> usize {
    if v < 0 { 0 } else { v as usize }
}

fn counts_of(v: &Vec<i32>) -> (r: Vec<usize>)
    ensures
        r@ == Seq::new(v@.len(), |i: int| as_count(v@[i])),
{
    let mut out: Vec<usize> = Vec::new();
    let mut i: usize = 0;
    while i < v.len()
        invariant
            i <= v@.len(),
            out@ == Seq::new(i as nat, |j: int| as_count(v@[j])),
        decreases v@.len() - i,
    {
        out.push(if v[i] < 0 { 0 } else { v[i] as usize });
        i = i + 1;
        assert(out@ =~= Seq::new(i as nat, |j: int| as_count(v@[j])));
    }
    out
}

proof fn lemma_max_of_bound(s: Seq<usize>, i: int)
    requires
        0 <= i < s.len(),
    ensures
        s[i] <= max_of(s),
    decreases s.len(),
{
    if i < s.len() - 1 {
        lemma_max_of_bound(s.drop_last(), i);
    }
}

/// Prepares a run: the positions list reaches the largest Z index and holds each Z
/// stepper's last known position (0 when unknown), every Z stepper's maximum is 100,
/// and the voice-count ranges are the thresholds as counts.
pub fn plan_operation(
    name: &str,
    z_indices: &Vec<usize>,
    known_positions: &HashMap<usize, i32>,
    thresholds: &Thresholds,
) -> (r: Result<OperationPlan, PlanError>)
    requires
        max_of(z_indices@) < usize::MAX,
    ensures
        z_indices@.len() == 0 ==> r == Err::<OperationPlan, PlanError>(PlanError::NoZSteppers),
        z_indices@.len() > 0 && kind_named(name@) is None ==> r == Err::<OperationPlan, PlanError>(PlanError::NothingSelected),
        z_indices@.len() > 0 && kind_named(name@) is Some ==> (r matches Ok(p) && {
            &&& p.kind == kind_named(name@)->0
            &&& p.positions@.len() == max_of(z_indices@) + 1
            &&& forall|i: int| 0 <= i < p.positions@.len() ==> #[trigger] p.positions@[i] ==
                    if z_indices@.contains(i as usize) { map_get_or(known_positions@, i as usize, 0i32) } else { 0i32 }
            &&& p.max_positions@ == Map::new(|i: usize| z_indices@.contains(i), |i: usize| 100i32)
            &&& p.min_voices@ == Seq::new(thresholds.voice_count_min@.len(), |i: int| as_count(thresholds.voice_count_min@[i]))
            &&& p.max_voices@ == Seq::new(thresholds.voice_count_max@.len(), |i: int| as_count(thresholds.voice_count_max@[i]))
        }),
{
    if z_indices.len() == 0 {
        return Err(PlanError::NoZSteppers);
    }
    let kind = match OperationKind::from_name(name) {
        Some(k) => k,
        None => { return Err(PlanError::NothingSelected); },
    };
    let mut max_idx: usize = 0;
    let mut j: usize = 0;
    while j < z_indices.len()
        invariant
            j <= z_indices@.len(),
            max_idx == max_of(z_indices@.take(j as int)),
        decreases z_indices@.len() - j,
    {
        assert(z_indices@.take(j + 1).drop_last() =~= z_indices@.take(j as int));
        if z_indices[j] > max_idx {
            max_idx = z_indices[j];
        }
        j = j + 1;
    }
    assert(z_indices@.take(j as int) =~= z_indices@);
    let mut positions: Vec<i32> = Vec::new();
    let mut k: usize = 0;
    while k <= max_idx
        invariant
            max_idx < usize::MAX,
            k <= max_idx + 1,
            positions@ == Seq::new(k as nat, |x: int| 0i32),
        decreases max_idx + 1 - k,
    {
        positions.push(0);
        k = k + 1;
        assert(positions@ =~= Seq::new(k as nat, |x: int| 0i32));
    }
    let mut max_positions: HashMap<usize, i32> = HashMap::new();
    let mut e: usize = 0;
    while e < z_indices.len()
        invariant
            e <= z_indices@.len(),
            max_idx == max_of(z_indices@),
            positions@.len() == max_idx + 1,
            forall|i: int| 0 <= i < positions@.len() ==> #[trigger] positions@[i] ==
                if z_indices@.take(e as int).contains(i as usize) { map_get_or(known_positions@, i as usize, 0i32) } else { 0i32 },
            max_positions@ == Map::new(|i: usize| z_indices@.take(e as int).contains(i), |i: usize| 100i32),
        decreases z_indices@.len() - e,
    {
        let idx = z_indices[e];
        proof { lemma_max_of_bound(z_indices@, e as int); }
        let v: i32 = match known_positions.get(&idx) { Some(p) => *p, None => 0 };
        positions.set(idx, v);
        max_positions.insert(idx, 100);
        let ghost prev = z_indices@.take(e as int);
        assert(z_indices@.take(e + 1) =~= prev.push(idx));
        assert forall|x: usize| prev.push(idx).contains(x) <==> (prev.contains(x) || x == idx) by {
            if prev.push(idx).contains(x) && x != idx {
                let w = choose|w: int| 0 <= w < prev.push(idx).len() && prev.push(idx)[w] == x;
                assert(prev[w] == x);
            }
            if x == idx {
                assert(prev.push(idx)[prev.len() as int] == idx);
            }
            if prev.contains(x) {
                let w = choose|w: int| 0 <= w < prev.len() && prev[w] == x;
                assert(prev.push(idx)[w] == x);
            }
        }
        e = e + 1;
        assert(max_positions@ =~= Map::new(|i: usize| z_indices@.take(e as int).contains(i), |i: usize| 100i32));
    }
    assert(z_indices@.take(e as int) =~= z_indices@);
    let min_voices = counts_of(&thresholds.voice_count_min);
    let max_voices = counts_of(&thresholds.voice_count_max);
    Ok(OperationPlan { kind, positions, max_positions, min_voices, max_voices })
}

/// How a finished run is reported.
#[derive(Clone, Debug, PartialEq, Eq)]
pub enum RunReport {
    /// The run's messages.
    Messages(Vec<OpMessage>),
    /// A bump check that found nothing to do.
    NoBumps,
    /// A bump check that failed.
    BumpCheckError(OpError),
    /// Another operation that failed.
    Error(OpError),
}

/// The report of a finished run: a bump check without messages found no bumps; errors
/// are reported as the bump check's or as the operation's.
pub fn run_report(kind: OperationKind, result: Result<Vec<OpMessage>, OpError>) -> (r: RunReport)
    ensures
        match result {
            Ok(ms) => if kind == OperationKind::BumpCheck && ms@.len() == 0 {
                r == RunReport::NoBumps
            } else {
                r matches RunReport::Messages(m) && m@ == ms@
            },
            Err(e) => r == if kind == OperationKind::BumpCheck { RunReport::BumpCheckError(e) } else { RunReport::Error(e) },
        },
{
    match result {
        Ok(ms) => if kind == OperationKind::BumpCheck && ms.len() == 0 { RunReport::NoBumps } else { RunReport::Messages(ms) },
        Err(e) => if kind == OperationKind::BumpCheck { RunReport::BumpCheckError(e) } else { RunReport::Error(e) },
    }
}

/// What pressing "execute" does.
#[derive(Clone, Copy, Debug, PartialEq, Eq, Structural)]
pub enum ExecuteDecision {
    /// A run is in progress.
    AlreadyRunning,
    /// The previous run's result has not been taken yet.
    StillCompleting,
    /// No operation is selected.
    NothingSelected,
    /// Start the selected operation.
    Start,
}

/// Decides "execute": not while a run is in progress or its result is pending, and not
/// with the selection `None`.
pub fn execute_decision(running: bool, task_pending: bool, selected: &str) -> (r: ExecuteDecision)
    ensures
        r == if running { ExecuteDecision::AlreadyRunning }
            else if task_pending { ExecuteDecision::StillCompleting }
            else if selected@ == "None"@ { ExecuteDecision::NothingSelected }
            else { ExecuteDecision::Start },
{
    if running {
        ExecuteDecision::AlreadyRunning
    } else if task_pending {
        ExecuteDecision::StillCompleting
    } else if str_eq(selected, "None") {
        ExecuteDecision::NothingSelected
    } else {
        ExecuteDecision::Start
    }
}

/// Whether a finished run is repeated: repeat is on and the run is of the selected operation.
pub fn should_repeat(repeat_enabled: bool, selected: &str, finished: &str) -> (r: bool)
    ensures
        r == (repeat_enabled && selected@ == finished@),
{
    repeat_enabled && str_eq(selected, finished)
}

/// Whether a scheduled repeat starts now: one is pending, no run is in progress or
/// pending, and its wait is over.
pub fn repeat_due(pending: bool, running: bool, task_pending: bool, deadline_passed: bool) -> (r: bool)
    ensures
        r == (pending && !running && !task_pending && deadline_passed),
{
    pending && !running && !task_pending && deadline_passed
}

/// The positions and enable flags of a machine-state record: one entry per stepper, the
/// known position (0 when unknown), enabled only when the position is known and the stepper enabled.
pub fn snapshot_arrays(known_positions: &HashMap<usize, i32>, ops: &Operations, total_steppers: usize) -> (r: (Vec<i32>, Vec<bool>))
    ensures
        r.0@ == Seq::new(total_steppers as nat, |k: int| map_get_or(known_positions@, k as usize, 0i32)),
        r.1@ == Seq::new(total_steppers as nat, |k: int|
            known_positions@.contains_key(k as usize) && map_get_or(ops.stepper_enabled@, k as usize, false)),
{
    let mut pos: Vec<i32> = Vec::new();
    let mut en: Vec<bool> = Vec::new();
    let mut k: usize = 0;
    while k < total_steppers
        invariant
            k <= total_steppers,
            pos@ == Seq::new(k as nat, |j: int| map_get_or(known_positions@, j as usize, 0i32)),
            en@ == Seq::new(k as nat, |j: int| known_positions@.contains_key(j as usize) && map_get_or(ops.stepper_enabled@, j as usize, false)),
        decreases total_steppers - k,
    {
        match known_positions.get(&k) {
            Some(p) => {
                pos.push(*p);
                en.push(ops.get_stepper_enabled(k));
            },
            None => {
                pos.push(0);
                en.push(false);
            },
        }
        k = k + 1;
        assert(pos@ =~= Seq::new(k as nat, |j: int| map_get_or(known_positions@, j as usize, 0i32)));
        assert(en@ =~= Seq::new(k as nat, |j: int| known_positions@.contains_key(j as usize) && map_get_or(ops.stepper_enabled@, j as usize, false)));
    }
    (pos, en)
}

} // verus!
