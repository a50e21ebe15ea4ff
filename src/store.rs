//! The published toggle data: the current set, whether a load has succeeded,
//! and how reloads and evaluations act on it.
use vstd::prelude::*;
use crate::error::LoadError;
use crate::threshold::{
    is_nan, is_sample, lemma_large_threshold_accepts_every_sample,
    lemma_negative_threshold_rejects_every_sample, sign_bit, lemma_one_accepts_every_sample, lemma_zero_rejects_positive_samples, sample_at_most,
    sample_at_most_threshold, ONE_BITS, ZERO_BITS,
};
use crate::toggle_set::ToggleSet;

verus! {

/// Whether the toggle `name` is on for sample `k` under `thresholds`:
/// absent toggles are off.
pub open spec fn available(thresholds: Map<Seq<char>, u32>, name: Seq<char>, k: nat) -> bool {
    thresholds.contains_key(name) && sample_at_most(k, thresholds[name])
}

/// The mapping served after a reload whose outcome is `loaded` (`None`
/// where the load failed), where `before` was served.
pub open spec fn served_after(
    before: Map<Seq<char>, u32>,
    loaded: Option<Map<Seq<char>, u32>>,
) -> Map<Seq<char>, u32> {
    match loaded {
        Some(m) => m,
        None => before,
    }
}

/// The mapping that a reload's outcome carries, if it succeeded.
pub open spec fn outcome_view(outcome: Result<ToggleSet, LoadError>) -> Option<Map<Seq<char>, u32>> {
    match outcome {
        Ok(s) => Some(s@),
        Err(_) => None,
    }
}

/// A toggle with threshold `1.0` is on for every sample in `[0, 1)`.
pub proof fn lemma_threshold_one_always_on(m: Map<Seq<char>, u32>, name: Seq<char>, k: nat)
    requires
        m.contains_key(name),
        m[name] == ONE_BITS,
        is_sample(k),
    ensures
        available(m, name, k),
{
    lemma_one_accepts_every_sample(k);
}

/// A toggle with threshold `0.0` is off for every sample in `(0, 1)`.
pub proof fn lemma_threshold_zero_off(m: Map<Seq<char>, u32>, name: Seq<char>, k: nat)
    requires
        m.contains_key(name),
        m[name] == ZERO_BITS,
        is_sample(k),
        k > 0,
    ensures
        !available(m, name, k),
{
    lemma_zero_rejects_positive_samples(k);
}

/// Thresholds are not clamped: one of `1.0` or more is on for every sample,
/// and a negative one other than `-0.0` is off for every sample.
pub proof fn lemma_out_of_range_thresholds(m: Map<Seq<char>, u32>, name: Seq<char>, k: nat)
    requires
        m.contains_key(name),
        is_sample(k),
    ensures
        !sign_bit(m[name]) && !is_nan(m[name]) && m[name] >= ONE_BITS ==> available(m, name, k),
        sign_bit(m[name]) && m[name] != 0x8000_0000 ==> !available(m, name, k),
{
    if !sign_bit(m[name]) && !is_nan(m[name]) && m[name] >= ONE_BITS {
        lemma_large_threshold_accepts_every_sample(k, m[name]);
    }
    if sign_bit(m[name]) && m[name] != 0x8000_0000 {
        lemma_negative_threshold_rejects_every_sample(k, m[name]);
    }
}

/// A toggle that is absent is off for every sample.
pub proof fn lemma_absent_always_off(m: Map<Seq<char>, u32>, name: Seq<char>, k: nat)
    requires
        !m.contains_key(name),
    ensures
        !available(m, name, k),
{
}

/// Once a reload has published a new mapping (what `ToggleData::apply_reload`
/// and `Toggle::reload` state through `served_after`), every evaluation
/// follows the new thresholds, whatever was served before.
pub proof fn lemma_reload_takes_effect(
    before: Map<Seq<char>, u32>,
    loaded: Map<Seq<char>, u32>,
    name: Seq<char>,
    k: nat,
)
    ensures
        available(served_after(before, Some(loaded)), name, k) == (loaded.contains_key(name)
            && sample_at_most(k, loaded[name])),
        answer(served_after(before, Some(loaded)), name) == answer(loaded, name),
{
}

/// A failed reload (`served_after` with `None`, as `ToggleData::apply_reload`
/// and `Toggle::reload` state it) changes no lookup: no threshold becomes
/// absent, and no evaluation changes.
pub proof fn lemma_failed_reload_keeps_answers(before: Map<Seq<char>, u32>, name: Seq<char>, k: nat)
    ensures
        answer(served_after(before, None), name) == answer(before, name),
        available(served_after(before, None), name, k) == available(before, name, k),
{
}

/// The current toggle set and whether a load has ever succeeded.
pub struct ToggleData {
    toggles: ToggleSet,
    loaded: bool,
}

impl ToggleData {
    pub closed spec fn wf(&self) -> bool {
        &&& self.toggles.wf()
        &&& !self.loaded ==> self.toggles@ == Map::<Seq<char>, u32>::empty()
    }

    /// The published mapping from name to threshold bits.
    pub closed spec fn thresholds(&self) -> Map<Seq<char>, u32> {
        self.toggles@
    }

    pub closed spec fn loaded(&self) -> bool {
        self.loaded
    }

    /// Publishes `toggles` in place of the current set.
    pub fn update_values(&mut self, toggles: ToggleSet)
        requires
            toggles.wf(),
        ensures
            final(self).wf(),
            final(self).loaded(),
            final(self).thresholds() == toggles@,
    {
        self.toggles = toggles;
        self.loaded = true;
    }

    /// Takes the outcome of one reload: a loaded set replaces the current
    /// one; a failure leaves the data as it was. Returns whether it replaced.
    pub fn apply_reload(&mut self, outcome: Result<ToggleSet, LoadError>) -> (r: bool)
        requires
            old(self).wf(),
            outcome matches Ok(s) ==> s.wf(),
        ensures
            final(self).wf(),
            r == outcome is Ok,
            final(self).thresholds() == served_after(old(self).thresholds(), outcome_view(outcome)),
            match outcome {
                Ok(s) => final(self).loaded(),
                Err(_) => *final(self) == *old(self),
            },
    {
        match outcome {
            Ok(s) => {
                self.update_values(s);
                true
            },
            Err(_) => false,
        }
    }

    pub fn is_loaded(&self) -> (r: bool)
        ensures
            r == self.loaded(),
    {
        self.loaded
    }

    /// The threshold bits of `name`, if present.
    pub fn lookup(&self, name: &str) -> (r: Option<u32>)
        requires
            self.wf(),
        ensures
            r == answer(self.thresholds(), name@),
    {
        self.toggles.lookup(name)
    }

    /// The thresholds of all `names`, every answer read from this one set.
    pub fn lookup_all(&self, names: &Vec<String>) -> (r: Vec<Option<u32>>)
        requires
            self.wf(),
        ensures
            snapshot_of(self.thresholds(), names@, r@),
    {
        let mut r: Vec<Option<u32>> = Vec::new();
        let mut i: usize = 0;
        while i < names.len()
            invariant
                self.wf(),
                i <= names@.len(),
                r@.len() == i,
                forall|j: int| 0 <= j < i ==> #[trigger] r@[j] == answer(self.thresholds(), names@[j]@),
            decreases names@.len() - i,
        {
            let t = self.lookup(names[i].as_str());
            r.push(t);
            i = i + 1;
        }
        r
    }

    /// Whether `name` is on for the sample `sample / 2^24`.
    pub fn evaluate(&self, name: &str, sample: u32) -> (r: bool)
        requires
            self.wf(),
            is_sample(sample as nat),
        ensures
            r == available(self.thresholds(), name@, sample as nat),
    {
        match self.toggles.lookup(name) {
            Some(t) => sample_at_most_threshold(sample, t),
            None => false,
        }
    }
}

impl Default for ToggleData {
    /// No toggles, not yet loaded.
    fn default() -> (r: ToggleData)
        ensures
            r.wf(),
            !r.loaded(),
            r.thresholds() == Map::<Seq<char>, u32>::empty(),
    {
        ToggleData { toggles: ToggleSet::new(), loaded: false }
    }
}

/// What a lookup of `name` answers under `thresholds`.
pub open spec fn answer(thresholds: Map<Seq<char>, u32>, name: Seq<char>) -> Option<u32> {
    if thresholds.contains_key(name) {
        Some(thresholds[name])
    } else {
        None
    }
}

/// `answers` are the lookups of `names`, all under the one mapping `thresholds`.
pub open spec fn snapshot_of(
    thresholds: Map<Seq<char>, u32>,
    names: Seq<String>,
    answers: Seq<Option<u32>>,
) -> bool {
    &&& answers.len() == names.len()
    &&& forall|j: int| 0 <= j < names.len() ==> #[trigger] answers[j] == answer(thresholds, names[j]@)
}

} // verus!
