//! The toggle service: one initial load, one background trigger, and the
//! evaluation of toggles against random samples.
use vstd::prelude::*;
use rand::Rng;
use crate::error::LoadError;
use crate::store::{answer, available, outcome_view, served_after, snapshot_of, ToggleData};
use crate::threshold::{is_sample, SAMPLE_LIMIT};
use crate::toggle_set::ToggleSet;
use crate::trigger::{step, Command, Lifecycle};

verus! {

/// How the service learns that the configuration file changed.
#[derive(Debug, Clone, Copy, PartialEq, Eq, Structural)]
pub enum UpdateStrategy {
    /// Reload when the file's content is reported changed.
    FileWatch,
    /// Reload every `interval_ms` milliseconds, changed or not.
    Poll { interval_ms: u64 },
}

/// Relies on `rand::thread_rng` and `Rng::gen_range`: a value drawn uniformly
/// from `0..limit`.
#[verifier::external_body]
fn draw_below(limit: u32) -> (r: u32)
    requires
        limit > 0,
    ensures
        r < limit,
{
    rand::thread_rng().gen_range(0..limit)
}

/// A set of runtime toggles read from one configuration file.
///
/// The toggle owns its published data. To share it between callers and a
/// background trigger, hold it behind a reader-writer lock: evaluations take
/// `&self`, reloads take `&mut self` and are handed a set that is already
/// loaded, so the exclusive hold lasts only for the swap.
pub struct Toggle {
    config_file_path: String,
    strategy: UpdateStrategy,
    stage: Lifecycle,
    data: ToggleData,
}

impl Toggle {
    pub closed spec fn wf(&self) -> bool {
        self.data.wf()
    }

    pub closed spec fn path(&self) -> Seq<char> {
        self.config_file_path@
    }

    pub closed spec fn stage(&self) -> Lifecycle {
        self.stage
    }

    pub closed spec fn strategy_spec(&self) -> UpdateStrategy {
        self.strategy
    }

    /// The mapping from name to threshold bits that evaluations read.
    pub closed spec fn published(&self) -> Map<Seq<char>, u32> {
        self.data.thresholds()
    }

    /// Whether some load has succeeded.
    pub closed spec fn loaded(&self) -> bool {
        self.data.loaded()
    }

    /// A service on `config_file_path` that reloads on file change. Nothing is
    /// read yet.
    pub fn new(config_file_path: &str) -> (r: Toggle)
        ensures
            r.wf(),
            r.path() == config_file_path@,
            r.strategy_spec() == UpdateStrategy::FileWatch,
            r.stage() == Lifecycle::Constructed,
            r.published() == Map::<Seq<char>, u32>::empty(),
            !r.loaded(),
    {
        Toggle::with_strategy(config_file_path, UpdateStrategy::FileWatch)
    }

    /// A service on `config_file_path` with the given update strategy.
    pub fn with_strategy(config_file_path: &str, strategy: UpdateStrategy) -> (r: Toggle)
        ensures
            r.wf(),
            r.path() == config_file_path@,
            r.strategy_spec() == strategy,
            r.stage() == Lifecycle::Constructed,
            r.published() == Map::<Seq<char>, u32>::empty(),
            !r.loaded(),
    {
        Toggle {
            config_file_path: config_file_path.to_string(),
            strategy,
            stage: Lifecycle::Constructed,
            data: ToggleData::default(),
        }
    }

    pub fn config_file_path(&self) -> (r: &str)
        ensures
            r@ == self.path(),
    {
        self.config_file_path.as_str()
    }

    pub fn strategy(&self) -> (r: UpdateStrategy)
        ensures
            r == self.strategy_spec(),
    {
        self.strategy
    }

    pub fn lifecycle(&self) -> (r: Lifecycle)
        ensures
            r == self.stage(),
    {
        self.stage
    }

    /// Whether `start` would load the file and launch a trigger.
    pub fn needs_start(&self) -> (r: bool)
        ensures
            r == (self.stage() == Lifecycle::Constructed),
    {
        self.stage == Lifecycle::Constructed
    }

    /// Whether some load has succeeded.
    pub fn is_loaded(&self) -> (r: bool)
        ensures
            r == self.loaded(),
    {
        self.data.is_loaded()
    }

    /// Takes the outcome of the initial load. On a service that has not
    /// started, a loaded set is published and `Ok(true)` asks the caller to
    /// launch the one background trigger; a failed load is returned and the
    /// service stays as it was. A service that started or stopped before is
    /// left alone (`Ok(false)`).
    pub fn start(&mut self, initial: Result<ToggleSet, LoadError>) -> (r: Result<bool, LoadError>)
        requires
            old(self).wf(),
            initial matches Ok(s) ==> s.wf(),
        ensures
            final(self).wf(),
            final(self).path() == old(self).path(),
            final(self).strategy_spec() == old(self).strategy_spec(),
            final(self).stage() == step(old(self).stage(), Command::Start(initial is Ok)).0,
            old(self).stage() != Lifecycle::Constructed ==> r == Ok::<bool, LoadError>(false),
            old(self).stage() == Lifecycle::Constructed ==> r == match initial {
                Ok(_) => Ok::<bool, LoadError>(true),
                Err(e) => Err::<bool, LoadError>(e),
            },
            r == Ok::<bool, LoadError>(true) <==> step(old(self).stage(), Command::Start(initial is Ok)).1 == 1,
            old(self).stage() == Lifecycle::Constructed && initial is Ok ==> final(self).loaded()
                && final(self).published() == served_after(old(self).published(), outcome_view(initial)),
            !(old(self).stage() == Lifecycle::Constructed && initial is Ok) ==> final(self).published()
                == old(self).published() && final(self).loaded() == old(self).loaded(),
    {
        if self.stage != Lifecycle::Constructed {
            return Ok(false);
        }
        match initial {
            Ok(s) => {
                self.data.update_values(s);
                self.stage = Lifecycle::Ready;
                Ok(true)
            },
            Err(e) => Err(e),
        }
    }

    /// Reports that the trigger a start asked for could not be set up: the
    /// start is undone, so the service is back to not started, with nothing
    /// published. Returns whether there was a start to undo.
    pub fn launch_failed(&mut self) -> (r: bool)
        requires
            old(self).wf(),
        ensures
            final(self).wf(),
            final(self).path() == old(self).path(),
            final(self).strategy_spec() == old(self).strategy_spec(),
            final(self).stage() == step(old(self).stage(), Command::LaunchFailed).0,
            r == (old(self).stage() == Lifecycle::Ready),
            r ==> final(self).published() == Map::<Seq<char>, u32>::empty() && !final(self).loaded(),
            !r ==> final(self).published() == old(self).published() && final(self).loaded()
                == old(self).loaded(),
    {
        if self.stage != Lifecycle::Ready {
            return false;
        }
        self.stage = Lifecycle::Constructed;
        self.data = ToggleData::default();
        true
    }

    /// Marks the service stopped. Returns whether a trigger was running,
    /// which the caller then halts. Safe on a service that never started.
    pub fn stop(&mut self) -> (r: bool)
        requires
            old(self).wf(),
        ensures
            final(self).wf(),
            final(self).path() == old(self).path(),
            final(self).strategy_spec() == old(self).strategy_spec(),
            final(self).stage() == step(old(self).stage(), Command::Stop).0,
            r == (step(old(self).stage(), Command::Stop).1 == -1),
            final(self).published() == old(self).published(),
            final(self).loaded() == old(self).loaded(),
    {
        let r = self.stage == Lifecycle::Ready;
        self.stage = Lifecycle::Stopped;
        r
    }

    /// Publishes the outcome of a background reload; a failed reload keeps
    /// the data that is being served. Returns whether a new set was published.
    pub fn reload(&mut self, outcome: Result<ToggleSet, LoadError>) -> (r: bool)
        requires
            old(self).wf(),
            outcome matches Ok(s) ==> s.wf(),
        ensures
            final(self).wf(),
            final(self).path() == old(self).path(),
            final(self).strategy_spec() == old(self).strategy_spec(),
            final(self).stage() == old(self).stage(),
            r == outcome is Ok,
            final(self).published() == served_after(old(self).published(), outcome_view(outcome)),
            final(self).loaded() == (old(self).loaded() || outcome is Ok),
    {
        self.data.apply_reload(outcome)
    }

    /// The threshold bits of `toggle_name`, if it is published.
    pub fn lookup(&self, toggle_name: &str) -> (r: Option<u32>)
        requires
            self.wf(),
        ensures
            r == answer(self.published(), toggle_name@),
    {
        self.data.lookup(toggle_name)
    }

    /// The thresholds of all `names`, every answer read from the one
    /// published set.
    pub fn lookup_all(&self, names: &Vec<String>) -> (r: Vec<Option<u32>>)
        requires
            self.wf(),
        ensures
            snapshot_of(self.published(), names@, r@),
    {
        self.data.lookup_all(names)
    }

    /// Whether `toggle_name` is on for the sample `sample / 2^24`. Absent
    /// toggles are off.
    pub fn is_available_at(&self, toggle_name: &str, sample: u32) -> (r: bool)
        requires
            self.wf(),
            is_sample(sample as nat),
        ensures
            r == available(self.published(), toggle_name@, sample as nat),
    {
        self.data.evaluate(toggle_name, sample)
    }

    /// Draws a sample uniformly from `[0, 1)` and reports whether
    /// `toggle_name` is on for it. Absent toggles are off. Never blocks on I/O.
    pub fn is_available(&self, toggle_name: &str) -> (r: bool)
        requires
            self.wf(),
        ensures
            exists|k: nat| is_sample(k) && r == available(self.published(), toggle_name@, k),
    {
        let sample = draw_below(SAMPLE_LIMIT);
        self.is_available_at(toggle_name, sample)
    }
}

} // verus!
