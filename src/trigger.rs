//! What the background trigger does with each change notification, and how a
//! service moves through its lifecycle.
use vstd::prelude::*;

verus! {

/// The detail of a data change, as the change notifier reports it.
#[derive(Debug, Clone, Copy, PartialEq, Eq, Structural)]
pub enum DataChange {
    Any,
    Size,
    Content,
    Other,
}

/// The detail of a modification, as the change notifier reports it.
#[derive(Debug, Clone, Copy, PartialEq, Eq, Structural)]
pub enum ModifyKind {
    Any,
    Data(DataChange),
    Metadata,
    Name,
    Other,
}

/// The kind of a change notification.
#[derive(Debug, Clone, Copy, PartialEq, Eq, Structural)]
pub enum EventKind {
    Any,
    Access,
    Create,
    Modify(ModifyKind),
    Remove,
    Other,
}

/// What the trigger does in answer to a notification.
#[derive(Debug, Clone, Copy, PartialEq, Eq, Structural)]
pub enum FireAction {
    /// Load the file again and publish the result.
    Reload,
    /// Nothing: the notification is not about the file's content.
    Ignore,
    /// Report the notifier's error and go on watching.
    Report,
}

/// Only a change of the file's content calls for a reload.
pub open spec fn is_content_change(kind: EventKind) -> bool {
    kind == EventKind::Modify(ModifyKind::Data(DataChange::Content))
}

/// The action for one notification: `Ok` with its kind, or `Err` where the
/// notifier failed.
pub fn watch_action(event: Result<EventKind, ()>) -> (r: FireAction)
    ensures
        r == match event {
            Ok(kind) => if is_content_change(kind) {
                FireAction::Reload
            } else {
                FireAction::Ignore
            },
            Err(_) => FireAction::Report,
        },
{
    match event {
        Ok(EventKind::Modify(ModifyKind::Data(DataChange::Content))) => FireAction::Reload,
        Ok(_) => FireAction::Ignore,
        Err(_) => FireAction::Report,
    }
}

/// The stages of a toggle service.
#[derive(Debug, Clone, Copy, PartialEq, Eq, Structural)]
pub enum Lifecycle {
    /// Built; nothing loaded and no trigger running.
    Constructed,
    /// Loaded, with exactly one trigger running.
    Ready,
    /// Its trigger halted; it never starts again.
    Stopped,
}

/// A request made of a service: a start, with whether its initial load
/// succeeded; the report that the trigger a start asked for could not be set
/// up; or a stop.
pub enum Command {
    Start(bool),
    LaunchFailed,
    Stop,
}

/// The stage after `c`, and whether a trigger is launched (`1`), halted or
/// given up (`-1`), or neither (`0`).
pub open spec fn step(s: Lifecycle, c: Command) -> (Lifecycle, int) {
    match c {
        Command::Start(load_ok) => if s == Lifecycle::Constructed && load_ok {
            (Lifecycle::Ready, 1)
        } else {
            (s, 0)
        },
        Command::LaunchFailed => if s == Lifecycle::Ready {
            (Lifecycle::Constructed, -1)
        } else {
            (s, 0)
        },
        Command::Stop => if s == Lifecycle::Ready {
            (Lifecycle::Stopped, -1)
        } else {
            (Lifecycle::Stopped, 0)
        },
    }
}

/// The stage after a run of commands, with the number of triggers launched
/// and the number halted or given up.
pub open spec fn run(s: Lifecycle, cs: Seq<Command>) -> (Lifecycle, nat, nat)
    decreases cs.len(),
{
    if cs.len() == 0 {
        (s, 0, 0)
    } else {
        let (t, launched, halted) = run(s, cs.drop_last());
        let (u, d) = step(t, cs.last());
        (u, if d == 1 { launched + 1 } else { launched }, if d == -1 { halted + 1 } else { halted })
    }
}

/// However many starts, failed launches and stops a service receives, at most
/// one trigger is alive at any time, and one is alive exactly when the
/// service is ready.
pub proof fn lemma_at_most_one_trigger(cs: Seq<Command>)
    ensures
        run(Lifecycle::Constructed, cs).2 <= run(Lifecycle::Constructed, cs).1,
        run(Lifecycle::Constructed, cs).1 - run(Lifecycle::Constructed, cs).2 <= 1,
        run(Lifecycle::Constructed, cs).1 - run(Lifecycle::Constructed, cs).2 == (
        if run(Lifecycle::Constructed, cs).0 == Lifecycle::Ready {
            1int
        } else {
            0int
        }),
    decreases cs.len(),
{
    if cs.len() > 0 {
        lemma_at_most_one_trigger(cs.drop_last());
    }
}

/// A service that has stopped launches no trigger again, whatever follows.
pub proof fn lemma_stopped_stays_stopped(cs: Seq<Command>)
    ensures
        run(Lifecycle::Stopped, cs).0 == Lifecycle::Stopped,
        run(Lifecycle::Stopped, cs).1 == 0,
    decreases cs.len(),
{
    if cs.len() > 0 {
        lemma_stopped_stays_stopped(cs.drop_last());
    }
}

} // verus!
