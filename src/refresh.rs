use vstd::prelude::*;

use crate::snapshot::{Domain, SnapshotStore};

verus! {

/// Where a listener stands in one refresh cycle.
#[derive(Clone, Copy, Debug, PartialEq, Eq, Structural)]
pub enum Stage {
    /// Waiting for the next notification.
    Idle,
    /// The upstream data is being fetched.
    Fetching,
    /// The price overrides are being applied (prices only).
    Applying,
    /// The dataset is being serialized for installation.
    Installed,
}

/// What went wrong in a refresh.
#[derive(Clone, Copy, Debug, PartialEq, Eq, Structural)]
pub enum ErrorKind {
    /// Network failure or a non-success HTTP status.
    Fetch,
    /// Malformed data from an upstream source.
    Decode,
    /// The key-value store or the notification channel failed.
    Store,
}

/// A failed refresh: which domain, at which stage, and why.
#[derive(Clone, Copy, Debug, PartialEq, Eq, Structural)]
pub struct RefreshError {
    pub domain: Domain,
    pub stage: Stage,
    pub kind: ErrorKind,
}

/// The initial population failed: the store cannot be built.
#[derive(Clone, Copy, Debug, PartialEq, Eq, Structural)]
pub struct BootstrapError {
    pub cause: RefreshError,
}

/// What the outside world reports back to a listener.
#[derive(Debug)]
pub enum Event {
    /// A message arrived on the domain's refresh channel.
    Notified,
    /// The upstream data was fetched and decoded.
    Fetched,
    /// The price overrides were applied.
    Applied,
    /// The dataset was serialized into this text.
    Encoded(String),
    /// The current step failed.
    Failed(ErrorKind),
}

/// What a listener asks the outside world to do next.
#[derive(Debug)]
pub enum Action {
    /// Nothing: wait for the next event.
    Wait,
    /// Fetch the domain's upstream data.
    Fetch,
    /// Apply the price overrides to the fetched items.
    ApplyOverrides,
    /// Serialize the dataset.
    Encode,
    /// Install this text as the domain's snapshot.
    Install(String),
    /// Report this failure; nothing is installed.
    Report(RefreshError),
}

/// The refresh listener of one domain.
#[derive(Clone, Copy, Debug)]
pub struct Listener {
    pub domain: Domain,
    pub stage: Stage,
}

/// One step of a listener: its next stage and the action it asks for.
/// A failure at any busy stage is reported and sends the listener back to
/// waiting; only a serialized dataset is ever installed.
pub open spec fn listener_step(l: Listener, e: Event) -> (Listener, Action) {
    let idle = Listener { domain: l.domain, stage: Stage::Idle };
    match (l.stage, e) {
        (Stage::Idle, Event::Notified) => (
            Listener { domain: l.domain, stage: Stage::Fetching },
            Action::Fetch,
        ),
        (Stage::Idle, _) => (l, Action::Wait),
        (_, Event::Failed(kind)) => (
            idle,
            Action::Report(RefreshError { domain: l.domain, stage: l.stage, kind }),
        ),
        (Stage::Fetching, Event::Fetched) => if l.domain == Domain::Prices {
            (Listener { domain: l.domain, stage: Stage::Applying }, Action::ApplyOverrides)
        } else {
            (Listener { domain: l.domain, stage: Stage::Installed }, Action::Encode)
        },
        (Stage::Applying, Event::Applied) => (
            Listener { domain: l.domain, stage: Stage::Installed },
            Action::Encode,
        ),
        (Stage::Installed, Event::Encoded(text)) => (idle, Action::Install(text)),
        (_, _) => (l, Action::Wait),
    }
}

/// The snapshots `(prices, worlds)` after the action of a listener of `domain`
/// has been carried out.
pub open spec fn snapshots_after(
    domain: Domain,
    action: Action,
    snapshots: (Seq<char>, Seq<char>),
) -> (Seq<char>, Seq<char>) {
    match action {
        Action::Install(text) => if domain == Domain::Prices {
            (text@, snapshots.1)
        } else {
            (snapshots.0, text@)
        },
        _ => snapshots,
    }
}

impl Listener {
    /// A listener of `domain`, waiting for its first notification.
    pub fn new(domain: Domain) -> (r: Listener)
        ensures
            r == (Listener { domain, stage: Stage::Idle }),
    {
        Listener { domain, stage: Stage::Idle }
    }

    /// Takes one event and returns the action it calls for.
    pub fn step(&mut self, event: Event) -> (r: Action)
        ensures
            (*final(self), r) == listener_step(*old(self), event),
    {
        let domain = self.domain;
        let stage = self.stage;
        match (stage, event) {
            (Stage::Idle, Event::Notified) => {
                self.stage = Stage::Fetching;
                Action::Fetch
            },
            (Stage::Idle, _) => Action::Wait,
            (_, Event::Failed(kind)) => {
                self.stage = Stage::Idle;
                Action::Report(RefreshError { domain, stage, kind })
            },
            (Stage::Fetching, Event::Fetched) => {
                if domain == Domain::Prices {
                    self.stage = Stage::Applying;
                    Action::ApplyOverrides
                } else {
                    self.stage = Stage::Installed;
                    Action::Encode
                }
            },
            (Stage::Applying, Event::Applied) => {
                self.stage = Stage::Installed;
                Action::Encode
            },
            (Stage::Installed, Event::Encoded(text)) => {
                self.stage = Stage::Idle;
                Action::Install(text)
            },
            (_, _) => Action::Wait,
        }
    }
}

/// Carries out an action's effect on the store: an `Install` replaces the
/// snapshot of the listener's domain, every other action leaves the store as
/// it is. Returns whether a snapshot was installed.
pub fn perform(store: &SnapshotStore, domain: Domain, action: Action) -> (r: bool)
    requires
        store.wf(),
    ensures
        r <==> action is Install,
{
    match action {
        Action::Install(text) => {
            store.replace(domain, text);
            true
        },
        _ => false,
    }
}

/// Builds the store from the first fetch of each domain. A failure of either
/// is fatal: no store is built, and the first failure is returned.
pub fn bootstrap(prices: Result<String, RefreshError>, worlds: Result<String, RefreshError>) -> (r:
    Result<SnapshotStore, BootstrapError>)
    ensures
        r is Ok <==> prices is Ok && worlds is Ok,
        r matches Ok(s) ==> s.wf(),
        r matches Err(b) ==> b.cause == if prices is Err {
            prices->Err_0
        } else {
            worlds->Err_0
        },
{
    match (prices, worlds) {
        (Ok(p), Ok(w)) => Ok(SnapshotStore::new(p, w)),
        (Err(e), _) => Err(BootstrapError { cause: e }),
        (Ok(_), Err(e)) => Err(BootstrapError { cause: e }),
    }
}

/// A failed step never installs anything: both snapshots stay as they were,
/// the failure is reported with the listener's domain and stage, and the
/// listener goes back to waiting for the next notification.
pub proof fn lemma_failure_isolated(
    l: Listener,
    kind: ErrorKind,
    snapshots: (Seq<char>, Seq<char>),
)
    requires
        l.stage != Stage::Idle,
    ensures
        ({
            let (next, action) = listener_step(l, Event::Failed(kind));
            &&& action == Action::Report(RefreshError { domain: l.domain, stage: l.stage, kind })
            &&& next == (Listener { domain: l.domain, stage: Stage::Idle })
            &&& snapshots_after(l.domain, action, snapshots) == snapshots
        }),
{
}

/// An install by a listener changes the snapshot of its own domain only.
pub proof fn lemma_install_own_domain(
    l: Listener,
    e: Event,
    snapshots: (Seq<char>, Seq<char>),
)
    ensures
        ({
            let after = snapshots_after(l.domain, listener_step(l, e).1, snapshots);
            &&& l.domain == Domain::Prices ==> after.1 == snapshots.1
            &&& l.domain == Domain::Worlds ==> after.0 == snapshots.0
        }),
{
}

/// Only a dataset that was serialized after a completed fetch is installed,
/// and the listener then waits for the next notification.
pub proof fn lemma_install_only_encoded(l: Listener, e: Event)
    ensures
        listener_step(l, e).1 is Install ==> l.stage == Stage::Installed && e is Encoded
            && listener_step(l, e).0.stage == Stage::Idle,
{
}

} // verus!
