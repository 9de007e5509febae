use vstd::prelude::*;

use crate::refresh::{ErrorKind, RefreshError, Stage};
use crate::snapshot::Domain;

verus! {

/// One game server instance, as the world store lists it.
#[derive(Debug)]
pub struct World {
    pub id: i32,
    pub types: Vec<String>,
    pub address: String,
    pub activity: String,
    pub location: i32,
    pub players: i32,
}

/// The full list of worlds: the payload of the worlds snapshot.
#[derive(Debug)]
pub struct Worlds {
    pub worlds: Vec<World>,
}

/// Whether every member of the set decoded.
pub open spec fn all_decoded(members: Seq<Option<World>>) -> bool {
    forall|i: int| 0 <= i < members.len() ==> #[trigger] members[i] is Some
}

/// Gathers the decoded members of the world set, in the order given. One
/// member that did not decode (`None`) fails the whole set with a decode
/// error at the fetch stage; nothing is kept of the others.
pub fn gather_worlds(members: Vec<Option<World>>) -> (r: Result<Worlds, RefreshError>)
    ensures
        all_decoded(members@) <==> r is Ok,
        r matches Ok(w) ==> w.worlds@.len() == members@.len() && forall|i: int|
            0 <= i < members@.len() ==> members@[i] == Some(#[trigger] w.worlds@[i]),
        r matches Err(e) ==> e == (RefreshError {
            domain: Domain::Worlds,
            stage: Stage::Fetching,
            kind: ErrorKind::Decode,
        }),
{
    let ghost given = members@;
    let mut pending = members;
    let mut worlds: Vec<World> = Vec::new();
    let mut rest: Vec<Option<World>> = Vec::new();
    // Reverse once so that popping yields the members in their given order.
    while pending.len() > 0
        invariant
            given == members@,
            rest@.len() + pending@.len() == given.len(),
            forall|i: int| 0 <= i < pending@.len() ==> #[trigger] pending@[i] == given[i],
            forall|i: int|
                0 <= i < rest@.len() ==> #[trigger] rest@[i] == given[given.len() - 1 - i],
        decreases pending@.len(),
    {
        let m = pending.pop().unwrap();
        rest.push(m);
    }
    while rest.len() > 0
        invariant
            given == members@,
            worlds@.len() + rest@.len() == given.len(),
            forall|i: int| 0 <= i < worlds@.len() ==> given[i] == Some(#[trigger] worlds@[i]),
            forall|i: int|
                0 <= i < rest@.len() ==> #[trigger] rest@[i] == given[given.len() - 1 - i],
        decreases rest@.len(),
    {
        let m = rest.pop().unwrap();
        match m {
            Some(w) => {
                worlds.push(w);
            },
            None => {
                proof {
                    let bad = worlds@.len() as int;
                    assert(given[bad] is None);
                    assert(!all_decoded(given));
                }
                return Err(
                    RefreshError {
                        domain: Domain::Worlds,
                        stage: Stage::Fetching,
                        kind: ErrorKind::Decode,
                    },
                );
            },
        }
    }
    assert forall|i: int| 0 <= i < given.len() implies #[trigger] given[i] is Some by {
        assert(given[i] == Some(worlds@[i]));
    }
    Ok(Worlds { worlds })
}

} // verus!
