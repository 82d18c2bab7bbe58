//! Which cache files are being fetched, so that requests for the same file fetch it once.
//!
//! The first request for a missing file leads: it fetches the file. Requests that come while it
//! does so follow: they wait for the leader.

use vstd::prelude::*;
use vstd::hash_map::StringHashMap;

verus! {

/// The part that a request plays in fetching a file.
#[derive(Debug)]
pub enum Role<W> {
    /// It fetches the file.
    Leader,
    /// It waits, by the handle of the fetch, until another request has fetched the file.
    Follower(W),
}

/// The fetches under way: for each file, the handle by which to wait for it.
#[verifier::reject_recursive_types(W)]
pub struct InFlight<W> {
    waiters: StringHashMap<W>,
}

impl<W> View for InFlight<W> {
    type V = Map<Seq<char>, W>;

    closed spec fn view(&self) -> Map<Seq<char>, W> {
        self.waiters@
    }
}

impl<W: Clone> InFlight<W> {
    /// No fetches.
    pub fn new() -> (in_flight: InFlight<W>)
        ensures
            in_flight@ == Map::<Seq<char>, W>::empty(),
    {
        InFlight { waiters: StringHashMap::new() }
    }

    /// Takes part in fetching a file: as a follower if the file is being fetched, else as its
    /// leader, under the handle.
    pub fn join(&mut self, path: &str, waiter: W) -> (role: Role<W>)
        ensures
            final(self)@ == taken(old(self)@, (Turn::Join { path: path@, waiter })),
            old(self)@.contains_key(path@) ==> role is Follower && final(self)@ == old(self)@,
            !old(self)@.contains_key(path@) ==> role is Leader && final(self)@ == old(self)@.insert(
                path@,
                waiter,
            ),
            match role {
                Role::Leader => leads(old(self)@, (Turn::Join { path: path@, waiter }), path@),
                Role::Follower(other) => old(self)@.contains_key(path@) && cloned(
                    old(self)@[path@],
                    other,
                ),
            },
    {
        match self.waiters.get(path) {
            Some(other) => Role::Follower(other.clone()),
            None => {
                self.waiters.insert(path.to_owned(), waiter);
                Role::Leader
            },
        }
    }

    /// Ends the fetch of a file and gives back its handle, if the file was being fetched.
    pub fn finish(&mut self, path: &str) -> (waiter: Option<W>)
        ensures
            final(self)@ == taken(old(self)@, (Turn::Finish { path: path@ })),
            final(self)@ == old(self)@.remove(path@),
            waiter is Some <==> old(self)@.contains_key(path@),
            match waiter {
                Some(waiter) => old(self)@.contains_key(path@) && cloned(
                    old(self)@[path@],
                    waiter,
                ),
                None => !old(self)@.contains_key(path@),
            },
    {
        let waiter = match self.waiters.get(path) {
            Some(waiter) => Some(waiter.clone()),
            None => None,
        };
        self.waiters.remove(path);
        waiter
    }
}

/// What a request does to the fetches under way.
pub enum Turn<W> {
    /// It joins the fetch of a file, bringing a handle.
    Join { path: Seq<char>, waiter: W },
    /// It ends the fetch of a file.
    Finish { path: Seq<char> },
}

/// Whether a turn makes its request the leader for a file.
pub open spec fn leads<W>(fetches: Map<Seq<char>, W>, turn: Turn<W>, file: Seq<char>) -> bool {
    turn matches Turn::Join { path, .. } && path == file && !fetches.contains_key(file)
}

/// The fetches under way after a turn.
pub open spec fn taken<W>(fetches: Map<Seq<char>, W>, turn: Turn<W>) -> Map<Seq<char>, W> {
    match turn {
        Turn::Join { path, waiter } => if fetches.contains_key(path) {
            fetches
        } else {
            fetches.insert(path, waiter)
        },
        Turn::Finish { path } => fetches.remove(path),
    }
}

/// The fetches under way after turns, one after the other.
pub open spec fn all_taken<W>(fetches: Map<Seq<char>, W>, turns: Seq<Turn<W>>) -> Map<Seq<char>, W>
    decreases turns.len(),
{
    if turns.len() == 0 {
        fetches
    } else {
        taken(all_taken(fetches, turns.drop_last()), turns.last())
    }
}

/// Until the fetch of a file ends, it has one leader: after a turn that led, and any turns that do
/// not end the fetch of that file, the handle of the leader is still there, and no turn leads
/// again.
pub proof fn a_file_has_one_leader<W>(
    fetches: Map<Seq<char>, W>,
    file: Seq<char>,
    waiter: W,
    turns: Seq<Turn<W>>,
    next: Turn<W>,
)
    requires
        leads(fetches, Turn::Join { path: file, waiter }, file),
        forall|i: int| 0 <= i < turns.len() ==> #[trigger] turns[i] != (Turn::<W>::Finish { path: file }),
    ensures
        ({
            let later = all_taken(taken(fetches, Turn::Join { path: file, waiter }), turns);
            &&& later.contains_key(file)
            &&& later[file] == waiter
            &&& !leads(later, next, file)
        }),
    decreases turns.len(),
{
    if turns.len() > 0 {
        let before = turns.drop_last();
        assert forall|i: int| 0 <= i < before.len() implies #[trigger] before[i] != (
            Turn::<W>::Finish { path: file }) by {
            assert(turns[i] != (Turn::<W>::Finish { path: file }));
        }
        a_file_has_one_leader(fetches, file, waiter, before, next);
        assert(turns[turns.len() - 1] != (Turn::<W>::Finish { path: file }));
    }
}

/// Once the fetch of a file has ended, the next request for it leads, and the fetches of other
/// files are as they were.
pub proof fn a_finished_file_can_be_led_again<W>(
    fetches: Map<Seq<char>, W>,
    file: Seq<char>,
    waiter: W,
    other: Seq<char>,
)
    ensures
        leads(taken(fetches, Turn::Finish { path: file }), Turn::Join { path: file, waiter }, file),
        other != file ==> {
            let after = taken(fetches, Turn::Finish { path: file });
            after.contains_key(other) == fetches.contains_key(other) && after[other]
                == fetches[other]
        },
        leads(fetches, Turn::Join { path: file, waiter }, file) ==> taken(
            taken(fetches, Turn::Join { path: file, waiter }),
            Turn::Finish { path: file },
        ) == fetches,
{
    assert(leads(fetches, Turn::Join { path: file, waiter }, file) ==> taken(
        taken(fetches, Turn::Join { path: file, waiter }),
        Turn::Finish { path: file },
    ) =~= fetches);
}

/// A turn touches only the file it is about. Joining leaves that file being fetched, by the handle
/// that was there or, if there was none, by the one that was brought; and exactly in the second case
/// it leads. Finishing leaves that file not being fetched.
pub proof fn turns_touch_their_own_file<W>(
    fetches: Map<Seq<char>, W>,
    file: Seq<char>,
    waiter: W,
    other: Seq<char>,
)
    ensures
        ({
            let after = taken(fetches, Turn::Join { path: file, waiter });
            &&& after.contains_key(file)
            &&& after[file] == if fetches.contains_key(file) {
                fetches[file]
            } else {
                waiter
            }
            &&& leads(fetches, Turn::Join { path: file, waiter }, file) <==> !fetches.contains_key(
                file,
            )
            &&& other != file ==> after.contains_key(other) == fetches.contains_key(other)
            &&& other != file && fetches.contains_key(other) ==> after[other] == fetches[other]
        }),
        ({
            let after = taken(fetches, Turn::<W>::Finish { path: file });
            &&& !after.contains_key(file)
            &&& other != file ==> after.contains_key(other) == fetches.contains_key(other)
            &&& other != file && fetches.contains_key(other) ==> after[other] == fetches[other]
        }),
{
}

} // verus!
