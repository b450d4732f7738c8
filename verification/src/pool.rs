//! The connection pool: one client for each destination, made on first use
//! and kept for the whole run.

use vstd::prelude::*;
use crate::reader::{find_key, lemma_find_key};
use crate::value::strings;

verus! {

/// What asking the pool for the client of `destination` gives, the pool
/// holding the destinations `keys`: the number of the client, whether it has
/// to be made, and the destinations that the pool holds afterwards.
pub open spec fn acquire(keys: Seq<Seq<char>>, destination: Seq<char>) -> (
    int,
    bool,
    Seq<Seq<char>>,
) {
    match find_key(keys, destination, 0) {
        Some(i) => (i, false, keys),
        None => (keys.len() as int, true, keys.push(destination)),
    }
}

/// The destinations that have a client. The number of a client is the position
/// of its destination; a client is never dropped nor renumbered.
#[derive(Debug, PartialEq, Eq)]
pub struct Pool {
    pub destinations: Vec<String>,
}

impl View for Pool {
    type V = Seq<Seq<char>>;

    open spec fn view(&self) -> Seq<Seq<char>> {
        strings(self.destinations@)
    }
}

impl Pool {
    /// A pool without clients.
    pub fn new() -> (r: Pool)
        ensures
            r@ == Seq::<Seq<char>>::empty(),
    {
        let r = Pool { destinations: Vec::new() };
        assert(r@ =~= Seq::<Seq<char>>::empty());
        r
    }

    /// How many clients the pool holds.
    pub fn len(&self) -> (r: usize)
        ensures
            r == self@.len(),
    {
        self.destinations.len()
    }

    /// The number of the client for `destination`, and whether it is new, in
    /// which case the caller makes the client and keeps it under that number.
    pub fn get_or_create(&mut self, destination: &str) -> (r: (usize, bool))
        ensures
            (r.0 as int, r.1, final(self)@) == acquire(old(self)@, destination@),
    {
        let wanted = destination.to_owned();
        let mut i: usize = 0;
        while i < self.destinations.len()
            invariant
                i <= self.destinations.len(),
                *self == *old(self),
                wanted@ == destination@,
                find_key(self@, destination@, 0) == find_key(self@, destination@, i as int),
            decreases self.destinations.len() - i,
        {
            if self.destinations[i] == wanted {
                return (i, false);
            }
            i += 1;
        }
        self.destinations.push(wanted);
        assert(self@ =~= old(self)@.push(destination@));
        (i, true)
    }
}

/// Asking twice for the same destination gives the same client, and the second
/// time none is made and the pool stays as it is.
pub proof fn law_client_is_reused(keys: Seq<Seq<char>>, destination: Seq<char>)
    ensures
        ({
            let first = acquire(keys, destination);
            let second = acquire(first.2, destination);
            second.0 == first.0 && !second.1 && second.2 == first.2
        }),
{
    lemma_find_key(keys, destination, 0);
    let first = acquire(keys, destination);
    lemma_find_key(first.2, destination, 0);
    match find_key(keys, destination, 0) {
        Some(i) => {},
        None => {
            assert(first.2[keys.len() as int] == destination);
            assert(forall|j: int| 0 <= j < keys.len() ==> first.2[j] == keys[j]);
        },
    }
}

/// A client, once made, keeps its number and its destination whatever is asked
/// of the pool afterwards.
pub proof fn law_clients_are_kept(keys: Seq<Seq<char>>, destination: Seq<char>)
    ensures
        ({
            let after = acquire(keys, destination).2;
            keys.len() <= after.len() <= keys.len() + 1 && forall|j: int|
                0 <= j < keys.len() ==> after[j] == keys[j]
        }),
{
}

} // verus!
