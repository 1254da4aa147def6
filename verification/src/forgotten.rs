//! The programs that the user made the library forget.

use crate::text;
use vstd::prelude::*;

verus! {

/// A program on an endpoint: the endpoint first, then the program.
pub type Place = (Seq<char>, Seq<char>);

/// The programs that were forgotten, each on one endpoint.
#[derive(Debug)]
pub struct Forgotten {
    places: Vec<(String, String)>,
}

/// What a list of pairs of strings holds.
pub open spec fn pairs(places: Seq<(String, String)>) -> Seq<Place> {
    places.map_values(|place: (String, String)| (place.0@, place.1@))
}

impl View for Forgotten {
    type V = Set<Place>;

    closed spec fn view(&self) -> Set<Place> {
        pairs(self.places@).to_set()
    }
}

impl Forgotten {
    /// Nothing is forgotten.
    pub fn new() -> (forgotten: Self)
        ensures
            forgotten@ == Set::<Place>::empty(),
    {
        let forgotten = Forgotten { places: Vec::new() };
        assert(forgotten@ =~= Set::<Place>::empty());
        forgotten
    }

    /// Whether a program is forgotten on an endpoint.
    pub fn contains(&self, endpoint: &str, process: &str) -> (yes: bool)
        ensures
            yes == self@.contains((endpoint@, process@)),
    {
        let ghost all = pairs(self.places@);
        let mut i: usize = 0;
        while i < self.places.len()
            invariant
                i <= self.places@.len(),
                all == pairs(self.places@),
                forall|j: int| 0 <= j < i ==> (#[trigger] all[j]) != (endpoint@, process@),
            decreases self.places@.len() - i,
        {
            if text::same(self.places[i].0.as_str(), endpoint) && text::same(
                self.places[i].1.as_str(),
                process,
            ) {
                assert(all[i as int] == (endpoint@, process@));
                return true;
            }
            i += 1;
        }
        false
    }

    /// Forgets a program on an endpoint.
    pub fn insert(&mut self, endpoint: &str, process: &str)
        ensures
            final(self)@ == old(self)@.insert((endpoint@, process@)),
    {
        let ghost before = pairs(self.places@);
        let known = self.contains(endpoint, process);
        if !known {
            self.places.push((endpoint.to_owned(), process.to_owned()));
            proof {
                let after = pairs(self.places@);
                assert(after =~= before.push((endpoint@, process@)));
                pushed_is_held(before, (endpoint@, process@));
            }
        }
        assert(self@ =~= old(self)@.insert((endpoint@, process@)));
    }

    /// Takes a program on an endpoint out again.
    pub fn remove(&mut self, endpoint: &str, process: &str)
        ensures
            final(self)@ == old(self)@.remove((endpoint@, process@)),
    {
        let ghost gone = (endpoint@, process@);
        let ghost all = pairs(self.places@);
        let mut kept: Vec<(String, String)> = Vec::new();
        let mut i: usize = 0;
        assert(pairs(kept@).to_set() =~= all.take(0).to_set().remove(gone));
        while i < self.places.len()
            invariant
                i <= self.places@.len(),
                all == pairs(self.places@),
                gone == (endpoint@, process@),
                pairs(kept@).to_set() == all.take(i as int).to_set().remove(gone),
            decreases self.places@.len() - i,
        {
            let ghost here = all[i as int];
            let ghost before = pairs(kept@);
            proof {
                assert(all.take(i + 1) =~= all.take(i as int).push(here));
                pushed_is_held(all.take(i as int), here);
            }
            if !(text::same(self.places[i].0.as_str(), endpoint) && text::same(
                self.places[i].1.as_str(),
                process,
            )) {
                kept.push((self.places[i].0.clone(), self.places[i].1.clone()));
                proof {
                    assert(pairs(kept@) =~= before.push(here));
                    pushed_is_held(before, here);
                }
            }
            assert(pairs(kept@).to_set() =~= all.take(i + 1).to_set().remove(gone));
            i += 1;
        }
        assert(all.take(i as int) =~= all);
        self.places = kept;
    }
}

/// A list with one more item holds that item and those it held before.
proof fn pushed_is_held(places: Seq<Place>, last: Place)
    ensures
        places.push(last).to_set() == places.to_set().insert(last),
{
    let longer = places.push(last);
    assert forall|p: Place| longer.to_set().contains(p) == places.to_set().insert(last).contains(
        p,
    ) by {
        if places.contains(p) {
            let x = choose|x: int| 0 <= x < places.len() && places[x] == p;
            assert(longer[x] == p);
        }
        assert(longer[places.len() as int] == last);
    }
    assert(longer.to_set() =~= places.to_set().insert(last));
}

} // verus!
