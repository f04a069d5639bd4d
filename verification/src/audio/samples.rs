//! Which samples the engine converts and which samplers it drops, as the
//! project changes.

use crate::ids::{contains_id, remove_id};
use vstd::prelude::*;

verus! {

/// What the engine knows of the sample of one song.
#[derive(Debug, Clone, Copy, PartialEq, Eq, Structural)]
pub struct SongSample {
    pub id: u64,
    /// The engine already has a sampler for it.
    pub has_sampler: bool,
    /// The samples cache knows it.
    pub in_cache: bool,
    /// Its audio is in the cache.
    pub cached: bool,
}

/// The conversions to start for the songs' samples, and the samples being
/// converted after them: a sample is converted when it has no sampler, is
/// cached, and is not being converted already; each at most once.
pub open spec fn conversions(converting: Set<u64>, songs: Seq<Option<SongSample>>) -> (Set<u64>, Seq<u64>)
    decreases songs.len(),
{
    if songs.len() == 0 {
        (converting, Seq::empty())
    } else {
        let (c, out) = conversions(converting, songs.drop_last());
        match songs.last() {
            Some(s) => if !s.has_sampler && s.in_cache && s.cached && !c.contains(s.id) {
                (c.insert(s.id), out.push(s.id))
            } else {
                (c, out)
            },
            None => (c, out),
        }
    }
}

/// The samples being converted for the engine.
pub struct ConversionTracker {
    converting: Vec<u64>,
}

impl ConversionTracker {
    pub closed spec fn converting(&self) -> Set<u64> {
        self.converting@.to_set()
    }

    pub fn new() -> (r: Self)
        ensures
            r.converting() == Set::<u64>::empty(),
    {
        let r = ConversionTracker { converting: Vec::new() };
        assert(r.converting@.to_set() =~= Set::<u64>::empty());
        r
    }

    /// The engine stopped or restarts: nothing is being converted any more.
    pub fn clear(&mut self)
        ensures
            final(self).converting() == Set::<u64>::empty(),
    {
        self.converting = Vec::new();
        assert(self.converting@.to_set() =~= Set::<u64>::empty());
    }

    pub fn is_converting(&self, sample_id: u64) -> (r: bool)
        ensures
            r == self.converting().contains(sample_id),
    {
        contains_id(&self.converting, sample_id)
    }

    /// A conversion finished, whatever its outcome.
    pub fn finished(&mut self, sample_id: u64)
        ensures
            final(self).converting() == old(self).converting().remove(sample_id),
    {
        let ghost before = self.converting@;
        remove_id(&mut self.converting, sample_id);
        proof {
            let after = self.converting@;
            assert forall|x: u64| after.to_set().contains(x) <==> before.to_set().remove(sample_id).contains(x) by {
                if after.contains(x) {
                    before.lemma_filter_contains_rev(|y: u64| y != sample_id, x);
                }
                if before.contains(x) && x != sample_id {
                    let k = choose|k: int| 0 <= k < before.len() && before[k] == x;
                    before.lemma_filter_contains(|y: u64| y != sample_id, k);
                }
            }
            assert(after.to_set() =~= before.to_set().remove(sample_id));
        }
    }

    /// The samples of the project's songs to convert, in song order; they
    /// are recorded as being converted.
    pub fn samples_to_convert(&mut self, songs: &[Option<SongSample>]) -> (r: Vec<u64>)
        ensures
            (final(self).converting(), r@) == conversions(old(self).converting(), songs@),
    {
        let ghost start = self.converting();
        let mut out: Vec<u64> = Vec::new();
        let mut i: usize = 0;
        while i < songs.len()
            invariant
                i <= songs@.len(),
                (self.converting(), out@) == conversions(start, songs@.take(i as int)),
            decreases songs@.len() - i,
        {
            let ghost prefix = songs@.take(i + 1);
            assert(prefix.drop_last() =~= songs@.take(i as int));
            assert(prefix.last() == songs@[i as int]);
            match songs[i] {
                Some(s) => {
                    if !s.has_sampler && s.in_cache && s.cached && !self.is_converting(s.id) {
                        let ghost before = self.converting@;
                        self.converting.push(s.id);
                        assert(self.converting@.to_set() =~= before.to_set().insert(s.id)) by {
                            assert forall|x: u64| #[trigger] self.converting@.contains(x) <==> before.to_set().insert(
                                s.id,
                            ).contains(x) by {
                                if self.converting@.contains(x) {
                                    let k = choose|k: int| 0 <= k < self.converting@.len() && self.converting@[k] == x;
                                    if k < before.len() {
                                        assert(before[k] == x);
                                    }
                                }
                                if before.contains(x) {
                                    let k = choose|k: int| 0 <= k < before.len() && before[k] == x;
                                    assert(self.converting@[k] == x);
                                }
                                if x == s.id {
                                    assert(self.converting@[before.len() as int] == x);
                                }
                            }
                        }
                        out.push(s.id);
                    }
                },
                None => {},
            }
            i = i + 1;
        }
        assert(songs@.take(i as int) =~= songs@);
        out
    }
}

/// The samplers to drop: those whose sample the project no longer uses, in
/// the order given.
pub fn samplers_to_remove(sampler_ids: &[u64], project_sample_ids: &Vec<u64>) -> (r: Vec<u64>)
    ensures
        r@ == sampler_ids@.filter(|id: u64| !project_sample_ids@.contains(id)),
{
    let mut out: Vec<u64> = Vec::new();
    let mut i: usize = 0;
    while i < sampler_ids.len()
        invariant
            i <= sampler_ids@.len(),
            out@ == sampler_ids@.take(i as int).filter(|id: u64| !project_sample_ids@.contains(id)),
        decreases sampler_ids@.len() - i,
    {
        let id = sampler_ids[i];
        if !contains_id(project_sample_ids, id) {
            out.push(id);
        }
        proof {
            reveal(Seq::filter);
            assert(sampler_ids@.take(i + 1).drop_last() =~= sampler_ids@.take(i as int));
            assert(sampler_ids@.take(i + 1).last() == id);
        }
        i = i + 1;
    }
    assert(sampler_ids@.take(i as int) =~= sampler_ids@);
    out
}

} // verus!
