//! Which samples have a waveform being generated, and whether a request for
//! one starts a generation.

use crate::ids::{contains_id, remove_id};
use crate::text::{decimal, u64_to_decimal};
use vstd::prelude::*;
use vstd::string::StringExecFns;

verus! {

/// The window lengths a waveform is computed at.
pub open spec fn spec_waveform_lengths() -> Seq<i32> {
    seq![512i32, 8192i32]
}

/// The window lengths a waveform is computed at.
pub fn waveform_lengths() -> (r: Vec<i32>)
    ensures
        r@ == spec_waveform_lengths(),
{
    let mut r: Vec<i32> = Vec::new();
    r.push(512);
    r.push(8192);
    assert(r@ =~= spec_waveform_lengths());
    r
}

/// The rate that waveforms are computed at.
pub const WAVEFORM_SAMPLE_RATE: usize = 44_100;

/// The samples whose waveform is being generated.
pub struct WaveformJobs {
    generating: Vec<u64>,
}

impl WaveformJobs {
    pub closed spec fn generating(&self) -> Set<u64> {
        self.generating@.to_set()
    }

    pub fn new() -> (r: Self)
        ensures
            r.generating() == Set::<u64>::empty(),
    {
        let r = WaveformJobs { generating: Vec::new() };
        assert(r.generating@.to_set() =~= Set::<u64>::empty());
        r
    }

    /// A generation finished (whatever its outcome).
    pub fn complete(&mut self, sample_id: u64)
        ensures
            final(self).generating() == old(self).generating().remove(sample_id),
    {
        let ghost before = self.generating@;
        remove_id(&mut self.generating, sample_id);
        proof {
            let after = self.generating@;
            assert forall|x: u64| after.to_set().contains(x) <==> before.to_set().remove(sample_id).contains(x) by {
                if after.contains(x) {
                    before.lemma_filter_contains_rev(|y: u64| y != sample_id, x);
                }
                if before.contains(x) && x != sample_id {
                    let k = choose|k: int| 0 <= k < before.len() && before[k] == x;
                    before.lemma_filter_contains(|y: u64| y != sample_id, k);
                }
            }
            assert(after.to_set() =~= before.to_set().remove(sample_id));
        }
    }

    /// A request for the waveform of a sample: nothing to do while one is
    /// being generated; refused when the sample is unknown or not cached;
    /// otherwise a generation starts (`Ok(true)`) and is recorded.
    pub fn request(&mut self, sample_id: u64, sample_found: bool, sample_cached: bool) -> (r: Result<bool, String>)
        ensures
            old(self).generating().contains(sample_id) ==> r == Ok::<bool, String>(false) && final(self).generating()
                == old(self).generating(),
            !old(self).generating().contains(sample_id) && !sample_found ==> (r matches Err(m) && m@
                == "Couldn't find sample with ID: "@ + decimal(sample_id as nat)) && final(self).generating()
                == old(self).generating(),
            !old(self).generating().contains(sample_id) && sample_found && !sample_cached ==> (r matches Err(m)
                && m@ == "Sample is not cached: "@ + decimal(sample_id as nat)) && final(self).generating()
                == old(self).generating(),
            !old(self).generating().contains(sample_id) && sample_found && sample_cached ==> r == Ok::<
                bool,
                String,
            >(true) && final(self).generating() == old(self).generating().insert(sample_id),
    {
        if contains_id(&self.generating, sample_id) {
            assert(self.generating@.to_set().contains(sample_id));
            return Ok(false);
        }
        assert(!self.generating@.to_set().contains(sample_id));
        if !sample_found {
            let mut m = String::from_str("Couldn't find sample with ID: ");
            m.append(u64_to_decimal(sample_id).as_str());
            return Err(m);
        }
        if !sample_cached {
            let mut m = String::from_str("Sample is not cached: ");
            m.append(u64_to_decimal(sample_id).as_str());
            return Err(m);
        }
        let ghost before = self.generating@;
        self.generating.push(sample_id);
        assert(self.generating@.to_set() =~= before.to_set().insert(sample_id)) by {
            assert forall|x: u64| self.generating@.contains(x) <==> before.to_set().insert(sample_id).contains(x) by {
                if self.generating@.contains(x) {
                    let k = choose|k: int| 0 <= k < self.generating@.len() && self.generating@[k] == x;
                    if k < before.len() {
                        assert(before[k] == x);
                    }
                }
                if before.contains(x) {
                    let k = choose|k: int| 0 <= k < before.len() && before[k] == x;
                    assert(self.generating@[k] == x);
                }
                if x == sample_id {
                    assert(self.generating@[before.len() as int] == x);
                }
            }
        }
        Ok(true)
    }
}

} // verus!
