//! Waveform peaks of a sample, grouped by how they were computed.
//!
//! Each peak is held as the bit pattern of its `f32` value (`f32::to_bits`).

use vstd::prelude::*;

verus! {

#[derive(Debug, Clone, Copy, PartialEq, Eq, Structural)]
pub enum WaveformAlgorithm {
    MIN,
    MAX,
}

/// How a group of peaks was computed: window length, channel, algorithm.
#[derive(Debug, Clone, Copy, PartialEq, Eq, Structural)]
pub struct WaveformProperties {
    pub length: i32,
    pub channel: i32,
    pub algorithm: WaveformAlgorithm,
}

/// The peaks computed with one set of properties.
#[derive(Debug)]
pub struct WaveformGroup {
    pub properties: Option<WaveformProperties>,
    pub value_bits: Vec<u32>,
}

/// The peaks of a sample.
#[derive(Debug)]
pub struct WaveformData {
    pub sample_rate: i32,
    pub peaks: Vec<WaveformGroup>,
}

pub open spec fn group_view(g: WaveformGroup) -> (Option<WaveformProperties>, Seq<u32>) {
    (g.properties, g.value_bits@)
}

pub open spec fn groups_view(groups: Seq<WaveformGroup>) -> Seq<(Option<WaveformProperties>, Seq<u32>)> {
    groups.map_values(|g: WaveformGroup| group_view(g))
}

impl View for WaveformData {
    type V = (i32, Seq<(Option<WaveformProperties>, Seq<u32>)>);

    open spec fn view(&self) -> (i32, Seq<(Option<WaveformProperties>, Seq<u32>)>) {
        (self.sample_rate, groups_view(self.peaks@))
    }
}

/// The order of groups: by window length, then by channel.
pub open spec fn key_le(a: WaveformProperties, b: WaveformProperties) -> bool {
    a.length < b.length || (a.length == b.length && a.channel <= b.channel)
}

/// Where a group with properties `p` goes in `sorted`: before the first
/// group that comes strictly after it, so that equal keys keep their order.
pub open spec fn insert_position(sorted: Seq<(Option<WaveformProperties>, Seq<u32>)>, p: WaveformProperties, i: int) -> int
    decreases sorted.len() - i,
{
    if i < 0 || i >= sorted.len() {
        sorted.len() as int
    } else if !key_le(sorted[i].0->0, p) {
        i
    } else {
        insert_position(sorted, p, i + 1)
    }
}

/// The groups sorted by key, groups with equal keys in their given order.
pub open spec fn stable_sort(groups: Seq<(Option<WaveformProperties>, Seq<u32>)>) -> Seq<
    (Option<WaveformProperties>, Seq<u32>),
>
    decreases groups.len(),
{
    if groups.len() == 0 {
        Seq::empty()
    } else {
        let sorted = stable_sort(groups.drop_last());
        let g = groups.last();
        sorted.insert(insert_position(sorted, g.0->0, 0), g)
    }
}

pub open spec fn all_have_properties(groups: Seq<(Option<WaveformProperties>, Seq<u32>)>) -> bool {
    forall|i: int| 0 <= i < groups.len() ==> (#[trigger] groups[i]).0 is Some
}

proof fn lemma_insert_position_bound(sorted: Seq<(Option<WaveformProperties>, Seq<u32>)>, p: WaveformProperties, i: int)
    requires
        0 <= i <= sorted.len(),
    ensures
        i <= insert_position(sorted, p, i) <= sorted.len(),
    decreases sorted.len() - i,
{
    if i < sorted.len() && key_le(sorted[i].0->0, p) {
        lemma_insert_position_bound(sorted, p, i + 1);
    }
}

proof fn lemma_stable_sort_properties(groups: Seq<(Option<WaveformProperties>, Seq<u32>)>)
    requires
        all_have_properties(groups),
    ensures
        all_have_properties(stable_sort(groups)),
        stable_sort(groups).len() == groups.len(),
    decreases groups.len(),
{
    if groups.len() > 0 {
        let rest = groups.drop_last();
        assert(all_have_properties(rest)) by {
            assert forall|i: int| 0 <= i < rest.len() implies (#[trigger] rest[i]).0 is Some by {
                assert(rest[i] == groups[i]);
            }
        }
        lemma_stable_sort_properties(rest);
        let sorted = stable_sort(rest);
        lemma_insert_position_bound(sorted, groups.last().0->0, 0);
        let pos = insert_position(sorted, groups.last().0->0, 0);
        assert(groups.last() == groups[groups.len() - 1]);
        let result = sorted.insert(pos, groups.last());
        assert forall|i: int| 0 <= i < result.len() implies (#[trigger] result[i]).0 is Some by {
            if i < pos {
                assert(result[i] == sorted[i]);
            } else if i > pos {
                assert(result[i] == sorted[i - 1]);
            }
        }
    }
}

impl WaveformData {
    /// No peaks yet, at the given sample rate.
    pub fn empty(sample_rate: i32) -> (r: Self)
        ensures
            r@ == (sample_rate, Seq::<(Option<WaveformProperties>, Seq<u32>)>::empty()),
    {
        let r = WaveformData { sample_rate, peaks: Vec::new() };
        assert(groups_view(r.peaks@) =~= Seq::<(Option<WaveformProperties>, Seq<u32>)>::empty());
        r
    }

    /// Sorts the groups by window length, then channel, keeping the order of
    /// groups with equal keys (every group has properties).
    pub fn sort(&mut self)
        requires
            all_have_properties(old(self)@.1),
        ensures
            final(self)@ == (old(self)@.0, stable_sort(old(self)@.1)),
    {
        let ghost given = self@.1;
        let mut remaining: Vec<WaveformGroup> = Vec::new();
        std::mem::swap(&mut remaining, &mut self.peaks);
        let total: usize = remaining.len();
        let mut sorted: Vec<WaveformGroup> = Vec::new();
        let mut k: usize = 0;
        let ghost n = given.len();
        assert(groups_view(remaining@) =~= given.skip(0));
        assert(given.take(0) =~= Seq::<(Option<WaveformProperties>, Seq<u32>)>::empty());
        while remaining.len() > 0
            invariant
                k <= n,
                n == given.len(),
                all_have_properties(given),
                remaining@.len() == n - k,
                total == n,
                groups_view(remaining@) == given.skip(k as int),
                groups_view(sorted@) == stable_sort(given.take(k as int)),
                self.sample_rate == old(self)@.0,
            decreases remaining@.len(),
        {
            let ghost before = remaining@;
            let group = remaining.remove(0);
            assert(remaining@ =~= before.subrange(1, before.len() as int));
            assert forall|j: int| 0 <= j < remaining@.len() implies #[trigger] groups_view(remaining@)[j]
                == given.skip(k + 1)[j] by {
                assert(remaining@[j] == before[j + 1]);
                assert(groups_view(before)[j + 1] == given.skip(k as int)[j + 1]);
            }
            assert(groups_view(remaining@) =~= given.skip(k + 1));
            assert(groups_view(before)[0] == given.skip(k as int)[0]);
            assert(group_view(group) == given[k as int]);
            let ghost prefix = given.take(k + 1);
            assert(prefix.drop_last() =~= given.take(k as int));
            assert(prefix.last() == given[k as int]);
            proof {
                assert(all_have_properties(given.take(k as int))) by {
                    assert forall|i: int| 0 <= i < given.take(k as int).len() implies (#[trigger] given.take(
                        k as int,
                    )[i]).0 is Some by {
                        assert(given.take(k as int)[i] == given[i]);
                    }
                }
                lemma_stable_sort_properties(given.take(k as int));
            }
            assert(given[k as int].0 is Some);
            let properties = match group.properties {
                Some(p) => p,
                None => {
                    proof {
                        assert(false);
                    }
                    WaveformProperties { length: 0, channel: 0, algorithm: WaveformAlgorithm::MIN }
                },
            };
            let ghost sorted_view = groups_view(sorted@);
            let mut pos: usize = 0;
            while pos < sorted.len() && comes_no_later(&sorted[pos].properties, &properties)
                invariant
                    pos <= sorted@.len(),
                    sorted_view == groups_view(sorted@),
                    all_have_properties(sorted_view),
                    insert_position(sorted_view, properties, 0) == insert_position(
                        sorted_view,
                        properties,
                        pos as int,
                    ),
                decreases sorted@.len() - pos,
            {
                pos = pos + 1;
            }
            proof {
                if pos < sorted_view.len() {
                    assert(sorted_view[pos as int].0 is Some);
                }
            }
            assert(insert_position(sorted_view, properties, pos as int) == pos);
            sorted.insert(pos, group);
            assert(groups_view(sorted@) =~= sorted_view.insert(pos as int, given[k as int]));
            k = k + 1;
        }
        assert(given.take(k as int) =~= given);
        self.peaks = sorted;
    }

    /// Adds the peaks of `other` after this data's own, unless `other` is
    /// equal to this data or has another sample rate.
    pub fn add(&mut self, other: Self)
        ensures
            final(self)@ == (if other@ == old(self)@ || other.sample_rate != old(self)@.0 {
                old(self)@
            } else {
                (old(self)@.0, old(self)@.1 + other@.1)
            }),
    {
        if data_equals(&other, self) {
            return;
        }
        if other.sample_rate != self.sample_rate {
            return;
        }
        let mut other = other;
        let ghost before = self.peaks@;
        let ghost added = other.peaks@;
        self.peaks.append(&mut other.peaks);
        assert(groups_view(self.peaks@) =~= groups_view(before) + groups_view(added));
    }

    /// Appends one peak (the bits of an `f32`) to the group with these
    /// properties, or starts a group for them.
    pub fn push(&mut self, properties: &WaveformProperties, value_bits: u32)
        ensures
            final(self)@.0 == old(self)@.0,
            match first_group_with(old(self)@.1, *properties, 0) {
                Some(i) => final(self)@.1 == old(self)@.1.update(
                    i,
                    (old(self)@.1[i].0, old(self)@.1[i].1.push(value_bits)),
                ),
                None => final(self)@.1 == old(self)@.1.push((Some(*properties), seq![value_bits])),
            },
    {
        let ghost groups = self@.1;
        let mut i: usize = 0;
        while i < self.peaks.len()
            invariant
                i <= self.peaks@.len(),
                groups == groups_view(self.peaks@),
                groups == old(self)@.1,
                first_group_with(groups, *properties, 0) == first_group_with(groups, *properties, i as int),
                self.sample_rate == old(self).sample_rate,
            decreases self.peaks@.len() - i,
        {
            let same = match self.peaks[i].properties {
                Some(p) => p == *properties,
                None => false,
            };
            if same {
                let ghost before = self.peaks@;
                assert(groups[i as int] == group_view(before[i as int]));
                assert(groups[i as int].0 == Some(*properties));
                assert(first_group_with(groups, *properties, i as int) == Some(i as int));
                let mut group = self.peaks.remove(i);
                group.value_bits.push(value_bits);
                self.peaks.insert(i, group);
                assert(groups_view(self.peaks@) =~= groups.update(
                    i as int,
                    (groups[i as int].0, groups[i as int].1.push(value_bits)),
                )) by {
                    assert forall|j: int| 0 <= j < self.peaks@.len() implies #[trigger] groups_view(self.peaks@)[j]
                        == groups.update(i as int, (groups[i as int].0, groups[i as int].1.push(value_bits)))[j] by {
                        if j != i {
                            assert(self.peaks@[j] == before[j]);
                        }
                    }
                }
                return;
            }
            i = i + 1;
        }
        let mut values: Vec<u32> = Vec::new();
        values.push(value_bits);
        self.peaks.push(WaveformGroup { properties: Some(*properties), value_bits: values });
        assert(groups_view(self.peaks@) =~= groups.push((Some(*properties), seq![value_bits])));
    }
}

/// Whether a group with properties `q` sorts no later than one with `p`.
fn comes_no_later(q: &Option<WaveformProperties>, p: &WaveformProperties) -> (r: bool)
    ensures
        r == (q is Some && key_le(q->0, *p)),
{
    match q {
        Some(q) => q.length < p.length || (q.length == p.length && q.channel <= p.channel),
        None => false,
    }
}

/// The first group, from position `i` on, with properties equal to `p`.
pub open spec fn first_group_with(groups: Seq<(Option<WaveformProperties>, Seq<u32>)>, p: WaveformProperties, i: int) -> Option<int>
    decreases groups.len() - i,
{
    if i < 0 || i >= groups.len() {
        None
    } else if groups[i].0 == Some(p) {
        Some(i)
    } else {
        first_group_with(groups, p, i + 1)
    }
}

fn bits_equal(a: &Vec<u32>, b: &Vec<u32>) -> (r: bool)
    ensures
        r == (a@ == b@),
{
    if a.len() != b.len() {
        return false;
    }
    let mut i: usize = 0;
    while i < a.len()
        invariant
            a@.len() == b@.len(),
            i <= a@.len(),
            forall|j: int| 0 <= j < i ==> a@[j] == b@[j],
        decreases a@.len() - i,
    {
        if a[i] != b[i] {
            return false;
        }
        i = i + 1;
    }
    assert(a@ =~= b@);
    true
}

/// Whether two waveforms hold the same sample rate and the same groups.
fn data_equals(a: &WaveformData, b: &WaveformData) -> (r: bool)
    ensures
        r == (a@ == b@),
{
    if a.sample_rate != b.sample_rate || a.peaks.len() != b.peaks.len() {
        assert(groups_view(a.peaks@).len() == a.peaks@.len());
        assert(groups_view(b.peaks@).len() == b.peaks@.len());
        return false;
    }
    let mut i: usize = 0;
    while i < a.peaks.len()
        invariant
            a.peaks@.len() == b.peaks@.len(),
            i <= a.peaks@.len(),
            forall|j: int| 0 <= j < i ==> group_view(#[trigger] a.peaks@[j]) == group_view(b.peaks@[j]),
        decreases a.peaks@.len() - i,
    {
        if a.peaks[i].properties != b.peaks[i].properties || !bits_equal(&a.peaks[i].value_bits, &b.peaks[i].value_bits) {
            assert(groups_view(a.peaks@)[i as int] != groups_view(b.peaks@)[i as int]);
            return false;
        }
        i = i + 1;
    }
    assert(groups_view(a.peaks@) =~= groups_view(b.peaks@));
    true
}

} // verus!
