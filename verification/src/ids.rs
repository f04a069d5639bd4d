//! Identifiers of samples, songs and projects.

use crate::text::push_char;
use rand::Rng;
use vstd::prelude::*;

verus! {

/// The identifier of a sample, song or section.
pub type ID = u64;

/// The identifier that names nothing.
pub const INVALID_ID: u64 = 0;

/// The number of characters of a project identifier.
pub const PROJECT_ID_LENGTH: usize = 15;

/// The characters project identifiers are made of: lower case letters and digits.
pub open spec fn is_project_id_char(c: char) -> bool {
    ('a' <= c <= 'z') || ('0' <= c <= '9')
}

/// `rand::rng().random::<u64>()`: a number drawn from the thread's generator.
#[verifier::external_body]
fn random_u64() -> u64 {
    rand::rng().random::<u64>()
}

/// `rand::rng().random_range(0..bound)`: an index drawn below `bound`
/// (the call panics on an empty range, which `requires` rules out).
#[verifier::external_body]
fn random_index(bound: usize) -> (r: usize)
    requires
        bound > 0,
    ensures
        r < bound,
{
    rand::rng().random_range(0..bound)
}

/// A random identifier; any value may come out.
pub fn random_id() -> ID {
    random_u64()
}

/// The character at `index` of `abcdefghijklmnopqrstuvwxyz0123456789`.
fn project_id_char(index: usize) -> (c: char)
    requires
        index < 36,
    ensures
        is_project_id_char(c),
        index < 26 ==> c as int == 'a' as int + index,
        index >= 26 ==> c as int == '0' as int + index - 26,
{
    if index < 26 {
        ((97u8 + index as u8) as char)
    } else {
        ((48u8 + (index - 26) as u8) as char)
    }
}

/// A random project identifier: fifteen characters, each a lower case
/// letter or a digit.
pub fn random_project_id() -> (r: String)
    ensures
        r@.len() == PROJECT_ID_LENGTH,
        forall|i: int| 0 <= i < r@.len() ==> is_project_id_char(#[trigger] r@[i]),
{
    let mut id = String::new();
    let mut k: usize = 0;
    while k < PROJECT_ID_LENGTH
        invariant
            k <= PROJECT_ID_LENGTH,
            id@.len() == k,
            forall|i: int| 0 <= i < id@.len() ==> is_project_id_char(#[trigger] id@[i]),
        decreases PROJECT_ID_LENGTH - k,
    {
        let index = random_index(36);
        push_char(&mut id, project_id_char(index));
        k = k + 1;
    }
    id
}

/// Whether `id` is in `ids`.
pub fn contains_id(ids: &Vec<u64>, id: u64) -> (r: bool)
    ensures
        r == ids@.contains(id),
{
    let mut i: usize = 0;
    while i < ids.len()
        invariant
            i <= ids@.len(),
            forall|j: int| 0 <= j < i ==> ids@[j] != id,
        decreases ids@.len() - i,
    {
        if ids[i] == id {
            assert(ids@[i as int] == id);
            return true;
        }
        i = i + 1;
    }
    false
}

/// Takes every `id` out of `ids`, keeping the others in order.
pub fn remove_id(ids: &mut Vec<u64>, id: u64)
    ensures
        final(ids)@ == old(ids)@.filter(|x: u64| x != id),
{
    let ghost given = ids@;
    let mut kept: Vec<u64> = Vec::new();
    let mut i: usize = 0;
    while i < ids.len()
        invariant
            i <= given.len(),
            ids@ == given,
            kept@ == given.take(i as int).filter(|x: u64| x != id),
        decreases given.len() - i,
    {
        let x = ids[i];
        if x != id {
            kept.push(x);
        }
        proof {
            reveal(Seq::filter);
            assert(given.take(i + 1).drop_last() =~= given.take(i as int));
            assert(given.take(i + 1).last() == x);
        }
        i = i + 1;
    }
    assert(given.take(i as int) =~= given);
    *ids = kept;
}

} // verus!
