//! How the network server announces itself: on which interfaces it answers,
//! and the service instance name it advertises.

use crate::midi::{contains_text, text_contains};
use crate::project_store::has_prefix;
use crate::text::{is_whitespace, push_char, trim, trim_end, trim_start};
use vstd::prelude::*;
use vstd::string::StringExecFns;

verus! {

/// `s` with `to` before each character and at its end (`str::replace`
/// with an empty pattern).
pub open spec fn interleave(s: Seq<char>, to: Seq<char>) -> Seq<char>
    decreases s.len(),
{
    if s.len() == 0 {
        to
    } else {
        to + seq![s[0]] + interleave(s.skip(1), to)
    }
}

/// `s` with each occurrence of `from` replaced by `to`, from left to right
/// (`str::replace`).
pub open spec fn replace_all(s: Seq<char>, from: Seq<char>, to: Seq<char>) -> Seq<char>
    decreases s.len(),
{
    if from.len() == 0 {
        interleave(s, to)
    } else if s.len() == 0 {
        s
    } else if has_prefix(s, from) {
        to + replace_all(s.skip(from.len() as int), from, to)
    } else {
        seq![s[0]] + replace_all(s.skip(1), from, to)
    }
}

fn interleave_text(s: &str, to: &str) -> (r: String)
    ensures
        r@ == interleave(s@, to@),
{
    let n = s.unicode_len();
    let mut out = String::new();
    let mut i: usize = 0;
    assert(s@.skip(0) =~= s@);
    while i < n
        invariant
            n == s@.len(),
            i <= n,
            out@ + interleave(s@.skip(i as int), to@) == interleave(s@, to@),
        decreases n - i,
    {
        let ghost rest = s@.skip(i as int);
        assert(rest.skip(1) =~= s@.skip(i + 1));
        assert(rest[0] == s@[i as int]);
        let ghost before = out@;
        out.append(to);
        push_char(&mut out, s.get_char(i));
        assert(out@ + interleave(s@.skip(i + 1), to@) =~= before + (to@ + seq![rest[0]] + interleave(
            rest.skip(1),
            to@,
        )));
        i = i + 1;
    }
    assert(s@.skip(n as int) =~= Seq::<char>::empty());
    out.append(to);
    out
}

/// `str::replace`.
pub fn replace_text(s: &str, from: &str, to: &str) -> (r: String)
    ensures
        r@ == replace_all(s@, from@, to@),
{
    let n = s.unicode_len();
    let m = from.unicode_len();
    if m == 0 {
        return interleave_text(s, to);
    }
    let mut out = String::new();
    let mut i: usize = 0;
    assert(s@.skip(0) =~= s@);
    while i < n
        invariant
            n == s@.len(),
            m == from@.len(),
            m > 0,
            i <= n,
            out@ + replace_all(s@.skip(i as int), from@, to@) == replace_all(s@, from@, to@),
        decreases n - i,
    {
        let ghost rest = s@.skip(i as int);
        if m <= n - i && crate::midi::str_equals(s.substring_char(i, i + m), from) {
            assert(s@.subrange(i as int, i + m) == rest.subrange(0, m as int));
            assert(has_prefix(rest, from@));
            assert(rest.skip(m as int) =~= s@.skip(i + m));
            out.append(to);
            i = i + m;
        } else {
            assert(!has_prefix(rest, from@)) by {
                if has_prefix(rest, from@) {
                    assert(rest.subrange(0, m as int) =~= s@.subrange(i as int, i + m));
                }
            }
            assert(rest.skip(1) =~= s@.skip(i + 1));
            assert(rest[0] == s@[i as int]);
            push_char(&mut out, s.get_char(i));
            assert(out@ + replace_all(s@.skip(i + 1), from@, to@) =~= (out@.drop_last() + seq![rest[0]])
                + replace_all(rest.skip(1), from@, to@));
            i = i + 1;
        }
    }
    assert(s@.skip(n as int) =~= Seq::<char>::empty());
    assert(out@ + Seq::<char>::empty() =~= out@);
    out
}

pub open spec fn ignored_interface_names() -> Seq<Seq<char>> {
    seq![
        "utun"@, "tun"@, "tap"@, "wg"@, "docker"@, "veth"@, "br-"@, "bridge"@, "virbr"@, "pdp_ip"@,
        "ipsec"@,
    ]
}

/// The server answers on IPv4 interfaces whose name holds none of the
/// names of tunnels, bridges and virtual interfaces.
pub fn should_respond_on_interface(is_ipv4: bool, name: &str) -> (r: bool)
    ensures
        r == (is_ipv4 && forall|k: int|
            0 <= k < ignored_interface_names().len() ==> !contains_text(
                name@,
                #[trigger] ignored_interface_names()[k],
            )),
{
    let ignored = ["utun", "tun", "tap", "wg", "docker", "veth", "br-", "bridge", "virbr", "pdp_ip", "ipsec"];
    assert(ignored@.map_values(|t: &str| t@) =~= ignored_interface_names());
    if !is_ipv4 {
        return false;
    }
    let mut k: usize = 0;
    while k < ignored.len()
        invariant
            k <= ignored@.len(),
            ignored@.len() == ignored_interface_names().len(),
            ignored@.map_values(|t: &str| t@) == ignored_interface_names(),
            forall|j: int| 0 <= j < k ==> !contains_text(name@, #[trigger] ignored_interface_names()[j]),
        decreases ignored@.len() - k,
    {
        assert(ignored@[k as int]@ == ignored_interface_names()[k as int]);
        if text_contains(name, ignored[k]) {
            return false;
        }
        k = k + 1;
    }
    true
}

/// `bloop-` and the address with its dots made dashes.
pub open spec fn spec_fallback_name(ip: Seq<char>) -> Seq<char> {
    "bloop-"@ + replace_all(ip, "."@, "-"@)
}

/// The instance name to fall back on: `bloop-` and the address, dashed.
pub fn safe_fallback_name(ip: &str) -> (r: String)
    ensures
        r@ == spec_fallback_name(ip@),
{
    proof {
        reveal_strlit(".");
    }
    let mut name = String::from_str("bloop-");
    let dashed = replace_text(ip, ".", "-");
    name.append(dashed.as_str());
    name
}

/// The host name without `.local` and `.lan`.
pub open spec fn cleaned_host_name(host_name: Seq<char>) -> Seq<char> {
    replace_all(replace_all(host_name, ".local"@, ""@), ".lan"@, ""@)
}

proof fn lemma_trim_start_empty(s: Seq<char>)
    ensures
        trim_start(s).len() == 0 <==> forall|i: int| 0 <= i < s.len() ==> is_whitespace(#[trigger] s[i]),
    decreases s.len(),
{
    if s.len() > 0 && is_whitespace(s[0]) {
        lemma_trim_start_empty(s.drop_first());
        assert forall|i: int| 0 <= i < s.len() && (forall|j: int| 0 <= j < s.drop_first().len() ==> is_whitespace(#[trigger] s.drop_first()[j])) implies is_whitespace(#[trigger] s[i]) by {
            if i > 0 {
                assert(s[i] == s.drop_first()[i - 1]);
            }
        }
        if forall|i: int| 0 <= i < s.len() ==> is_whitespace(#[trigger] s[i]) {
            assert forall|j: int| 0 <= j < s.drop_first().len() implies is_whitespace(#[trigger] s.drop_first()[j]) by {
                assert(s.drop_first()[j] == s[j + 1]);
            }
        }
    }
}

proof fn lemma_trim_end_keeps_first(s: Seq<char>)
    requires
        s.len() > 0,
        !is_whitespace(s[0]),
    ensures
        trim_end(s).len() > 0,
    decreases s.len(),
{
    if s.len() > 1 && is_whitespace(s.last()) {
        assert(s.drop_last()[0] == s[0]);
        lemma_trim_end_keeps_first(s.drop_last());
    }
}

proof fn lemma_trim_empty(s: Seq<char>)
    ensures
        trim(s).len() == 0 <==> forall|i: int| 0 <= i < s.len() ==> is_whitespace(#[trigger] s[i]),
{
    lemma_trim_start_empty(s);
    let t = trim_start(s);
    if t.len() > 0 {
        lemma_trim_start_first(s);
        lemma_trim_end_keeps_first(t);
    }
}

proof fn lemma_trim_start_first(s: Seq<char>)
    requires
        trim_start(s).len() > 0,
    ensures
        !is_whitespace(trim_start(s)[0]),
    decreases s.len(),
{
    if s.len() > 0 && is_whitespace(s[0]) {
        lemma_trim_start_first(s.drop_first());
    }
}

/// Whether `s` is empty after trimming.
pub fn is_blank(s: &str) -> (r: bool)
    ensures
        r == (trim(s@).len() == 0),
{
    proof {
        lemma_trim_empty(s@);
    }
    let n = s.unicode_len();
    let mut i: usize = 0;
    while i < n
        invariant
            n == s@.len(),
            i <= n,
            forall|j: int| 0 <= j < i ==> is_whitespace(#[trigger] s@[j]),
        decreases n - i,
    {
        if !crate::text::is_whitespace_char(s.get_char(i)) {
            proof {
                lemma_trim_empty(s@);
            }
            return false;
        }
        i = i + 1;
    }
    true
}

/// The advertised instance name: the host name (where it could be read as
/// text) without `.local` and `.lan`, unless nothing but whitespace is left;
/// otherwise the fallback name of the address.
pub fn service_instance_name(host_name: Option<&str>, ip: &str) -> (r: String)
    ensures
        r@ == match host_name {
            Some(h) => if trim(cleaned_host_name(h@)).len() == 0 {
                spec_fallback_name(ip@)
            } else {
                cleaned_host_name(h@)
            },
            None => spec_fallback_name(ip@),
        },
{
    let fallback = safe_fallback_name(ip);
    match host_name {
        Some(h) => {
            proof {
                reveal_strlit(".local");
                reveal_strlit(".lan");
                reveal_strlit("");
            }
            let without_local = replace_text(h, ".local", "");
            let clean = replace_text(without_local.as_str(), ".lan", "");
            if is_blank(clean.as_str()) {
                fallback
            } else {
                clean
            }
        },
        None => fallback,
    }
}

} // verus!
