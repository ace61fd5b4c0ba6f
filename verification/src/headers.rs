//! Header parsing and assembly.  A header set is an ordered sequence of
//! `(name, value)` pairs; merge decisions compare names ASCII
//! case-insensitively.  Implicit headers (user agent, content type,
//! content hash) lose to explicit user headers of the same name and are
//! never duplicated; explicit duplicates are preserved verbatim.

use vstd::prelude::*;
use crate::bytes::{lower_seq, lower_vec, bytes_eq, copy_vec};
use crate::urlparse::{find_from, lemma_find_from, is_alpha, is_digit};

verus! {

/// The mathematical view of a header list: each pair as byte sequences.
pub open spec fn hview(v: Seq<(Vec<u8>, Vec<u8>)>) -> Seq<(Seq<u8>, Seq<u8>)> {
    v.map_values(|p: (Vec<u8>, Vec<u8>)| (p.0@, p.1@))
}

/// A byte an HTTP token may contain.
pub open spec fn is_tchar(b: u8) -> bool {
    ||| is_alpha(b)
    ||| is_digit(b)
    ||| b == 33
    ||| b == 35
    ||| b == 36
    ||| b == 37
    ||| b == 38
    ||| b == 39
    ||| b == 42
    ||| b == 43
    ||| b == 45
    ||| b == 46
    ||| b == 94
    ||| b == 95
    ||| b == 96
    ||| b == 124
    ||| b == 126
}

/// A non-empty string of token bytes, as HTTP method and auth scheme
/// names must be.
pub open spec fn is_token(s: Seq<u8>) -> bool {
    s.len() >= 1 && forall|i: int| 0 <= i < s.len() ==> is_tchar(s[i])
}

/// Decides `is_token` on a byte vector.
#[verifier::loop_isolation(false)]
pub fn check_token(v: &Vec<u8>) -> (r: bool)
    ensures
        r == is_token(v@),
{
    if v.len() == 0 {
        return false;
    }
    let mut i: usize = 0;
    while i < v.len()
        invariant
            i <= v@.len(),
            forall|j: int| 0 <= j < i ==> is_tchar(v@[j]),
        decreases v@.len() - i,
    {
        let b = v[i];
        let ok: bool = (65 <= b && b <= 90) || (97 <= b && b <= 122) || (48 <= b && b <= 57) || b
            == 33 || b == 35 || b == 36 || b == 37 || b == 38 || b == 39 || b == 42 || b == 43 || b
            == 45 || b == 46 || b == 94 || b == 95 || b == 96 || b == 124 || b == 126;
        if !ok {
            proof {
                assert(!is_tchar(v@[i as int]));
            }
            return false;
        }
        i = i + 1;
    }
    true
}

/// First index at or after `i` that is not a space.
pub open spec fn skip_spaces(s: Seq<u8>, i: int) -> int
    decreases s.len() - i,
{
    if i < 0 || i >= s.len() {
        s.len() as int
    } else if s[i] != 32 {
        i
    } else {
        skip_spaces(s, i + 1)
    }
}

pub proof fn lemma_skip_spaces(s: Seq<u8>, i: int)
    requires
        0 <= i <= s.len(),
    ensures
        i <= skip_spaces(s, i) <= s.len(),
    decreases s.len() - i,
{
    if i < s.len() && s[i] == 32 {
        lemma_skip_spaces(s, i + 1);
    }
}

/// Whether a raw `-H` argument is well formed: it has a colon, and a
/// non-empty name before it.
pub open spec fn header_line_ok(s: Seq<u8>) -> bool {
    1 <= find_from(s, 0, 58) < s.len()
}

/// The name of a well-formed header argument: the bytes before the
/// first colon.
pub open spec fn spec_header_name(s: Seq<u8>) -> Seq<u8> {
    s.subrange(0, find_from(s, 0, 58))
}

/// The value of a well-formed header argument: the bytes after the
/// first colon, with leading spaces dropped.
pub open spec fn spec_header_value(s: Seq<u8>) -> Seq<u8> {
    s.subrange(skip_spaces(s, find_from(s, 0, 58) + 1), s.len() as int)
}

/// Splits a raw `-H` argument at its first colon and trims the spaces
/// that lead the value; `None` exactly on a malformed argument.
#[verifier::loop_isolation(false)]
pub fn parse_header_line(raw: &Vec<u8>) -> (r: Option<(Vec<u8>, Vec<u8>)>)
    ensures
        r is Some <==> header_line_ok(raw@),
        r matches Some(p) ==> p.0@ == spec_header_name(raw@) && p.1@ == spec_header_value(raw@),
{
    proof {
        lemma_find_from(raw@, 0, 58);
    }
    let mut c: usize = 0;
    while c < raw.len() && raw[c] != 58
        invariant
            c <= raw@.len(),
            forall|j: int| 0 <= j < c ==> raw@[j] != 58,
        decreases raw@.len() - c,
    {
        c = c + 1;
    }
    proof {
        assert(c as int == find_from(raw@, 0, 58)) by {
            lemma_find_from(raw@, 0, 58);
            assert(forall|j: int| 0 <= j < c ==> raw@[j] != 58);
        }
    }
    if c >= raw.len() || c < 1 {
        return None;
    }
    proof {
        lemma_skip_spaces(raw@, c + 1);
    }
    let mut vstart: usize = c + 1;
    while vstart < raw.len() && raw[vstart] == 32
        invariant
            c + 1 <= vstart <= raw@.len(),
            skip_spaces(raw@, c + 1 as int) == skip_spaces(raw@, vstart as int),
        decreases raw@.len() - vstart,
    {
        vstart = vstart + 1;
    }
    let name = crate::urlparse::sub_vec(raw, 0, c);
    let value = crate::urlparse::sub_vec(raw, vstart, raw.len());
    Some((name, value))
}

/// Case-insensitive equality of two header names.
pub open spec fn name_matches(a: Seq<u8>, b: Seq<u8>) -> bool {
    lower_seq(a) == lower_seq(b)
}

/// Whether some pair of `hs` carries the name `name` (case-insensitively).
pub open spec fn names_contain(hs: Seq<(Seq<u8>, Seq<u8>)>, name: Seq<u8>) -> bool {
    exists|i: int| 0 <= i < hs.len() && name_matches(hs[i].0, name)
}

/// The implicit pairs that survive beside the explicit ones: those
/// whose name no explicit pair carries.
pub open spec fn filter_implicit(
    imp: Seq<(Seq<u8>, Seq<u8>)>,
    exp: Seq<(Seq<u8>, Seq<u8>)>,
) -> Seq<(Seq<u8>, Seq<u8>)>
    decreases imp.len(),
{
    if imp.len() == 0 {
        Seq::<(Seq<u8>, Seq<u8>)>::empty()
    } else {
        filter_implicit(imp.drop_last(), exp) + (if names_contain(exp, imp.last().0) {
            Seq::<(Seq<u8>, Seq<u8>)>::empty()
        } else {
            seq![imp.last()]
        })
    }
}

/// The assembled header set: surviving implicit pairs in order, then
/// every explicit pair verbatim.
pub open spec fn spec_assemble(
    imp: Seq<(Seq<u8>, Seq<u8>)>,
    exp: Seq<(Seq<u8>, Seq<u8>)>,
) -> Seq<(Seq<u8>, Seq<u8>)> {
    filter_implicit(imp, exp) + exp
}

/// Decides `names_contain` over a header vector.
#[verifier::loop_isolation(false)]
pub fn contains_name(hs: &Vec<(Vec<u8>, Vec<u8>)>, name: &Vec<u8>) -> (r: bool)
    ensures
        r == names_contain(hview(hs@), name@),
{
    let folded = lower_vec(name);
    let mut i: usize = 0;
    while i < hs.len()
        invariant
            i <= hs@.len(),
            folded@ == lower_seq(name@),
            forall|j: int| 0 <= j < i ==> !name_matches(hview(hs@)[j].0, name@),
        decreases hs@.len() - i,
    {
        let entry_folded = lower_vec(&hs[i].0);
        if bytes_eq(&entry_folded, &folded) {
            proof {
                assert(name_matches(hview(hs@)[i as int].0, name@));
            }
            return true;
        }
        proof {
            assert(!name_matches(hview(hs@)[i as int].0, name@));
        }
        i = i + 1;
    }
    false
}

/// Assembles the final header set from implicit and explicit pairs.
#[verifier::loop_isolation(false)]
pub fn assemble_headers(imp: &Vec<(Vec<u8>, Vec<u8>)>, exp: &Vec<(Vec<u8>, Vec<u8>)>) -> (r: Vec<
    (Vec<u8>, Vec<u8>),
>)
    ensures
        hview(r@) == spec_assemble(hview(imp@), hview(exp@)),
{
    let mut r: Vec<(Vec<u8>, Vec<u8>)> = Vec::new();
    let mut i: usize = 0;
    while i < imp.len()
        invariant
            i <= imp@.len(),
            hview(r@) == filter_implicit(hview(imp@).take(i as int), hview(exp@)),
        decreases imp@.len() - i,
    {
        proof {
            assert(hview(imp@).take(i + 1 as int).drop_last() =~= hview(imp@).take(i as int));
            assert(hview(imp@).take(i + 1 as int).last() == hview(imp@)[i as int]);
        }
        if !contains_name(exp, &imp[i].0) {
            let n = copy_vec(&imp[i].0);
            let v = copy_vec(&imp[i].1);
            r.push((n, v));
        }
        proof {
            assert(hview(r@) =~= filter_implicit(hview(imp@).take(i + 1 as int), hview(exp@)));
        }
        i = i + 1;
    }
    proof {
        assert(hview(imp@).take(imp@.len() as int) =~= hview(imp@));
    }
    let mut k: usize = 0;
    while k < exp.len()
        invariant
            k <= exp@.len(),
            hview(r@) == filter_implicit(hview(imp@), hview(exp@)) + hview(exp@).take(k as int),
        decreases exp@.len() - k,
    {
        let n = copy_vec(&exp[k].0);
        let v = copy_vec(&exp[k].1);
        let ghost r_before = r@;
        r.push((n, v));
        proof {
            assert(hview(r@) =~= hview(r_before).push((exp@[k as int].0@, exp@[k as int].1@)));
            assert(hview(exp@).take(k + 1 as int) =~= hview(exp@).take(k as int).push(
                hview(exp@)[k as int],
            ));
            assert(hview(r@) =~= filter_implicit(hview(imp@), hview(exp@)) + hview(exp@).take(
                k + 1 as int,
            ));
        }
        k = k + 1;
    }
    proof {
        assert(hview(exp@).take(exp@.len() as int) =~= hview(exp@));
        assert(hview(r@) =~= spec_assemble(hview(imp@), hview(exp@)));
    }
    r
}

/// How many pairs of `hs` carry the name `name` (case-insensitively).
pub open spec fn count_name(hs: Seq<(Seq<u8>, Seq<u8>)>, name: Seq<u8>) -> nat
    decreases hs.len(),
{
    if hs.len() == 0 {
        0
    } else {
        count_name(hs.drop_last(), name) + (if name_matches(hs.last().0, name) {
            1nat
        } else {
            0nat
        })
    }
}

pub proof fn lemma_count_concat(a: Seq<(Seq<u8>, Seq<u8>)>, b: Seq<(Seq<u8>, Seq<u8>)>, name: Seq<
    u8,
>)
    ensures
        count_name(a + b, name) == count_name(a, name) + count_name(b, name),
    decreases b.len(),
{
    if b.len() == 0 {
        assert(a + b =~= a);
    } else {
        assert((a + b).drop_last() =~= a + b.drop_last());
        assert((a + b).last() == b.last());
        lemma_count_concat(a, b.drop_last(), name);
    }
}

proof fn lemma_filter_count_zero(
    imp: Seq<(Seq<u8>, Seq<u8>)>,
    exp: Seq<(Seq<u8>, Seq<u8>)>,
    name: Seq<u8>,
)
    requires
        names_contain(exp, name),
    ensures
        count_name(filter_implicit(imp, exp), name) == 0,
    decreases imp.len(),
{
    if imp.len() > 0 {
        lemma_filter_count_zero(imp.drop_last(), exp, name);
        if names_contain(exp, imp.last().0) {
            assert(filter_implicit(imp, exp) =~= filter_implicit(imp.drop_last(), exp));
        } else {
            lemma_count_concat(filter_implicit(imp.drop_last(), exp), seq![imp.last()], name);
            assert(!name_matches(imp.last().0, name)) by {
                if name_matches(imp.last().0, name) {
                    let w = choose|i: int|
                        0 <= i < exp.len() && name_matches(exp[i].0, name);
                    assert(name_matches(exp[w].0, imp.last().0));
                }
            }
            assert(count_name(seq![imp.last()], name) == 0) by {
                let s1 = seq![imp.last()];
                assert(s1.len() == 1);
                assert(s1.last() == imp.last());
                assert(s1.drop_last() =~= Seq::<(Seq<u8>, Seq<u8>)>::empty());
                assert(count_name(s1.drop_last(), name) == 0);
                assert(!name_matches(s1.last().0, name));
            }
        }
    }
}

/// Explicit headers win: when the explicit list carries a name, the
/// assembled set carries that name exactly as often as the explicit
/// list does — every implicit pair of that name is gone, none is
/// duplicated.
pub proof fn lemma_explicit_header_wins(
    imp: Seq<(Seq<u8>, Seq<u8>)>,
    exp: Seq<(Seq<u8>, Seq<u8>)>,
    name: Seq<u8>,
)
    requires
        names_contain(exp, name),
    ensures
        count_name(spec_assemble(imp, exp), name) == count_name(exp, name),
{
    lemma_filter_count_zero(imp, exp, name);
    lemma_count_concat(filter_implicit(imp, exp), exp, name);
}

} // verus!
