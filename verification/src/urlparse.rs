//! Absolute-URL splitting.  A URL is accepted when it has the shape
//! `scheme://authority[/path][?query]` with a letter-led scheme and a
//! non-empty authority.  The parts are kept verbatim, so re-assembling
//! them yields the input bytes exactly.

use vstd::prelude::*;

verus! {

/// First index at or after `i` holding `b`, or the length if none does.
pub open spec fn find_from(s: Seq<u8>, i: int, b: u8) -> int
    decreases s.len() - i,
{
    if i < 0 || i >= s.len() {
        s.len() as int
    } else if s[i] == b {
        i
    } else {
        find_from(s, i + 1, b)
    }
}

pub proof fn lemma_find_from(s: Seq<u8>, i: int, b: u8)
    requires
        0 <= i <= s.len(),
    ensures
        i <= find_from(s, i, b) <= s.len(),
        find_from(s, i, b) < s.len() ==> s[find_from(s, i, b)] == b,
        forall|j: int| i <= j < find_from(s, i, b) ==> s[j] != b,
    decreases s.len() - i,
{
    if i < s.len() && s[i] != b {
        lemma_find_from(s, i + 1, b);
    }
}

/// First index at or after `i` holding a slash or a question mark, or
/// the length if none does.
pub open spec fn find_delim(s: Seq<u8>, i: int) -> int
    decreases s.len() - i,
{
    if i < 0 || i >= s.len() {
        s.len() as int
    } else if s[i] == 47 || s[i] == 63 {
        i
    } else {
        find_delim(s, i + 1)
    }
}

pub proof fn lemma_find_delim(s: Seq<u8>, i: int)
    requires
        0 <= i <= s.len(),
    ensures
        i <= find_delim(s, i) <= s.len(),
        find_delim(s, i) < s.len() ==> (s[find_delim(s, i)] == 47 || s[find_delim(s, i)] == 63),
        forall|j: int| i <= j < find_delim(s, i) ==> (s[j] != 47 && s[j] != 63),
    decreases s.len() - i,
{
    if i < s.len() && s[i] != 47 && s[i] != 63 {
        lemma_find_delim(s, i + 1);
    }
}

pub open spec fn is_alpha(b: u8) -> bool {
    (65 <= b && b <= 90) || (97 <= b && b <= 122)
}

pub open spec fn is_digit(b: u8) -> bool {
    48 <= b && b <= 57
}

/// A byte a URL scheme may contain after its first letter.
pub open spec fn is_scheme_byte(b: u8) -> bool {
    is_alpha(b) || is_digit(b) || b == 43 || b == 45 || b == 46
}

/// Index of the colon that ends the scheme.
pub open spec fn scheme_end(s: Seq<u8>) -> int {
    find_from(s, 0, 58)
}

/// Whether `s` is an absolute URL this pipeline accepts.
pub open spec fn url_well_formed(s: Seq<u8>) -> bool {
    let c = scheme_end(s);
    &&& 1 <= c
    &&& c + 3 <= s.len()
    &&& s[c + 1] == 47
    &&& s[c + 2] == 47
    &&& is_alpha(s[0])
    &&& forall|j: int| 0 <= j < c ==> is_scheme_byte(s[j])
    &&& find_delim(s, c + 3) > c + 3
}

/// The scheme, authority, path and query of an absolute URL, each kept
/// verbatim (the path may be empty; the query is present exactly when a
/// question mark is).
#[verifier::ext_equal]
pub struct SpecUrl {
    pub scheme: Seq<u8>,
    pub authority: Seq<u8>,
    pub path: Seq<u8>,
    pub query: Option<Seq<u8>>,
}

pub open spec fn spec_url_parts(s: Seq<u8>) -> SpecUrl {
    let c = scheme_end(s);
    let auth_end = find_delim(s, c + 3);
    let q = find_from(s, auth_end, 63);
    SpecUrl {
        scheme: s.subrange(0, c),
        authority: s.subrange(c + 3, auth_end),
        path: s.subrange(auth_end, q),
        query: if q < s.len() {
            Some(s.subrange(q + 1, s.len() as int))
        } else {
            None
        },
    }
}

/// The bytes a `SpecUrl` renders back to.
pub open spec fn spec_url_bytes(u: SpecUrl) -> Seq<u8> {
    u.scheme + seq![58u8, 47u8, 47u8] + u.authority + u.path + (match u.query {
        Some(q) => seq![63u8] + q,
        None => Seq::<u8>::empty(),
    })
}

/// Splitting a well-formed URL and re-assembling the parts yields the
/// input bytes exactly.
pub proof fn lemma_url_round_trip(s: Seq<u8>)
    requires
        url_well_formed(s),
    ensures
        spec_url_bytes(spec_url_parts(s)) == s,
{
    let c = scheme_end(s);
    lemma_find_from(s, 0, 58);
    lemma_find_delim(s, c + 3);
    let auth_end = find_delim(s, c + 3);
    lemma_find_from(s, auth_end, 63);
    assert(spec_url_bytes(spec_url_parts(s)) =~= s);
}

/// The exec form of a split URL; `@` gives the `SpecUrl`.
#[derive(Debug)]
pub struct UrlParts {
    pub scheme: Vec<u8>,
    pub authority: Vec<u8>,
    pub path: Vec<u8>,
    pub query: Option<Vec<u8>>,
}

impl View for UrlParts {
    type V = SpecUrl;

    open spec fn view(&self) -> SpecUrl {
        SpecUrl {
            scheme: self.scheme@,
            authority: self.authority@,
            path: self.path@,
            query: match self.query {
                Some(ref q) => Some(q@),
                None => None,
            },
        }
    }
}

/// Copies `v[a..b]` out as a fresh vector.
pub fn sub_vec(v: &Vec<u8>, a: usize, b: usize) -> (r: Vec<u8>)
    requires
        a <= b <= v@.len(),
    ensures
        r@ == v@.subrange(a as int, b as int),
{
    let mut r: Vec<u8> = Vec::new();
    let mut i: usize = a;
    while i < b
        invariant
            a <= i <= b <= v@.len(),
            r@ == v@.subrange(a as int, i as int),
        decreases b - i,
    {
        r.push(v[i]);
        proof {
            assert(v@.subrange(a as int, i + 1 as int) =~= v@.subrange(a as int, i as int).push(
                v@[i as int],
            ));
        }
        i = i + 1;
    }
    r
}

fn find_from_vec(v: &Vec<u8>, start: usize, b: u8) -> (r: usize)
    requires
        start <= v@.len(),
    ensures
        r == find_from(v@, start as int, b),
        start <= r <= v@.len(),
    decreases v@.len() - start,
{
    proof {
        lemma_find_from(v@, start as int, b);
    }
    if start >= v.len() {
        v.len()
    } else if v[start] == b {
        start
    } else {
        find_from_vec(v, start + 1, b)
    }
}

fn find_delim_vec(v: &Vec<u8>, start: usize) -> (r: usize)
    requires
        start <= v@.len(),
    ensures
        r == find_delim(v@, start as int),
        start <= r <= v@.len(),
    decreases v@.len() - start,
{
    proof {
        lemma_find_delim(v@, start as int);
    }
    if start >= v.len() {
        v.len()
    } else if v[start] == 47 || v[start] == 63 {
        start
    } else {
        find_delim_vec(v, start + 1)
    }
}

/// Splits an absolute URL into its parts; `None` exactly when the bytes
/// are not a well-formed absolute URL.
#[verifier::loop_isolation(false)]
pub fn parse_url(v: &Vec<u8>) -> (r: Option<UrlParts>)
    ensures
        r is Some <==> url_well_formed(v@),
        r matches Some(u) ==> u@ == spec_url_parts(v@),
{
    let c = find_from_vec(v, 0, 58);
    proof {
        lemma_find_from(v@, 0, 58);
    }
    if c >= v.len() || c < 1 {
        return None;
    }
    if v.len() - c < 3 {
        return None;
    }
    if v[c + 1] != 47 || v[c + 2] != 47 {
        return None;
    }
    if !(65 <= v[0] && v[0] <= 90) && !(97 <= v[0] && v[0] <= 122) {
        return None;
    }
    let mut j: usize = 0;
    while j < c
        invariant
            j <= c,
            c < v@.len(),
            forall|k: int| 0 <= k < j ==> is_scheme_byte(v@[k]),
        decreases c - j,
    {
        let b = v[j];
        let ok: bool = (65 <= b && b <= 90) || (97 <= b && b <= 122) || (48 <= b && b <= 57) || b
            == 43 || b == 45 || b == 46;
        if !ok {
            proof {
                assert(!is_scheme_byte(v@[j as int]));
            }
            return None;
        }
        j = j + 1;
    }
    let auth_start = c + 3;
    let auth_end = find_delim_vec(v, auth_start);
    if auth_end == auth_start {
        return None;
    }
    let q = find_from_vec(v, auth_end, 63);
    let query: Option<Vec<u8>> = if q < v.len() {
        Some(sub_vec(v, q + 1, v.len()))
    } else {
        None
    };
    Some(
        UrlParts {
            scheme: sub_vec(v, 0, c),
            authority: sub_vec(v, auth_start, auth_end),
            path: sub_vec(v, auth_end, q),
            query,
        },
    )
}

/// Renders the parts back to URL bytes.
pub fn url_to_bytes(u: &UrlParts) -> (r: Vec<u8>)
    ensures
        r@ == spec_url_bytes(u@),
{
    let mut r: Vec<u8> = Vec::new();
    crate::bytes::push_all(&mut r, &u.scheme);
    r.push(58);
    r.push(47);
    r.push(47);
    crate::bytes::push_all(&mut r, &u.authority);
    crate::bytes::push_all(&mut r, &u.path);
    match u.query {
        Some(ref q) => {
            r.push(63);
            crate::bytes::push_all(&mut r, q);
        },
        None => {},
    }
    proof {
        assert(r@ =~= spec_url_bytes(u@));
    }
    r
}

/// The query after appending one already-encoded `name=value` pair.
pub open spec fn spec_appended_query(q: Option<Seq<u8>>, enc: Seq<u8>) -> Seq<u8> {
    match q {
        None => enc,
        Some(old_q) => old_q + seq![38u8] + enc,
    }
}

/// Appends one already-encoded `name=value` pair to the query.
pub fn append_query(u: &mut UrlParts, enc: &Vec<u8>)
    ensures
        final(u)@.scheme == old(u)@.scheme,
        final(u)@.authority == old(u)@.authority,
        final(u)@.path == old(u)@.path,
        final(u)@.query == Some(spec_appended_query(old(u)@.query, enc@)),
{
    let mut new_q: Vec<u8> = Vec::new();
    let has_old: bool = match u.query {
        Some(ref q) => {
            crate::bytes::push_all(&mut new_q, q);
            new_q.push(38);
            true
        },
        None => false,
    };
    crate::bytes::push_all(&mut new_q, enc);
    proof {
        if has_old {
            assert(new_q@ =~= spec_appended_query(old(u)@.query, enc@));
        } else {
            assert(new_q@ =~= spec_appended_query(old(u)@.query, enc@));
        }
    }
    u.query = Some(new_q);
}

} // verus!
