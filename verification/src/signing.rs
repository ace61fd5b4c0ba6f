//! The signing strategy: one of four modes, selected once from the
//! validated options.  A signer never mutates the request; it returns a
//! `SignedAugmentation` — header, query and body additions — that the
//! request assembler applies.  The concrete keyed digest here is a
//! stand-in for a real HMAC scheme and is swappable without touching
//! the pipeline: every contract goes through `spec_signature`.

use vstd::prelude::*;
use crate::bytes::{
    lower_seq, lower_vec, push_all, copy_vec, dec_seq, dec_vec, hex_seq, hex_vec, digest_from,
    digest_vec,
};
use crate::errors::SigningError;
use crate::headers::{hview, is_token, check_token};
use crate::literals::{
    spec_authorization_name, authorization_name, spec_auth_date_name, auth_date_name,
    spec_auth_region_name, auth_region_name, spec_q_access_key, q_access_key, spec_q_timestamp,
    q_timestamp, spec_q_signature, q_signature, spec_default_scheme, default_scheme,
    spec_policy_header_name, policy_header_name, spec_policy_sig_header_name,
    policy_sig_header_name, spec_policy_field, policy_field, spec_signature_field,
    signature_field,
};
use crate::body::{pct_seq, pct_vec};
use crate::options::OptionModel;
use crate::urlparse::{SpecUrl, find_from, lemma_find_from};

verus! {

/// The initial state of the keyed digest.
pub const DIGEST_INIT: u64 = 0x517cc1b727220a95;

/// Lexicographic (byte-wise) order on byte sequences.
pub open spec fn lex_le(a: Seq<u8>, b: Seq<u8>) -> bool
    decreases a.len(),
{
    if a.len() == 0 {
        true
    } else if b.len() == 0 {
        false
    } else if a[0] < b[0] {
        true
    } else if a[0] > b[0] {
        false
    } else {
        lex_le(a.drop_first(), b.drop_first())
    }
}

fn lex_le_at(a: &Vec<u8>, b: &Vec<u8>, i: usize) -> (r: bool)
    requires
        i <= a@.len(),
        i <= b@.len(),
    ensures
        r == lex_le(a@.skip(i as int), b@.skip(i as int)),
    decreases a@.len() - i,
{
    proof {
        assert(a@.skip(i as int).len() == a@.len() - i);
        assert(b@.skip(i as int).len() == b@.len() - i);
        if i < a.len() && i < b.len() {
            assert(a@.skip(i as int)[0] == a@[i as int]);
            assert(b@.skip(i as int)[0] == b@[i as int]);
            assert(a@.skip(i as int).drop_first() =~= a@.skip(i + 1 as int));
            assert(b@.skip(i as int).drop_first() =~= b@.skip(i + 1 as int));
        }
    }
    if i >= a.len() {
        true
    } else if i >= b.len() {
        false
    } else if a[i] < b[i] {
        true
    } else if a[i] > b[i] {
        false
    } else {
        lex_le_at(a, b, i + 1)
    }
}

/// Decides the lexicographic order on two byte vectors.
pub fn lex_le_vec(a: &Vec<u8>, b: &Vec<u8>) -> (r: bool)
    ensures
        r == lex_le(a@, b@),
{
    let r = lex_le_at(a, b, 0);
    proof {
        assert(a@.skip(0) =~= a@);
        assert(b@.skip(0) =~= b@);
    }
    r
}

/// The view of a list of byte vectors.
pub open spec fn vview(v: Seq<Vec<u8>>) -> Seq<Seq<u8>> {
    v.map_values(|x: Vec<u8>| x@)
}

/// `x` inserted in front of the first element it precedes.
pub open spec fn insert_sorted(x: Seq<u8>, s: Seq<Seq<u8>>) -> Seq<Seq<u8>>
    decreases s.len(),
{
    if s.len() == 0 {
        seq![x]
    } else if lex_le(x, s[0]) {
        seq![x] + s
    } else {
        seq![s[0]] + insert_sorted(x, s.drop_first())
    }
}

/// Insertion sort of byte strings under `lex_le`.
pub open spec fn sort_lex(s: Seq<Seq<u8>>) -> Seq<Seq<u8>>
    decreases s.len(),
{
    if s.len() == 0 {
        Seq::<Seq<u8>>::empty()
    } else {
        insert_sorted(s.last(), sort_lex(s.drop_last()))
    }
}

proof fn lemma_insert_at(x: Seq<u8>, s: Seq<Seq<u8>>, j: int)
    requires
        0 <= j <= s.len(),
        forall|k: int| 0 <= k < j ==> !lex_le(x, s[k]),
        j < s.len() ==> lex_le(x, s[j]),
    ensures
        insert_sorted(x, s) == s.take(j) + seq![x] + s.skip(j),
    decreases j,
{
    if j == 0 {
        if s.len() == 0 {
            assert(insert_sorted(x, s) =~= s.take(0) + seq![x] + s.skip(0));
        } else {
            assert(insert_sorted(x, s) =~= s.take(0) + seq![x] + s.skip(0));
        }
    } else {
        assert(!lex_le(x, s[0]));
        let t = s.drop_first();
        assert(forall|k: int| 0 <= k < j - 1 ==> !lex_le(x, #[trigger] t[k])) by {
            assert(forall|k: int| 0 <= k < j - 1 ==> t[k] == s[k + 1]);
        }
        lemma_insert_at(x, t, j - 1);
        assert(insert_sorted(x, s) == seq![s[0]] + insert_sorted(x, t));
        assert(seq![s[0]] + (t.take(j - 1) + seq![x] + t.skip(j - 1)) =~= s.take(j) + seq![x]
            + s.skip(j));
    }
}

/// Inserts `x` into an already sorted vector at its position.
#[verifier::loop_isolation(false)]
pub fn insert_lex(r: &mut Vec<Vec<u8>>, x: Vec<u8>)
    ensures
        vview(final(r)@) == insert_sorted(x@, vview(old(r)@)),
{
    let mut j: usize = 0;
    while j < r.len() && !lex_le_vec(&x, &r[j])
        invariant
            j <= r@.len(),
            r@ == old(r)@,
            forall|k: int| 0 <= k < j ==> !lex_le(x@, vview(r@)[k]),
        decreases r@.len() - j,
    {
        proof {
            assert(!lex_le(x@, vview(r@)[j as int]));
        }
        j = j + 1;
    }
    proof {
        if j < r@.len() {
            assert(lex_le(x@, vview(r@)[j as int]));
        }
        lemma_insert_at(x@, vview(r@), j as int);
    }
    let ghost before = r@;
    r.insert(j, x);
    proof {
        assert(vview(r@) =~= vview(before).take(j as int) + seq![x@] + vview(before).skip(
            j as int,
        ));
    }
}

/// Sorts a list of byte strings lexicographically.
#[verifier::loop_isolation(false)]
pub fn sort_lex_vec(v: &Vec<Vec<u8>>) -> (r: Vec<Vec<u8>>)
    ensures
        vview(r@) == sort_lex(vview(v@)),
{
    let mut r: Vec<Vec<u8>> = Vec::new();
    let mut i: usize = 0;
    while i < v.len()
        invariant
            i <= v@.len(),
            vview(r@) == sort_lex(vview(v@).take(i as int)),
        decreases v@.len() - i,
    {
        let x = copy_vec(&v[i]);
        insert_lex(&mut r, x);
        proof {
            assert(vview(v@).take(i + 1 as int).drop_last() =~= vview(v@).take(i as int));
            assert(vview(v@).take(i + 1 as int).last() == vview(v@)[i as int]);
        }
        i = i + 1;
    }
    proof {
        assert(vview(v@).take(v@.len() as int) =~= vview(v@));
    }
    r
}

/// The pieces of `s` between occurrences of `sep`.
pub open spec fn split_byte(s: Seq<u8>, sep: u8) -> Seq<Seq<u8>>
    decreases s.len(),
    via split_byte_dec
{
    if find_from(s, 0, sep) >= s.len() {
        seq![s]
    } else {
        seq![s.take(find_from(s, 0, sep))] + split_byte(
            s.skip(find_from(s, 0, sep) + 1),
            sep,
        )
    }
}

#[via_fn]
proof fn split_byte_dec(s: Seq<u8>, sep: u8) {
    lemma_find_from(s, 0, sep);
}

/// Splits a byte vector on a separator byte.
pub fn split_vec(v: &Vec<u8>, sep: u8) -> (r: Vec<Vec<u8>>)
    ensures
        vview(r@) == split_byte(v@, sep),
    decreases v@.len(),
{
    proof {
        lemma_find_from(v@, 0, sep);
    }
    let mut j: usize = 0;
    while j < v.len() && v[j] != sep
        invariant
            j <= v@.len(),
            forall|k: int| 0 <= k < j ==> v@[k] != sep,
        decreases v@.len() - j,
    {
        j = j + 1;
    }
    proof {
        assert(j as int == find_from(v@, 0, sep)) by {
            lemma_find_from(v@, 0, sep);
        }
    }
    if j >= v.len() {
        let mut r: Vec<Vec<u8>> = Vec::new();
        r.push(copy_vec(v));
        proof {
            assert(vview(r@) =~= split_byte(v@, sep));
        }
        r
    } else {
        let head = crate::urlparse::sub_vec(v, 0, j);
        let tail = crate::urlparse::sub_vec(v, j + 1, v.len());
        proof {
            assert(tail@ =~= v@.skip(j + 1 as int));
            assert(head@ =~= v@.take(j as int));
        }
        let mut rest = split_vec(&tail, sep);
        let ghost rest_view = rest@;
        let mut r: Vec<Vec<u8>> = Vec::new();
        r.push(head);
        r.append(&mut rest);
        proof {
            assert(vview(r@) =~= seq![v@.take(j as int)] + vview(rest_view));
        }
        r
    }
}

/// The parts joined with a separator byte.
pub open spec fn join_byte(parts: Seq<Seq<u8>>, sep: u8) -> Seq<u8>
    decreases parts.len(),
{
    if parts.len() == 0 {
        Seq::<u8>::empty()
    } else if parts.len() == 1 {
        parts[0]
    } else {
        join_byte(parts.drop_last(), sep) + seq![sep] + parts.last()
    }
}

/// Joins byte vectors with a separator byte.
#[verifier::loop_isolation(false)]
pub fn join_vec(parts: &Vec<Vec<u8>>, sep: u8) -> (r: Vec<u8>)
    ensures
        r@ == join_byte(vview(parts@), sep),
{
    let mut r: Vec<u8> = Vec::new();
    let mut i: usize = 0;
    while i < parts.len()
        invariant
            i <= parts@.len(),
            r@ == join_byte(vview(parts@).take(i as int), sep),
        decreases parts@.len() - i,
    {
        if i > 0 {
            r.push(sep);
        }
        push_all(&mut r, &parts[i]);
        proof {
            assert(vview(parts@).take(i + 1 as int).drop_last() =~= vview(parts@).take(i as int));
            assert(vview(parts@).take(i + 1 as int).last() == vview(parts@)[i as int]);
            assert(r@ =~= join_byte(vview(parts@).take(i + 1 as int), sep));
        }
        i = i + 1;
    }
    proof {
        assert(vview(parts@).take(parts@.len() as int) =~= vview(parts@));
    }
    r
}

/// The signature of a message under a secret key: the keyed digest of
/// `key \n message`, rendered as sixteen hex digits.
pub open spec fn spec_signature(secret: Seq<u8>, msg: Seq<u8>) -> Seq<u8> {
    hex_seq(digest_from(DIGEST_INIT, secret + seq![10u8] + msg) as nat, 16)
}

/// Computes `spec_signature` over real bytes.
pub fn sign_bytes(secret: &Vec<u8>, msg: &Vec<u8>) -> (r: Vec<u8>)
    ensures
        r@ == spec_signature(secret@, msg@),
{
    let mut buf: Vec<u8> = Vec::new();
    push_all(&mut buf, secret);
    buf.push(10);
    push_all(&mut buf, msg);
    proof {
        assert(buf@ =~= secret@ + seq![10u8] + msg@);
    }
    let d = digest_vec(DIGEST_INIT, &buf);
    hex_vec(d, 16)
}

/// The canonical query: the `&`-separated pieces, sorted.
pub open spec fn spec_canon_query(q: Option<Seq<u8>>) -> Seq<u8> {
    match q {
        None => Seq::<u8>::empty(),
        Some(qs) => join_byte(sort_lex(split_byte(qs, 38)), 38),
    }
}

/// The canonical path: the URL path, an empty one standing for `/`.
pub open spec fn spec_canon_path(p: Seq<u8>) -> Seq<u8> {
    if p.len() == 0 {
        seq![47u8]
    } else {
        p
    }
}

/// One canonical header line: lower-cased name, colon, value.
pub open spec fn spec_canon_header_line(p: (Seq<u8>, Seq<u8>)) -> Seq<u8> {
    lower_seq(p.0) + seq![58u8] + p.1
}

/// The canonical header lines, one per pair, in the pairs' order.
pub open spec fn canon_lines(hs: Seq<(Seq<u8>, Seq<u8>)>) -> Seq<Seq<u8>> {
    hs.map_values(|p: (Seq<u8>, Seq<u8>)| spec_canon_header_line(p))
}

/// The canonical headers: every line, sorted, joined with `;`.
pub open spec fn spec_canon_headers(hs: Seq<(Seq<u8>, Seq<u8>)>) -> Seq<u8> {
    join_byte(sort_lex(canon_lines(hs)), 59)
}

/// The canonical representation that header- and URL-signing sign:
/// method, path, sorted query, sorted headers, body digest, timestamp
/// and region, each on its own line.
pub open spec fn spec_canonical(
    method: Seq<u8>,
    url: SpecUrl,
    hs: Seq<(Seq<u8>, Seq<u8>)>,
    body: Seq<u8>,
    ts: u64,
    region: Seq<u8>,
) -> Seq<u8> {
    method + seq![10u8] + spec_canon_path(url.path) + seq![10u8] + spec_canon_query(url.query)
        + seq![10u8] + spec_canon_headers(hs) + seq![10u8] + hex_seq(
        digest_from(DIGEST_INIT, body) as nat,
        16,
    ) + seq![10u8] + dec_seq(ts as nat) + seq![10u8] + region
}

/// Builds the canonical representation.
pub fn canonical(
    method: &Vec<u8>,
    url: &crate::urlparse::UrlParts,
    hs: &Vec<(Vec<u8>, Vec<u8>)>,
    body: &Vec<u8>,
    ts: u64,
    region: &Vec<u8>,
) -> (r: Vec<u8>)
    ensures
        r@ == spec_canonical(method@, url@, hview(hs@), body@, ts, region@),
{
    let mut r: Vec<u8> = Vec::new();
    push_all(&mut r, method);
    r.push(10);
    if url.path.len() == 0 {
        r.push(47);
    } else {
        push_all(&mut r, &url.path);
    }
    r.push(10);
    match &url.query {
        Some(q) => {
            let pieces = split_vec(q, 38);
            let sorted = sort_lex_vec(&pieces);
            let joined = join_vec(&sorted, 38);
            push_all(&mut r, &joined);
        },
        None => {},
    }
    r.push(10);
    let mut lines: Vec<Vec<u8>> = Vec::new();
    let mut i: usize = 0;
    while i < hs.len()
        invariant
            i <= hs@.len(),
            vview(lines@) =~= canon_lines(hview(hs@).take(i as int)),
        decreases hs@.len() - i,
    {
        let mut line = lower_vec(&hs[i].0);
        line.push(58);
        push_all(&mut line, &hs[i].1);
        proof {
            assert(line@ =~= spec_canon_header_line(hview(hs@)[i as int]));
        }
        let ghost lines_before = lines@;
        let ghost lv = line@;
        lines.push(line);
        proof {
            assert(vview(lines@) =~= vview(lines_before).push(lv));
            assert(canon_lines(hview(hs@).take(i + 1 as int)) =~= canon_lines(
                hview(hs@).take(i as int),
            ).push(spec_canon_header_line(hview(hs@)[i as int])));
            assert(vview(lines@) =~= canon_lines(hview(hs@).take(i + 1 as int)));
        }
        i = i + 1;
    }
    proof {
        assert(hview(hs@).take(hs@.len() as int) =~= hview(hs@));
        assert(vview(lines@) == canon_lines(hview(hs@)));
    }
    let sorted_lines = sort_lex_vec(&lines);
    let joined_lines = join_vec(&sorted_lines, 59);
    push_all(&mut r, &joined_lines);
    r.push(10);
    let d = digest_vec(DIGEST_INIT, body);
    let dh = hex_vec(d, 16);
    push_all(&mut r, &dh);
    r.push(10);
    let tsb = dec_vec(ts);
    push_all(&mut r, &tsb);
    r.push(10);
    push_all(&mut r, region);
    proof {
        assert(r@ =~= spec_canonical(method@, url@, hview(hs@), body@, ts, region@));
    }
    r
}

/// The four signing modes.
#[derive(Clone, Copy, PartialEq, Eq, Structural, Debug)]
pub enum SigningMode {
    Unsigned,
    HeaderSigned,
    UrlSigned,
    PolicySigned,
}

/// The mode the option model selects: unsigned without credentials;
/// with them, URL-signing wins over everything, then policy signing,
/// then header signing.
pub open spec fn spec_mode(m: OptionModel) -> SigningMode {
    if m.credentials is None {
        SigningMode::Unsigned
    } else if m.auth_via_url {
        SigningMode::UrlSigned
    } else if m.auth_upload_policy is Some {
        SigningMode::PolicySigned
    } else {
        SigningMode::HeaderSigned
    }
}

/// Selects the signing mode.
pub fn select_mode(m: &OptionModel) -> (r: SigningMode)
    ensures
        r == spec_mode(*m),
{
    if m.credentials.is_none() {
        SigningMode::Unsigned
    } else if m.auth_via_url {
        SigningMode::UrlSigned
    } else if m.auth_upload_policy.is_some() {
        SigningMode::PolicySigned
    } else {
        SigningMode::HeaderSigned
    }
}

/// The scheme label for the authorization header.
pub open spec fn spec_scheme(m: OptionModel) -> Seq<u8> {
    match m.auth_scheme {
        Some(s) => s@,
        None => spec_default_scheme(),
    }
}

/// The additions a signer returns; the assembler applies them.
pub struct SignedAugmentation {
    pub header_additions: Vec<(Vec<u8>, Vec<u8>)>,
    pub query_additions: Vec<(Vec<u8>, Vec<u8>)>,
    pub body_suffix: Vec<u8>,
}

/// The spec-level image of an augmentation.
#[verifier::ext_equal]
pub struct SpecAugmentation {
    pub headers: Seq<(Seq<u8>, Seq<u8>)>,
    pub query: Seq<(Seq<u8>, Seq<u8>)>,
    pub body_suffix: Seq<u8>,
}

impl View for SignedAugmentation {
    type V = SpecAugmentation;

    open spec fn view(&self) -> SpecAugmentation {
        SpecAugmentation {
            headers: hview(self.header_additions@),
            query: hview(self.query_additions@),
            body_suffix: self.body_suffix@,
        }
    }
}

pub open spec fn empty_augmentation() -> SpecAugmentation {
    SpecAugmentation {
        headers: Seq::<(Seq<u8>, Seq<u8>)>::empty(),
        query: Seq::<(Seq<u8>, Seq<u8>)>::empty(),
        body_suffix: Seq::<u8>::empty(),
    }
}

/// Why signing fails, if it does: an auth scheme that is not a token,
/// or a missing region where canonicalization needs one.
pub open spec fn spec_sign_err(m: OptionModel) -> Option<SigningError> {
    match spec_mode(m) {
        SigningMode::Unsigned => None,
        SigningMode::PolicySigned => None,
        SigningMode::HeaderSigned => if m.auth_scheme matches Some(s) && !is_token(s@) {
            Some(SigningError::UnsupportedScheme)
        } else if m.region is None {
            Some(SigningError::MissingRegion)
        } else {
            None
        },
        SigningMode::UrlSigned => if m.region is None {
            Some(SigningError::MissingRegion)
        } else {
            None
        },
    }
}

/// The value of the authorization header: scheme, space, access key,
/// colon, signature over the canonical representation.
pub open spec fn spec_auth_value(m: OptionModel, access: Seq<u8>, secret: Seq<u8>, canon: Seq<
    u8,
>) -> Seq<u8> {
    spec_scheme(m) + seq![32u8] + access + seq![58u8] + spec_signature(secret, canon)
}

/// The augmentation each mode produces, on the inputs signing cannot
/// reject.
pub open spec fn spec_augmentation(
    m: OptionModel,
    hs: Seq<(Seq<u8>, Seq<u8>)>,
    body: Seq<u8>,
    ts: u64,
) -> SpecAugmentation {
    match spec_mode(m) {
        SigningMode::Unsigned => empty_augmentation(),
        SigningMode::HeaderSigned => {
            let access = m.credentials->Some_0.access_key@;
            let secret = m.credentials->Some_0.secret_key@;
            let region = m.region->Some_0@;
            let canon = spec_canonical(m.method@, m.url@, hs, body, ts, region);
            SpecAugmentation {
                headers: seq![
                    (spec_authorization_name(), spec_auth_value(m, access, secret, canon)),
                    (spec_auth_date_name(), dec_seq(ts as nat)),
                    (spec_auth_region_name(), region),
                ],
                query: Seq::<(Seq<u8>, Seq<u8>)>::empty(),
                body_suffix: Seq::<u8>::empty(),
            }
        },
        SigningMode::UrlSigned => {
            let access = m.credentials->Some_0.access_key@;
            let secret = m.credentials->Some_0.secret_key@;
            let region = m.region->Some_0@;
            let canon = spec_canonical(m.method@, m.url@, hs, body, ts, region);
            SpecAugmentation {
                headers: Seq::<(Seq<u8>, Seq<u8>)>::empty(),
                query: seq![
                    (spec_q_access_key(), access),
                    (spec_q_timestamp(), dec_seq(ts as nat)),
                    (spec_q_signature(), spec_signature(secret, canon)),
                ],
                body_suffix: Seq::<u8>::empty(),
            }
        },
        SigningMode::PolicySigned => {
            let secret = m.credentials->Some_0.secret_key@;
            let policy = m.auth_upload_policy->Some_0@;
            let sig = spec_signature(secret, policy);
            if m.auth_upload_form {
                SpecAugmentation {
                    headers: Seq::<(Seq<u8>, Seq<u8>)>::empty(),
                    query: Seq::<(Seq<u8>, Seq<u8>)>::empty(),
                    body_suffix: spec_policy_field() + seq![61u8] + pct_seq(policy) + seq![38u8]
                        + spec_signature_field() + seq![61u8] + sig,
                }
            } else {
                SpecAugmentation {
                    headers: seq![
                        (spec_policy_header_name(), pct_seq(policy)),
                        (spec_policy_sig_header_name(), sig),
                    ],
                    query: Seq::<(Seq<u8>, Seq<u8>)>::empty(),
                    body_suffix: Seq::<u8>::empty(),
                }
            }
        },
    }
}

/// Signs the otherwise-complete request: computes the augmentation its
/// mode calls for, or rejects an unusable scheme or a missing region.
pub fn sign(m: &OptionModel, hs: &Vec<(Vec<u8>, Vec<u8>)>, body: &Vec<u8>, ts: u64) -> (r: Result<
    SignedAugmentation,
    SigningError,
>)
    ensures
        match r {
            Ok(a) => spec_sign_err(*m) is None && a@ == spec_augmentation(*m, hview(hs@), body@, ts),
            Err(e) => spec_sign_err(*m) == Some(e),
        },
{
    let mode = select_mode(m);
    match mode {
        SigningMode::Unsigned => {
            let a = SignedAugmentation {
                header_additions: Vec::new(),
                query_additions: Vec::new(),
                body_suffix: Vec::new(),
            };
            proof {
                assert(a@ =~= spec_augmentation(*m, hview(hs@), body@, ts));
            }
            Ok(a)
        },
        SigningMode::HeaderSigned => {
            match &m.auth_scheme {
                Some(s) => {
                    if !check_token(s) {
                        return Err(SigningError::UnsupportedScheme);
                    }
                },
                None => {},
            }
            let region = match &m.region {
                Some(rg) => rg,
                None => {
                    return Err(SigningError::MissingRegion);
                },
            };
            let creds = match &m.credentials {
                Some(c) => c,
                None => vstd::pervasive::unreached(),
            };
            let canon = canonical(&m.method, &m.url, hs, body, ts, region);
            let sig = sign_bytes(&creds.secret_key, &canon);
            let mut auth_value: Vec<u8> = Vec::new();
            match &m.auth_scheme {
                Some(s) => push_all(&mut auth_value, s),
                None => {
                    let d = default_scheme();
                    push_all(&mut auth_value, &d);
                },
            }
            auth_value.push(32);
            push_all(&mut auth_value, &creds.access_key);
            auth_value.push(58);
            push_all(&mut auth_value, &sig);
            proof {
                assert(canon@ == spec_canonical(
                    m.method@,
                    m.url@,
                    hview(hs@),
                    body@,
                    ts,
                    m.region->Some_0@,
                ));
                assert(sig@ == spec_signature(m.credentials->Some_0.secret_key@, canon@));
                assert(auth_value@ =~= spec_auth_value(
                    *m,
                    m.credentials->Some_0.access_key@,
                    m.credentials->Some_0.secret_key@,
                    canon@,
                ));
            }
            let mut header_additions: Vec<(Vec<u8>, Vec<u8>)> = Vec::new();
            header_additions.push((authorization_name(), auth_value));
            header_additions.push((auth_date_name(), dec_vec(ts)));
            header_additions.push((auth_region_name(), copy_vec(region)));
            let a = SignedAugmentation {
                header_additions,
                query_additions: Vec::new(),
                body_suffix: Vec::new(),
            };
            proof {
                assert(a@.headers =~= spec_augmentation(*m, hview(hs@), body@, ts).headers);
                assert(a@ =~= spec_augmentation(*m, hview(hs@), body@, ts));
            }
            Ok(a)
        },
        SigningMode::UrlSigned => {
            let region = match &m.region {
                Some(rg) => rg,
                None => {
                    return Err(SigningError::MissingRegion);
                },
            };
            let creds = match &m.credentials {
                Some(c) => c,
                None => vstd::pervasive::unreached(),
            };
            let canon = canonical(&m.method, &m.url, hs, body, ts, region);
            let sig = sign_bytes(&creds.secret_key, &canon);
            let mut query_additions: Vec<(Vec<u8>, Vec<u8>)> = Vec::new();
            query_additions.push((q_access_key(), copy_vec(&creds.access_key)));
            query_additions.push((q_timestamp(), dec_vec(ts)));
            query_additions.push((q_signature(), sig));
            let a = SignedAugmentation {
                header_additions: Vec::new(),
                query_additions,
                body_suffix: Vec::new(),
            };
            proof {
                assert(a@.query =~= spec_augmentation(*m, hview(hs@), body@, ts).query);
                assert(a@ =~= spec_augmentation(*m, hview(hs@), body@, ts));
            }
            Ok(a)
        },
        SigningMode::PolicySigned => {
            let creds = match &m.credentials {
                Some(c) => c,
                None => vstd::pervasive::unreached(),
            };
            let policy = match &m.auth_upload_policy {
                Some(p) => p,
                None => vstd::pervasive::unreached(),
            };
            let sig = sign_bytes(&creds.secret_key, policy);
            let encoded_policy = pct_vec(policy);
            proof {
                assert(policy@ == m.auth_upload_policy->Some_0@);
                assert(creds.secret_key@ == m.credentials->Some_0.secret_key@);
                assert(encoded_policy@ == pct_seq(m.auth_upload_policy->Some_0@));
                assert(sig@ == spec_signature(
                    m.credentials->Some_0.secret_key@,
                    m.auth_upload_policy->Some_0@,
                ));
            }
            if m.auth_upload_form {
                let mut suffix: Vec<u8> = Vec::new();
                let pf = policy_field();
                push_all(&mut suffix, &pf);
                suffix.push(61);
                push_all(&mut suffix, &encoded_policy);
                suffix.push(38);
                let sf = signature_field();
                push_all(&mut suffix, &sf);
                suffix.push(61);
                push_all(&mut suffix, &sig);
                let a = SignedAugmentation {
                    header_additions: Vec::new(),
                    query_additions: Vec::new(),
                    body_suffix: suffix,
                };
                proof {
                    assert(a@.body_suffix =~= spec_augmentation(
                        *m,
                        hview(hs@),
                        body@,
                        ts,
                    ).body_suffix);
                    assert(a@ =~= spec_augmentation(*m, hview(hs@), body@, ts));
                }
                Ok(a)
            } else {
                let mut header_additions: Vec<(Vec<u8>, Vec<u8>)> = Vec::new();
                header_additions.push((policy_header_name(), encoded_policy));
                header_additions.push((policy_sig_header_name(), sig));
                let a = SignedAugmentation {
                    header_additions,
                    query_additions: Vec::new(),
                    body_suffix: Vec::new(),
                };
                proof {
                    assert(a@.headers =~= spec_augmentation(*m, hview(hs@), body@, ts).headers);
                    assert(a@ =~= spec_augmentation(*m, hview(hs@), body@, ts));
                }
                Ok(a)
            }
        },
    }
}

} // verus!
