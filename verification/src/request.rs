//! The request assembler: composes the resolved body, the assembled
//! headers and the signer's augmentation into one immutable request
//! descriptor, and the laws the whole pipeline obeys.

use vstd::prelude::*;
use crate::bytes::{push_all, copy_vec};
use crate::errors::{BuildError, ResourceError};
use crate::headers::{hview, spec_assemble, filter_implicit, names_contain, assemble_headers};
use crate::literals::{
    spec_user_agent_name, user_agent_name, spec_content_type_name, content_type_name,
    spec_content_md5_name, content_md5_name, spec_ct_json, ct_json, spec_ct_binary, ct_binary,
    spec_ct_urlencoded, ct_urlencoded, spec_q_signature,
};
use crate::body::{
    ResolvedBody, resolve_body, spec_body_bytes, spec_inferred_ct, fview, pct_seq, pct_vec,
};
use crate::options::{OptionModel, RawOptions, ContentTypeHint, model_matches, opt_view};
use crate::signing::{
    spec_augmentation, spec_sign_err, spec_mode, sign, SigningMode, empty_augmentation,
};
use crate::urlparse::{
    UrlParts, SpecUrl, spec_url_bytes, spec_appended_query, append_query, url_to_bytes,
    url_well_formed, spec_url_parts, lemma_url_round_trip,
};

verus! {

/// The immutable request a transport executes: method, URL, headers
/// and body, all plain bytes.
pub struct RequestDescriptor {
    pub method: Vec<u8>,
    pub url: Vec<u8>,
    pub headers: Vec<(Vec<u8>, Vec<u8>)>,
    pub body: Vec<u8>,
}

/// The mathematical view of a request descriptor.
#[verifier::ext_equal]
pub struct SpecRequest {
    pub method: Seq<u8>,
    pub url: Seq<u8>,
    pub headers: Seq<(Seq<u8>, Seq<u8>)>,
    pub body: Seq<u8>,
}

impl View for RequestDescriptor {
    type V = SpecRequest;

    open spec fn view(&self) -> SpecRequest {
        SpecRequest {
            method: self.method@,
            url: self.url@,
            headers: hview(self.headers@),
            body: self.body@,
        }
    }
}

/// One query addition as `name=value`, both sides percent-encoded.
pub open spec fn spec_enc_query_pair(p: (Seq<u8>, Seq<u8>)) -> Seq<u8> {
    pct_seq(p.0) + seq![61u8] + pct_seq(p.1)
}

/// The URL after appending every query addition in order.
pub open spec fn spec_apply_queries(u: SpecUrl, qs: Seq<(Seq<u8>, Seq<u8>)>) -> SpecUrl
    decreases qs.len(),
{
    if qs.len() == 0 {
        u
    } else {
        let prev = spec_apply_queries(u, qs.drop_last());
        SpecUrl {
            scheme: prev.scheme,
            authority: prev.authority,
            path: prev.path,
            query: Some(spec_appended_query(prev.query, spec_enc_query_pair(qs.last()))),
        }
    }
}

/// The body after the signer's suffix: joined with `&` when both parts
/// are non-empty, as form-encoded additions call for.
pub open spec fn spec_body_with_suffix(body: Seq<u8>, suffix: Seq<u8>) -> Seq<u8> {
    if suffix.len() == 0 {
        body
    } else if body.len() == 0 {
        suffix
    } else {
        body + seq![38u8] + suffix
    }
}

/// The content-type the model implies: an explicit hint wins, else
/// whatever the body resolution inferred.
pub open spec fn spec_ct_value(m: OptionModel, inferred: Option<Seq<u8>>) -> Option<Seq<u8>> {
    match m.content_type_hint {
        ContentTypeHint::Json => Some(spec_ct_json()),
        ContentTypeHint::Binary => Some(spec_ct_binary()),
        ContentTypeHint::FormUrlEncoded => Some(spec_ct_urlencoded()),
        ContentTypeHint::Unset => inferred,
    }
}

pub open spec fn opt_entry(name: Seq<u8>, v: Option<Seq<u8>>) -> Seq<(Seq<u8>, Seq<u8>)> {
    match v {
        Some(x) => seq![(name, x)],
        None => Seq::<(Seq<u8>, Seq<u8>)>::empty(),
    }
}

/// The implicit headers, in their fixed order: user agent, content
/// type, content hash.
pub open spec fn spec_implicit_headers(m: OptionModel, inferred: Option<Seq<u8>>) -> Seq<
    (Seq<u8>, Seq<u8>),
> {
    opt_entry(spec_user_agent_name(), opt_view(m.user_agent)) + opt_entry(
        spec_content_type_name(),
        spec_ct_value(m, inferred),
    ) + opt_entry(spec_content_md5_name(), opt_view(m.content_md5))
}

/// Builds the implicit headers for a model and its resolved body.
pub fn build_implicit(m: &OptionModel, rb: &ResolvedBody) -> (r: Vec<(Vec<u8>, Vec<u8>)>)
    ensures
        hview(r@) == spec_implicit_headers(*m, opt_view(rb.inferred_content_type)),
{
    let mut imp: Vec<(Vec<u8>, Vec<u8>)> = Vec::new();
    match &m.user_agent {
        Some(ua) => {
            imp.push((user_agent_name(), copy_vec(ua)));
        },
        None => {},
    }
    let ctv: Option<Vec<u8>> = match m.content_type_hint {
        ContentTypeHint::Json => Some(ct_json()),
        ContentTypeHint::Binary => Some(ct_binary()),
        ContentTypeHint::FormUrlEncoded => Some(ct_urlencoded()),
        ContentTypeHint::Unset => match &rb.inferred_content_type {
            Some(v) => Some(copy_vec(v)),
            None => None,
        },
    };
    match ctv {
        Some(ct) => {
            imp.push((content_type_name(), ct));
        },
        None => {},
    }
    match &m.content_md5 {
        Some(v) => {
            imp.push((content_md5_name(), copy_vec(v)));
        },
        None => {},
    }
    proof {
        assert(hview(imp@) =~= spec_implicit_headers(*m, opt_view(rb.inferred_content_type)));
    }
    imp
}

/// The header set of the request before signing: implicit headers
/// merged under the explicit ones.
pub open spec fn spec_assembled_headers(m: OptionModel) -> Seq<(Seq<u8>, Seq<u8>)> {
    spec_assemble(spec_implicit_headers(m, spec_inferred_ct(m)), hview(m.headers@))
}

/// The request descriptor the whole pipeline produces on the inputs it
/// cannot reject.
pub open spec fn spec_built(m: OptionModel, file: Option<Seq<u8>>, ts: u64) -> SpecRequest {
    let body = spec_body_bytes(m, file);
    let hs = spec_assembled_headers(m);
    let aug = spec_augmentation(m, hs, body, ts);
    SpecRequest {
        method: m.method@,
        url: spec_url_bytes(spec_apply_queries(m.url@, aug.query)),
        headers: spec_assemble(hs, aug.headers),
        body: spec_body_with_suffix(body, aug.body_suffix),
    }
}

/// Runs the pipeline on a validated model: resolves the body, merges
/// the headers, signs, and assembles the immutable request descriptor.
/// `file` carries the contents of the body file when the body is
/// file-sourced; `ts` is the timestamp the signer embeds.
#[verifier::loop_isolation(false)]
pub fn build_request(m: &OptionModel, file: Option<&Vec<u8>>, ts: u64) -> (r: Result<
    RequestDescriptor,
    BuildError,
>)
    ensures
        match r {
            Ok(d) => {
                &&& !(m.body_source is FileRef && file is None)
                &&& spec_sign_err(*m) is None
                &&& d@ == spec_built(*m, fview(file), ts)
            },
            Err(e) => match e {
                BuildError::Resource(re) => {
                    &&& file is None
                    &&& (m.body_source matches crate::options::BodySource::FileRef(p) && (
                    re matches ResourceError::BodySourceUnreadable(q) && q@ == p@))
                },
                BuildError::Signing(se) => {
                    &&& !(m.body_source is FileRef && file is None)
                    &&& spec_sign_err(*m) == Some(se)
                },
            },
        },
{
    let rb = match resolve_body(m, file) {
        Ok(rb) => rb,
        Err(e) => {
            return Err(BuildError::Resource(e));
        },
    };
    let imp = build_implicit(m, &rb);
    let assembled = assemble_headers(&imp, &m.headers);
    proof {
        assert(hview(assembled@) == spec_assembled_headers(*m));
    }
    let aug = match sign(m, &assembled, &rb.bytes, ts) {
        Ok(a) => a,
        Err(e) => {
            return Err(BuildError::Signing(e));
        },
    };
    let final_headers = assemble_headers(&assembled, &aug.header_additions);
    let mut url_parts = UrlParts {
        scheme: copy_vec(&m.url.scheme),
        authority: copy_vec(&m.url.authority),
        path: copy_vec(&m.url.path),
        query: match &m.url.query {
            Some(q) => Some(copy_vec(q)),
            None => None,
        },
    };
    proof {
        assert(url_parts@ =~= m.url@);
    }
    let mut i: usize = 0;
    while i < aug.query_additions.len()
        invariant
            i <= aug.query_additions@.len(),
            url_parts@ == spec_apply_queries(m.url@, hview(aug.query_additions@).take(i as int)),
        decreases aug.query_additions@.len() - i,
    {
        let mut enc = pct_vec(&aug.query_additions[i].0);
        enc.push(61);
        let ev = pct_vec(&aug.query_additions[i].1);
        push_all(&mut enc, &ev);
        proof {
            assert(enc@ =~= spec_enc_query_pair(hview(aug.query_additions@)[i as int]));
        }
        append_query(&mut url_parts, &enc);
        proof {
            assert(hview(aug.query_additions@).take(i + 1 as int).drop_last() =~= hview(
                aug.query_additions@,
            ).take(i as int));
            assert(hview(aug.query_additions@).take(i + 1 as int).last() == hview(
                aug.query_additions@,
            )[i as int]);
            assert(url_parts@ =~= spec_apply_queries(
                m.url@,
                hview(aug.query_additions@).take(i + 1 as int),
            ));
        }
        i = i + 1;
    }
    proof {
        assert(hview(aug.query_additions@).take(aug.query_additions@.len() as int) =~= hview(
            aug.query_additions@,
        ));
    }
    let url_bytes = url_to_bytes(&url_parts);
    let mut final_body = rb.bytes;
    if aug.body_suffix.len() > 0 {
        if final_body.len() > 0 {
            final_body.push(38);
        }
        push_all(&mut final_body, &aug.body_suffix);
    }
    proof {
        assert(final_body@ =~= spec_body_with_suffix(
            spec_body_bytes(*m, fview(file)),
            aug@.body_suffix,
        ));
    }
    let d = RequestDescriptor {
        method: copy_vec(&m.method),
        url: url_bytes,
        headers: final_headers,
        body: final_body,
    };
    proof {
        assert(d@ =~= spec_built(*m, fview(file), ts));
    }
    Ok(d)
}

/// Merging no explicit headers changes nothing.
pub proof fn lemma_filter_none(hs: Seq<(Seq<u8>, Seq<u8>)>, exp: Seq<(Seq<u8>, Seq<u8>)>)
    requires
        exp.len() == 0,
    ensures
        filter_implicit(hs, exp) == hs,
    decreases hs.len(),
{
    if hs.len() == 0 {
        assert(filter_implicit(hs, exp) =~= hs);
    } else {
        lemma_filter_none(hs.drop_last(), exp);
        assert(!names_contain(exp, hs.last().0));
        assert(filter_implicit(hs, exp) =~= hs);
    }
}

/// An empty augmentation leaves the header set as assembled.
pub proof fn lemma_assemble_empty(hs: Seq<(Seq<u8>, Seq<u8>)>)
    ensures
        spec_assemble(hs, Seq::<(Seq<u8>, Seq<u8>)>::empty()) == hs,
{
    lemma_filter_none(hs, Seq::<(Seq<u8>, Seq<u8>)>::empty());
    assert(spec_assemble(hs, Seq::<(Seq<u8>, Seq<u8>)>::empty()) =~= hs);
}

/// Unsigned mode ignores the region: two models that differ only in
/// `region`, with no credentials, build byte-identical request
/// descriptors, and signing never rejects them.
pub proof fn lemma_unsigned_ignores_region(
    m1: OptionModel,
    m2: OptionModel,
    file: Option<Seq<u8>>,
    ts: u64,
)
    requires
        m1.credentials is None,
        m2 == (OptionModel { region: m2.region, ..m1 }),
    ensures
        spec_sign_err(m1) is None,
        spec_sign_err(m2) is None,
        spec_built(m1, file, ts) == spec_built(m2, file, ts),
{
    assert(spec_mode(m1) == SigningMode::Unsigned);
    assert(spec_mode(m2) == SigningMode::Unsigned);
    assert(spec_body_bytes(m2, file) == spec_body_bytes(m1, file));
    assert(spec_inferred_ct(m2) == spec_inferred_ct(m1));
    assert(spec_ct_value(m2, spec_inferred_ct(m2)) == spec_ct_value(m1, spec_inferred_ct(m1)));
    assert(spec_implicit_headers(m2, spec_inferred_ct(m2)) == spec_implicit_headers(
        m1,
        spec_inferred_ct(m1),
    ));
    assert(spec_assembled_headers(m2) == spec_assembled_headers(m1));
    let hs = spec_assembled_headers(m1);
    let body = spec_body_bytes(m1, file);
    assert(spec_augmentation(m1, hs, body, ts) == empty_augmentation());
    assert(spec_augmentation(m2, hs, body, ts) == empty_augmentation());
    assert(spec_built(m1, file, ts) =~= spec_built(m2, file, ts));
}

/// URL-signing precedence: with credentials and `auth_via_url` set the
/// mode is URL signing whatever else is set, the header set is exactly
/// the assembled one — no authorization header is added — and the
/// signature rides in the third appended query parameter.
pub proof fn lemma_url_signing_precedence(m: OptionModel, file: Option<Seq<u8>>, ts: u64)
    requires
        m.credentials is Some,
        m.auth_via_url,
        m.region is Some,
    ensures
        spec_mode(m) == SigningMode::UrlSigned,
        spec_sign_err(m) is None,
        spec_built(m, file, ts).headers == spec_assembled_headers(m),
        spec_augmentation(
            m,
            spec_assembled_headers(m),
            spec_body_bytes(m, file),
            ts,
        ).query.len() == 3,
        spec_augmentation(
            m,
            spec_assembled_headers(m),
            spec_body_bytes(m, file),
            ts,
        ).query.last().0 == spec_q_signature(),
{
    let aug = spec_augmentation(m, spec_assembled_headers(m), spec_body_bytes(m, file), ts);
    assert(aug.headers =~= Seq::<(Seq<u8>, Seq<u8>)>::empty());
    lemma_assemble_empty(spec_assembled_headers(m));
}

/// Round trip: a model built from valid raw options, left unsigned,
/// carries the exact method and URL bytes into the final descriptor.
pub proof fn lemma_unsigned_round_trip(
    raw: RawOptions,
    m: OptionModel,
    file: Option<Seq<u8>>,
    ts: u64,
)
    requires
        model_matches(m, raw),
        url_well_formed(raw.url@),
        m.credentials is None,
    ensures
        spec_sign_err(m) is None,
        spec_built(m, file, ts).method == raw.method@,
        spec_built(m, file, ts).url == raw.url@,
{
    let hs = spec_assembled_headers(m);
    assert(spec_mode(m) == SigningMode::Unsigned);
    let aug = spec_augmentation(m, hs, spec_body_bytes(m, file), ts);
    assert(aug.query =~= Seq::<(Seq<u8>, Seq<u8>)>::empty());
    assert(spec_apply_queries(m.url@, aug.query) == m.url@);
    assert(m.url@ == spec_url_parts(raw.url@));
    lemma_url_round_trip(raw.url@);
}

/// The pipeline is deterministic: two runs on the same model, file
/// bytes and timestamp produce equal request descriptors.
pub proof fn lemma_pipeline_deterministic(
    m: OptionModel,
    file: Option<Seq<u8>>,
    ts: u64,
    r1: SpecRequest,
    r2: SpecRequest,
)
    requires
        r1 == spec_built(m, file, ts),
        r2 == spec_built(m, file, ts),
    ensures
        r1 == r2,
{
}

} // verus!
