//! The body resolver: decides what the request body is — literal
//! bytes, the contents of a file the caller read, or an encoding of the
//! form fields — and what default content type, if any, that choice
//! implies.

use vstd::prelude::*;
use crate::bytes::{push_all, copy_vec, hex_digit_upper};
use crate::errors::ResourceError;
use crate::headers::hview;
use crate::literals::{
    spec_ct_urlencoded, ct_urlencoded, spec_ct_multipart_prefix, ct_multipart_prefix,
    spec_boundary, boundary, spec_disposition_prefix, disposition_prefix,
};
use crate::options::{BodySource, ContentTypeHint, OptionModel, opt_view};
use crate::urlparse::{is_alpha, is_digit};

verus! {

/// A byte that percent-encoding passes through unchanged.
pub open spec fn is_unreserved(b: u8) -> bool {
    is_alpha(b) || is_digit(b) || b == 45 || b == 46 || b == 95 || b == 126
}

/// The encoding of one byte: unreserved bytes stay, a space becomes a
/// plus, anything else becomes a percent escape.
pub open spec fn pct_byte(b: u8) -> Seq<u8> {
    if is_unreserved(b) {
        seq![b]
    } else if b == 32 {
        seq![43u8]
    } else {
        seq![37u8, hex_digit_upper(b / 16), hex_digit_upper(b % 16)]
    }
}

/// Percent-encoding of a byte sequence.
pub open spec fn pct_seq(s: Seq<u8>) -> Seq<u8>
    decreases s.len(),
{
    if s.len() == 0 {
        Seq::<u8>::empty()
    } else {
        pct_seq(s.drop_last()) + pct_byte(s.last())
    }
}

/// Percent-encodes a byte vector.
#[verifier::loop_isolation(false)]
pub fn pct_vec(v: &Vec<u8>) -> (r: Vec<u8>)
    ensures
        r@ == pct_seq(v@),
{
    let mut r: Vec<u8> = Vec::new();
    let mut i: usize = 0;
    while i < v.len()
        invariant
            i <= v@.len(),
            r@ == pct_seq(v@.take(i as int)),
        decreases v@.len() - i,
    {
        let b = v[i];
        let unres: bool = (65 <= b && b <= 90) || (97 <= b && b <= 122) || (48 <= b && b <= 57)
            || b == 45 || b == 46 || b == 95 || b == 126;
        if unres {
            r.push(b);
        } else if b == 32 {
            r.push(43);
        } else {
            r.push(37);
            let hi: u8 = b / 16;
            let lo: u8 = b % 16;
            r.push(if hi < 10 { 48 + hi } else { 55 + hi });
            r.push(if lo < 10 { 48 + lo } else { 55 + lo });
        }
        proof {
            assert(v@.take(i + 1 as int).drop_last() =~= v@.take(i as int));
            assert(v@.take(i + 1 as int).last() == v@[i as int]);
            assert(r@ =~= pct_seq(v@.take(i + 1 as int)));
        }
        i = i + 1;
    }
    proof {
        assert(v@.take(v@.len() as int) =~= v@);
    }
    r
}

/// One form pair as `name=value`, both sides percent-encoded.
pub open spec fn spec_enc_pair(p: (Seq<u8>, Seq<u8>)) -> Seq<u8> {
    pct_seq(p.0) + seq![61u8] + pct_seq(p.1)
}

/// The urlencoded form body: the pairs in order, joined with `&`.
pub open spec fn spec_form_urlencoded(fs: Seq<(Seq<u8>, Seq<u8>)>) -> Seq<u8>
    decreases fs.len(),
{
    if fs.len() == 0 {
        Seq::<u8>::empty()
    } else if fs.len() == 1 {
        spec_enc_pair(fs[0])
    } else {
        spec_form_urlencoded(fs.drop_last()) + seq![38u8] + spec_enc_pair(fs.last())
    }
}

/// Encodes the form fields as `application/x-www-form-urlencoded`.
#[verifier::loop_isolation(false)]
pub fn encode_form_urlencoded(fields: &Vec<(Vec<u8>, Vec<u8>)>) -> (r: Vec<u8>)
    ensures
        r@ == spec_form_urlencoded(hview(fields@)),
{
    let mut r: Vec<u8> = Vec::new();
    let mut i: usize = 0;
    while i < fields.len()
        invariant
            i <= fields@.len(),
            r@ == spec_form_urlencoded(hview(fields@).take(i as int)),
        decreases fields@.len() - i,
    {
        if i > 0 {
            r.push(38);
        }
        let en = pct_vec(&fields[i].0);
        push_all(&mut r, &en);
        r.push(61);
        let ev = pct_vec(&fields[i].1);
        push_all(&mut r, &ev);
        proof {
            assert(hview(fields@).take(i + 1 as int).drop_last() =~= hview(fields@).take(i as int));
            assert(hview(fields@).take(i + 1 as int).last() == hview(fields@)[i as int]);
            assert(r@ =~= spec_form_urlencoded(hview(fields@).take(i + 1 as int)));
        }
        i = i + 1;
    }
    proof {
        assert(hview(fields@).take(fields@.len() as int) =~= hview(fields@));
    }
    r
}

/// One multipart part: boundary line, disposition line naming the
/// field, blank line, value, line break.
pub open spec fn spec_multipart_part(p: (Seq<u8>, Seq<u8>), b: Seq<u8>) -> Seq<u8> {
    seq![45u8, 45u8] + b + seq![13u8, 10u8] + spec_disposition_prefix() + seq![34u8] + p.0 + seq![
        34u8,
        13u8,
        10u8,
        13u8,
        10u8,
    ] + p.1 + seq![13u8, 10u8]
}

pub open spec fn spec_multipart_parts(fs: Seq<(Seq<u8>, Seq<u8>)>, b: Seq<u8>) -> Seq<u8>
    decreases fs.len(),
{
    if fs.len() == 0 {
        Seq::<u8>::empty()
    } else {
        spec_multipart_parts(fs.drop_last(), b) + spec_multipart_part(fs.last(), b)
    }
}

/// The whole multipart body: every part in order, then the closing
/// boundary line.
pub open spec fn spec_multipart(fs: Seq<(Seq<u8>, Seq<u8>)>, b: Seq<u8>) -> Seq<u8> {
    spec_multipart_parts(fs, b) + seq![45u8, 45u8] + b + seq![45u8, 45u8, 13u8, 10u8]
}

/// Encodes the form fields as `multipart/form-data` under the fixed
/// boundary.
#[verifier::loop_isolation(false)]
pub fn encode_multipart(fields: &Vec<(Vec<u8>, Vec<u8>)>) -> (r: Vec<u8>)
    ensures
        r@ == spec_multipart(hview(fields@), spec_boundary()),
{
    let b = boundary();
    let disp = disposition_prefix();
    let mut r: Vec<u8> = Vec::new();
    let mut i: usize = 0;
    while i < fields.len()
        invariant
            i <= fields@.len(),
            b@ == spec_boundary(),
            disp@ == spec_disposition_prefix(),
            r@ == spec_multipart_parts(hview(fields@).take(i as int), spec_boundary()),
        decreases fields@.len() - i,
    {
        r.push(45);
        r.push(45);
        push_all(&mut r, &b);
        r.push(13);
        r.push(10);
        push_all(&mut r, &disp);
        r.push(34);
        push_all(&mut r, &fields[i].0);
        r.push(34);
        r.push(13);
        r.push(10);
        r.push(13);
        r.push(10);
        push_all(&mut r, &fields[i].1);
        r.push(13);
        r.push(10);
        proof {
            assert(hview(fields@).take(i + 1 as int).drop_last() =~= hview(fields@).take(i as int));
            assert(hview(fields@).take(i + 1 as int).last() == hview(fields@)[i as int]);
            assert(r@ =~= spec_multipart_parts(hview(fields@).take(i + 1 as int), spec_boundary()));
        }
        i = i + 1;
    }
    proof {
        assert(hview(fields@).take(fields@.len() as int) =~= hview(fields@));
    }
    r.push(45);
    r.push(45);
    push_all(&mut r, &b);
    r.push(45);
    r.push(45);
    r.push(13);
    r.push(10);
    proof {
        assert(r@ =~= spec_multipart(hview(fields@), spec_boundary()));
    }
    r
}

/// The resolved body and the content type it implies, if any.
pub struct ResolvedBody {
    pub bytes: Vec<u8>,
    pub inferred_content_type: Option<Vec<u8>>,
}

/// The body bytes the model resolves to, given the file contents when
/// the body is file-sourced.
pub open spec fn spec_body_bytes(m: OptionModel, file: Option<Seq<u8>>) -> Seq<u8> {
    match m.body_source {
        BodySource::Literal(d) => d@,
        BodySource::FileRef(_) => match file {
            Some(f) => f,
            None => Seq::<u8>::empty(),
        },
        BodySource::Empty => if m.form_fields@.len() > 0 {
            if m.content_type_hint is FormUrlEncoded {
                spec_form_urlencoded(hview(m.form_fields@))
            } else {
                spec_multipart(hview(m.form_fields@), spec_boundary())
            }
        } else {
            Seq::<u8>::empty()
        },
    }
}

/// The content type the body choice implies: only form encodings imply
/// one.
pub open spec fn spec_inferred_ct(m: OptionModel) -> Option<Seq<u8>> {
    match m.body_source {
        BodySource::Empty => if m.form_fields@.len() > 0 {
            if m.content_type_hint is FormUrlEncoded {
                Some(spec_ct_urlencoded())
            } else {
                Some(spec_ct_multipart_prefix() + spec_boundary())
            }
        } else {
            None
        },
        _ => None,
    }
}

pub open spec fn fview(file: Option<&Vec<u8>>) -> Option<Seq<u8>> {
    match file {
        Some(f) => Some(f@),
        None => None,
    }
}

/// Resolves the request body.  A file-sourced body whose contents were
/// not supplied fails with `BodySourceUnreadable` naming the path;
/// every other model resolves.
pub fn resolve_body(m: &OptionModel, file: Option<&Vec<u8>>) -> (r: Result<
    ResolvedBody,
    ResourceError,
>)
    ensures
        match r {
            Ok(rb) => {
                &&& !(m.body_source is FileRef && file is None)
                &&& rb.bytes@ == spec_body_bytes(*m, fview(file))
                &&& opt_view(rb.inferred_content_type) == spec_inferred_ct(*m)
            },
            Err(e) => {
                &&& file is None
                &&& (m.body_source matches BodySource::FileRef(p) && (
                e matches ResourceError::BodySourceUnreadable(q) && q@ == p@))
            },
        },
{
    match &m.body_source {
        BodySource::Literal(d) => Ok(
            ResolvedBody { bytes: copy_vec(d), inferred_content_type: None },
        ),
        BodySource::FileRef(p) => match file {
            Some(f) => Ok(ResolvedBody { bytes: copy_vec(f), inferred_content_type: None }),
            None => Err(ResourceError::BodySourceUnreadable(copy_vec(p))),
        },
        BodySource::Empty => {
            if m.form_fields.len() > 0 {
                if matches!(m.content_type_hint, ContentTypeHint::FormUrlEncoded) {
                    Ok(
                        ResolvedBody {
                            bytes: encode_form_urlencoded(&m.form_fields),
                            inferred_content_type: Some(ct_urlencoded()),
                        },
                    )
                } else {
                    let mut ct = ct_multipart_prefix();
                    let b = boundary();
                    push_all(&mut ct, &b);
                    Ok(
                        ResolvedBody {
                            bytes: encode_multipart(&m.form_fields),
                            inferred_content_type: Some(ct),
                        },
                    )
                }
            } else {
                Ok(ResolvedBody { bytes: Vec::new(), inferred_content_type: None })
            }
        },
    }
}

} // verus!
