//! The option model: a validated, immutable record of user intent.
//! Construction from the raw flag values either succeeds with a fully
//! populated model or fails with the first violated validation rule,
//! checked in a fixed order: method, URL, body-source conflict,
//! credential pairing, header syntax.

use vstd::prelude::*;
use crate::errors::ValidationError;
use crate::headers::{
    is_token, check_token, header_line_ok, spec_header_name, spec_header_value, parse_header_line,
    hview,
};
use crate::urlparse::{
    url_well_formed, spec_url_parts, parse_url, UrlParts, find_from, lemma_find_from,
};

verus! {

/// Where the request body comes from.
#[derive(Debug)]
pub enum BodySource {
    /// No body was supplied.
    Empty,
    /// A literal body, exactly these bytes.
    Literal(Vec<u8>),
    /// A body to be read from the file at this path.
    FileRef(Vec<u8>),
}

/// The mutually exclusive content-type directives.
#[derive(Clone, Copy, PartialEq, Eq, Structural, Debug)]
pub enum ContentTypeHint {
    Unset,
    Json,
    Binary,
    FormUrlEncoded,
}

/// A complete credential pair.
#[derive(Debug)]
pub struct Credentials {
    pub access_key: Vec<u8>,
    pub secret_key: Vec<u8>,
}

/// Where the response body goes; construction of the request never
/// reads it.
#[derive(Debug)]
pub enum OutputTarget {
    Stdout,
    FilePath(Vec<u8>),
}

/// The raw flag values as the argument parser hands them over.
#[derive(Debug)]
pub struct RawOptions {
    pub url: Vec<u8>,
    pub method: Vec<u8>,
    pub headers: Vec<Vec<u8>>,
    pub data: Option<Vec<u8>>,
    pub form: Vec<Vec<u8>>,
    pub user_agent: Option<Vec<u8>>,
    pub access_key: Option<Vec<u8>>,
    pub secret_key: Option<Vec<u8>>,
    pub auth_scheme: Option<Vec<u8>>,
    pub auth_via_url: bool,
    pub auth_upload_policy: Option<Vec<u8>>,
    pub auth_upload_form: bool,
    pub json: bool,
    pub binary: bool,
    pub form_urlencoded: bool,
    pub content_md5: Option<Vec<u8>>,
    pub region: Option<Vec<u8>>,
    pub output: Option<Vec<u8>>,
}

/// The validated, immutable option model.
#[derive(Debug)]
pub struct OptionModel {
    pub method: Vec<u8>,
    pub url: UrlParts,
    pub headers: Vec<(Vec<u8>, Vec<u8>)>,
    pub body_source: BodySource,
    pub form_fields: Vec<(Vec<u8>, Vec<u8>)>,
    pub content_type_hint: ContentTypeHint,
    pub user_agent: Option<Vec<u8>>,
    pub credentials: Option<Credentials>,
    pub auth_scheme: Option<Vec<u8>>,
    pub auth_via_url: bool,
    pub auth_upload_policy: Option<Vec<u8>>,
    pub auth_upload_form: bool,
    pub content_md5: Option<Vec<u8>>,
    pub region: Option<Vec<u8>>,
    pub output_target: OutputTarget,
}

/// The spec-level image of a validation failure.
pub enum SpecValidationError {
    InvalidMethod,
    InvalidUrl,
    ConflictingBodySource,
    IncompleteCredentials,
    MalformedHeader(Seq<u8>),
}

/// The spec-level image of an exec validation error.
pub open spec fn err_view(e: ValidationError) -> SpecValidationError {
    match e {
        ValidationError::InvalidMethod => SpecValidationError::InvalidMethod,
        ValidationError::InvalidUrl => SpecValidationError::InvalidUrl,
        ValidationError::ConflictingBodySource => SpecValidationError::ConflictingBodySource,
        ValidationError::IncompleteCredentials => SpecValidationError::IncompleteCredentials,
        ValidationError::MalformedHeader(h) => SpecValidationError::MalformedHeader(h@),
    }
}

pub open spec fn opt_view(o: Option<Vec<u8>>) -> Option<Seq<u8>> {
    match o {
        Some(v) => Some(v@),
        None => None,
    }
}

/// Index of the first malformed header argument, or the length if all
/// are well formed.
pub open spec fn first_bad_header(hs: Seq<Vec<u8>>, i: int) -> int
    decreases hs.len() - i,
{
    if i < 0 || i >= hs.len() {
        hs.len() as int
    } else if !header_line_ok(hs[i]@) {
        i
    } else {
        first_bad_header(hs, i + 1)
    }
}

pub proof fn lemma_first_bad_header(hs: Seq<Vec<u8>>, i: int)
    requires
        0 <= i <= hs.len(),
    ensures
        i <= first_bad_header(hs, i) <= hs.len(),
        first_bad_header(hs, i) < hs.len() ==> !header_line_ok(hs[first_bad_header(hs, i)]@),
        forall|j: int| i <= j < first_bad_header(hs, i) ==> header_line_ok(hs[j]@),
    decreases hs.len() - i,
{
    if i < hs.len() && header_line_ok(hs[i]@) {
        lemma_first_bad_header(hs, i + 1);
    }
}

/// Whether exactly one of the two credential halves was supplied.
pub open spec fn creds_incomplete(raw: RawOptions) -> bool {
    (raw.access_key is Some) != (raw.secret_key is Some)
}

/// Whether both a body and form fields were supplied.
pub open spec fn body_conflict(raw: RawOptions) -> bool {
    raw.data is Some && raw.form@.len() > 0
}

/// The validation outcome: the first violated rule, or `None` when the
/// model can be built.
pub open spec fn spec_validate_outcome(raw: RawOptions) -> Option<SpecValidationError> {
    if !is_token(raw.method@) {
        Some(SpecValidationError::InvalidMethod)
    } else if !url_well_formed(raw.url@) {
        Some(SpecValidationError::InvalidUrl)
    } else if body_conflict(raw) {
        Some(SpecValidationError::ConflictingBodySource)
    } else if creds_incomplete(raw) {
        Some(SpecValidationError::IncompleteCredentials)
    } else if first_bad_header(raw.headers@, 0) < raw.headers@.len() {
        Some(
            SpecValidationError::MalformedHeader(
                raw.headers@[first_bad_header(raw.headers@, 0)]@,
            ),
        )
    } else {
        None
    }
}

/// The body source a data flag denotes: a leading `@` names a file,
/// anything else is a literal body.
pub open spec fn body_source_matches(src: BodySource, data: Option<Vec<u8>>) -> bool {
    match data {
        None => src is Empty,
        Some(d) => if d@.len() >= 1 && d@[0] == 64 {
            src matches BodySource::FileRef(p) && p@ == d@.skip(1)
        } else {
            src matches BodySource::Literal(b) && b@ == d@
        },
    }
}

/// The content-type hint the three flags denote, first set wins in the
/// order JSON, binary, urlencoded.
pub open spec fn spec_hint(raw: RawOptions) -> ContentTypeHint {
    if raw.json {
        ContentTypeHint::Json
    } else if raw.binary {
        ContentTypeHint::Binary
    } else if raw.form_urlencoded {
        ContentTypeHint::FormUrlEncoded
    } else {
        ContentTypeHint::Unset
    }
}

/// The parsed explicit headers, in the order supplied.
pub open spec fn spec_parsed_headers(hs: Seq<Vec<u8>>) -> Seq<(Seq<u8>, Seq<u8>)> {
    Seq::new(hs.len(), |i: int| (spec_header_name(hs[i]@), spec_header_value(hs[i]@)))
}

/// One form flag split at its first `=`; without one the whole flag is
/// the field name and the value is empty.
pub open spec fn spec_form_field(s: Seq<u8>) -> (Seq<u8>, Seq<u8>) {
    let eq = find_from(s, 0, 61);
    (
        s.subrange(0, eq),
        if eq < s.len() {
            s.subrange(eq + 1, s.len() as int)
        } else {
            Seq::<u8>::empty()
        },
    )
}

/// The parsed form fields, in the order supplied.
pub open spec fn spec_form_fields(fs: Seq<Vec<u8>>) -> Seq<(Seq<u8>, Seq<u8>)> {
    Seq::new(fs.len(), |i: int| spec_form_field(fs[i]@))
}

pub open spec fn creds_match(c: Option<Credentials>, raw: RawOptions) -> bool {
    match c {
        Some(cr) => (raw.access_key matches Some(a) && cr.access_key@ == a@) && (
        raw.secret_key matches Some(s) && cr.secret_key@ == s@),
        None => raw.access_key is None && raw.secret_key is None,
    }
}

pub open spec fn output_matches(t: OutputTarget, o: Option<Vec<u8>>) -> bool {
    match o {
        None => t is Stdout,
        Some(p) => t matches OutputTarget::FilePath(q) && q@ == p@,
    }
}

/// What a successfully built model holds of the raw flags.
pub open spec fn model_matches(m: OptionModel, raw: RawOptions) -> bool {
    &&& m.method@ == raw.method@
    &&& m.url@ == spec_url_parts(raw.url@)
    &&& hview(m.headers@) == spec_parsed_headers(raw.headers@)
    &&& body_source_matches(m.body_source, raw.data)
    &&& hview(m.form_fields@) == spec_form_fields(raw.form@)
    &&& m.content_type_hint == spec_hint(raw)
    &&& opt_view(m.user_agent) == opt_view(raw.user_agent)
    &&& creds_match(m.credentials, raw)
    &&& opt_view(m.auth_scheme) == opt_view(raw.auth_scheme)
    &&& m.auth_via_url == raw.auth_via_url
    &&& opt_view(m.auth_upload_policy) == opt_view(raw.auth_upload_policy)
    &&& m.auth_upload_form == raw.auth_upload_form
    &&& opt_view(m.content_md5) == opt_view(raw.content_md5)
    &&& opt_view(m.region) == opt_view(raw.region)
    &&& output_matches(m.output_target, raw.output)
}

/// Builds the option model from the raw flag values, or reports the
/// first violated rule.
#[verifier::loop_isolation(false)]
pub fn validate(raw: RawOptions) -> (r: Result<OptionModel, ValidationError>)
    ensures
        match r {
            Ok(m) => spec_validate_outcome(raw) is None && model_matches(m, raw),
            Err(e) => spec_validate_outcome(raw) == Some(err_view(e)),
        },
{
    if !check_token(&raw.method) {
        return Err(ValidationError::InvalidMethod);
    }
    let url = match parse_url(&raw.url) {
        Some(u) => u,
        None => {
            return Err(ValidationError::InvalidUrl);
        },
    };
    if raw.data.is_some() && raw.form.len() > 0 {
        return Err(ValidationError::ConflictingBodySource);
    }
    if raw.access_key.is_some() != raw.secret_key.is_some() {
        return Err(ValidationError::IncompleteCredentials);
    }
    let mut headers: Vec<(Vec<u8>, Vec<u8>)> = Vec::new();
    let mut i: usize = 0;
    proof {
        lemma_first_bad_header(raw.headers@, 0);
    }
    while i < raw.headers.len()
        invariant
            i <= raw.headers@.len(),
            forall|j: int| 0 <= j < i ==> header_line_ok(raw.headers@[j]@),
            hview(headers@) =~= spec_parsed_headers(raw.headers@.take(i as int)),
        decreases raw.headers@.len() - i,
    {
        let ghost hs_before = headers@;
        let ghost raw_i = raw.headers@[i as int]@;
        match parse_header_line(&raw.headers[i]) {
            Some(p) => {
                proof {
                    assert(p.0@ == spec_header_name(raw_i));
                    assert(p.1@ == spec_header_value(raw_i));
                }
                let ghost gp = (p.0@, p.1@);
                headers.push(p);
                proof {
                    assert(hview(headers@) =~= hview(hs_before).push(gp));
                    assert(spec_parsed_headers(raw.headers@.take(i + 1 as int))
                        =~= spec_parsed_headers(raw.headers@.take(i as int)).push(
                        (spec_header_name(raw_i), spec_header_value(raw_i)),
                    ));
                }
            },
            None => {
                proof {
                    assert(first_bad_header(raw.headers@, 0) == i) by {
                        lemma_first_bad_header(raw.headers@, 0);
                        if first_bad_header(raw.headers@, 0) > i {
                            assert(header_line_ok(raw.headers@[i as int]@));
                        }
                    }
                }
                let bad = crate::bytes::copy_vec(&raw.headers[i]);
                return Err(ValidationError::MalformedHeader(bad));
            },
        }
        proof {
            assert(hview(headers@) =~= spec_parsed_headers(raw.headers@.take(i + 1 as int)));
        }
        i = i + 1;
    }
    proof {
        assert(raw.headers@.take(raw.headers@.len() as int) =~= raw.headers@);
        assert(first_bad_header(raw.headers@, 0) == raw.headers@.len()) by {
            lemma_first_bad_header(raw.headers@, 0);
            if first_bad_header(raw.headers@, 0) < raw.headers@.len() {
                assert(header_line_ok(raw.headers@[first_bad_header(raw.headers@, 0)]@));
            }
        }
    }
    let mut form_fields: Vec<(Vec<u8>, Vec<u8>)> = Vec::new();
    let mut k: usize = 0;
    while k < raw.form.len()
        invariant
            k <= raw.form@.len(),
            hview(form_fields@) =~= spec_form_fields(raw.form@.take(k as int)),
        decreases raw.form@.len() - k,
    {
        let f = &raw.form[k];
        proof {
            lemma_find_from(f@, 0, 61);
        }
        let mut eq: usize = 0;
        while eq < f.len() && f[eq] != 61
            invariant
                eq <= f@.len(),
                forall|j: int| 0 <= j < eq ==> f@[j] != 61,
            decreases f@.len() - eq,
        {
            eq = eq + 1;
        }
        proof {
            assert(eq as int == find_from(f@, 0, 61)) by {
                lemma_find_from(f@, 0, 61);
            }
        }
        let fname = crate::urlparse::sub_vec(f, 0, eq);
        let fval: Vec<u8> = if eq < f.len() {
            crate::urlparse::sub_vec(f, eq + 1, f.len())
        } else {
            Vec::new()
        };
        let ghost ff_before = form_fields@;
        let ghost gf = (fname@, fval@);
        form_fields.push((fname, fval));
        proof {
            assert(gf == spec_form_field(f@));
            assert(hview(form_fields@) =~= hview(ff_before).push(gf));
            assert(spec_form_fields(raw.form@.take(k + 1 as int)) =~= spec_form_fields(
                raw.form@.take(k as int),
            ).push(spec_form_field(f@)));
            assert(hview(form_fields@) =~= spec_form_fields(raw.form@.take(k + 1 as int)));
        }
        k = k + 1;
    }
    proof {
        assert(raw.form@.take(raw.form@.len() as int) =~= raw.form@);
    }
    let body_source: BodySource = match raw.data {
        None => BodySource::Empty,
        Some(d) => {
            if d.len() >= 1 && d[0] == 64 {
                let p = crate::urlparse::sub_vec(&d, 1, d.len());
                proof {
                    assert(p@ =~= d@.skip(1));
                }
                BodySource::FileRef(p)
            } else {
                BodySource::Literal(d)
            }
        },
    };
    let content_type_hint: ContentTypeHint = if raw.json {
        ContentTypeHint::Json
    } else if raw.binary {
        ContentTypeHint::Binary
    } else if raw.form_urlencoded {
        ContentTypeHint::FormUrlEncoded
    } else {
        ContentTypeHint::Unset
    };
    let credentials: Option<Credentials> = match (raw.access_key, raw.secret_key) {
        (Some(a), Some(s)) => Some(Credentials { access_key: a, secret_key: s }),
        _ => None,
    };
    let output_target: OutputTarget = match raw.output {
        None => OutputTarget::Stdout,
        Some(p) => OutputTarget::FilePath(p),
    };
    Ok(
        OptionModel {
            method: raw.method,
            url,
            headers,
            body_source,
            form_fields,
            content_type_hint,
            user_agent: raw.user_agent,
            credentials,
            auth_scheme: raw.auth_scheme,
            auth_via_url: raw.auth_via_url,
            auth_upload_policy: raw.auth_upload_policy,
            auth_upload_form: raw.auth_upload_form,
            content_md5: raw.content_md5,
            region: raw.region,
            output_target,
        },
    )
}

/// A body flag and form fields together always fail validation with
/// `ConflictingBodySource`, whatever their values, as long as the
/// method and URL pass their own checks first.
pub proof fn lemma_conflicting_body_source(raw: RawOptions)
    requires
        is_token(raw.method@),
        url_well_formed(raw.url@),
        raw.data is Some,
        raw.form@.len() > 0,
    ensures
        spec_validate_outcome(raw) == Some(SpecValidationError::ConflictingBodySource),
{
}

/// One credential half without the other always fails validation with
/// `IncompleteCredentials`, as long as the earlier rules pass.
pub proof fn lemma_incomplete_credentials(raw: RawOptions)
    requires
        is_token(raw.method@),
        url_well_formed(raw.url@),
        !(raw.data is Some && raw.form@.len() > 0),
        (raw.access_key is Some) != (raw.secret_key is Some),
    ensures
        spec_validate_outcome(raw) == Some(SpecValidationError::IncompleteCredentials),
{
}

/// Any token method and well-formed URL pass validation whenever no
/// other flag breaks a rule.
pub proof fn lemma_valid_method_url_accepted(raw: RawOptions)
    requires
        is_token(raw.method@),
        url_well_formed(raw.url@),
        !body_conflict(raw),
        !creds_incomplete(raw),
        forall|j: int| 0 <= j < raw.headers@.len() ==> header_line_ok(raw.headers@[j]@),
    ensures
        spec_validate_outcome(raw) is None,
{
    lemma_first_bad_header(raw.headers@, 0);
    if first_bad_header(raw.headers@, 0) < raw.headers@.len() {
        assert(header_line_ok(raw.headers@[first_bad_header(raw.headers@, 0)]@));
    }
}

} // verus!
