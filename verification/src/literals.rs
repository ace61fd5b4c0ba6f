//! Fixed byte strings of the pipeline: implicit header names, content
//! types, the multipart boundary, and the names used by the signing
//! strategy.  Each constant exists as a spec sequence and as an exec
//! builder proved to produce exactly those bytes.

use vstd::prelude::*;

verus! {

/// Bytes of `"User-Agent"`.
pub open spec fn spec_user_agent_name() -> Seq<u8> {
    seq![85u8, 115u8, 101u8, 114u8, 45u8, 65u8, 103u8, 101u8, 110u8, 116u8]
}

/// Builds the bytes of `"User-Agent"`.
pub fn user_agent_name() -> (r: Vec<u8>)
    ensures
        r@ == spec_user_agent_name(),
{
    let mut v: Vec<u8> = Vec::new();
    v.push(85);
    v.push(115);
    v.push(101);
    v.push(114);
    v.push(45);
    v.push(65);
    v.push(103);
    v.push(101);
    v.push(110);
    v.push(116);
    proof {
        assert(v@ =~= spec_user_agent_name());
    }
    v
}

/// Bytes of `"Content-Type"`.
pub open spec fn spec_content_type_name() -> Seq<u8> {
    seq![67u8, 111u8, 110u8, 116u8, 101u8, 110u8, 116u8, 45u8, 84u8, 121u8, 112u8, 101u8]
}

/// Builds the bytes of `"Content-Type"`.
pub fn content_type_name() -> (r: Vec<u8>)
    ensures
        r@ == spec_content_type_name(),
{
    let mut v: Vec<u8> = Vec::new();
    v.push(67);
    v.push(111);
    v.push(110);
    v.push(116);
    v.push(101);
    v.push(110);
    v.push(116);
    v.push(45);
    v.push(84);
    v.push(121);
    v.push(112);
    v.push(101);
    proof {
        assert(v@ =~= spec_content_type_name());
    }
    v
}

/// Bytes of `"Content-MD5"`.
pub open spec fn spec_content_md5_name() -> Seq<u8> {
    seq![67u8, 111u8, 110u8, 116u8, 101u8, 110u8, 116u8, 45u8, 77u8, 68u8, 53u8]
}

/// Builds the bytes of `"Content-MD5"`.
pub fn content_md5_name() -> (r: Vec<u8>)
    ensures
        r@ == spec_content_md5_name(),
{
    let mut v: Vec<u8> = Vec::new();
    v.push(67);
    v.push(111);
    v.push(110);
    v.push(116);
    v.push(101);
    v.push(110);
    v.push(116);
    v.push(45);
    v.push(77);
    v.push(68);
    v.push(53);
    proof {
        assert(v@ =~= spec_content_md5_name());
    }
    v
}

/// Bytes of `"application/json"`.
pub open spec fn spec_ct_json() -> Seq<u8> {
    seq![97u8, 112u8, 112u8, 108u8, 105u8, 99u8, 97u8, 116u8, 105u8, 111u8, 110u8, 47u8, 106u8, 115u8, 111u8, 110u8]
}

/// Builds the bytes of `"application/json"`.
pub fn ct_json() -> (r: Vec<u8>)
    ensures
        r@ == spec_ct_json(),
{
    let mut v: Vec<u8> = Vec::new();
    v.push(97);
    v.push(112);
    v.push(112);
    v.push(108);
    v.push(105);
    v.push(99);
    v.push(97);
    v.push(116);
    v.push(105);
    v.push(111);
    v.push(110);
    v.push(47);
    v.push(106);
    v.push(115);
    v.push(111);
    v.push(110);
    proof {
        assert(v@ =~= spec_ct_json());
    }
    v
}

/// Bytes of `"application/octet-stream"`.
pub open spec fn spec_ct_binary() -> Seq<u8> {
    seq![97u8, 112u8, 112u8, 108u8, 105u8, 99u8, 97u8, 116u8, 105u8, 111u8, 110u8, 47u8, 111u8, 99u8, 116u8, 101u8, 116u8, 45u8, 115u8, 116u8, 114u8, 101u8, 97u8, 109u8]
}

/// Builds the bytes of `"application/octet-stream"`.
pub fn ct_binary() -> (r: Vec<u8>)
    ensures
        r@ == spec_ct_binary(),
{
    let mut v: Vec<u8> = Vec::new();
    v.push(97);
    v.push(112);
    v.push(112);
    v.push(108);
    v.push(105);
    v.push(99);
    v.push(97);
    v.push(116);
    v.push(105);
    v.push(111);
    v.push(110);
    v.push(47);
    v.push(111);
    v.push(99);
    v.push(116);
    v.push(101);
    v.push(116);
    v.push(45);
    v.push(115);
    v.push(116);
    v.push(114);
    v.push(101);
    v.push(97);
    v.push(109);
    proof {
        assert(v@ =~= spec_ct_binary());
    }
    v
}

/// Bytes of `"application/x-www-form-urlencoded"`.
pub open spec fn spec_ct_urlencoded() -> Seq<u8> {
    seq![97u8, 112u8, 112u8, 108u8, 105u8, 99u8, 97u8, 116u8, 105u8, 111u8, 110u8, 47u8, 120u8, 45u8, 119u8, 119u8, 119u8, 45u8, 102u8, 111u8, 114u8, 109u8, 45u8, 117u8, 114u8, 108u8, 101u8, 110u8, 99u8, 111u8, 100u8, 101u8, 100u8]
}

/// Builds the bytes of `"application/x-www-form-urlencoded"`.
pub fn ct_urlencoded() -> (r: Vec<u8>)
    ensures
        r@ == spec_ct_urlencoded(),
{
    let mut v: Vec<u8> = Vec::new();
    v.push(97);
    v.push(112);
    v.push(112);
    v.push(108);
    v.push(105);
    v.push(99);
    v.push(97);
    v.push(116);
    v.push(105);
    v.push(111);
    v.push(110);
    v.push(47);
    v.push(120);
    v.push(45);
    v.push(119);
    v.push(119);
    v.push(119);
    v.push(45);
    v.push(102);
    v.push(111);
    v.push(114);
    v.push(109);
    v.push(45);
    v.push(117);
    v.push(114);
    v.push(108);
    v.push(101);
    v.push(110);
    v.push(99);
    v.push(111);
    v.push(100);
    v.push(101);
    v.push(100);
    proof {
        assert(v@ =~= spec_ct_urlencoded());
    }
    v
}

/// Bytes of `"multipart/form-data; boundary="`.
pub open spec fn spec_ct_multipart_prefix() -> Seq<u8> {
    seq![109u8, 117u8, 108u8, 116u8, 105u8, 112u8, 97u8, 114u8, 116u8, 47u8, 102u8, 111u8, 114u8, 109u8, 45u8, 100u8, 97u8, 116u8, 97u8, 59u8, 32u8, 98u8, 111u8, 117u8, 110u8, 100u8, 97u8, 114u8, 121u8, 61u8]
}

/// Builds the bytes of `"multipart/form-data; boundary="`.
pub fn ct_multipart_prefix() -> (r: Vec<u8>)
    ensures
        r@ == spec_ct_multipart_prefix(),
{
    let mut v: Vec<u8> = Vec::new();
    v.push(109);
    v.push(117);
    v.push(108);
    v.push(116);
    v.push(105);
    v.push(112);
    v.push(97);
    v.push(114);
    v.push(116);
    v.push(47);
    v.push(102);
    v.push(111);
    v.push(114);
    v.push(109);
    v.push(45);
    v.push(100);
    v.push(97);
    v.push(116);
    v.push(97);
    v.push(59);
    v.push(32);
    v.push(98);
    v.push(111);
    v.push(117);
    v.push(110);
    v.push(100);
    v.push(97);
    v.push(114);
    v.push(121);
    v.push(61);
    proof {
        assert(v@ =~= spec_ct_multipart_prefix());
    }
    v
}

/// Bytes of `"vcurlformboundary"`.
pub open spec fn spec_boundary() -> Seq<u8> {
    seq![118u8, 99u8, 117u8, 114u8, 108u8, 102u8, 111u8, 114u8, 109u8, 98u8, 111u8, 117u8, 110u8, 100u8, 97u8, 114u8, 121u8]
}

/// Builds the bytes of `"vcurlformboundary"`.
pub fn boundary() -> (r: Vec<u8>)
    ensures
        r@ == spec_boundary(),
{
    let mut v: Vec<u8> = Vec::new();
    v.push(118);
    v.push(99);
    v.push(117);
    v.push(114);
    v.push(108);
    v.push(102);
    v.push(111);
    v.push(114);
    v.push(109);
    v.push(98);
    v.push(111);
    v.push(117);
    v.push(110);
    v.push(100);
    v.push(97);
    v.push(114);
    v.push(121);
    proof {
        assert(v@ =~= spec_boundary());
    }
    v
}

/// Bytes of `"Authorization"`.
pub open spec fn spec_authorization_name() -> Seq<u8> {
    seq![65u8, 117u8, 116u8, 104u8, 111u8, 114u8, 105u8, 122u8, 97u8, 116u8, 105u8, 111u8, 110u8]
}

/// Builds the bytes of `"Authorization"`.
pub fn authorization_name() -> (r: Vec<u8>)
    ensures
        r@ == spec_authorization_name(),
{
    let mut v: Vec<u8> = Vec::new();
    v.push(65);
    v.push(117);
    v.push(116);
    v.push(104);
    v.push(111);
    v.push(114);
    v.push(105);
    v.push(122);
    v.push(97);
    v.push(116);
    v.push(105);
    v.push(111);
    v.push(110);
    proof {
        assert(v@ =~= spec_authorization_name());
    }
    v
}

/// Bytes of `"X-Auth-Date"`.
pub open spec fn spec_auth_date_name() -> Seq<u8> {
    seq![88u8, 45u8, 65u8, 117u8, 116u8, 104u8, 45u8, 68u8, 97u8, 116u8, 101u8]
}

/// Builds the bytes of `"X-Auth-Date"`.
pub fn auth_date_name() -> (r: Vec<u8>)
    ensures
        r@ == spec_auth_date_name(),
{
    let mut v: Vec<u8> = Vec::new();
    v.push(88);
    v.push(45);
    v.push(65);
    v.push(117);
    v.push(116);
    v.push(104);
    v.push(45);
    v.push(68);
    v.push(97);
    v.push(116);
    v.push(101);
    proof {
        assert(v@ =~= spec_auth_date_name());
    }
    v
}

/// Bytes of `"X-Auth-Region"`.
pub open spec fn spec_auth_region_name() -> Seq<u8> {
    seq![88u8, 45u8, 65u8, 117u8, 116u8, 104u8, 45u8, 82u8, 101u8, 103u8, 105u8, 111u8, 110u8]
}

/// Builds the bytes of `"X-Auth-Region"`.
pub fn auth_region_name() -> (r: Vec<u8>)
    ensures
        r@ == spec_auth_region_name(),
{
    let mut v: Vec<u8> = Vec::new();
    v.push(88);
    v.push(45);
    v.push(65);
    v.push(117);
    v.push(116);
    v.push(104);
    v.push(45);
    v.push(82);
    v.push(101);
    v.push(103);
    v.push(105);
    v.push(111);
    v.push(110);
    proof {
        assert(v@ =~= spec_auth_region_name());
    }
    v
}

/// Bytes of `"X-Auth-Policy"`.
pub open spec fn spec_policy_header_name() -> Seq<u8> {
    seq![88u8, 45u8, 65u8, 117u8, 116u8, 104u8, 45u8, 80u8, 111u8, 108u8, 105u8, 99u8, 121u8]
}

/// Builds the bytes of `"X-Auth-Policy"`.
pub fn policy_header_name() -> (r: Vec<u8>)
    ensures
        r@ == spec_policy_header_name(),
{
    let mut v: Vec<u8> = Vec::new();
    v.push(88);
    v.push(45);
    v.push(65);
    v.push(117);
    v.push(116);
    v.push(104);
    v.push(45);
    v.push(80);
    v.push(111);
    v.push(108);
    v.push(105);
    v.push(99);
    v.push(121);
    proof {
        assert(v@ =~= spec_policy_header_name());
    }
    v
}

/// Bytes of `"X-Auth-Policy-Signature"`.
pub open spec fn spec_policy_sig_header_name() -> Seq<u8> {
    seq![88u8, 45u8, 65u8, 117u8, 116u8, 104u8, 45u8, 80u8, 111u8, 108u8, 105u8, 99u8, 121u8, 45u8, 83u8, 105u8, 103u8, 110u8, 97u8, 116u8, 117u8, 114u8, 101u8]
}

/// Builds the bytes of `"X-Auth-Policy-Signature"`.
pub fn policy_sig_header_name() -> (r: Vec<u8>)
    ensures
        r@ == spec_policy_sig_header_name(),
{
    let mut v: Vec<u8> = Vec::new();
    v.push(88);
    v.push(45);
    v.push(65);
    v.push(117);
    v.push(116);
    v.push(104);
    v.push(45);
    v.push(80);
    v.push(111);
    v.push(108);
    v.push(105);
    v.push(99);
    v.push(121);
    v.push(45);
    v.push(83);
    v.push(105);
    v.push(103);
    v.push(110);
    v.push(97);
    v.push(116);
    v.push(117);
    v.push(114);
    v.push(101);
    proof {
        assert(v@ =~= spec_policy_sig_header_name());
    }
    v
}

/// Bytes of `"AccessKeyId"`.
pub open spec fn spec_q_access_key() -> Seq<u8> {
    seq![65u8, 99u8, 99u8, 101u8, 115u8, 115u8, 75u8, 101u8, 121u8, 73u8, 100u8]
}

/// Builds the bytes of `"AccessKeyId"`.
pub fn q_access_key() -> (r: Vec<u8>)
    ensures
        r@ == spec_q_access_key(),
{
    let mut v: Vec<u8> = Vec::new();
    v.push(65);
    v.push(99);
    v.push(99);
    v.push(101);
    v.push(115);
    v.push(115);
    v.push(75);
    v.push(101);
    v.push(121);
    v.push(73);
    v.push(100);
    proof {
        assert(v@ =~= spec_q_access_key());
    }
    v
}

/// Bytes of `"Timestamp"`.
pub open spec fn spec_q_timestamp() -> Seq<u8> {
    seq![84u8, 105u8, 109u8, 101u8, 115u8, 116u8, 97u8, 109u8, 112u8]
}

/// Builds the bytes of `"Timestamp"`.
pub fn q_timestamp() -> (r: Vec<u8>)
    ensures
        r@ == spec_q_timestamp(),
{
    let mut v: Vec<u8> = Vec::new();
    v.push(84);
    v.push(105);
    v.push(109);
    v.push(101);
    v.push(115);
    v.push(116);
    v.push(97);
    v.push(109);
    v.push(112);
    proof {
        assert(v@ =~= spec_q_timestamp());
    }
    v
}

/// Bytes of `"Signature"`.
pub open spec fn spec_q_signature() -> Seq<u8> {
    seq![83u8, 105u8, 103u8, 110u8, 97u8, 116u8, 117u8, 114u8, 101u8]
}

/// Builds the bytes of `"Signature"`.
pub fn q_signature() -> (r: Vec<u8>)
    ensures
        r@ == spec_q_signature(),
{
    let mut v: Vec<u8> = Vec::new();
    v.push(83);
    v.push(105);
    v.push(103);
    v.push(110);
    v.push(97);
    v.push(116);
    v.push(117);
    v.push(114);
    v.push(101);
    proof {
        assert(v@ =~= spec_q_signature());
    }
    v
}

/// Bytes of `"VCURL1"`.
pub open spec fn spec_default_scheme() -> Seq<u8> {
    seq![86u8, 67u8, 85u8, 82u8, 76u8, 49u8]
}

/// Builds the bytes of `"VCURL1"`.
pub fn default_scheme() -> (r: Vec<u8>)
    ensures
        r@ == spec_default_scheme(),
{
    let mut v: Vec<u8> = Vec::new();
    v.push(86);
    v.push(67);
    v.push(85);
    v.push(82);
    v.push(76);
    v.push(49);
    proof {
        assert(v@ =~= spec_default_scheme());
    }
    v
}

/// Bytes of `"policy"`.
pub open spec fn spec_policy_field() -> Seq<u8> {
    seq![112u8, 111u8, 108u8, 105u8, 99u8, 121u8]
}

/// Builds the bytes of `"policy"`.
pub fn policy_field() -> (r: Vec<u8>)
    ensures
        r@ == spec_policy_field(),
{
    let mut v: Vec<u8> = Vec::new();
    v.push(112);
    v.push(111);
    v.push(108);
    v.push(105);
    v.push(99);
    v.push(121);
    proof {
        assert(v@ =~= spec_policy_field());
    }
    v
}

/// Bytes of `"signature"`.
pub open spec fn spec_signature_field() -> Seq<u8> {
    seq![115u8, 105u8, 103u8, 110u8, 97u8, 116u8, 117u8, 114u8, 101u8]
}

/// Builds the bytes of `"signature"`.
pub fn signature_field() -> (r: Vec<u8>)
    ensures
        r@ == spec_signature_field(),
{
    let mut v: Vec<u8> = Vec::new();
    v.push(115);
    v.push(105);
    v.push(103);
    v.push(110);
    v.push(97);
    v.push(116);
    v.push(117);
    v.push(114);
    v.push(101);
    proof {
        assert(v@ =~= spec_signature_field());
    }
    v
}

/// Bytes of `"Content-Disposition: form-data; name="`.
pub open spec fn spec_disposition_prefix() -> Seq<u8> {
    seq![67u8, 111u8, 110u8, 116u8, 101u8, 110u8, 116u8, 45u8, 68u8, 105u8, 115u8, 112u8, 111u8, 115u8, 105u8, 116u8, 105u8, 111u8, 110u8, 58u8, 32u8, 102u8, 111u8, 114u8, 109u8, 45u8, 100u8, 97u8, 116u8, 97u8, 59u8, 32u8, 110u8, 97u8, 109u8, 101u8, 61u8]
}

/// Builds the bytes of `"Content-Disposition: form-data; name="`.
pub fn disposition_prefix() -> (r: Vec<u8>)
    ensures
        r@ == spec_disposition_prefix(),
{
    let mut v: Vec<u8> = Vec::new();
    v.push(67);
    v.push(111);
    v.push(110);
    v.push(116);
    v.push(101);
    v.push(110);
    v.push(116);
    v.push(45);
    v.push(68);
    v.push(105);
    v.push(115);
    v.push(112);
    v.push(111);
    v.push(115);
    v.push(105);
    v.push(116);
    v.push(105);
    v.push(111);
    v.push(110);
    v.push(58);
    v.push(32);
    v.push(102);
    v.push(111);
    v.push(114);
    v.push(109);
    v.push(45);
    v.push(100);
    v.push(97);
    v.push(116);
    v.push(97);
    v.push(59);
    v.push(32);
    v.push(110);
    v.push(97);
    v.push(109);
    v.push(101);
    v.push(61);
    proof {
        assert(v@ =~= spec_disposition_prefix());
    }
    v
}

} // verus!
