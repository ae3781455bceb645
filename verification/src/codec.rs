//! Encoding and parsing of whole protocol messages.
//!
//! A request is encoded as its bare variant name in quotes; a response as an
//! object tagged with its variant name, the session identity fields, the
//! state label, and the optional network snapshot (`null` when absent, an
//! object of its fields when present).  The encoder emits one canonical form
//! and the parser accepts exactly that form: both directions of the round
//! trip are part of the contracts, so a response reaches the client exactly
//! as the daemon built it, and a request reaches the daemon exactly as the
//! client sent it.

use crate::json::{
    dec_digits, escape_bytes, lemma_scan_escape, match_at, parse_u32_at, scan_str, spec_scan_str,
    spec_u32_at, vec_eq, QUOTE,
};
use crate::protocol::{
    opt_info_model, opt_str_model, IpInfo, IpInfoModel, JsonRequest, JsonResponse, ResponseModel,
};
use vstd::prelude::*;
use vstd::string::StrSliceExecFns;
use vstd::utf8::{
    decode_utf8, encode_utf8, encode_utf8_decode_utf8, encode_utf8_valid_utf8, valid_utf8,
};

verus! {

/// `"Stop"`
pub open spec fn lit_req_stop() -> Seq<u8> {
    seq![0x22u8, 0x53, 0x74, 0x6f, 0x70, 0x22]
}

/// The bytes of `"Stop"`.
fn b_req_stop() -> (r: Vec<u8>)
    ensures
        r@ == lit_req_stop(),
{
    let v: Vec<u8> = vec![0x22, 0x53, 0x74, 0x6f, 0x70, 0x22];
    proof {
        assert(v@ =~= lit_req_stop());
    }
    v
}

/// `"Info"`
pub open spec fn lit_req_info() -> Seq<u8> {
    seq![0x22u8, 0x49, 0x6e, 0x66, 0x6f, 0x22]
}

/// The bytes of `"Info"`.
fn b_req_info() -> (r: Vec<u8>)
    ensures
        r@ == lit_req_info(),
{
    let v: Vec<u8> = vec![0x22, 0x49, 0x6e, 0x66, 0x6f, 0x22];
    proof {
        assert(v@ =~= lit_req_info());
    }
    v
}

/// `{"StopResult":{"server_name":`
pub open spec fn lit_stop_prefix() -> Seq<u8> {
    seq![0x7bu8, 0x22, 0x53, 0x74, 0x6f, 0x70, 0x52, 0x65, 0x73, 0x75, 0x6c, 0x74, 0x22, 0x3a, 0x7b,
        0x22, 0x73, 0x65, 0x72, 0x76, 0x65, 0x72, 0x5f, 0x6e, 0x61, 0x6d, 0x65, 0x22, 0x3a]
}

/// The bytes of `{"StopResult":{"server_name":`.
fn b_stop_prefix() -> (r: Vec<u8>)
    ensures
        r@ == lit_stop_prefix(),
{
    let v: Vec<u8> = vec![0x7b, 0x22, 0x53, 0x74, 0x6f, 0x70, 0x52, 0x65, 0x73, 0x75, 0x6c, 0x74, 0x22, 0x3a, 0x7b, 0x22,
        0x73, 0x65, 0x72, 0x76, 0x65, 0x72, 0x5f, 0x6e, 0x61, 0x6d, 0x65, 0x22, 0x3a];
    proof {
        assert(v@ =~= lit_stop_prefix());
    }
    v
}

/// `{"InfoResult":{"server_name":`
pub open spec fn lit_info_prefix() -> Seq<u8> {
    seq![0x7bu8, 0x22, 0x49, 0x6e, 0x66, 0x6f, 0x52, 0x65, 0x73, 0x75, 0x6c, 0x74, 0x22, 0x3a, 0x7b,
        0x22, 0x73, 0x65, 0x72, 0x76, 0x65, 0x72, 0x5f, 0x6e, 0x61, 0x6d, 0x65, 0x22, 0x3a]
}

/// The bytes of `{"InfoResult":{"server_name":`.
fn b_info_prefix() -> (r: Vec<u8>)
    ensures
        r@ == lit_info_prefix(),
{
    let v: Vec<u8> = vec![0x7b, 0x22, 0x49, 0x6e, 0x66, 0x6f, 0x52, 0x65, 0x73, 0x75, 0x6c, 0x74, 0x22, 0x3a, 0x7b, 0x22,
        0x73, 0x65, 0x72, 0x76, 0x65, 0x72, 0x5f, 0x6e, 0x61, 0x6d, 0x65, 0x22, 0x3a];
    proof {
        assert(v@ =~= lit_info_prefix());
    }
    v
}

/// `,"server_url":`
pub open spec fn lit_key_server_url() -> Seq<u8> {
    seq![0x2cu8, 0x22, 0x73, 0x65, 0x72, 0x76, 0x65, 0x72, 0x5f, 0x75, 0x72, 0x6c, 0x22, 0x3a]
}

/// The bytes of `,"server_url":`.
fn b_key_server_url() -> (r: Vec<u8>)
    ensures
        r@ == lit_key_server_url(),
{
    let v: Vec<u8> = vec![0x2c, 0x22, 0x73, 0x65, 0x72, 0x76, 0x65, 0x72, 0x5f, 0x75, 0x72, 0x6c, 0x22, 0x3a];
    proof {
        assert(v@ =~= lit_key_server_url());
    }
    v
}

/// `,"hostname":`
pub open spec fn lit_key_hostname() -> Seq<u8> {
    seq![0x2cu8, 0x22, 0x68, 0x6f, 0x73, 0x74, 0x6e, 0x61, 0x6d, 0x65, 0x22, 0x3a]
}

/// The bytes of `,"hostname":`.
fn b_key_hostname() -> (r: Vec<u8>)
    ensures
        r@ == lit_key_hostname(),
{
    let v: Vec<u8> = vec![0x2c, 0x22, 0x68, 0x6f, 0x73, 0x74, 0x6e, 0x61, 0x6d, 0x65, 0x22, 0x3a];
    proof {
        assert(v@ =~= lit_key_hostname());
    }
    v
}

/// `,"status":`
pub open spec fn lit_key_status() -> Seq<u8> {
    seq![0x2cu8, 0x22, 0x73, 0x74, 0x61, 0x74, 0x75, 0x73, 0x22, 0x3a]
}

/// The bytes of `,"status":`.
fn b_key_status() -> (r: Vec<u8>)
    ensures
        r@ == lit_key_status(),
{
    let v: Vec<u8> = vec![0x2c, 0x22, 0x73, 0x74, 0x61, 0x74, 0x75, 0x73, 0x22, 0x3a];
    proof {
        assert(v@ =~= lit_key_status());
    }
    v
}

/// `,"info":`
pub open spec fn lit_key_info() -> Seq<u8> {
    seq![0x2cu8, 0x22, 0x69, 0x6e, 0x66, 0x6f, 0x22, 0x3a]
}

/// The bytes of `,"info":`.
fn b_key_info() -> (r: Vec<u8>)
    ensures
        r@ == lit_key_info(),
{
    let v: Vec<u8> = vec![0x2c, 0x22, 0x69, 0x6e, 0x66, 0x6f, 0x22, 0x3a];
    proof {
        assert(v@ =~= lit_key_info());
    }
    v
}

/// `}}`
pub open spec fn lit_obj_end() -> Seq<u8> {
    seq![0x7du8, 0x7d]
}

/// The bytes of `}}`.
fn b_obj_end() -> (r: Vec<u8>)
    ensures
        r@ == lit_obj_end(),
{
    let v: Vec<u8> = vec![0x7d, 0x7d];
    proof {
        assert(v@ =~= lit_obj_end());
    }
    v
}

/// `null`
pub open spec fn lit_null() -> Seq<u8> {
    seq![0x6eu8, 0x75, 0x6c, 0x6c]
}

/// The bytes of `null`.
fn b_null() -> (r: Vec<u8>)
    ensures
        r@ == lit_null(),
{
    let v: Vec<u8> = vec![0x6e, 0x75, 0x6c, 0x6c];
    proof {
        assert(v@ =~= lit_null());
    }
    v
}

/// `{"addr":`
pub open spec fn lit_info_open() -> Seq<u8> {
    seq![0x7bu8, 0x22, 0x61, 0x64, 0x64, 0x72, 0x22, 0x3a]
}

/// The bytes of `{"addr":`.
fn b_info_open() -> (r: Vec<u8>)
    ensures
        r@ == lit_info_open(),
{
    let v: Vec<u8> = vec![0x7b, 0x22, 0x61, 0x64, 0x64, 0x72, 0x22, 0x3a];
    proof {
        assert(v@ =~= lit_info_open());
    }
    v
}

/// `,"netmask":`
pub open spec fn lit_key_netmask() -> Seq<u8> {
    seq![0x2cu8, 0x22, 0x6e, 0x65, 0x74, 0x6d, 0x61, 0x73, 0x6b, 0x22, 0x3a]
}

/// The bytes of `,"netmask":`.
fn b_key_netmask() -> (r: Vec<u8>)
    ensures
        r@ == lit_key_netmask(),
{
    let v: Vec<u8> = vec![0x2c, 0x22, 0x6e, 0x65, 0x74, 0x6d, 0x61, 0x73, 0x6b, 0x22, 0x3a];
    proof {
        assert(v@ =~= lit_key_netmask());
    }
    v
}

/// `,"addr6":`
pub open spec fn lit_key_addr6() -> Seq<u8> {
    seq![0x2cu8, 0x22, 0x61, 0x64, 0x64, 0x72, 0x36, 0x22, 0x3a]
}

/// The bytes of `,"addr6":`.
fn b_key_addr6() -> (r: Vec<u8>)
    ensures
        r@ == lit_key_addr6(),
{
    let v: Vec<u8> = vec![0x2c, 0x22, 0x61, 0x64, 0x64, 0x72, 0x36, 0x22, 0x3a];
    proof {
        assert(v@ =~= lit_key_addr6());
    }
    v
}

/// `,"netmask6":`
pub open spec fn lit_key_netmask6() -> Seq<u8> {
    seq![0x2cu8, 0x22, 0x6e, 0x65, 0x74, 0x6d, 0x61, 0x73, 0x6b, 0x36, 0x22, 0x3a]
}

/// The bytes of `,"netmask6":`.
fn b_key_netmask6() -> (r: Vec<u8>)
    ensures
        r@ == lit_key_netmask6(),
{
    let v: Vec<u8> = vec![0x2c, 0x22, 0x6e, 0x65, 0x74, 0x6d, 0x61, 0x73, 0x6b, 0x36, 0x22, 0x3a];
    proof {
        assert(v@ =~= lit_key_netmask6());
    }
    v
}

/// `,"dns":[`
pub open spec fn lit_key_dns() -> Seq<u8> {
    seq![0x2cu8, 0x22, 0x64, 0x6e, 0x73, 0x22, 0x3a, 0x5b]
}

/// The bytes of `,"dns":[`.
fn b_key_dns() -> (r: Vec<u8>)
    ensures
        r@ == lit_key_dns(),
{
    let v: Vec<u8> = vec![0x2c, 0x22, 0x64, 0x6e, 0x73, 0x22, 0x3a, 0x5b];
    proof {
        assert(v@ =~= lit_key_dns());
    }
    v
}

/// `,`
pub open spec fn lit_comma() -> Seq<u8> {
    seq![0x2cu8]
}

/// The bytes of `,`.
fn b_comma() -> (r: Vec<u8>)
    ensures
        r@ == lit_comma(),
{
    let v: Vec<u8> = vec![0x2c];
    proof {
        assert(v@ =~= lit_comma());
    }
    v
}

/// `],"nbns":[`
pub open spec fn lit_key_nbns() -> Seq<u8> {
    seq![0x5du8, 0x2c, 0x22, 0x6e, 0x62, 0x6e, 0x73, 0x22, 0x3a, 0x5b]
}

/// The bytes of `],"nbns":[`.
fn b_key_nbns() -> (r: Vec<u8>)
    ensures
        r@ == lit_key_nbns(),
{
    let v: Vec<u8> = vec![0x5d, 0x2c, 0x22, 0x6e, 0x62, 0x6e, 0x73, 0x22, 0x3a, 0x5b];
    proof {
        assert(v@ =~= lit_key_nbns());
    }
    v
}

/// `],"domain":`
pub open spec fn lit_key_domain() -> Seq<u8> {
    seq![0x5du8, 0x2c, 0x22, 0x64, 0x6f, 0x6d, 0x61, 0x69, 0x6e, 0x22, 0x3a]
}

/// The bytes of `],"domain":`.
fn b_key_domain() -> (r: Vec<u8>)
    ensures
        r@ == lit_key_domain(),
{
    let v: Vec<u8> = vec![0x5d, 0x2c, 0x22, 0x64, 0x6f, 0x6d, 0x61, 0x69, 0x6e, 0x22, 0x3a];
    proof {
        assert(v@ =~= lit_key_domain());
    }
    v
}

/// `,"proxy_pac":`
pub open spec fn lit_key_proxy_pac() -> Seq<u8> {
    seq![0x2cu8, 0x22, 0x70, 0x72, 0x6f, 0x78, 0x79, 0x5f, 0x70, 0x61, 0x63, 0x22, 0x3a]
}

/// The bytes of `,"proxy_pac":`.
fn b_key_proxy_pac() -> (r: Vec<u8>)
    ensures
        r@ == lit_key_proxy_pac(),
{
    let v: Vec<u8> = vec![0x2c, 0x22, 0x70, 0x72, 0x6f, 0x78, 0x79, 0x5f, 0x70, 0x61, 0x63, 0x22, 0x3a];
    proof {
        assert(v@ =~= lit_key_proxy_pac());
    }
    v
}

/// `,"mtu":`
pub open spec fn lit_key_mtu() -> Seq<u8> {
    seq![0x2cu8, 0x22, 0x6d, 0x74, 0x75, 0x22, 0x3a]
}

/// The bytes of `,"mtu":`.
fn b_key_mtu() -> (r: Vec<u8>)
    ensures
        r@ == lit_key_mtu(),
{
    let v: Vec<u8> = vec![0x2c, 0x22, 0x6d, 0x74, 0x75, 0x22, 0x3a];
    proof {
        assert(v@ =~= lit_key_mtu());
    }
    v
}

/// `,"gateway_addr":`
pub open spec fn lit_key_gateway() -> Seq<u8> {
    seq![0x2cu8, 0x22, 0x67, 0x61, 0x74, 0x65, 0x77, 0x61, 0x79, 0x5f, 0x61, 0x64, 0x64, 0x72, 0x22,
        0x3a]
}

/// The bytes of `,"gateway_addr":`.
fn b_key_gateway() -> (r: Vec<u8>)
    ensures
        r@ == lit_key_gateway(),
{
    let v: Vec<u8> = vec![0x2c, 0x22, 0x67, 0x61, 0x74, 0x65, 0x77, 0x61, 0x79, 0x5f, 0x61, 0x64, 0x64, 0x72, 0x22, 0x3a];
    proof {
        assert(v@ =~= lit_key_gateway());
    }
    v
}

/// `}`
pub open spec fn lit_rbrace() -> Seq<u8> {
    seq![0x7du8]
}

/// The bytes of `}`.
fn b_rbrace() -> (r: Vec<u8>)
    ensures
        r@ == lit_rbrace(),
{
    let v: Vec<u8> = vec![0x7d];
    proof {
        assert(v@ =~= lit_rbrace());
    }
    v
}

// --- the canonical encodings --------------------------------------------

/// A quoted, escaped string value.
pub open spec fn spec_enc_str(s: Seq<char>) -> Seq<u8> {
    seq![QUOTE] + escape_bytes(encode_utf8(s)) + seq![QUOTE]
}

/// An optional string value: `null` when absent.
pub open spec fn spec_enc_opt_str(o: Option<Seq<char>>) -> Seq<u8> {
    match o {
        Option::Some(s) => spec_enc_str(s),
        Option::None => lit_null(),
    }
}

/// A request: the bare variant name in quotes.
pub open spec fn spec_enc_request(q: JsonRequest) -> Seq<u8> {
    match q {
        JsonRequest::Stop => lit_req_stop(),
        JsonRequest::Info => lit_req_info(),
    }
}

/// A network snapshot: an object of its fields, in a fixed order.  The
/// concatenation is grouped from the right, the order a parser peels it in.
pub open spec fn spec_enc_info(i: IpInfoModel) -> Seq<u8> {
    lit_info_open() + (spec_enc_opt_str(i.addr) + (lit_key_netmask() + (spec_enc_opt_str(i.netmask) + (lit_key_addr6() + (spec_enc_opt_str(i.addr6) + (lit_key_netmask6() + (spec_enc_opt_str(i.netmask6) + (lit_key_dns() + (spec_enc_opt_str(i.dns1) + (lit_comma() + (spec_enc_opt_str(i.dns2) + (lit_comma() + (spec_enc_opt_str(i.dns3) + (lit_key_nbns() + (spec_enc_opt_str(i.nbns1) + (lit_comma() + (spec_enc_opt_str(i.nbns2) + (lit_comma() + (spec_enc_opt_str(i.nbns3) + (lit_key_domain() + (spec_enc_opt_str(i.domain) + (lit_key_proxy_pac() + (spec_enc_opt_str(i.proxy_pac) + (lit_key_mtu() + (dec_digits(i.mtu as nat) + (lit_key_gateway() + (spec_enc_opt_str(i.gateway_addr) + (lit_rbrace()))))))))))))))))))))))))))))
}

/// An optional snapshot: `null` when absent.
pub open spec fn spec_enc_opt_info(o: Option<IpInfoModel>) -> Seq<u8> {
    match o {
        Option::Some(i) => spec_enc_info(i),
        Option::None => lit_null(),
    }
}

/// A response: the tagged object of its variant.
pub open spec fn spec_enc_response(m: ResponseModel) -> Seq<u8> {
    match m {
        ResponseModel::Stop { server_name } => lit_stop_prefix() + spec_enc_str(server_name)
            + lit_obj_end(),
        ResponseModel::Info { server_name, server_url, hostname, status, info } => {
            lit_info_prefix() + (spec_enc_str(server_name) + (lit_key_server_url() + (spec_enc_str(server_url) + (lit_key_hostname() + (spec_enc_str(hostname) + (lit_key_status() + (spec_enc_str(status) + (lit_key_info() + (spec_enc_opt_info(info) + (lit_obj_end()))))))))))
        },
    }
}

// --- encoding ------------------------------------------------------------

/// Appends a copy of `p` to `out`.
fn push_bytes(out: &mut Vec<u8>, p: &Vec<u8>)
    ensures
        final(out)@ == old(out)@ + p@,
{
    out.extend_from_slice(p.as_slice());
}

/// Appends the escape of `b` to `out`.
fn push_escaped(out: &mut Vec<u8>, b: &Vec<u8>)
    ensures
        final(out)@ == old(out)@ + escape_bytes(b@),
{
    let ghost orig: Seq<u8> = out@;
    let mut i: usize = 0;
    while i < b.len()
        invariant
            0 <= i <= b@.len(),
            out@ == orig + escape_bytes(b@.subrange(0, i as int)),
        decreases b@.len() - i,
    {
        let x = b[i];
        proof {
            crate::json::lemma_escape_concat(b@.subrange(0, i as int), seq![x]);
            assert(b@.subrange(0, i + 1) =~= b@.subrange(0, i as int) + seq![x]);
            assert(seq![x].skip(1) =~= Seq::<u8>::empty());
            assert(escape_bytes(seq![x].skip(1)) =~= Seq::<u8>::empty());
            assert(seq![x][0] == x);
            assert(escape_bytes(seq![x]) =~= crate::json::esc_byte(x));
        }
        if x == 0x22 {
            out.push(0x5c);
            out.push(0x22);
            proof {
                assert(out@ =~= orig + escape_bytes(b@.subrange(0, i + 1)));
            }
        } else if x == 0x5c {
            out.push(0x5c);
            out.push(0x5c);
            proof {
                assert(out@ =~= orig + escape_bytes(b@.subrange(0, i + 1)));
            }
        } else if x < 0x20 {
            let hi: u8 = x / 16;
            let lo: u8 = x % 16;
            let dhi: u8 = if hi < 10 {
                0x30 + hi
            } else {
                0x57 + hi
            };
            let dlo: u8 = if lo < 10 {
                0x30 + lo
            } else {
                0x57 + lo
            };
            out.push(0x5c);
            out.push(0x75);
            out.push(0x30);
            out.push(0x30);
            out.push(dhi);
            out.push(dlo);
            proof {
                assert(dhi == crate::json::hex_digit(x / 16));
                assert(dlo == crate::json::hex_digit(x % 16));
                assert(out@ =~= orig + escape_bytes(b@.subrange(0, i + 1)));
            }
        } else {
            out.push(x);
            proof {
                assert(out@ =~= orig + escape_bytes(b@.subrange(0, i + 1)));
            }
        }
        i = i + 1;
    }
    proof {
        assert(b@.subrange(0, b@.len() as int) =~= b@);
    }
}

/// Appends a quoted, escaped string value to `out`.
fn push_str_field(out: &mut Vec<u8>, s: &String)
    ensures
        final(out)@ == old(out)@ + spec_enc_str(s@),
{
    out.push(0x22);
    let b = s.as_str().as_bytes_vec();
    push_escaped(out, &b);
    out.push(0x22);
    proof {
        assert(out@ =~= old(out)@ + spec_enc_str(s@));
    }
}

/// Appends an optional string value to `out`: `null` when absent.
fn push_opt_str_field(out: &mut Vec<u8>, o: &Option<String>)
    ensures
        final(out)@ == old(out)@ + spec_enc_opt_str(opt_str_model(*o)),
{
    match o {
        Option::Some(s) => push_str_field(out, s),
        Option::None => push_bytes(out, &b_null()),
    }
}

/// Appends the decimal digits of `n` to `out`.
fn push_u32(out: &mut Vec<u8>, n: u32)
    ensures
        final(out)@ == old(out)@ + dec_digits(n as nat),
    decreases n,
{
    if n >= 10 {
        push_u32(out, n / 10);
    }
    out.push(0x30 + (n % 10) as u8);
    proof {
        assert(out@ =~= old(out)@ + dec_digits(n as nat));
    }
}

/// Appends the encoding of a snapshot to `out`.
#[verifier::rlimit(100)]
fn push_info(out: &mut Vec<u8>, i: &IpInfo)
    ensures
        final(out)@ == old(out)@ + spec_enc_info(i.model()),
{
    let ghost orig: Seq<u8> = out@;
    let ghost s1: Seq<u8> = lit_info_open();
    push_bytes(out, &b_info_open());
    proof {
        assert(out@ =~= orig + s1);
    }
    let ghost s2: Seq<u8> = s1 + spec_enc_opt_str(i.model().addr);
    push_opt_str_field(out, &i.addr);
    proof {
        assert(out@ =~= orig + s2);
    }
    let ghost s3: Seq<u8> = s2 + lit_key_netmask();
    push_bytes(out, &b_key_netmask());
    proof {
        assert(out@ =~= orig + s3);
    }
    let ghost s4: Seq<u8> = s3 + spec_enc_opt_str(i.model().netmask);
    push_opt_str_field(out, &i.netmask);
    proof {
        assert(out@ =~= orig + s4);
    }
    let ghost s5: Seq<u8> = s4 + lit_key_addr6();
    push_bytes(out, &b_key_addr6());
    proof {
        assert(out@ =~= orig + s5);
    }
    let ghost s6: Seq<u8> = s5 + spec_enc_opt_str(i.model().addr6);
    push_opt_str_field(out, &i.addr6);
    proof {
        assert(out@ =~= orig + s6);
    }
    let ghost s7: Seq<u8> = s6 + lit_key_netmask6();
    push_bytes(out, &b_key_netmask6());
    proof {
        assert(out@ =~= orig + s7);
    }
    let ghost s8: Seq<u8> = s7 + spec_enc_opt_str(i.model().netmask6);
    push_opt_str_field(out, &i.netmask6);
    proof {
        assert(out@ =~= orig + s8);
    }
    let ghost s9: Seq<u8> = s8 + lit_key_dns();
    push_bytes(out, &b_key_dns());
    proof {
        assert(out@ =~= orig + s9);
    }
    let ghost s10: Seq<u8> = s9 + spec_enc_opt_str(i.model().dns1);
    push_opt_str_field(out, &i.dns1);
    proof {
        assert(out@ =~= orig + s10);
    }
    let ghost s11: Seq<u8> = s10 + lit_comma();
    push_bytes(out, &b_comma());
    proof {
        assert(out@ =~= orig + s11);
    }
    let ghost s12: Seq<u8> = s11 + spec_enc_opt_str(i.model().dns2);
    push_opt_str_field(out, &i.dns2);
    proof {
        assert(out@ =~= orig + s12);
    }
    let ghost s13: Seq<u8> = s12 + lit_comma();
    push_bytes(out, &b_comma());
    proof {
        assert(out@ =~= orig + s13);
    }
    let ghost s14: Seq<u8> = s13 + spec_enc_opt_str(i.model().dns3);
    push_opt_str_field(out, &i.dns3);
    proof {
        assert(out@ =~= orig + s14);
    }
    let ghost s15: Seq<u8> = s14 + lit_key_nbns();
    push_bytes(out, &b_key_nbns());
    proof {
        assert(out@ =~= orig + s15);
    }
    let ghost s16: Seq<u8> = s15 + spec_enc_opt_str(i.model().nbns1);
    push_opt_str_field(out, &i.nbns1);
    proof {
        assert(out@ =~= orig + s16);
    }
    let ghost s17: Seq<u8> = s16 + lit_comma();
    push_bytes(out, &b_comma());
    proof {
        assert(out@ =~= orig + s17);
    }
    let ghost s18: Seq<u8> = s17 + spec_enc_opt_str(i.model().nbns2);
    push_opt_str_field(out, &i.nbns2);
    proof {
        assert(out@ =~= orig + s18);
    }
    let ghost s19: Seq<u8> = s18 + lit_comma();
    push_bytes(out, &b_comma());
    proof {
        assert(out@ =~= orig + s19);
    }
    let ghost s20: Seq<u8> = s19 + spec_enc_opt_str(i.model().nbns3);
    push_opt_str_field(out, &i.nbns3);
    proof {
        assert(out@ =~= orig + s20);
    }
    let ghost s21: Seq<u8> = s20 + lit_key_domain();
    push_bytes(out, &b_key_domain());
    proof {
        assert(out@ =~= orig + s21);
    }
    let ghost s22: Seq<u8> = s21 + spec_enc_opt_str(i.model().domain);
    push_opt_str_field(out, &i.domain);
    proof {
        assert(out@ =~= orig + s22);
    }
    let ghost s23: Seq<u8> = s22 + lit_key_proxy_pac();
    push_bytes(out, &b_key_proxy_pac());
    proof {
        assert(out@ =~= orig + s23);
    }
    let ghost s24: Seq<u8> = s23 + spec_enc_opt_str(i.model().proxy_pac);
    push_opt_str_field(out, &i.proxy_pac);
    proof {
        assert(out@ =~= orig + s24);
    }
    let ghost s25: Seq<u8> = s24 + lit_key_mtu();
    push_bytes(out, &b_key_mtu());
    proof {
        assert(out@ =~= orig + s25);
    }
    let ghost s26: Seq<u8> = s25 + dec_digits(i.model().mtu as nat);
    push_u32(out, i.mtu);
    proof {
        assert(out@ =~= orig + s26);
    }
    let ghost s27: Seq<u8> = s26 + lit_key_gateway();
    push_bytes(out, &b_key_gateway());
    proof {
        assert(out@ =~= orig + s27);
    }
    let ghost s28: Seq<u8> = s27 + spec_enc_opt_str(i.model().gateway_addr);
    push_opt_str_field(out, &i.gateway_addr);
    proof {
        assert(out@ =~= orig + s28);
    }
    let ghost s29: Seq<u8> = s28 + lit_rbrace();
    push_bytes(out, &b_rbrace());
    proof {
        assert(out@ =~= orig + s29);
    }
    proof {
        lemma_enc_info_flat(i.model());
        assert(s29 == spec_enc_info(i.model()));
    }
}

/// Encodes a request into one frame payload.
pub fn encode_request(q: &JsonRequest) -> (out: Vec<u8>)
    ensures
        out@ == spec_enc_request(*q),
{
    match q {
        JsonRequest::Stop => b_req_stop(),
        JsonRequest::Info => b_req_info(),
    }
}

/// Encodes a response into one frame payload.
pub fn encode_response(r: &JsonResponse) -> (out: Vec<u8>)
    ensures
        out@ == spec_enc_response(r.model()),
{
    let mut out: Vec<u8> = Vec::new();
    match r {
        JsonResponse::StopResult { server_name } => {
            push_bytes(&mut out, &b_stop_prefix());
            push_str_field(&mut out, server_name);
            push_bytes(&mut out, &b_obj_end());
            proof {
                assert(out@ =~= spec_enc_response(r.model()));
            }
        },
        JsonResponse::InfoResult { server_name, server_url, hostname, status, info } => {
            let ghost t1: Seq<u8> = lit_info_prefix();
            push_bytes(&mut out, &b_info_prefix());
            proof {
                assert(out@ =~= t1);
            }
            let ghost t2: Seq<u8> = t1 + spec_enc_str(server_name@);
            push_str_field(&mut out, server_name);
            proof {
                assert(out@ =~= t2);
            }
            let ghost t3: Seq<u8> = t2 + lit_key_server_url();
            push_bytes(&mut out, &b_key_server_url());
            proof {
                assert(out@ =~= t3);
            }
            let ghost t4: Seq<u8> = t3 + spec_enc_str(server_url@);
            push_str_field(&mut out, server_url);
            proof {
                assert(out@ =~= t4);
            }
            let ghost t5: Seq<u8> = t4 + lit_key_hostname();
            push_bytes(&mut out, &b_key_hostname());
            proof {
                assert(out@ =~= t5);
            }
            let ghost t6: Seq<u8> = t5 + spec_enc_str(hostname@);
            push_str_field(&mut out, hostname);
            proof {
                assert(out@ =~= t6);
            }
            let ghost t7: Seq<u8> = t6 + lit_key_status();
            push_bytes(&mut out, &b_key_status());
            proof {
                assert(out@ =~= t7);
            }
            let ghost t8: Seq<u8> = t7 + spec_enc_str(status@);
            push_str_field(&mut out, status);
            proof {
                assert(out@ =~= t8);
            }
            let ghost t9: Seq<u8> = t8 + lit_key_info();
            push_bytes(&mut out, &b_key_info());
            proof {
                assert(out@ =~= t9);
            }
            let ghost t10: Seq<u8> = t9 + spec_enc_opt_info(crate::protocol::opt_info_model(*info));
            match info {
                Option::Some(i) => push_info(&mut out, i),
                Option::None => push_bytes(&mut out, &b_null()),
            }
            proof {
                assert(out@ =~= t10);
            }
            let ghost t11: Seq<u8> = t10 + lit_obj_end();
            push_bytes(&mut out, &b_obj_end());
            proof {
                assert(out@ =~= t11);
            }
            proof {
                lemma_enc_resp_info_flat(r.model());
                assert(t11 == spec_enc_response(r.model()));
            }
        },
    }
    out
}

/// Concatenation is associative.
proof fn lemma_add_assoc(a: Seq<u8>, b: Seq<u8>, c: Seq<u8>)
    ensures
        (a + b) + c == a + (b + c),
{
    assert((a + b) + c =~= a + (b + c));
}

/// The snapshot encoding, regrouped from the left, as the encoder builds it.
#[verifier::rlimit(100)]
proof fn lemma_enc_info_flat(im: IpInfoModel)
    ensures
        spec_enc_info(im) == lit_info_open() + spec_enc_opt_str(im.addr) + lit_key_netmask() + spec_enc_opt_str(im.netmask) + lit_key_addr6() + spec_enc_opt_str(im.addr6) + lit_key_netmask6() + spec_enc_opt_str(im.netmask6) + lit_key_dns() + spec_enc_opt_str(im.dns1) + lit_comma() + spec_enc_opt_str(im.dns2) + lit_comma() + spec_enc_opt_str(im.dns3) + lit_key_nbns() + spec_enc_opt_str(im.nbns1) + lit_comma() + spec_enc_opt_str(im.nbns2) + lit_comma() + spec_enc_opt_str(im.nbns3) + lit_key_domain() + spec_enc_opt_str(im.domain) + lit_key_proxy_pac() + spec_enc_opt_str(im.proxy_pac) + lit_key_mtu() + dec_digits(im.mtu as nat) + lit_key_gateway() + spec_enc_opt_str(im.gateway_addr) + lit_rbrace(),
{
    let e = spec_enc_info(im);
    let p1 = lit_info_open();
    let p2 = spec_enc_opt_str(im.addr);
    let p3 = lit_key_netmask();
    let p4 = spec_enc_opt_str(im.netmask);
    let p5 = lit_key_addr6();
    let p6 = spec_enc_opt_str(im.addr6);
    let p7 = lit_key_netmask6();
    let p8 = spec_enc_opt_str(im.netmask6);
    let p9 = lit_key_dns();
    let p10 = spec_enc_opt_str(im.dns1);
    let p11 = lit_comma();
    let p12 = spec_enc_opt_str(im.dns2);
    let p13 = lit_comma();
    let p14 = spec_enc_opt_str(im.dns3);
    let p15 = lit_key_nbns();
    let p16 = spec_enc_opt_str(im.nbns1);
    let p17 = lit_comma();
    let p18 = spec_enc_opt_str(im.nbns2);
    let p19 = lit_comma();
    let p20 = spec_enc_opt_str(im.nbns3);
    let p21 = lit_key_domain();
    let p22 = spec_enc_opt_str(im.domain);
    let p23 = lit_key_proxy_pac();
    let p24 = spec_enc_opt_str(im.proxy_pac);
    let p25 = lit_key_mtu();
    let p26 = dec_digits(im.mtu as nat);
    let p27 = lit_key_gateway();
    let p28 = spec_enc_opt_str(im.gateway_addr);
    let p29 = lit_rbrace();
    let t29 = p29;
    let t28 = p28 + t29;
    let t27 = p27 + t28;
    let t26 = p26 + t27;
    let t25 = p25 + t26;
    let t24 = p24 + t25;
    let t23 = p23 + t24;
    let t22 = p22 + t23;
    let t21 = p21 + t22;
    let t20 = p20 + t21;
    let t19 = p19 + t20;
    let t18 = p18 + t19;
    let t17 = p17 + t18;
    let t16 = p16 + t17;
    let t15 = p15 + t16;
    let t14 = p14 + t15;
    let t13 = p13 + t14;
    let t12 = p12 + t13;
    let t11 = p11 + t12;
    let t10 = p10 + t11;
    let t9 = p9 + t10;
    let t8 = p8 + t9;
    let t7 = p7 + t8;
    let t6 = p6 + t7;
    let t5 = p5 + t6;
    let t4 = p4 + t5;
    let t3 = p3 + t4;
    let t2 = p2 + t3;
    let t1 = p1 + t2;
    let q1 = p1;
    let q2 = q1 + p2;
    let q3 = q2 + p3;
    let q4 = q3 + p4;
    let q5 = q4 + p5;
    let q6 = q5 + p6;
    let q7 = q6 + p7;
    let q8 = q7 + p8;
    let q9 = q8 + p9;
    let q10 = q9 + p10;
    let q11 = q10 + p11;
    let q12 = q11 + p12;
    let q13 = q12 + p13;
    let q14 = q13 + p14;
    let q15 = q14 + p15;
    let q16 = q15 + p16;
    let q17 = q16 + p17;
    let q18 = q17 + p18;
    let q19 = q18 + p19;
    let q20 = q19 + p20;
    let q21 = q20 + p21;
    let q22 = q21 + p22;
    let q23 = q22 + p23;
    let q24 = q23 + p24;
    let q25 = q24 + p25;
    let q26 = q25 + p26;
    let q27 = q26 + p27;
    let q28 = q27 + p28;
    let q29 = q28 + p29;
    assert(e == q1 + t2);
    lemma_add_assoc(q1, p2, t3);
    assert(q1 + t2 == q2 + t3);
    lemma_add_assoc(q2, p3, t4);
    assert(q2 + t3 == q3 + t4);
    lemma_add_assoc(q3, p4, t5);
    assert(q3 + t4 == q4 + t5);
    lemma_add_assoc(q4, p5, t6);
    assert(q4 + t5 == q5 + t6);
    lemma_add_assoc(q5, p6, t7);
    assert(q5 + t6 == q6 + t7);
    lemma_add_assoc(q6, p7, t8);
    assert(q6 + t7 == q7 + t8);
    lemma_add_assoc(q7, p8, t9);
    assert(q7 + t8 == q8 + t9);
    lemma_add_assoc(q8, p9, t10);
    assert(q8 + t9 == q9 + t10);
    lemma_add_assoc(q9, p10, t11);
    assert(q9 + t10 == q10 + t11);
    lemma_add_assoc(q10, p11, t12);
    assert(q10 + t11 == q11 + t12);
    lemma_add_assoc(q11, p12, t13);
    assert(q11 + t12 == q12 + t13);
    lemma_add_assoc(q12, p13, t14);
    assert(q12 + t13 == q13 + t14);
    lemma_add_assoc(q13, p14, t15);
    assert(q13 + t14 == q14 + t15);
    lemma_add_assoc(q14, p15, t16);
    assert(q14 + t15 == q15 + t16);
    lemma_add_assoc(q15, p16, t17);
    assert(q15 + t16 == q16 + t17);
    lemma_add_assoc(q16, p17, t18);
    assert(q16 + t17 == q17 + t18);
    lemma_add_assoc(q17, p18, t19);
    assert(q17 + t18 == q18 + t19);
    lemma_add_assoc(q18, p19, t20);
    assert(q18 + t19 == q19 + t20);
    lemma_add_assoc(q19, p20, t21);
    assert(q19 + t20 == q20 + t21);
    lemma_add_assoc(q20, p21, t22);
    assert(q20 + t21 == q21 + t22);
    lemma_add_assoc(q21, p22, t23);
    assert(q21 + t22 == q22 + t23);
    lemma_add_assoc(q22, p23, t24);
    assert(q22 + t23 == q23 + t24);
    lemma_add_assoc(q23, p24, t25);
    assert(q23 + t24 == q24 + t25);
    lemma_add_assoc(q24, p25, t26);
    assert(q24 + t25 == q25 + t26);
    lemma_add_assoc(q25, p26, t27);
    assert(q25 + t26 == q26 + t27);
    lemma_add_assoc(q26, p27, t28);
    assert(q26 + t27 == q27 + t28);
    lemma_add_assoc(q27, p28, t29);
    assert(q27 + t28 == q28 + t29);
    assert(q28 + t29 == q29);
    assert(e == q29);
}

/// The info-response encoding, regrouped from the left, as the encoder
/// builds it.
#[verifier::rlimit(100)]
proof fn lemma_enc_resp_info_flat(m: ResponseModel)
    requires
        m is Info,
    ensures
        spec_enc_response(m) == lit_info_prefix() + spec_enc_str(m->Info_server_name) + lit_key_server_url() + spec_enc_str(m->Info_server_url) + lit_key_hostname() + spec_enc_str(m->Info_hostname) + lit_key_status() + spec_enc_str(m->Info_status) + lit_key_info() + spec_enc_opt_info(m->Info_info) + lit_obj_end(),
{
    let e = spec_enc_response(m);
    let p1 = lit_info_prefix();
    let p2 = spec_enc_str(m->Info_server_name);
    let p3 = lit_key_server_url();
    let p4 = spec_enc_str(m->Info_server_url);
    let p5 = lit_key_hostname();
    let p6 = spec_enc_str(m->Info_hostname);
    let p7 = lit_key_status();
    let p8 = spec_enc_str(m->Info_status);
    let p9 = lit_key_info();
    let p10 = spec_enc_opt_info(m->Info_info);
    let p11 = lit_obj_end();
    let t11 = p11;
    let t10 = p10 + t11;
    let t9 = p9 + t10;
    let t8 = p8 + t9;
    let t7 = p7 + t8;
    let t6 = p6 + t7;
    let t5 = p5 + t6;
    let t4 = p4 + t5;
    let t3 = p3 + t4;
    let t2 = p2 + t3;
    let t1 = p1 + t2;
    let q1 = p1;
    let q2 = q1 + p2;
    let q3 = q2 + p3;
    let q4 = q3 + p4;
    let q5 = q4 + p5;
    let q6 = q5 + p6;
    let q7 = q6 + p7;
    let q8 = q7 + p8;
    let q9 = q8 + p9;
    let q10 = q9 + p10;
    let q11 = q10 + p11;
    assert(e == q1 + t2);
    lemma_add_assoc(q1, p2, t3);
    assert(q1 + t2 == q2 + t3);
    lemma_add_assoc(q2, p3, t4);
    assert(q2 + t3 == q3 + t4);
    lemma_add_assoc(q3, p4, t5);
    assert(q3 + t4 == q4 + t5);
    lemma_add_assoc(q4, p5, t6);
    assert(q4 + t5 == q5 + t6);
    lemma_add_assoc(q5, p6, t7);
    assert(q5 + t6 == q6 + t7);
    lemma_add_assoc(q6, p7, t8);
    assert(q6 + t7 == q7 + t8);
    lemma_add_assoc(q7, p8, t9);
    assert(q7 + t8 == q8 + t9);
    lemma_add_assoc(q8, p9, t10);
    assert(q8 + t9 == q9 + t10);
    lemma_add_assoc(q9, p10, t11);
    assert(q9 + t10 == q10 + t11);
    assert(q10 + t11 == q11);
    assert(e == q11);
}

// --- parsing ------------------------------------------------------------

/// Relies on String::from_utf8: it succeeds exactly on valid UTF-8 input and
/// yields the characters that those bytes encode.
#[verifier::external_body]
fn bytes_to_string(b: Vec<u8>) -> (r: Option<String>)
    ensures
        r is Some <==> valid_utf8(b@),
        r matches Some(s) ==> s@ == decode_utf8(b@),
{
    match String::from_utf8(b) {
        Ok(s) => Option::Some(s),
        Err(_) => Option::None,
    }
}

/// Splitting a known concatenation off the middle of a buffer.
pub proof fn lemma_strip(b: Seq<u8>, off: int, p: Seq<u8>, rest: Seq<u8>)
    requires
        0 <= off <= b.len(),
        b.skip(off) == p + rest,
    ensures
        off + p.len() <= b.len(),
        b.subrange(off, off + p.len() as int) == p,
        b.skip(off + p.len() as int) == rest,
{
    assert(b.skip(off).len() == b.len() - off);
    assert((p + rest).len() == p.len() + rest.len());
    assert forall|i: int| 0 <= i < p.len() implies b[off + i] == p[i] by {
        assert(b.skip(off)[i] == b[off + i]);
        assert((p + rest)[i] == p[i]);
    }
    assert forall|i: int| 0 <= i < rest.len() implies b[off + p.len() + i] == rest[i] by {
        assert(b.skip(off)[p.len() + i] == b[off + p.len() + i]);
        assert((p + rest)[p.len() + i] == rest[i]);
    }
    assert(b.subrange(off, off + p.len() as int) =~= p);
    assert(b.skip(off + p.len() as int) =~= rest);
}

/// A quoted string standing encoded at `off` in `b`.
pub open spec fn spec_str_at(b: Seq<u8>, off: int, s: Seq<char>) -> bool {
    &&& 0 <= off
    &&& off + spec_enc_str(s).len() <= b.len()
    &&& b.subrange(off, off + spec_enc_str(s).len() as int) == spec_enc_str(s)
}

/// Where a string stands encoded, the scanner finds exactly its content.
proof fn lemma_str_at_scan(b: Seq<u8>, off: int, s: Seq<char>)
    requires
        spec_str_at(b, off, s),
    ensures
        off < b.len(),
        b[off] == QUOTE,
        spec_scan_str(b.skip(off + 1)) == Option::Some(
            (encode_utf8(s), spec_enc_str(s).len() - 1 as int),
        ),
{
    let e = spec_enc_str(s);
    let l = e.len() as int;
    let rest = b.skip(off + l);
    assert(b.skip(off) =~= e + rest);
    assert(e[0] == QUOTE);
    assert(b[off] == e[0]);
    let tail = escape_bytes(encode_utf8(s)) + seq![QUOTE] + rest;
    assert(e + rest =~= seq![QUOTE] + tail);
    assert(b.skip(off + 1) =~= b.skip(off).skip(1));
    assert((seq![QUOTE] + tail).skip(1) =~= tail);
    assert(b.skip(off + 1) == tail);
    lemma_scan_escape(encode_utf8(s), rest);
}

/// Parses the quoted string standing at `off`, if one does: the string and
/// the index just past its closing quote.
fn parse_string_at(buf: &Vec<u8>, off: usize) -> (r: Option<(String, usize)>)
    requires
        off <= buf@.len(),
    ensures
        r matches Some(se) ==> off < se.1 <= buf@.len(),
        forall|s: Seq<char>|
            spec_str_at(buf@, off as int, s) ==> ({
                &&& r matches Some(se)
                &&& se.0@ == s
                &&& se.1 == off + spec_enc_str(s).len()
            }),
{
    let m: usize = buf.len();
    if off == m {
        proof {
            assert forall|s: Seq<char>| !spec_str_at(buf@, off as int, s) by {
                if spec_str_at(buf@, off as int, s) {
                    lemma_str_at_scan(buf@, off as int, s);
                }
            }
        }
        return None;
    }
    if buf[off] != 0x22 {
        proof {
            assert forall|s: Seq<char>| !spec_str_at(buf@, off as int, s) by {
                if spec_str_at(buf@, off as int, s) {
                    lemma_str_at_scan(buf@, off as int, s);
                }
            }
        }
        return None;
    }
    match scan_str(buf, off + 1) {
        Option::None => {
            proof {
                assert forall|s: Seq<char>| !spec_str_at(buf@, off as int, s) by {
                    if spec_str_at(buf@, off as int, s) {
                        lemma_str_at_scan(buf@, off as int, s);
                    }
                }
            }
            None
        },
        Option::Some((content, end)) => {
            let ghost content_view: Seq<u8> = content@;
            match bytes_to_string(content) {
                Option::None => {
                    proof {
                        assert forall|s: Seq<char>| !spec_str_at(buf@, off as int, s) by {
                            if spec_str_at(buf@, off as int, s) {
                                lemma_str_at_scan(buf@, off as int, s);
                                assert(content_view == encode_utf8(s));
                                encode_utf8_valid_utf8(s);
                            }
                        }
                    }
                    None
                },
                Option::Some(st) => {
                    proof {
                        assert forall|s: Seq<char>|
                            spec_str_at(buf@, off as int, s) implies st@ == s && end == off
                            + spec_enc_str(s).len() by {
                            lemma_str_at_scan(buf@, off as int, s);
                            assert(content_view == encode_utf8(s));
                            encode_utf8_valid_utf8(s);
                            encode_utf8_decode_utf8(s);
                        }
                    }
                    Some((st, end))
                },
            }
        },
    }
}

/// Parses one whole frame payload as a request.  Exactly the two canonical
/// request encodings are accepted, each to its request.
pub fn parse_request(buf: &Vec<u8>) -> (r: Option<JsonRequest>)
    ensures
        r matches Some(q) ==> buf@ == spec_enc_request(q),
        forall|q: JsonRequest| buf@ == spec_enc_request(q) ==> r == Option::Some(q),
{
    if vec_eq(buf, &b_req_stop()) {
        proof {
            assert(lit_req_stop()[1] != lit_req_info()[1]);
        }
        Some(JsonRequest::Stop)
    } else if vec_eq(buf, &b_req_info()) {
        proof {
            assert(lit_req_stop()[1] != lit_req_info()[1]);
        }
        Some(JsonRequest::Info)
    } else {
        None
    }
}

/// From a known subrange to a known split of the remainder.
proof fn lemma_at_to_skip(b: Seq<u8>, off: int, e: Seq<u8>)
    requires
        0 <= off,
        off + e.len() <= b.len(),
        b.subrange(off, off + e.len() as int) == e,
    ensures
        b.skip(off) == e + b.skip(off + e.len() as int),
{
    let rest = b.skip(off + e.len() as int);
    assert forall|i: int| 0 <= i < b.len() - off implies b.skip(off)[i] == (e + rest)[i] by {
        assert(b.skip(off)[i] == b[off + i]);
        if i < e.len() {
            assert(b.subrange(off, off + e.len() as int)[i] == b[off + i]);
        } else {
            assert(rest[i - e.len()] == b[off + i]);
        }
    }
    assert(b.skip(off) =~= e + rest);
}

/// An optional string value standing encoded at `off` in `b`.
pub open spec fn spec_opt_str_at(b: Seq<u8>, off: int, o: Option<Seq<char>>) -> bool {
    &&& 0 <= off
    &&& off + spec_enc_opt_str(o).len() <= b.len()
    &&& b.subrange(off, off + spec_enc_opt_str(o).len() as int) == spec_enc_opt_str(o)
}

/// A snapshot object standing encoded at `off` in `b`.
pub open spec fn spec_info_at(b: Seq<u8>, off: int, im: IpInfoModel) -> bool {
    &&& 0 <= off
    &&& off + spec_enc_info(im).len() <= b.len()
    &&& b.subrange(off, off + spec_enc_info(im).len() as int) == spec_enc_info(im)
}

/// An optional snapshot standing encoded at `off` in `b`.
pub open spec fn spec_opt_info_at(b: Seq<u8>, off: int, oi: Option<IpInfoModel>) -> bool {
    &&& 0 <= off
    &&& off + spec_enc_opt_info(oi).len() <= b.len()
    &&& b.subrange(off, off + spec_enc_opt_info(oi).len() as int) == spec_enc_opt_info(oi)
}

// The parser walks the payload with a cursor: a success flag and an offset.
// Each step consumes one piece of the canonical form; once the flag is
// false, every later step leaves it false.  Each step promises that where
// its piece really stands at the cursor, the step succeeds and recovers it.

/// Consumes a fixed literal at the cursor.
fn step_lit(buf: &Vec<u8>, ok: bool, off: usize, pat: &Vec<u8>) -> (r: (bool, usize))
    requires
        off <= buf@.len(),
    ensures
        r.1 <= buf@.len(),
        r.0 == (ok && off + pat@.len() <= buf@.len() && buf@.subrange(
            off as int,
            off + pat@.len() as int,
        ) == pat@),
        r.0 ==> r.1 == off + pat@.len(),
        !r.0 ==> r.1 == off,
{
    let m: usize = buf.len();
    if ok && match_at(buf, off, pat) {
        proof {
            assert(off + pat@.len() <= m);
        }
        (true, off + pat.len())
    } else {
        (false, off)
    }
}

/// Consumes a quoted string value at the cursor.
fn step_str(buf: &Vec<u8>, ok: bool, off: usize) -> (r: (bool, usize, String))
    requires
        off <= buf@.len(),
    ensures
        off <= r.1 <= buf@.len(),
        !ok ==> !r.0,
        !r.0 ==> r.1 == off,
        forall|s: Seq<char>|
            ok && spec_str_at(buf@, off as int, s) ==> ({
                &&& r.0
                &&& r.2@ == s
                &&& r.1 == off + spec_enc_str(s).len()
            }),
{
    if !ok {
        return (false, off, String::new());
    }
    match parse_string_at(buf, off) {
        Option::Some((st, end)) => (true, end, st),
        Option::None => (false, off, String::new()),
    }
}

/// Consumes an optional string value at the cursor: `null` or a string.
fn step_opt_str(buf: &Vec<u8>, ok: bool, off: usize) -> (r: (bool, usize, Option<String>))
    requires
        off <= buf@.len(),
    ensures
        off <= r.1 <= buf@.len(),
        !ok ==> !r.0,
        !r.0 ==> r.1 == off,
        forall|o: Option<Seq<char>>|
            ok && spec_opt_str_at(buf@, off as int, o) ==> ({
                &&& r.0
                &&& opt_str_model(r.2) == o
                &&& r.1 == off + spec_enc_opt_str(o).len()
            }),
{
    if !ok {
        return (false, off, Option::None);
    }
    let m: usize = buf.len();
    if match_at(buf, off, &b_null()) {
        proof {
            assert(lit_null().len() == 4);
            assert(off + 4 <= m);
            assert forall|o: Option<Seq<char>>|
                spec_opt_str_at(buf@, off as int, o) implies o is None by {
                if let Option::Some(s) = o {
                    assert(spec_enc_str(s)[0] == QUOTE);
                    assert(buf@[off as int] == spec_enc_str(s)[0]);
                    assert(buf@[off as int] == lit_null()[0]);
                }
            }
        }
        return (true, off + 4, Option::None);
    }
    match parse_string_at(buf, off) {
        Option::Some((st, end)) => {
            proof {
                assert forall|o: Option<Seq<char>>|
                    spec_opt_str_at(buf@, off as int, o) implies ({
                        &&& opt_str_model(Option::Some(st)) == o
                        &&& end == off + spec_enc_opt_str(o).len()
                    }) by {
                    match o {
                        Option::None => {
                            assert(buf@.subrange(off as int, off + lit_null().len() as int)
                                == lit_null());
                        },
                        Option::Some(sv) => {
                            assert(spec_enc_opt_str(Option::Some(sv)) == spec_enc_str(sv));
                            assert(spec_str_at(buf@, off as int, sv));
                        },
                    }
                }
            }
            (true, end, Option::Some(st))
        },
        Option::None => {
            proof {
                assert forall|o: Option<Seq<char>>| !spec_opt_str_at(buf@, off as int, o) by {
                    if spec_opt_str_at(buf@, off as int, o) {
                        match o {
                            Option::None => {
                                assert(buf@.subrange(off as int, off + lit_null().len() as int)
                                    == lit_null());
                            },
                            Option::Some(s) => {
                                assert(spec_str_at(buf@, off as int, s));
                            },
                        }
                    }
                }
            }
            (false, off, Option::None)
        },
    }
}

/// Consumes a decimal number at the cursor.
fn step_u32(buf: &Vec<u8>, ok: bool, off: usize) -> (r: (bool, usize, u32))
    requires
        off <= buf@.len(),
    ensures
        off <= r.1 <= buf@.len(),
        !ok ==> !r.0,
        !r.0 ==> r.1 == off,
        forall|w: u32|
            ok && spec_u32_at(buf@, off as int, w) ==> ({
                &&& r.0
                &&& r.2 == w
                &&& r.1 == off + dec_digits(w as nat).len()
            }),
{
    if !ok {
        return (false, off, 0);
    }
    match parse_u32_at(buf, off) {
        Option::Some((v, end)) => (true, end, v),
        Option::None => (false, off, 0),
    }
}

/// Where a snapshot stands encoded, each of its pieces stands at its
/// position in turn.
#[verifier::rlimit(100)]
proof fn lemma_info_pieces(b: Seq<u8>, o0: int, im: IpInfoModel)
    requires
        spec_info_at(b, o0, im),
    ensures
        (o0) + lit_info_open().len() <= b.len() && b.subrange(o0, (o0) + lit_info_open().len() as int) == lit_info_open(),
        spec_opt_str_at(b, o0 + lit_info_open().len(), im.addr),
        (o0 + lit_info_open().len() + spec_enc_opt_str(im.addr).len()) + lit_key_netmask().len() <= b.len() && b.subrange(o0 + lit_info_open().len() + spec_enc_opt_str(im.addr).len(), (o0 + lit_info_open().len() + spec_enc_opt_str(im.addr).len()) + lit_key_netmask().len() as int) == lit_key_netmask(),
        spec_opt_str_at(b, o0 + lit_info_open().len() + spec_enc_opt_str(im.addr).len() + lit_key_netmask().len(), im.netmask),
        (o0 + lit_info_open().len() + spec_enc_opt_str(im.addr).len() + lit_key_netmask().len() + spec_enc_opt_str(im.netmask).len()) + lit_key_addr6().len() <= b.len() && b.subrange(o0 + lit_info_open().len() + spec_enc_opt_str(im.addr).len() + lit_key_netmask().len() + spec_enc_opt_str(im.netmask).len(), (o0 + lit_info_open().len() + spec_enc_opt_str(im.addr).len() + lit_key_netmask().len() + spec_enc_opt_str(im.netmask).len()) + lit_key_addr6().len() as int) == lit_key_addr6(),
        spec_opt_str_at(b, o0 + lit_info_open().len() + spec_enc_opt_str(im.addr).len() + lit_key_netmask().len() + spec_enc_opt_str(im.netmask).len() + lit_key_addr6().len(), im.addr6),
        (o0 + lit_info_open().len() + spec_enc_opt_str(im.addr).len() + lit_key_netmask().len() + spec_enc_opt_str(im.netmask).len() + lit_key_addr6().len() + spec_enc_opt_str(im.addr6).len()) + lit_key_netmask6().len() <= b.len() && b.subrange(o0 + lit_info_open().len() + spec_enc_opt_str(im.addr).len() + lit_key_netmask().len() + spec_enc_opt_str(im.netmask).len() + lit_key_addr6().len() + spec_enc_opt_str(im.addr6).len(), (o0 + lit_info_open().len() + spec_enc_opt_str(im.addr).len() + lit_key_netmask().len() + spec_enc_opt_str(im.netmask).len() + lit_key_addr6().len() + spec_enc_opt_str(im.addr6).len()) + lit_key_netmask6().len() as int) == lit_key_netmask6(),
        spec_opt_str_at(b, o0 + lit_info_open().len() + spec_enc_opt_str(im.addr).len() + lit_key_netmask().len() + spec_enc_opt_str(im.netmask).len() + lit_key_addr6().len() + spec_enc_opt_str(im.addr6).len() + lit_key_netmask6().len(), im.netmask6),
        (o0 + lit_info_open().len() + spec_enc_opt_str(im.addr).len() + lit_key_netmask().len() + spec_enc_opt_str(im.netmask).len() + lit_key_addr6().len() + spec_enc_opt_str(im.addr6).len() + lit_key_netmask6().len() + spec_enc_opt_str(im.netmask6).len()) + lit_key_dns().len() <= b.len() && b.subrange(o0 + lit_info_open().len() + spec_enc_opt_str(im.addr).len() + lit_key_netmask().len() + spec_enc_opt_str(im.netmask).len() + lit_key_addr6().len() + spec_enc_opt_str(im.addr6).len() + lit_key_netmask6().len() + spec_enc_opt_str(im.netmask6).len(), (o0 + lit_info_open().len() + spec_enc_opt_str(im.addr).len() + lit_key_netmask().len() + spec_enc_opt_str(im.netmask).len() + lit_key_addr6().len() + spec_enc_opt_str(im.addr6).len() + lit_key_netmask6().len() + spec_enc_opt_str(im.netmask6).len()) + lit_key_dns().len() as int) == lit_key_dns(),
        spec_opt_str_at(b, o0 + lit_info_open().len() + spec_enc_opt_str(im.addr).len() + lit_key_netmask().len() + spec_enc_opt_str(im.netmask).len() + lit_key_addr6().len() + spec_enc_opt_str(im.addr6).len() + lit_key_netmask6().len() + spec_enc_opt_str(im.netmask6).len() + lit_key_dns().len(), im.dns1),
        (o0 + lit_info_open().len() + spec_enc_opt_str(im.addr).len() + lit_key_netmask().len() + spec_enc_opt_str(im.netmask).len() + lit_key_addr6().len() + spec_enc_opt_str(im.addr6).len() + lit_key_netmask6().len() + spec_enc_opt_str(im.netmask6).len() + lit_key_dns().len() + spec_enc_opt_str(im.dns1).len()) + lit_comma().len() <= b.len() && b.subrange(o0 + lit_info_open().len() + spec_enc_opt_str(im.addr).len() + lit_key_netmask().len() + spec_enc_opt_str(im.netmask).len() + lit_key_addr6().len() + spec_enc_opt_str(im.addr6).len() + lit_key_netmask6().len() + spec_enc_opt_str(im.netmask6).len() + lit_key_dns().len() + spec_enc_opt_str(im.dns1).len(), (o0 + lit_info_open().len() + spec_enc_opt_str(im.addr).len() + lit_key_netmask().len() + spec_enc_opt_str(im.netmask).len() + lit_key_addr6().len() + spec_enc_opt_str(im.addr6).len() + lit_key_netmask6().len() + spec_enc_opt_str(im.netmask6).len() + lit_key_dns().len() + spec_enc_opt_str(im.dns1).len()) + lit_comma().len() as int) == lit_comma(),
        spec_opt_str_at(b, o0 + lit_info_open().len() + spec_enc_opt_str(im.addr).len() + lit_key_netmask().len() + spec_enc_opt_str(im.netmask).len() + lit_key_addr6().len() + spec_enc_opt_str(im.addr6).len() + lit_key_netmask6().len() + spec_enc_opt_str(im.netmask6).len() + lit_key_dns().len() + spec_enc_opt_str(im.dns1).len() + lit_comma().len(), im.dns2),
        (o0 + lit_info_open().len() + spec_enc_opt_str(im.addr).len() + lit_key_netmask().len() + spec_enc_opt_str(im.netmask).len() + lit_key_addr6().len() + spec_enc_opt_str(im.addr6).len() + lit_key_netmask6().len() + spec_enc_opt_str(im.netmask6).len() + lit_key_dns().len() + spec_enc_opt_str(im.dns1).len() + lit_comma().len() + spec_enc_opt_str(im.dns2).len()) + lit_comma().len() <= b.len() && b.subrange(o0 + lit_info_open().len() + spec_enc_opt_str(im.addr).len() + lit_key_netmask().len() + spec_enc_opt_str(im.netmask).len() + lit_key_addr6().len() + spec_enc_opt_str(im.addr6).len() + lit_key_netmask6().len() + spec_enc_opt_str(im.netmask6).len() + lit_key_dns().len() + spec_enc_opt_str(im.dns1).len() + lit_comma().len() + spec_enc_opt_str(im.dns2).len(), (o0 + lit_info_open().len() + spec_enc_opt_str(im.addr).len() + lit_key_netmask().len() + spec_enc_opt_str(im.netmask).len() + lit_key_addr6().len() + spec_enc_opt_str(im.addr6).len() + lit_key_netmask6().len() + spec_enc_opt_str(im.netmask6).len() + lit_key_dns().len() + spec_enc_opt_str(im.dns1).len() + lit_comma().len() + spec_enc_opt_str(im.dns2).len()) + lit_comma().len() as int) == lit_comma(),
        spec_opt_str_at(b, o0 + lit_info_open().len() + spec_enc_opt_str(im.addr).len() + lit_key_netmask().len() + spec_enc_opt_str(im.netmask).len() + lit_key_addr6().len() + spec_enc_opt_str(im.addr6).len() + lit_key_netmask6().len() + spec_enc_opt_str(im.netmask6).len() + lit_key_dns().len() + spec_enc_opt_str(im.dns1).len() + lit_comma().len() + spec_enc_opt_str(im.dns2).len() + lit_comma().len(), im.dns3),
        (o0 + lit_info_open().len() + spec_enc_opt_str(im.addr).len() + lit_key_netmask().len() + spec_enc_opt_str(im.netmask).len() + lit_key_addr6().len() + spec_enc_opt_str(im.addr6).len() + lit_key_netmask6().len() + spec_enc_opt_str(im.netmask6).len() + lit_key_dns().len() + spec_enc_opt_str(im.dns1).len() + lit_comma().len() + spec_enc_opt_str(im.dns2).len() + lit_comma().len() + spec_enc_opt_str(im.dns3).len()) + lit_key_nbns().len() <= b.len() && b.subrange(o0 + lit_info_open().len() + spec_enc_opt_str(im.addr).len() + lit_key_netmask().len() + spec_enc_opt_str(im.netmask).len() + lit_key_addr6().len() + spec_enc_opt_str(im.addr6).len() + lit_key_netmask6().len() + spec_enc_opt_str(im.netmask6).len() + lit_key_dns().len() + spec_enc_opt_str(im.dns1).len() + lit_comma().len() + spec_enc_opt_str(im.dns2).len() + lit_comma().len() + spec_enc_opt_str(im.dns3).len(), (o0 + lit_info_open().len() + spec_enc_opt_str(im.addr).len() + lit_key_netmask().len() + spec_enc_opt_str(im.netmask).len() + lit_key_addr6().len() + spec_enc_opt_str(im.addr6).len() + lit_key_netmask6().len() + spec_enc_opt_str(im.netmask6).len() + lit_key_dns().len() + spec_enc_opt_str(im.dns1).len() + lit_comma().len() + spec_enc_opt_str(im.dns2).len() + lit_comma().len() + spec_enc_opt_str(im.dns3).len()) + lit_key_nbns().len() as int) == lit_key_nbns(),
        spec_opt_str_at(b, o0 + lit_info_open().len() + spec_enc_opt_str(im.addr).len() + lit_key_netmask().len() + spec_enc_opt_str(im.netmask).len() + lit_key_addr6().len() + spec_enc_opt_str(im.addr6).len() + lit_key_netmask6().len() + spec_enc_opt_str(im.netmask6).len() + lit_key_dns().len() + spec_enc_opt_str(im.dns1).len() + lit_comma().len() + spec_enc_opt_str(im.dns2).len() + lit_comma().len() + spec_enc_opt_str(im.dns3).len() + lit_key_nbns().len(), im.nbns1),
        (o0 + lit_info_open().len() + spec_enc_opt_str(im.addr).len() + lit_key_netmask().len() + spec_enc_opt_str(im.netmask).len() + lit_key_addr6().len() + spec_enc_opt_str(im.addr6).len() + lit_key_netmask6().len() + spec_enc_opt_str(im.netmask6).len() + lit_key_dns().len() + spec_enc_opt_str(im.dns1).len() + lit_comma().len() + spec_enc_opt_str(im.dns2).len() + lit_comma().len() + spec_enc_opt_str(im.dns3).len() + lit_key_nbns().len() + spec_enc_opt_str(im.nbns1).len()) + lit_comma().len() <= b.len() && b.subrange(o0 + lit_info_open().len() + spec_enc_opt_str(im.addr).len() + lit_key_netmask().len() + spec_enc_opt_str(im.netmask).len() + lit_key_addr6().len() + spec_enc_opt_str(im.addr6).len() + lit_key_netmask6().len() + spec_enc_opt_str(im.netmask6).len() + lit_key_dns().len() + spec_enc_opt_str(im.dns1).len() + lit_comma().len() + spec_enc_opt_str(im.dns2).len() + lit_comma().len() + spec_enc_opt_str(im.dns3).len() + lit_key_nbns().len() + spec_enc_opt_str(im.nbns1).len(), (o0 + lit_info_open().len() + spec_enc_opt_str(im.addr).len() + lit_key_netmask().len() + spec_enc_opt_str(im.netmask).len() + lit_key_addr6().len() + spec_enc_opt_str(im.addr6).len() + lit_key_netmask6().len() + spec_enc_opt_str(im.netmask6).len() + lit_key_dns().len() + spec_enc_opt_str(im.dns1).len() + lit_comma().len() + spec_enc_opt_str(im.dns2).len() + lit_comma().len() + spec_enc_opt_str(im.dns3).len() + lit_key_nbns().len() + spec_enc_opt_str(im.nbns1).len()) + lit_comma().len() as int) == lit_comma(),
        spec_opt_str_at(b, o0 + lit_info_open().len() + spec_enc_opt_str(im.addr).len() + lit_key_netmask().len() + spec_enc_opt_str(im.netmask).len() + lit_key_addr6().len() + spec_enc_opt_str(im.addr6).len() + lit_key_netmask6().len() + spec_enc_opt_str(im.netmask6).len() + lit_key_dns().len() + spec_enc_opt_str(im.dns1).len() + lit_comma().len() + spec_enc_opt_str(im.dns2).len() + lit_comma().len() + spec_enc_opt_str(im.dns3).len() + lit_key_nbns().len() + spec_enc_opt_str(im.nbns1).len() + lit_comma().len(), im.nbns2),
        (o0 + lit_info_open().len() + spec_enc_opt_str(im.addr).len() + lit_key_netmask().len() + spec_enc_opt_str(im.netmask).len() + lit_key_addr6().len() + spec_enc_opt_str(im.addr6).len() + lit_key_netmask6().len() + spec_enc_opt_str(im.netmask6).len() + lit_key_dns().len() + spec_enc_opt_str(im.dns1).len() + lit_comma().len() + spec_enc_opt_str(im.dns2).len() + lit_comma().len() + spec_enc_opt_str(im.dns3).len() + lit_key_nbns().len() + spec_enc_opt_str(im.nbns1).len() + lit_comma().len() + spec_enc_opt_str(im.nbns2).len()) + lit_comma().len() <= b.len() && b.subrange(o0 + lit_info_open().len() + spec_enc_opt_str(im.addr).len() + lit_key_netmask().len() + spec_enc_opt_str(im.netmask).len() + lit_key_addr6().len() + spec_enc_opt_str(im.addr6).len() + lit_key_netmask6().len() + spec_enc_opt_str(im.netmask6).len() + lit_key_dns().len() + spec_enc_opt_str(im.dns1).len() + lit_comma().len() + spec_enc_opt_str(im.dns2).len() + lit_comma().len() + spec_enc_opt_str(im.dns3).len() + lit_key_nbns().len() + spec_enc_opt_str(im.nbns1).len() + lit_comma().len() + spec_enc_opt_str(im.nbns2).len(), (o0 + lit_info_open().len() + spec_enc_opt_str(im.addr).len() + lit_key_netmask().len() + spec_enc_opt_str(im.netmask).len() + lit_key_addr6().len() + spec_enc_opt_str(im.addr6).len() + lit_key_netmask6().len() + spec_enc_opt_str(im.netmask6).len() + lit_key_dns().len() + spec_enc_opt_str(im.dns1).len() + lit_comma().len() + spec_enc_opt_str(im.dns2).len() + lit_comma().len() + spec_enc_opt_str(im.dns3).len() + lit_key_nbns().len() + spec_enc_opt_str(im.nbns1).len() + lit_comma().len() + spec_enc_opt_str(im.nbns2).len()) + lit_comma().len() as int) == lit_comma(),
        spec_opt_str_at(b, o0 + lit_info_open().len() + spec_enc_opt_str(im.addr).len() + lit_key_netmask().len() + spec_enc_opt_str(im.netmask).len() + lit_key_addr6().len() + spec_enc_opt_str(im.addr6).len() + lit_key_netmask6().len() + spec_enc_opt_str(im.netmask6).len() + lit_key_dns().len() + spec_enc_opt_str(im.dns1).len() + lit_comma().len() + spec_enc_opt_str(im.dns2).len() + lit_comma().len() + spec_enc_opt_str(im.dns3).len() + lit_key_nbns().len() + spec_enc_opt_str(im.nbns1).len() + lit_comma().len() + spec_enc_opt_str(im.nbns2).len() + lit_comma().len(), im.nbns3),
        (o0 + lit_info_open().len() + spec_enc_opt_str(im.addr).len() + lit_key_netmask().len() + spec_enc_opt_str(im.netmask).len() + lit_key_addr6().len() + spec_enc_opt_str(im.addr6).len() + lit_key_netmask6().len() + spec_enc_opt_str(im.netmask6).len() + lit_key_dns().len() + spec_enc_opt_str(im.dns1).len() + lit_comma().len() + spec_enc_opt_str(im.dns2).len() + lit_comma().len() + spec_enc_opt_str(im.dns3).len() + lit_key_nbns().len() + spec_enc_opt_str(im.nbns1).len() + lit_comma().len() + spec_enc_opt_str(im.nbns2).len() + lit_comma().len() + spec_enc_opt_str(im.nbns3).len()) + lit_key_domain().len() <= b.len() && b.subrange(o0 + lit_info_open().len() + spec_enc_opt_str(im.addr).len() + lit_key_netmask().len() + spec_enc_opt_str(im.netmask).len() + lit_key_addr6().len() + spec_enc_opt_str(im.addr6).len() + lit_key_netmask6().len() + spec_enc_opt_str(im.netmask6).len() + lit_key_dns().len() + spec_enc_opt_str(im.dns1).len() + lit_comma().len() + spec_enc_opt_str(im.dns2).len() + lit_comma().len() + spec_enc_opt_str(im.dns3).len() + lit_key_nbns().len() + spec_enc_opt_str(im.nbns1).len() + lit_comma().len() + spec_enc_opt_str(im.nbns2).len() + lit_comma().len() + spec_enc_opt_str(im.nbns3).len(), (o0 + lit_info_open().len() + spec_enc_opt_str(im.addr).len() + lit_key_netmask().len() + spec_enc_opt_str(im.netmask).len() + lit_key_addr6().len() + spec_enc_opt_str(im.addr6).len() + lit_key_netmask6().len() + spec_enc_opt_str(im.netmask6).len() + lit_key_dns().len() + spec_enc_opt_str(im.dns1).len() + lit_comma().len() + spec_enc_opt_str(im.dns2).len() + lit_comma().len() + spec_enc_opt_str(im.dns3).len() + lit_key_nbns().len() + spec_enc_opt_str(im.nbns1).len() + lit_comma().len() + spec_enc_opt_str(im.nbns2).len() + lit_comma().len() + spec_enc_opt_str(im.nbns3).len()) + lit_key_domain().len() as int) == lit_key_domain(),
        spec_opt_str_at(b, o0 + lit_info_open().len() + spec_enc_opt_str(im.addr).len() + lit_key_netmask().len() + spec_enc_opt_str(im.netmask).len() + lit_key_addr6().len() + spec_enc_opt_str(im.addr6).len() + lit_key_netmask6().len() + spec_enc_opt_str(im.netmask6).len() + lit_key_dns().len() + spec_enc_opt_str(im.dns1).len() + lit_comma().len() + spec_enc_opt_str(im.dns2).len() + lit_comma().len() + spec_enc_opt_str(im.dns3).len() + lit_key_nbns().len() + spec_enc_opt_str(im.nbns1).len() + lit_comma().len() + spec_enc_opt_str(im.nbns2).len() + lit_comma().len() + spec_enc_opt_str(im.nbns3).len() + lit_key_domain().len(), im.domain),
        (o0 + lit_info_open().len() + spec_enc_opt_str(im.addr).len() + lit_key_netmask().len() + spec_enc_opt_str(im.netmask).len() + lit_key_addr6().len() + spec_enc_opt_str(im.addr6).len() + lit_key_netmask6().len() + spec_enc_opt_str(im.netmask6).len() + lit_key_dns().len() + spec_enc_opt_str(im.dns1).len() + lit_comma().len() + spec_enc_opt_str(im.dns2).len() + lit_comma().len() + spec_enc_opt_str(im.dns3).len() + lit_key_nbns().len() + spec_enc_opt_str(im.nbns1).len() + lit_comma().len() + spec_enc_opt_str(im.nbns2).len() + lit_comma().len() + spec_enc_opt_str(im.nbns3).len() + lit_key_domain().len() + spec_enc_opt_str(im.domain).len()) + lit_key_proxy_pac().len() <= b.len() && b.subrange(o0 + lit_info_open().len() + spec_enc_opt_str(im.addr).len() + lit_key_netmask().len() + spec_enc_opt_str(im.netmask).len() + lit_key_addr6().len() + spec_enc_opt_str(im.addr6).len() + lit_key_netmask6().len() + spec_enc_opt_str(im.netmask6).len() + lit_key_dns().len() + spec_enc_opt_str(im.dns1).len() + lit_comma().len() + spec_enc_opt_str(im.dns2).len() + lit_comma().len() + spec_enc_opt_str(im.dns3).len() + lit_key_nbns().len() + spec_enc_opt_str(im.nbns1).len() + lit_comma().len() + spec_enc_opt_str(im.nbns2).len() + lit_comma().len() + spec_enc_opt_str(im.nbns3).len() + lit_key_domain().len() + spec_enc_opt_str(im.domain).len(), (o0 + lit_info_open().len() + spec_enc_opt_str(im.addr).len() + lit_key_netmask().len() + spec_enc_opt_str(im.netmask).len() + lit_key_addr6().len() + spec_enc_opt_str(im.addr6).len() + lit_key_netmask6().len() + spec_enc_opt_str(im.netmask6).len() + lit_key_dns().len() + spec_enc_opt_str(im.dns1).len() + lit_comma().len() + spec_enc_opt_str(im.dns2).len() + lit_comma().len() + spec_enc_opt_str(im.dns3).len() + lit_key_nbns().len() + spec_enc_opt_str(im.nbns1).len() + lit_comma().len() + spec_enc_opt_str(im.nbns2).len() + lit_comma().len() + spec_enc_opt_str(im.nbns3).len() + lit_key_domain().len() + spec_enc_opt_str(im.domain).len()) + lit_key_proxy_pac().len() as int) == lit_key_proxy_pac(),
        spec_opt_str_at(b, o0 + lit_info_open().len() + spec_enc_opt_str(im.addr).len() + lit_key_netmask().len() + spec_enc_opt_str(im.netmask).len() + lit_key_addr6().len() + spec_enc_opt_str(im.addr6).len() + lit_key_netmask6().len() + spec_enc_opt_str(im.netmask6).len() + lit_key_dns().len() + spec_enc_opt_str(im.dns1).len() + lit_comma().len() + spec_enc_opt_str(im.dns2).len() + lit_comma().len() + spec_enc_opt_str(im.dns3).len() + lit_key_nbns().len() + spec_enc_opt_str(im.nbns1).len() + lit_comma().len() + spec_enc_opt_str(im.nbns2).len() + lit_comma().len() + spec_enc_opt_str(im.nbns3).len() + lit_key_domain().len() + spec_enc_opt_str(im.domain).len() + lit_key_proxy_pac().len(), im.proxy_pac),
        (o0 + lit_info_open().len() + spec_enc_opt_str(im.addr).len() + lit_key_netmask().len() + spec_enc_opt_str(im.netmask).len() + lit_key_addr6().len() + spec_enc_opt_str(im.addr6).len() + lit_key_netmask6().len() + spec_enc_opt_str(im.netmask6).len() + lit_key_dns().len() + spec_enc_opt_str(im.dns1).len() + lit_comma().len() + spec_enc_opt_str(im.dns2).len() + lit_comma().len() + spec_enc_opt_str(im.dns3).len() + lit_key_nbns().len() + spec_enc_opt_str(im.nbns1).len() + lit_comma().len() + spec_enc_opt_str(im.nbns2).len() + lit_comma().len() + spec_enc_opt_str(im.nbns3).len() + lit_key_domain().len() + spec_enc_opt_str(im.domain).len() + lit_key_proxy_pac().len() + spec_enc_opt_str(im.proxy_pac).len()) + lit_key_mtu().len() <= b.len() && b.subrange(o0 + lit_info_open().len() + spec_enc_opt_str(im.addr).len() + lit_key_netmask().len() + spec_enc_opt_str(im.netmask).len() + lit_key_addr6().len() + spec_enc_opt_str(im.addr6).len() + lit_key_netmask6().len() + spec_enc_opt_str(im.netmask6).len() + lit_key_dns().len() + spec_enc_opt_str(im.dns1).len() + lit_comma().len() + spec_enc_opt_str(im.dns2).len() + lit_comma().len() + spec_enc_opt_str(im.dns3).len() + lit_key_nbns().len() + spec_enc_opt_str(im.nbns1).len() + lit_comma().len() + spec_enc_opt_str(im.nbns2).len() + lit_comma().len() + spec_enc_opt_str(im.nbns3).len() + lit_key_domain().len() + spec_enc_opt_str(im.domain).len() + lit_key_proxy_pac().len() + spec_enc_opt_str(im.proxy_pac).len(), (o0 + lit_info_open().len() + spec_enc_opt_str(im.addr).len() + lit_key_netmask().len() + spec_enc_opt_str(im.netmask).len() + lit_key_addr6().len() + spec_enc_opt_str(im.addr6).len() + lit_key_netmask6().len() + spec_enc_opt_str(im.netmask6).len() + lit_key_dns().len() + spec_enc_opt_str(im.dns1).len() + lit_comma().len() + spec_enc_opt_str(im.dns2).len() + lit_comma().len() + spec_enc_opt_str(im.dns3).len() + lit_key_nbns().len() + spec_enc_opt_str(im.nbns1).len() + lit_comma().len() + spec_enc_opt_str(im.nbns2).len() + lit_comma().len() + spec_enc_opt_str(im.nbns3).len() + lit_key_domain().len() + spec_enc_opt_str(im.domain).len() + lit_key_proxy_pac().len() + spec_enc_opt_str(im.proxy_pac).len()) + lit_key_mtu().len() as int) == lit_key_mtu(),
        spec_u32_at(b, o0 + lit_info_open().len() + spec_enc_opt_str(im.addr).len() + lit_key_netmask().len() + spec_enc_opt_str(im.netmask).len() + lit_key_addr6().len() + spec_enc_opt_str(im.addr6).len() + lit_key_netmask6().len() + spec_enc_opt_str(im.netmask6).len() + lit_key_dns().len() + spec_enc_opt_str(im.dns1).len() + lit_comma().len() + spec_enc_opt_str(im.dns2).len() + lit_comma().len() + spec_enc_opt_str(im.dns3).len() + lit_key_nbns().len() + spec_enc_opt_str(im.nbns1).len() + lit_comma().len() + spec_enc_opt_str(im.nbns2).len() + lit_comma().len() + spec_enc_opt_str(im.nbns3).len() + lit_key_domain().len() + spec_enc_opt_str(im.domain).len() + lit_key_proxy_pac().len() + spec_enc_opt_str(im.proxy_pac).len() + lit_key_mtu().len(), im.mtu),
        (o0 + lit_info_open().len() + spec_enc_opt_str(im.addr).len() + lit_key_netmask().len() + spec_enc_opt_str(im.netmask).len() + lit_key_addr6().len() + spec_enc_opt_str(im.addr6).len() + lit_key_netmask6().len() + spec_enc_opt_str(im.netmask6).len() + lit_key_dns().len() + spec_enc_opt_str(im.dns1).len() + lit_comma().len() + spec_enc_opt_str(im.dns2).len() + lit_comma().len() + spec_enc_opt_str(im.dns3).len() + lit_key_nbns().len() + spec_enc_opt_str(im.nbns1).len() + lit_comma().len() + spec_enc_opt_str(im.nbns2).len() + lit_comma().len() + spec_enc_opt_str(im.nbns3).len() + lit_key_domain().len() + spec_enc_opt_str(im.domain).len() + lit_key_proxy_pac().len() + spec_enc_opt_str(im.proxy_pac).len() + lit_key_mtu().len() + dec_digits(im.mtu as nat).len()) + lit_key_gateway().len() <= b.len() && b.subrange(o0 + lit_info_open().len() + spec_enc_opt_str(im.addr).len() + lit_key_netmask().len() + spec_enc_opt_str(im.netmask).len() + lit_key_addr6().len() + spec_enc_opt_str(im.addr6).len() + lit_key_netmask6().len() + spec_enc_opt_str(im.netmask6).len() + lit_key_dns().len() + spec_enc_opt_str(im.dns1).len() + lit_comma().len() + spec_enc_opt_str(im.dns2).len() + lit_comma().len() + spec_enc_opt_str(im.dns3).len() + lit_key_nbns().len() + spec_enc_opt_str(im.nbns1).len() + lit_comma().len() + spec_enc_opt_str(im.nbns2).len() + lit_comma().len() + spec_enc_opt_str(im.nbns3).len() + lit_key_domain().len() + spec_enc_opt_str(im.domain).len() + lit_key_proxy_pac().len() + spec_enc_opt_str(im.proxy_pac).len() + lit_key_mtu().len() + dec_digits(im.mtu as nat).len(), (o0 + lit_info_open().len() + spec_enc_opt_str(im.addr).len() + lit_key_netmask().len() + spec_enc_opt_str(im.netmask).len() + lit_key_addr6().len() + spec_enc_opt_str(im.addr6).len() + lit_key_netmask6().len() + spec_enc_opt_str(im.netmask6).len() + lit_key_dns().len() + spec_enc_opt_str(im.dns1).len() + lit_comma().len() + spec_enc_opt_str(im.dns2).len() + lit_comma().len() + spec_enc_opt_str(im.dns3).len() + lit_key_nbns().len() + spec_enc_opt_str(im.nbns1).len() + lit_comma().len() + spec_enc_opt_str(im.nbns2).len() + lit_comma().len() + spec_enc_opt_str(im.nbns3).len() + lit_key_domain().len() + spec_enc_opt_str(im.domain).len() + lit_key_proxy_pac().len() + spec_enc_opt_str(im.proxy_pac).len() + lit_key_mtu().len() + dec_digits(im.mtu as nat).len()) + lit_key_gateway().len() as int) == lit_key_gateway(),
        spec_opt_str_at(b, o0 + lit_info_open().len() + spec_enc_opt_str(im.addr).len() + lit_key_netmask().len() + spec_enc_opt_str(im.netmask).len() + lit_key_addr6().len() + spec_enc_opt_str(im.addr6).len() + lit_key_netmask6().len() + spec_enc_opt_str(im.netmask6).len() + lit_key_dns().len() + spec_enc_opt_str(im.dns1).len() + lit_comma().len() + spec_enc_opt_str(im.dns2).len() + lit_comma().len() + spec_enc_opt_str(im.dns3).len() + lit_key_nbns().len() + spec_enc_opt_str(im.nbns1).len() + lit_comma().len() + spec_enc_opt_str(im.nbns2).len() + lit_comma().len() + spec_enc_opt_str(im.nbns3).len() + lit_key_domain().len() + spec_enc_opt_str(im.domain).len() + lit_key_proxy_pac().len() + spec_enc_opt_str(im.proxy_pac).len() + lit_key_mtu().len() + dec_digits(im.mtu as nat).len() + lit_key_gateway().len(), im.gateway_addr),
        (o0 + lit_info_open().len() + spec_enc_opt_str(im.addr).len() + lit_key_netmask().len() + spec_enc_opt_str(im.netmask).len() + lit_key_addr6().len() + spec_enc_opt_str(im.addr6).len() + lit_key_netmask6().len() + spec_enc_opt_str(im.netmask6).len() + lit_key_dns().len() + spec_enc_opt_str(im.dns1).len() + lit_comma().len() + spec_enc_opt_str(im.dns2).len() + lit_comma().len() + spec_enc_opt_str(im.dns3).len() + lit_key_nbns().len() + spec_enc_opt_str(im.nbns1).len() + lit_comma().len() + spec_enc_opt_str(im.nbns2).len() + lit_comma().len() + spec_enc_opt_str(im.nbns3).len() + lit_key_domain().len() + spec_enc_opt_str(im.domain).len() + lit_key_proxy_pac().len() + spec_enc_opt_str(im.proxy_pac).len() + lit_key_mtu().len() + dec_digits(im.mtu as nat).len() + lit_key_gateway().len() + spec_enc_opt_str(im.gateway_addr).len()) + lit_rbrace().len() <= b.len() && b.subrange(o0 + lit_info_open().len() + spec_enc_opt_str(im.addr).len() + lit_key_netmask().len() + spec_enc_opt_str(im.netmask).len() + lit_key_addr6().len() + spec_enc_opt_str(im.addr6).len() + lit_key_netmask6().len() + spec_enc_opt_str(im.netmask6).len() + lit_key_dns().len() + spec_enc_opt_str(im.dns1).len() + lit_comma().len() + spec_enc_opt_str(im.dns2).len() + lit_comma().len() + spec_enc_opt_str(im.dns3).len() + lit_key_nbns().len() + spec_enc_opt_str(im.nbns1).len() + lit_comma().len() + spec_enc_opt_str(im.nbns2).len() + lit_comma().len() + spec_enc_opt_str(im.nbns3).len() + lit_key_domain().len() + spec_enc_opt_str(im.domain).len() + lit_key_proxy_pac().len() + spec_enc_opt_str(im.proxy_pac).len() + lit_key_mtu().len() + dec_digits(im.mtu as nat).len() + lit_key_gateway().len() + spec_enc_opt_str(im.gateway_addr).len(), (o0 + lit_info_open().len() + spec_enc_opt_str(im.addr).len() + lit_key_netmask().len() + spec_enc_opt_str(im.netmask).len() + lit_key_addr6().len() + spec_enc_opt_str(im.addr6).len() + lit_key_netmask6().len() + spec_enc_opt_str(im.netmask6).len() + lit_key_dns().len() + spec_enc_opt_str(im.dns1).len() + lit_comma().len() + spec_enc_opt_str(im.dns2).len() + lit_comma().len() + spec_enc_opt_str(im.dns3).len() + lit_key_nbns().len() + spec_enc_opt_str(im.nbns1).len() + lit_comma().len() + spec_enc_opt_str(im.nbns2).len() + lit_comma().len() + spec_enc_opt_str(im.nbns3).len() + lit_key_domain().len() + spec_enc_opt_str(im.domain).len() + lit_key_proxy_pac().len() + spec_enc_opt_str(im.proxy_pac).len() + lit_key_mtu().len() + dec_digits(im.mtu as nat).len() + lit_key_gateway().len() + spec_enc_opt_str(im.gateway_addr).len()) + lit_rbrace().len() as int) == lit_rbrace(),
        o0 + lit_info_open().len() + spec_enc_opt_str(im.addr).len() + lit_key_netmask().len() + spec_enc_opt_str(im.netmask).len() + lit_key_addr6().len() + spec_enc_opt_str(im.addr6).len() + lit_key_netmask6().len() + spec_enc_opt_str(im.netmask6).len() + lit_key_dns().len() + spec_enc_opt_str(im.dns1).len() + lit_comma().len() + spec_enc_opt_str(im.dns2).len() + lit_comma().len() + spec_enc_opt_str(im.dns3).len() + lit_key_nbns().len() + spec_enc_opt_str(im.nbns1).len() + lit_comma().len() + spec_enc_opt_str(im.nbns2).len() + lit_comma().len() + spec_enc_opt_str(im.nbns3).len() + lit_key_domain().len() + spec_enc_opt_str(im.domain).len() + lit_key_proxy_pac().len() + spec_enc_opt_str(im.proxy_pac).len() + lit_key_mtu().len() + dec_digits(im.mtu as nat).len() + lit_key_gateway().len() + spec_enc_opt_str(im.gateway_addr).len() + lit_rbrace().len() == o0 + spec_enc_info(im).len(),
{
    let e = spec_enc_info(im);
    let p1 = lit_info_open();
    let p2 = spec_enc_opt_str(im.addr);
    let p3 = lit_key_netmask();
    let p4 = spec_enc_opt_str(im.netmask);
    let p5 = lit_key_addr6();
    let p6 = spec_enc_opt_str(im.addr6);
    let p7 = lit_key_netmask6();
    let p8 = spec_enc_opt_str(im.netmask6);
    let p9 = lit_key_dns();
    let p10 = spec_enc_opt_str(im.dns1);
    let p11 = lit_comma();
    let p12 = spec_enc_opt_str(im.dns2);
    let p13 = lit_comma();
    let p14 = spec_enc_opt_str(im.dns3);
    let p15 = lit_key_nbns();
    let p16 = spec_enc_opt_str(im.nbns1);
    let p17 = lit_comma();
    let p18 = spec_enc_opt_str(im.nbns2);
    let p19 = lit_comma();
    let p20 = spec_enc_opt_str(im.nbns3);
    let p21 = lit_key_domain();
    let p22 = spec_enc_opt_str(im.domain);
    let p23 = lit_key_proxy_pac();
    let p24 = spec_enc_opt_str(im.proxy_pac);
    let p25 = lit_key_mtu();
    let p26 = dec_digits(im.mtu as nat);
    let p27 = lit_key_gateway();
    let p28 = spec_enc_opt_str(im.gateway_addr);
    let p29 = lit_rbrace();
    let t29 = p29;
    let t28 = p28 + t29;
    let t27 = p27 + t28;
    let t26 = p26 + t27;
    let t25 = p25 + t26;
    let t24 = p24 + t25;
    let t23 = p23 + t24;
    let t22 = p22 + t23;
    let t21 = p21 + t22;
    let t20 = p20 + t21;
    let t19 = p19 + t20;
    let t18 = p18 + t19;
    let t17 = p17 + t18;
    let t16 = p16 + t17;
    let t15 = p15 + t16;
    let t14 = p14 + t15;
    let t13 = p13 + t14;
    let t12 = p12 + t13;
    let t11 = p11 + t12;
    let t10 = p10 + t11;
    let t9 = p9 + t10;
    let t8 = p8 + t9;
    let t7 = p7 + t8;
    let t6 = p6 + t7;
    let t5 = p5 + t6;
    let t4 = p4 + t5;
    let t3 = p3 + t4;
    let t2 = p2 + t3;
    let t1 = p1 + t2;
    let rest = b.skip(o0 + e.len());
    lemma_at_to_skip(b, o0, e);
    assert(e == t1);
    assert(b.skip(o0) == t1 + rest);
    lemma_add_assoc(p1, t2, rest);
    assert(t1 + rest == p1 + (t2 + rest));
    lemma_strip(b, o0, p1, t2 + rest);
    let o1 = o0 + p1.len();
    lemma_add_assoc(p2, t3, rest);
    assert(t2 + rest == p2 + (t3 + rest));
    lemma_strip(b, o1, p2, t3 + rest);
    assert(spec_opt_str_at(b, o1, im.addr));
    let o2 = o1 + p2.len();
    lemma_add_assoc(p3, t4, rest);
    assert(t3 + rest == p3 + (t4 + rest));
    lemma_strip(b, o2, p3, t4 + rest);
    let o3 = o2 + p3.len();
    lemma_add_assoc(p4, t5, rest);
    assert(t4 + rest == p4 + (t5 + rest));
    lemma_strip(b, o3, p4, t5 + rest);
    assert(spec_opt_str_at(b, o3, im.netmask));
    let o4 = o3 + p4.len();
    lemma_add_assoc(p5, t6, rest);
    assert(t5 + rest == p5 + (t6 + rest));
    lemma_strip(b, o4, p5, t6 + rest);
    let o5 = o4 + p5.len();
    lemma_add_assoc(p6, t7, rest);
    assert(t6 + rest == p6 + (t7 + rest));
    lemma_strip(b, o5, p6, t7 + rest);
    assert(spec_opt_str_at(b, o5, im.addr6));
    let o6 = o5 + p6.len();
    lemma_add_assoc(p7, t8, rest);
    assert(t7 + rest == p7 + (t8 + rest));
    lemma_strip(b, o6, p7, t8 + rest);
    let o7 = o6 + p7.len();
    lemma_add_assoc(p8, t9, rest);
    assert(t8 + rest == p8 + (t9 + rest));
    lemma_strip(b, o7, p8, t9 + rest);
    assert(spec_opt_str_at(b, o7, im.netmask6));
    let o8 = o7 + p8.len();
    lemma_add_assoc(p9, t10, rest);
    assert(t9 + rest == p9 + (t10 + rest));
    lemma_strip(b, o8, p9, t10 + rest);
    let o9 = o8 + p9.len();
    lemma_add_assoc(p10, t11, rest);
    assert(t10 + rest == p10 + (t11 + rest));
    lemma_strip(b, o9, p10, t11 + rest);
    assert(spec_opt_str_at(b, o9, im.dns1));
    let o10 = o9 + p10.len();
    lemma_add_assoc(p11, t12, rest);
    assert(t11 + rest == p11 + (t12 + rest));
    lemma_strip(b, o10, p11, t12 + rest);
    let o11 = o10 + p11.len();
    lemma_add_assoc(p12, t13, rest);
    assert(t12 + rest == p12 + (t13 + rest));
    lemma_strip(b, o11, p12, t13 + rest);
    assert(spec_opt_str_at(b, o11, im.dns2));
    let o12 = o11 + p12.len();
    lemma_add_assoc(p13, t14, rest);
    assert(t13 + rest == p13 + (t14 + rest));
    lemma_strip(b, o12, p13, t14 + rest);
    let o13 = o12 + p13.len();
    lemma_add_assoc(p14, t15, rest);
    assert(t14 + rest == p14 + (t15 + rest));
    lemma_strip(b, o13, p14, t15 + rest);
    assert(spec_opt_str_at(b, o13, im.dns3));
    let o14 = o13 + p14.len();
    lemma_add_assoc(p15, t16, rest);
    assert(t15 + rest == p15 + (t16 + rest));
    lemma_strip(b, o14, p15, t16 + rest);
    let o15 = o14 + p15.len();
    lemma_add_assoc(p16, t17, rest);
    assert(t16 + rest == p16 + (t17 + rest));
    lemma_strip(b, o15, p16, t17 + rest);
    assert(spec_opt_str_at(b, o15, im.nbns1));
    let o16 = o15 + p16.len();
    lemma_add_assoc(p17, t18, rest);
    assert(t17 + rest == p17 + (t18 + rest));
    lemma_strip(b, o16, p17, t18 + rest);
    let o17 = o16 + p17.len();
    lemma_add_assoc(p18, t19, rest);
    assert(t18 + rest == p18 + (t19 + rest));
    lemma_strip(b, o17, p18, t19 + rest);
    assert(spec_opt_str_at(b, o17, im.nbns2));
    let o18 = o17 + p18.len();
    lemma_add_assoc(p19, t20, rest);
    assert(t19 + rest == p19 + (t20 + rest));
    lemma_strip(b, o18, p19, t20 + rest);
    let o19 = o18 + p19.len();
    lemma_add_assoc(p20, t21, rest);
    assert(t20 + rest == p20 + (t21 + rest));
    lemma_strip(b, o19, p20, t21 + rest);
    assert(spec_opt_str_at(b, o19, im.nbns3));
    let o20 = o19 + p20.len();
    lemma_add_assoc(p21, t22, rest);
    assert(t21 + rest == p21 + (t22 + rest));
    lemma_strip(b, o20, p21, t22 + rest);
    let o21 = o20 + p21.len();
    lemma_add_assoc(p22, t23, rest);
    assert(t22 + rest == p22 + (t23 + rest));
    lemma_strip(b, o21, p22, t23 + rest);
    assert(spec_opt_str_at(b, o21, im.domain));
    let o22 = o21 + p22.len();
    lemma_add_assoc(p23, t24, rest);
    assert(t23 + rest == p23 + (t24 + rest));
    lemma_strip(b, o22, p23, t24 + rest);
    let o23 = o22 + p23.len();
    lemma_add_assoc(p24, t25, rest);
    assert(t24 + rest == p24 + (t25 + rest));
    lemma_strip(b, o23, p24, t25 + rest);
    assert(spec_opt_str_at(b, o23, im.proxy_pac));
    let o24 = o23 + p24.len();
    lemma_add_assoc(p25, t26, rest);
    assert(t25 + rest == p25 + (t26 + rest));
    lemma_strip(b, o24, p25, t26 + rest);
    let o25 = o24 + p25.len();
    lemma_add_assoc(p26, t27, rest);
    assert(t26 + rest == p26 + (t27 + rest));
    lemma_strip(b, o25, p26, t27 + rest);
    let onum = o25 + p26.len();
    assert(b.skip(onum) == t27 + rest);
    assert((t27 + rest).len() >= p27.len());
    assert(onum < b.len());
    assert(b.skip(onum)[0] == b[onum]);
    assert((t27 + rest)[0] == t27[0]);
    assert(t27[0] == p27[0]);
    assert(p27[0] == 0x2c);
    assert(!crate::json::is_digit(b[onum]));
    assert(spec_u32_at(b, o25, im.mtu));
    let o26 = o25 + p26.len();
    lemma_add_assoc(p27, t28, rest);
    assert(t27 + rest == p27 + (t28 + rest));
    lemma_strip(b, o26, p27, t28 + rest);
    let o27 = o26 + p27.len();
    lemma_add_assoc(p28, t29, rest);
    assert(t28 + rest == p28 + (t29 + rest));
    lemma_strip(b, o27, p28, t29 + rest);
    assert(spec_opt_str_at(b, o27, im.gateway_addr));
    let o28 = o27 + p28.len();
    lemma_strip(b, o28, p29, rest);
    let o29 = o28 + p29.len();
    assert(b.skip(o29).len() == b.len() - o29);
    assert(rest.len() == b.len() - (o0 + e.len()));
    assert(o29 == o0 + e.len());
}

/// Consumes an optional snapshot at the cursor: `null` or an object.
fn step_opt_info(buf: &Vec<u8>, ok: bool, off: usize) -> (r: (bool, usize, Option<IpInfo>))
    requires
        off <= buf@.len(),
    ensures
        off <= r.1 <= buf@.len(),
        !ok ==> !r.0,
        !r.0 ==> r.1 == off,
        forall|oi: Option<IpInfoModel>|
            ok && spec_opt_info_at(buf@, off as int, oi) ==> ({
                &&& r.0
                &&& opt_info_model(r.2) == oi
                &&& r.1 == off + spec_enc_opt_info(oi).len()
            }),
{
    if !ok {
        return (false, off, Option::None);
    }
    let m: usize = buf.len();
    if match_at(buf, off, &b_null()) {
        proof {
            assert(lit_null().len() == 4);
            assert(off + 4 <= m);
            assert forall|oi: Option<IpInfoModel>|
                spec_opt_info_at(buf@, off as int, oi) implies oi is None by {
                if let Option::Some(im) = oi {
                    assert(spec_enc_info(im)[0] == lit_info_open()[0]);
                    assert(lit_info_open()[0] == 0x7b);
                    assert(buf@[off as int] == spec_enc_info(im)[0]);
                    assert(buf@[off as int] == lit_null()[0]);
                    assert(lit_null()[0] == 0x6e);
                }
            }
        }
        return (true, off + 4, Option::None);
    }
    match parse_info_at(buf, off) {
        Option::Some((info, end)) => {
            proof {
                assert forall|oi: Option<IpInfoModel>|
                    spec_opt_info_at(buf@, off as int, oi) implies ({
                        &&& opt_info_model(Option::Some(info)) == oi
                        &&& end == off + spec_enc_opt_info(oi).len()
                    }) by {
                    match oi {
                        Option::None => {
                            assert(buf@.subrange(off as int, off + lit_null().len() as int)
                                == lit_null());
                        },
                        Option::Some(im) => {
                            assert(spec_enc_opt_info(Option::Some(im)) == spec_enc_info(im));
                            assert(spec_info_at(buf@, off as int, im));
                        },
                    }
                }
            }
            (true, end, Option::Some(info))
        },
        Option::None => {
            proof {
                assert forall|oi: Option<IpInfoModel>| !spec_opt_info_at(
                    buf@,
                    off as int,
                    oi,
                ) by {
                    if spec_opt_info_at(buf@, off as int, oi) {
                        match oi {
                            Option::None => {
                                assert(buf@.subrange(off as int, off + lit_null().len() as int)
                                    == lit_null());
                            },
                            Option::Some(im) => {
                                assert(spec_info_at(buf@, off as int, im));
                            },
                        }
                    }
                }
            }
            (false, off, Option::None)
        },
    }
}

/// Where a stop response stands encoded, its pieces stand in turn.
proof fn lemma_resp_stop_pieces(b: Seq<u8>, m: ResponseModel)
    requires
        m is Stop,
        b == spec_enc_response(m),
    ensures
        lit_stop_prefix().len() <= b.len(),
        b.subrange(0, lit_stop_prefix().len() as int) == lit_stop_prefix(),
        spec_str_at(b, lit_stop_prefix().len() as int, m->Stop_server_name),
        lit_stop_prefix().len() + spec_enc_str(m->Stop_server_name).len() + lit_obj_end().len()
            == b.len(),
        b.subrange(
            lit_stop_prefix().len() + spec_enc_str(m->Stop_server_name).len() as int,
            b.len() as int,
        ) == lit_obj_end(),
{
    let p1 = lit_stop_prefix();
    let p2 = spec_enc_str(m->Stop_server_name);
    let p3 = lit_obj_end();
    assert(b == (p1 + p2) + p3);
    assert(b.skip(0) =~= b);
    lemma_add_assoc(p1, p2, p3);
    assert(b.skip(0) == p1 + (p2 + p3));
    lemma_strip(b, 0, p1, p2 + p3);
    lemma_strip(b, p1.len() as int, p2, p3);
    assert(spec_str_at(b, p1.len() as int, m->Stop_server_name));
    let o2 = p1.len() + p2.len();
    assert(b.skip(o2 as int) == p3);
    assert(b.skip(o2 as int).len() == b.len() - o2);
    assert(p3 + Seq::<u8>::empty() =~= p3);
    lemma_strip(b, o2 as int, p3, Seq::empty());
    assert(b.subrange(o2 as int, o2 + p3.len() as int) == p3);
}

/// Parses the snapshot object standing at `off`, if one does: the snapshot
/// and the index just past its closing brace.
#[verifier::rlimit(100)]
fn parse_info_at(buf: &Vec<u8>, off: usize) -> (r: Option<(IpInfo, usize)>)
    requires
        off <= buf@.len(),
    ensures
        r matches Some(ie) ==> off <= ie.1 <= buf@.len(),
        forall|im: IpInfoModel|
            spec_info_at(buf@, off as int, im) ==> ({
                &&& r matches Some(ie)
                &&& ie.0.model() == im
                &&& ie.1 == off + spec_enc_info(im).len()
            }),
{
    let pat_comma = b_comma();
    let pat_info_open = b_info_open();
    let pat_key_addr6 = b_key_addr6();
    let pat_key_dns = b_key_dns();
    let pat_key_domain = b_key_domain();
    let pat_key_gateway = b_key_gateway();
    let pat_key_mtu = b_key_mtu();
    let pat_key_nbns = b_key_nbns();
    let pat_key_netmask = b_key_netmask();
    let pat_key_netmask6 = b_key_netmask6();
    let pat_key_proxy_pac = b_key_proxy_pac();
    let pat_rbrace = b_rbrace();
    let c1 = step_lit(buf, true, off, &pat_info_open);
    let c2 = step_opt_str(buf, c1.0, c1.1);
    let c3 = step_lit(buf, c2.0, c2.1, &pat_key_netmask);
    let c4 = step_opt_str(buf, c3.0, c3.1);
    let c5 = step_lit(buf, c4.0, c4.1, &pat_key_addr6);
    let c6 = step_opt_str(buf, c5.0, c5.1);
    let c7 = step_lit(buf, c6.0, c6.1, &pat_key_netmask6);
    let c8 = step_opt_str(buf, c7.0, c7.1);
    let c9 = step_lit(buf, c8.0, c8.1, &pat_key_dns);
    let c10 = step_opt_str(buf, c9.0, c9.1);
    let c11 = step_lit(buf, c10.0, c10.1, &pat_comma);
    let c12 = step_opt_str(buf, c11.0, c11.1);
    let c13 = step_lit(buf, c12.0, c12.1, &pat_comma);
    let c14 = step_opt_str(buf, c13.0, c13.1);
    let c15 = step_lit(buf, c14.0, c14.1, &pat_key_nbns);
    let c16 = step_opt_str(buf, c15.0, c15.1);
    let c17 = step_lit(buf, c16.0, c16.1, &pat_comma);
    let c18 = step_opt_str(buf, c17.0, c17.1);
    let c19 = step_lit(buf, c18.0, c18.1, &pat_comma);
    let c20 = step_opt_str(buf, c19.0, c19.1);
    let c21 = step_lit(buf, c20.0, c20.1, &pat_key_domain);
    let c22 = step_opt_str(buf, c21.0, c21.1);
    let c23 = step_lit(buf, c22.0, c22.1, &pat_key_proxy_pac);
    let c24 = step_opt_str(buf, c23.0, c23.1);
    let c25 = step_lit(buf, c24.0, c24.1, &pat_key_mtu);
    let c26 = step_u32(buf, c25.0, c25.1);
    let c27 = step_lit(buf, c26.0, c26.1, &pat_key_gateway);
    let c28 = step_opt_str(buf, c27.0, c27.1);
    let c29 = step_lit(buf, c28.0, c28.1, &pat_rbrace);
    proof {
        assert forall|im: IpInfoModel| spec_info_at(buf@, off as int, im) implies ({
            &&& c29.0
            &&& c29.1 == off + spec_enc_info(im).len()
            &&& opt_str_model(c2.2) == im.addr
            &&& opt_str_model(c4.2) == im.netmask
            &&& opt_str_model(c6.2) == im.addr6
            &&& opt_str_model(c8.2) == im.netmask6
            &&& opt_str_model(c10.2) == im.dns1
            &&& opt_str_model(c12.2) == im.dns2
            &&& opt_str_model(c14.2) == im.dns3
            &&& opt_str_model(c16.2) == im.nbns1
            &&& opt_str_model(c18.2) == im.nbns2
            &&& opt_str_model(c20.2) == im.nbns3
            &&& opt_str_model(c22.2) == im.domain
            &&& opt_str_model(c24.2) == im.proxy_pac
            &&& c26.2 == im.mtu
            &&& opt_str_model(c28.2) == im.gateway_addr
        }) by {
            let b = buf@;
            let o0 = off as int;
            lemma_info_pieces(b, o0, im);
            assert(c1.0);
            let o1 = o0 + lit_info_open().len();
            assert(c1.1 == o1);
            assert(c2.0);
            let o2 = o1 + spec_enc_opt_str(im.addr).len();
            assert(c2.1 == o2);
            assert(c3.0);
            let o3 = o2 + lit_key_netmask().len();
            assert(c3.1 == o3);
            assert(c4.0);
            let o4 = o3 + spec_enc_opt_str(im.netmask).len();
            assert(c4.1 == o4);
            assert(c5.0);
            let o5 = o4 + lit_key_addr6().len();
            assert(c5.1 == o5);
            assert(c6.0);
            let o6 = o5 + spec_enc_opt_str(im.addr6).len();
            assert(c6.1 == o6);
            assert(c7.0);
            let o7 = o6 + lit_key_netmask6().len();
            assert(c7.1 == o7);
            assert(c8.0);
            let o8 = o7 + spec_enc_opt_str(im.netmask6).len();
            assert(c8.1 == o8);
            assert(c9.0);
            let o9 = o8 + lit_key_dns().len();
            assert(c9.1 == o9);
            assert(c10.0);
            let o10 = o9 + spec_enc_opt_str(im.dns1).len();
            assert(c10.1 == o10);
            assert(c11.0);
            let o11 = o10 + lit_comma().len();
            assert(c11.1 == o11);
            assert(c12.0);
            let o12 = o11 + spec_enc_opt_str(im.dns2).len();
            assert(c12.1 == o12);
            assert(c13.0);
            let o13 = o12 + lit_comma().len();
            assert(c13.1 == o13);
            assert(c14.0);
            let o14 = o13 + spec_enc_opt_str(im.dns3).len();
            assert(c14.1 == o14);
            assert(c15.0);
            let o15 = o14 + lit_key_nbns().len();
            assert(c15.1 == o15);
            assert(c16.0);
            let o16 = o15 + spec_enc_opt_str(im.nbns1).len();
            assert(c16.1 == o16);
            assert(c17.0);
            let o17 = o16 + lit_comma().len();
            assert(c17.1 == o17);
            assert(c18.0);
            let o18 = o17 + spec_enc_opt_str(im.nbns2).len();
            assert(c18.1 == o18);
            assert(c19.0);
            let o19 = o18 + lit_comma().len();
            assert(c19.1 == o19);
            assert(c20.0);
            let o20 = o19 + spec_enc_opt_str(im.nbns3).len();
            assert(c20.1 == o20);
            assert(c21.0);
            let o21 = o20 + lit_key_domain().len();
            assert(c21.1 == o21);
            assert(c22.0);
            let o22 = o21 + spec_enc_opt_str(im.domain).len();
            assert(c22.1 == o22);
            assert(c23.0);
            let o23 = o22 + lit_key_proxy_pac().len();
            assert(c23.1 == o23);
            assert(c24.0);
            let o24 = o23 + spec_enc_opt_str(im.proxy_pac).len();
            assert(c24.1 == o24);
            assert(c25.0);
            let o25 = o24 + lit_key_mtu().len();
            assert(c25.1 == o25);
            assert(c26.0);
            let o26 = o25 + dec_digits(im.mtu as nat).len();
            assert(c26.1 == o26);
            assert(c27.0);
            let o27 = o26 + lit_key_gateway().len();
            assert(c27.1 == o27);
            assert(c28.0);
            let o28 = o27 + spec_enc_opt_str(im.gateway_addr).len();
            assert(c28.1 == o28);
            assert(c29.0);
            let o29 = o28 + lit_rbrace().len();
            assert(c29.1 == o29);
        }
    }
    if c29.0 {
        let info = IpInfo {
            addr: c2.2,
            netmask: c4.2,
            addr6: c6.2,
            netmask6: c8.2,
            dns1: c10.2,
            dns2: c12.2,
            dns3: c14.2,
            nbns1: c16.2,
            nbns2: c18.2,
            nbns3: c20.2,
            domain: c22.2,
            proxy_pac: c24.2,
            mtu: c26.2,
            gateway_addr: c28.2,
        };
        Some((info, c29.1))
    } else {
        None
    }
}

/// Where an info response stands encoded, its pieces stand in turn.
#[verifier::rlimit(100)]
proof fn lemma_resp_info_pieces(b: Seq<u8>, m: ResponseModel)
    requires
        m is Info,
        b == spec_enc_response(m),
    ensures
        0 + lit_info_prefix().len() <= b.len() && b.subrange(0, 0 + lit_info_prefix().len() as int) == lit_info_prefix(),
        spec_str_at(b, ((lit_info_prefix().len()) as int), m->Info_server_name),
        ((lit_info_prefix().len() + spec_enc_str(m->Info_server_name).len()) as int) + lit_key_server_url().len() <= b.len() && b.subrange(((lit_info_prefix().len() + spec_enc_str(m->Info_server_name).len()) as int), ((lit_info_prefix().len() + spec_enc_str(m->Info_server_name).len()) as int) + lit_key_server_url().len() as int) == lit_key_server_url(),
        spec_str_at(b, ((lit_info_prefix().len() + spec_enc_str(m->Info_server_name).len() + lit_key_server_url().len()) as int), m->Info_server_url),
        ((lit_info_prefix().len() + spec_enc_str(m->Info_server_name).len() + lit_key_server_url().len() + spec_enc_str(m->Info_server_url).len()) as int) + lit_key_hostname().len() <= b.len() && b.subrange(((lit_info_prefix().len() + spec_enc_str(m->Info_server_name).len() + lit_key_server_url().len() + spec_enc_str(m->Info_server_url).len()) as int), ((lit_info_prefix().len() + spec_enc_str(m->Info_server_name).len() + lit_key_server_url().len() + spec_enc_str(m->Info_server_url).len()) as int) + lit_key_hostname().len() as int) == lit_key_hostname(),
        spec_str_at(b, ((lit_info_prefix().len() + spec_enc_str(m->Info_server_name).len() + lit_key_server_url().len() + spec_enc_str(m->Info_server_url).len() + lit_key_hostname().len()) as int), m->Info_hostname),
        ((lit_info_prefix().len() + spec_enc_str(m->Info_server_name).len() + lit_key_server_url().len() + spec_enc_str(m->Info_server_url).len() + lit_key_hostname().len() + spec_enc_str(m->Info_hostname).len()) as int) + lit_key_status().len() <= b.len() && b.subrange(((lit_info_prefix().len() + spec_enc_str(m->Info_server_name).len() + lit_key_server_url().len() + spec_enc_str(m->Info_server_url).len() + lit_key_hostname().len() + spec_enc_str(m->Info_hostname).len()) as int), ((lit_info_prefix().len() + spec_enc_str(m->Info_server_name).len() + lit_key_server_url().len() + spec_enc_str(m->Info_server_url).len() + lit_key_hostname().len() + spec_enc_str(m->Info_hostname).len()) as int) + lit_key_status().len() as int) == lit_key_status(),
        spec_str_at(b, ((lit_info_prefix().len() + spec_enc_str(m->Info_server_name).len() + lit_key_server_url().len() + spec_enc_str(m->Info_server_url).len() + lit_key_hostname().len() + spec_enc_str(m->Info_hostname).len() + lit_key_status().len()) as int), m->Info_status),
        ((lit_info_prefix().len() + spec_enc_str(m->Info_server_name).len() + lit_key_server_url().len() + spec_enc_str(m->Info_server_url).len() + lit_key_hostname().len() + spec_enc_str(m->Info_hostname).len() + lit_key_status().len() + spec_enc_str(m->Info_status).len()) as int) + lit_key_info().len() <= b.len() && b.subrange(((lit_info_prefix().len() + spec_enc_str(m->Info_server_name).len() + lit_key_server_url().len() + spec_enc_str(m->Info_server_url).len() + lit_key_hostname().len() + spec_enc_str(m->Info_hostname).len() + lit_key_status().len() + spec_enc_str(m->Info_status).len()) as int), ((lit_info_prefix().len() + spec_enc_str(m->Info_server_name).len() + lit_key_server_url().len() + spec_enc_str(m->Info_server_url).len() + lit_key_hostname().len() + spec_enc_str(m->Info_hostname).len() + lit_key_status().len() + spec_enc_str(m->Info_status).len()) as int) + lit_key_info().len() as int) == lit_key_info(),
        spec_opt_info_at(b, ((lit_info_prefix().len() + spec_enc_str(m->Info_server_name).len() + lit_key_server_url().len() + spec_enc_str(m->Info_server_url).len() + lit_key_hostname().len() + spec_enc_str(m->Info_hostname).len() + lit_key_status().len() + spec_enc_str(m->Info_status).len() + lit_key_info().len()) as int), m->Info_info),
        ((lit_info_prefix().len() + spec_enc_str(m->Info_server_name).len() + lit_key_server_url().len() + spec_enc_str(m->Info_server_url).len() + lit_key_hostname().len() + spec_enc_str(m->Info_hostname).len() + lit_key_status().len() + spec_enc_str(m->Info_status).len() + lit_key_info().len() + spec_enc_opt_info(m->Info_info).len()) as int) + lit_obj_end().len() <= b.len() && b.subrange(((lit_info_prefix().len() + spec_enc_str(m->Info_server_name).len() + lit_key_server_url().len() + spec_enc_str(m->Info_server_url).len() + lit_key_hostname().len() + spec_enc_str(m->Info_hostname).len() + lit_key_status().len() + spec_enc_str(m->Info_status).len() + lit_key_info().len() + spec_enc_opt_info(m->Info_info).len()) as int), ((lit_info_prefix().len() + spec_enc_str(m->Info_server_name).len() + lit_key_server_url().len() + spec_enc_str(m->Info_server_url).len() + lit_key_hostname().len() + spec_enc_str(m->Info_hostname).len() + lit_key_status().len() + spec_enc_str(m->Info_status).len() + lit_key_info().len() + spec_enc_opt_info(m->Info_info).len()) as int) + lit_obj_end().len() as int) == lit_obj_end(),
        ((lit_info_prefix().len() + spec_enc_str(m->Info_server_name).len() + lit_key_server_url().len() + spec_enc_str(m->Info_server_url).len() + lit_key_hostname().len() + spec_enc_str(m->Info_hostname).len() + lit_key_status().len() + spec_enc_str(m->Info_status).len() + lit_key_info().len() + spec_enc_opt_info(m->Info_info).len() + lit_obj_end().len()) as int) == b.len(),
{
    let p1 = lit_info_prefix();
    let p2 = spec_enc_str(m->Info_server_name);
    let p3 = lit_key_server_url();
    let p4 = spec_enc_str(m->Info_server_url);
    let p5 = lit_key_hostname();
    let p6 = spec_enc_str(m->Info_hostname);
    let p7 = lit_key_status();
    let p8 = spec_enc_str(m->Info_status);
    let p9 = lit_key_info();
    let p10 = spec_enc_opt_info(m->Info_info);
    let p11 = lit_obj_end();
    let t11 = p11;
    let t10 = p10 + t11;
    let t9 = p9 + t10;
    let t8 = p8 + t9;
    let t7 = p7 + t8;
    let t6 = p6 + t7;
    let t5 = p5 + t6;
    let t4 = p4 + t5;
    let t3 = p3 + t4;
    let t2 = p2 + t3;
    let t1 = p1 + t2;
    assert(b == t1);
    assert(b.skip(0) =~= b);
    let rest = Seq::<u8>::empty();
    assert(t1 + rest =~= t1);
    assert(b.skip(0) == t1 + rest);
    lemma_add_assoc(p1, t2, rest);
    assert(t1 + rest == p1 + (t2 + rest));
    lemma_strip(b, 0, p1, t2 + rest);
    let o1: int = 0 + p1.len() as int;
    lemma_add_assoc(p2, t3, rest);
    assert(t2 + rest == p2 + (t3 + rest));
    lemma_strip(b, o1, p2, t3 + rest);
    assert(spec_str_at(b, o1, m->Info_server_name));
    let o2: int = o1 + p2.len();
    lemma_add_assoc(p3, t4, rest);
    assert(t3 + rest == p3 + (t4 + rest));
    lemma_strip(b, o2, p3, t4 + rest);
    let o3: int = o2 + p3.len();
    lemma_add_assoc(p4, t5, rest);
    assert(t4 + rest == p4 + (t5 + rest));
    lemma_strip(b, o3, p4, t5 + rest);
    assert(spec_str_at(b, o3, m->Info_server_url));
    let o4: int = o3 + p4.len();
    lemma_add_assoc(p5, t6, rest);
    assert(t5 + rest == p5 + (t6 + rest));
    lemma_strip(b, o4, p5, t6 + rest);
    let o5: int = o4 + p5.len();
    lemma_add_assoc(p6, t7, rest);
    assert(t6 + rest == p6 + (t7 + rest));
    lemma_strip(b, o5, p6, t7 + rest);
    assert(spec_str_at(b, o5, m->Info_hostname));
    let o6: int = o5 + p6.len();
    lemma_add_assoc(p7, t8, rest);
    assert(t7 + rest == p7 + (t8 + rest));
    lemma_strip(b, o6, p7, t8 + rest);
    let o7: int = o6 + p7.len();
    lemma_add_assoc(p8, t9, rest);
    assert(t8 + rest == p8 + (t9 + rest));
    lemma_strip(b, o7, p8, t9 + rest);
    assert(spec_str_at(b, o7, m->Info_status));
    let o8: int = o7 + p8.len();
    lemma_add_assoc(p9, t10, rest);
    assert(t9 + rest == p9 + (t10 + rest));
    lemma_strip(b, o8, p9, t10 + rest);
    let o9: int = o8 + p9.len();
    lemma_add_assoc(p10, t11, rest);
    assert(t10 + rest == p10 + (t11 + rest));
    lemma_strip(b, o9, p10, t11 + rest);
    assert(spec_opt_info_at(b, o9, m->Info_info));
    let o10: int = o9 + p10.len();
    assert(t11 + rest =~= p11 + rest);
    lemma_strip(b, o10, p11, rest);
    let o11: int = o10 + p11.len();
    assert(b.skip(o11).len() == b.len() - o11);
    assert(o11 == b.len());
}

/// Parses one whole frame payload as a response.  Exactly the canonical
/// response encodings are accepted, each to the response it encodes; any
/// accepted payload re-encodes to itself.
#[verifier::rlimit(100)]
pub fn parse_response(buf: &Vec<u8>) -> (r: Option<JsonResponse>)
    ensures
        r matches Some(resp) ==> buf@ == spec_enc_response(resp.model()),
        forall|m: ResponseModel|
            buf@ == spec_enc_response(m) ==> ({
                &&& r matches Some(resp)
                &&& resp.model() == m
            }),
{
    let pat_stop = b_stop_prefix();
    let pat_info = b_info_prefix();
    if match_at(buf, 0, &pat_stop) {
        let c1 = step_str(buf, true, 29);
        let c2 = step_lit(buf, c1.0, c1.1, &b_obj_end());
        let done = c2.0 && c2.1 == buf.len();
        proof {
            assert(lit_stop_prefix().len() == 29);
            assert forall|m: ResponseModel|
                buf@ == spec_enc_response(m) implies ({
                    &&& m is Stop
                    &&& done
                    &&& c1.2@ == m->Stop_server_name
                }) by {
                match m {
                    ResponseModel::Stop { server_name } => {
                        lemma_resp_stop_pieces(buf@, m);
                        assert(spec_str_at(buf@, 29, server_name));
                        assert(c1.0);
                        assert(c1.1 == 29 + spec_enc_str(server_name).len());
                        assert(c2.0);
                        assert(c2.1 == buf@.len());
                    },
                    ResponseModel::Info { .. } => {
                        lemma_resp_info_pieces(buf@, m);
                        assert(buf@[2] == lit_info_prefix()[2]);
                        assert(buf@[2] == lit_stop_prefix()[2]);
                        assert(lit_info_prefix()[2] == 0x49);
                        assert(lit_stop_prefix()[2] == 0x53);
                    },
                }
            }
        }
        if done {
            let resp = JsonResponse::StopResult { server_name: c1.2 };
            let enc = encode_response(&resp);
            if vec_eq(&enc, buf) {
                Some(resp)
            } else {
                proof {
                    assert forall|m: ResponseModel| buf@ != spec_enc_response(m) by {
                        if buf@ == spec_enc_response(m) {
                            assert(resp.model() == m);
                        }
                    }
                }
                None
            }
        } else {
            None
        }
    } else if match_at(buf, 0, &pat_info) {
        let c1 = step_str(buf, true, 29);
        let c2 = step_lit(buf, c1.0, c1.1, &b_key_server_url());
        let c3 = step_str(buf, c2.0, c2.1);
        let c4 = step_lit(buf, c3.0, c3.1, &b_key_hostname());
        let c5 = step_str(buf, c4.0, c4.1);
        let c6 = step_lit(buf, c5.0, c5.1, &b_key_status());
        let c7 = step_str(buf, c6.0, c6.1);
        let c8 = step_lit(buf, c7.0, c7.1, &b_key_info());
        let c9 = step_opt_info(buf, c8.0, c8.1);
        let c10 = step_lit(buf, c9.0, c9.1, &b_obj_end());
        let done = c10.0 && c10.1 == buf.len();
        proof {
            assert(lit_info_prefix().len() == 29);
            assert forall|m: ResponseModel|
                buf@ == spec_enc_response(m) implies ({
                    &&& m is Info
                    &&& done
                    &&& c1.2@ == m->Info_server_name
                    &&& c3.2@ == m->Info_server_url
                    &&& c5.2@ == m->Info_hostname
                    &&& c7.2@ == m->Info_status
                    &&& opt_info_model(c9.2) == m->Info_info
                }) by {
                match m {
                    ResponseModel::Stop { .. } => {
                        lemma_resp_stop_pieces(buf@, m);
                        assert(buf@[2] == lit_stop_prefix()[2]);
                        assert(buf@[2] == lit_info_prefix()[2]);
                        assert(lit_info_prefix()[2] == 0x49);
                        assert(lit_stop_prefix()[2] == 0x53);
                    },
                    ResponseModel::Info { server_name, server_url, hostname, status, info } => {
                        lemma_resp_info_pieces(buf@, m);
                        assert(c1.0);
                        let o1 = 29 + spec_enc_str(server_name).len();
                        assert(c1.1 == o1);
                        assert(c2.0);
                        let o2 = o1 + lit_key_server_url().len();
                        assert(c2.1 == o2);
                        assert(c3.0);
                        let o3 = o2 + spec_enc_str(server_url).len();
                        assert(c3.1 == o3);
                        assert(c4.0);
                        let o4 = o3 + lit_key_hostname().len();
                        assert(c4.1 == o4);
                        assert(c5.0);
                        let o5 = o4 + spec_enc_str(hostname).len();
                        assert(c5.1 == o5);
                        assert(c6.0);
                        let o6 = o5 + lit_key_status().len();
                        assert(c6.1 == o6);
                        assert(c7.0);
                        let o7 = o6 + spec_enc_str(status).len();
                        assert(c7.1 == o7);
                        assert(c8.0);
                        let o8 = o7 + lit_key_info().len();
                        assert(c8.1 == o8);
                        assert(c9.0);
                        let o9 = o8 + spec_enc_opt_info(info).len();
                        assert(c9.1 == o9);
                        assert(c10.0);
                        let o10 = o9 + lit_obj_end().len();
                        assert(c10.1 == o10);
                        assert(o10 == buf@.len());
                    },
                }
            }
        }
        if done {
            let resp = JsonResponse::InfoResult {
                server_name: c1.2,
                server_url: c3.2,
                hostname: c5.2,
                status: c7.2,
                info: c9.2,
            };
            let enc = encode_response(&resp);
            if vec_eq(&enc, buf) {
                Some(resp)
            } else {
                proof {
                    assert forall|m: ResponseModel| buf@ != spec_enc_response(m) by {
                        if buf@ == spec_enc_response(m) {
                            assert(resp.model() == m);
                        }
                    }
                }
                None
            }
        } else {
            None
        }
    } else {
        proof {
            assert forall|m: ResponseModel| buf@ != spec_enc_response(m) by {
                if buf@ == spec_enc_response(m) {
                    match m {
                        ResponseModel::Stop { .. } => {
                            lemma_resp_stop_pieces(buf@, m);
                        },
                        ResponseModel::Info { .. } => {
                            lemma_resp_info_pieces(buf@, m);
                        },
                    }
                }
            }
        }
        None
    }
}

} // verus!
