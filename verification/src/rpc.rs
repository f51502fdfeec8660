//! The wire protocol: JSON-RPC 2.0 envelopes for `eth_sendTx` and
//! `miner_createBlock`, built byte for byte, and the classification of
//! responses into per-transaction outcomes. The HTTP transport itself
//! lives outside the library; it hands response bodies in as strings.

use crate::numfmt::{
    append_u64_dec, append_u64_hex, spec_hex_digit, spec_u64_dec, spec_u64_hex,
};
use crate::results::TransactionOutcome;
use vstd::prelude::*;
use vstd::string::StringSliceAdditionalSpecFns;
use vstd::string::StringExecFns;

verus! {

/// Append all of `b` to `out`.
pub fn append_slice(out: &mut Vec<u8>, b: &[u8])
    ensures
        final(out)@ =~= old(out)@ + b@,
{
    let mut i: usize = 0;
    while i < b.len()
        invariant
            i <= b@.len(),
            out@ =~= old(out)@ + b@.subrange(0, i as int),
        decreases b@.len() - i,
    {
        out.push(b[i]);
        proof {
            assert(b@.subrange(0, i as int + 1) =~= b@.subrange(0, i as int).push(b@[i as int]));
        }
        i = i + 1;
    }
    proof {
        assert(b@.subrange(0, b@.len() as int) =~= b@);
    }
}

/// Append the UTF-8 bytes of `s` to `out`.
pub fn append_str(out: &mut Vec<u8>, s: &str)
    ensures
        final(out)@ =~= old(out)@ + s.spec_bytes(),
{
    append_slice(out, s.as_bytes());
}

/// How one byte of a string is written inside a JSON string literal:
/// quote and backslash get a backslash, control bytes become `\u00XX`,
/// everything else (including multi-byte UTF-8) passes through.
pub open spec fn spec_escaped_byte(b: u8) -> Seq<u8> {
    if b == 0x22 {
        seq![0x5cu8, 0x22u8]
    } else if b == 0x5c {
        seq![0x5cu8, 0x5cu8]
    } else if b < 0x20 {
        seq![0x5cu8, 0x75u8, 0x30u8, 0x30u8, spec_hex_digit(b / 16), spec_hex_digit(b % 16)]
    } else {
        seq![b]
    }
}

/// A whole string escaped for use inside a JSON string literal.
pub open spec fn spec_json_escaped(s: Seq<u8>) -> Seq<u8>
    decreases s.len(),
{
    if s.len() == 0 {
        Seq::empty()
    } else {
        spec_json_escaped(s.drop_last()) + spec_escaped_byte(s.last())
    }
}

/// A JSON string literal: quote, escaped contents, quote.
pub open spec fn spec_json_string(s: Seq<u8>) -> Seq<u8> {
    seq![0x22u8] + spec_json_escaped(s) + seq![0x22u8]
}

fn append_json_escaped(out: &mut Vec<u8>, b: &[u8])
    ensures
        final(out)@ =~= old(out)@ + spec_json_escaped(b@),
{
    let mut i: usize = 0;
    while i < b.len()
        invariant
            i <= b@.len(),
            out@ =~= old(out)@ + spec_json_escaped(b@.subrange(0, i as int)),
        decreases b@.len() - i,
    {
        proof {
            assert(b@.subrange(0, i as int + 1).drop_last() =~= b@.subrange(0, i as int));
            assert(b@.subrange(0, i as int + 1).last() == b@[i as int]);
        }
        let x = b[i];
        if x == 0x22 {
            out.push(0x5c);
            out.push(0x22);
        } else if x == 0x5c {
            out.push(0x5c);
            out.push(0x5c);
        } else if x < 0x20 {
            out.push(0x5c);
            out.push(0x75);
            out.push(0x30);
            out.push(0x30);
            out.push(crate::numfmt::hex_digit(x / 16));
            out.push(crate::numfmt::hex_digit(x % 16));
        } else {
            out.push(x);
        }
        i = i + 1;
    }
    proof {
        assert(b@.subrange(0, b@.len() as int) =~= b@);
    }
}

/// Append `s` as a JSON string literal, quotes and escapes included.
pub fn append_json_string(out: &mut Vec<u8>, s: &str)
    ensures
        final(out)@ =~= old(out)@ + spec_json_string(s.spec_bytes()),
{
    out.push(0x22);
    append_json_escaped(out, s.as_bytes());
    out.push(0x22);
}

/// The `eth_sendTx` JSON-RPC envelope: one transaction parameter object
/// holding sender, receiver, the nonce as a 0x-prefixed hexadecimal
/// string, a fixed zero value, the payload hash, and fixed empty data.
pub open spec fn spec_send_tx_body(
    from: Seq<u8>,
    to: Seq<u8>,
    nonce: u64,
    payload_hash: Seq<u8>,
) -> Seq<u8> {
    ("{\"jsonrpc\":\"2.0\",\"method\":\"eth_sendTx\",\"params\":[{\"from\":").spec_bytes()
        + spec_json_string(from) + (",\"to\":").spec_bytes() + spec_json_string(to) + (
    ",\"nonce\":\"0x").spec_bytes() + spec_u64_hex(nonce) + (
    "\",\"value\":\"0x0\",\"newHash\":").spec_bytes() + spec_json_string(payload_hash) + (
    ",\"data\":\"0x\"}],\"id\":1}").spec_bytes()
}

/// Build the `eth_sendTx` request body, byte for byte.
pub fn send_transaction_body(from: &str, to: &str, nonce: u64, payload_hash: &str) -> (r: Vec<u8>)
    ensures
        r@ =~= spec_send_tx_body(
            from.spec_bytes(),
            to.spec_bytes(),
            nonce,
            payload_hash.spec_bytes(),
        ),
{
    let mut out: Vec<u8> = Vec::new();
    append_str(&mut out, "{\"jsonrpc\":\"2.0\",\"method\":\"eth_sendTx\",\"params\":[{\"from\":");
    append_json_string(&mut out, from);
    append_str(&mut out, ",\"to\":");
    append_json_string(&mut out, to);
    append_str(&mut out, ",\"nonce\":\"0x");
    append_u64_hex(&mut out, nonce);
    append_str(&mut out, "\",\"value\":\"0x0\",\"newHash\":");
    append_json_string(&mut out, payload_hash);
    append_str(&mut out, ",\"data\":\"0x\"}],\"id\":1}");
    out
}

/// The `miner_createBlock` JSON-RPC envelope, with the block timestamp
/// as its single decimal parameter.
pub open spec fn spec_create_block_body(timestamp: u64) -> Seq<u8> {
    ("{\"jsonrpc\":\"2.0\",\"method\":\"miner_createBlock\",\"params\":[").spec_bytes()
        + spec_u64_dec(timestamp) + ("],\"id\":1}").spec_bytes()
}

/// Build the `miner_createBlock` request body, byte for byte.
pub fn create_block_body(timestamp: u64) -> (r: Vec<u8>)
    ensures
        r@ =~= spec_create_block_body(timestamp),
{
    let mut out: Vec<u8> = Vec::new();
    append_str(&mut out, "{\"jsonrpc\":\"2.0\",\"method\":\"miner_createBlock\",\"params\":[");
    append_u64_dec(&mut out, timestamp);
    append_str(&mut out, "],\"id\":1}");
    out
}

/// What came back for one request: either the transport failed with some
/// detail, or a response body arrived.
pub enum RpcResponse {
    Transport(String),
    Body(String),
}

/// Whether a response body fails to parse as JSON; a function of the text
/// alone.
pub uninterp spec fn rpc_body_malformed(s: Seq<char>) -> bool;

/// The `error` member a parsed response body carries, rendered as text,
/// if any; a function of the text alone.
pub uninterp spec fn rpc_body_error(s: Seq<char>) -> Option<Seq<char>>;

enum BodyStatus {
    Malformed,
    ErrorField(String),
    Clean,
}

/// Relies on serde_json::from_str to parse the response body, on
/// serde_json::Value::get to look up its "error" member, and on
/// serde_json::Value's to_string to render that member. All three
/// depend on the body text alone.
#[verifier::external_body]
fn parse_body_error(s: &str) -> (r: BodyStatus)
    ensures
        r is Malformed <==> rpc_body_malformed(s@),
        r matches BodyStatus::ErrorField(e) ==> rpc_body_error(s@) == Some(e@),
        r is Clean ==> rpc_body_error(s@) is None,
{
    match serde_json::from_str::<serde_json::Value>(s) {
        Ok(v) => match v.get("error") {
            Some(e) => BodyStatus::ErrorField(e.to_string()),
            None => BodyStatus::Clean,
        },
        Err(_) => BodyStatus::Malformed,
    }
}

/// Whether a response classifies as a success: a body arrived, parsed as
/// JSON, and carries no `error` member.
pub open spec fn spec_is_success_response(r: RpcResponse) -> bool {
    match r {
        RpcResponse::Transport(_) => false,
        RpcResponse::Body(b) => !rpc_body_malformed(b@) && rpc_body_error(b@) is None,
    }
}

/// Classify one response: a transport failure or a malformed body is a
/// transport failure, a well-formed body carrying an `error` member is an
/// RPC failure regardless of HTTP status, anything else is a success.
pub fn classify_response(r: RpcResponse) -> (out: TransactionOutcome)
    ensures
        out is Success <==> spec_is_success_response(r),
        r matches RpcResponse::Transport(d) ==> (out matches TransactionOutcome::Failure(m)
            && m@ =~= ("transport: ")@ + d@),
        r matches RpcResponse::Body(b) ==> (if rpc_body_malformed(b@) {
            out matches TransactionOutcome::Failure(m) && m@ =~= (
            "transport: malformed response body")@
        } else {
            match rpc_body_error(b@) {
                Some(e) => out matches TransactionOutcome::Failure(m) && m@ =~= ("rpc: ")@ + e,
                None => out is Success,
            }
        }),
{
    match r {
        RpcResponse::Transport(d) => {
            let mut m = ("transport: ").to_owned();
            m.append(d.as_str());
            TransactionOutcome::Failure(m)
        },
        RpcResponse::Body(b) => {
            match parse_body_error(b.as_str()) {
                BodyStatus::Malformed => TransactionOutcome::Failure(
                    ("transport: malformed response body").to_owned(),
                ),
                BodyStatus::ErrorField(e) => {
                    let mut m = ("rpc: ").to_owned();
                    m.append(e.as_str());
                    TransactionOutcome::Failure(m)
                },
                BodyStatus::Clean => TransactionOutcome::Success,
            }
        },
    }
}

} // verus!
