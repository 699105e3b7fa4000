//! The wire model: what the bytes of a cell mean.
//!
//! Every contract of the codec is stated against the spec functions here:
//! big-endian integer fields, the padding-stripping rule for fixed-length
//! payloads, and the exact byte layout that encoding produces.

use vstd::prelude::*;

use crate::cell::CELL_DATA_LEN;
use crate::cell::CELL_HEADER_LEN;
use crate::cell::VAR_BODY_MAX_LEN;
use crate::cell::VAR_CELL_HEADER_LEN;
use crate::cell::DecodeError;
use crate::cell::EncodeError;
use crate::cell::PolicyReason;
use crate::cell::cmd_forbids_circ_id;
use crate::cell::cmd_requires_circ_id;
use crate::cell::is_var_cmd;

verus! {

/// Value of a 16-bit big-endian integer with bytes `hi`, `lo`.
pub open spec fn be16_value(hi: u8, lo: u8) -> int {
    hi * 0x100 + lo
}

/// Value of the 32-bit big-endian integer held in the first four bytes.
pub open spec fn be32_value(b: Seq<u8>) -> int
    recommends
        b.len() >= 4,
{
    b[0] * 0x1000000 + b[1] * 0x10000 + b[2] * 0x100 + b[3]
}

/// The four bytes of `x`, most significant first.
pub open spec fn u32_be_bytes(x: u32) -> Seq<u8> {
    seq![
        (x / 0x1000000) as u8,
        ((x / 0x10000) % 0x100) as u8,
        ((x / 0x100) % 0x100) as u8,
        (x % 0x100) as u8,
    ]
}

/// The two bytes of `x`, most significant first.
pub open spec fn u16_be_bytes(x: u16) -> Seq<u8> {
    seq![(x / 0x100) as u8, (x % 0x100) as u8]
}

/// `n` zero bytes.
pub open spec fn zero_padding(n: nat) -> Seq<u8> {
    Seq::new(n, |i: int| 0u8)
}

/// `body` with its trailing run of zero bytes removed: the shortest prefix
/// that is empty or ends in a nonzero byte.
pub open spec fn stripped(body: Seq<u8>) -> Seq<u8>
    decreases body.len(),
{
    if body.len() == 0 {
        body
    } else if body.last() == 0 {
        stripped(body.drop_last())
    } else {
        body
    }
}

/// The exact wire bytes of a cell: the 5-byte header, then either the
/// 16-bit length prefix and the raw body (variable-length commands) or the
/// body zero-padded to `CELL_DATA_LEN` (fixed-length commands).
pub open spec fn encoded_cell(circ_id: u32, cmd: u8, body: Seq<u8>) -> Seq<u8>
    recommends
        is_var_cmd(cmd) ==> body.len() <= VAR_BODY_MAX_LEN,
        !is_var_cmd(cmd) ==> body.len() <= CELL_DATA_LEN,
{
    u32_be_bytes(circ_id) + seq![cmd] + if is_var_cmd(cmd) {
        u16_be_bytes(body.len() as u16) + body
    } else {
        body + zero_padding((CELL_DATA_LEN - body.len()) as nat)
    }
}

/// What extracting a variable-length body from `data` yields: the bytes
/// that the length prefix declares, exactly.
pub open spec fn spec_extract_var(data: Seq<u8>) -> Result<Seq<u8>, DecodeError> {
    if data.len() < VAR_CELL_HEADER_LEN {
        Err(DecodeError::IncompleteData)
    } else {
        let n: int = be16_value(data[5], data[6]);
        if data.len() < VAR_CELL_HEADER_LEN + n {
            Err(DecodeError::TruncatedBody)
        } else {
            Ok(data.subrange(7, 7 + n))
        }
    }
}

/// What extracting a fixed-length body from `data` yields: the payload
/// section with its trailing zero padding stripped.
pub open spec fn spec_extract_fixed(data: Seq<u8>) -> Result<Seq<u8>, DecodeError> {
    if data.len() < CELL_HEADER_LEN + CELL_DATA_LEN {
        Err(DecodeError::IncompleteData)
    } else {
        Ok(stripped(data.subrange(5, 5 + CELL_DATA_LEN as int)))
    }
}

/// The body of the cell held in `data`, under the framing discipline that
/// `cmd` selects.
pub open spec fn spec_extract_body(data: Seq<u8>, cmd: u8) -> Result<Seq<u8>, DecodeError> {
    if is_var_cmd(cmd) {
        spec_extract_var(data)
    } else {
        spec_extract_fixed(data)
    }
}

/// What decoding `data` yields: the (circuit id, command, body) triple, or
/// the error at the exact point of failure.
pub open spec fn spec_decode(data: Seq<u8>) -> Result<(u32, u8, Seq<u8>), DecodeError> {
    if data.len() < CELL_HEADER_LEN {
        Err(DecodeError::IncompleteData)
    } else {
        match spec_extract_body(data, data[4]) {
            Ok(body) => Ok((be32_value(data) as u32, data[4], body)),
            Err(e) => Err(e),
        }
    }
}

/// The first check that refuses an encode request, if any: the fixed-length
/// body bound, then the circuit-id presence policy, then the 16-bit length
/// bound of variable-length cells.
pub open spec fn spec_encode_error(circ_id: u32, cmd: u8, body: Seq<u8>) -> Option<EncodeError> {
    if !is_var_cmd(cmd) && body.len() > CELL_DATA_LEN {
        Some(EncodeError::BodyTooLong)
    } else if cmd_forbids_circ_id(cmd) && circ_id != 0 {
        Some(EncodeError::CircuitIdPolicyViolation(PolicyReason::Forbidden))
    } else if cmd_requires_circ_id(cmd) && circ_id == 0 {
        Some(EncodeError::CircuitIdPolicyViolation(PolicyReason::Required))
    } else if is_var_cmd(cmd) && body.len() > VAR_BODY_MAX_LEN {
        Some(EncodeError::BodyTooLong)
    } else {
        None
    }
}

/// What encoding yields: the exact wire bytes, or the first error.
pub open spec fn spec_encode(circ_id: u32, cmd: u8, body: Seq<u8>) -> Result<Seq<u8>, EncodeError> {
    match spec_encode_error(circ_id, cmd, body) {
        Some(e) => Err(e),
        None => Ok(encoded_cell(circ_id, cmd, body)),
    }
}

/// A 32-bit value is recovered exactly from its big-endian bytes.
pub proof fn lemma_u32_be_round_trip(x: u32)
    ensures
        be32_value(u32_be_bytes(x)) == x,
{
    assert(x / 0x1000000 < 0x100) by (bit_vector);
    assert((x / 0x1000000) * 0x1000000 + ((x / 0x10000) % 0x100) * 0x10000
        + ((x / 0x100) % 0x100) * 0x100 + (x % 0x100) == x) by (bit_vector);
}

/// A 16-bit value is recovered exactly from its big-endian bytes.
pub proof fn lemma_u16_be_round_trip(x: u16)
    ensures
        be16_value(u16_be_bytes(x)[0], u16_be_bytes(x)[1]) == x,
{
    assert(x / 0x100 < 0x100) by (bit_vector);
    assert((x / 0x100) * 0x100 + (x % 0x100) == x) by (bit_vector);
}

/// Stripping removes exactly the zero padding that was appended.
pub proof fn lemma_stripped_padding(body: Seq<u8>, n: nat)
    ensures
        stripped(body + zero_padding(n)) == stripped(body),
    decreases n,
{
    if n == 0 {
        assert(body + zero_padding(0) =~= body);
    } else {
        let s = body + zero_padding(n);
        assert(s.last() == 0);
        assert(s.drop_last() =~= body + zero_padding((n - 1) as nat));
        lemma_stripped_padding(body, (n - 1) as nat);
    }
}

/// `stripped` returns the prefix that ends at the last nonzero byte.
pub proof fn lemma_stripped_prefix(s: Seq<u8>, n: int)
    requires
        0 <= n <= s.len(),
        n == 0 || s[n - 1] != 0,
        forall|j: int| n <= j < s.len() ==> s[j] == 0,
    ensures
        stripped(s) == s.subrange(0, n),
    decreases s.len(),
{
    if n == s.len() {
        assert(s.subrange(0, n) =~= s);
    } else {
        assert(s[s.len() - 1] == 0);
        let t = s.drop_last();
        assert(forall|j: int| 0 <= j < t.len() ==> t[j] == s[j]);
        lemma_stripped_prefix(t, n);
        assert(t.subrange(0, n) =~= s.subrange(0, n));
    }
}

} // verus!
