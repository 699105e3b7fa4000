//! Encoding: parameter validation and frame building.

use vstd::prelude::*;

use crate::cell::CELL_DATA_LEN;
use crate::cell::CELL_HEADER_LEN;
use crate::cell::VAR_BODY_MAX_LEN;
use crate::cell::EncodeError;
use crate::cell::PolicyReason;
use crate::cell::cmd_forbids_circ_id;
use crate::cell::cmd_requires_circ_id;
use crate::cell::is_var_cmd;
use crate::cell::is_var_len_cmd;
use crate::wire::encoded_cell;
use crate::wire::spec_encode;
use crate::wire::u16_be_bytes;
use crate::wire::u32_be_bytes;
use crate::wire::zero_padding;

verus! {

/// Enforce the circuit-id presence policy: commands 0, 7 and 128 forbid a
/// circuit id, commands 1-6 and 8-127 require one, and commands 129 and
/// above (other than those listed) are unconstrained.
pub fn validate_circid_requirements(cmd: u8, has_circid: bool) -> (r: Result<(), EncodeError>)
    ensures
        r == (if cmd_forbids_circ_id(cmd) && has_circid {
            Err::<(), EncodeError>(EncodeError::CircuitIdPolicyViolation(PolicyReason::Forbidden))
        } else if cmd_requires_circ_id(cmd) && !has_circid {
            Err::<(), EncodeError>(EncodeError::CircuitIdPolicyViolation(PolicyReason::Required))
        } else {
            Ok::<(), EncodeError>(())
        }),
{
    if (cmd == 0 || cmd == 7 || cmd == 128) && has_circid {
        Err(EncodeError::CircuitIdPolicyViolation(PolicyReason::Forbidden))
    } else if ((1 <= cmd && cmd <= 6) || (8 <= cmd && cmd <= 127)) && !has_circid {
        Err(EncodeError::CircuitIdPolicyViolation(PolicyReason::Required))
    } else {
        Ok(())
    }
}

/// Validate an encode request: the fixed-length body bound first, then the
/// circuit-id presence policy.  The 16-bit length bound of variable-length
/// bodies is the frame encoder's own check.
pub fn validate_cell_params(circ_id: u32, command: u8, body: &[u8]) -> (r: Result<
    (),
    EncodeError,
>)
    ensures
        r == (if !is_var_cmd(command) && body@.len() > CELL_DATA_LEN {
            Err::<(), EncodeError>(EncodeError::BodyTooLong)
        } else if cmd_forbids_circ_id(command) && circ_id != 0 {
            Err::<(), EncodeError>(EncodeError::CircuitIdPolicyViolation(PolicyReason::Forbidden))
        } else if cmd_requires_circ_id(command) && circ_id == 0 {
            Err::<(), EncodeError>(EncodeError::CircuitIdPolicyViolation(PolicyReason::Required))
        } else {
            Ok::<(), EncodeError>(())
        }),
{
    if !is_var_len_cmd(command) && body.len() > CELL_DATA_LEN {
        return Err(EncodeError::BodyTooLong);
    }
    validate_circid_requirements(command, circ_id != 0)
}

/// Append the four big-endian bytes of `x`.
fn push_u32_be(out: &mut Vec<u8>, x: u32)
    ensures
        final(out)@ == old(out)@ + u32_be_bytes(x),
{
    proof {
        assert(x / 0x1000000 < 0x100) by (bit_vector);
    }
    out.push((x / 0x1000000) as u8);
    out.push(((x / 0x10000) % 0x100) as u8);
    out.push(((x / 0x100) % 0x100) as u8);
    out.push((x % 0x100) as u8);
    assert(out@ =~= old(out)@ + u32_be_bytes(x));
}

/// Append the two big-endian bytes of `x`.
fn push_u16_be(out: &mut Vec<u8>, x: u16)
    ensures
        final(out)@ == old(out)@ + u16_be_bytes(x),
{
    proof {
        assert(x / 0x100 < 0x100) by (bit_vector);
    }
    out.push((x / 0x100) as u8);
    out.push((x % 0x100) as u8);
    assert(out@ =~= old(out)@ + u16_be_bytes(x));
}

/// Append every byte of `src`.
fn push_bytes(out: &mut Vec<u8>, src: &[u8])
    ensures
        final(out)@ == old(out)@ + src@,
{
    let mut i: usize = 0;
    assert(out@ =~= old(out)@ + src@.subrange(0, 0));
    while i < src.len()
        invariant
            i <= src@.len(),
            out@ == old(out)@ + src@.subrange(0, i as int),
        decreases src@.len() - i,
    {
        out.push(src[i]);
        assert(out@ =~= old(out)@ + src@.subrange(0, (i + 1) as int));
        i = i + 1;
    }
    assert(src@.subrange(0, src@.len() as int) =~= src@);
}

/// Encode a (circuit id, command, body) triple into the exact wire bytes:
/// the 5-byte header, then either the 16-bit length prefix and the raw
/// body, or the body zero-padded to `CELL_DATA_LEN`.
pub fn encode_channel_cell(circ_id: u32, command: u8, body: &[u8]) -> (r: Result<
    Vec<u8>,
    EncodeError,
>)
    ensures
        match r {
            Ok(v) => spec_encode(circ_id, command, body@) == Ok::<Seq<u8>, EncodeError>(v@),
            Err(e) => spec_encode(circ_id, command, body@) == Err::<Seq<u8>, EncodeError>(e),
        },
{
    if let Err(e) = validate_cell_params(circ_id, command, body) {
        return Err(e);
    }
    let mut out: Vec<u8> = Vec::new();
    push_u32_be(&mut out, circ_id);
    out.push(command);
    assert(out@ =~= u32_be_bytes(circ_id) + seq![command]);
    if is_var_len_cmd(command) {
        if body.len() > VAR_BODY_MAX_LEN {
            return Err(EncodeError::BodyTooLong);
        }
        push_u16_be(&mut out, body.len() as u16);
        push_bytes(&mut out, body);
        assert(out@ =~= encoded_cell(circ_id, command, body@));
        Ok(out)
    } else {
        push_bytes(&mut out, body);
        let ghost head = u32_be_bytes(circ_id) + seq![command] + body@;
        assert(out@ =~= head + zero_padding(0));
        while out.len() < CELL_HEADER_LEN + CELL_DATA_LEN
            invariant
                body@.len() <= CELL_DATA_LEN,
                head == u32_be_bytes(circ_id) + seq![command] + body@,
                5 + body@.len() <= out@.len() <= CELL_HEADER_LEN + CELL_DATA_LEN,
                out@ == head + zero_padding((out@.len() - 5 - body@.len()) as nat),
            decreases CELL_HEADER_LEN + CELL_DATA_LEN - out.len(),
        {
            out.push(0);
            assert(out@ =~= head + zero_padding((out@.len() - 5 - body@.len()) as nat));
        }
        assert(out@ =~= encoded_cell(circ_id, command, body@));
        Ok(out)
    }
}

} // verus!
