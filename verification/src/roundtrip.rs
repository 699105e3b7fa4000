//! Round-trip laws: what decoding returns on bytes that encode produced.

use vstd::prelude::*;

use crate::cell::CELL_DATA_LEN;
use crate::cell::VAR_BODY_MAX_LEN;
use crate::cell::DecodeError;
use crate::cell::EncodeError;
use crate::cell::cmd_forbids_circ_id;
use crate::cell::is_var_cmd;
use crate::wire::be16_value;
use crate::wire::be32_value;
use crate::wire::encoded_cell;
use crate::wire::lemma_stripped_padding;
use crate::wire::lemma_u16_be_round_trip;
use crate::wire::lemma_u32_be_round_trip;
use crate::wire::spec_decode;
use crate::wire::spec_encode;
use crate::wire::spec_encode_error;
use crate::wire::stripped;
use crate::wire::u16_be_bytes;
use crate::wire::u32_be_bytes;
use crate::wire::zero_padding;

verus! {

/// Round trip for fixed-length commands: whenever the body fits in the
/// fixed payload section and the circuit id obeys the presence policy
/// (absent for command 0, present for every other fixed-length command),
/// encoding succeeds, and decoding the wire bytes returns the circuit id,
/// the command, and the body with its trailing zero bytes stripped.
pub proof fn lemma_round_trip_fixed(circ_id: u32, cmd: u8, body: Seq<u8>)
    requires
        !is_var_cmd(cmd),
        body.len() <= CELL_DATA_LEN,
        cmd == 0 ==> circ_id == 0,
        cmd != 0 ==> circ_id != 0,
    ensures
        spec_encode(circ_id, cmd, body) == Ok::<Seq<u8>, EncodeError>(
            encoded_cell(circ_id, cmd, body),
        ),
        spec_decode(encoded_cell(circ_id, cmd, body)) == Ok::<(u32, u8, Seq<u8>), DecodeError>(
            (circ_id, cmd, stripped(body)),
        ),
{
    let w = encoded_cell(circ_id, cmd, body);
    let k = (CELL_DATA_LEN - body.len()) as nat;
    assert(spec_encode_error(circ_id, cmd, body) is None);
    assert(w.len() == 5 + CELL_DATA_LEN);
    assert(w[0] == u32_be_bytes(circ_id)[0]);
    assert(w[1] == u32_be_bytes(circ_id)[1]);
    assert(w[2] == u32_be_bytes(circ_id)[2]);
    assert(w[3] == u32_be_bytes(circ_id)[3]);
    assert(w[4] == cmd);
    lemma_u32_be_round_trip(circ_id);
    assert(be32_value(w) == circ_id);
    assert(w.subrange(5, 5 + CELL_DATA_LEN as int) =~= body + zero_padding(k));
    lemma_stripped_padding(body, k);
}

/// Round trip for variable-length commands: whenever the body fits the
/// 16-bit length field and the circuit id obeys the presence policy
/// (absent for commands 7 and 128), encoding succeeds, and decoding the
/// wire bytes returns the circuit id, the command, and the body exactly.
pub proof fn lemma_round_trip_var(circ_id: u32, cmd: u8, body: Seq<u8>)
    requires
        is_var_cmd(cmd),
        body.len() <= VAR_BODY_MAX_LEN,
        cmd_forbids_circ_id(cmd) ==> circ_id == 0,
    ensures
        spec_encode(circ_id, cmd, body) == Ok::<Seq<u8>, EncodeError>(
            encoded_cell(circ_id, cmd, body),
        ),
        spec_decode(encoded_cell(circ_id, cmd, body)) == Ok::<(u32, u8, Seq<u8>), DecodeError>(
            (circ_id, cmd, body),
        ),
{
    let w = encoded_cell(circ_id, cmd, body);
    let n: u16 = body.len() as u16;
    assert(spec_encode_error(circ_id, cmd, body) is None);
    assert(w.len() == 7 + body.len());
    assert(w[0] == u32_be_bytes(circ_id)[0]);
    assert(w[1] == u32_be_bytes(circ_id)[1]);
    assert(w[2] == u32_be_bytes(circ_id)[2]);
    assert(w[3] == u32_be_bytes(circ_id)[3]);
    assert(w[4] == cmd);
    assert(w[5] == u16_be_bytes(n)[0]);
    assert(w[6] == u16_be_bytes(n)[1]);
    lemma_u32_be_round_trip(circ_id);
    assert(be32_value(w) == circ_id);
    lemma_u16_be_round_trip(n);
    assert(be16_value(w[5], w[6]) == body.len());
    assert(w.subrange(7, 7 + body.len() as int) =~= body);
}

} // verus!
