//! Commands, the circuit-id presence policy, and the error taxonomy.

use vstd::prelude::*;

verus! {

/// Width of the payload section of a fixed-length cell, in bytes.
pub const CELL_DATA_LEN: usize = 509;

/// Width of the cell header (circuit id and command), in bytes.
pub const CELL_HEADER_LEN: usize = 5;

/// Width of the header of a variable-length cell (cell header and
/// 16-bit length prefix), in bytes.
pub const VAR_CELL_HEADER_LEN: usize = 7;

/// Largest payload a variable-length cell can carry: its length field
/// is 16 bits wide.
pub const VAR_BODY_MAX_LEN: usize = 0xffff;

/// A command selects the variable-length framing discipline exactly when
/// it is 7 or at least 128; every other command is fixed-length.
pub open spec fn is_var_cmd(cmd: u8) -> bool {
    cmd == 7 || cmd >= 128
}

/// Commands on which a circuit id must be absent (zero).
pub open spec fn cmd_forbids_circ_id(cmd: u8) -> bool {
    cmd == 0 || cmd == 7 || cmd == 128
}

/// Commands on which a circuit id must be present (nonzero).  Commands
/// 129 and above, other than those listed as forbidding one, are
/// deliberately unconstrained.
pub open spec fn cmd_requires_circ_id(cmd: u8) -> bool {
    (1 <= cmd && cmd <= 6) || (8 <= cmd && cmd <= 127)
}

/// Why an encode request violated the circuit-id presence policy.
#[derive(Clone, Copy, Debug, PartialEq, Eq, Structural)]
pub enum PolicyReason {
    /// The command forbids a circuit id, but a nonzero one was given.
    Forbidden,
    /// The command requires a circuit id, but zero was given.
    Required,
}

/// Why a byte buffer failed to decode as a channel cell.
#[derive(Clone, Copy, Debug, PartialEq, Eq, Structural)]
pub enum DecodeError {
    /// The buffer is shorter than the minimum the current parse stage
    /// needs: the 5-byte header, the fixed payload section, or the
    /// variable-length cell's length prefix.
    IncompleteData,
    /// A variable-length cell's declared length exceeds the bytes that
    /// remain after its header.
    TruncatedBody,
}

/// Why a (circuit id, command, body) triple was refused by encode.
#[derive(Clone, Copy, Debug, PartialEq, Eq, Structural)]
pub enum EncodeError {
    /// The body exceeds `CELL_DATA_LEN` for a fixed-length command, or
    /// 65535 for a variable-length command.
    BodyTooLong,
    /// The circuit id contradicts the command's presence requirement.
    CircuitIdPolicyViolation(PolicyReason),
}

/// A command is variable-length iff it is 7 or at least 128.
pub fn is_var_len_cmd(cmd: u8) -> (r: bool)
    ensures
        r == is_var_cmd(cmd),
{
    cmd == 7 || cmd >= 128
}

} // verus!
