//! Decoding: header parsing and the two body-extraction strategies.

use vstd::prelude::*;

use crate::cell::CELL_DATA_LEN;
use crate::cell::CELL_HEADER_LEN;
use crate::cell::VAR_CELL_HEADER_LEN;
use crate::cell::DecodeError;
use crate::cell::is_var_cmd;
use crate::cell::is_var_len_cmd;
use crate::wire::be16_value;
use crate::wire::be32_value;
use crate::wire::lemma_stripped_prefix;
use crate::wire::spec_decode;
use crate::wire::spec_extract_body;
use crate::wire::spec_extract_fixed;
use crate::wire::spec_extract_var;

verus! {

/// A buffer can only be decoded once it holds at least the 5-byte header.
pub fn validate_cell_length(data: &[u8]) -> (r: Result<(), DecodeError>)
    ensures
        r is Ok <==> data@.len() >= CELL_HEADER_LEN,
        r is Err ==> r == Err::<(), DecodeError>(DecodeError::IncompleteData),
{
    if data.len() < CELL_HEADER_LEN {
        Err(DecodeError::IncompleteData)
    } else {
        Ok(())
    }
}

/// Read the circuit id (32-bit big-endian) and the command (one byte) from
/// the first five bytes.
pub fn parse_header(data: &[u8]) -> (r: Result<(u32, u8), DecodeError>)
    ensures
        data@.len() < CELL_HEADER_LEN ==> r == Err::<(u32, u8), DecodeError>(
            DecodeError::IncompleteData,
        ),
        data@.len() >= CELL_HEADER_LEN ==> r == Ok::<(u32, u8), DecodeError>(
            (be32_value(data@) as u32, data@[4]),
        ),
{
    if let Err(e) = validate_cell_length(data) {
        return Err(e);
    }
    let circ_id: u32 = (data[0] as u32) * 0x1000000 + (data[1] as u32) * 0x10000
        + (data[2] as u32) * 0x100 + (data[3] as u32);
    Ok((circ_id, data[4]))
}

/// Extract the body of a variable-length cell: read the 16-bit big-endian
/// length prefix and take exactly that many bytes, none of them stripped.
pub fn extract_var_body(data: &[u8]) -> (r: Result<Vec<u8>, DecodeError>)
    ensures
        match r {
            Ok(body) => spec_extract_var(data@) == Ok::<Seq<u8>, DecodeError>(body@),
            Err(e) => spec_extract_var(data@) == Err::<Seq<u8>, DecodeError>(e),
        },
{
    if data.len() < VAR_CELL_HEADER_LEN {
        return Err(DecodeError::IncompleteData);
    }
    let body_len: usize = (data[5] as usize) * 0x100 + (data[6] as usize);
    if data.len() - VAR_CELL_HEADER_LEN < body_len {
        return Err(DecodeError::TruncatedBody);
    }
    let mut body: Vec<u8> = Vec::new();
    assert(body@ =~= data@.subrange(7, 7));
    let mut i: usize = 0;
    while i < body_len
        invariant
            data@.len() >= VAR_CELL_HEADER_LEN + body_len,
            body_len <= 0xffff,
            i <= body_len,
            body@ == data@.subrange(7, 7 + i as int),
        decreases body_len - i,
    {
        body.push(data[7 + i]);
        assert(body@ =~= data@.subrange(7, 7 + (i + 1) as int));
        i = i + 1;
    }
    Ok(body)
}

/// Extract the body of a fixed-length cell: the `CELL_DATA_LEN`-byte
/// payload section with its trailing run of zero padding stripped.
pub fn extract_fixed_body(data: &[u8]) -> (r: Result<Vec<u8>, DecodeError>)
    ensures
        match r {
            Ok(body) => spec_extract_fixed(data@) == Ok::<Seq<u8>, DecodeError>(body@),
            Err(e) => spec_extract_fixed(data@) == Err::<Seq<u8>, DecodeError>(e),
        },
{
    if data.len() < CELL_HEADER_LEN + CELL_DATA_LEN {
        return Err(DecodeError::IncompleteData);
    }
    let mut end: usize = CELL_HEADER_LEN + CELL_DATA_LEN;
    while end > CELL_HEADER_LEN && data[end - 1] == 0
        invariant
            data@.len() >= CELL_HEADER_LEN + CELL_DATA_LEN,
            CELL_HEADER_LEN <= end <= CELL_HEADER_LEN + CELL_DATA_LEN,
            forall|j: int| end <= j < CELL_HEADER_LEN + CELL_DATA_LEN ==> data@[j] == 0,
        decreases end,
    {
        end = end - 1;
    }
    proof {
        let payload = data@.subrange(5, 5 + CELL_DATA_LEN as int);
        assert(forall|j: int|
            end - 5 <= j < payload.len() ==> payload[j] == data@[j + 5] && data@[j + 5] == 0);
        assert(end > CELL_HEADER_LEN ==> payload[end - 5 - 1] == data@[end - 1]);
        lemma_stripped_prefix(payload, end - 5);
    }
    let mut body: Vec<u8> = Vec::new();
    assert(body@ =~= data@.subrange(5, 5));
    let mut i: usize = CELL_HEADER_LEN;
    while i < end
        invariant
            data@.len() >= CELL_HEADER_LEN + CELL_DATA_LEN,
            CELL_HEADER_LEN <= i <= end <= CELL_HEADER_LEN + CELL_DATA_LEN,
            body@ == data@.subrange(5, i as int),
        decreases end - i,
    {
        body.push(data[i]);
        assert(body@ =~= data@.subrange(5, (i + 1) as int));
        i = i + 1;
    }
    proof {
        let payload = data@.subrange(5, 5 + CELL_DATA_LEN as int);
        assert(payload.subrange(0, end - 5) =~= data@.subrange(5, end as int));
    }
    Ok(body)
}

/// Extract the effective body of the cell held in `data`, under the
/// framing discipline that `cmd` selects.
pub fn extract_cell_body(data: &[u8], cmd: u8) -> (r: Result<Vec<u8>, DecodeError>)
    ensures
        match r {
            Ok(body) => spec_extract_body(data@, cmd) == Ok::<Seq<u8>, DecodeError>(body@),
            Err(e) => spec_extract_body(data@, cmd) == Err::<Seq<u8>, DecodeError>(e),
        },
{
    if is_var_len_cmd(cmd) {
        extract_var_body(data)
    } else {
        extract_fixed_body(data)
    }
}

/// Decode a channel cell from `data`: the circuit id, the command, and the
/// effective body, or the error at the exact point of failure.  Bytes past
/// the end of the cell are ignored.
pub fn decode_channel_cell(data: &[u8]) -> (r: Result<(u32, u8, Vec<u8>), DecodeError>)
    ensures
        match r {
            Ok(t) => spec_decode(data@) == Ok::<(u32, u8, Seq<u8>), DecodeError>((t.0, t.1, t.2@)),
            Err(e) => spec_decode(data@) == Err::<(u32, u8, Seq<u8>), DecodeError>(e),
        },
        data@.len() < CELL_HEADER_LEN ==> r == Err::<(u32, u8, Vec<u8>), DecodeError>(
            DecodeError::IncompleteData,
        ),
        data@.len() >= VAR_CELL_HEADER_LEN && is_var_cmd(data@[4]) && data@.len() < 7 + be16_value(
            data@[5],
            data@[6],
        ) ==> r == Err::<(u32, u8, Vec<u8>), DecodeError>(DecodeError::TruncatedBody),
{
    let header = match parse_header(data) {
        Ok(h) => h,
        Err(e) => {
            return Err(e);
        },
    };
    match extract_cell_body(data, header.1) {
        Ok(body) => Ok((header.0, header.1, body)),
        Err(e) => Err(e),
    }
}

} // verus!
