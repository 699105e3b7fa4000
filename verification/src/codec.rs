//! The codec value: framing configuration carried per instance rather
//! than as process-wide state.

use vstd::prelude::*;

use crate::cell::DecodeError;
use crate::cell::EncodeError;
use crate::decode::decode_channel_cell;
use crate::encode::encode_channel_cell;
use crate::wire::spec_decode;
use crate::wire::spec_encode;

verus! {

/// A channel-cell codec for one link protocol version.  Keeping the
/// version in the value lets codecs for different versions coexist; only
/// version 4's framing (32-bit circuit ids) is implemented here, so the
/// operations ask for that version.
pub struct ChannelCodec {
    /// The link protocol version this codec frames cells for.
    pub link_version: u16,
}

impl ChannelCodec {
    /// A codec for the given link protocol version.
    pub fn new(link_version: u16) -> (r: ChannelCodec)
        ensures
            r.link_version == link_version,
    {
        ChannelCodec { link_version }
    }

    /// Decode one cell under this codec's framing.
    pub fn decode_cell(&self, data: &[u8]) -> (r: Result<(u32, u8, Vec<u8>), DecodeError>)
        requires
            self.link_version == 4,
        ensures
            match r {
                Ok(t) => spec_decode(data@) == Ok::<(u32, u8, Seq<u8>), DecodeError>(
                    (t.0, t.1, t.2@),
                ),
                Err(e) => spec_decode(data@) == Err::<(u32, u8, Seq<u8>), DecodeError>(e),
            },
    {
        decode_channel_cell(data)
    }

    /// Encode one cell under this codec's framing.
    pub fn write_cell(&self, circ_id: u32, command: u8, body: &[u8]) -> (r: Result<
        Vec<u8>,
        EncodeError,
    >)
        requires
            self.link_version == 4,
        ensures
            match r {
                Ok(v) => spec_encode(circ_id, command, body@) == Ok::<Seq<u8>, EncodeError>(v@),
                Err(e) => spec_encode(circ_id, command, body@) == Err::<Seq<u8>, EncodeError>(e),
            },
    {
        encode_channel_cell(circ_id, command, body)
    }
}

} // verus!
