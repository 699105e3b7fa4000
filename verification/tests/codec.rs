//! Behavioural tests for the channel-cell codec: exact wire layouts,
//! round trips under both framing disciplines, and every error variant.

use cell_codec::cell::DecodeError;
use cell_codec::cell::EncodeError;
use cell_codec::cell::PolicyReason;
use cell_codec::cell::CELL_DATA_LEN;
use cell_codec::cell::is_var_len_cmd;
use cell_codec::codec::ChannelCodec;
use cell_codec::decode::decode_channel_cell;
use cell_codec::decode::extract_fixed_body;
use cell_codec::decode::extract_var_body;
use cell_codec::decode::parse_header;
use cell_codec::decode::validate_cell_length;
use cell_codec::encode::encode_channel_cell;
use cell_codec::encode::validate_cell_params;
use cell_codec::encode::validate_circid_requirements;

#[test]
fn command_classification() {
    assert!(is_var_len_cmd(7));
    assert!(is_var_len_cmd(128));
    assert!(is_var_len_cmd(129));
    assert!(is_var_len_cmd(255));
    assert!(!is_var_len_cmd(0));
    assert!(!is_var_len_cmd(1));
    assert!(!is_var_len_cmd(6));
    assert!(!is_var_len_cmd(8));
    assert!(!is_var_len_cmd(127));
}

#[test]
fn encode_var_exact_bytes() {
    // Variable-length scenario: circuit id 0, command 7, body "hello".
    let out = encode_channel_cell(0, 7, b"hello").unwrap();
    assert_eq!(
        out,
        vec![0x00, 0x00, 0x00, 0x00, 0x07, 0x00, 0x05, 0x68, 0x65, 0x6C, 0x6C, 0x6F]
    );
    let (circ, cmd, body) = decode_channel_cell(&out).unwrap();
    assert_eq!(circ, 0);
    assert_eq!(cmd, 7);
    assert_eq!(body, b"hello".to_vec());
}

#[test]
fn encode_fixed_exact_bytes() {
    // Fixed-length scenario: circuit id 9, command 3, body [0x01, 0x02].
    let out = encode_channel_cell(9, 3, &[0x01, 0x02]).unwrap();
    assert_eq!(out.len(), 514);
    assert_eq!(&out[..5], &[0x00, 0x00, 0x00, 0x09, 0x03]);
    assert_eq!(&out[5..7], &[0x01, 0x02]);
    assert!(out[7..].iter().all(|&b| b == 0));
    let (circ, cmd, body) = decode_channel_cell(&out).unwrap();
    assert_eq!(circ, 9);
    assert_eq!(cmd, 3);
    assert_eq!(body, vec![0x01, 0x02]);
}

#[test]
fn fixed_round_trip_strips_trailing_zeros() {
    let out = encode_channel_cell(5, 3, &[0x01, 0x02, 0x00, 0x00]).unwrap();
    let (circ, cmd, body) = decode_channel_cell(&out).unwrap();
    assert_eq!((circ, cmd), (5, 3));
    assert_eq!(body, vec![0x01, 0x02]);
}

#[test]
fn fixed_round_trip_full_body() {
    let mut payload = vec![0xAB; CELL_DATA_LEN];
    payload[CELL_DATA_LEN - 1] = 0x01;
    let out = encode_channel_cell(0xDEADBEEF, 2, &payload).unwrap();
    assert_eq!(out.len(), 514);
    assert_eq!(&out[..4], &[0xDE, 0xAD, 0xBE, 0xEF]);
    let (circ, cmd, body) = decode_channel_cell(&out).unwrap();
    assert_eq!(circ, 0xDEADBEEF);
    assert_eq!(cmd, 2);
    assert_eq!(body, payload);
}

#[test]
fn fixed_round_trip_empty_body() {
    let out = encode_channel_cell(1, 2, &[]).unwrap();
    assert_eq!(out.len(), 514);
    let (circ, cmd, body) = decode_channel_cell(&out).unwrap();
    assert_eq!((circ, cmd), (1, 2));
    assert_eq!(body, Vec::<u8>::new());
}

#[test]
fn var_round_trip_keeps_trailing_zeros() {
    let out = encode_channel_cell(0, 130, &[0x01, 0x00, 0x00]).unwrap();
    assert_eq!(out.len(), 10);
    let (circ, cmd, body) = decode_channel_cell(&out).unwrap();
    assert_eq!((circ, cmd), (0, 130));
    assert_eq!(body, vec![0x01, 0x00, 0x00]);
}

#[test]
fn var_round_trip_largest_body() {
    let payload = vec![0x5A; 0xFFFF];
    let out = encode_channel_cell(0, 7, &payload).unwrap();
    assert_eq!(out.len(), 7 + 0xFFFF);
    assert_eq!(&out[5..7], &[0xFF, 0xFF]);
    let (circ, cmd, body) = decode_channel_cell(&out).unwrap();
    assert_eq!((circ, cmd), (0, 7));
    assert_eq!(body, payload);
}

#[test]
fn decode_short_buffer_is_incomplete() {
    assert_eq!(decode_channel_cell(&[]), Err(DecodeError::IncompleteData));
    assert_eq!(
        decode_channel_cell(&[0x00, 0x00, 0x00, 0x01]),
        Err(DecodeError::IncompleteData)
    );
}

#[test]
fn decode_var_header_short_is_incomplete() {
    // Header present, command 7 selects variable-length framing, but the
    // 2-byte length prefix is cut off.
    assert_eq!(
        decode_channel_cell(&[0x00, 0x00, 0x00, 0x00, 0x07, 0x00]),
        Err(DecodeError::IncompleteData)
    );
}

#[test]
fn decode_var_declared_length_too_large_is_truncated() {
    // Declared length 5, but only 2 body bytes remain.
    assert_eq!(
        decode_channel_cell(&[0x00, 0x00, 0x00, 0x00, 0x07, 0x00, 0x05, 0x01, 0x02]),
        Err(DecodeError::TruncatedBody)
    );
}

#[test]
fn decode_fixed_short_is_incomplete() {
    // Command 3 is fixed-length: anything under 514 bytes is incomplete.
    let data = vec![0x00, 0x00, 0x00, 0x01, 0x03, 0xAA, 0xBB];
    assert_eq!(decode_channel_cell(&data), Err(DecodeError::IncompleteData));
    let mut almost = vec![0u8; 513];
    almost[4] = 0x03;
    assert_eq!(decode_channel_cell(&almost), Err(DecodeError::IncompleteData));
}

#[test]
fn decode_ignores_bytes_past_the_cell() {
    let data = [0x00, 0x00, 0x00, 0x00, 0x07, 0x00, 0x01, 0xAA, 0xBB, 0xCC];
    let (circ, cmd, body) = decode_channel_cell(&data).unwrap();
    assert_eq!((circ, cmd), (0, 7));
    assert_eq!(body, vec![0xAA]);
}

#[test]
fn encode_forbidden_circuit_id() {
    // Command 0 forbids a circuit id.
    assert_eq!(
        encode_channel_cell(7, 0, &[]),
        Err(EncodeError::CircuitIdPolicyViolation(PolicyReason::Forbidden))
    );
    assert_eq!(
        encode_channel_cell(1, 7, &[]),
        Err(EncodeError::CircuitIdPolicyViolation(PolicyReason::Forbidden))
    );
    assert_eq!(
        encode_channel_cell(2, 128, &[]),
        Err(EncodeError::CircuitIdPolicyViolation(PolicyReason::Forbidden))
    );
}

#[test]
fn encode_required_circuit_id() {
    // Command 1 requires a circuit id.
    assert_eq!(
        encode_channel_cell(0, 1, &[]),
        Err(EncodeError::CircuitIdPolicyViolation(PolicyReason::Required))
    );
    assert_eq!(
        encode_channel_cell(0, 127, &[]),
        Err(EncodeError::CircuitIdPolicyViolation(PolicyReason::Required))
    );
}

#[test]
fn encode_unconstrained_commands() {
    // Commands 129-255 carry no circuit-id rule: both forms encode.
    assert!(encode_channel_cell(0, 129, &[0x01]).is_ok());
    assert!(encode_channel_cell(42, 129, &[0x01]).is_ok());
    assert!(encode_channel_cell(42, 255, &[]).is_ok());
}

#[test]
fn encode_fixed_body_too_long() {
    let body = vec![0u8; CELL_DATA_LEN + 1];
    assert_eq!(encode_channel_cell(1, 2, &body), Err(EncodeError::BodyTooLong));
}

#[test]
fn encode_var_body_too_long() {
    let body = vec![0u8; 0x10000];
    assert_eq!(encode_channel_cell(0, 7, &body), Err(EncodeError::BodyTooLong));
}

#[test]
fn encode_fixed_body_largest() {
    let body = vec![0x01; CELL_DATA_LEN];
    let out = encode_channel_cell(1, 2, &body).unwrap();
    assert_eq!(out.len(), 514);
    let (_, _, decoded) = decode_channel_cell(&out).unwrap();
    assert_eq!(decoded, body);
}

#[test]
fn length_check_order_over_policy() {
    // An over-long fixed body is reported before the circuit-id policy.
    let body = vec![0u8; CELL_DATA_LEN + 1];
    assert_eq!(encode_channel_cell(7, 0, &body), Err(EncodeError::BodyTooLong));
}

#[test]
fn validate_helpers() {
    assert_eq!(validate_cell_length(&[0; 5]), Ok(()));
    assert_eq!(validate_cell_length(&[0; 4]), Err(DecodeError::IncompleteData));
    assert_eq!(validate_circid_requirements(0, false), Ok(()));
    assert_eq!(
        validate_circid_requirements(0, true),
        Err(EncodeError::CircuitIdPolicyViolation(PolicyReason::Forbidden))
    );
    assert_eq!(
        validate_circid_requirements(1, false),
        Err(EncodeError::CircuitIdPolicyViolation(PolicyReason::Required))
    );
    assert_eq!(validate_circid_requirements(129, false), Ok(()));
    assert_eq!(validate_circid_requirements(129, true), Ok(()));
    assert_eq!(validate_cell_params(5, 3, &[0x01]), Ok(()));
    assert_eq!(
        validate_cell_params(0, 3, &[0x01]),
        Err(EncodeError::CircuitIdPolicyViolation(PolicyReason::Required))
    );
}

#[test]
fn parse_header_reads_big_endian() {
    let data = [0x12, 0x34, 0x56, 0x78, 0x2A, 0xFF];
    assert_eq!(parse_header(&data), Ok((0x12345678, 0x2A)));
    assert_eq!(parse_header(&data[..4]), Err(DecodeError::IncompleteData));
}

#[test]
fn extract_bodies_directly() {
    let mut fixed = vec![0u8; 514];
    fixed[5] = 0x09;
    assert_eq!(extract_fixed_body(&fixed), Ok(vec![0x09]));
    assert_eq!(extract_fixed_body(&fixed[..513]), Err(DecodeError::IncompleteData));
    let var = [0x00, 0x00, 0x00, 0x00, 0x07, 0x00, 0x02, 0x0A, 0x00];
    assert_eq!(extract_var_body(&var), Ok(vec![0x0A, 0x00]));
    assert_eq!(extract_var_body(&var[..6]), Err(DecodeError::IncompleteData));
    assert_eq!(extract_var_body(&var[..8]), Err(DecodeError::TruncatedBody));
}

#[test]
fn codec_value_round_trip() {
    let codec = ChannelCodec::new(4);
    assert_eq!(codec.link_version, 4);
    let out = codec.write_cell(5, 3, &[0x01, 0x02, 0x00]).unwrap();
    let (circ, cmd, body) = codec.decode_cell(&out).unwrap();
    assert_eq!((circ, cmd), (5, 3));
    assert_eq!(body, vec![0x01, 0x02]);
}
