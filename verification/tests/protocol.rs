//! Byte-level tests of the pure protocol functions: APDU construction,
//! byte-order conversion, TLV directory decoding, response decoding, fuzzy
//! matching, and display formatting.

use ykoath::apdu::calculate_apdu;
use ykoath::apdu::list_apdu;
use ykoath::apdu::remaining_apdu;
use ykoath::apdu::select_apdu;
use ykoath::apdu::u32_from_be_bytes;
use ykoath::apdu::u64_to_be_bytes;
use ykoath::api::error_message;
use ykoath::api::format_code;
use ykoath::api::render_response;
use ykoath::api::Error as ApiError;
use ykoath::api::Response;
use ykoath::matching::filter_matching;
use ykoath::oath::challenge_of;
use ykoath::oath::parse_code_response;
use ykoath::oath::resolve_credential;
use ykoath::oath::Error;
use ykoath::tlv::parse_credentials;
use ykoath::transport;

/// One encoded directory entry: tag, length, algorithm byte, name bytes.
fn entry(alg: u8, name: &str) -> Vec<u8> {
    let mut e = vec![0x72, (name.len() + 1) as u8, alg];
    e.extend_from_slice(name.as_bytes());
    e
}

#[test]
fn select_apdu_bytes() {
    assert_eq!(
        select_apdu(),
        vec![0x00, 0xa4, 0x04, 0x00, 0x07, 0xa0, 0x00, 0x00, 0x05, 0x27, 0x21, 0x01]
    );
}

#[test]
fn list_and_remaining_apdu_bytes() {
    assert_eq!(list_apdu(), vec![0x00, 0xa1, 0x00, 0x00]);
    assert_eq!(remaining_apdu(), vec![0x00, 0xa5, 0x00, 0x00]);
}

#[test]
fn calculate_apdu_bytes_for_abc_at_challenge_one() {
    let apdu = calculate_apdu(b"abc", 1);
    assert_eq!(apdu[..4], [0x00, 0xa2, 0x00, 0x01]);
    // the length byte covers the two TLV blocks exactly: 3 + 8 + 4
    assert_eq!(apdu[4], 15);
    assert_eq!(
        apdu[5..],
        [0x71, 0x03, 0x61, 0x62, 0x63, 0x74, 0x08, 0, 0, 0, 0, 0, 0, 0, 1]
    );
}

#[test]
fn calculate_apdu_reparses_to_name_and_challenge() {
    let name = b"Example:alice";
    let challenge: u64 = 0x0102030405060708;
    let apdu = calculate_apdu(name, challenge);
    // re-read the TLV payload: name block, then challenge block
    assert_eq!(apdu[5], 0x71);
    let name_len = apdu[6] as usize;
    assert_eq!(&apdu[7..7 + name_len], name);
    assert_eq!(apdu[7 + name_len], 0x74);
    assert_eq!(apdu[8 + name_len], 8);
    let challenge_bytes = &apdu[9 + name_len..];
    assert_eq!(challenge_bytes, u64_to_be_bytes(challenge).as_slice());
    assert_eq!(apdu[4] as usize, name_len + 12);
}

#[test]
fn u64_to_be_bytes_exact() {
    assert_eq!(u64_to_be_bytes(0), vec![0; 8]);
    assert_eq!(
        u64_to_be_bytes(0x0102030405060708),
        vec![1, 2, 3, 4, 5, 6, 7, 8]
    );
    assert_eq!(u64_to_be_bytes(u64::MAX), vec![0xff; 8]);
}

#[test]
fn u32_from_be_bytes_exact() {
    assert_eq!(u32_from_be_bytes(0, 1, 0xe2, 0x40), 123456);
    assert_eq!(u32_from_be_bytes(0xff, 0xff, 0xff, 0xff), u32::MAX);
    assert_eq!(u32_from_be_bytes(0, 0, 0, 0), 0);
}

#[test]
fn challenge_is_floor_of_time_over_thirty() {
    assert_eq!(challenge_of(59), 1);
    assert_eq!(challenge_of(60), 2);
    assert_eq!(challenge_of(29), 0);
    assert_eq!(challenge_of(0), 0);
    assert_eq!(challenge_of(30), 1);
}

#[test]
fn parse_credentials_recovers_encoded_list() {
    let mut buf = entry(0x21, "Example:alice");
    buf.extend_from_slice(&entry(0x22, "example:bob"));
    buf.extend_from_slice(&entry(0x21, "gamma"));
    let creds = parse_credentials(&buf);
    assert_eq!(creds, vec!["Example:alice", "example:bob", "gamma"]);
}

#[test]
fn parse_credentials_decodes_multibyte_utf8() {
    // "h\u{e9}llo" is 5 characters in 6 UTF-8 bytes; the length byte counts bytes
    let buf = vec![0x72, 0x07, 0x21, 0x68, 0xc3, 0xa9, 0x6c, 0x6c, 0x6f];
    assert_eq!(parse_credentials(&buf), vec!["h\u{e9}llo"]);
}

#[test]
fn parse_credentials_of_empty_buffer_is_empty() {
    assert_eq!(parse_credentials(&[]), Vec::<String>::new());
}

#[test]
fn parse_credentials_allows_empty_name() {
    // length byte 1: only the algorithm byte, a zero-length name
    let buf = vec![0x72, 0x01, 0x21];
    assert_eq!(parse_credentials(&buf), vec![""]);
}

#[test]
fn parse_credentials_stops_on_wrong_tag() {
    let mut buf = entry(0x21, "alpha");
    buf.extend_from_slice(&[0x90, 0x00]);
    assert_eq!(parse_credentials(&buf), vec!["alpha"]);
}

#[test]
fn parse_credentials_stops_on_length_past_end() {
    let mut buf = entry(0x21, "alpha");
    // a tag and a length that claim more bytes than remain
    buf.extend_from_slice(&[0x72, 0x30, 0x21, 0x61]);
    assert_eq!(parse_credentials(&buf), vec!["alpha"]);
}

#[test]
fn parse_credentials_stops_on_zero_length() {
    let mut buf = entry(0x21, "alpha");
    buf.extend_from_slice(&[0x72, 0x00, 0x21]);
    assert_eq!(parse_credentials(&buf), vec!["alpha"]);
}

#[test]
fn parse_credentials_stops_on_invalid_utf8() {
    let mut buf = entry(0x21, "alpha");
    // 0xff is never valid UTF-8
    buf.extend_from_slice(&[0x72, 0x03, 0x21, 0xff, 0xfe]);
    assert_eq!(parse_credentials(&buf), vec!["alpha"]);
}

#[test]
fn parse_code_rejects_empty_response() {
    assert_eq!(parse_code_response(&[]), Err(Error::Yubikey));
}

#[test]
fn parse_code_auth_required_regardless_of_trailing_content() {
    assert_eq!(parse_code_response(&[0x69, 0x82]), Err(Error::AuthRequired));
    assert_eq!(
        parse_code_response(&[0x69, 0x82, 0x75, 1, 2, 3, 4, 5, 6, 7]),
        Err(Error::AuthRequired)
    );
}

#[test]
fn parse_code_no_such_object_regardless_of_trailing_content() {
    assert_eq!(
        parse_code_response(&[0x69, 0x84]),
        Err(Error::NoMatchingCredential)
    );
    assert_eq!(
        parse_code_response(&[0x69, 0x84, 0xaa, 0xbb]),
        Err(Error::NoMatchingCredential)
    );
}

#[test]
fn parse_code_rejects_wrong_leading_tag() {
    assert_eq!(
        parse_code_response(&[0x77, 4, 6, 0, 0, 0, 1]),
        Err(Error::Yubikey)
    );
    assert_eq!(parse_code_response(&[0x90, 0x00]), Err(Error::Yubikey));
}

#[test]
fn parse_code_rejects_short_truncated_response() {
    // under 7 bytes with the truncated-response tag: a protocol error, no panic
    assert_eq!(parse_code_response(&[0x76]), Err(Error::Yubikey));
    assert_eq!(
        parse_code_response(&[0x76, 0x04, 0x06, 0x00, 0x01, 0xe2]),
        Err(Error::Yubikey)
    );
}

#[test]
fn parse_code_extracts_big_endian_code() {
    // bytes 3..=6 hold the code
    assert_eq!(
        parse_code_response(&[0x75, 0x04, 0x06, 0x00, 0x01, 0xe2, 0x40]),
        Ok(123456)
    );
    assert_eq!(
        parse_code_response(&[0x76, 0x04, 0x06, 0xff, 0xff, 0xff, 0xff, 0x90, 0x00]),
        Ok(u32::MAX)
    );
}

#[test]
fn filter_matching_is_case_insensitive_substring() {
    let creds = vec!["Example:alice".to_string(), "example:bob".to_string()];
    assert_eq!(
        filter_matching(&creds, "EXAMPLE"),
        vec!["Example:alice", "example:bob"]
    );
    assert_eq!(filter_matching(&creds, "alice"), vec!["Example:alice"]);
    assert_eq!(filter_matching(&creds, "zzz"), Vec::<String>::new());
}

#[test]
fn resolve_credential_requires_exactly_one_match() {
    let creds = vec!["Example:alice".to_string(), "example:bob".to_string()];
    assert_eq!(
        resolve_credential(&creds, "EXAMPLE"),
        Err(Error::TooManyMatchingCredentials)
    );
    assert_eq!(
        resolve_credential(&creds, "alice"),
        Ok("Example:alice".to_string())
    );
    assert_eq!(
        resolve_credential(&creds, "zzz"),
        Err(Error::NoMatchingCredential)
    );
}

#[test]
fn format_code_pads_to_six_digits() {
    assert_eq!(format_code(0), "000000");
    assert_eq!(format_code(42), "000042");
    assert_eq!(format_code(123456), "123456");
    assert_eq!(format_code(999999), "999999");
}

#[test]
fn format_code_keeps_longer_codes_whole() {
    assert_eq!(format_code(1000000), "1000000");
    assert_eq!(format_code(u32::MAX), "4294967295");
}

#[test]
fn error_messages_name_origin_and_kind() {
    assert_eq!(error_message(&ApiError::Read), "Read");
    assert_eq!(error_message(&ApiError::Write), "Write");
    assert_eq!(
        error_message(&ApiError::Yubikey(transport::Error::NoYubikey)),
        "Yubikey(NoYubikey)"
    );
    assert_eq!(
        error_message(&ApiError::Yubikey(transport::Error::Connection)),
        "Yubikey(Connection)"
    );
    assert_eq!(
        error_message(&ApiError::Oath(Error::AuthRequired)),
        "Oath(AuthRequired)"
    );
    assert_eq!(
        error_message(&ApiError::Oath(Error::TooManyMatchingCredentials)),
        "Oath(TooManyMatchingCredentials)"
    );
}

#[test]
fn render_response_reports_code_or_error() {
    assert_eq!(
        render_response("acct", Ok(42)),
        Response::Code {
            account: "acct".to_string(),
            code: "000042".to_string(),
        }
    );
    assert_eq!(
        render_response("acct", Err(ApiError::Oath(Error::NoMatchingCredential))),
        Response::Error {
            account: "acct".to_string(),
            error: "Oath(NoMatchingCredential)".to_string(),
        }
    );
}
