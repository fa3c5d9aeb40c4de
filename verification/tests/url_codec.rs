use orion::http::util::url_lib::{url_decode, url_encode};

#[test]
fn encode_passes_unreserved_through() {
    assert_eq!(url_encode("AZaz09-._~"), "AZaz09-._~");
}

#[test]
fn encode_escapes_space_and_plus() {
    assert_eq!(url_encode("hello world"), "hello%20world");
    assert_eq!(url_encode("a+b"), "a%2Bb");
}

#[test]
fn encode_uses_uppercase_hex() {
    assert_eq!(url_encode("/"), "%2F");
    assert_eq!(url_encode("%"), "%25");
}

#[test]
fn encode_escapes_each_utf8_byte() {
    assert_eq!(url_encode("\u{e9}"), "%C3%A9");
}

#[test]
fn decode_plus_to_space() {
    assert_eq!(url_decode("a+b"), "a b");
}

#[test]
fn decode_hex_escape_either_case() {
    assert_eq!(url_decode("%41"), "A");
    assert_eq!(url_decode("%2f"), "/");
    assert_eq!(url_decode("%2F"), "/");
}

#[test]
fn decode_malformed_escape_keeps_literal_percent() {
    assert_eq!(url_decode("%G1"), "%G1");
    assert_eq!(url_decode("100%"), "100%");
    assert_eq!(url_decode("%4"), "%4");
}

#[test]
fn decode_invalid_utf8_becomes_replacement_character() {
    assert_eq!(url_decode("%FF"), "\u{fffd}");
    assert_eq!(url_decode("a%C3x"), "a\u{fffd}x");
}

#[test]
fn decode_reassembles_multibyte_sequences() {
    assert_eq!(url_decode("%C3%A9"), "\u{e9}");
}

#[test]
fn round_trip_ascii() {
    let s = "GET /index.html?q=a b&x=1";
    assert_eq!(url_decode(&url_encode(s)), s);
}

#[test]
fn round_trip_unicode() {
    let s = "caf\u{e9} \u{2028} \u{1f600} ~%+&=";
    assert_eq!(url_decode(&url_encode(s)), s);
}

#[test]
fn round_trip_empty() {
    assert_eq!(url_decode(&url_encode("")), "");
}
