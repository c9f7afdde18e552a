use course_backend::attestation::{
    prepare_body, prepare_headers, prepare_request_body, to_utf8_hex_string, AttestationError,
};

#[test]
fn the_body_wraps_the_request_as_it_stands() {
    assert_eq!(
        prepare_body("0xaa", "0xbb", "{\"url\":\"u\"}"),
        "{\"attestationType\":\"0xaa\",\"sourceId\":\"0xbb\",\"requestBody\":{\"url\":\"u\"}}"
    );
    assert_eq!(
        prepare_body("", "", ""),
        "{\"attestationType\":\"\",\"sourceId\":\"\",\"requestBody\":}"
    );
}

#[test]
fn names_become_padded_hex_words() {
    assert_eq!(
        to_utf8_hex_string("Web2Json"),
        Ok("0x576562324a736f6e000000000000000000000000000000000000000000000000".to_string())
    );
    assert_eq!(
        to_utf8_hex_string("PublicWeb2"),
        Ok("0x5075626c69635765623200000000000000000000000000000000000000000000".to_string())
    );
    assert_eq!(to_utf8_hex_string(""), Ok(format!("0x{}", "0".repeat(64))));
    assert_eq!(to_utf8_hex_string("\u{ff}\n"), Ok(format!("0xc3bf0a{}", "0".repeat(58))));
}

#[test]
fn a_name_of_more_than_32_bytes_is_refused() {
    let fits = "a".repeat(32);
    assert_eq!(to_utf8_hex_string(&fits), Ok(format!("0x{}", "61".repeat(32))));
    let too_long = "a".repeat(33);
    assert_eq!(to_utf8_hex_string(&too_long), Err(AttestationError::StringTooLong));
    let wide = "é".repeat(17);
    assert_eq!(to_utf8_hex_string(&wide), Err(AttestationError::StringTooLong));
}

#[test]
fn the_headers_carry_the_key_and_the_content_type() {
    let headers = prepare_headers("k3y").unwrap();
    assert_eq!(headers.len(), 2);
    assert_eq!(headers[0].name, "X-API-KEY");
    assert_eq!(headers[0].value, "k3y");
    assert_eq!(headers[1].name, "Content-Type");
    assert_eq!(headers[1].value, "application/json");
    assert!(prepare_headers("tab\tand space and \u{e9}").is_ok());
    assert!(prepare_headers("").is_ok());
}

#[test]
fn a_key_with_a_control_character_is_no_header_value() {
    assert_eq!(prepare_headers("two\nlines").err(), Some(AttestationError::InvalidHeaderValue));
    assert_eq!(prepare_headers("nul\u{0}").err(), Some(AttestationError::InvalidHeaderValue));
    assert_eq!(prepare_headers("del\u{7f}").err(), Some(AttestationError::InvalidHeaderValue));
}

#[test]
fn the_request_quotes_its_nested_json_once_more() {
    let text = prepare_request_body(
        "https://example.org/get",
        "GET",
        "{\"content-type\":\"application/json\"}",
        "{\"course_id\":\"2\"}",
        "{}",
        "{num_completed: .num_completed}",
        "{\"name\": \"task\",\n\t\"type\": \"tuple\\\u{1}\"}",
    );
    let value: serde_json::Value = serde_json::from_str(&text).unwrap();
    let object = value.as_object().unwrap();
    assert_eq!(object.len(), 7);
    assert_eq!(object["url"].as_str(), Some("https://example.org/get"));
    assert_eq!(object["httpMethod"].as_str(), Some("GET"));
    assert_eq!(
        object["headers"].as_str(),
        Some("\"{\\\"content-type\\\":\\\"application/json\\\"}\"")
    );
    assert_eq!(object["queryParams"].as_str(), Some("\"{\\\"course_id\\\":\\\"2\\\"}\""));
    assert_eq!(object["body"].as_str(), Some("{}"));
    assert_eq!(object["postProcessJq"].as_str(), Some("{num_completed: .num_completed}"));
    assert_eq!(
        object["abiSignature"].as_str(),
        Some("\"{\\\"name\\\": \\\"task\\\",\\n\\t\\\"type\\\": \\\"tuple\\\\\\u0001\\\"}\"")
    );
    assert!(text.starts_with('{') && text.ends_with('}'));
    assert!(!text.contains('\n'));
}
