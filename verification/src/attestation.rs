//! Building the requests that ask an attestation service to vouch for a
//! course's numbers. Sending them is not this library's part.
use vstd::prelude::*;
use vstd::string::StringSliceAdditionalSpecFns;

verus! {

/// The answer of the attestation service.
#[derive(Debug)]
pub struct AttestationResponse {
    pub abi_encoded_request: Vec<u8>,
    pub status: String,
}

/// Why a request could not be built.
#[derive(Clone, Copy, Debug, PartialEq, Eq)]
pub enum AttestationError {
    /// The text does not fit into 32 bytes.
    StringTooLong,
    /// The API key cannot be the value of a header.
    InvalidHeaderValue,
}

/// A header of a request: its name and its value.
#[derive(Debug)]
pub struct Header {
    pub name: String,
    pub value: String,
}

impl View for Header {
    type V = (Seq<char>, Seq<char>);

    open spec fn view(&self) -> (Seq<char>, Seq<char>) {
        (self.name@, self.value@)
    }
}

/// The lower-case hexadecimal digit of a number from 0 to 15.
pub open spec fn hex_digit(n: int) -> char {
    if n < 10 {
        (('0' as int) + n) as char
    } else {
        (('a' as int) + n - 10) as char
    }
}

/// Bytes written as lower-case hexadecimal digits, two per byte, the high
/// half first.
pub open spec fn hex_text(bytes: Seq<u8>) -> Seq<char> {
    Seq::new(
        2 * bytes.len(),
        |i: int|
            if i % 2 == 0 {
                hex_digit(bytes[i / 2] as int / 16)
            } else {
                hex_digit(bytes[i / 2] as int % 16)
            },
    )
}

/// `n` times the digit zero.
pub open spec fn zeros(n: nat) -> Seq<char> {
    Seq::new(n, |i: int| '0')
}

/// Bytes as a 32-byte word in hexadecimal: the prefix `0x`, the digits of
/// the bytes, and zeros up to 64 digits.
pub open spec fn padded_hex_word(bytes: Seq<u8>) -> Seq<char> {
    seq!['0', 'x'] + hex_text(bytes) + zeros((64 - 2 * bytes.len()) as nat)
}

/// The body of a request to prepare an attestation: a JSON object of the
/// attestation type, the source id and the request body, the last one put in
/// as it stands.
pub open spec fn attestation_body(
    attestation_type: Seq<char>,
    source_id: Seq<char>,
    body: Seq<char>,
) -> Seq<char> {
    "{\"attestationType\":\""@ + attestation_type + "\",\"sourceId\":\""@ + source_id
        + "\",\"requestBody\":"@ + body + "}"@
}

/// What a character becomes inside a JSON string.
pub open spec fn json_escaped_char(c: char) -> Seq<char> {
    if c == '"' {
        seq!['\\', '"']
    } else if c == '\\' {
        seq!['\\', '\\']
    } else if c == '\u{8}' {
        seq!['\\', 'b']
    } else if c == '\t' {
        seq!['\\', 't']
    } else if c == '\n' {
        seq!['\\', 'n']
    } else if c == '\u{c}' {
        seq!['\\', 'f']
    } else if c == '\r' {
        seq!['\\', 'r']
    } else if (c as int) < 0x20 {
        seq!['\\', 'u', '0', '0', hex_digit(c as int / 16), hex_digit(c as int % 16)]
    } else {
        seq![c]
    }
}

/// A text as a JSON string: in double quotes, with the double quote, the
/// backslash and the control characters below U+0020 escaped.
pub open spec fn json_string(text: Seq<char>) -> Seq<char> {
    seq!['"'] + text.map_values(|c: char| json_escaped_char(c)).flatten() + seq!['"']
}

/// Bytes that can be the value of a header: none below 32 but the tab, and
/// not 127.
pub open spec fn header_value_fits(bytes: Seq<u8>) -> bool {
    forall|i: int|
        0 <= i < bytes.len() ==> ((#[trigger] bytes[i]) >= 32 && bytes[i] != 127) || bytes[i] == 9
}

/// The compact JSON text of an object whose members are strings: `keys[i]`
/// with the value `values[i]`.
pub uninterp spec fn json_object_text(keys: Seq<Seq<char>>, values: Seq<Seq<char>>) -> Seq<char>;

/// Calls `hex::encode`, which writes each byte as two lower-case hexadecimal
/// digits, the high half first.
#[verifier::external_body]
fn hex_encode(data: &[u8]) -> (text: String)
    ensures
        text@ == hex_text(data@),
{
    hex::encode(data)
}

/// Calls `serde_json::to_string` on a string, which puts it in double quotes
/// and escapes the double quote, the backslash and the control characters
/// below U+0020, those without a short form as `\u00` and two lower-case
/// hexadecimal digits. It does not fail on a string.
#[verifier::external_body]
fn json_quote(text: &str) -> (quoted: String)
    ensures
        quoted@ == json_string(text@),
{
    serde_json::to_string(text).unwrap_or_default()
}

/// Puts the keys with their values, all strings, into a `serde_json::Map`
/// and calls `to_string` on the object. The text that comes back is named,
/// not stated.
#[verifier::external_body]
fn json_object_to_string(keys: &Vec<String>, values: &Vec<String>) -> (text: String)
    ensures
        text@ == json_object_text(keys.deep_view(), values.deep_view()),
{
    let members = keys.iter().cloned().zip(values.iter().cloned().map(serde_json::Value::String));
    serde_json::Value::Object(members.collect::<serde_json::Map<String, serde_json::Value>>())
        .to_string()
}

/// Calls `reqwest::header::HeaderValue::from_str`, which takes a text as the
/// value of a header unless it holds a byte below 32 other than the tab, or
/// the byte 127.
#[verifier::external_body]
fn header_value_accepts(text: &str) -> (accepted: bool)
    ensures
        accepted == header_value_fits(text.spec_bytes()),
{
    reqwest::header::HeaderValue::from_str(text).is_ok()
}

/// The headers of a request to the attestation service: the API key and the
/// content type. An API key that cannot be the value of a header is refused.
pub fn prepare_headers(api_key: &str) -> (outcome: Result<Vec<Header>, AttestationError>)
    ensures
        match outcome {
            Ok(headers) => {
                &&& header_value_fits(api_key.spec_bytes())
                &&& headers@.len() == 2
                &&& headers@[0]@ == ("X-API-KEY"@, api_key@)
                &&& headers@[1]@ == ("Content-Type"@, "application/json"@)
            },
            Err(error) => !header_value_fits(api_key.spec_bytes()) && error
                == AttestationError::InvalidHeaderValue,
        },
{
    if !header_value_accepts(api_key) {
        return Err(AttestationError::InvalidHeaderValue);
    }
    let mut headers: Vec<Header> = Vec::new();
    headers.push(Header { name: String::from_str("X-API-KEY"), value: String::from_str(api_key) });
    headers.push(
        Header {
            name: String::from_str("Content-Type"),
            value: String::from_str("application/json"),
        },
    );
    Ok(headers)
}

/// Builds the body of a request to prepare an attestation.
pub fn prepare_body(attestation_type: &str, source_id: &str, body: &str) -> (request: String)
    ensures
        request@ == attestation_body(attestation_type@, source_id@, body@),
{
    let mut request = String::from_str("{\"attestationType\":\"");
    request.append(attestation_type);
    request.append("\",\"sourceId\":\"");
    request.append(source_id);
    request.append("\",\"requestBody\":");
    request.append(body);
    request.append("}");
    request
}

/// Writes a text as a 32-byte word in hexadecimal: `0x`, the bytes of the
/// text as hexadecimal digits, and zeros on the right up to 64 digits. A
/// text of more than 32 bytes is refused.
pub fn to_utf8_hex_string(input: &str) -> (outcome: Result<String, AttestationError>)
    ensures
        match outcome {
            Ok(word) => input.spec_bytes().len() <= 32 && word@ == padded_hex_word(
                input.spec_bytes(),
            ),
            Err(error) => input.spec_bytes().len() > 32 && error == AttestationError::StringTooLong,
        },
{
    let bytes = input.as_bytes();
    let n = bytes.len();
    if n > 32 {
        return Err(AttestationError::StringTooLong);
    }
    let encoded = hex_encode(bytes);
    let mut word = String::from_str("0x");
    proof {
        reveal_strlit("0x");
        reveal_strlit("0");
        assert("0x"@ =~= seq!['0', 'x']);
        assert("0"@ =~= seq!['0']);
    }
    word.append(encoded.as_str());
    let mut digits: usize = 2 * n;
    proof {
        assert(word@ =~= seq!['0', 'x'] + hex_text(bytes@) + zeros(0));
    }
    while digits < 64
        invariant
            2 * n <= digits <= 64,
            "0"@ == seq!['0'],
            word@ == seq!['0', 'x'] + hex_text(bytes@) + zeros((digits - 2 * n) as nat),
        decreases 64 - digits,
    {
        word.append("0");
        proof {
            assert(word@ =~= seq!['0', 'x'] + hex_text(bytes@) + zeros((digits + 1 - 2 * n) as nat));
        }
        digits += 1;
    }
    Ok(word)
}

/// The names of the members of the request that tells the attestation
/// service what to fetch, in the order in which they are handed over.
pub open spec fn request_keys() -> Seq<Seq<char>> {
    seq![
        "url"@,
        "httpMethod"@,
        "headers"@,
        "queryParams"@,
        "body"@,
        "postProcessJq"@,
        "abiSignature"@,
    ]
}

/// The values of the members of that request: the headers, the query
/// parameters and the ABI signature go in as JSON strings, that is, quoted
/// once more.
pub open spec fn request_values(
    url: Seq<char>,
    http_method: Seq<char>,
    headers: Seq<char>,
    query_params: Seq<char>,
    body: Seq<char>,
    post_process_jq: Seq<char>,
    abi_signature: Seq<char>,
) -> Seq<Seq<char>> {
    seq![
        url,
        http_method,
        json_string(headers),
        json_string(query_params),
        body,
        post_process_jq,
        json_string(abi_signature),
    ]
}

/// Builds the request that tells the attestation service what to fetch and
/// how to read it, as the text of a JSON object.
pub fn prepare_request_body(
    url: &str,
    http_method: &str,
    headers: &str,
    query_params: &str,
    body: &str,
    post_process_jq: &str,
    abi_signature: &str,
) -> (request: String)
    ensures
        request@ == json_object_text(
            request_keys(),
            request_values(
                url@,
                http_method@,
                headers@,
                query_params@,
                body@,
                post_process_jq@,
                abi_signature@,
            ),
        ),
{
    let mut keys: Vec<String> = Vec::new();
    keys.push(String::from_str("url"));
    keys.push(String::from_str("httpMethod"));
    keys.push(String::from_str("headers"));
    keys.push(String::from_str("queryParams"));
    keys.push(String::from_str("body"));
    keys.push(String::from_str("postProcessJq"));
    keys.push(String::from_str("abiSignature"));
    let mut values: Vec<String> = Vec::new();
    values.push(String::from_str(url));
    values.push(String::from_str(http_method));
    values.push(json_quote(headers));
    values.push(json_quote(query_params));
    values.push(String::from_str(body));
    values.push(String::from_str(post_process_jq));
    values.push(json_quote(abi_signature));
    proof {
        assert(keys.deep_view() =~= request_keys());
        assert(values.deep_view() =~= request_values(
            url@,
            http_method@,
            headers@,
            query_params@,
            body@,
            post_process_jq@,
            abi_signature@,
        ));
    }
    json_object_to_string(&keys, &values)
}

} // verus!
