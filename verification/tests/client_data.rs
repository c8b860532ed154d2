use contract_account::client_data::parse;
use contract_account::errors::Error;

fn fields(input: &[u8]) -> Result<(String, String), Error> {
    let parsed = parse(&input.to_vec())?;
    Ok((
        String::from_utf8(parsed.type_field).unwrap(),
        String::from_utf8(parsed.challenge).unwrap(),
    ))
}

#[test]
fn parse_plain_document() {
    let r = fields(br#"{"type":"webauthn.get","challenge":"abcDEF123-_"}"#).unwrap();
    assert_eq!(r.0, "webauthn.get");
    assert_eq!(r.1, "abcDEF123-_");
}

#[test]
fn parse_ignores_unknown_fields_in_any_order() {
    let r = fields(
        br#"{ "origin" : "https://example.com" ,
              "extra" : { "a" : [ 1 , 2.5e-3 , { "b" : null } , [ ] , "s" ] , "c" : true } ,
              "challenge" : "ch" ,
              "crossOrigin" : false ,
              "type" : "webauthn.get" }"#,
    )
    .unwrap();
    assert_eq!(r.0, "webauthn.get");
    assert_eq!(r.1, "ch");
}

#[test]
fn parse_tolerates_trailing_content() {
    let r = fields(br#"{"challenge":"c","type":"t"} trailing junk"#).unwrap();
    assert_eq!(r.0, "t");
    assert_eq!(r.1, "c");
}

#[test]
fn parse_rejects_non_json() {
    assert_eq!(fields(b"hello"), Err(Error::ClientDataParseError));
    assert_eq!(fields(b""), Err(Error::ClientDataParseError));
    assert_eq!(fields(b"[1,2,3]"), Err(Error::ClientDataParseError));
    assert_eq!(
        fields(br#"{"type":"webauthn.get","challenge":"x""#),
        Err(Error::ClientDataParseError)
    );
}

#[test]
fn parse_rejects_oversized_input() {
    let mut doc = br#"{"type":"webauthn.get","challenge":"x","pad":""#.to_vec();
    while doc.len() < 1023 {
        doc.push(b'p');
    }
    doc.extend_from_slice(br#""}"#);
    assert_eq!(doc.len(), 1025);
    assert_eq!(parse(&doc).unwrap_err(), Error::ClientDataParseError);
}

#[test]
fn parse_rejects_missing_fields() {
    assert_eq!(fields(b"{}"), Err(Error::ClientDataParseError));
    assert_eq!(fields(br#"{"type":"webauthn.get"}"#), Err(Error::ClientDataParseError));
    assert_eq!(fields(br#"{"challenge":"x"}"#), Err(Error::ClientDataParseError));
}

#[test]
fn parse_rejects_non_string_fields() {
    assert_eq!(
        fields(br#"{"type":5,"challenge":"x"}"#),
        Err(Error::ClientDataParseError)
    );
    assert_eq!(
        fields(br#"{"type":"webauthn.get","challenge":[1]}"#),
        Err(Error::ClientDataParseError)
    );
}

#[test]
fn parse_rejects_duplicate_fields() {
    assert_eq!(
        fields(br#"{"type":"a","type":"b","challenge":"x"}"#),
        Err(Error::ClientDataParseError)
    );
    assert_eq!(
        fields(br#"{"type":"a","challenge":"x","challenge":"y"}"#),
        Err(Error::ClientDataParseError)
    );
}

#[test]
fn parse_rejects_escapes_in_extracted_fields() {
    assert_eq!(
        fields(br#"{"type":"webauthn.get","challenge":"a\nb"}"#),
        Err(Error::ClientDataParseError)
    );
}

#[test]
fn parse_error_code_is_stable() {
    let e = parse(&b"not json".to_vec()).unwrap_err();
    assert_eq!(e.code(), 2);
}
