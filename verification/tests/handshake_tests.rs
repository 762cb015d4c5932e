use rscan::handshake::{
    get_service_handshakes, Handshake, HandshakeDefinition, HandshakeField, HandshakeLoadError,
};

fn definition(service: &str, request: &str, response: &str) -> HandshakeDefinition {
    HandshakeDefinition {
        service: service.to_string(),
        request: request.to_string(),
        response: response.to_string(),
    }
}

#[test]
fn definition_decodes_request_and_response() {
    let h = definition("http", "R0VUIC8gSFRUUC8xLjANCg0K", "SFRUUC8xLg==").to_handshake();
    assert_eq!(
        h,
        Ok(Handshake {
            service: "http".to_string(),
            request: b"GET / HTTP/1.0\r\n\r\n".to_vec(),
            response: b"HTTP/1.".to_vec(),
        })
    );
}

#[test]
fn borrowed_definition_decodes_alike() {
    let d = definition("ssh", "", "U1NILQ==");
    assert_eq!(d.decode(), d.clone().to_handshake());
    assert_eq!(d.decode().unwrap().request, Vec::<u8>::new());
    assert_eq!(d.decode().unwrap().response, b"SSH-".to_vec());
}

#[test]
fn request_is_looked_at_before_response() {
    assert_eq!(definition("a", "!", "!").to_handshake(), Err(HandshakeField::Request));
    assert_eq!(definition("a", "QQ==", "QQ").to_handshake(), Err(HandshakeField::Response));
    assert_eq!(definition("a", "QQ=", "QQ==").to_handshake(), Err(HandshakeField::Request));
}

#[test]
fn handshakes_keep_their_order() {
    let loaded = get_service_handshakes(vec![
        definition("one", "MQ==", "YQ=="),
        definition("two", "Mg==", "Yg=="),
        definition("three", "Mw==", "Yw=="),
    ])
    .unwrap();
    let names: Vec<&str> = loaded.iter().map(|h| h.service.as_str()).collect();
    assert_eq!(names, vec!["one", "two", "three"]);
    assert_eq!(loaded[1].request, b"2".to_vec());
    assert_eq!(loaded[2].response, b"c".to_vec());
}

#[test]
fn no_definitions_give_no_handshakes() {
    assert_eq!(get_service_handshakes(Vec::new()), Ok(Vec::new()));
}

#[test]
fn first_bad_definition_is_reported() {
    let r = get_service_handshakes(vec![
        definition("one", "MQ==", "YQ=="),
        definition("two", "Mg==", "not base64"),
        definition("three", "***", "Yw=="),
    ]);
    assert_eq!(r, Err(HandshakeLoadError { index: 1, field: HandshakeField::Response }));
    let r = get_service_handshakes(vec![definition("one", "?", "?")]);
    assert_eq!(r, Err(HandshakeLoadError { index: 0, field: HandshakeField::Request }));
}
