use fasti_api::conformance::{last_event_cursor, TransportState};
use fasti_api::headers::{HeaderField, RequestHeaders};
use fasti_api::invocation::{loopback_port, requested_address, AddressError, ParsedSocket, RequestedInvocation};
use fasti_api::secrets::{
    constant_time_eq, decode_secret, encode_secret, strip_bearer, InitializationProof,
};

fn auth(value: &str) -> RequestHeaders {
    RequestHeaders {
        fields: vec![HeaderField { name: "authorization".to_owned(), value: Some(value.to_owned()) }],
    }
}

#[test]
fn enrollment_proof_is_one_time() {
    let mut transport: TransportState<&str, u32> = TransportState::new();
    assert!(transport.enrollment_initialization(&"00".repeat(32)).is_none());
    let encoded = transport.initialize("init", InitializationProof::from_bytes([0x5a; 32]));
    assert_eq!(encoded, "5a".repeat(32));
    assert!(transport.enrollment_initialization(&"5b".repeat(32)).is_none());
    assert!(transport.enrollment_initialization(&"5A".repeat(32)).is_none());
    assert_eq!(transport.enrollment_initialization(&encoded), Some(&"init"));
    let credential = transport.complete_enrollment(42, [0x11; 32]);
    assert_eq!(credential, "11".repeat(32));
    assert!(transport.enrollment_initialization(&encoded).is_none());
}

#[test]
fn only_the_issued_credential_authenticates() {
    let mut transport: TransportState<(), &str> = TransportState::new();
    assert!(transport.authenticate(&auth(&format!("Bearer {}", "11".repeat(32)))).is_none());
    transport.initialize((), InitializationProof::from_bytes([1; 32]));
    let credential = transport.complete_enrollment("client", [0x11; 32]);
    assert_eq!(transport.authenticate(&auth(&format!("Bearer {credential}"))), Some(&"client"));
    assert!(transport.authenticate(&auth(&format!("bearer {credential}"))).is_none());
    assert!(transport.authenticate(&auth(&format!("Bearer {}", "12".repeat(32)))).is_none());
    assert!(transport.authenticate(&auth(&credential)).is_none());
    assert!(transport.authenticate(&RequestHeaders { fields: vec![] }).is_none());
}

#[test]
fn bootstrap_proofs_are_fixed_csprng_values_without_identifier_prefixes() {
    let proof = InitializationProof::fresh().expect("operating system generator");
    let encoded = encode_secret(proof.expose_for_fixture());
    assert_eq!(encoded.len(), 64);
    assert!(encoded.chars().all(|c| c.is_ascii_hexdigit() && !c.is_ascii_uppercase()));
    assert_eq!(decode_secret(&encoded), Some(*proof.expose_for_fixture()));
}

#[test]
fn secrets_round_trip_and_compare() {
    let bytes: [u8; 32] = core::array::from_fn(|i| (i * 8) as u8);
    let text = encode_secret(&bytes);
    assert_eq!(&text[..6], "000810");
    assert_eq!(decode_secret(&text), Some(bytes));
    assert_eq!(decode_secret(&text[..62]), None);
    assert_eq!(decode_secret(&text.to_uppercase()), None);
    assert!(constant_time_eq(b"abc", b"abc"));
    assert!(!constant_time_eq(b"abc", b"abd"));
    assert!(!constant_time_eq(b"abc", b"ab"));
    let chars = |s: &str| s.chars().collect::<Vec<char>>();
    assert_eq!(strip_bearer(&chars("Bearer abc")), Some(chars("abc")));
    assert_eq!(strip_bearer(&chars("Basic abc")), None);
    let mut proof = InitializationProof::from_bytes([9; 32]);
    proof.wipe();
    assert_eq!(proof.expose_for_fixture(), &[0u8; 32]);
}

#[test]
fn stream_cursor_marks_non_text_values() {
    let h = RequestHeaders {
        fields: vec![HeaderField { name: "last-event-id".to_owned(), value: None }],
    };
    assert_eq!(last_event_cursor(&h), Some("invalid-non-utf8-cursor".to_owned()));
    let h = RequestHeaders {
        fields: vec![HeaderField { name: "last-event-id".to_owned(), value: Some("7".to_owned()) }],
    };
    assert_eq!(last_event_cursor(&h), Some("7".to_owned()));
    assert_eq!(last_event_cursor(&RequestHeaders { fields: vec![] }), None);
}

#[test]
fn conformance_address_comes_from_one_argument_or_the_environment() {
    let args = |v: &[&str]| v.iter().map(|s| (*s).to_owned()).collect::<Vec<String>>();
    assert!(matches!(
        requested_address(&args(&["127.0.0.1:0"]), None),
        Ok(RequestedInvocation::Address(a)) if a == "127.0.0.1:0"
    ));
    assert!(matches!(
        requested_address(&args(&[]), Some("127.0.0.1:43127".to_owned())),
        Ok(RequestedInvocation::Address(a)) if a == "127.0.0.1:43127"
    ));
    assert!(matches!(requested_address(&args(&["--help"]), None), Ok(RequestedInvocation::Help)));
    assert!(matches!(requested_address(&args(&["-h"]), None), Ok(RequestedInvocation::Help)));
    assert!(matches!(requested_address(&args(&[]), None), Err(AddressError::Missing)));
    assert!(matches!(
        requested_address(&args(&["127.0.0.1:1", "127.0.0.1:2"]), None),
        Err(AddressError::TooManyArguments)
    ));
    assert_eq!(loopback_port(Some(ParsedSocket { ipv4: Some([127, 0, 0, 1]), port: 43127 })), Ok(43127));
    assert_eq!(
        loopback_port(Some(ParsedSocket { ipv4: Some([127, 0, 0, 2]), port: 1 })),
        Err(AddressError::NotLoopbackV4)
    );
    assert_eq!(
        loopback_port(Some(ParsedSocket { ipv4: None, port: 1 })),
        Err(AddressError::NotLoopbackV4)
    );
    assert_eq!(loopback_port(None), Err(AddressError::Invalid));
    assert_eq!(AddressError::NotLoopbackV4.message(), "conformance server may bind only 127.0.0.1");
}
