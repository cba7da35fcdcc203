use conex::challenge::{parse_realm, resolve_token_endpoint};
use conex::errors::DiscoveryError;

#[test]
fn realm_is_extracted_from_bearer_challenge() {
    let header = b"Bearer realm=\"https://auth.example.com/token\",service=\"x\"".to_vec();
    let realm = parse_realm(&header).unwrap();
    assert_eq!(realm, b"https://auth.example.com/token".to_vec());
}

#[test]
fn resolved_token_endpoint_matches_realm_exactly() {
    let header = b"Bearer realm=\"https://auth.example.com/token\",service=\"x\"".to_vec();
    let endpoint = resolve_token_endpoint(&header).unwrap();
    assert_eq!(endpoint.serialize(), b"https://auth.example.com/token".to_vec());
    assert_eq!(endpoint.scheme, b"https".to_vec());
    assert_eq!(endpoint.host, b"auth.example.com".to_vec());
    assert_eq!(endpoint.port, None);
    assert_eq!(endpoint.path, b"/token".to_vec());
}

#[test]
fn challenge_without_realm_is_missing() {
    let header = b"Bearer service=\"x\",error=\"y\"".to_vec();
    assert_eq!(parse_realm(&header), Err(DiscoveryError::MissingRealm));
    assert!(matches!(
        resolve_token_endpoint(&header),
        Err(DiscoveryError::MissingRealm)
    ));
}

#[test]
fn realm_attribute_without_value_is_malformed() {
    let header = b"Bearer realm,service=\"x\"".to_vec();
    assert_eq!(parse_realm(&header), Err(DiscoveryError::MalformedRealm));
}

#[test]
fn unparsable_realm_url_is_rejected() {
    let header = b"Bearer realm=\"not a url\"".to_vec();
    assert!(matches!(
        resolve_token_endpoint(&header),
        Err(DiscoveryError::InvalidRealmUrl)
    ));
}

#[test]
fn hostless_realm_url_is_rejected() {
    let header = b"Bearer realm=\"mailto:a@b.example\"".to_vec();
    assert!(matches!(
        resolve_token_endpoint(&header),
        Err(DiscoveryError::InvalidRealmUrl)
    ));
}
