use conex::proxy::ProxyService;
use conex::urls::UrlParts;
use conex::{AppState, Registry};

fn service(prefix: &[u8]) -> ProxyService {
    let endpoint = UrlParts {
        scheme: b"https".to_vec(),
        host: b"example.com".to_vec(),
        port: None,
        path: b"/".to_vec(),
    };
    let token_endpoint = UrlParts {
        scheme: b"https".to_vec(),
        host: b"auth.example.com".to_vec(),
        port: None,
        path: b"/token".to_vec(),
    };
    let registry = Registry::new(endpoint, token_endpoint, prefix.to_vec()).unwrap();
    ProxyService::new(AppState::new(None, None, registry))
}

#[test]
fn rewrite_inserts_prefix_after_v2() {
    let svc = service(b"library");
    let target = svc.rewrite_registry_v2_url(&b"/v2/alpine/manifests/latest".to_vec(), &None);
    assert_eq!(target, b"https://example.com/v2/library/alpine/manifests/latest".to_vec());
}

#[test]
fn rewrite_keeps_tail_unchanged() {
    let svc = service(b"myorg");
    let target = svc.rewrite_registry_v2_url(&b"/v2/a/b/v2/c".to_vec(), &None);
    // only the first /v2/ is replaced; the rest of the path is untouched
    assert_eq!(target, b"https://example.com/v2/myorg/a/b/v2/c".to_vec());
}

#[test]
fn rewrite_root_is_never_namespaced() {
    let svc = service(b"library");
    let target = svc.rewrite_registry_v2_url(&b"/v2/".to_vec(), &None);
    assert_eq!(target, b"https://example.com/v2/".to_vec());
}

#[test]
fn rewrite_carries_query_unchanged() {
    let svc = service(b"library");
    let target = svc.rewrite_registry_v2_url(
        &b"/v2/alpine/blobs/sha256:ab".to_vec(),
        &Some(b"from=upload&n=3".to_vec()),
    );
    assert_eq!(
        target,
        b"https://example.com/v2/library/alpine/blobs/sha256:ab?from=upload&n=3".to_vec()
    );
}

#[test]
fn rewrite_serializes_explicit_port() {
    let endpoint = UrlParts {
        scheme: b"http".to_vec(),
        host: b"registry.local".to_vec(),
        port: Some(5000),
        path: b"/".to_vec(),
    };
    let token_endpoint = UrlParts {
        scheme: b"http".to_vec(),
        host: b"registry.local".to_vec(),
        port: Some(5000),
        path: b"/token".to_vec(),
    };
    let registry = Registry::new(endpoint, token_endpoint, b"ns".to_vec()).unwrap();
    let svc = ProxyService::new(AppState::new(None, None, registry));
    let target = svc.rewrite_registry_v2_url(&b"/v2/busybox/tags/list".to_vec(), &None);
    assert_eq!(target, b"http://registry.local:5000/v2/ns/busybox/tags/list".to_vec());
}
