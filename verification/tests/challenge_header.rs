use conex::challenge::build_challenge;
use conex::proxy::{ProxyService, RequestPlan};
use conex::urls::UrlParts;
use conex::{AppState, Registry};

#[test]
fn challenge_uses_inbound_host_over_https() {
    let value = build_challenge(&None, &Some(b"gateway.example.com".to_vec()));
    assert_eq!(
        value,
        b"Bearer realm=\"https://gateway.example.com/conex/token\"".to_vec()
    );
}

#[test]
fn challenge_prefers_configured_hostname() {
    let value = build_challenge(
        &Some(b"public.example.net".to_vec()),
        &Some(b"gateway.example.com".to_vec()),
    );
    assert_eq!(
        value,
        b"Bearer realm=\"https://public.example.net/conex/token\"".to_vec()
    );
}

#[test]
fn challenge_falls_back_to_localhost_over_http() {
    let value = build_challenge(&None, &None);
    assert_eq!(value, b"Bearer realm=\"http://localhost/conex/token\"".to_vec());
}

#[test]
fn localhost_with_port_still_uses_http() {
    let value = build_challenge(&None, &Some(b"localhost:8080".to_vec()));
    assert_eq!(
        value,
        b"Bearer realm=\"http://localhost:8080/conex/token\"".to_vec()
    );
}

fn service_with_auth() -> ProxyService {
    let endpoint = UrlParts {
        scheme: b"https".to_vec(),
        host: b"example.com".to_vec(),
        port: None,
        path: b"/".to_vec(),
    };
    let token_endpoint = UrlParts {
        scheme: b"https".to_vec(),
        host: b"auth.example.com".to_vec(),
        port: None,
        path: b"/token".to_vec(),
    };
    let registry = Registry::new(endpoint, token_endpoint, b"library".to_vec()).unwrap();
    ProxyService::new(AppState::new(
        Some(b"Basic Zm9vOmJhcg==".to_vec()),
        None,
        registry,
    ))
}

#[test]
fn api_root_plan_injects_local_challenge_and_credential() {
    let svc = service_with_auth();
    let plan = svc.proxy_request(
        &b"/v2/".to_vec(),
        &None,
        &Some(b"gateway.example.com".to_vec()),
    );
    match plan {
        RequestPlan::Forward(f) => {
            assert_eq!(f.target, b"https://example.com/v2/".to_vec());
            assert_eq!(f.host, b"example.com".to_vec());
            assert_eq!(f.authorization, Some(b"Basic Zm9vOmJhcg==".to_vec()));
            assert!(!f.force_get);
            assert_eq!(
                f.challenge,
                Some(b"Bearer realm=\"https://gateway.example.com/conex/token\"".to_vec())
            );
        }
        RequestPlan::Redirect(_) => panic!("API root must forward"),
    }
}

#[test]
fn deeper_api_paths_get_no_challenge() {
    let svc = service_with_auth();
    let plan = svc.proxy_request(&b"/v2/alpine/tags/list".to_vec(), &None, &None);
    match plan {
        RequestPlan::Forward(f) => {
            assert_eq!(
                f.target,
                b"https://example.com/v2/library/alpine/tags/list".to_vec()
            );
            assert!(f.challenge.is_none());
        }
        RequestPlan::Redirect(_) => panic!("API path must forward"),
    }
}
