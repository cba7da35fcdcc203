use conex::proxy::{ProxyService, RequestPlan};
use conex::urls::UrlParts;
use conex::{AppState, Registry};

fn service(prefix: &[u8]) -> ProxyService {
    let endpoint = UrlParts {
        scheme: b"https".to_vec(),
        host: b"example.com".to_vec(),
        port: None,
        path: b"/".to_vec(),
    };
    let token_endpoint = UrlParts {
        scheme: b"https".to_vec(),
        host: b"auth.example.com".to_vec(),
        port: None,
        path: b"/token".to_vec(),
    };
    let registry = Registry::new(endpoint, token_endpoint, prefix.to_vec()).unwrap();
    ProxyService::new(AppState::new(None, None, registry))
}

#[test]
fn scope_rewrite_keeps_other_parameters() {
    let svc = service(b"myorg");
    let out = svc.rewrite_token_scope(&b"scope=repository:alpine:pull&other=1".to_vec());
    assert_eq!(out, b"scope=repository:myorg/alpine:pull&other=1".to_vec());
}

#[test]
fn scope_rewrite_preserves_parameter_order() {
    let svc = service(b"myorg");
    let out = svc.rewrite_token_scope(&b"service=x&scope=repository:alpine:pull&z=9".to_vec());
    assert_eq!(out, b"service=x&scope=repository:myorg/alpine:pull&z=9".to_vec());
}

#[test]
fn query_without_scope_is_unchanged() {
    let svc = service(b"myorg");
    let out = svc.rewrite_token_scope(&b"service=x&account=y".to_vec());
    assert_eq!(out, b"service=x&account=y".to_vec());
}

#[test]
fn scope_without_repository_is_unchanged() {
    let svc = service(b"myorg");
    let out = svc.rewrite_token_scope(&b"scope=registry:catalog:*".to_vec());
    assert_eq!(out, b"scope=registry:catalog:*".to_vec());
}

// The original design locates one scope parameter by raw splitting; with
// several present, only the first is remapped.  This documents that
// behavior.
#[test]
fn only_first_scope_parameter_is_rewritten() {
    let svc = service(b"myorg");
    let out = svc
        .rewrite_token_scope(&b"scope=repository:a:pull&scope=repository:b:pull".to_vec());
    assert_eq!(out, b"scope=repository:myorg/a:pull&scope=repository:b:pull".to_vec());
}

#[test]
fn token_plan_forwards_rewritten_query_as_get() {
    let svc = service(b"myorg");
    let plan = svc.proxy_request(
        &b"/conex/token".to_vec(),
        &Some(b"scope=repository:alpine:pull&service=s".to_vec()),
        &None,
    );
    match plan {
        RequestPlan::Forward(f) => {
            assert_eq!(
                f.target,
                b"https://auth.example.com/token?scope=repository:myorg/alpine:pull&service=s"
                    .to_vec()
            );
            assert_eq!(f.host, b"auth.example.com".to_vec());
            assert!(f.force_get);
            assert!(f.authorization.is_none());
            assert!(f.challenge.is_none());
        }
        RequestPlan::Redirect(_) => panic!("token route must forward"),
    }
}
