use conex::dispatch::{dispatch, Route};
use conex::errors::ConfigError;
use conex::proxy::{ProxyService, RequestPlan};
use conex::urls::{parse_endpoint, UrlParts};
use conex::{AppState, Bind, Registry};

fn example_parts() -> (UrlParts, UrlParts) {
    let endpoint = UrlParts {
        scheme: b"https".to_vec(),
        host: b"example.com".to_vec(),
        port: None,
        path: b"/".to_vec(),
    };
    let token_endpoint = UrlParts {
        scheme: b"https".to_vec(),
        host: b"auth.example.com".to_vec(),
        port: None,
        path: b"/token".to_vec(),
    };
    (endpoint, token_endpoint)
}

#[test]
fn missing_prefix_is_fatal_configuration() {
    let (endpoint, token_endpoint) = example_parts();
    let r = Registry::new(endpoint, token_endpoint, Vec::new());
    assert_eq!(r.unwrap_err(), ConfigError::MissingPrefix);
}

#[test]
fn unparseable_endpoint_is_fatal_configuration() {
    assert_eq!(
        parse_endpoint(&b"not a url at all".to_vec()).unwrap_err(),
        ConfigError::InvalidEndpoint
    );
    // parses, but carries no host
    assert_eq!(
        parse_endpoint(&b"mailto:a@b.example".to_vec()).unwrap_err(),
        ConfigError::InvalidEndpoint
    );
}

#[test]
fn endpoint_parsing_normalizes_through_the_url_crate() {
    // the bare authority gains its root path; redirect shows it
    let endpoint = parse_endpoint(&b"https://example.com".to_vec()).unwrap();
    assert_eq!(endpoint.path, b"/".to_vec());
    let (_, token_endpoint) = example_parts();
    let registry = Registry::new(endpoint, token_endpoint, b"library".to_vec()).unwrap();
    let svc = ProxyService::new(AppState::new(None, None, registry));
    let location = svc.redirect_location(&b"/foo/bar".to_vec());
    assert_eq!(location, b"https://example.com/library/foo/bar".to_vec());
}

#[test]
fn redirect_plan_carries_the_location() {
    let (endpoint, token_endpoint) = example_parts();
    let registry = Registry::new(endpoint, token_endpoint, b"library".to_vec()).unwrap();
    let svc = ProxyService::new(AppState::new(None, None, registry));
    let plan = svc.proxy_request(&b"/foo/bar".to_vec(), &None, &None);
    match plan {
        RequestPlan::Redirect(d) => {
            assert_eq!(d.location, b"https://example.com/library/foo/bar".to_vec());
        }
        RequestPlan::Forward(_) => panic!("non-API path must redirect"),
    }
}

#[test]
fn dispatch_order_is_fixed() {
    assert_eq!(dispatch(&b"/v2/".to_vec()), Route::RegistryApi);
    assert_eq!(dispatch(&b"/v2/alpine/tags/list".to_vec()), Route::RegistryApi);
    assert_eq!(dispatch(&b"/conex/token".to_vec()), Route::TokenProxy);
    assert_eq!(dispatch(&b"/conex/token2".to_vec()), Route::Redirect);
    assert_eq!(dispatch(&b"/".to_vec()), Route::Redirect);
    assert_eq!(dispatch(&b"/index.html".to_vec()), Route::Redirect);
}

#[test]
fn bind_defaults_cover_all_interfaces() {
    let bind = Bind::default();
    assert_eq!(bind.host.as_deref(), Some("0.0.0.0"));
    assert_eq!(bind.port, Some(8080));
}
