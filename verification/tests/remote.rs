use drop_app::errors::{DropServerError, RemoteAccessError};
use drop_app::models::AppStatus;
use drop_app::remote::{
    authorization_header, bearer_header, check_health_response, code_socket_message, device_name, gen_drop_url,
    generate_url, get_sys_time_in_secs, initiate_error, is_proxied_path, is_unreachable, manual_handshake_path,
    object_id_of, object_url, parse_handshake_path, plan_object_request, proxied_path_and_query, remote_endpoints,
    setup, should_store_object, try_gen_drop_url, user_fetch_error, ObjectCache, ObjectPlan, UserFetch,
    OBJECT_CACHE_SECONDS,
};

fn s(x: &str) -> String {
    x.to_string()
}

#[test]
fn request_urls_join_paths_and_encode_queries() {
    let u = generate_url("https://drop.example.com", &vec![s("/api/v1/client/user")], &vec![]).ok().unwrap();
    assert_eq!(u, "https://drop.example.com/api/v1/client/user?");
    let u = generate_url(
        "https://drop.example.com/",
        &vec![s("/api/v1/client/game/versions")],
        &vec![(s("id"), s("abc def"))],
    )
    .ok()
    .unwrap();
    assert_eq!(u, "https://drop.example.com/api/v1/client/game/versions?id=abc+def");
    let u = generate_url("https://drop.example.com/", &vec![s("/api/v1/client/game/"), s("g-1")], &vec![])
        .ok()
        .unwrap();
    assert_eq!(u, "https://drop.example.com/api/v1/client/game/g-1?");
}

#[test]
fn unparseable_base_is_a_parsing_error() {
    match generate_url("not a url", &vec![s("/x")], &vec![]) {
        Err(e) => {
            assert!(matches!(e, RemoteAccessError::ParsingError(_)));
            assert_eq!(e.message(), "relative URL without a base");
        },
        Ok(_) => panic!("expected a parsing error"),
    }
}

#[test]
fn drop_urls() {
    assert_eq!(gen_drop_url("https://drop.example.com", "api/v1/x").ok().unwrap(), "https://drop.example.com/api/v1/x");
    assert!(matches!(gen_drop_url("::", "x"), Err(RemoteAccessError::ParsingError(_))));
    assert!(try_gen_drop_url("mailto:someone", "a").is_none());
    assert!(matches!(try_gen_drop_url("https://d.example/", "b"), Some(Ok(u)) if u == "https://d.example/b"));
    let (base, test) = remote_endpoints("http://localhost:3000").ok().unwrap();
    assert_eq!(base, "http://localhost:3000/");
    assert_eq!(test, "http://localhost:3000/api/v1");
}

#[test]
fn health_check_accepts_only_drop() {
    assert!(check_health_response("Drop").is_ok());
    match check_health_response("Nextcloud") {
        Err(e) => assert_eq!(e.message(), "invalid drop endpoint"),
        Ok(()) => panic!("expected InvalidEndpoint"),
    }
}

#[test]
fn handshake_paths() {
    let (client, token) = parse_handshake_path("handshake/client-1/tok-2").ok().unwrap();
    assert_eq!(client, "client-1");
    assert_eq!(token, "tok-2");
    match parse_handshake_path("handshake/only") {
        Err(e) => assert_eq!(e.message(), "failed to complete handshake: failed to parse token"),
        Ok(_) => panic!("expected HandshakeFailed"),
    }
    assert!(parse_handshake_path("a/b/c/d").is_err());
    assert_eq!(manual_handshake_path("tok"), "handshake/tok");
}

#[test]
fn server_errors_of_a_user_request() {
    let e = user_fetch_error(DropServerError { status_code: 401, status_message: s("Nonce expired") });
    assert!(matches!(e, RemoteAccessError::OutOfSync));
    assert_eq!(
        e.message(),
        "server's and client's time are out of sync. Please ensure they are within at least 30 seconds of each other"
    );
    let e = user_fetch_error(DropServerError { status_code: 401, status_message: s("Unauthorized") });
    assert_eq!(e.message(), "server returned an invalid response: 401 Unauthorized");
    let e = initiate_error(&DropServerError { status_code: 500, status_message: s("down") });
    assert_eq!(e.message(), "failed to complete handshake: down");
}

#[test]
fn headers_and_names() {
    assert_eq!(authorization_header("c", "123", "sig"), "Nonce c 123 sig");
    assert_eq!(bearer_header("w"), "Bearer w");
    assert_eq!(device_name("host"), "host (Desktop)");
    assert_eq!(proxied_path_and_query("/store/x"), "/store/x?noWrapper=true");
}

#[test]
fn proxied_paths() {
    assert!(is_proxied_path("/store/game"));
    assert!(is_proxied_path("/api"));
    assert!(is_proxied_path("/_nuxt/app.js"));
    assert!(is_proxied_path("/fonts/a.woff"));
    assert!(!is_proxied_path("/library"));
    assert!(!is_proxied_path(""));
}

#[test]
fn code_socket_messages() {
    assert_eq!(code_socket_message("token", s("t")).ok().unwrap(), "t");
    match code_socket_message("error", s("denied")) {
        Err(e) => assert_eq!(e.message(), "failed to complete handshake: denied"),
        Ok(_) => panic!("expected HandshakeFailed"),
    }
}

#[test]
fn start_up_status() {
    let (status, user) = setup::<u32>(None, None);
    assert_eq!(status, AppStatus::SignedOut);
    assert_eq!(user, None);
    assert_eq!(setup(Some(UserFetch::Fetched(7u32)), None), (AppStatus::SignedIn, Some(7)));
    assert_eq!(setup(Some(UserFetch::Failed(true)), Some(3u32)), (AppStatus::Offline, Some(3)));
    assert_eq!(setup::<u32>(Some(UserFetch::Failed(false)), None), (AppStatus::SignedInNeedsReauth, None));
    assert!(is_unreachable(&RemoteAccessError::FetchError(s("timeout"), None)));
    assert!(!is_unreachable(&RemoteAccessError::OutOfSync));
}

#[test]
fn object_cache_freshness() {
    let now = get_sys_time_in_secs().unwrap();
    assert!(now > 1_600_000_000);
    let c = ObjectCache::new(s("image/png"), vec![1, 2], 1000);
    assert_eq!(c.expiry, 1000 + OBJECT_CACHE_SECONDS);
    assert!(!c.has_expired(1000 + OBJECT_CACHE_SECONDS));
    assert!(c.has_expired(1001 + OBJECT_CACHE_SECONDS));
    let cached = Some(c);
    assert!(matches!(plan_object_request(&cached, 2000), ObjectPlan::ServeCached));
    assert!(!should_store_object(&cached, 2000));
    assert!(matches!(plan_object_request(&cached, 1_000_000), ObjectPlan::Fetch));
    assert!(should_store_object(&cached, 1_000_000));
    assert!(matches!(plan_object_request(&None, 0), ObjectPlan::Fetch));
    assert!(should_store_object(&None, 0));
}

#[test]
fn object_ids_and_urls() {
    assert_eq!(object_id_of("/abc-123"), "abc-123");
    assert_eq!(object_url("https://d.example/", "abc"), "https://d.example/api/v1/client/object/abc");
}

#[test]
fn remote_error_messages() {
    assert_eq!(RemoteAccessError::FetchError(s("e"), Some(s("src"))).message(), "e: src");
    assert_eq!(RemoteAccessError::FetchError(s("e"), None).message(), "e: Unknown error");
    assert_eq!(RemoteAccessError::ParsingError(s("p")).message(), "p");
    assert_eq!(RemoteAccessError::GameNotFound(s("g")).message(), "could not find game on server");
    assert_eq!(RemoteAccessError::InvalidRedirect.message(), "server redirect was invalid");
    assert_eq!(
        RemoteAccessError::ManifestDownloadFailed(s("404 Not Found"), s("body")).message(),
        "failed to download game manifest: 404 Not Found body"
    );
    assert_eq!(RemoteAccessError::Cache(s("gone")).message(), "Cache Error: gone");
    assert_eq!(RemoteAccessError::Generic(s("any")).message(), "any");
    assert_eq!(RemoteAccessError::UnparseableResponse(s("raw")).message(), "raw");
}
