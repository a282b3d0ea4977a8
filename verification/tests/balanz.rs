use mep_bot::balanz::auth::{
    access_token_from_reply, check_init_status, check_login_status, init_request, init_url,
    login_request, login_url, server_error, TokenPlan, TokenState,
};
use mep_bot::balanz::config::{login_payload, request_headers, timeout_secs, BalanzConfig, LoginPayload};
use mep_bot::balanz::service::{scope, HttpMethod, QuoteRetry, MAX_RETRIES, RETRY_DELAY_SECS};
use mep_bot::balanz::ws::{subscription_message, websocket_url, QuoteCollector, WsEvent, WsStep};
use mep_bot::error::AppError;
use mep_bot::quotes::QuoteMessage;

fn config() -> BalanzConfig {
    BalanzConfig::from_settings("ana".to_string(), "secret".to_string(), "proj".to_string(), None)
}

#[test]
fn scope_mounts_get_quotes() {
    let e = scope();
    assert!(matches!(e.method, HttpMethod::Get));
    assert_eq!(e.path, "/quotes");
}

#[test]
fn login_form_describes_the_web_client() {
    let p: LoginPayload<String> = login_payload("ana".to_string(), "secret".to_string());
    assert_eq!(p.user, "ana");
    assert_eq!(p.pass, "secret");
    assert_eq!(p.source, "WebV2");
    assert_eq!(p.version_so, "10");
    assert_eq!(p.version_app, "2.11.0");
    assert_eq!(p.tipo_dispositivo, "Web");
    assert_eq!(p.sistema_operativo, "Windows");
    assert_eq!(p.nombre_dispositivo, "Edge 125.0.0.0");
    assert_eq!(p.id_dispositivo, "84a22d3c-5165-4ed0-b061-0f8b8ddf09d0");
    assert!(p.nonce.is_none());
}

#[test]
fn headers_are_the_four_client_headers() {
    let h = request_headers();
    assert_eq!(h.len(), 4);
    assert_eq!(h[0], ("content-type", "application/json"));
    assert_eq!(h[1], ("accept", "application/json"));
    assert_eq!(h[2].0, "user-agent");
    assert!(h[2].1.starts_with("Mozilla/5.0 (Windows NT 10.0; Win64; x64)"));
    assert_eq!(h[3], ("referer", "https://clientes.balanz.com/"));
}

#[test]
fn timeout_setting_is_parsed_or_defaulted() {
    assert_eq!(timeout_secs(None), 60);
    assert_eq!(timeout_secs(Some("120")), 120);
    assert_eq!(timeout_secs(Some("+7")), 7);
    assert_eq!(timeout_secs(Some("007")), 7);
    assert_eq!(timeout_secs(Some("0")), 0);
    assert_eq!(timeout_secs(Some("-1")), 60);
    assert_eq!(timeout_secs(Some("")), 60);
    assert_eq!(timeout_secs(Some("+")), 60);
    assert_eq!(timeout_secs(Some(" 5")), 60);
    assert_eq!(timeout_secs(Some("5s")), 60);
    assert_eq!(timeout_secs(Some("18446744073709551615")), u64::MAX);
    assert_eq!(timeout_secs(Some("18446744073709551616")), 60);
    assert_eq!(timeout_secs(Some("99999999999999999999")), 60);
}

#[test]
fn config_from_settings() {
    let c = BalanzConfig::from_settings("ana".to_string(), "pw".to_string(), "proj".to_string(), Some("30"));
    assert_eq!(c.gcp_project_id, "proj");
    assert_eq!(c.login_payload.user, "ana");
    assert_eq!(c.login_payload.pass, "pw");
    assert_eq!(c.timeout_secs, 30);
}

#[test]
fn login_urls_and_init_body() {
    assert_eq!(init_url(), "https://clientes.balanz.com/api/v1/auth/init");
    assert_eq!(login_url(), "https://clientes.balanz.com/api/v1/auth/login");
    let r = init_request(&config().login_payload);
    assert_eq!(r.user, "ana");
    assert_eq!(r.source, "WebV2");
}

#[test]
fn status_checks() {
    assert!(server_error(500));
    assert!(server_error(599));
    assert!(!server_error(499));
    assert!(!server_error(600));
    assert_eq!(check_init_status(503), Err(AppError::LoginServerError));
    assert_eq!(check_init_status(200), Ok(()));
    assert_eq!(check_init_status(404), Ok(()));
    assert_eq!(check_login_status(401), Err(AppError::BadCredentials));
    assert_eq!(check_login_status(499), Err(AppError::BadCredentials));
    assert_eq!(check_login_status(302), Err(AppError::LoginServerError));
    assert_eq!(check_login_status(500), Err(AppError::LoginServerError));
    assert_eq!(check_login_status(100), Err(AppError::LoginServerError));
    assert_eq!(check_login_status(200), Ok(()));
    assert_eq!(check_login_status(204), Ok(()));
}

#[test]
fn login_request_needs_the_nonce() {
    assert_eq!(login_request(&config(), None).err(), Some(AppError::LoginNonceMissing));
    let p = login_request(&config(), Some("n-1".to_string())).unwrap();
    assert_eq!(p.nonce.as_deref(), Some("n-1"));
    assert_eq!(p.user, "ana");
    assert_eq!(p.pass, "secret");
}

#[test]
fn access_token_must_be_in_the_reply() {
    assert_eq!(access_token_from_reply(None), Err(AppError::LoginResponseMissingToken));
    assert_eq!(access_token_from_reply(Some("jwt".to_string())), Ok("jwt".to_string()));
}

#[test]
fn token_state_plans() {
    let mut s = TokenState::new();
    assert!(matches!(s.plan(), TokenPlan::LoadStored));
    assert_eq!(s.accept_stored(None), None);
    assert_eq!(s.accept_stored(Some(String::new())), None);
    assert!(matches!(s.plan(), TokenPlan::LoadStored));
    assert_eq!(s.accept_stored(Some("stored".to_string())), Some("stored".to_string()));
    match s.plan() {
        TokenPlan::Cached(t) => assert_eq!(t, "stored"),
        _ => panic!("expected the cached token"),
    }
    s.invalidate();
    assert!(matches!(s.plan(), TokenPlan::Login));
    assert_eq!(s.accept_stored(Some("again".to_string())), Some("again".to_string()));
    assert!(s.force_refresh);
    s.invalidate();
    assert_eq!(s.accept_login("fresh".to_string()), "fresh");
    match s.plan() {
        TokenPlan::Cached(t) => assert_eq!(t, "fresh"),
        _ => panic!("expected the cached token"),
    }
    assert!(s.force_refresh);
}

#[test]
fn subscription_message_escapes_the_token() {
    assert_eq!(websocket_url(), "wss://clientes.balanz.com/websocket");
    assert_eq!(subscription_message("abc.def"), "{\"panel\":6,\"token\":\"abc.def\"}");
    assert_eq!(
        subscription_message("a\"b\\c\nd\te\u{1}f\u{7f}é"),
        "{\"panel\":6,\"token\":\"a\\\"b\\\\c\\nd\\te\\u0001f\u{7f}é\"}"
    );
    assert_eq!(subscription_message(""), "{\"panel\":6,\"token\":\"\"}");
}

fn quote(plazo: &str, ticker: &str) -> WsEvent<f64> {
    WsEvent::Text(Some(QuoteMessage {
        plazo: Some(plazo.to_string()),
        ticker: Some(ticker.to_string()),
        pv: Some(1.0),
        pc: Some(2.0),
    }))
}

#[test]
fn collector_finishes_when_complete() {
    let mut c: QuoteCollector<f64> = QuoteCollector::new();
    let mut steps = Vec::new();
    for plazo in ["CI", "24hs"] {
        for ticker in ["al30", "AL30D", "Gd30", "GD30D"] {
            steps.push(c.on_event(quote(plazo, ticker)));
        }
    }
    assert!(steps[..7].iter().all(|s| matches!(s, WsStep::Continue)));
    assert!(matches!(steps[7], WsStep::Finish));
    assert!(matches!(c.on_event(WsEvent::Other), WsStep::Finish));
    assert!(matches!(c.on_event(quote("CI", "AL30")), WsStep::Finish));
    assert!(matches!(c.on_event(quote("T+2", "XYZ")), WsStep::Finish));
}

#[test]
fn collector_events() {
    let mut c: QuoteCollector<f64> = QuoteCollector::new();
    assert!(matches!(c.on_event(WsEvent::Text(None)), WsStep::Continue));
    assert!(matches!(c.on_event(WsEvent::Other), WsStep::Continue));
    assert!(matches!(c.on_event(WsEvent::Close(None)), WsStep::Continue));
    assert!(matches!(
        c.on_event(WsEvent::Close(Some("Error: Bad credentials.".to_string()))),
        WsStep::Fail(AppError::WebSocketBadCredentials)
    ));
    assert!(matches!(
        c.on_event(WsEvent::Close(Some("bye".to_string()))),
        WsStep::Fail(AppError::IncompleteQuotes)
    ));
    assert!(matches!(
        c.on_event(WsEvent::Close(Some("bad credentials".to_string()))),
        WsStep::Fail(AppError::IncompleteQuotes)
    ));
    match c.on_event(WsEvent::StreamError("reset".to_string())) {
        WsStep::Fail(e) => assert_eq!(e, AppError::WebSocket("reset".to_string())),
        _ => panic!("expected a failure"),
    }
    assert!(matches!(c.on_event(WsEvent::StreamEnded), WsStep::Fail(AppError::IncompleteQuotes)));
    assert!(matches!(c.on_event(WsEvent::TimedOut), WsStep::Fail(AppError::WebSocketTimeout)));
}

#[test]
fn collector_stops_with_success_only_when_complete() {
    let mut c: QuoteCollector<f64> = QuoteCollector::new();
    assert!(matches!(c.on_event(quote("CI", "AL30")), WsStep::Continue));
    assert!(matches!(c.on_event(WsEvent::StreamEnded), WsStep::Fail(AppError::IncompleteQuotes)));
    for plazo in ["CI", "24hs"] {
        for ticker in ["AL30", "AL30D", "GD30", "GD30D"] {
            c.on_event(quote(plazo, ticker));
        }
    }
    assert!(matches!(c.on_event(WsEvent::Close(Some("bye".to_string()))), WsStep::Finish));
    assert!(matches!(c.on_event(WsEvent::StreamEnded), WsStep::Finish));
    assert!(matches!(
        c.on_event(WsEvent::Close(Some("Bad credentials".to_string()))),
        WsStep::Fail(AppError::WebSocketBadCredentials)
    ));
}

#[test]
fn retry_makes_two_attempts_and_reports_the_last_error() {
    let mut r = QuoteRetry::new();
    assert!(r.may_attempt());
    let b = r.record_failure(AppError::BadCredentials);
    assert!(b.clear_credentials);
    assert_eq!(b.delay_secs, RETRY_DELAY_SECS);
    assert!(r.may_attempt());
    let b = r.record_failure(AppError::WebSocketTimeout);
    assert!(!b.clear_credentials);
    assert!(!r.may_attempt());
    assert_eq!(r.attempts, MAX_RETRIES + 1);
    assert_eq!(r.final_error(), AppError::WebSocketTimeout);
}

#[test]
fn retry_without_attempts_reports_max_retries() {
    assert_eq!(QuoteRetry::new().final_error(), AppError::MaxRetriesExceeded);
}

#[test]
fn credentials_errors() {
    assert!(AppError::BadCredentials.is_credentials_error());
    assert!(AppError::WebSocketBadCredentials.is_credentials_error());
    assert!(!AppError::LoginServerError.is_credentials_error());
    assert!(!AppError::Http("x".to_string()).is_credentials_error());
}
