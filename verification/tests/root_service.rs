use mep_bot::quotes::{all_keys_present, QuoteBook, QuoteMessage, KEY_COUNT};
use mep_bot::root_service::{
    access_token_or_empty, login_after_init, login_status_outcome, nonce_of_init_reply,
    unavailable_reply, update_data, CellStep, TokenCell,
    RootAttempt, RootEvent, RootSession, RootStep, MAX_RETRIES, RETRY_DELAY_SECS,
};

fn message(plazo: Option<&str>, ticker: Option<&str>, pv: Option<f64>, pc: Option<f64>) -> QuoteMessage<f64> {
    QuoteMessage {
        plazo: plazo.map(|s| s.to_string()),
        ticker: ticker.map(|s| s.to_string()),
        pv,
        pc,
    }
}

fn snapshot(book: &QuoteBook<f64>) -> Vec<Option<f64>> {
    (0..KEY_COUNT).map(|i| book.get(i)).collect()
}

#[test]
fn root_update_takes_exact_upper_case_tickers() {
    let mut book = QuoteBook::new();
    update_data(&mut book, &message(Some("CI"), Some("AL30D"), Some(1.0), Some(2.0)), 0.0);
    update_data(&mut book, &message(Some("24hs"), Some("GD30"), Some(3.0), Some(4.0)), 0.0);
    let mut expected = vec![None; KEY_COUNT];
    expected[2] = Some(1.0);
    expected[3] = Some(2.0);
    expected[12] = Some(3.0);
    expected[13] = Some(4.0);
    assert_eq!(snapshot(&book), expected);
}

#[test]
fn root_update_ignores_lower_case_and_unknown() {
    let mut book = QuoteBook::new();
    update_data(&mut book, &message(Some("CI"), Some("al30"), Some(1.0), Some(2.0)), 0.0);
    update_data(&mut book, &message(Some("T+1"), Some("AL30"), Some(1.0), Some(2.0)), 0.0);
    update_data(&mut book, &message(None, Some("AL30"), Some(1.0), Some(2.0)), 0.0);
    update_data(&mut book, &message(Some("CI"), None, Some(1.0), Some(2.0)), 0.0);
    assert!(snapshot(&book).iter().all(|q| q.is_none()));
}

#[test]
fn root_update_stores_absent_price_for_missing_price() {
    let mut book = QuoteBook::new();
    update_data(&mut book, &message(Some("CI"), Some("GD30D"), None, Some(4.0)), 0.0);
    assert_eq!(book.get(6), Some(0.0));
    assert_eq!(book.get(7), Some(4.0));
}

#[test]
fn login_status_server_error_gives_temporary_token() {
    assert_eq!(login_status_outcome(500).as_deref(), Some("__TEMPORARY_ERROR__"));
    assert_eq!(login_status_outcome(599).as_deref(), Some("__TEMPORARY_ERROR__"));
    assert_eq!(login_status_outcome(200), None);
    assert_eq!(login_status_outcome(499), None);
    assert_eq!(login_status_outcome(600), None);
}

#[test]
fn token_helpers() {
    assert_eq!(access_token_or_empty(None), "");
    assert_eq!(access_token_or_empty(Some("tok".to_string())), "tok");
    let reply = unavailable_reply("__TEMPORARY_ERROR__").unwrap();
    assert_eq!(reply.status, 503);
    assert_eq!(reply.body, "Temporary server error, please try again later.");
    assert!(unavailable_reply("tok").is_none());
    assert!(unavailable_reply("").is_none());
}

#[test]
fn session_connects_with_subscription_message() {
    let mut s = RootSession::new("tok".to_string(), 0.0f64);
    match s.next_attempt() {
        RootAttempt::Connect(m) => assert_eq!(m, "{\"panel\":6,\"token\":\"tok\"}"),
        RootAttempt::GiveUp(_) => panic!("gave up too early"),
    }
}

#[test]
fn session_gives_up_after_three_failed_connections() {
    let mut s = RootSession::new("tok".to_string(), 0.0f64);
    for _ in 0..MAX_RETRIES {
        assert!(matches!(s.next_attempt(), RootAttempt::Connect(_)));
        assert_eq!(s.connect_failed(), RETRY_DELAY_SECS);
    }
    match s.next_attempt() {
        RootAttempt::GiveUp(reply) => {
            assert_eq!(reply.status, 500);
            assert_eq!(reply.body, "Failed after 3 retries");
        }
        RootAttempt::Connect(_) => panic!("should give up"),
    }
    assert_eq!(s.retries, 3);
}

#[test]
fn session_refused_token_asks_for_login_and_counts() {
    let mut s = RootSession::new("old".to_string(), 0.0f64);
    assert!(matches!(s.next_attempt(), RootAttempt::Connect(_)));
    let step = s.on_event(RootEvent::Close(Some("Bad credentials".to_string())));
    assert!(matches!(step, RootStep::PauseThenLogin(10)));
    assert_eq!(s.retries, 1);
    s.use_token("new".to_string());
    match s.next_attempt() {
        RootAttempt::Connect(m) => assert_eq!(m, "{\"panel\":6,\"token\":\"new\"}"),
        RootAttempt::GiveUp(_) => panic!("gave up too early"),
    }
}

#[test]
fn session_other_close_answers_with_data() {
    let mut s = RootSession::new("tok".to_string(), 0.0f64);
    assert!(matches!(s.next_attempt(), RootAttempt::Connect(_)));
    assert!(matches!(s.on_event(RootEvent::Close(Some("Bad credentials!".to_string()))), RootStep::Respond));
    assert_eq!(s.retries, 0);
    assert!(matches!(s.on_event(RootEvent::Close(None)), RootStep::Continue));
    assert!(matches!(s.on_event(RootEvent::Other), RootStep::Continue));
    assert!(matches!(s.on_event(RootEvent::Text(None)), RootStep::Continue));
    assert!(matches!(s.on_event(RootEvent::StreamError), RootStep::Respond));
    assert!(matches!(s.on_event(RootEvent::StreamEnded), RootStep::Respond));
}

#[test]
fn session_answers_once_complete() {
    let mut s = RootSession::new("tok".to_string(), 0.0f64);
    assert!(matches!(s.next_attempt(), RootAttempt::Connect(_)));
    let mut steps = Vec::new();
    for plazo in ["CI", "24hs"] {
        for ticker in ["AL30", "AL30D", "GD30", "GD30D"] {
            steps.push(s.on_event(RootEvent::Text(Some(message(Some(plazo), Some(ticker), Some(1.0), Some(2.0))))));
        }
    }
    assert!(steps[..7].iter().all(|st| matches!(st, RootStep::Continue)));
    assert!(matches!(steps[7], RootStep::Respond));
    assert!(all_keys_present(&s.data));
}

#[test]
fn root_updates_for_different_pairs_commute() {
    let m1 = message(Some("CI"), Some("AL30"), Some(1.0), Some(2.0));
    let m2 = message(Some("24hs"), Some("AL30"), Some(3.0), Some(4.0));
    let mut a = QuoteBook::new();
    update_data(&mut a, &m1, 0.0);
    update_data(&mut a, &m2, 0.0);
    let mut b = QuoteBook::new();
    update_data(&mut b, &m2, 0.0);
    update_data(&mut b, &m1, 0.0);
    assert_eq!(snapshot(&a), snapshot(&b));
}

#[test]
fn root_book_complete_exactly_when_all_pairs_seen() {
    let mut book = QuoteBook::new();
    let pairs = [
        ("CI", "AL30"), ("CI", "AL30D"), ("CI", "GD30"), ("CI", "GD30D"),
        ("24hs", "AL30"), ("24hs", "AL30D"), ("24hs", "GD30"), ("24hs", "GD30D"),
    ];
    for (plazo, ticker) in &pairs[..7] {
        update_data(&mut book, &message(Some(plazo), Some(ticker), Some(1.0), Some(2.0)), 0.0);
        update_data(&mut book, &message(Some(plazo), Some(ticker), None, None), 0.0);
    }
    update_data(&mut book, &message(Some("24hs"), Some("gd30d"), Some(1.0), Some(2.0)), 0.0);
    update_data(&mut book, &message(Some("48hs"), Some("GD30D"), Some(1.0), Some(2.0)), 0.0);
    assert!(!all_keys_present(&book));
    update_data(&mut book, &message(Some("24hs"), Some("GD30D"), Some(1.0), Some(2.0)), 0.0);
    assert!(all_keys_present(&book));
}

#[test]
fn new_session_has_empty_book() {
    let s = RootSession::new("tok".to_string(), 0.0f64);
    assert!(snapshot(&s.data).iter().all(|q| q.is_none()));
    assert!(!s.in_attempt);
    assert_eq!(s.retries, 0);
}

#[test]
fn nonce_reply_is_parsed_in_the_library() {
    assert_eq!(
        nonce_of_init_reply("{\"nonce\":\"abc\",\"x\":1}"),
        Ok("\"abc\"".to_string())
    );
    assert_eq!(nonce_of_init_reply("{\"nonce\": 42}"), Ok("42".to_string()));
    assert_eq!(nonce_of_init_reply("{}"), Ok("null".to_string()));
    assert_eq!(nonce_of_init_reply("[1]"), Ok("null".to_string()));
    assert_eq!(nonce_of_init_reply("not json"), Err(String::new()));
    assert_eq!(nonce_of_init_reply(""), Err(String::new()));
    assert_eq!(login_after_init(None), Err(String::new()));
    assert_eq!(login_after_init(Some("7".to_string())), Ok("7".to_string()));
}

fn used(step: CellStep) -> Option<String> {
    match step {
        CellStep::Use(t) => Some(t),
        CellStep::Login => None,
    }
}

#[test]
fn token_cell_prefers_the_stored_copy_and_never_changes() {
    let mut cell = TokenCell::new();
    assert!(used(cell.step()).is_none());
    cell.offer_stored(Some("stored".to_string()));
    assert_eq!(used(cell.step()).as_deref(), Some("stored"));
    assert!(!cell.offer("later".to_string()));
    cell.offer_stored(Some("other".to_string()));
    assert_eq!(cell.value.as_deref(), Some("stored"));
}

#[test]
fn token_cell_logs_in_twice_when_the_first_login_is_empty() {
    let mut cell = TokenCell::new();
    assert!(used(cell.step()).is_none());
    assert!(used(cell.after_login(String::new())).is_none());
    assert_eq!(cell.value.as_deref(), Some(""));
    assert_eq!(used(cell.after_login("second".to_string())).as_deref(), Some("second"));
    assert_eq!(cell.value.as_deref(), Some(""));
    assert!(used(cell.step()).is_none());
}

#[test]
fn token_cell_keeps_a_temporary_error() {
    let mut cell = TokenCell::new();
    assert_eq!(
        used(cell.after_login("__TEMPORARY_ERROR__".to_string())).as_deref(),
        Some("__TEMPORARY_ERROR__")
    );
    cell.offer("fresh".to_string());
    let token = used(cell.step()).unwrap();
    assert_eq!(token, "__TEMPORARY_ERROR__");
    assert_eq!(unavailable_reply(&token).unwrap().status, 503);
}
