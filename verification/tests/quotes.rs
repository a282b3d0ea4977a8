use mep_bot::quotes::{
    all_keys_present, apply_quote, key_index, key_name, update_data, QuoteBook, QuoteMessage,
    KEY_COUNT,
};

fn message(plazo: Option<&str>, ticker: Option<&str>, pv: Option<f64>, pc: Option<f64>) -> QuoteMessage<f64> {
    QuoteMessage {
        plazo: plazo.map(|s| s.to_string()),
        ticker: ticker.map(|s| s.to_string()),
        pv,
        pc,
    }
}

fn snapshot(book: &QuoteBook<f64>) -> Vec<Option<f64>> {
    (0..KEY_COUNT).map(|i| book.get(i)).collect()
}

#[test]
fn key_table_lists_the_sixteen_quotes() {
    let names: Vec<&str> = (0..KEY_COUNT).map(key_name).collect();
    assert_eq!(
        names,
        vec![
            "al30_ask", "al30_bid", "al30d_ask", "al30d_bid",
            "gd30_ask", "gd30_bid", "gd30d_ask", "gd30d_bid",
            "al30_ask_24hs", "al30_bid_24hs", "al30d_ask_24hs", "al30d_bid_24hs",
            "gd30_ask_24hs", "gd30_bid_24hs", "gd30d_ask_24hs", "gd30d_bid_24hs",
        ]
    );
}

#[test]
fn key_index_finds_every_key_and_nothing_else() {
    for i in 0..KEY_COUNT {
        assert_eq!(key_index(key_name(i)), Some(i));
    }
    assert_eq!(key_index("al30_ask_48hs"), None);
    assert_eq!(key_index("AL30_ask"), None);
    assert_eq!(key_index(""), None);
}

#[test]
fn new_book_is_empty() {
    let book: QuoteBook<f64> = QuoteBook::new();
    assert!(snapshot(&book).iter().all(|q| q.is_none()));
    assert!(!all_keys_present(&book));
}

#[test]
fn spot_quote_is_stored_under_lower_case_names() {
    let mut book = QuoteBook::new();
    update_data(&mut book, &message(Some("CI"), Some("AL30"), Some(1000.5), Some(999.25)));
    let mut expected = vec![None; KEY_COUNT];
    expected[0] = Some(1000.5);
    expected[1] = Some(999.25);
    assert_eq!(snapshot(&book), expected);
}

#[test]
fn next_day_quote_gets_the_suffix() {
    let mut book = QuoteBook::new();
    update_data(&mut book, &message(Some("24hs"), Some("gd30D"), Some(7.0), Some(6.0)));
    let mut expected = vec![None; KEY_COUNT];
    expected[14] = Some(7.0);
    expected[15] = Some(6.0);
    assert_eq!(snapshot(&book), expected);
}

#[test]
fn other_terms_and_tickers_are_ignored() {
    let mut book = QuoteBook::new();
    update_data(&mut book, &message(Some("48hs"), Some("AL30"), Some(1.0), Some(2.0)));
    update_data(&mut book, &message(Some("CI"), Some("AL35"), Some(1.0), Some(2.0)));
    update_data(&mut book, &message(Some("ci"), Some("AL30"), Some(1.0), Some(2.0)));
    assert!(snapshot(&book).iter().all(|q| q.is_none()));
}

#[test]
fn message_missing_a_field_is_ignored() {
    let mut book = QuoteBook::new();
    update_data(&mut book, &message(None, Some("AL30"), Some(1.0), Some(2.0)));
    update_data(&mut book, &message(Some("CI"), None, Some(1.0), Some(2.0)));
    update_data(&mut book, &message(Some("CI"), Some("AL30"), None, Some(2.0)));
    update_data(&mut book, &message(Some("CI"), Some("AL30"), Some(1.0), None));
    assert!(snapshot(&book).iter().all(|q| q.is_none()));
}

#[test]
fn later_quote_replaces_earlier_and_keeps_others() {
    let mut book = QuoteBook::new();
    update_data(&mut book, &message(Some("CI"), Some("GD30"), Some(1.0), Some(2.0)));
    update_data(&mut book, &message(Some("CI"), Some("AL30D"), Some(3.0), Some(4.0)));
    update_data(&mut book, &message(Some("CI"), Some("GD30"), Some(5.0), Some(6.0)));
    assert_eq!(book.get(4), Some(5.0));
    assert_eq!(book.get(5), Some(6.0));
    assert_eq!(book.get(2), Some(3.0));
    assert_eq!(book.get(3), Some(4.0));
}

#[test]
fn lowered_ticker_is_required_by_apply_quote() {
    let mut book = QuoteBook::new();
    apply_quote(&mut book, "CI", "AL30", 1.0, 2.0);
    assert!(snapshot(&book).iter().all(|q| q.is_none()));
    apply_quote(&mut book, "CI", "al30", 1.0, 2.0);
    assert_eq!(book.get(0), Some(1.0));
}

#[test]
fn all_keys_present_once_every_bond_and_term_arrived() {
    let mut book = QuoteBook::new();
    let mut count = 0;
    for plazo in ["CI", "24hs"] {
        for ticker in ["AL30", "AL30D", "GD30", "GD30D"] {
            assert!(!all_keys_present(&book));
            update_data(&mut book, &message(Some(plazo), Some(ticker), Some(1.0), Some(2.0)));
            count += 1;
        }
    }
    assert_eq!(count, 8);
    assert!(all_keys_present(&book));
    update_data(&mut book, &message(Some("CI"), Some("AL30"), Some(9.0), Some(8.0)));
    assert!(all_keys_present(&book));
}

#[test]
fn insert_ignores_names_not_collected() {
    let mut book = QuoteBook::new();
    book.insert("al30", 1.0);
    assert!(snapshot(&book).iter().all(|q| q.is_none()));
    book.insert("gd30_bid_24hs", 1.5);
    assert_eq!(book.get(13), Some(1.5));
}

#[test]
fn quote_updates_for_different_pairs_commute() {
    let m1 = message(Some("CI"), Some("GD30"), Some(1.0), Some(2.0));
    let m2 = message(Some("CI"), Some("gd30d"), Some(3.0), Some(4.0));
    let mut a = QuoteBook::new();
    update_data(&mut a, &m1);
    update_data(&mut a, &m2);
    let mut b = QuoteBook::new();
    update_data(&mut b, &m2);
    update_data(&mut b, &m1);
    assert_eq!(snapshot(&a), snapshot(&b));
    assert_eq!(a.get(6), Some(3.0));
}
