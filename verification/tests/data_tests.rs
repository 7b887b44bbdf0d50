use options_scanner::data::earnings::EarningsTable;
use options_scanner::alerts::{webhook_kind, WebhookKind};
use options_scanner::data::rate_limit::permits_per_second;
use options_scanner::data::earnings::earnings_date_of_reply;
use options_scanner::data::retry::{classify_status, CallStep, ResponseClass, RetryState};
use options_scanner::data::tradier::{base_url, parse_option_type, OneOrMany};
use options_scanner::data::yahoo::{url_with_crumb, valid_crumb};
use options_scanner::types::OptionType;

#[test]
fn one_or_many_into_vec() {
    assert_eq!(OneOrMany::One(5).into_vec(), vec![5]);
    assert_eq!(OneOrMany::Many(vec![1, 2, 3]).into_vec(), vec![1, 2, 3]);
    assert!(OneOrMany::<u8>::Many(vec![]).into_vec().is_empty());
}

#[test]
fn tradier_option_types() {
    assert_eq!(parse_option_type("call"), Some(OptionType::Call));
    assert_eq!(parse_option_type("put"), Some(OptionType::Put));
    assert_eq!(parse_option_type("Call"), None);
    assert_eq!(parse_option_type(""), None);
    assert_eq!(base_url(true), "https://sandbox.tradier.com");
    assert_eq!(base_url(false), "https://api.tradier.com");
}

#[test]
fn statuses_are_classified() {
    assert_eq!(classify_status(200, false), ResponseClass::Success);
    assert_eq!(classify_status(299, true), ResponseClass::Success);
    assert_eq!(classify_status(401, true), ResponseClass::Unauthorized);
    assert_eq!(classify_status(403, false), ResponseClass::Fatal);
    assert_eq!(classify_status(429, false), ResponseClass::Retryable);
    assert_eq!(classify_status(503, true), ResponseClass::Retryable);
    assert_eq!(classify_status(404, true), ResponseClass::Fatal);
}

#[test]
fn three_attempts_with_growing_pauses() {
    let mut st = RetryState::new();
    assert_eq!(st.next_attempt(), CallStep::SendAfter(0));
    assert_eq!(st.next_attempt(), CallStep::SendAfter(1000));
    assert_eq!(st.next_attempt(), CallStep::SendAfter(1500));
    assert_eq!(st.next_attempt(), CallStep::GiveUp);
    assert_eq!(st.next_attempt(), CallStep::GiveUp);
}

#[test]
fn reply_steps() {
    let mut st = RetryState::new();
    assert_eq!(st.next_attempt(), CallStep::SendAfter(0));
    assert_eq!(st.after_status(200, true), CallStep::Deliver);
    assert_eq!(st.after_status(404, true), CallStep::Fail);
    assert_eq!(st.after_status(401, true), CallStep::SignInAndResend);
    assert_eq!(st.after_status(401, false), CallStep::Fail);
    assert_eq!(st.attempts, 1);
    assert_eq!(st.after_resend(403), CallStep::SendAfter(1000));
    assert_eq!(st.after_status(503, false), CallStep::SendAfter(1500));
    assert_eq!(st.after_resend(204), CallStep::Deliver);
    assert_eq!(st.after_error(), CallStep::GiveUp);
    assert_eq!(st.after_status(429, true), CallStep::GiveUp);
    assert_eq!(st.attempts, 3);
}

#[test]
fn earnings_replies() {
    let reply = r#"{"quoteSummary":{"result":[{"calendarEvents":{"earnings":{"earningsDate":[1726839000,1727000000]}}}],"error":null}}"#;
    assert_eq!(earnings_date_of_reply(reply), Some(739_149));
    assert_eq!(earnings_date_of_reply("not json"), None);
    assert_eq!(earnings_date_of_reply(r#"{"quoteSummary":{"result":[]}}"#), None);
    let empty = r#"{"quoteSummary":{"result":[{"calendarEvents":{"earnings":{"earningsDate":[]}}}]}}"#;
    assert_eq!(earnings_date_of_reply(empty), None);
    let not_int = r#"{"quoteSummary":{"result":[{"calendarEvents":{"earnings":{"earningsDate":["x"]}}}]}}"#;
    assert_eq!(earnings_date_of_reply(not_int), None);
    // Objects with a member "0" are not lists.
    let object_result = r#"{"quoteSummary":{"result":{"0":{"calendarEvents":{"earnings":{"earningsDate":[1726839000]}}}}}}"#;
    assert_eq!(earnings_date_of_reply(object_result), None);
    let object_dates = r#"{"quoteSummary":{"result":[{"calendarEvents":{"earnings":{"earningsDate":{"0":1726839000}}}}]}}"#;
    assert_eq!(earnings_date_of_reply(object_dates), None);
}

#[test]
fn rates_round_up() {
    assert_eq!(permits_per_second(0), 1);
    assert_eq!(permits_per_second(120), 1);
    assert_eq!(permits_per_second(2000), 1);
    assert_eq!(permits_per_second(3600), 1);
    assert_eq!(permits_per_second(3601), 2);
    assert_eq!(permits_per_second(u32::MAX), 1_193_047);
    for n in [0u32, 1, 3599, 3600, 3601, 7200, 10_000, u32::MAX] {
        let f = ((n as f64 / 3600.0).ceil() as u32).max(1);
        assert_eq!(permits_per_second(n), f);
    }
}

#[test]
fn crumbs() {
    assert_eq!(valid_crumb("  abc.DEF/1\n"), Some("abc.DEF/1".to_string()));
    assert_eq!(valid_crumb(" \t\n"), None);
    assert_eq!(valid_crumb("{\"error\":1}"), None);
    assert_eq!(url_with_crumb("https://x/y", "C"), "https://x/y?crumb=C");
    assert_eq!(url_with_crumb("https://x/y?date=1", "C"), "https://x/y?date=1&crumb=C");
}

#[test]
fn webhooks() {
    assert_eq!(webhook_kind("https://discord.com/api/webhooks/1"), WebhookKind::Discord);
    assert_eq!(webhook_kind("https://api.telegram.org/bot1/sendMessage"), WebhookKind::Telegram);
    assert_eq!(webhook_kind("https://hooks.example.com/a"), WebhookKind::Generic);
}

#[test]
fn earnings_table_reads_back_writes() {
    let mut t = EarningsTable::new();
    assert_eq!(t.get("AAPL"), None);
    t.set("AAPL", Some(739_500));
    t.set("MSFT", None);
    assert_eq!(t.get("AAPL"), Some(Some(739_500)));
    assert_eq!(t.get("MSFT"), Some(None));
    t.set("AAPL", None);
    assert_eq!(t.get("AAPL"), Some(None));
    assert_eq!(t.get("TSLA"), None);
}
