use win_event_log::error::ErrorKind;
use win_event_log::reader::{
    fill_result, probe_size, resolve_poll, Config, EventTicket, InitFlow, Output, Reader,
    ERROR_INVALID_OPERATION, ERROR_NO_MORE_ITEMS, ERROR_TIMEOUT, EVT_SUBSCRIBE_START_AFTER_BOOKMARK,
    EVT_SUBSCRIBE_START_AT_OLDEST_RECORD, EVT_SUBSCRIBE_TO_FUTURE_EVENTS,
};

#[test]
fn poll_success_yields_event_handle() {
    let r = resolve_poll(true, 42, None, "");
    assert_eq!(r.unwrap(), 42);
}

#[test]
fn benign_poll_codes_yield_no_more_logs() {
    for code in [None, Some(ERROR_TIMEOUT), Some(ERROR_NO_MORE_ITEMS), Some(ERROR_INVALID_OPERATION)]
    {
        let e = resolve_poll(false, 0, code, "whatever").unwrap_err();
        assert_eq!(e.kind, ErrorKind::NoMoreLogs);
        assert_eq!(e.message, "");
    }
}

#[test]
fn other_poll_codes_are_fatal_subscription_errors() {
    let e = resolve_poll(false, 0, Some(5), "access denied").unwrap_err();
    assert_eq!(e.kind, ErrorKind::Subscription);
    assert_eq!(e.message, "error getting next windows logs event - (access denied)");
}

#[test]
fn probe_accepts_insufficient_buffer_and_silence() {
    assert_eq!(probe_size(Some(122), 64, "").unwrap(), 64);
    assert_eq!(probe_size(None, 7, "").unwrap(), 7);
}

#[test]
fn probe_rejects_other_codes() {
    let e = probe_size(Some(87), 64, "bad parameter").unwrap_err();
    assert_eq!(e.kind, ErrorKind::Event);
    assert_eq!(e.message, "unable to render event - (bad parameter)");
}

#[test]
fn fill_decodes_utf16_and_trims_null_padding() {
    let mut buf: Vec<u16> = "abc".encode_utf16().collect();
    buf.push(0);
    buf.push(0);
    assert_eq!(fill_result(true, &buf, "").unwrap(), "abc");
}

#[test]
fn fill_failure_is_event_error() {
    let buf: Vec<u16> = Vec::new();
    let e = fill_result(false, &buf, "boom").unwrap_err();
    assert_eq!(e.kind, ErrorKind::Event);
    assert_eq!(e.message, "unable to render event - (boom)");
}

#[test]
fn start_flag_follows_mode_and_bookmark() {
    let f = InitFlow::begin(false);
    assert_eq!(f.start_flag(), EVT_SUBSCRIBE_TO_FUTURE_EVENTS);
    let f = InitFlow::begin(true);
    assert_eq!(f.start_flag(), EVT_SUBSCRIBE_START_AT_OLDEST_RECORD);
    let mut f = InitFlow::begin(true);
    f.bookmark_materialized(7);
    assert_eq!(f.start_flag(), EVT_SUBSCRIBE_START_AFTER_BOOKMARK);
}

#[test]
fn failed_bookmark_materialization_keeps_requested_mode() {
    let mut f = InitFlow::begin(false);
    f.bookmark_materialized(0);
    assert_eq!(f.start_flag(), EVT_SUBSCRIBE_TO_FUTURE_EVENTS);
    assert!(f.needs_fresh_bookmark());
}

#[test]
fn signal_failure_is_fatal() {
    let mut f = InitFlow::begin(false);
    f.bookmark_materialized(9);
    let e = f.signal_created(0, "no handles").unwrap_err();
    assert_eq!(e.kind, ErrorKind::Subscription);
    assert_eq!(e.message, "unable to create signal - (no handles)");
    // the materialized bookmark is still released
    assert_eq!(f.teardown(), vec![9]);
}

#[test]
fn subscribe_failure_releases_signal_first() {
    let mut f = InitFlow::begin(false);
    f.bookmark_materialized(0);
    f.signal_created(11, "").unwrap();
    let e = f.subscription_opened(0, "rpc unavailable").unwrap_err();
    assert_eq!(e.kind, ErrorKind::Subscription);
    assert_eq!(e.message, "unable to create events subscription - (rpc unavailable)");
    assert_eq!(f.teardown(), vec![11]);
}

#[test]
fn fresh_bookmark_failure_is_fatal() {
    let mut f = InitFlow::begin(false);
    f.bookmark_materialized(0);
    f.signal_created(11, "").unwrap();
    f.subscription_opened(22, "").unwrap();
    assert!(f.needs_fresh_bookmark());
    let e = f.fresh_bookmark_created(0, "out of memory").unwrap_err();
    assert_eq!(e.kind, ErrorKind::Subscription);
    assert_eq!(e.message, "unable to create default bookmark handle - (out of memory)");
    assert_eq!(f.teardown(), vec![11, 22]);
}

#[test]
fn successful_init_owns_all_three_resources() {
    let mut f = InitFlow::begin(false);
    f.bookmark_materialized(0);
    f.signal_created(11, "").unwrap();
    f.subscription_opened(22, "").unwrap();
    f.fresh_bookmark_created(33, "").unwrap();
    let r = f.into_reader(Output::Xml);
    assert_eq!(r.signal, 11);
    assert_eq!(r.subscription, 22);
    assert_eq!(r.bookmark, 33);
    assert!(matches!(r.output, Output::Xml));
}

#[test]
fn teardown_releases_in_fixed_order_and_is_idempotent() {
    let mut r = Reader { signal: 11, subscription: 22, bookmark: 33, output: Output::Parsed };
    assert_eq!(r.teardown(), vec![11, 22, 33]);
    assert_eq!(r.teardown(), Vec::<i64>::new());
    assert_eq!(r.teardown(), Vec::<i64>::new());
}

#[test]
fn teardown_skips_resources_never_created() {
    let mut r = Reader { signal: 0, subscription: 0, bookmark: 33, output: Output::Parsed };
    assert_eq!(r.teardown(), vec![33]);
    let mut r = Reader { signal: 11, subscription: 0, bookmark: 0, output: Output::Parsed };
    assert_eq!(r.teardown(), vec![11]);
    let mut r = Reader { signal: 0, subscription: 0, bookmark: 0, output: Output::Parsed };
    assert_eq!(r.teardown(), Vec::<i64>::new());
}

#[test]
fn event_ticket_requires_bookmark_advance_before_delivery() {
    let mut t = EventTicket::from_poll(77);
    assert!(!t.deliverable());
    let e = t.bookmark_advanced(false, "stale handle").unwrap_err();
    assert_eq!(e.kind, ErrorKind::Event);
    assert_eq!(e.message, "unable to update bookmark - (stale handle)");
    assert!(!t.deliverable());

    let mut t = EventTicket::from_poll(78);
    t.bookmark_advanced(true, "").unwrap();
    assert!(t.deliverable());
    assert_eq!(t.handle, 78);
}

#[test]
fn default_reader_config_tails_standard_channels() {
    let c = Config::default();
    assert!(!c.read_oldest);
    assert!(c.bookmark.is_none());
    assert!(matches!(c.output, Output::Parsed));
    assert!(c.query.contains("<QueryList>"));
    assert!(c.query.contains("<Select Path='Application'>*</Select>"));
    assert!(c.query.contains("<Select Path='Security'>*</Select>"));
    assert!(c.query.contains("<Select Path='System'>*</Select>"));
}
