use win_event_log::error::{Error, ErrorKind};
use win_event_log::text::{
    find_from, has_prefix_at, parse_u32, split_str, starts_with_dash, trim_dashes, trim_nulls,
    u32_to_dec, u64_to_dec,
};
use win_event_log::xmlscan::parse_provider_name;

#[test]
fn decimal_rendering() {
    assert_eq!(u64_to_dec(0), "0");
    assert_eq!(u64_to_dec(7), "7");
    assert_eq!(u64_to_dec(10), "10");
    assert_eq!(u64_to_dec(12345), "12345");
    assert_eq!(u64_to_dec(u64::MAX), "18446744073709551615");
    assert_eq!(u32_to_dec(4294967295), "4294967295");
}

#[test]
fn integer_parsing_follows_std() {
    assert_eq!(parse_u32("0"), Some(0));
    assert_eq!(parse_u32("16384"), Some(16384));
    assert_eq!(parse_u32("+12"), Some(12));
    assert_eq!(parse_u32("4294967295"), Some(4294967295));
    assert_eq!(parse_u32("4294967296"), None);
    assert_eq!(parse_u32(""), None);
    assert_eq!(parse_u32("+"), None);
    assert_eq!(parse_u32("-1"), None);
    assert_eq!(parse_u32("1a"), None);
    assert_eq!(parse_u32(" 1"), None);
    assert_eq!(parse_u32("99999999999999999999"), None);
}

#[test]
fn splitting_keeps_empty_segments() {
    let parts = split_str("1,16384,-3433,100-200", ',');
    assert_eq!(parts, vec!["1", "16384", "-3433", "100-200"]);
    assert_eq!(split_str("", ','), vec![""]);
    assert_eq!(split_str("a,,b", ','), vec!["a", "", "b"]);
    assert_eq!(split_str(",", ','), vec!["", ""]);
    assert_eq!(split_str("100-200", '-'), vec!["100", "200"]);
    assert_eq!(split_str("1-2-3", '-'), vec!["1", "2", "3"]);
}

#[test]
fn dash_handling() {
    assert!(starts_with_dash("-3"));
    assert!(!starts_with_dash("3"));
    assert!(!starts_with_dash(""));
    assert_eq!(trim_dashes("-3433"), "3433");
    assert_eq!(trim_dashes("--5"), "5");
    assert_eq!(trim_dashes("5"), "5");
    assert_eq!(trim_dashes("---"), "");
}

#[test]
fn null_trimming() {
    assert_eq!(trim_nulls("\0\0ab\0"), "ab");
    assert_eq!(trim_nulls("ab"), "ab");
    assert_eq!(trim_nulls("\0\0\0"), "");
    assert_eq!(trim_nulls(""), "");
    assert_eq!(trim_nulls("a\0b"), "a\0b");
}

#[test]
fn substring_search() {
    assert!(has_prefix_at("abcdef", 2, "cde"));
    assert!(!has_prefix_at("abcdef", 2, "cdx"));
    assert!(!has_prefix_at("abc", 2, "cde"));
    assert_eq!(find_from("abcabc", 0, "bc"), Some(1));
    assert_eq!(find_from("abcabc", 2, "bc"), Some(4));
    assert_eq!(find_from("abcabc", 0, "zz"), None);
    assert_eq!(find_from("abc", 0, ""), Some(0));
}

#[test]
fn error_messages_combine_description_and_os_text() {
    let e = Error::event("unable to update bookmark", "handle is closed");
    assert_eq!(e.kind, ErrorKind::Event);
    assert_eq!(e.message, "unable to update bookmark - (handle is closed)");
    let e = Error::subscription("unable to create signal", "code 5");
    assert_eq!(e.kind, ErrorKind::Subscription);
    assert_eq!(e.message, "unable to create signal - (code 5)");
    let e = Error::no_more_logs();
    assert_eq!(e.kind, ErrorKind::NoMoreLogs);
    assert_eq!(e.message, "");
}

#[test]
fn error_kind_descriptions() {
    assert_eq!(ErrorKind::Event.describe(), "event error");
    assert_eq!(ErrorKind::Subscription.describe(), "event subscription error");
    assert_eq!(ErrorKind::NoMoreLogs.describe(), "no more logs to pull");
}

#[test]
fn error_display_text_prefers_the_message() {
    assert_eq!(Error::event("m", "os").display_text(), "m - (os)");
    assert_eq!(Error::subscription("m", "os").display_text(), "m - (os)");
    assert_eq!(Error::no_more_logs().display_text(), "no more logs to pull");
}

#[test]
fn provider_name_from_rendered_event() {
    let xml = "<Event xmlns='http://schemas.microsoft.com/win/2004/08/events/event'><System><Provider Name='Service Control Manager' Guid='{555908d1-a6d7-4695-8e1e-26931d2012f4}' EventSourceName='Service Control Manager'/><EventID Qualifiers='16384'>7036</EventID></System></Event>";
    assert_eq!(parse_provider_name(xml).as_deref(), Some("Service Control Manager"));
}

#[test]
fn provider_name_double_quoted_and_unescaped() {
    let xml = "<Event><System><Provider Name=\"A &amp; B &lt;svc&gt;\" Guid=\"{1}\"/></System></Event>";
    assert_eq!(parse_provider_name(xml).as_deref(), Some("A & B <svc>"));
    let xml = "<Event><Provider Name='it&apos;s &quot;here&quot;'/></Event>";
    assert_eq!(parse_provider_name(xml).as_deref(), Some("it's \"here\""));
}

#[test]
fn provider_name_absent_cases() {
    assert_eq!(parse_provider_name("<Event><System></System></Event>"), None);
    // a provider start tag that is not self-closing is skipped, and here
    // no self-closing provider element follows
    assert_eq!(parse_provider_name("<Event><Provider Name='X'>text</Provider></Event>"), None);
    // no name attribute
    assert_eq!(parse_provider_name("<Event><Provider Guid='{1}'/></Event>"), None);
    // an attribute merely ending in the same letters is not the name
    assert_eq!(parse_provider_name("<Event><Provider EventSourceName='X'/></Event>"), None);
}

#[test]
fn provider_scan_skips_non_self_closing_tags() {
    let xml = "<Provider a='1'>x</Provider><Provider Name='b'/>";
    assert_eq!(parse_provider_name(xml).as_deref(), Some("b"));
    let xml = "<Event><Provider Name='skipped'>inner</Provider><Other/><Provider Name='taken' Guid='{2}'/></Event>";
    assert_eq!(parse_provider_name(xml).as_deref(), Some("taken"));
}

#[test]
fn provider_scan_skips_name_inside_quoted_values() {
    let xml = "<Provider X=\"foo Name='y'\" Name='real'/>";
    assert_eq!(parse_provider_name(xml).as_deref(), Some("real"));
    let xml = "<Provider X='foo Name=\"y\"' Name=\"real\"/>";
    assert_eq!(parse_provider_name(xml).as_deref(), Some("real"));
    // only a quoted-value impostor, no real name attribute
    assert_eq!(parse_provider_name("<Provider X=\"foo Name='y'\"/>"), None);
}
