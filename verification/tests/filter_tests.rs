use win_event_log::filter::{
    build_exclude_event_id, build_event_id, build_ignore_old, build_include_event_id, build_level,
    build_provider, build_query, has_exclusions, Config, Level,
};

fn bare(channel: &str) -> Config {
    Config {
        channel: channel.to_string(),
        level: None,
        event_id: None,
        ignore_older: None,
        provider: None,
    }
}

#[test]
fn level_values() {
    assert_eq!(Level::LogAlways.value(), "Level=0");
    assert_eq!(Level::Critical.value(), "Level=1");
    assert_eq!(Level::Error.value(), "Level=2");
    assert_eq!(Level::Warning.value(), "Level=3");
    assert_eq!(Level::Information.value(), "Level=4");
    assert_eq!(Level::Verbose.value(), "Level=5");
}

#[test]
fn information_widens_to_log_always() {
    assert_eq!(build_level(&vec![Level::Information]), "(Level=4 or Level=0)");
    assert_eq!(
        build_level(&vec![Level::Critical, Level::Information]),
        "(Level=1 or Level=4 or Level=0)"
    );
}

#[test]
fn error_alone_does_not_widen() {
    assert_eq!(build_level(&vec![Level::Error]), "(Level=2)");
    assert_eq!(build_level(&vec![Level::Error, Level::Warning]), "(Level=2 or Level=3)");
}

#[test]
fn log_always_selected_explicitly() {
    assert_eq!(build_level(&vec![Level::LogAlways]), "(Level=0)");
}

#[test]
fn provider_disjunction() {
    assert_eq!(
        build_provider(&vec!["Ntfs".to_string(), "Disk".to_string()]),
        "Provider[@Name='Ntfs' or @Name='Disk']"
    );
    assert_eq!(build_provider(&vec!["X".to_string()]), "Provider[@Name='X']");
}

#[test]
fn age_clause_in_milliseconds() {
    assert_eq!(build_ignore_old(86400), "TimeCreated[timediff(@SystemTime) &lt;= 86400000]");
    assert_eq!(build_ignore_old(0), "TimeCreated[timediff(@SystemTime) &lt;= 0]");
}

#[test]
fn selector_inclusions_and_exclusions() {
    let sel = "1,16384,-3433,100-200,-300-400";
    assert_eq!(
        build_include_event_id(sel),
        "(EventID=1 or EventID=16384 or (EventID &gt;= 100 and EventID &lt;= 200))"
    );
    assert_eq!(
        build_exclude_event_id(sel),
        "(EventID=3433 or (EventID &gt;= 300 and EventID &lt;= 400))"
    );
    assert!(has_exclusions(sel));
    assert!(!has_exclusions("1,2,100-200"));
}

#[test]
fn inverted_and_malformed_ranges_dropped() {
    assert_eq!(build_include_event_id("200-100"), "()");
    assert_eq!(build_include_event_id("5-5"), "()");
    assert_eq!(build_include_event_id("abc,12x,1-2-3"), "()");
    assert_eq!(build_include_event_id("7,abc"), "(EventID=7)");
    assert_eq!(build_exclude_event_id("-200-100,-abc"), "()");
}

#[test]
fn plus_prefix_parses_as_integer() {
    assert_eq!(build_event_id(vec!["+9"]), "(EventID=9)");
    assert_eq!(build_event_id(vec!["4294967295"]), "(EventID=4294967295)");
    assert_eq!(build_event_id(vec!["4294967296"]), "()");
}

#[test]
fn bare_spec_selects_all_without_suppress() {
    let q = build_query(vec![bare("Application")]);
    assert_eq!(
        q,
        "<QueryList><Query Id=\"0\"><Select Path=\"Application\">*</Select></Query></QueryList>"
    );
    assert!(!q.contains("Suppress"));
}

#[test]
fn two_channels_compile_independently() {
    let q = build_query(vec![bare("Application"), bare("Security")]);
    assert_eq!(
        q,
        "<QueryList><Query Id=\"0\"><Select Path=\"Application\">*</Select><Select Path=\"Security\">*</Select></Query></QueryList>"
    );
}

#[test]
fn full_spec_compiles_exactly() {
    let c = Config {
        channel: "Application".to_string(),
        level: Some(vec![Level::Information]),
        event_id: Some("1,16384,-3433,100-200,-300-400".to_string()),
        ignore_older: Some(86400),
        provider: Some(vec!["Ntfs".to_string(), "Disk".to_string()]),
    };
    let q = build_query(vec![c]);
    let expected = String::new() + "<QueryList><Query Id=\"0\">"
        + "<Select Path=\"Application\">*[System["
        + "Provider[@Name='Ntfs' or @Name='Disk']"
        + " and (Level=4 or Level=0)"
        + " and (EventID=1 or EventID=16384 or (EventID &gt;= 100 and EventID &lt;= 200))"
        + " and TimeCreated[timediff(@SystemTime) &lt;= 86400000]"
        + "]]</Select>"
        + "<Suppress Path=\"Application\">*[System["
        + "(EventID=3433 or (EventID &gt;= 300 and EventID &lt;= 400))"
        + "]]</Suppress>"
        + "</Query></QueryList>";
    assert_eq!(q, expected);
}

#[test]
fn inclusion_clause_kept_even_when_only_exclusions() {
    let c = Config {
        channel: "C".to_string(),
        level: None,
        event_id: Some("-3".to_string()),
        ignore_older: None,
        provider: None,
    };
    let q = build_query(vec![c]);
    assert_eq!(
        q,
        "<QueryList><Query Id=\"0\"><Select Path=\"C\">*[System[()]]</Select><Suppress Path=\"C\">*[System[(EventID=3)]]</Suppress></Query></QueryList>"
    );
}

#[test]
fn no_suppress_without_exclusion_entries() {
    let c = Config {
        channel: "C".to_string(),
        level: None,
        event_id: Some("5".to_string()),
        ignore_older: None,
        provider: None,
    };
    let q = build_query(vec![c]);
    assert_eq!(
        q,
        "<QueryList><Query Id=\"0\"><Select Path=\"C\">*[System[(EventID=5)]]</Select></Query></QueryList>"
    );
}

#[test]
fn compile_is_deterministic() {
    let make = || {
        vec![
            Config {
                channel: "Application".to_string(),
                level: Some(vec![Level::Warning, Level::Information]),
                event_id: Some("1,-2,3-9".to_string()),
                ignore_older: Some(60),
                provider: Some(vec!["P".to_string()]),
            },
            bare("Security"),
        ]
    };
    assert_eq!(build_query(make()), build_query(make()));
}

#[test]
fn empty_filter_list_compiles_to_empty_query() {
    assert_eq!(build_query(vec![]), "<QueryList><Query Id=\"0\"></Query></QueryList>");
}

#[test]
fn default_config_is_empty() {
    let c = Config::default();
    assert_eq!(c.channel, "");
    assert!(c.level.is_none());
    assert!(c.event_id.is_none());
    assert!(c.ignore_older.is_none());
    assert!(c.provider.is_none());
}
