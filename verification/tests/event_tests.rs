use win_event_log::event::{
    Correlation, Data, Event, EventData, EventID, Execution, Keywords, Provider, RawEvent,
    RenderingInfo, Security, System, TimeCreated,
};

fn sample_system() -> System {
    System {
        provider: Provider {
            name: Some("Service Control Manager".to_string()),
            guid: Some("{555908d1-a6d7-4695-8e1e-26931d2012f4}".to_string()),
            event_source_name: Some("Service Control Manager".to_string()),
        },
        event_id: EventID { qualifiers: Some(16384), id: 7036 },
        version: 0,
        level: 4,
        task: 0,
        opcode: 0,
        keywords: "0x8080000000000000".to_string(),
        time_created: TimeCreated {
            system_time: Some("2021-06-01T12:00:00+02:00".to_string()),
            raw_time: None,
        },
        event_record_id: Some(12345),
        correlation: Correlation { activity_id: Some("{A}".to_string()), related_activity_id: None },
        execution: Execution {
            process_id: 636,
            thread_id: 712,
            processor_id: None,
            session_id: None,
            kernel_time: None,
            user_time: None,
            processor_time: None,
        },
        channel: "System".to_string(),
        computer: "HOST".to_string(),
        security: Security { user_id: Some("S-1-5-18".to_string()) },
    }
}

#[test]
fn flattening_copies_scalars_and_defaults() {
    let raw = RawEvent {
        system: sample_system(),
        event_data: None,
        user_data: None,
        rendering_info: None,
    };
    let e = Event::from_raw(raw);
    assert_eq!(e.event_id, 7036);
    assert_eq!(e.record_id, 12345);
    assert_eq!(e.computer_name, "HOST");
    assert_eq!(e.channel, "System");
    assert_eq!(e.process_id, 636);
    assert_eq!(e.thread_id, 712);
    assert_eq!(e.provider_name, "Service Control Manager");
    assert_eq!(e.provider_guid, "{555908d1-a6d7-4695-8e1e-26931d2012f4}");
    assert_eq!(e.source_name, "Service Control Manager");
    assert_eq!(e.activity_id, "{A}");
    assert_eq!(e.level, "");
    assert_eq!(e.opcode, "");
    assert_eq!(e.task, "");
    assert_eq!(e.message, "");
    assert!(e.keywords.is_empty());
    assert_eq!(e.user, vec![("identifier".to_string(), "S-1-5-18".to_string())]);
    assert!(e.event_data.is_empty());
    assert!(e.user_data.is_empty());
}

#[test]
fn timestamp_is_normalized_to_utc() {
    let raw = RawEvent {
        system: sample_system(),
        event_data: None,
        user_data: None,
        rendering_info: None,
    };
    let e = Event::from_raw(raw);
    assert_eq!(e.system_time.as_deref(), Some("2021-06-01T10:00:00+00:00"));
}

#[test]
fn unparsable_timestamp_stays_absent() {
    let mut sys = sample_system();
    sys.time_created.system_time = Some("yesterday at noon".to_string());
    let raw = RawEvent { system: sys, event_data: None, user_data: None, rendering_info: None };
    assert!(Event::from_raw(raw).system_time.is_none());

    let mut sys = sample_system();
    sys.time_created.system_time = None;
    let raw = RawEvent { system: sys, event_data: None, user_data: None, rendering_info: None };
    assert!(Event::from_raw(raw).system_time.is_none());
}

#[test]
fn absent_optionals_default_to_zero_and_empty() {
    let mut sys = sample_system();
    sys.event_record_id = None;
    sys.provider = Provider { name: None, guid: None, event_source_name: None };
    sys.correlation.activity_id = None;
    sys.security.user_id = None;
    let raw = RawEvent { system: sys, event_data: None, user_data: None, rendering_info: None };
    let e = Event::from_raw(raw);
    assert_eq!(e.record_id, 0);
    assert_eq!(e.provider_name, "");
    assert_eq!(e.provider_guid, "");
    assert_eq!(e.source_name, "");
    assert_eq!(e.activity_id, "");
    assert!(e.user.is_empty());
}

#[test]
fn rendering_info_fills_text_fields() {
    let raw = RawEvent {
        system: sample_system(),
        event_data: None,
        user_data: None,
        rendering_info: Some(RenderingInfo {
            message: "The service entered the running state.".to_string(),
            level: "Information".to_string(),
            opcode: "Info".to_string(),
            task: "None".to_string(),
            channel: "System".to_string(),
            provider: "Service Control Manager".to_string(),
            keywords: Keywords { keyword: Some(vec!["Classic".to_string()]) },
        }),
    };
    let e = Event::from_raw(raw);
    assert_eq!(e.level, "Information");
    assert_eq!(e.opcode, "Info");
    assert_eq!(e.task, "None");
    assert_eq!(e.message, "The service entered the running state.");
    assert_eq!(e.keywords, vec!["Classic".to_string()]);
}

#[test]
fn payload_data_flattens_with_param_names_and_binary() {
    let raw = RawEvent {
        system: sample_system(),
        event_data: Some(EventData {
            data: Some(vec![
                Data {
                    name: Some("param1".to_string()),
                    data_type: None,
                    value: Some("Windows Update".to_string()),
                },
                Data { name: None, data_type: None, value: Some("running".to_string()) },
                Data { name: Some("skipped".to_string()), data_type: None, value: None },
            ]),
            binary: Some("570069006E00".to_string()),
        }),
        user_data: None,
        rendering_info: None,
    };
    let e = Event::from_raw(raw);
    assert_eq!(
        e.event_data,
        vec![
            ("param1".to_string(), "Windows Update".to_string()),
            ("param1".to_string(), "running".to_string()),
            ("binary".to_string(), "570069006E00".to_string()),
        ]
    );
}

#[test]
fn user_data_groups_flatten_in_order() {
    let raw = RawEvent {
        system: sample_system(),
        event_data: None,
        user_data: Some(vec![
            ("G1".to_string(), vec![("a".to_string(), "1".to_string())]),
            (
                "G2".to_string(),
                vec![("b".to_string(), "2".to_string()), ("c".to_string(), "3".to_string())],
            ),
        ]),
        rendering_info: None,
    };
    let e = Event::from_raw(raw);
    assert_eq!(
        e.user_data,
        vec![
            ("a".to_string(), "1".to_string()),
            ("b".to_string(), "2".to_string()),
            ("c".to_string(), "3".to_string()),
        ]
    );
}
