//! The typed event record mirroring the native event schema, and its
//! flattening into a normalized record of plain key/value fields.
//!
//! Key/value collections are association lists of string pairs; their
//! mathematical content is the map built by inserting the pairs in order,
//! so a later pair with the same key wins, as it would in a hash map.

use vstd::prelude::*;

use crate::text::{dec_str, u64_to_dec};

verus! {

/// One delivered event, in the output representation the reader was
/// configured with: the raw XML text, the typed record, the flattened
/// normalized record, or the serialized text document.
#[derive(Debug, PartialEq)]
pub enum WinLogEvent {
    Xml(String),
    Raw(RawEvent),
    Parsed(Event),
    Json(String),
}

/// The typed record: the event's metadata, payload data, user-defined
/// payload, and rendering-derived text.
#[derive(Debug, PartialEq)]
pub struct RawEvent {
    pub system: System,
    pub event_data: Option<EventData>,
    pub user_data: Option<Vec<(String, UserData)>>,
    pub rendering_info: Option<RenderingInfo>,
}

/// A user-defined payload group: its key/value pairs in document order.
pub type UserData = Vec<(String, String)>;

/// The event's system metadata.
#[derive(Debug, PartialEq)]
pub struct System {
    pub provider: Provider,
    pub event_id: EventID,
    pub version: u8,
    pub level: u8,
    pub task: u16,
    pub opcode: u8,
    pub keywords: String,
    pub time_created: TimeCreated,
    pub event_record_id: Option<u64>,
    pub correlation: Correlation,
    pub execution: Execution,
    pub channel: String,
    pub computer: String,
    pub security: Security,
}

/// When the event was created: the timestamp text, or a raw tick count.
#[derive(Debug, PartialEq)]
pub struct TimeCreated {
    pub system_time: Option<String>,
    pub raw_time: Option<u64>,
}

/// The security identity the event was recorded under.
#[derive(Debug, PartialEq)]
pub struct Security {
    pub user_id: Option<String>,
}

/// The identified source component that emitted the event.
#[derive(Debug, PartialEq)]
pub struct Provider {
    pub name: Option<String>,
    pub guid: Option<String>,
    pub event_source_name: Option<String>,
}

/// The event's numeric identifier, with its legacy qualifiers.
#[derive(Debug, PartialEq)]
pub struct EventID {
    pub qualifiers: Option<u16>,
    pub id: u32,
}

/// Correlation across related events.
#[derive(Debug, PartialEq)]
pub struct Correlation {
    pub activity_id: Option<String>,
    pub related_activity_id: Option<String>,
}

/// The execution context that recorded the event.
#[derive(Debug, PartialEq)]
pub struct Execution {
    pub process_id: u32,
    pub thread_id: u32,
    pub processor_id: Option<u8>,
    pub session_id: Option<u32>,
    pub kernel_time: Option<u32>,
    pub user_time: Option<u32>,
    pub processor_time: Option<u32>,
}

/// The structured payload: named data items and an optional binary blob.
#[derive(Debug, PartialEq)]
pub struct EventData {
    pub data: Option<Vec<Data>>,
    pub binary: Option<String>,
}

/// One payload data item.
#[derive(Debug, PartialEq)]
pub struct Data {
    pub name: Option<String>,
    pub data_type: Option<String>,
    pub value: Option<String>,
}

/// Rendering-derived text: the expanded message and display names.
#[derive(Debug, PartialEq)]
pub struct RenderingInfo {
    pub message: String,
    pub level: String,
    pub opcode: String,
    pub task: String,
    pub channel: String,
    pub provider: String,
    pub keywords: Keywords,
}

/// The display names of the event's keywords.
#[derive(Debug, PartialEq)]
pub struct Keywords {
    pub keyword: Option<Vec<String>>,
}

/// The flattened normalized record: one flat set of plain fields derived
/// from the typed record, with absent text fields defaulted to empty.
#[derive(Debug, PartialEq)]
pub struct Event {
    pub record_id: u64,
    pub provider_name: String,
    pub provider_guid: String,
    pub source_name: String,
    /// The creation timestamp, normalized to UTC in RFC 3339 form; absent
    /// when the typed record carries none or its text does not parse.
    pub system_time: Option<String>,
    pub event_id: u32,
    pub computer_name: String,
    pub activity_id: String,
    pub channel: String,
    pub level: String,
    pub opcode: String,
    pub task: String,
    pub message: String,
    pub process_id: u32,
    pub thread_id: u32,
    pub user: Vec<(String, String)>,
    pub keywords: Vec<String>,
    pub event_data: Vec<(String, String)>,
    pub user_data: Vec<(String, String)>,
}

// ---------------------------------------------------------------------------
// The mathematical content of the flattening.
// ---------------------------------------------------------------------------

/// The map an association list denotes: pairs inserted in order, so a
/// later pair with the same key wins.
pub open spec fn pairs_map(s: Seq<(String, String)>) -> Map<Seq<char>, Seq<char>>
    decreases s.len(),
{
    if s.len() == 0 {
        Map::empty()
    } else {
        pairs_map(s.drop_last()).insert(s.last().0@, s.last().1@)
    }
}

/// The text of an optional field, empty when absent.
pub open spec fn or_empty(o: Option<String>) -> Seq<char> {
    match o {
        Option::Some(s) => s@,
        Option::None => Seq::empty(),
    }
}

/// What the native time library computes for a timestamp text: the
/// RFC 3339 rendering, in UTC, of the instant the text denotes, or
/// nothing when the text is not a valid RFC 3339 date-time. A function of
/// the text alone.
pub uninterp spec fn utc_rfc3339_of(s: Seq<char>) -> Option<Seq<char>>;

/// The flattened timestamp: the typed record's timestamp text normalized
/// to UTC, absent when there is no text or it does not parse.
pub open spec fn flat_time(t: Option<String>) -> Option<Seq<char>> {
    match t {
        Option::Some(s) => utc_rfc3339_of(s@),
        Option::None => Option::None,
    }
}

/// The key/value map of a payload data list: each item with a value
/// contributes its value under its name, or under `param` followed by its
/// position when unnamed.
pub open spec fn data_map(ds: Seq<Data>) -> Map<Seq<char>, Seq<char>>
    decreases ds.len(),
{
    if ds.len() == 0 {
        Map::empty()
    } else {
        let m = data_map(ds.drop_last());
        let d = ds.last();
        match d.value {
            Option::Some(v) => {
                let key = match d.name {
                    Option::Some(n) => n@,
                    Option::None => "param"@ + dec_str(ds.len() - 1),
                };
                m.insert(key, v@)
            },
            Option::None => m,
        }
    }
}

/// The key/value map of the structured payload: the data items' map, with
/// the binary blob, when present, under `binary`.
pub open spec fn event_data_map(ed: Option<EventData>) -> Map<Seq<char>, Seq<char>> {
    match ed {
        Option::None => Map::empty(),
        Option::Some(e) => {
            let base = match e.data {
                Option::Some(d) => data_map(d@),
                Option::None => Map::empty(),
            };
            match e.binary {
                Option::Some(b) => base.insert("binary"@, b@),
                Option::None => base,
            }
        },
    }
}

/// One user-data group folded into an accumulated map, pair by pair in
/// document order.
pub open spec fn group_map(m0: Map<Seq<char>, Seq<char>>, ps: Seq<(String, String)>) -> Map<
    Seq<char>,
    Seq<char>,
>
    decreases ps.len(),
{
    if ps.len() == 0 {
        m0
    } else {
        group_map(m0, ps.drop_last()).insert(ps.last().0@, ps.last().1@)
    }
}

/// The key/value map of the user-defined payload: every group's pairs
/// folded in, group after group.
pub open spec fn user_data_map(gs: Seq<(String, UserData)>) -> Map<Seq<char>, Seq<char>>
    decreases gs.len(),
{
    if gs.len() == 0 {
        Map::empty()
    } else {
        group_map(user_data_map(gs.drop_last()), gs.last().1@)
    }
}

/// The user identity map: the security user id, when present, under
/// `identifier`.
pub open spec fn user_map(user_id: Option<String>) -> Map<Seq<char>, Seq<char>> {
    match user_id {
        Option::Some(id) => Map::<Seq<char>, Seq<char>>::empty().insert("identifier"@, id@),
        Option::None => Map::empty(),
    }
}

/// The flattened rendering text fields, all empty when the typed record
/// has no rendering information.
pub open spec fn flat_rendering(ri: Option<RenderingInfo>) -> (Seq<char>, Seq<char>, Seq<char>, Seq<
    char,
>) {
    match ri {
        Option::Some(r) => (r.level@, r.opcode@, r.task@, r.message@),
        Option::None => (Seq::empty(), Seq::empty(), Seq::empty(), Seq::empty()),
    }
}

/// The flattened keyword display names, empty when absent.
pub open spec fn flat_keywords(ri: Option<RenderingInfo>) -> Seq<Seq<char>> {
    match ri {
        Option::Some(r) => match r.keywords.keyword {
            Option::Some(ks) => ks.deep_view(),
            Option::None => Seq::empty(),
        },
        Option::None => Seq::empty(),
    }
}

/// Relies on `chrono::DateTime::parse_from_rfc3339`, `with_timezone` and
/// `to_rfc3339`: parses an RFC 3339 timestamp text, converts the instant
/// to UTC, and renders it again; each is a function of its argument
/// alone, so the whole is a function of the text alone.
#[verifier::external_body]
fn to_utc_rfc3339(s: &str) -> (r: Option<String>)
    ensures
        r.deep_view() == utc_rfc3339_of(s@),
{
    match chrono::DateTime::parse_from_rfc3339(s) {
        Ok(t) => Some(t.with_timezone(&chrono::Utc).to_rfc3339()),
        Err(_) => None,
    }
}

impl Event {
    /// Flattens a typed record into the normalized record: scalar fields
    /// copied, optional text fields defaulted to empty, the timestamp
    /// normalized to UTC, the security identity, the structured payload
    /// and the user-defined payload folded into key/value pairs.
    pub fn from_raw(raw: RawEvent) -> (e: Event)
        ensures
            e.event_id == raw.system.event_id.id,
            e.computer_name == raw.system.computer,
            e.channel == raw.system.channel,
            e.process_id == raw.system.execution.process_id,
            e.thread_id == raw.system.execution.thread_id,
            e.record_id == (match raw.system.event_record_id {
                Option::Some(id) => id,
                Option::None => 0u64,
            }),
            e.provider_name@ == or_empty(raw.system.provider.name),
            e.provider_guid@ == or_empty(raw.system.provider.guid),
            e.source_name@ == or_empty(raw.system.provider.event_source_name),
            e.activity_id@ == or_empty(raw.system.correlation.activity_id),
            e.system_time.deep_view() == flat_time(raw.system.time_created.system_time),
            e.level@ == flat_rendering(raw.rendering_info).0,
            e.opcode@ == flat_rendering(raw.rendering_info).1,
            e.task@ == flat_rendering(raw.rendering_info).2,
            e.message@ == flat_rendering(raw.rendering_info).3,
            e.keywords.deep_view() == flat_keywords(raw.rendering_info),
            pairs_map(e.user@) == user_map(raw.system.security.user_id),
            pairs_map(e.event_data@) == event_data_map(raw.event_data),
            pairs_map(e.user_data@) == (match raw.user_data {
                Option::Some(gs) => user_data_map(gs@),
                Option::None => Map::<Seq<char>, Seq<char>>::empty(),
            }),
    {
        let RawEvent { system, event_data, user_data, rendering_info } = raw;
        let System { provider, event_id, time_created, event_record_id, correlation, execution, channel, computer, security, .. } = system;

        let record_id = match event_record_id {
            Some(id) => id,
            None => 0u64,
        };
        let provider_name = match provider.name {
            Some(n) => n,
            None => String::new(),
        };
        let provider_guid = match provider.guid {
            Some(g) => g,
            None => String::new(),
        };
        let source_name = match provider.event_source_name {
            Some(n) => n,
            None => String::new(),
        };
        let activity_id = match correlation.activity_id {
            Some(a) => a,
            None => String::new(),
        };
        let system_time = match time_created.system_time {
            Some(t) => to_utc_rfc3339(t.as_str()),
            None => None,
        };

        let (level, opcode, task, message, keywords) = match rendering_info {
            Some(ri) => {
                let ks = match ri.keywords.keyword {
                    Some(k) => k,
                    None => Vec::new(),
                };
                (ri.level, ri.opcode, ri.task, ri.message, ks)
            },
            None => (String::new(), String::new(), String::new(), String::new(), Vec::new()),
        };
        proof {
            if raw.rendering_info is None {
                assert(keywords.deep_view() =~~= flat_keywords(raw.rendering_info));
            } else if raw.rendering_info->Some_0.keywords.keyword is None {
                assert(keywords.deep_view() =~~= flat_keywords(raw.rendering_info));
            }
        }

        let mut user: Vec<(String, String)> = Vec::new();
        match security.user_id {
            Some(id) => {
                let key = String::from_str("identifier");
                let ghost kv = key@;
                let ghost idv = id@;
                user.push((key, id));
                proof {
                    assert(user@.len() == 1);
                    assert(user@.last() == user@[0]);
                    assert(user@.last().0@ == kv);
                    assert(user@.last().1@ == idv);
                    assert(user@.drop_last() =~= Seq::<(String, String)>::empty());
                    assert(pairs_map(Seq::<(String, String)>::empty()) == Map::<Seq<char>, Seq<char>>::empty());
                    assert(pairs_map(user@) =~= user_map(raw.system.security.user_id));
                }
            },
            None => {
                proof {
                    assert(pairs_map(user@) =~= user_map(raw.system.security.user_id));
                }
            },
        }

        let ed = flatten_event_data(event_data);
        let ud = flatten_user_data(user_data);

        Event {
            record_id,
            provider_name,
            provider_guid,
            source_name,
            system_time,
            event_id: event_id.id,
            computer_name: computer,
            activity_id,
            channel,
            level,
            opcode,
            task,
            message,
            process_id: execution.process_id,
            thread_id: execution.thread_id,
            user,
            keywords,
            event_data: ed,
            user_data: ud,
        }
    }
}

/// Folds the structured payload into key/value pairs: each valued data
/// item under its name or its `param` position, then the binary blob.
fn flatten_event_data(event_data: Option<EventData>) -> (out: Vec<(String, String)>)
    ensures
        pairs_map(out@) == event_data_map(event_data),
{
    let mut out: Vec<(String, String)> = Vec::new();
    match event_data {
        Some(payload) => {
            match payload.data {
                Some(data) => {
                    let mut i: usize = 0;
                    proof {
                        assert(pairs_map(out@) =~= data_map(data@.take(0)));
                    }
                    while i < data.len()
                        invariant
                            i <= data@.len(),
                            pairs_map(out@) == data_map(data@.take(i as int)),
                        decreases data@.len() - i,
                    {
                        let ghost before = out@;
                        match &data[i].value {
                            Some(v) => {
                                let key = match &data[i].name {
                                    Some(n) => n.clone(),
                                    None => {
                                        let mut k = String::from_str("param");
                                        let ds = u64_to_dec(i as u64);
                                        k.append(ds.as_str());
                                        proof {
                                            assert(k@ =~= "param"@ + dec_str(i as int));
                                        }
                                        k
                                    },
                                };
                                out.push((key, v.clone()));
                            },
                            None => {},
                        }
                        proof {
                            let tk = data@.take(i + 1);
                            assert(tk.drop_last() =~= data@.take(i as int));
                            assert(tk.last() == data@[i as int]);
                            if data@[i as int].value is Some {
                                assert(out@.drop_last() =~= before);
                            }
                            assert(pairs_map(out@) =~= data_map(tk));
                        }
                        i += 1;
                    }
                    proof {
                        assert(data@.take(data@.len() as int) =~= data@);
                    }
                },
                None => {},
            }
            match payload.binary {
                Some(b) => {
                    let ghost before = out@;
                    let key = String::from_str("binary");
                    let ghost kv = key@;
                    let ghost bv = b@;
                    out.push((key, b));
                    proof {
                        assert(out@.last() == out@[before.len() as int]);
                        assert(out@.last().0@ == kv);
                        assert(out@.last().1@ == bv);
                        assert(out@.drop_last() =~= before);
                        assert(pairs_map(Seq::<(String, String)>::empty()) == Map::<Seq<char>, Seq<char>>::empty());
                        assert(pairs_map(out@) =~= event_data_map(event_data));
                    }
                },
                None => {},
            }
        },
        None => {},
    }
    proof {
        assert(pairs_map(out@) =~= event_data_map(event_data));
    }
    out
}

/// Folds the user-defined payload into key/value pairs, group after group
/// in document order.
fn flatten_user_data(user_data: Option<Vec<(String, UserData)>>) -> (out: Vec<(String, String)>)
    ensures
        pairs_map(out@) == (match user_data {
            Option::Some(gs) => user_data_map(gs@),
            Option::None => Map::<Seq<char>, Seq<char>>::empty(),
        }),
{
    let mut out: Vec<(String, String)> = Vec::new();
    match user_data {
        Some(groups) => {
            let mut g: usize = 0;
            proof {
                assert(pairs_map(out@) =~= user_data_map(groups@.take(0)));
            }
            while g < groups.len()
                invariant
                    g <= groups@.len(),
                    pairs_map(out@) == user_data_map(groups@.take(g as int)),
                decreases groups@.len() - g,
            {
                let pairs = &groups[g].1;
                let mut j: usize = 0;
                proof {
                    assert(pairs@.take(0) =~= Seq::<(String, String)>::empty());
                }
                while j < pairs.len()
                    invariant
                        j <= pairs@.len(),
                        pairs == &groups@[g as int].1,
                        g < groups@.len(),
                        pairs_map(out@) == group_map(
                            user_data_map(groups@.take(g as int)),
                            pairs@.take(j as int),
                        ),
                    decreases pairs@.len() - j,
                {
                    let k = pairs[j].0.clone();
                    let v = pairs[j].1.clone();
                    let ghost before = out@;
                    out.push((k, v));
                    proof {
                        let tk = pairs@.take(j + 1);
                        assert(tk.drop_last() =~= pairs@.take(j as int));
                        assert(tk.last() == pairs@[j as int]);
                        assert(out@.drop_last() =~= before);
                        assert(pairs_map(out@) =~= group_map(
                            user_data_map(groups@.take(g as int)),
                            tk,
                        ));
                    }
                    j += 1;
                }
                proof {
                    let tk = groups@.take(g + 1);
                    assert(tk.drop_last() =~= groups@.take(g as int));
                    assert(tk.last() == groups@[g as int]);
                    assert(pairs@.take(pairs@.len() as int) =~= pairs@);
                    assert(pairs_map(out@) =~= user_data_map(tk));
                }
                g += 1;
            }
            proof {
                assert(groups@.take(groups@.len() as int) =~= groups@);
            }
        },
        None => {},
    }
    proof {
        if user_data is None {
            assert(pairs_map(out@) =~= Map::<Seq<char>, Seq<char>>::empty());
        }
    }
    out
}

} // verus!
