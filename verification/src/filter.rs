//! The filter-to-query compiler: a pure function from a list of filter
//! specifications to one query document in the native event-log grammar.
//!
//! Each specification contributes a channel-scoped select statement whose
//! condition is the conjunction of its present clauses (provider, level,
//! event-id inclusion, maximum age), and, when its event-id selector holds
//! at least one exclusion entry, a channel-scoped suppress statement built
//! from the exclusion entries alone. Malformed or inverted event-id entries
//! are silently dropped, never rejected.

use vstd::prelude::*;

use crate::text::{
    dec_str, join_seqs, join_strings, parse_u32, split_on, split_str, starts_with_dash,
    strip_dashes, trim_dashes, u32_of, u32_to_dec, u64_to_dec,
};

verus! {

/// One filter rule: the channel is required, every other field is optional;
/// present fields compose with logical AND within the rule, while several
/// rules compose as independent alternatives across channels.
#[derive(Clone, Debug)]
pub struct Config {
    pub channel: String,
    pub level: Option<Vec<Level>>,
    pub event_id: Option<String>,
    /// Maximum age in seconds: events older than this are filtered out.
    pub ignore_older: Option<u64>,
    pub provider: Option<Vec<String>>,
}

/// The severity levels of the event-logging service, ranked from
/// "always logged" down to "verbose"; each maps to a fixed numeric code.
#[derive(Clone, Copy, Debug, Eq, PartialEq, Structural)]
pub enum Level {
    LogAlways,
    Critical,
    Error,
    Warning,
    Information,
    Verbose,
}

/// The level-comparison term each severity level compiles to.
pub open spec fn level_lit(l: Level) -> Seq<char> {
    match l {
        Level::LogAlways => "Level=0"@,
        Level::Critical => "Level=1"@,
        Level::Error => "Level=2"@,
        Level::Warning => "Level=3"@,
        Level::Information => "Level=4"@,
        Level::Verbose => "Level=5"@,
    }
}

impl Level {
    /// The level-comparison term for this level, `"Level="` followed by its
    /// numeric severity code.
    pub fn value(&self) -> (r: String)
        ensures
            r@ == level_lit(*self),
    {
        match *self {
            Level::LogAlways => String::from_str("Level=0"),
            Level::Critical => String::from_str("Level=1"),
            Level::Error => String::from_str("Level=2"),
            Level::Warning => String::from_str("Level=3"),
            Level::Information => String::from_str("Level=4"),
            Level::Verbose => String::from_str("Level=5"),
        }
    }
}

/// The mathematical content of a filter rule: every text field replaced by
/// its character sequence.
#[verifier::ext_equal]
pub struct ConfigV {
    pub channel: Seq<char>,
    pub level: Option<Seq<Level>>,
    pub event_id: Option<Seq<char>>,
    pub ignore_older: Option<u64>,
    pub provider: Option<Seq<Seq<char>>>,
}

impl View for Config {
    type V = ConfigV;

    open spec fn view(&self) -> ConfigV {
        ConfigV {
            channel: self.channel@,
            level: match self.level {
                Option::Some(v) => Option::Some(v@),
                Option::None => Option::None,
            },
            event_id: match self.event_id {
                Option::Some(s) => Option::Some(s@),
                Option::None => Option::None,
            },
            ignore_older: self.ignore_older,
            provider: match self.provider {
                Option::Some(v) => Option::Some(v.deep_view()),
                Option::None => Option::None,
            },
        }
    }
}

impl DeepView for Config {
    type V = ConfigV;

    open spec fn deep_view(&self) -> ConfigV {
        self.view()
    }
}

impl Default for Config {
    /// An empty rule: no channel and no optional field set.
    fn default() -> (c: Config)
        ensures
            c@.channel == Seq::<char>::empty(),
            c@.level is None,
            c@.event_id is None,
            c@.ignore_older is None,
            c@.provider is None,
    {
        Config {
            channel: String::new(),
            level: None,
            event_id: None,
            ignore_older: None,
            provider: None,
        }
    }
}

// ---------------------------------------------------------------------------
// The compiled grammar, as functions of the rule's mathematical content.
// ---------------------------------------------------------------------------

/// The provider terms, one `@Name='...'` per provider name, in order.
pub open spec fn provider_parts(ps: Seq<Seq<char>>) -> Seq<Seq<char>>
    decreases ps.len(),
{
    if ps.len() == 0 {
        Seq::empty()
    } else {
        provider_parts(ps.drop_last()).push("@Name='"@ + ps.last() + "'"@)
    }
}

/// The provider clause: true when the event's provider name equals any of
/// the listed names.
pub open spec fn spec_provider_clause(ps: Seq<Seq<char>>) -> Seq<char> {
    "Provider["@ + join_seqs(provider_parts(ps), " or "@) + "]"@
}

/// The level terms in selection order, before widening.
pub open spec fn level_base_parts(ls: Seq<Level>) -> Seq<Seq<char>>
    decreases ls.len(),
{
    if ls.len() == 0 {
        Seq::empty()
    } else {
        level_base_parts(ls.drop_last()).push(level_lit(ls.last()))
    }
}

/// The level terms: one per selected level, widened by the LogAlways code
/// whenever Information is selected, because the service treats severity
/// zero as "always include" and omits it unless explicitly widened.
pub open spec fn level_parts(ls: Seq<Level>) -> Seq<Seq<char>> {
    if ls.contains(Level::Information) {
        level_base_parts(ls).push("Level=0"@)
    } else {
        level_base_parts(ls)
    }
}

/// The level clause: the disjunction of the level terms.
pub open spec fn spec_level_clause(ls: Seq<Level>) -> Seq<char> {
    "("@ + join_seqs(level_parts(ls), " or "@) + ")"@
}

/// The maximum-age clause, in milliseconds precision.
pub open spec fn spec_age_clause(sec: u64) -> Seq<char> {
    "TimeCreated[timediff(@SystemTime) &lt;= "@ + dec_str(sec as int * 1000) + "]"@
}

/// Whether an event-id selector entry is an exclusion entry.
pub open spec fn starts_dash(e: Seq<char>) -> bool {
    e.len() > 0 && e[0] == '-'
}

/// The equality term for a single event id.
pub open spec fn id_eq_term(i: u32) -> Seq<char> {
    "EventID="@ + dec_str(i as int)
}

/// The bounded-range term for an id range.
pub open spec fn id_range_term(a: u32, b: u32) -> Seq<char> {
    "(EventID &gt;= "@ + dec_str(a as int) + " and EventID &lt;= "@ + dec_str(b as int) + ")"@
}

/// The terms one selector entry contributes: an equality term when the
/// entry is a single non-negative integer, a range term when it is two
/// integers separated by `'-'` with the first strictly below the second;
/// anything else contributes nothing (malformed and inverted entries are
/// silently dropped).
pub open spec fn entry_terms(e: Seq<char>) -> Seq<Seq<char>> {
    let single = match u32_of(e) {
        Option::Some(i) => seq![id_eq_term(i)],
        Option::None => Seq::empty(),
    };
    let range = {
        let parts = split_on(e, '-');
        if parts.len() == 2 {
            match (u32_of(parts[0]), u32_of(parts[1])) {
                (Option::Some(a), Option::Some(b)) => if a < b {
                    seq![id_range_term(a, b)]
                } else {
                    Seq::empty()
                },
                _ => Seq::empty(),
            }
        } else {
            Seq::empty()
        }
    };
    single + range
}

/// The terms of a list of entries, concatenated in order.
pub open spec fn list_terms(es: Seq<Seq<char>>) -> Seq<Seq<char>>
    decreases es.len(),
{
    if es.len() == 0 {
        Seq::empty()
    } else {
        list_terms(es.drop_last()) + entry_terms(es.last())
    }
}

/// The inclusion entries of a selector: those not marked as exclusions.
pub open spec fn keep_includes(es: Seq<Seq<char>>) -> Seq<Seq<char>>
    decreases es.len(),
{
    if es.len() == 0 {
        Seq::empty()
    } else {
        keep_includes(es.drop_last()) + (if starts_dash(es.last()) {
            Seq::<Seq<char>>::empty()
        } else {
            seq![es.last()]
        })
    }
}

/// The exclusion entries of a selector, with their `'-'` prefix stripped.
pub open spec fn keep_excludes(es: Seq<Seq<char>>) -> Seq<Seq<char>>
    decreases es.len(),
{
    if es.len() == 0 {
        Seq::empty()
    } else {
        keep_excludes(es.drop_last()) + (if starts_dash(es.last()) {
            seq![strip_dashes(es.last())]
        } else {
            Seq::<Seq<char>>::empty()
        })
    }
}

/// The disjunction of a term list, parenthesized.
pub open spec fn id_clause(terms: Seq<Seq<char>>) -> Seq<char> {
    "("@ + join_seqs(terms, " or "@) + ")"@
}

/// The inclusion clause of an event-id selector.
pub open spec fn spec_include_clause(sel: Seq<char>) -> Seq<char> {
    id_clause(list_terms(keep_includes(split_on(sel, ','))))
}

/// The exclusion clause of an event-id selector.
pub open spec fn spec_exclude_clause(sel: Seq<char>) -> Seq<char> {
    id_clause(list_terms(keep_excludes(split_on(sel, ','))))
}

/// Whether a selector holds at least one exclusion entry.
pub open spec fn spec_has_exclusion(sel: Seq<char>) -> bool {
    exists|i: int|
        0 <= i < split_on(sel, ',').len() && starts_dash(#[trigger] split_on(sel, ',')[i])
}

/// The present clauses of one rule, in the fixed order: provider, level,
/// event-id inclusion, maximum age.
pub open spec fn spec_clauses(c: ConfigV) -> Seq<Seq<char>> {
    (match c.provider {
        Option::Some(ps) => seq![spec_provider_clause(ps)],
        Option::None => Seq::<Seq<char>>::empty(),
    }) + (match c.level {
        Option::Some(ls) => seq![spec_level_clause(ls)],
        Option::None => Seq::<Seq<char>>::empty(),
    }) + (match c.event_id {
        Option::Some(sel) => seq![spec_include_clause(sel)],
        Option::None => Seq::<Seq<char>>::empty(),
    }) + (match c.ignore_older {
        Option::Some(sec) => seq![spec_age_clause(sec)],
        Option::None => Seq::<Seq<char>>::empty(),
    })
}

/// The select statement of one rule: everything on the channel, restricted
/// by the conjunction of the present clauses; unconditional when no clause
/// is present.
pub open spec fn spec_select_stmt(c: ConfigV) -> Seq<char> {
    "<Select Path=\""@ + c.channel + "\">*"@ + (if spec_clauses(c).len() > 0 {
        "[System["@ + join_seqs(spec_clauses(c), " and "@) + "]]"@
    } else {
        Seq::<char>::empty()
    }) + "</Select>"@
}

/// The suppress statement of one rule: present exactly when its selector
/// holds an exclusion entry, and conditioned on the exclusion clause alone,
/// so exclusions apply regardless of the other clauses.
pub open spec fn spec_suppress_stmt(c: ConfigV) -> Seq<char> {
    match c.event_id {
        Option::Some(sel) => if spec_has_exclusion(sel) {
            "<Suppress Path=\""@ + c.channel + "\">*[System["@ + spec_exclude_clause(sel)
                + "]]</Suppress>"@
        } else {
            Seq::<char>::empty()
        },
        Option::None => Seq::<char>::empty(),
    }
}

/// Both statements of one rule.
pub open spec fn spec_statements(c: ConfigV) -> Seq<char> {
    spec_select_stmt(c) + spec_suppress_stmt(c)
}

/// The statements of all rules, concatenated in rule order.
pub open spec fn spec_all_statements(cs: Seq<ConfigV>) -> Seq<char>
    decreases cs.len(),
{
    if cs.len() == 0 {
        Seq::empty()
    } else {
        spec_all_statements(cs.drop_last()) + spec_statements(cs.last())
    }
}

/// The whole compiled query document.
pub open spec fn spec_build_query(cs: Seq<ConfigV>) -> Seq<char> {
    "<QueryList><Query Id=\"0\">"@ + spec_all_statements(cs) + "</Query></QueryList>"@
}

// ---------------------------------------------------------------------------
// The compiler.
// ---------------------------------------------------------------------------

/// Builds the provider clause of one rule.
pub fn build_provider(providers: &Vec<String>) -> (r: String)
    ensures
        r@ == spec_provider_clause(providers.deep_view()),
{
    let ghost dv = providers.deep_view();
    let mut parts: Vec<String> = Vec::new();
    let mut i: usize = 0;
    proof {
        assert(parts.deep_view() =~~= provider_parts(dv.take(0)));
    }
    while i < providers.len()
        invariant
            i <= providers@.len(),
            dv == providers.deep_view(),
            dv.len() == providers@.len(),
            parts.deep_view() == provider_parts(dv.take(i as int)),
        decreases providers@.len() - i,
    {
        let mut t = String::from_str("@Name='");
        t.append(providers[i].as_str());
        t.append("'");
        let ghost before = parts.deep_view();
        parts.push(t);
        proof {
            assert(parts.deep_view() =~~= before.push(t@));
            let tk = dv.take(i + 1);
            assert(tk.drop_last() =~= dv.take(i as int));
            assert(tk.last() == dv[i as int]);
            assert(t@ =~= "@Name='"@ + dv[i as int] + "'"@);
            assert(parts.deep_view() =~~= provider_parts(tk));
        }
        i += 1;
    }
    proof {
        assert(dv.take(providers@.len() as int) =~= dv);
    }
    let j = join_strings(&parts, " or ");
    let mut r = String::from_str("Provider[");
    r.append(j.as_str());
    r.append("]");
    proof {
        assert(r@ =~= spec_provider_clause(dv));
    }
    r
}

/// Builds the level clause of one rule, widening Information by the
/// LogAlways code.
pub fn build_level(levels: &Vec<Level>) -> (r: String)
    ensures
        r@ == spec_level_clause(levels@),
{
    let mut parts: Vec<String> = Vec::new();
    let mut has_info = false;
    let mut i: usize = 0;
    proof {
        assert(parts.deep_view() =~~= level_base_parts(levels@.take(0)));
        assert(!levels@.take(0).contains(Level::Information));
    }
    while i < levels.len()
        invariant
            i <= levels@.len(),
            parts.deep_view() == level_base_parts(levels@.take(i as int)),
            has_info == levels@.take(i as int).contains(Level::Information),
        decreases levels@.len() - i,
    {
        let l = levels[i];
        let v = l.value();
        let ghost before = parts.deep_view();
        parts.push(v);
        if matches!(l, Level::Information) {
            has_info = true;
        }
        proof {
            let tk = levels@.take(i + 1);
            assert(tk.drop_last() =~= levels@.take(i as int));
            assert(tk.last() == levels@[i as int]);
            assert(parts.deep_view() =~~= before.push(v@));
            assert(parts.deep_view() =~~= level_base_parts(tk));
            if levels@[i as int] == Level::Information {
                assert(tk[i as int] == Level::Information);
                assert(tk.contains(Level::Information));
            } else {
                if tk.contains(Level::Information) {
                    let w = choose|w: int|
                        0 <= w < tk.len() && tk[w] == Level::Information;
                    assert(w < i);
                    assert(levels@.take(i as int)[w] == Level::Information);
                    assert(levels@.take(i as int).contains(Level::Information));
                }
                if levels@.take(i as int).contains(Level::Information) {
                    let w = choose|w: int|
                        0 <= w < i && levels@.take(i as int)[w] == Level::Information;
                    assert(tk[w] == Level::Information);
                    assert(tk.contains(Level::Information));
                }
            }
        }
        i += 1;
    }
    proof {
        assert(levels@.take(levels@.len() as int) =~= levels@);
    }
    if has_info {
        let ghost before = parts.deep_view();
        parts.push(String::from_str("Level=0"));
        proof {
            assert(parts.deep_view() =~~= before.push("Level=0"@));
            assert(parts.deep_view() =~~= level_parts(levels@));
        }
    } else {
        proof {
            assert(parts.deep_view() =~~= level_parts(levels@));
        }
    }
    let j = join_strings(&parts, " or ");
    let mut r = String::from_str("(");
    r.append(j.as_str());
    r.append(")");
    proof {
        assert(r@ =~= spec_level_clause(levels@));
    }
    r
}

/// Builds the maximum-age clause of one rule, converting seconds to
/// milliseconds. The bound keeps the millisecond value within `u64`.
pub fn build_ignore_old(sec: u64) -> (r: String)
    requires
        sec <= u64::MAX / 1000,
    ensures
        r@ == spec_age_clause(sec),
{
    proof {
        assert(sec * 1000 <= u64::MAX) by (nonlinear_arith)
            requires
                sec <= u64::MAX as int / 1000,
        ;
    }
    let ms: u64 = sec * 1000;
    let d = u64_to_dec(ms);
    let mut r = String::from_str("TimeCreated[timediff(@SystemTime) &lt;= ");
    r.append(d.as_str());
    r.append("]");
    proof {
        assert(r@ =~= spec_age_clause(sec));
    }
    r
}

/// Builds the parenthesized disjunction of the terms that a list of
/// selector entries contributes: an equality term per well-formed single
/// id, a range term per well-formed strictly increasing range.
pub fn build_event_id(t: Vec<&str>) -> (r: String)
    ensures
        r@ == id_clause(list_terms(t.deep_view())),
{
    let ghost dv = t.deep_view();
    let mut parts: Vec<String> = Vec::new();
    let mut i: usize = 0;
    proof {
        assert(parts.deep_view() =~~= list_terms(dv.take(0)));
    }
    while i < t.len()
        invariant
            i <= t@.len(),
            dv == t.deep_view(),
            dv.len() == t@.len(),
            parts.deep_view() == list_terms(dv.take(i as int)),
        decreases t@.len() - i,
    {
        let e: &str = t[i];
        let ghost ev = dv[i as int];
        proof {
            assert(ev == e@);
        }
        let ghost at_start = parts.deep_view();
        match parse_u32(e) {
            Some(id) => {
                let mut s = String::from_str("EventID=");
                let d = u32_to_dec(id);
                s.append(d.as_str());
                let ghost before = parts.deep_view();
                parts.push(s);
                proof {
                    assert(s@ =~= id_eq_term(id));
                    assert(parts.deep_view() =~~= before.push(s@));
                }
            },
            None => {},
        }
        let sub = split_str(e, '-');
        proof {
            assert(sub@.len() == split_on(ev, '-').len());
        }
        if sub.len() == 2 {
            let a = parse_u32(sub[0]);
            let b = parse_u32(sub[1]);
            proof {
                assert(sub@[0]@ == split_on(ev, '-')[0]);
                assert(sub@[1]@ == split_on(ev, '-')[1]);
            }
            match (a, b) {
                (Some(a), Some(b)) => {
                    if a < b {
                        let mut s = String::from_str("(EventID &gt;= ");
                        let da = u32_to_dec(a);
                        s.append(da.as_str());
                        s.append(" and EventID &lt;= ");
                        let db = u32_to_dec(b);
                        s.append(db.as_str());
                        s.append(")");
                        let ghost before = parts.deep_view();
                        parts.push(s);
                        proof {
                            assert(s@ =~= id_range_term(a, b));
                            assert(parts.deep_view() =~~= before.push(s@));
                        }
                    }
                },
                _ => {},
            }
        }
        proof {
            assert(parts.deep_view() =~~= at_start + entry_terms(ev));
            let tk = dv.take(i + 1);
            assert(tk.drop_last() =~= dv.take(i as int));
            assert(tk.last() == ev);
            assert(parts.deep_view() =~~= list_terms(tk));
        }
        i += 1;
    }
    proof {
        assert(dv.take(t@.len() as int) =~= dv);
    }
    let j = join_strings(&parts, " or ");
    let mut r = String::from_str("(");
    r.append(j.as_str());
    r.append(")");
    proof {
        assert(r@ =~= id_clause(list_terms(dv)));
    }
    r
}

/// Builds the inclusion clause of an event-id selector: the terms of the
/// entries not marked as exclusions.
pub fn build_include_event_id(ids: &str) -> (r: String)
    ensures
        r@ == spec_include_clause(ids@),
{
    let ghost es = split_on(ids@, ',');
    let entries = split_str(ids, ',');
    let mut kept: Vec<&str> = Vec::new();
    let mut i: usize = 0;
    proof {
        assert(kept.deep_view() =~~= keep_includes(es.take(0)));
    }
    while i < entries.len()
        invariant
            i <= entries@.len(),
            es == split_on(ids@, ','),
            entries@.len() == es.len(),
            forall|k: int| 0 <= k < entries@.len() ==> entries@[k]@ == es[k],
            kept.deep_view() == keep_includes(es.take(i as int)),
        decreases entries@.len() - i,
    {
        let ghost before = kept.deep_view();
        if !starts_with_dash(entries[i]) {
            kept.push(entries[i]);
            proof {
                assert(kept.deep_view() =~~= before.push(es[i as int]));
            }
        }
        proof {
            let tk = es.take(i + 1);
            assert(tk.drop_last() =~= es.take(i as int));
            assert(tk.last() == es[i as int]);
            assert(kept.deep_view() =~~= keep_includes(tk));
        }
        i += 1;
    }
    proof {
        assert(es.take(es.len() as int) =~= es);
    }
    build_event_id(kept)
}

/// Builds the exclusion clause of an event-id selector: the terms of the
/// entries marked with a leading `'-'`, prefix stripped.
pub fn build_exclude_event_id(ids: &str) -> (r: String)
    ensures
        r@ == spec_exclude_clause(ids@),
{
    let ghost es = split_on(ids@, ',');
    let entries = split_str(ids, ',');
    let mut kept: Vec<&str> = Vec::new();
    let mut i: usize = 0;
    proof {
        assert(kept.deep_view() =~~= keep_excludes(es.take(0)));
    }
    while i < entries.len()
        invariant
            i <= entries@.len(),
            es == split_on(ids@, ','),
            entries@.len() == es.len(),
            forall|k: int| 0 <= k < entries@.len() ==> entries@[k]@ == es[k],
            kept.deep_view() == keep_excludes(es.take(i as int)),
        decreases entries@.len() - i,
    {
        let ghost before = kept.deep_view();
        if starts_with_dash(entries[i]) {
            let stripped = trim_dashes(entries[i]);
            kept.push(stripped);
            proof {
                assert(kept.deep_view() =~~= before.push(strip_dashes(es[i as int])));
            }
        }
        proof {
            let tk = es.take(i + 1);
            assert(tk.drop_last() =~= es.take(i as int));
            assert(tk.last() == es[i as int]);
            assert(kept.deep_view() =~~= keep_excludes(tk));
        }
        i += 1;
    }
    proof {
        assert(es.take(es.len() as int) =~= es);
    }
    build_event_id(kept)
}

/// Whether a selector holds at least one exclusion entry, deciding whether
/// the rule gets a suppress statement.
pub fn has_exclusions(ids: &str) -> (r: bool)
    ensures
        r == spec_has_exclusion(ids@),
{
    let ghost es = split_on(ids@, ',');
    let entries = split_str(ids, ',');
    let mut i: usize = 0;
    while i < entries.len()
        invariant
            i <= entries@.len(),
            es == split_on(ids@, ','),
            entries@.len() == es.len(),
            forall|k: int| 0 <= k < entries@.len() ==> entries@[k]@ == es[k],
            forall|k: int| 0 <= k < i ==> !starts_dash(#[trigger] es[k]),
        decreases entries@.len() - i,
    {
        if starts_with_dash(entries[i]) {
            proof {
                assert(starts_dash(es[i as int]));
            }
            return true;
        }
        i += 1;
    }
    false
}

/// Compiles an ordered list of filter rules into one query document:
/// per rule a channel-scoped select statement over the conjunction of its
/// present clauses, plus a suppress statement when its selector holds an
/// exclusion entry; all statements concatenated in rule order.
///
/// The bound on each maximum age keeps its millisecond value within `u64`.
pub fn build_query(filters: Vec<Config>) -> (r: String)
    requires
        forall|k: int|
            0 <= k < filters@.len() ==> ((#[trigger] filters@[k]).ignore_older matches Some(s)
                ==> s <= u64::MAX / 1000),
    ensures
        r@ == spec_build_query(filters.deep_view()),
{
    let ghost dv = filters.deep_view();
    let mut body = String::new();
    let mut i: usize = 0;
    proof {
        assert(body@ =~= spec_all_statements(dv.take(0)));
    }
    while i < filters.len()
        invariant
            i <= filters@.len(),
            dv == filters.deep_view(),
            dv.len() == filters@.len(),
            forall|k: int|
                0 <= k < filters@.len() ==> ((#[trigger] filters@[k]).ignore_older matches Some(
                    s,
                ) ==> s <= u64::MAX / 1000),
            body@ == spec_all_statements(dv.take(i as int)),
        decreases filters@.len() - i,
    {
        let f = &filters[i];
        let ghost cv = dv[i as int];
        proof {
            assert(cv == filters@[i as int]@);
        }
        let stmts = build_statements(f);
        body.append(stmts.as_str());
        proof {
            let tk = dv.take(i + 1);
            assert(tk.drop_last() =~= dv.take(i as int));
            assert(tk.last() == cv);
            assert(body@ =~= spec_all_statements(tk));
        }
        i += 1;
    }
    proof {
        assert(dv.take(filters@.len() as int) =~= dv);
    }
    let mut r = String::from_str("<QueryList><Query Id=\"0\">");
    r.append(body.as_str());
    r.append("</Query></QueryList>");
    proof {
        assert(r@ =~= spec_build_query(dv));
    }
    r
}

/// Builds the statement or statements of one rule: its select statement,
/// followed by its suppress statement when the rule's selector holds an
/// exclusion entry.
fn build_statements(f: &Config) -> (r: String)
    requires
        f.ignore_older matches Some(s) ==> s <= u64::MAX / 1000,
    ensures
        r@ == spec_statements(f@),
{
    let ghost cv = f@;
    let mut body = String::new();
    let ghost body0 = body@;
    let mut clauses: Vec<String> = Vec::new();
        match &f.provider {
            Some(ps) => {
                let c = build_provider(ps);
                let ghost before = clauses.deep_view();
                clauses.push(c);
                proof {
                    assert(clauses.deep_view() =~~= before.push(spec_provider_clause(
                        ps.deep_view(),
                    )));
                }
            },
            None => {},
        }
        match &f.level {
            Some(ls) => {
                let c = build_level(ls);
                let ghost before = clauses.deep_view();
                clauses.push(c);
                proof {
                    assert(clauses.deep_view() =~~= before.push(spec_level_clause(ls@)));
                }
            },
            None => {},
        }
        match &f.event_id {
            Some(ids) => {
                let c = build_include_event_id(ids.as_str());
                let ghost before = clauses.deep_view();
                clauses.push(c);
                proof {
                    assert(clauses.deep_view() =~~= before.push(spec_include_clause(ids@)));
                }
            },
            None => {},
        }
        match f.ignore_older {
            Some(sec) => {
                let c = build_ignore_old(sec);
                let ghost before = clauses.deep_view();
                clauses.push(c);
                proof {
                    assert(clauses.deep_view() =~~= before.push(spec_age_clause(sec)));
                }
            },
            None => {},
        }
        proof {
            assert(clauses.deep_view() =~~= spec_clauses(cv));
        }
        body.append("<Select Path=\"");
        body.append(f.channel.as_str());
        body.append("\">*");
        if clauses.len() > 0 {
            let j = join_strings(&clauses, " and ");
            body.append("[System[");
            body.append(j.as_str());
            body.append("]]");
        }
        body.append("</Select>");
        proof {
            assert(body@ =~= body0 + spec_select_stmt(cv));
        }
        let ghost body1 = body@;
        match &f.event_id {
            Some(ids) => {
                if has_exclusions(ids.as_str()) {
                    let ex = build_exclude_event_id(ids.as_str());
                    body.append("<Suppress Path=\"");
                    body.append(f.channel.as_str());
                    body.append("\">*[System[");
                    body.append(ex.as_str());
                    body.append("]]</Suppress>");
                    proof {
                        assert(body@ =~= body1 + spec_suppress_stmt(cv));
                    }
                } else {
                    proof {
                        assert(body@ =~= body1 + spec_suppress_stmt(cv));
                    }
                }
            },
            None => {
                proof {
                    assert(body@ =~= body1 + spec_suppress_stmt(cv));
                }
            },
        }
    proof {
        assert(body@ =~= spec_statements(cv));
    }
    body
}

// ---------------------------------------------------------------------------
// Laws of the compiler.
// ---------------------------------------------------------------------------

/// LAW: compiling is deterministic. The compiled document is a function of
/// the rules' mathematical content alone, so two rule lists with the same
/// content — channel characters, levels, selector characters, ages,
/// provider names — compile to the same characters.
pub proof fn lemma_build_query_deterministic(a: Seq<ConfigV>, b: Seq<ConfigV>)
    requires
        a =~~= b,
    ensures
        spec_build_query(a) == spec_build_query(b),
{
    assert(a == b);
}

proof fn lemma_level_base_parts_index(ls: Seq<Level>)
    ensures
        level_base_parts(ls).len() == ls.len(),
        forall|i: int| 0 <= i < ls.len() ==> level_base_parts(ls)[i] == level_lit(ls[i]),
    decreases ls.len(),
{
    if ls.len() > 0 {
        lemma_level_base_parts_index(ls.drop_last());
    }
}

/// LAW: selecting Information widens the level terms by the LogAlways code,
/// whether or not LogAlways was itself selected.
pub proof fn lemma_information_widens(ls: Seq<Level>)
    requires
        ls.contains(Level::Information),
    ensures
        level_parts(ls).contains("Level=0"@),
{
    lemma_level_base_parts_index(ls);
    let parts = level_parts(ls);
    assert(parts.last() == "Level=0"@);
    assert(parts[parts.len() - 1] == "Level=0"@);
}

/// LAW: with Information selected, the compiled level clause itself
/// contains the LogAlways term as a contiguous run of characters.
pub proof fn lemma_clause_contains_log_always(ls: Seq<Level>)
    requires
        ls.contains(Level::Information),
    ensures
        crate::text::contains_sub(spec_level_clause(ls), "Level=0"@),
{
    lemma_information_widens(ls);
    let parts = level_parts(ls);
    let w = choose|w: int| 0 <= w < parts.len() && parts[w] == "Level=0"@;
    crate::text::lemma_join_contains_part(parts, " or "@, w);
    crate::text::lemma_contains_sub_concat_left(
        join_seqs(parts, " or "@),
        ")"@,
        "Level=0"@,
    );
    crate::text::lemma_contains_sub_concat_right(
        "("@,
        join_seqs(parts, " or "@) + ")"@,
        "Level=0"@,
    );
    assert("("@ + (join_seqs(parts, " or "@) + ")"@) =~= spec_level_clause(ls));
}

/// LAW: without Information (or LogAlways itself) among the selected
/// levels, the LogAlways code does not appear among the level terms.
pub proof fn lemma_no_widening(ls: Seq<Level>)
    requires
        !ls.contains(Level::Information),
        !ls.contains(Level::LogAlways),
    ensures
        !level_parts(ls).contains("Level=0"@),
{
    lemma_level_base_parts_index(ls);
    let parts = level_parts(ls);
    reveal_strlit("Level=0");
    reveal_strlit("Level=1");
    reveal_strlit("Level=2");
    reveal_strlit("Level=3");
    reveal_strlit("Level=4");
    reveal_strlit("Level=5");
    if parts.contains("Level=0"@) {
        let w = choose|w: int| 0 <= w < parts.len() && parts[w] == "Level=0"@;
        assert(level_lit(ls[w]) == "Level=0"@);
        match ls[w] {
            Level::LogAlways => {
                assert(ls.contains(Level::LogAlways));
            },
            Level::Critical => {
                assert(("Level=1"@)[6] != ("Level=0"@)[6]);
            },
            Level::Error => {
                assert(("Level=2"@)[6] != ("Level=0"@)[6]);
            },
            Level::Warning => {
                assert(("Level=3"@)[6] != ("Level=0"@)[6]);
            },
            Level::Information => {
                assert(ls.contains(Level::Information));
            },
            Level::Verbose => {
                assert(("Level=5"@)[6] != ("Level=0"@)[6]);
            },
        }
    }
}

/// LAW: a rule with no optional field set compiles to an unconditional
/// select statement scoped to its channel, and no suppress statement.
pub proof fn lemma_bare_rule_selects_all(c: ConfigV)
    requires
        c.level is None,
        c.event_id is None,
        c.ignore_older is None,
        c.provider is None,
    ensures
        spec_statements(c) == "<Select Path=\""@ + c.channel + "\">*</Select>"@,
{
    assert(spec_clauses(c) =~~= Seq::<Seq<char>>::empty());
    reveal_strlit("\">*");
    reveal_strlit("</Select>");
    reveal_strlit("\">*</Select>");
    assert(spec_statements(c) =~= "<Select Path=\""@ + c.channel + "\">*</Select>"@);
}

/// LAW: rules compile independently. The document for two rules is the
/// header, the first rule's statements, the second rule's statements, and
/// the footer, each statement built from its own rule alone — no clause of
/// one rule reaches the other's statements.
pub proof fn lemma_rules_compile_independently(c1: ConfigV, c2: ConfigV)
    ensures
        spec_build_query(seq![c1, c2]) == "<QueryList><Query Id=\"0\">"@ + spec_statements(c1)
            + spec_statements(c2) + "</Query></QueryList>"@,
{
    let cs = seq![c1, c2];
    reveal_with_fuel(spec_all_statements, 3);
    assert(cs.drop_last() =~= seq![c1]);
    assert(seq![c1].drop_last() =~= Seq::<ConfigV>::empty());
    assert(cs.last() == c2);
    assert(seq![c1].last() == c1);
    assert(spec_all_statements(cs) =~= spec_statements(c1) + spec_statements(c2));
    assert(spec_build_query(cs) =~= "<QueryList><Query Id=\"0\">"@ + spec_statements(c1)
        + spec_statements(c2) + "</Query></QueryList>"@);
}

} // verus!
