//! A lightweight textual scan of a rendered event's XML for the provider
//! name: the first *self-closing* `<Provider .../>` element's `Name`
//! attribute, with the five predefined XML entities unescaped.
//!
//! A `<Provider ...>` start tag that is not self-closing is skipped and
//! the scan continues with the next `<Provider ` tag; within the chosen
//! tag, the attribute scan steps over quoted attribute values, so a
//! `Name=` inside another attribute's value is not mistaken for the name
//! attribute. The scan assumes the well-formed, machine-generated
//! rendering the native service produces; where no self-closing provider
//! element with a quoted name attribute exists it finds nothing, which
//! the caller treats as "provider unknown" — a non-fatal outcome.

use vstd::prelude::*;

use crate::text::{find_sub_from, find_from, has_prefix_at, lemma_find_sub_from, matches_at};

verus! {

/// Attribute text with the five predefined XML entities replaced by the
/// characters they stand for.
pub open spec fn unescape_xml(s: Seq<char>) -> Seq<char>
    decreases s.len(),
{
    if s.len() == 0 {
        s
    } else if s.len() >= 5 && matches_at(s, "&amp;"@, 0) {
        "&"@ + unescape_xml(s.skip(5))
    } else if s.len() >= 4 && matches_at(s, "&lt;"@, 0) {
        "<"@ + unescape_xml(s.skip(4))
    } else if s.len() >= 4 && matches_at(s, "&gt;"@, 0) {
        ">"@ + unescape_xml(s.skip(4))
    } else if s.len() >= 6 && matches_at(s, "&quot;"@, 0) {
        "\""@ + unescape_xml(s.skip(6))
    } else if s.len() >= 6 && matches_at(s, "&apos;"@, 0) {
        "'"@ + unescape_xml(s.skip(6))
    } else {
        seq![s[0]] + unescape_xml(s.skip(1))
    }
}

proof fn lemma_match_shift(v: Seq<char>, ent: Seq<char>, i: int)
    requires
        0 <= i <= v.len(),
    ensures
        matches_at(v.skip(i), ent, 0) == matches_at(v, ent, i),
{
    if i + ent.len() <= v.len() {
        assert(v.skip(i).subrange(0, ent.len() as int) =~= v.subrange(i, i + ent.len()));
    }
}

/// Replaces the five predefined XML entities in `v` by the characters
/// they stand for.
fn unescape_entities(v: &str) -> (r: String)
    ensures
        r@ == unescape_xml(v@),
{
    let n = v.unicode_len();
    let mut out = String::new();
    let mut i: usize = 0;
    proof {
        assert(v@.skip(0) =~= v@);
        reveal_strlit("&amp;");
        reveal_strlit("&lt;");
        reveal_strlit("&gt;");
        reveal_strlit("&quot;");
        reveal_strlit("&apos;");
    }
    while i < n
        invariant
            i <= n,
            n == v@.len(),
            unescape_xml(v@) == out@ + unescape_xml(v@.skip(i as int)),
        decreases n - i,
    {
        let ghost t = v@.skip(i as int);
        proof {
            reveal_strlit("&amp;");
            reveal_strlit("&lt;");
            reveal_strlit("&gt;");
            reveal_strlit("&quot;");
            reveal_strlit("&apos;");
            lemma_match_shift(v@, "&amp;"@, i as int);
            lemma_match_shift(v@, "&lt;"@, i as int);
            lemma_match_shift(v@, "&gt;"@, i as int);
            lemma_match_shift(v@, "&quot;"@, i as int);
            lemma_match_shift(v@, "&apos;"@, i as int);
            assert(t[0] == v@[i as int]);
        }
        if has_prefix_at(v, i, "&amp;") {
            out.append("&");
            proof {
                assert(t.skip(5) =~= v@.skip(i + 5));
                assert(unescape_xml(v@) =~= out@ + unescape_xml(v@.skip(i + 5)));
            }
            i += 5;
        } else if has_prefix_at(v, i, "&lt;") {
            out.append("<");
            proof {
                assert(t.skip(4) =~= v@.skip(i + 4));
                assert(unescape_xml(v@) =~= out@ + unescape_xml(v@.skip(i + 4)));
            }
            i += 4;
        } else if has_prefix_at(v, i, "&gt;") {
            out.append(">");
            proof {
                assert(t.skip(4) =~= v@.skip(i + 4));
                assert(unescape_xml(v@) =~= out@ + unescape_xml(v@.skip(i + 4)));
            }
            i += 4;
        } else if has_prefix_at(v, i, "&quot;") {
            out.append("\"");
            proof {
                assert(t.skip(6) =~= v@.skip(i + 6));
                assert(unescape_xml(v@) =~= out@ + unescape_xml(v@.skip(i + 6)));
            }
            i += 6;
        } else if has_prefix_at(v, i, "&apos;") {
            out.append("'");
            proof {
                assert(t.skip(6) =~= v@.skip(i + 6));
                assert(unescape_xml(v@) =~= out@ + unescape_xml(v@.skip(i + 6)));
            }
            i += 6;
        } else {
            let c = v.substring_char(i, i + 1);
            out.append(c);
            proof {
                assert(c@ =~= seq![t[0]]);
                assert(t.skip(1) =~= v@.skip(i + 1));
                assert(unescape_xml(v@) =~= out@ + unescape_xml(v@.skip(i + 1)));
            }
            i += 1;
        }
    }
    proof {
        assert(v@.skip(n as int).len() == 0);
        assert(unescape_xml(v@) =~= out@);
    }
    out
}

/// The first *self-closing* `<Provider ` tag at or after `from`: its
/// start position and the position of its closing `>`. A `<Provider ...>`
/// start tag that does not close as `/>` is skipped and the search
/// continues after it.
pub open spec fn find_provider_tag(xml: Seq<char>, from: int) -> Option<(int, int)>
    decreases xml.len() + 1 - from,
{
    match find_sub_from(xml, "<Provider "@, from) {
        Option::None => Option::None,
        Option::Some(t) => if t < from {
            Option::None
        } else {
            match find_sub_from(xml, ">"@, t + 10) {
                Option::None => Option::None,
                Option::Some(g) => if g < t + 10 || g >= xml.len() {
                    Option::None
                } else if g >= t + 11 && xml[g - 1] == '/' {
                    Option::Some((t, g))
                } else {
                    find_provider_tag(xml, g + 1)
                },
            }
        },
    }
}

proof fn lemma_find_provider_tag(xml: Seq<char>, from: int)
    ensures
        match find_provider_tag(xml, from) {
            Option::None => true,
            Option::Some((t, g)) => from <= t && matches_at(xml, "<Provider "@, t) && g >= t + 11
                && g < xml.len() && matches_at(xml, ">"@, g) && xml[g - 1] == '/',
        },
    decreases xml.len() + 1 - from,
{
    lemma_find_sub_from(xml, "<Provider "@, from);
    match find_sub_from(xml, "<Provider "@, from) {
        Option::None => {},
        Option::Some(t) => {
            if t >= from {
                lemma_find_sub_from(xml, ">"@, t + 10);
                match find_sub_from(xml, ">"@, t + 10) {
                    Option::None => {},
                    Option::Some(g) => {
                        if !(g < t + 10 || g >= xml.len()) {
                            if !(g >= t + 11 && xml[g - 1] == '/') {
                                lemma_find_provider_tag(xml, g + 1);
                            }
                        }
                    },
                }
            }
        },
    }
}

/// Finds the first self-closing `<Provider ` tag at or after `from`.
fn find_provider_tag_exec(xml: &str, from: usize) -> (r: Option<(usize, usize)>)
    requires
        from <= xml@.len(),
    ensures
        (match find_provider_tag(xml@, from as int) {
            Option::None => r is None,
            Option::Some((t, g)) => (r matches Some(p) && p.0 == t && p.1 == g),
        }),
    decreases xml@.len() + 1 - from,
{
    let n = xml.unicode_len();
    proof {
        reveal_strlit("<Provider ");
        reveal_strlit(">");
    }
    match find_from(xml, from, "<Provider ") {
        None => None,
        Some(t) => {
            proof {
                lemma_find_sub_from(xml@, "<Provider "@, from as int);
                assert(t + 10 <= n);
            }
            match find_from(xml, t + 10, ">") {
                None => None,
                Some(g) => {
                    proof {
                        lemma_find_sub_from(xml@, ">"@, t + 10);
                        assert(g + 1 <= n);
                    }
                    if g >= t + 11 && xml.get_char(g - 1) == '/' {
                        Some((t, g))
                    } else {
                        find_provider_tag_exec(xml, g + 1)
                    }
                },
            }
        },
    }
}

/// The position of the name attribute within a tag's attribute text
/// `[p, end)`: the first space-preceded `Name=` that does not lie inside
/// a quoted attribute value. A quote opens a value that runs to the next
/// identical quote; the scan steps over it whole, so neither a `Name=`
/// inside a value nor an attribute merely ending in the same letters is
/// taken. A value left unterminated within the tag ends the scan.
pub open spec fn find_name_in_tag(xml: Seq<char>, p: int, end: int) -> Option<int>
    decreases end - p,
{
    if p < 0 || end > xml.len() || p + 5 > end {
        Option::None
    } else if p >= 1 && xml[p - 1] == ' ' && matches_at(xml, "Name="@, p) {
        Option::Some(p)
    } else if xml[p] == '"' || xml[p] == '\'' {
        match find_sub_from(xml, seq![xml[p]], p + 1) {
            Option::None => Option::None,
            Option::Some(e) => if e <= p || e >= end {
                Option::None
            } else {
                find_name_in_tag(xml, e + 1, end)
            },
        }
    } else {
        find_name_in_tag(xml, p + 1, end)
    }
}

proof fn lemma_find_name_in_tag(xml: Seq<char>, p: int, end: int)
    ensures
        match find_name_in_tag(xml, p, end) {
            Option::None => true,
            Option::Some(a) => p <= a && a + 5 <= end && end <= xml.len() && a >= 1 && xml[a - 1]
                == ' ' && matches_at(xml, "Name="@, a),
        },
    decreases end - p,
{
    if !(p < 0 || end > xml.len() || p + 5 > end) {
        if p >= 1 && xml[p - 1] == ' ' && matches_at(xml, "Name="@, p) {
        } else if xml[p] == '"' || xml[p] == '\'' {
            match find_sub_from(xml, seq![xml[p]], p + 1) {
                Option::None => {},
                Option::Some(e) => {
                    if !(e <= p || e >= end) {
                        lemma_find_name_in_tag(xml, e + 1, end);
                    }
                },
            }
        } else {
            lemma_find_name_in_tag(xml, p + 1, end);
        }
    }
}

/// Finds the name attribute within a tag's attribute text `[p, end)`,
/// stepping over quoted attribute values.
fn find_name_in_tag_exec(xml: &str, p: usize, end: usize) -> (r: Option<usize>)
    requires
        end <= xml@.len(),
    ensures
        (match find_name_in_tag(xml@, p as int, end as int) {
            Option::None => r is None,
            Option::Some(i) => (r matches Some(u) && u == i),
        }),
    decreases end - p,
{
    proof {
        reveal_strlit("Name=");
    }
    if end < 5 || p > end - 5 {
        return None;
    }
    if p >= 1 && xml.get_char(p - 1) == ' ' && has_prefix_at(xml, p, "Name=") {
        return Some(p);
    }
    let c = xml.get_char(p);
    if c == '"' || c == '\'' {
        match find_char_at(xml, p + 1, c) {
            None => None,
            Some(e) => {
                proof {
                    lemma_find_sub_from(xml@, seq![c], p + 1);
                }
                if e >= end {
                    None
                } else {
                    find_name_in_tag_exec(xml, e + 1, end)
                }
            },
        }
    } else {
        find_name_in_tag_exec(xml, p + 1, end)
    }
}

/// The provider name the scan yields for a rendered event: the first
/// self-closing `<Provider .../>` tag (start tags that do not close as
/// `/>` are skipped), its name attribute found by a scan of the tag that
/// steps over quoted attribute values, the attribute's quoted value
/// (either quote style), unescaped; nothing when no such tag, attribute
/// or closing quote exists.
pub open spec fn spec_provider_name(xml: Seq<char>) -> Option<Seq<char>> {
    match find_provider_tag(xml, 0) {
        Option::None => Option::None,
        Option::Some((t, g)) => match find_name_in_tag(xml, t + 10, g - 1) {
            Option::None => Option::None,
            Option::Some(a) => {
                let q = xml[a + 5];
                if q != '"' && q != '\'' {
                    Option::None
                } else {
                    match find_sub_from(xml, seq![q], a + 6) {
                        Option::None => Option::None,
                        Option::Some(e) => if e < g {
                            Option::Some(unescape_xml(xml.subrange(a + 6, e)))
                        } else {
                            Option::None
                        },
                    }
                }
            },
        },
    }
}

/// Finds the first occurrence of the character `c` at or after `from`.
fn find_char_at(s: &str, from: usize, c: char) -> (r: Option<usize>)
    requires
        from <= s@.len(),
    ensures
        (match find_sub_from(s@, seq![c], from as int) {
            Option::None => r is None,
            Option::Some(i) => (r matches Some(u) && u == i),
        }),
{
    let n = s.unicode_len();
    let mut k = from;
    while k < n
        invariant
            from <= k <= n,
            n == s@.len(),
            find_sub_from(s@, seq![c], from as int) == find_sub_from(s@, seq![c], k as int),
        decreases n - k,
    {
        if s.get_char(k) == c {
            proof {
                assert(s@.subrange(k as int, k + 1) =~= seq![c]);
                assert(matches_at(s@, seq![c], k as int));
            }
            return Some(k);
        }
        proof {
            if matches_at(s@, seq![c], k as int) {
                assert(s@.subrange(k as int, k + 1)[0] == seq![c][0]);
            }
        }
        k += 1;
    }
    proof {
        assert(find_sub_from(s@, seq![c], k as int) is None);
    }
    None
}

/// Scans a rendered event's XML for the provider name: the name attribute
/// of the first self-closing `<Provider .../>` element (start tags that
/// are not self-closing are skipped), with XML entities unescaped. Yields
/// nothing when no such element carries a name; the caller then proceeds
/// without a provider.
pub fn parse_provider_name(xml: &str) -> (r: Option<String>)
    ensures
        (match spec_provider_name(xml@) {
            Option::None => r is None,
            Option::Some(v) => (r matches Some(s) && s@ == v),
        }),
{
    let n = xml.unicode_len();
    let (t, g) = match find_provider_tag_exec(xml, 0) {
        None => {
            return None;
        },
        Some(p) => p,
    };
    proof {
        lemma_find_provider_tag(xml@, 0);
        reveal_strlit("<Provider ");
        reveal_strlit(">");
    }
    let a = match find_name_in_tag_exec(xml, t + 10, g - 1) {
        None => {
            return None;
        },
        Some(a) => a,
    };
    proof {
        lemma_find_name_in_tag(xml@, t + 10, g - 1);
        reveal_strlit("Name=");
    }
    let q = xml.get_char(a + 5);
    if !(q == '"' || q == '\'') {
        return None;
    }
    let e = match find_char_at(xml, a + 6, q) {
        None => {
            return None;
        },
        Some(e) => e,
    };
    proof {
        lemma_find_sub_from(xml@, seq![q], a + 6);
    }
    if e >= g {
        return None;
    }
    let v = xml.substring_char(a + 6, e);
    Some(unescape_entities(v))
}

} // verus!
