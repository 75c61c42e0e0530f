//! Small verified text utilities shared by the query compiler and the
//! subscription protocol: decimal formatting, non-negative integer parsing,
//! splitting on a separator character, and joining with a separator string.

use vstd::prelude::*;

verus! {

/// The decimal digit character for a value in `0..=9` (and `'9'` outside
/// that range, which no caller reaches).
pub open spec fn dec_digit(d: int) -> char {
    if d == 0 {
        '0'
    } else if d == 1 {
        '1'
    } else if d == 2 {
        '2'
    } else if d == 3 {
        '3'
    } else if d == 4 {
        '4'
    } else if d == 5 {
        '5'
    } else if d == 6 {
        '6'
    } else if d == 7 {
        '7'
    } else if d == 8 {
        '8'
    } else {
        '9'
    }
}

/// The decimal rendering of a non-negative integer, without sign or
/// leading zeros (a single `'0'` for zero).
pub open spec fn dec_str(n: int) -> Seq<char>
    decreases n,
{
    if n < 10 {
        seq![dec_digit(n)]
    } else {
        dec_str(n / 10).push(dec_digit(n % 10))
    }
}

fn digit_str(d: u64) -> (r: &'static str)
    requires
        d < 10,
    ensures
        r@ == seq![dec_digit(d as int)],
{
    if d == 0 {
        proof {
            reveal_strlit("0");
            assert("0"@ =~= seq![dec_digit(0)]);
        }
        "0"
    } else if d == 1 {
        proof {
            reveal_strlit("1");
            assert("1"@ =~= seq![dec_digit(1)]);
        }
        "1"
    } else if d == 2 {
        proof {
            reveal_strlit("2");
            assert("2"@ =~= seq![dec_digit(2)]);
        }
        "2"
    } else if d == 3 {
        proof {
            reveal_strlit("3");
            assert("3"@ =~= seq![dec_digit(3)]);
        }
        "3"
    } else if d == 4 {
        proof {
            reveal_strlit("4");
            assert("4"@ =~= seq![dec_digit(4)]);
        }
        "4"
    } else if d == 5 {
        proof {
            reveal_strlit("5");
            assert("5"@ =~= seq![dec_digit(5)]);
        }
        "5"
    } else if d == 6 {
        proof {
            reveal_strlit("6");
            assert("6"@ =~= seq![dec_digit(6)]);
        }
        "6"
    } else if d == 7 {
        proof {
            reveal_strlit("7");
            assert("7"@ =~= seq![dec_digit(7)]);
        }
        "7"
    } else if d == 8 {
        proof {
            reveal_strlit("8");
            assert("8"@ =~= seq![dec_digit(8)]);
        }
        "8"
    } else {
        proof {
            reveal_strlit("9");
            assert("9"@ =~= seq![dec_digit(9)]);
        }
        "9"
    }
}

/// Renders `n` in decimal.
pub fn u64_to_dec(n: u64) -> (r: String)
    ensures
        r@ == dec_str(n as int),
    decreases n,
{
    if n < 10 {
        String::from_str(digit_str(n))
    } else {
        let mut r = u64_to_dec(n / 10);
        let d = digit_str(n % 10);
        r.append(d);
        proof {
            assert(r@ =~= dec_str(n as int));
        }
        r
    }
}

/// Renders `n` in decimal.
pub fn u32_to_dec(n: u32) -> (r: String)
    ensures
        r@ == dec_str(n as int),
{
    u64_to_dec(n as u64)
}

pub open spec fn is_digit(c: char) -> bool {
    '0' <= c && c <= '9'
}

pub open spec fn digit_val(c: char) -> int {
    c as int - '0' as int
}

pub open spec fn all_digits(s: Seq<char>) -> bool {
    forall|i: int| 0 <= i < s.len() ==> is_digit(#[trigger] s[i])
}

/// The value of a digit string read in base ten.
pub open spec fn dec_val(s: Seq<char>) -> int
    decreases s.len(),
{
    if s.len() == 0 {
        0
    } else {
        dec_val(s.drop_last()) * 10 + digit_val(s.last())
    }
}

/// What `str::parse::<u32>` accepts of the grammar the filter selectors
/// use: an optional leading `'+'`, then one or more decimal digits whose
/// value fits in a `u32`.
pub open spec fn u32_of(s: Seq<char>) -> Option<u32> {
    let body = if s.len() > 0 && s[0] == '+' {
        s.skip(1)
    } else {
        s
    };
    if body.len() > 0 && all_digits(body) && dec_val(body) <= u32::MAX {
        Some(dec_val(body) as u32)
    } else {
        None
    }
}

proof fn lemma_dec_val_nonneg(s: Seq<char>)
    requires
        all_digits(s),
    ensures
        dec_val(s) >= 0,
    decreases s.len(),
{
    if s.len() > 0 {
        assert(all_digits(s.drop_last())) by {
            assert(forall|i: int|
                0 <= i < s.drop_last().len() ==> s.drop_last()[i] == #[trigger] s[i]);
        }
        lemma_dec_val_nonneg(s.drop_last());
        assert(is_digit(s.last()));
    }
}

proof fn lemma_dec_val_prefix(s: Seq<char>, k: int)
    requires
        all_digits(s),
        0 <= k <= s.len(),
    ensures
        dec_val(s) >= dec_val(s.take(k)),
    decreases s.len() - k,
{
    if k == s.len() {
        assert(s.take(k) =~= s);
    } else {
        lemma_dec_val_prefix(s, k + 1);
        let t = s.take(k + 1);
        assert(t.drop_last() =~= s.take(k));
        assert(t.last() == s[k]);
        assert(all_digits(s.take(k))) by {
            assert(forall|i: int|
                0 <= i < s.take(k).len() ==> s.take(k)[i] == #[trigger] s[i]);
        }
        lemma_dec_val_nonneg(s.take(k));
        assert(is_digit(s[k]));
        assert(dec_val(t) == dec_val(s.take(k)) * 10 + digit_val(s[k]));
        assert(dec_val(s.take(k)) * 10 >= dec_val(s.take(k))) by {
            assert(dec_val(s.take(k)) >= 0);
        }
    }
}

/// Parses a non-negative integer exactly as `str::parse::<u32>` does:
/// an optional `'+'`, then digits; rejects anything else, the empty
/// string, and values over `u32::MAX`.
pub fn parse_u32(s: &str) -> (r: Option<u32>)
    ensures
        r == u32_of(s@),
{
    let n = s.unicode_len();
    let start: usize = if n > 0 && s.get_char(0) == '+' {
        1
    } else {
        0
    };
    let ghost body: Seq<char> = if s@.len() > 0 && s@[0] == '+' {
        s@.skip(1)
    } else {
        s@
    };
    proof {
        assert(body.len() == n - start);
        assert(forall|i: int| 0 <= i < body.len() ==> body[i] == s@[i + start]);
    }
    if start >= n {
        return None;
    }
    let mut acc: u32 = 0;
    let mut i: usize = start;
    while i < n
        invariant
            start <= i <= n,
            n == s@.len(),
            start == 0 || start == 1,
            body == (if s@.len() > 0 && s@[0] == '+' {
                s@.skip(1)
            } else {
                s@
            }),
            body.len() == n - start,
            forall|k: int| 0 <= k < body.len() ==> body[k] == s@[k + start],
            all_digits(body.take(i - start)),
            acc == dec_val(body.take(i - start)),
        decreases n - i,
    {
        let c = s.get_char(i);
        if !('0' <= c && c <= '9') {
            proof {
                assert(body[i - start] == c);
                assert(!is_digit(body[i - start]));
                assert(!all_digits(body));
                assert(u32_of(s@) is None);
            }
            return None;
        }
        let d: u32 = (c as u32) - 48;
        proof {
            assert(d == digit_val(c));
            assert(d <= 9);
        }
        if acc > (u32::MAX - d) / 10 {
            proof {
                let q = ((u32::MAX - d) / 10) as int;
                assert(acc * 10 + d > u32::MAX) by (nonlinear_arith)
                    requires
                        acc > q,
                        q == (u32::MAX - d) as int / 10,
                        d <= 9,
                ;
                let t = body.take(i - start + 1);
                assert(t.drop_last() =~= body.take(i - start));
                assert(t.last() == body[i - start]);
                assert(dec_val(t) == acc * 10 + d);
                assert(all_digits(t)) by {
                    assert(forall|k: int|
                        0 <= k < t.len() - 1 ==> t[k] == #[trigger] body.take(i - start)[k]);
                }
                if all_digits(body) {
                    lemma_dec_val_prefix(body, i - start + 1);
                    assert(dec_val(body) > u32::MAX);
                }
                assert(u32_of(s@) is None);
            }
            return None;
        }
        proof {
            let q = ((u32::MAX - d) / 10) as int;
            assert(acc * 10 + d <= u32::MAX) by (nonlinear_arith)
                requires
                    acc <= q,
                    acc >= 0,
                    q == (u32::MAX - d) as int / 10,
                    d <= 9,
                    d <= u32::MAX,
            ;
            let t = body.take(i - start + 1);
            assert(t.drop_last() =~= body.take(i - start));
            assert(t.last() == body[i - start]);
            assert(all_digits(t)) by {
                assert(forall|k: int|
                    0 <= k < t.len() - 1 ==> t[k] == #[trigger] body.take(i - start)[k]);
            }
            assert(dec_val(t) == acc * 10 + d);
        }
        acc = acc * 10 + d;
        i += 1;
    }
    proof {
        assert(body.take(i - start) =~= body);
    }
    Some(acc)
}

/// The index of the first occurrence of `c` in `s`, if any.
pub open spec fn find_char(s: Seq<char>, c: char) -> Option<int>
    decreases s.len(),
{
    if s.len() == 0 {
        None
    } else if s[0] == c {
        Some(0)
    } else {
        match find_char(s.skip(1), c) {
            None => None,
            Some(i) => Some(i + 1),
        }
    }
}

pub proof fn lemma_find_char_at(s: Seq<char>, c: char, i: int)
    requires
        0 <= i < s.len(),
        s[i] == c,
        forall|j: int| 0 <= j < i ==> s[j] != c,
    ensures
        find_char(s, c) == Some(i),
    decreases i,
{
    if i == 0 {
    } else {
        let t = s.skip(1);
        assert(forall|j: int| 0 <= j < i - 1 ==> t[j] == #[trigger] s[j + 1]);
        lemma_find_char_at(t, c, i - 1);
    }
}

pub proof fn lemma_find_char_none(s: Seq<char>, c: char)
    requires
        forall|j: int| 0 <= j < s.len() ==> s[j] != c,
    ensures
        find_char(s, c) == None::<int>,
    decreases s.len(),
{
    if s.len() > 0 {
        let t = s.skip(1);
        assert(forall|j: int| 0 <= j < t.len() ==> t[j] == #[trigger] s[j + 1]);
        lemma_find_char_none(t, c);
    }
}

/// The segments of `s` between occurrences of `sep`, as `str::split`
/// yields them: one entry more than there are separators, each possibly
/// empty.
pub open spec fn split_on(s: Seq<char>, sep: char) -> Seq<Seq<char>>
    decreases s.len(),
{
    match find_char(s, sep) {
        None => seq![s],
        Some(i) => if 0 <= i < s.len() {
            seq![s.take(i)] + split_on(s.skip(i + 1), sep)
        } else {
            seq![s]
        },
    }
}

/// Splits `s` at every occurrence of `sep`.
pub fn split_str<'a>(s: &'a str, sep: char) -> (parts: Vec<&'a str>)
    ensures
        parts@.len() == split_on(s@, sep).len(),
        forall|k: int| 0 <= k < parts@.len() ==> parts@[k]@ == split_on(s@, sep)[k],
{
    let n = s.unicode_len();
    let mut parts: Vec<&'a str> = Vec::new();
    let ghost mut done: Seq<Seq<char>> = Seq::empty();
    let mut pos: usize = 0;
    let mut finished = false;
    proof {
        assert(s@.skip(0) =~= s@);
        assert(done + split_on(s@, sep) =~= split_on(s@, sep));
    }
    while !finished
        invariant
            n == s@.len(),
            pos <= n,
            parts@.len() == done.len(),
            forall|k: int| 0 <= k < done.len() ==> parts@[k]@ == done[k],
            !finished ==> split_on(s@, sep) == done + split_on(s@.skip(pos as int), sep),
            finished ==> split_on(s@, sep) == done,
        decreases n - pos + (if finished { 0int } else { 1int }),
    {
        let mut j = pos;
        while j < n && s.get_char(j) != sep
            invariant
                n == s@.len(),
                pos <= j <= n,
                forall|k: int| pos <= k < j ==> s@[k] != sep,
            decreases n - j,
        {
            j += 1;
        }
        parts.push(s.substring_char(pos, j));
        proof {
            let tail = s@.skip(pos as int);
            assert(forall|k: int| 0 <= k < tail.len() ==> tail[k] == #[trigger] s@[k + pos]);
            let seg = s@.subrange(pos as int, j as int);
            assert(tail.take(j - pos) =~= seg);
            if j < n {
                lemma_find_char_at(tail, sep, j - pos);
                assert(split_on(tail, sep) == seq![seg] + split_on(tail.skip(j - pos + 1), sep));
                assert(tail.skip(j - pos + 1) =~= s@.skip(j + 1));
                done = done.push(seg);
                assert(split_on(s@, sep) =~= done + split_on(s@.skip(j + 1), sep));
            } else {
                lemma_find_char_none(tail, sep);
                assert(split_on(tail, sep) == seq![tail]);
                assert(tail =~= seg);
                done = done.push(seg);
                assert(split_on(s@, sep) =~= done);
            }
        }
        if j < n {
            pos = j + 1;
        } else {
            finished = true;
        }
    }
    parts
}

/// The parts joined with `sep` between consecutive parts.
pub open spec fn join_seqs(parts: Seq<Seq<char>>, sep: Seq<char>) -> Seq<char>
    decreases parts.len(),
{
    if parts.len() == 0 {
        Seq::empty()
    } else if parts.len() == 1 {
        parts[0]
    } else {
        join_seqs(parts.drop_last(), sep) + sep + parts.last()
    }
}

/// Joins the parts with `sep` between consecutive parts.
pub fn join_strings(parts: &Vec<String>, sep: &str) -> (r: String)
    ensures
        r@ == join_seqs(parts.deep_view(), sep@),
{
    let ghost dv = parts.deep_view();
    proof {
        assert(dv.len() == parts@.len());
    }
    let mut r = String::new();
    let mut i: usize = 0;
    while i < parts.len()
        invariant
            i <= parts@.len(),
            dv == parts.deep_view(),
            dv.len() == parts@.len(),
            forall|k: int| 0 <= k < dv.len() ==> dv[k] == #[trigger] parts@[k]@,
            r@ == join_seqs(dv.take(i as int), sep@),
        decreases parts@.len() - i,
    {
        if i > 0 {
            r.append(sep);
        }
        r.append(parts[i].as_str());
        proof {
            let t = dv.take(i + 1);
            assert(t.drop_last() =~= dv.take(i as int));
            assert(t.last() == dv[i as int]);
            if i == 0 {
                assert(r@ =~= join_seqs(t, sep@));
            } else {
                assert(r@ =~= join_seqs(t, sep@));
            }
        }
        i += 1;
    }
    proof {
        assert(dv.take(parts@.len() as int) =~= dv);
    }
    r
}

/// Whether `needle` occurs in `hay` at position `k`.
pub open spec fn matches_at(hay: Seq<char>, needle: Seq<char>, k: int) -> bool {
    0 <= k && k + needle.len() <= hay.len() && hay.subrange(k, k + needle.len()) == needle
}

/// The first position at or after `from` where `needle` occurs in `hay`.
pub open spec fn find_sub_from(hay: Seq<char>, needle: Seq<char>, from: int) -> Option<int>
    decreases hay.len() + 1 - from,
{
    if from < 0 || from + needle.len() > hay.len() {
        None
    } else if matches_at(hay, needle, from) {
        Some(from)
    } else {
        find_sub_from(hay, needle, from + 1)
    }
}

pub proof fn lemma_find_sub_from(hay: Seq<char>, needle: Seq<char>, from: int)
    ensures
        match find_sub_from(hay, needle, from) {
            Option::None => true,
            Option::Some(i) => from <= i && matches_at(hay, needle, i),
        },
    decreases hay.len() + 1 - from,
{
    if !(from < 0 || from + needle.len() > hay.len()) && !matches_at(hay, needle, from) {
        lemma_find_sub_from(hay, needle, from + 1);
    }
}

/// Whether `needle` occurs in `s` at position `k`.
pub fn has_prefix_at(s: &str, k: usize, needle: &str) -> (r: bool)
    ensures
        r == matches_at(s@, needle@, k as int),
{
    let n = s.unicode_len();
    let m = needle.unicode_len();
    if k > n || m > n - k {
        return false;
    }
    let mut j: usize = 0;
    while j < m
        invariant
            j <= m,
            n == s@.len(),
            m == needle@.len(),
            k + m <= n,
            forall|t: int| 0 <= t < j ==> s@[k + t] == needle@[t],
        decreases m - j,
    {
        if s.get_char(k + j) != needle.get_char(j) {
            proof {
                if matches_at(s@, needle@, k as int) {
                    assert(s@.subrange(k as int, k + m)[j as int] == needle@[j as int]);
                }
            }
            return false;
        }
        j += 1;
    }
    proof {
        assert(s@.subrange(k as int, k + m) =~= needle@);
    }
    true
}

/// Finds the first occurrence of `needle` in `s` at or after `from`.
pub fn find_from(s: &str, from: usize, needle: &str) -> (r: Option<usize>)
    requires
        from <= s@.len(),
    ensures
        (match find_sub_from(s@, needle@, from as int) {
            Option::None => r is None,
            Option::Some(i) => (r matches Some(u) && u == i),
        }),
{
    let n = s.unicode_len();
    let m = needle.unicode_len();
    if m > n - from {
        return None;
    }
    let last = n - m;
    let mut k = from;
    while k < last
        invariant
            from <= k <= last,
            n == s@.len(),
            m == needle@.len(),
            last == n - m,
            find_sub_from(s@, needle@, from as int) == find_sub_from(s@, needle@, k as int),
        decreases last - k,
    {
        if has_prefix_at(s, k, needle) {
            return Some(k);
        }
        k += 1;
    }
    if has_prefix_at(s, k, needle) {
        return Some(k);
    }
    proof {
        assert(find_sub_from(s@, needle@, k as int) == find_sub_from(s@, needle@, k + 1));
        assert(find_sub_from(s@, needle@, k + 1) is None);
    }
    None
}

/// Whether `needle` occurs somewhere in `hay` as a contiguous run.
pub open spec fn contains_sub(hay: Seq<char>, needle: Seq<char>) -> bool {
    exists|i: int|
        0 <= i && i + needle.len() <= hay.len() && #[trigger] hay.subrange(i, i + needle.len())
            == needle
}

pub proof fn lemma_contains_sub_concat_left(a: Seq<char>, b: Seq<char>, n: Seq<char>)
    requires
        contains_sub(a, n),
    ensures
        contains_sub(a + b, n),
{
    let i = choose|i: int|
        0 <= i && i + n.len() <= a.len() && #[trigger] a.subrange(i, i + n.len()) == n;
    assert((a + b).subrange(i, i + n.len()) =~= a.subrange(i, i + n.len()));
}

pub proof fn lemma_contains_sub_concat_right(a: Seq<char>, b: Seq<char>, n: Seq<char>)
    requires
        contains_sub(b, n),
    ensures
        contains_sub(a + b, n),
{
    let i = choose|i: int|
        0 <= i && i + n.len() <= b.len() && #[trigger] b.subrange(i, i + n.len()) == n;
    let j = a.len() + i;
    assert((a + b).subrange(j, j + n.len()) =~= b.subrange(i, i + n.len()));
}

/// Every part occurs in the joined text as a contiguous run.
pub proof fn lemma_join_contains_part(parts: Seq<Seq<char>>, sep: Seq<char>, i: int)
    requires
        0 <= i < parts.len(),
    ensures
        contains_sub(join_seqs(parts, sep), parts[i]),
    decreases parts.len(),
{
    let p = parts[i];
    if parts.len() == 1 {
        assert(join_seqs(parts, sep) == p);
        assert(p.subrange(0, 0 + p.len() as int) =~= p);
        assert(contains_sub(p, p));
    } else if i == parts.len() - 1 {
        assert(parts.last().subrange(0, 0 + parts.last().len() as int) =~= parts.last());
        assert(contains_sub(parts.last(), p));
        lemma_contains_sub_concat_right(sep, parts.last(), p);
        lemma_contains_sub_concat_right(join_seqs(parts.drop_last(), sep), sep + parts.last(), p);
        assert(join_seqs(parts.drop_last(), sep) + (sep + parts.last()) =~= join_seqs(
            parts.drop_last(),
            sep,
        ) + sep + parts.last());
    } else {
        assert(parts.drop_last()[i] == p);
        lemma_join_contains_part(parts.drop_last(), sep, i);
        lemma_contains_sub_concat_left(join_seqs(parts.drop_last(), sep), sep, p);
        lemma_contains_sub_concat_left(join_seqs(parts.drop_last(), sep) + sep, parts.last(), p);
    }
}

/// `s` with every leading `'-'` removed, as `str::trim_start_matches('-')`
/// leaves it.
pub open spec fn strip_dashes(s: Seq<char>) -> Seq<char>
    decreases s.len(),
{
    if s.len() > 0 && s[0] == '-' {
        strip_dashes(s.skip(1))
    } else {
        s
    }
}

/// Removes every leading `'-'` from `s`.
pub fn trim_dashes<'a>(s: &'a str) -> (r: &'a str)
    ensures
        r@ == strip_dashes(s@),
{
    let n = s.unicode_len();
    let mut i: usize = 0;
    proof {
        assert(s@.skip(0) =~= s@);
    }
    while i < n && s.get_char(i) == '-'
        invariant
            i <= n,
            n == s@.len(),
            strip_dashes(s@) == strip_dashes(s@.skip(i as int)),
        decreases n - i,
    {
        proof {
            let tail = s@.skip(i as int);
            assert(tail[0] == s@[i as int]);
            assert(tail.skip(1) =~= s@.skip(i + 1));
        }
        i += 1;
    }
    proof {
        let tail = s@.skip(i as int);
        if i < n {
            assert(tail[0] == s@[i as int]);
            assert(strip_dashes(tail) == tail);
        } else {
            assert(tail.len() == 0);
        }
        assert(s@.subrange(i as int, n as int) =~= tail);
    }
    s.substring_char(i, n)
}

/// Whether `s` starts with `'-'`, marking an exclusion entry in an
/// event-id selector.
pub fn starts_with_dash(s: &str) -> (r: bool)
    ensures
        r == (s@.len() > 0 && s@[0] == '-'),
{
    s.unicode_len() > 0 && s.get_char(0) == '-'
}

/// `s` without its leading null characters.
pub open spec fn trim_start_nulls(s: Seq<char>) -> Seq<char>
    decreases s.len(),
{
    if s.len() > 0 && s[0] == '\0' {
        trim_start_nulls(s.skip(1))
    } else {
        s
    }
}

/// `s` without its trailing null characters.
pub open spec fn trim_end_nulls(s: Seq<char>) -> Seq<char>
    decreases s.len(),
{
    if s.len() > 0 && s.last() == '\0' {
        trim_end_nulls(s.drop_last())
    } else {
        s
    }
}

/// `s` without null padding on either end, as `str::trim_matches` leaves
/// it for the null character.
pub open spec fn spec_trim_nulls(s: Seq<char>) -> Seq<char> {
    trim_end_nulls(trim_start_nulls(s))
}

/// Removes null padding from both ends of `s`.
pub fn trim_nulls(s: &str) -> (r: String)
    ensures
        r@ == spec_trim_nulls(s@),
{
    let n = s.unicode_len();
    let mut a: usize = 0;
    proof {
        assert(s@.skip(0) =~= s@);
    }
    while a < n && s.get_char(a) == '\0'
        invariant
            a <= n,
            n == s@.len(),
            trim_start_nulls(s@) == trim_start_nulls(s@.skip(a as int)),
        decreases n - a,
    {
        proof {
            let tail = s@.skip(a as int);
            assert(tail[0] == s@[a as int]);
            assert(tail.skip(1) =~= s@.skip(a + 1));
        }
        a += 1;
    }
    let ghost t = s@.skip(a as int);
    proof {
        if a < n {
            assert(t[0] == s@[a as int]);
            assert(trim_start_nulls(t) == t);
        } else {
            assert(t.len() == 0);
        }
        assert(trim_start_nulls(s@) == t);
        assert(t.take(n - a) =~= t);
    }
    let mut b: usize = n;
    while b > a && s.get_char(b - 1) == '\0'
        invariant
            a <= b <= n,
            n == s@.len(),
            t == s@.skip(a as int),
            trim_end_nulls(t) == trim_end_nulls(t.take(b - a)),
        decreases b,
    {
        proof {
            let w = t.take(b - a);
            assert(w.last() == s@[b - 1]);
            assert(w.drop_last() =~= t.take(b - 1 - a));
        }
        b -= 1;
    }
    proof {
        let w = t.take(b - a);
        if b > a {
            assert(w.last() == s@[b - 1]);
            assert(trim_end_nulls(w) == w);
        } else {
            assert(w.len() == 0);
        }
        assert(s@.subrange(a as int, b as int) =~= w);
    }
    let r = s.substring_char(a, b);
    String::from_str(r)
}

} // verus!
