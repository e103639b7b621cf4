//! Character-level text handling: whitespace, trimming, splitting, line
//! breaking, substring search and unsigned integer parsing, each stated over
//! `Seq<char>` the way the standard library's `str` methods behave.
use vstd::prelude::*;

verus! {

/// Unicode `White_Space`, the class that `char::is_whitespace` tests.
pub open spec fn is_ws(c: char) -> bool {
    let u = c as u32;
    ||| 9 <= u <= 13
    ||| u == 32
    ||| u == 0x85
    ||| u == 0xa0
    ||| u == 0x1680
    ||| 0x2000 <= u <= 0x200a
    ||| u == 0x2028
    ||| u == 0x2029
    ||| u == 0x202f
    ||| u == 0x205f
    ||| u == 0x3000
}

pub fn is_whitespace(c: char) -> (b: bool)
    ensures
        b == is_ws(c),
{
    let u = c as u32;
    (9 <= u && u <= 13) || u == 32 || u == 0x85 || u == 0xa0 || u == 0x1680 || (0x2000 <= u && u
        <= 0x200a) || u == 0x2028 || u == 0x2029 || u == 0x202f || u == 0x205f || u == 0x3000
}

/// What separates the pieces of a split.
#[derive(Clone, Copy)]
pub enum Separator {
    /// One given character, as in `str::split(c)`.
    Char(char),
    /// Any whitespace character, as in `str::split(char::is_whitespace)`.
    Whitespace,
}

pub open spec fn separates(sep: Separator, c: char) -> bool {
    match sep {
        Separator::Char(d) => c == d,
        Separator::Whitespace => is_ws(c),
    }
}

fn separates_exec(sep: Separator, c: char) -> (b: bool)
    ensures
        b == separates(sep, c),
{
    match sep {
        Separator::Char(d) => c == d,
        Separator::Whitespace => is_whitespace(c),
    }
}

/// The pieces between separators, empty pieces included; never empty itself
/// (`"".split(',')` yields one empty piece).
pub open spec fn pieces(s: Seq<char>, sep: Separator) -> Seq<Seq<char>>
    decreases s.len(),
{
    if s.len() == 0 {
        seq![Seq::<char>::empty()]
    } else {
        let prev = pieces(s.drop_last(), sep);
        if separates(sep, s.last()) {
            prev.push(Seq::<char>::empty())
        } else {
            prev.drop_last().push(prev.last().push(s.last()))
        }
    }
}

pub proof fn lemma_pieces_nonempty(s: Seq<char>, sep: Separator)
    ensures
        pieces(s, sep).len() >= 1,
    decreases s.len(),
{
    if s.len() > 0 {
        lemma_pieces_nonempty(s.drop_last(), sep);
    }
}

/// The pieces that are not empty, in order.
pub open spec fn nonempty_pieces(ps: Seq<Seq<char>>) -> Seq<Seq<char>>
    decreases ps.len(),
{
    if ps.len() == 0 {
        Seq::<Seq<char>>::empty()
    } else if ps.last().len() == 0 {
        nonempty_pieces(ps.drop_last())
    } else {
        nonempty_pieces(ps.drop_last()).push(ps.last())
    }
}

/// The words of `s`, as `str::split_whitespace` yields them.
pub open spec fn words(s: Seq<char>) -> Seq<Seq<char>> {
    nonempty_pieces(pieces(s, Separator::Whitespace))
}

/// A line without the `'\r'` of a `"\r\n"` ending.
pub open spec fn strip_cr(p: Seq<char>) -> Seq<char> {
    if p.len() > 0 && p.last() == '\r' {
        p.drop_last()
    } else {
        p
    }
}

pub open spec fn strip_cr_all(ps: Seq<Seq<char>>) -> Seq<Seq<char>> {
    ps.map_values(|p: Seq<char>| strip_cr(p))
}

/// The lines of `s`, as `str::lines` yields them: split at `'\n'`, a `'\r'`
/// just before a `'\n'` dropped, and no final empty line.
pub open spec fn lines(s: Seq<char>) -> Seq<Seq<char>> {
    let ps = pieces(s, Separator::Char('\n'));
    let body = strip_cr_all(ps.drop_last());
    if ps.last().len() == 0 {
        body
    } else {
        body.push(ps.last())
    }
}

pub open spec fn trim_start(s: Seq<char>) -> Seq<char>
    decreases s.len(),
{
    if s.len() > 0 && is_ws(s[0]) {
        trim_start(s.drop_first())
    } else {
        s
    }
}

pub open spec fn trim_end(s: Seq<char>) -> Seq<char>
    decreases s.len(),
{
    if s.len() > 0 && is_ws(s.last()) {
        trim_end(s.drop_last())
    } else {
        s
    }
}

/// `str::trim`: leading and trailing whitespace removed.
pub open spec fn trim(s: Seq<char>) -> Seq<char> {
    trim_end(trim_start(s))
}

pub open spec fn starts_with(s: Seq<char>, prefix: Seq<char>) -> bool {
    prefix.len() <= s.len() && s.subrange(0, prefix.len() as int) == prefix
}

pub open spec fn occurs_at(s: Seq<char>, pat: Seq<char>, i: int) -> bool {
    0 <= i && i + pat.len() <= s.len() && s.subrange(i, i + pat.len()) == pat
}

/// The first position at or after `i` where `pat` occurs in `s`.
pub open spec fn find_from(s: Seq<char>, pat: Seq<char>, i: int) -> Option<int>
    decreases s.len() + 1 - i,
{
    if i < 0 || i + pat.len() > s.len() {
        None
    } else if occurs_at(s, pat, i) {
        Some(i)
    } else {
        find_from(s, pat, i + 1)
    }
}

/// `str::find`: the first position where `pat` occurs.
pub open spec fn find(s: Seq<char>, pat: Seq<char>) -> Option<int> {
    find_from(s, pat, 0)
}

/// `str::contains`.
pub open spec fn contains(s: Seq<char>, pat: Seq<char>) -> bool {
    find(s, pat) is Some
}

pub open spec fn is_digit(c: char) -> bool {
    '0' <= c && c <= '9'
}

pub open spec fn all_digits(s: Seq<char>) -> bool {
    forall|i: int| 0 <= i < s.len() ==> is_digit(#[trigger] s[i])
}

pub open spec fn digit_value(c: char) -> nat {
    (c as int - '0' as int) as nat
}

/// The number that a string of decimal digits writes.
pub open spec fn digits_value(s: Seq<char>) -> nat
    decreases s.len(),
{
    if s.len() == 0 {
        0
    } else {
        digits_value(s.drop_last()) * 10 + digit_value(s.last())
    }
}

/// `str::parse::<u64>`: an optional `'+'`, then at least one decimal digit,
/// the value fitting in `u64`.
pub open spec fn parse_u64(s: Seq<char>) -> Option<u64> {
    let body = if s.len() > 0 && s[0] == '+' {
        s.drop_first()
    } else {
        s
    };
    if body.len() > 0 && all_digits(body) && digits_value(body) <= u64::MAX {
        Some(digits_value(body) as u64)
    } else {
        None
    }
}

/// `str::parse::<i64>`: an optional sign, then at least one decimal digit,
/// the value fitting in `i64`.
pub open spec fn parse_i64(s: Seq<char>) -> Option<i64> {
    let negative = s.len() > 0 && s[0] == '-';
    let body = if s.len() > 0 && (s[0] == '+' || s[0] == '-') {
        s.drop_first()
    } else {
        s
    };
    if body.len() > 0 && all_digits(body) {
        if negative && digits_value(body) <= 0x8000_0000_0000_0000 {
            Some((-(digits_value(body) as int)) as i64)
        } else if !negative && digits_value(body) <= i64::MAX {
            Some(digits_value(body) as i64)
        } else {
            None
        }
    } else {
        None
    }
}

// ---------------------------------------------------------------------------
// Executable counterparts.
// ---------------------------------------------------------------------------

/// Appends a character with `String::push`. Claimed: the string's characters
/// gain `c` at the end.
#[verifier::external_body]
pub(crate) fn push_char(s: &mut String, c: char)
    ensures
        final(s)@ == old(s)@.push(c),
{
    s.push(c);
}

/// The characters of `s`.
pub fn chars_of(s: &str) -> (v: Vec<char>)
    ensures
        v@ == s@,
{
    let mut v: Vec<char> = Vec::new();
    for c in it: s.chars()
        invariant
            v@ == it.seq().take(it.index() as int),
            it.seq() == s@,
    {
        v.push(c);
    }
    v
}

/// The string made of the characters of `v`.
pub fn string_of(v: &Vec<char>) -> (s: String)
    ensures
        s@ == v@,
{
    let mut s = String::new();
    for i in 0..v.len()
        invariant
            s@ == v@.take(i as int),
    {
        push_char(&mut s, v[i]);
        assert(v@.take(i + 1) == v@.take(i as int).push(v@[i as int]));
    }
    assert(v@.take(v.len() as int) == v@);
    s
}

/// Appends the characters of `v` to `s`.
pub fn push_chars(s: &mut String, v: &Vec<char>)
    ensures
        final(s)@ == old(s)@ + v@,
{
    let ghost start = s@;
    for i in 0..v.len()
        invariant
            s@ == start + v@.take(i as int),
    {
        push_char(s, v[i]);
        assert(v@.take(i + 1) == v@.take(i as int).push(v@[i as int]));
    }
    assert(v@.take(v.len() as int) == v@);
}

/// A string holding the characters of `t`.
pub fn text(t: &str) -> (s: String)
    ensures
        s@ == t@,
{
    let mut s = String::new();
    push_str(&mut s, t);
    assert(s@ =~= t@);
    s
}

/// Appends `t` to `s`.
pub fn push_str(s: &mut String, t: &str)
    ensures
        final(s)@ == old(s)@ + t@,
{
    let v = chars_of(t);
    push_chars(s, &v);
}

pub proof fn lemma_deep_chars(v: Vec<char>)
    ensures
        v.deep_view() == v@,
{
    assert(v.deep_view() =~= v@);
}

proof fn lemma_take_push(s: Seq<char>, i: int)
    requires
        0 <= i < s.len(),
    ensures
        s.take(i + 1).drop_last() == s.take(i),
        s.take(i + 1).last() == s[i],
        s.take(i + 1).len() > 0,
{
    assert(s.take(i + 1).drop_last() =~= s.take(i));
}

/// `pieces(s, sep)`, computed.
pub fn split_pieces(s: &Vec<char>, sep: Separator) -> (ps: Vec<Vec<char>>)
    ensures
        ps.deep_view() == pieces(s@, sep),
{
    let mut done: Vec<Vec<char>> = Vec::new();
    let mut cur: Vec<char> = Vec::new();
    let mut i: usize = 0;
    assert(s@.take(0) =~= Seq::<char>::empty());
    assert(done.deep_view().push(cur@) =~= seq![Seq::<char>::empty()]);
    while i < s.len()
        invariant
            i <= s.len(),
            pieces(s@.take(i as int), sep) == done.deep_view().push(cur@),
        decreases s.len() - i,
    {
        let c = s[i];
        proof {
            lemma_take_push(s@, i as int);
        }
        let ghost prev = done.deep_view();
        let ghost prev_cur = cur@;
        if separates_exec(sep, c) {
            proof {
                lemma_deep_chars(cur);
            }
            done.push(cur);
            cur = Vec::new();
            assert(done.deep_view() =~= prev.push(prev_cur));
            assert(pieces(s@.take(i + 1), sep) =~= done.deep_view().push(cur@));
        } else {
            cur.push(c);
            assert(pieces(s@.take(i + 1), sep) =~= done.deep_view().push(cur@));
        }
        i = i + 1;
    }
    let ghost prev = done.deep_view();
    let ghost last = cur@;
    proof {
        lemma_deep_chars(cur);
    }
    done.push(cur);
    assert(done.deep_view() =~= prev.push(last));
    assert(s@.take(s.len() as int) =~= s@);
    done
}

/// `nonempty_pieces(ps)`, computed.
pub fn keep_nonempty(ps: Vec<Vec<char>>) -> (out: Vec<Vec<char>>)
    ensures
        out.deep_view() == nonempty_pieces(ps.deep_view()),
{
    let mut out: Vec<Vec<char>> = Vec::new();
    let ghost all = ps.deep_view();
    let n = ps.len();
    let mut i: usize = 0;
    assert(all.take(0) =~= Seq::<Seq<char>>::empty());
    while i < n
        invariant
            n == all.len(),
            i <= n,
            ps.deep_view() == all,
            out.deep_view() == nonempty_pieces(all.take(i as int)),
        decreases n - i,
    {
        let ghost before = out.deep_view();
        assert(all.take(i + 1).drop_last() =~= all.take(i as int));
        assert(all.take(i + 1).last() == all[i as int]);
        if ps[i].len() > 0 {
            let p = copy_chars(&ps[i]);
            proof {
                lemma_deep_chars(p);
            }
            out.push(p);
            assert(out.deep_view() =~= before.push(all[i as int]));
        }
        i = i + 1;
    }
    assert(all.take(n as int) =~= all);
    out
}

/// A copy of `v`.
pub fn copy_chars(v: &Vec<char>) -> (w: Vec<char>)
    ensures
        w@ == v@,
{
    let mut w: Vec<char> = Vec::new();
    for i in 0..v.len()
        invariant
            w@ == v@.take(i as int),
    {
        w.push(v[i]);
        assert(v@.take(i + 1) =~= v@.take(i as int).push(v@[i as int]));
    }
    assert(v@.take(v.len() as int) =~= v@);
    w
}

/// The characters of `v` from `lo` up to `hi`.
pub fn sub_chars(v: &Vec<char>, lo: usize, hi: usize) -> (w: Vec<char>)
    requires
        lo <= hi <= v.len(),
    ensures
        w@ == v@.subrange(lo as int, hi as int),
{
    let mut w: Vec<char> = Vec::new();
    let mut i = lo;
    while i < hi
        invariant
            lo <= i <= hi <= v.len(),
            w@ == v@.subrange(lo as int, i as int),
        decreases hi - i,
    {
        w.push(v[i]);
        assert(v@.subrange(lo as int, i + 1) =~= v@.subrange(lo as int, i as int).push(v@[i as int]));
        i = i + 1;
    }
    w
}

/// `words(s)`, computed.
pub fn split_words(s: &Vec<char>) -> (ws: Vec<Vec<char>>)
    ensures
        ws.deep_view() == words(s@),
{
    let ps = split_pieces(s, Separator::Whitespace);
    keep_nonempty(ps)
}

/// `lines(s)`, computed.
pub fn split_lines(s: &Vec<char>) -> (ls: Vec<Vec<char>>)
    ensures
        ls.deep_view() == lines(s@),
{
    let ps = split_pieces(s, Separator::Char('\n'));
    let ghost all = ps.deep_view();
    proof {
        lemma_pieces_nonempty(s@, Separator::Char('\n'));
    }
    let n = ps.len();
    let mut out: Vec<Vec<char>> = Vec::new();
    let mut i: usize = 0;
    while i + 1 < n
        invariant
            n == all.len(),
            n >= 1,
            i + 1 <= n,
            ps.deep_view() == all,
            out.deep_view() == strip_cr_all(all.take(i as int)),
        decreases n - i,
    {
        let ghost before = out.deep_view();
        let p = &ps[i];
        let len = p.len();
        let line = if len > 0 && p[len - 1] == '\r' {
            sub_chars(p, 0, len - 1)
        } else {
            copy_chars(p)
        };
        assert(p@ == all[i as int]);
        if len > 0 {
            assert(p@.drop_last() =~= p@.subrange(0, len - 1));
        }
        assert(line@ == strip_cr(all[i as int]));
        proof {
            lemma_deep_chars(line);
        }
        let ghost lv = line@;
        out.push(line);
        assert(out.deep_view() =~= before.push(lv));
        assert(strip_cr_all(all.take(i + 1)) =~= strip_cr_all(all.take(i as int)).push(
            strip_cr(all[i as int]),
        ));
        i = i + 1;
    }
    assert(all.take(i as int) =~= all.drop_last());
    let last = &ps[n - 1];
    assert(last@ == all.last());
    if last.len() > 0 {
        let ghost before = out.deep_view();
        let l = copy_chars(last);
        proof {
            lemma_deep_chars(l);
        }
        out.push(l);
        assert(out.deep_view() =~= before.push(all.last()));
    }
    out
}

proof fn lemma_trim_start_step(s: Seq<char>, i: int)
    requires
        0 <= i < s.len(),
        is_ws(s[i]),
    ensures
        trim_start(s.subrange(i, s.len() as int)) == trim_start(s.subrange(i + 1, s.len() as int)),
{
    let t = s.subrange(i, s.len() as int);
    assert(t.drop_first() =~= s.subrange(i + 1, s.len() as int));
}

proof fn lemma_trim_end_step(s: Seq<char>, j: int)
    requires
        0 < j <= s.len(),
        is_ws(s[j - 1]),
    ensures
        trim_end(s.subrange(0, j)) == trim_end(s.subrange(0, j - 1)),
{
    let t = s.subrange(0, j);
    assert(t.drop_last() =~= s.subrange(0, j - 1));
}

/// `trim(s)`, computed.
pub fn trim_chars(s: &Vec<char>) -> (t: Vec<char>)
    ensures
        t@ == trim(s@),
{
    let n = s.len();
    let mut lo: usize = 0;
    assert(s@.subrange(0, n as int) =~= s@);
    while lo < n && is_whitespace(s[lo])
        invariant
            lo <= n == s.len(),
            trim_start(s@) == trim_start(s@.subrange(lo as int, n as int)),
        decreases n - lo,
    {
        proof {
            lemma_trim_start_step(s@, lo as int);
        }
        lo = lo + 1;
    }
    let ghost u = s@.subrange(lo as int, n as int);
    assert(trim_start(u) == u);
    let mut hi: usize = n;
    assert(u.subrange(0, (n - lo) as int) =~= u);
    while hi > lo && is_whitespace(s[hi - 1])
        invariant
            lo <= hi <= n == s.len(),
            u == s@.subrange(lo as int, n as int),
            trim_end(u) == trim_end(u.subrange(0, (hi - lo) as int)),
        decreases hi - lo,
    {
        proof {
            lemma_trim_end_step(u, (hi - lo) as int);
            assert(u.subrange(0, (hi - lo - 1) as int) =~= u.subrange(0, (hi - 1 - lo) as int));
        }
        hi = hi - 1;
    }
    let ghost w = u.subrange(0, (hi - lo) as int);
    assert(trim_end(w) == w);
    assert(w =~= s@.subrange(lo as int, hi as int));
    sub_chars(s, lo, hi)
}

/// Whether `pat` occurs in `s` at `i`, computed.
fn occurs_at_exec(s: &Vec<char>, pat: &Vec<char>, i: usize) -> (b: bool)
    requires
        i + pat.len() <= s.len(),
    ensures
        b == occurs_at(s@, pat@, i as int),
{
    let mut k: usize = 0;
    while k < pat.len()
        invariant
            i + pat.len() <= s.len(),
            k <= pat.len(),
            forall|m: int| 0 <= m < k ==> s@[i + m] == pat@[m],
        decreases pat.len() - k,
    {
        if s[i + k] != pat[k] {
            assert(s@.subrange(i as int, i + pat.len())[k as int] != pat@[k as int]);
            return false;
        }
        k = k + 1;
    }
    assert(s@.subrange(i as int, i + pat.len()) =~= pat@);
    true
}

/// `find(s, pat)`, computed.
pub fn find_chars(s: &Vec<char>, pat: &Vec<char>) -> (r: Option<usize>)
    ensures
        match r {
            Some(k) => find(s@, pat@) == Some(k as int) && occurs_at(s@, pat@, k as int),
            None => find(s@, pat@) is None,
        },
{
    if pat.len() > s.len() {
        return None;
    }
    let last = s.len() - pat.len();
    let mut i: usize = 0;
    while i <= last
        invariant
            i <= last,
            last + pat.len() == s.len(),
            find(s@, pat@) == find_from(s@, pat@, i as int),
        decreases last + 1 - i,
    {
        if occurs_at_exec(s, pat, i) {
            return Some(i);
        }
        if i == last {
            return None;
        }
        i = i + 1;
    }
    None
}

/// `starts_with(s, prefix)`, computed.
pub fn starts_with_chars(s: &Vec<char>, prefix: &Vec<char>) -> (b: bool)
    ensures
        b == starts_with(s@, prefix@),
{
    if prefix.len() > s.len() {
        return false;
    }
    let b = occurs_at_exec(s, prefix, 0);
    b
}

pub proof fn lemma_digits_value_prefix(s: Seq<char>, i: int)
    requires
        0 <= i <= s.len(),
        all_digits(s),
    ensures
        digits_value(s.take(i)) <= digits_value(s),
    decreases s.len(),
{
    if i < s.len() {
        assert(s.drop_last().take(i) =~= s.take(i));
        assert(all_digits(s.drop_last()));
        lemma_digits_value_prefix(s.drop_last(), i);
    } else {
        assert(s.take(i) =~= s);
    }
}

/// The value of an all-digit string, or `None` where it does not fit in `u64`.
fn digits_to_u64(body: &Vec<char>) -> (r: Option<u64>)
    requires
        all_digits(body@),
    ensures
        match r {
            Some(v) => v == digits_value(body@),
            None => digits_value(body@) > u64::MAX,
        },
{
    let mut v: u64 = 0;
    let mut i: usize = 0;
    assert(body@.take(0) =~= Seq::<char>::empty());
    while i < body.len()
        invariant
            i <= body.len(),
            all_digits(body@),
            v == digits_value(body@.take(i as int)),
        decreases body.len() - i,
    {
        let c = body[i];
        assert(is_digit(body@[i as int]));
        let d = (c as u32 - '0' as u32) as u64;
        proof {
            lemma_take_push(body@, i as int);
        }
        assert(d == digit_value(c));
        if v > (u64::MAX - d) / 10 {
            proof {
                assert(digits_value(body@.take(i + 1)) == v * 10 + d);
                lemma_digits_value_prefix(body@, i + 1);
            }
            return None;
        }
        v = v * 10 + d;
        i = i + 1;
    }
    assert(body@.take(body.len() as int) =~= body@);
    Some(v)
}

fn all_digits_exec(s: &Vec<char>) -> (b: bool)
    ensures
        b == all_digits(s@),
{
    let mut i: usize = 0;
    while i < s.len()
        invariant
            i <= s.len(),
            forall|k: int| 0 <= k < i ==> is_digit(s@[k]),
        decreases s.len() - i,
    {
        if !(s[i] >= '0' && s[i] <= '9') {
            assert(!is_digit(s@[i as int]));
            return false;
        }
        i = i + 1;
    }
    true
}

/// `parse_u64(s)`, computed.
pub fn parse_u64_chars(s: &Vec<char>) -> (r: Option<u64>)
    ensures
        r == parse_u64(s@),
{
    let from: usize = if s.len() > 0 && s[0] == '+' {
        1
    } else {
        0
    };
    let body = sub_chars(s, from, s.len());
    if from == 1 {
        assert(body@ =~= s@.drop_first());
    } else {
        assert(body@ =~= s@);
    }
    if body.len() == 0 {
        return None;
    }
    if !all_digits_exec(&body) {
        return None;
    }
    digits_to_u64(&body)
}

/// `parse_i64(s)`, computed.
pub fn parse_i64_chars(s: &Vec<char>) -> (r: Option<i64>)
    ensures
        r == parse_i64(s@),
{
    let negative = s.len() > 0 && s[0] == '-';
    let from: usize = if s.len() > 0 && (s[0] == '+' || s[0] == '-') {
        1
    } else {
        0
    };
    let body = sub_chars(s, from, s.len());
    if from == 1 {
        assert(body@ =~= s@.drop_first());
    } else {
        assert(body@ =~= s@);
    }
    if body.len() == 0 {
        return None;
    }
    if !all_digits_exec(&body) {
        return None;
    }
    match digits_to_u64(&body) {
        None => None,
        Some(v) => {
            if negative {
                if v <= 0x8000_0000_0000_0000 {
                    if v == 0x8000_0000_0000_0000 {
                        Some(i64::MIN)
                    } else {
                        let w = v as i64;
                        Some(-w)
                    }
                } else {
                    None
                }
            } else {
                if v <= i64::MAX as u64 {
                    Some(v as i64)
                } else {
                    None
                }
            }
        },
    }
}

} // verus!
