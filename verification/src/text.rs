//! Character-level text handling: the string operations the proxy logic is
//! built from, each with a specification over `Seq<char>`.
use vstd::prelude::*;

verus! {

// ---------------------------------------------------------------------------
// Building strings
// ---------------------------------------------------------------------------

/// Appends one character to a string (`String::push`).
#[verifier::external_body]
pub(crate) fn push_char(s: &mut String, c: char)
    ensures
        final(s)@ == old(s)@.push(c),
{
    s.push(c);
}

/// The characters of a string slice, in order.
pub fn chars_of(s: &str) -> (v: Vec<char>)
    ensures
        v@ == s@,
{
    let mut v: Vec<char> = Vec::new();
    for c in it: s.chars()
        invariant
            v@ == it.seq().take(it.index() as int),
    {
        v.push(c);
    }
    v
}

/// Appends the given characters to a string.
pub fn push_chars(s: &mut String, cs: &[char])
    ensures
        final(s)@ == old(s)@ + cs@,
{
    let ghost start = s@;
    let mut i: usize = 0;
    while i < cs.len()
        invariant
            i <= cs.len(),
            s@ == start + cs@.take(i as int),
        decreases cs.len() - i,
    {
        push_char(s, cs[i]);
        assert(cs@.take(i + 1) =~= cs@.take(i as int).push(cs@[i as int]));
        i = i + 1;
    }
    assert(cs@.take(cs.len() as int) =~= cs@);
}

/// A string holding exactly the given characters.
pub fn string_of(cs: &[char]) -> (s: String)
    ensures
        s@ == cs@,
{
    let mut s = String::new();
    push_chars(&mut s, cs);
    assert(s@ =~= cs@);
    s
}

/// A copy of `v[lo..hi]`.
pub fn slice_range(v: &[char], lo: usize, hi: usize) -> (r: Vec<char>)
    requires
        lo <= hi <= v.len(),
    ensures
        r@ == v@.subrange(lo as int, hi as int),
{
    let mut r: Vec<char> = Vec::new();
    let mut i: usize = lo;
    while i < hi
        invariant
            lo <= i <= hi <= v.len(),
            r@ == v@.subrange(lo as int, i as int),
        decreases hi - i,
    {
        r.push(v[i]);
        assert(v@.subrange(lo as int, i + 1) =~= v@.subrange(lo as int, i as int).push(v@[i as int]));
        i = i + 1;
    }
    r
}

/// Whether two character sequences are equal.
pub fn chars_eq(a: &[char], b: &[char]) -> (r: bool)
    ensures
        r == (a@ == b@),
{
    if a.len() != b.len() {
        return false;
    }
    let mut i: usize = 0;
    while i < a.len()
        invariant
            a.len() == b.len(),
            i <= a.len(),
            forall|j: int| 0 <= j < i ==> a@[j] == b@[j],
        decreases a.len() - i,
    {
        if a[i] != b[i] {
            return false;
        }
        i = i + 1;
    }
    assert(a@ =~= b@);
    true
}

// ---------------------------------------------------------------------------
// Prefixes, suffixes, searching
// ---------------------------------------------------------------------------

/// `s` begins with `p`.
pub open spec fn has_prefix(s: Seq<char>, p: Seq<char>) -> bool {
    p.len() <= s.len() && s.take(p.len() as int) == p
}

/// `s` ends with `p`.
pub open spec fn has_suffix(s: Seq<char>, p: Seq<char>) -> bool {
    p.len() <= s.len() && s.skip(s.len() - p.len()) == p
}

/// Whether `s` begins with `p` (`str::starts_with`).
pub fn starts_with(s: &[char], p: &[char]) -> (r: bool)
    ensures
        r == has_prefix(s@, p@),
{
    if p.len() > s.len() {
        return false;
    }
    let mut i: usize = 0;
    while i < p.len()
        invariant
            p.len() <= s.len(),
            i <= p.len(),
            forall|j: int| 0 <= j < i ==> s@[j] == p@[j],
        decreases p.len() - i,
    {
        if s[i] != p[i] {
            assert(s@.take(p.len() as int)[i as int] != p@[i as int]);
            return false;
        }
        i = i + 1;
    }
    assert(s@.take(p.len() as int) =~= p@);
    true
}

/// `needle` occurs in `hay` starting at index `i`.
pub open spec fn occurs_at(hay: Seq<char>, needle: Seq<char>, i: int) -> bool {
    0 <= i && i + needle.len() <= hay.len() && hay.subrange(i, i + needle.len()) == needle
}

/// The first index at or after `i` where `needle` occurs in `hay`.
pub open spec fn find_from(hay: Seq<char>, needle: Seq<char>, i: int) -> Option<int>
    decreases hay.len() + 1 - i,
{
    if i < 0 || i + needle.len() > hay.len() {
        None
    } else if occurs_at(hay, needle, i) {
        Some(i)
    } else {
        find_from(hay, needle, i + 1)
    }
}

/// The first index where `needle` occurs in `hay` (`str::find`, counted in characters).
pub open spec fn find(hay: Seq<char>, needle: Seq<char>) -> Option<int> {
    find_from(hay, needle, 0)
}

/// The last index at or before `i` where `needle` occurs in `hay`.
pub open spec fn rfind_from(hay: Seq<char>, needle: Seq<char>, i: int) -> Option<int>
    decreases i + 1,
{
    if i < 0 {
        None
    } else if occurs_at(hay, needle, i) {
        Some(i)
    } else {
        rfind_from(hay, needle, i - 1)
    }
}

/// The last index where `needle` occurs in `hay` (`str::rfind`, counted in characters).
pub open spec fn rfind(hay: Seq<char>, needle: Seq<char>) -> Option<int> {
    rfind_from(hay, needle, hay.len() - needle.len())
}

pub proof fn lemma_find_from_bounds(hay: Seq<char>, needle: Seq<char>, i: int)
    ensures
        find_from(hay, needle, i) matches Some(k) ==> i <= k && occurs_at(hay, needle, k),
    decreases hay.len() + 1 - i,
{
    if !(i < 0 || i + needle.len() > hay.len()) && !occurs_at(hay, needle, i) {
        lemma_find_from_bounds(hay, needle, i + 1);
    }
}

pub proof fn lemma_rfind_from_bounds(hay: Seq<char>, needle: Seq<char>, i: int)
    ensures
        rfind_from(hay, needle, i) matches Some(k) ==> k <= i && occurs_at(hay, needle, k),
    decreases i + 1,
{
    if i >= 0 && !occurs_at(hay, needle, i) {
        lemma_rfind_from_bounds(hay, needle, i - 1);
    }
}

/// Whether `needle` occurs in `hay` at index `i`.
fn occurs_at_exec(hay: &[char], needle: &[char], i: usize) -> (r: bool)
    requires
        i + needle.len() <= hay.len(),
    ensures
        r == occurs_at(hay@, needle@, i as int),
{
    let mut j: usize = 0;
    while j < needle.len()
        invariant
            i + needle.len() <= hay.len(),
            j <= needle.len(),
            forall|k: int| 0 <= k < j ==> hay@[i + k] == needle@[k],
        decreases needle.len() - j,
    {
        if hay[i + j] != needle[j] {
            assert(hay@.subrange(i as int, i + needle.len())[j as int] != needle@[j as int]);
            return false;
        }
        j = j + 1;
    }
    assert(hay@.subrange(i as int, i + needle.len()) =~= needle@);
    true
}

/// The first character index where `needle` occurs in `hay`.
pub fn find_exec(hay: &[char], needle: &[char]) -> (r: Option<usize>)
    ensures
        r matches Some(k) ==> find(hay@, needle@) == Some(k as int),
        r is None ==> find(hay@, needle@) is None,
        r matches Some(k) ==> occurs_at(hay@, needle@, k as int),
{
    if needle.len() > hay.len() {
        return None;
    }
    let mut i: usize = 0;
    loop
        invariant
            needle.len() <= hay.len(),
            i <= hay.len() - needle.len(),
            find(hay@, needle@) == find_from(hay@, needle@, i as int),
        decreases hay.len() - i,
    {
        if occurs_at_exec(hay, needle, i) {
            return Some(i);
        }
        if i == hay.len() - needle.len() {
            assert(find_from(hay@, needle@, i + 1) is None);
            return None;
        }
        i = i + 1;
    }
}

/// The last character index where `needle` occurs in `hay`.
pub fn rfind_exec(hay: &[char], needle: &[char]) -> (r: Option<usize>)
    ensures
        r matches Some(k) ==> rfind(hay@, needle@) == Some(k as int),
        r is None ==> rfind(hay@, needle@) is None,
        r matches Some(k) ==> occurs_at(hay@, needle@, k as int),
{
    if needle.len() > hay.len() {
        return None;
    }
    let mut i: usize = hay.len() - needle.len();
    loop
        invariant
            needle.len() <= hay.len(),
            i + needle.len() <= hay.len(),
            rfind(hay@, needle@) == rfind_from(hay@, needle@, i as int),
        decreases i,
    {
        if occurs_at_exec(hay, needle, i) {
            return Some(i);
        }
        if i == 0 {
            assert(rfind_from(hay@, needle@, -1) is None);
            return None;
        }
        i = i - 1;
    }
}

/// The first index of character `c` in `s`.
pub fn find_char(s: &[char], c: char) -> (r: Option<usize>)
    ensures
        r matches Some(k) ==> find(s@, seq![c]) == Some(k as int) && k < s.len() && s@[k as int]
            == c && forall|j: int| 0 <= j < k ==> s@[j] != c,
        r is None ==> find(s@, seq![c]) is None && forall|j: int| 0 <= j < s.len() ==> s@[j] != c,
{
    let mut i: usize = 0;
    while i < s.len()
        invariant
            i <= s.len(),
            find(s@, seq![c]) == find_from(s@, seq![c], i as int),
            forall|j: int| 0 <= j < i ==> s@[j] != c,
        decreases s.len() - i,
    {
        if s[i] == c {
            assert(s@.subrange(i as int, i + 1) =~= seq![c]);
            return Some(i);
        }
        assert(s@.subrange(i as int, i + 1)[0] == s@[i as int]);
        i = i + 1;
    }
    None
}

/// The last index of character `c` in `s`.
pub fn rfind_char(s: &[char], c: char) -> (r: Option<usize>)
    ensures
        r matches Some(k) ==> rfind(s@, seq![c]) == Some(k as int) && k < s.len() && s@[k as int]
            == c && forall|j: int| k < j < s.len() ==> s@[j] != c,
        r is None ==> rfind(s@, seq![c]) is None && forall|j: int| 0 <= j < s.len() ==> s@[j] != c,
{
    let mut i: usize = s.len();
    while i > 0
        invariant
            i <= s.len(),
            rfind(s@, seq![c]) == rfind_from(s@, seq![c], i - 1),
            forall|j: int| i <= j < s.len() ==> s@[j] != c,
        decreases i,
    {
        if s[i - 1] == c {
            assert(s@.subrange(i - 1, i as int) =~= seq![c]);
            return Some(i - 1);
        }
        assert(s@.subrange(i - 1, i as int)[0] == s@[i - 1]);
        i = i - 1;
    }
    None
}

// ---------------------------------------------------------------------------
// Splitting
// ---------------------------------------------------------------------------

/// The pieces of `s` between occurrences of `c` (`str::split` with a character):
/// always at least one piece.
pub open spec fn split_on(s: Seq<char>, c: char) -> Seq<Seq<char>>
    decreases s.len(),
{
    if s.len() == 0 {
        seq![Seq::<char>::empty()]
    } else {
        let p = split_on(s.drop_last(), c);
        if s.last() == c {
            p.push(Seq::<char>::empty())
        } else {
            p.update(p.len() - 1, p.last().push(s.last()))
        }
    }
}

pub proof fn lemma_split_on_nonempty(s: Seq<char>, c: char)
    ensures
        split_on(s, c).len() >= 1,
    decreases s.len(),
{
    if s.len() > 0 {
        lemma_split_on_nonempty(s.drop_last(), c);
    }
}

/// Splitting `x + y`, where `y` holds no `c`, extends the last piece of `x` by `y`.
pub proof fn lemma_split_on_append(x: Seq<char>, y: Seq<char>, c: char)
    requires
        forall|j: int| 0 <= j < y.len() ==> y[j] != c,
    ensures
        split_on(x + y, c) == split_on(x, c).drop_last().push(split_on(x, c).last() + y),
    decreases y.len(),
{
    lemma_split_on_nonempty(x, c);
    let p = split_on(x, c);
    if y.len() == 0 {
        assert(x + y =~= x);
        assert(p.last() + y =~= p.last());
        assert(p.drop_last().push(p.last()) =~= p);
    } else {
        let y0 = y.drop_last();
        lemma_split_on_append(x, y0, c);
        assert((x + y).drop_last() =~= x + y0);
        let q = split_on(x + y0, c);
        assert(q.last().push(y.last()) =~= p.last() + y);
        assert(q.update(q.len() - 1, p.last() + y) =~= p.drop_last().push(p.last() + y));
    }
}

/// Splitting `x` followed by `c` adds an empty last piece.
pub proof fn lemma_split_on_sep(x: Seq<char>, c: char)
    ensures
        split_on(x + seq![c], c) == split_on(x, c).push(Seq::<char>::empty()),
{
    assert((x + seq![c]).drop_last() =~= x);
}

/// The pieces of `s` between occurrences of `c`.
pub fn split_exec(s: &[char], c: char) -> (r: Vec<Vec<char>>)
    ensures
        r@.len() == split_on(s@, c).len(),
        forall|i: int| 0 <= i < r@.len() ==> #[trigger] r@[i]@ == split_on(s@, c)[i],
{
    let mut done: Vec<Vec<char>> = Vec::new();
    let mut cur: Vec<char> = Vec::new();
    let mut i: usize = 0;
    while i < s.len()
        invariant
            i <= s.len(),
            done@.len() + 1 == split_on(s@.take(i as int), c).len(),
            forall|k: int| 0 <= k < done@.len() ==> #[trigger] done@[k]@ == split_on(s@.take(i as int), c)[k],
            cur@ == split_on(s@.take(i as int), c).last(),
        decreases s.len() - i,
    {
        proof {
            lemma_split_on_nonempty(s@.take(i as int), c);
            assert(s@.take(i + 1).drop_last() =~= s@.take(i as int));
        }
        if s[i] == c {
            let piece = cur;
            done.push(piece);
            cur = Vec::new();
        } else {
            cur.push(s[i]);
        }
        i = i + 1;
    }
    assert(s@.take(s.len() as int) =~= s@);
    proof {
        lemma_split_on_nonempty(s@, c);
    }
    done.push(cur);
    done
}

/// Drops one trailing carriage return.
pub open spec fn strip_cr(s: Seq<char>) -> Seq<char> {
    if s.len() > 0 && s.last() == '\r' {
        s.drop_last()
    } else {
        s
    }
}

/// The lines of `s` (`str::lines`): pieces between `'\n'`, where a piece ended
/// by `'\n'` loses one trailing `'\r'`, and a final line ending adds no empty line.
pub open spec fn lines(s: Seq<char>) -> Seq<Seq<char>> {
    let p = split_on(s, '\n');
    let n: int = if s.len() == 0 || s.last() == '\n' {
        p.len() - 1
    } else {
        p.len() as int
    };
    Seq::new(n as nat, |i: int| if i < p.len() - 1 { strip_cr(p[i]) } else { p[i] })
}

/// The lines of `s`.
pub fn lines_exec(s: &[char]) -> (r: Vec<Vec<char>>)
    ensures
        r@.len() == lines(s@).len(),
        forall|i: int| 0 <= i < r@.len() ==> #[trigger] r@[i]@ == lines(s@)[i],
{
    let pieces = split_exec(s, '\n');
    proof {
        lemma_split_on_nonempty(s@, '\n');
    }
    let n: usize = if s.len() == 0 || s[s.len() - 1] == '\n' {
        pieces.len() - 1
    } else {
        pieces.len()
    };
    let mut r: Vec<Vec<char>> = Vec::new();
    let mut i: usize = 0;
    while i < n
        invariant
            n == lines(s@).len(),
            n <= pieces@.len(),
            pieces@.len() == split_on(s@, '\n').len(),
            forall|k: int| 0 <= k < pieces@.len() ==> #[trigger] pieces@[k]@ == split_on(s@, '\n')[k],
            i <= n,
            r@.len() == i,
            forall|k: int| 0 <= k < i ==> #[trigger] r@[k]@ == lines(s@)[k],
        decreases n - i,
    {
        let p = &pieces[i];
        if i + 1 < pieces.len() && p.len() > 0 && p[p.len() - 1] == '\r' {
            let q = slice_range(p, 0, p.len() - 1);
            assert(q@ =~= p@.drop_last());
            r.push(q);
        } else {
            let q = slice_range(p, 0, p.len());
            assert(q@ =~= p@);
            r.push(q);
        }
        i = i + 1;
    }
    r
}

// ---------------------------------------------------------------------------
// Whitespace
// ---------------------------------------------------------------------------

/// Unicode `White_Space` (`char::is_whitespace`).
pub open spec fn is_whitespace(c: char) -> bool {
    let u = c as u32;
    (0x9 <= u && u <= 0xd) || u == 0x20 || u == 0x85 || u == 0xa0 || u == 0x1680 || (0x2000 <= u
        && u <= 0x200a) || u == 0x2028 || u == 0x2029 || u == 0x202f || u == 0x205f || u == 0x3000
}

/// Whether `c` is whitespace.
pub fn is_whitespace_exec(c: char) -> (r: bool)
    ensures
        r == is_whitespace(c),
{
    let u = c as u32;
    (0x9 <= u && u <= 0xd) || u == 0x20 || u == 0x85 || u == 0xa0 || u == 0x1680 || (0x2000 <= u
        && u <= 0x200a) || u == 0x2028 || u == 0x2029 || u == 0x202f || u == 0x205f || u == 0x3000
}

/// `s` without leading whitespace (`str::trim_start`).
pub open spec fn trim_start(s: Seq<char>) -> Seq<char>
    decreases s.len(),
{
    if s.len() > 0 && is_whitespace(s[0]) {
        trim_start(s.drop_first())
    } else {
        s
    }
}

/// `s` without trailing whitespace (`str::trim_end`).
pub open spec fn trim_end(s: Seq<char>) -> Seq<char>
    decreases s.len(),
{
    if s.len() > 0 && is_whitespace(s.last()) {
        trim_end(s.drop_last())
    } else {
        s
    }
}

/// `s` without leading and trailing whitespace (`str::trim`).
pub open spec fn trim(s: Seq<char>) -> Seq<char> {
    trim_end(trim_start(s))
}

pub proof fn lemma_trim_start_at(s: Seq<char>, i: int)
    requires
        0 <= i <= s.len(),
        forall|j: int| 0 <= j < i ==> is_whitespace(s[j]),
        i == s.len() || !is_whitespace(s[i]),
    ensures
        trim_start(s) == s.skip(i),
    decreases i,
{
    if i > 0 {
        lemma_trim_start_at(s.drop_first(), i - 1);
        assert(s.drop_first().skip(i - 1) =~= s.skip(i));
    } else {
        assert(s.skip(0) =~= s);
    }
}

pub proof fn lemma_trim_end_at(s: Seq<char>, i: int)
    requires
        0 <= i <= s.len(),
        forall|j: int| i <= j < s.len() ==> is_whitespace(s[j]),
        i == 0 || !is_whitespace(s[i - 1]),
    ensures
        trim_end(s) == s.take(i),
    decreases s.len() - i,
{
    if i < s.len() {
        lemma_trim_end_at(s.drop_last(), i);
        assert(s.drop_last().take(i) =~= s.take(i));
    } else {
        assert(s.take(i) =~= s);
    }
}

/// `s` with leading and trailing whitespace removed.
pub fn trim_exec(s: &[char]) -> (r: Vec<char>)
    ensures
        r@ == trim(s@),
{
    let mut lo: usize = 0;
    while lo < s.len() && is_whitespace_exec(s[lo])
        invariant
            lo <= s.len(),
            forall|j: int| 0 <= j < lo ==> is_whitespace(s@[j]),
        decreases s.len() - lo,
    {
        lo = lo + 1;
    }
    proof {
        lemma_trim_start_at(s@, lo as int);
    }
    let mut hi: usize = s.len();
    while hi > lo && is_whitespace_exec(s[hi - 1])
        invariant
            lo <= hi <= s.len(),
            forall|j: int| hi <= j < s.len() ==> is_whitespace(s@[j]),
        decreases hi,
    {
        hi = hi - 1;
    }
    proof {
        let t = s@.skip(lo as int);
        assert forall|j: int| hi - lo <= j < t.len() implies is_whitespace(t[j]) by {
            assert(t[j] == s@[lo + j]);
        }
        if hi > lo {
            assert(t[hi - lo - 1] == s@[hi - 1]);
        }
        lemma_trim_end_at(t, hi - lo);
        assert(t.take(hi - lo) =~= s@.subrange(lo as int, hi as int));
    }
    slice_range(s, lo, hi)
}

// ---------------------------------------------------------------------------
// Decimal numbers
// ---------------------------------------------------------------------------

pub open spec fn is_digit(c: char) -> bool {
    '0' <= c && c <= '9'
}

pub open spec fn digit_value(c: char) -> nat {
    (c as int - '0' as int) as nat
}

/// The value of a string of decimal digits.
pub open spec fn dec_value(s: Seq<char>) -> nat
    decreases s.len(),
{
    if s.len() == 0 {
        0
    } else {
        dec_value(s.drop_last()) * 10 + digit_value(s.last())
    }
}

/// The digits of an unsigned number's text: one leading `'+'` is allowed.
pub open spec fn unsigned_digits(s: Seq<char>) -> Seq<char> {
    if s.len() > 0 && s[0] == '+' {
        s.drop_first()
    } else {
        s
    }
}

/// What `str::parse` gives for an unsigned integer type whose largest value is
/// `max`: an optional `'+'`, then one or more ASCII digits, and a value not above `max`.
pub open spec fn parse_unsigned(s: Seq<char>, max: nat) -> Option<nat> {
    let d = unsigned_digits(s);
    if d.len() > 0 && (forall|i: int| 0 <= i < d.len() ==> is_digit(#[trigger] d[i])) && dec_value(
        d,
    ) <= max {
        Some(dec_value(d))
    } else {
        None
    }
}

proof fn lemma_dec_value_prefix(s: Seq<char>, i: int)
    requires
        0 <= i <= s.len(),
    ensures
        dec_value(s.take(i)) <= dec_value(s),
    decreases s.len(),
{
    if i < s.len() {
        lemma_dec_value_prefix(s.drop_last(), i);
        assert(s.drop_last().take(i) =~= s.take(i));
    } else {
        assert(s.take(i) =~= s);
    }
}

/// Parses unsigned decimal text whose value may not exceed `max`.
pub fn parse_unsigned_exec(s: &[char], max: u32) -> (r: Option<u32>)
    ensures
        r matches Some(v) ==> parse_unsigned(s@, max as nat) == Some(v as nat),
        r is None ==> parse_unsigned(s@, max as nat) is None,
{
    let start: usize = if s.len() > 0 && s[0] == '+' {
        1
    } else {
        0
    };
    let ghost d = unsigned_digits(s@);
    assert(d =~= s@.skip(start as int));
    if start == s.len() {
        return None;
    }
    let mut v: u64 = 0;
    let mut i: usize = start;
    while i < s.len()
        invariant
            start <= i <= s.len(),
            d == s@.skip(start as int),
            d == unsigned_digits(s@),
            d.len() == s.len() - start,
            forall|j: int| 0 <= j < i - start ==> is_digit(#[trigger] d[j]),
            v == dec_value(d.take(i - start)),
            v <= max,
        decreases s.len() - i,
    {
        let c = s[i];
        assert(c == d[i - start]);
        if !('0' <= c && c <= '9') {
            assert(!is_digit(d[i - start]));
            return None;
        }
        let dv = (c as u32 - '0' as u32) as u64;
        assert(d.take(i - start + 1).drop_last() =~= d.take(i - start));
        v = v * 10 + dv;
        i = i + 1;
        if v > max as u64 {
            proof {
                lemma_dec_value_prefix(d, i - start);
                assert(dec_value(d) > max);
            }
            return None;
        }
    }
    assert(d.take(i - start) =~= d);
    Some(v as u32)
}

/// The decimal digit character for `d < 10`.
pub open spec fn digit_char(d: nat) -> char {
    ((d + 48) as u8) as char
}

/// The decimal text of `n` (`to_string` of an unsigned integer).
pub open spec fn dec_repr(n: nat) -> Seq<char>
    decreases n,
{
    if n < 10 {
        seq![digit_char(n)]
    } else {
        dec_repr(n / 10).push(digit_char(n % 10))
    }
}

/// Appends the decimal text of `n`.
pub fn push_dec(s: &mut String, n: u32)
    ensures
        final(s)@ == old(s)@ + dec_repr(n as nat),
    decreases n,
{
    if n >= 10 {
        push_dec(s, n / 10);
    }
    let d = (n % 10) as u8;
    push_char(s, (d + 48) as char);
    assert(s@ =~= old(s)@ + dec_repr(n as nat));
}

// ---------------------------------------------------------------------------
// Facts about decimal text and searching
// ---------------------------------------------------------------------------

/// The decimal text of a number is one or more digits, not starting with `'+'`,
/// whose value is the number.
pub proof fn lemma_digit_char(d: nat)
    requires
        d < 10,
    ensures
        is_digit(digit_char(d)),
        digit_value(digit_char(d)) == d,
        digit_char(d) != '+' && digit_char(d) != '-' && digit_char(d) != '.' && digit_char(d) != ':',
{
    assert((((d + 48) as u8) as char) as int == d + 48);
}

pub proof fn lemma_dec_repr(n: nat)
    ensures
        dec_repr(n).len() >= 1,
        forall|i: int| 0 <= i < dec_repr(n).len() ==> is_digit(#[trigger] dec_repr(n)[i]),
        dec_value(dec_repr(n)) == n,
    decreases n,
{
    lemma_digit_char(n % 10);
    if n >= 10 {
        lemma_dec_repr(n / 10);
        let s = dec_repr(n);
        assert(s.drop_last() =~= dec_repr(n / 10));
        assert(forall|i: int| 0 <= i < s.len() - 1 ==> s[i] == dec_repr(n / 10)[i]);
        assert(s.last() == digit_char(n % 10));
        assert(dec_value(s) == dec_value(dec_repr(n / 10)) * 10 + digit_value(digit_char(n % 10)));
    } else {
        let s = dec_repr(n);
        assert(s.drop_last() =~= Seq::<char>::empty());
        assert(dec_value(s) == dec_value(Seq::<char>::empty()) * 10 + digit_value(s.last()));
    }
}

/// Unsigned parsing of the decimal text of `n` gives `n` when it is within the bound.
pub proof fn lemma_parse_dec_repr(n: nat, max: nat)
    requires
        n <= max,
    ensures
        parse_unsigned(dec_repr(n), max) == Some(n),
{
    lemma_dec_repr(n);
    assert(dec_repr(n)[0] != '+') by {
        assert(is_digit(dec_repr(n)[0]));
    }
    assert(unsigned_digits(dec_repr(n)) == dec_repr(n));
}

/// The last occurrence of `c` is at `k` when `hay[k]` is `c` and no later
/// character up to `i` is.
pub proof fn lemma_rfind_char_at(hay: Seq<char>, c: char, i: int, k: int)
    requires
        0 <= k <= i < hay.len(),
        hay[k] == c,
        forall|j: int| k < j <= i ==> hay[j] != c,
    ensures
        rfind_from(hay, seq![c], i) == Some(k),
    decreases i - k,
{
    if i > k {
        assert(hay.subrange(i, i + 1)[0] == hay[i]);
        lemma_rfind_char_at(hay, c, i - 1, k);
    } else {
        assert(hay.subrange(k, k + 1) =~= seq![c]);
    }
}

/// In `a + [c] + b` where `b` holds no `c`, the last `c` is the one after `a`.
pub proof fn lemma_rfind_char_join(a: Seq<char>, c: char, b: Seq<char>)
    requires
        forall|j: int| 0 <= j < b.len() ==> b[j] != c,
    ensures
        rfind(a + seq![c] + b, seq![c]) == Some(a.len() as int),
        (a + seq![c] + b).take(a.len() as int) == a,
        (a + seq![c] + b).skip(a.len() as int + 1) == b,
{
    let s = a + seq![c] + b;
    assert forall|j: int| a.len() < j <= s.len() - 1 implies s[j] != c by {
        assert(s[j] == b[j - a.len() - 1]);
    }
    lemma_rfind_char_at(s, c, s.len() - 1, a.len() as int);
    assert(s.take(a.len() as int) =~= a);
    assert(s.skip(a.len() as int + 1) =~= b);
}

/// The first occurrence at or after `i` is at `k` when `needle` occurs at `k` and
/// at no index in between.
pub proof fn lemma_find_at(hay: Seq<char>, needle: Seq<char>, i: int, k: int)
    requires
        0 <= i <= k,
        occurs_at(hay, needle, k),
        forall|j: int| i <= j < k ==> !occurs_at(hay, needle, j),
    ensures
        find_from(hay, needle, i) == Some(k),
    decreases k - i,
{
    if i < k {
        lemma_find_at(hay, needle, i + 1, k);
    }
}

/// The first `c` at or after `i` is at `k` when `hay[k]` is `c` and no character in
/// between is.
pub proof fn lemma_find_char_at(hay: Seq<char>, c: char, i: int, k: int)
    requires
        0 <= i <= k < hay.len(),
        hay[k] == c,
        forall|j: int| i <= j < k ==> hay[j] != c,
    ensures
        find_from(hay, seq![c], i) == Some(k),
{
    assert(hay.subrange(k, k + 1) =~= seq![c]);
    assert forall|j: int| i <= j < k implies !occurs_at(hay, seq![c], j) by {
        assert(hay.subrange(j, j + 1)[0] == hay[j]);
    }
    lemma_find_at(hay, seq![c], i, k);
}

/// `" " + h` trims to `h` when `h` has no surrounding whitespace.
pub proof fn lemma_trim_space_before(h: Seq<char>)
    requires
        h.len() == 0 || (!is_whitespace(h[0]) && !is_whitespace(h.last())),
    ensures
        trim(seq![' '] + h) == h,
{
    let s = seq![' '] + h;
    assert(is_whitespace(' '));
    lemma_trim_start_at(s, 1);
    assert(s.skip(1) =~= h);
    lemma_trim_end_at(h, h.len() as int);
    assert(h.take(h.len() as int) =~= h);
}

} // verus!
