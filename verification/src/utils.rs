//! Conversions between notations used in proxy bypass lists.
use crate::text::{
    chars_of, dec_repr, find, find_char, has_prefix, parse_unsigned, parse_unsigned_exec, push_char, push_dec,
    slice_range, split_exec, split_on,
};
use crate::{is_parse_error, Error, Result};
use vstd::prelude::*;

verus! {

/// The octets and prefix length of IPv4 CIDR text `a.b.c.d/p`: the text up to the
/// first `'/'` splits at `'.'` into exactly four pieces that each parse as a `u8`,
/// and the text after it parses as a `u32` not above 32.
pub open spec fn cidr_parts(cidr: Seq<char>) -> Option<(Seq<nat>, nat)> {
    match find(cidr, seq!['/']) {
        None => None,
        Some(k) => {
            let pieces = split_on(cidr.take(k), '.');
            let prefix = parse_unsigned(cidr.skip(k + 1), u32::MAX as nat);
            if prefix is Some && prefix->0 <= 32 && pieces.len() == 4 && (forall|i: int|
                0 <= i < 4 ==> parse_unsigned(#[trigger] pieces[i], 255) is Some) {
                Some((Seq::new(4, |i: int| parse_unsigned(pieces[i], 255)->0), prefix->0))
            } else {
                None
            }
        },
    }
}

pub open spec fn pow2(n: nat) -> nat
    decreases n,
{
    if n == 0 {
        1
    } else {
        2 * pow2((n - 1) as nat)
    }
}

/// The decimal texts of `octets[0..k]` joined by `'.'`.
pub open spec fn dotted(octets: Seq<nat>, k: int) -> Seq<char>
    decreases k,
{
    if k <= 0 {
        Seq::empty()
    } else if k == 1 {
        dec_repr(octets[0])
    } else {
        dotted(octets, k - 1) + seq!['.'] + dec_repr(octets[k - 1])
    }
}

/// `dotted(octets, k)` followed by a `'.'` when it is not empty.
pub open spec fn dotted_lead(octets: Seq<nat>, k: int) -> Seq<char> {
    if k <= 0 {
        Seq::empty()
    } else {
        dotted(octets, k) + seq!['.']
    }
}

/// The wildcard patterns that cover the address block `octets/prefix`.
///
/// The first `prefix / 8` octets are fixed and written out. If the prefix ends on an
/// octet boundary the next octet is free: one pattern ending in `*`. Otherwise the
/// next octet ranges over the block of size `2^(8 - prefix % 8)` that holds it, one
/// pattern per value, each followed by `.*` unless it is the last octet.
pub open spec fn wildcards(octets: Seq<nat>, prefix: nat) -> Seq<Seq<char>> {
    let k = prefix / 8;
    if k >= 4 {
        seq![dotted(octets, 4)]
    } else if prefix % 8 == 0 {
        seq![dotted_lead(octets, k as int) + seq!['*']]
    } else {
        let size = pow2((8 - prefix % 8) as nat);
        let start = octets[k as int] / size * size;
        Seq::new(
            size,
            |j: int|
                dotted_lead(octets, k as int) + dec_repr((start + j) as nat) + if k != 3 {
                    seq!['.', '*']
                } else {
                    Seq::empty()
                },
        )
    }
}

/// The result of `ipv4_cidr_to_wildcard` on `cidr`: the wildcard patterns of its
/// address block, or a parse error holding the text.
pub open spec fn cidr_to_wildcard_result(cidr: Seq<char>, r: Result<Vec<String>>) -> bool {
    match cidr_parts(cidr) {
        None => is_parse_error(r, cidr),
        Some((octets, prefix)) => r matches Ok(v) && v@.len() == wildcards(octets, prefix).len()
            && forall|i: int| 0 <= i < v@.len() ==> #[trigger] v@[i]@ == wildcards(octets, prefix)[i],
    }
}

fn parse_error(cidr: &str) -> (r: Error)
    ensures
        r matches Error::ParseStr(m) && m@ == cidr@,
{
    Error::ParseStr(cidr.to_owned())
}

/// Appends `dotted(octets, k)` and, when `k > 0`, a `'.'`.
fn push_lead(s: &mut String, octets: &Vec<u32>, k: usize)
    requires
        k <= octets@.len(),
    ensures
        final(s)@ == old(s)@ + dotted_lead(octets@.map_values(|o: u32| o as nat), k as int),
{
    let ghost ov = octets@.map_values(|o: u32| o as nat);
    let ghost start = s@;
    let mut i: usize = 0;
    while i < k
        invariant
            k <= octets@.len(),
            ov == octets@.map_values(|o: u32| o as nat),
            i <= k,
            s@ == start + dotted(ov, i as int),
        decreases k - i,
    {
        if i > 0 {
            push_char(s, '.');
        }
        push_dec(s, octets[i]);
        i = i + 1;
        assert(s@ =~= start + dotted(ov, i as int));
    }
    if k > 0 {
        push_char(s, '.');
        assert(s@ =~= start + dotted_lead(ov, k as int));
    } else {
        assert(s@ =~= start + dotted_lead(ov, k as int));
    }
}

/// Convert IPv4 CIDR notation to wildcard patterns.
///
/// # Example
/// ```
/// use onebox_sysproxy_rs::utils::ipv4_cidr_to_wildcard;
/// assert_eq!(ipv4_cidr_to_wildcard("127.0.0.1/8").unwrap(), vec!["127.*".to_string()]);
/// ```
pub fn ipv4_cidr_to_wildcard(cidr: &str) -> (r: Result<Vec<String>>)
    ensures
        cidr_to_wildcard_result(cidr@, r),
{
    let chars = chars_of(cidr);
    let slash = match find_char(&chars, '/') {
        Some(k) => k,
        None => return Err(parse_error(cidr)),
    };
    let prefix_text = slice_range(&chars, slash + 1, chars.len());
    assert(prefix_text@ =~= cidr@.skip(slash + 1));
    let prefix = match parse_unsigned_exec(&prefix_text, u32::MAX) {
        Some(p) => p,
        None => return Err(parse_error(cidr)),
    };
    if prefix > 32 {
        return Err(parse_error(cidr));
    }
    let ip = slice_range(&chars, 0, slash);
    assert(ip@ =~= cidr@.take(slash as int));
    let pieces = split_exec(&ip, '.');
    let ghost sp = split_on(cidr@.take(slash as int), '.');
    let mut octets: Vec<u32> = Vec::new();
    let mut i: usize = 0;
    while i < pieces.len()
        invariant
            find(cidr@, seq!['/']) == Some(slash as int),
            slash <= cidr@.len(),
            sp == split_on(cidr@.take(slash as int), '.'),
            parse_unsigned(cidr@.skip(slash + 1), u32::MAX as nat) == Some(prefix as nat),
            prefix <= 32,
            pieces@.len() == sp.len(),
            forall|j: int| 0 <= j < pieces@.len() ==> #[trigger] pieces@[j]@ == sp[j],
            i <= pieces@.len(),
            octets@.len() == i,
            forall|j: int|
                0 <= j < i ==> parse_unsigned(#[trigger] sp[j], 255) == Some(octets@[j] as nat),
            forall|j: int| 0 <= j < i ==> #[trigger] octets@[j] <= 255,
        decreases pieces@.len() - i,
    {
        match parse_unsigned_exec(&pieces[i], 255) {
            Some(o) => {
                assert(o <= 255);
                octets.push(o);
            },
            None => {
                assert(parse_unsigned(sp[i as int], 255) is None);
                return Err(parse_error(cidr));
            },
        }
        i = i + 1;
    }
    if octets.len() != 4 {
        return Err(parse_error(cidr));
    }
    let ghost ov = octets@.map_values(|o: u32| o as nat);
    assert(cidr_parts(cidr@) == Some((ov, prefix as nat))) by {
        assert(ov =~= Seq::new(4, |j: int| parse_unsigned(sp[j], 255)->0));
    }
    let k: usize = (prefix / 8) as usize;
    let mut results: Vec<String> = Vec::new();
    if k >= 4 {
        let mut entry = String::new();
        push_lead(&mut entry, &octets, 3);
        push_dec(&mut entry, octets[3]);
        assert(entry@ =~= dotted(ov, 4));
        results.push(entry);
        assert(results@[0]@ == wildcards(ov, prefix as nat)[0]);
    } else if prefix % 8 == 0 {
        let mut entry = String::new();
        push_lead(&mut entry, &octets, k);
        push_char(&mut entry, '*');
        results.push(entry);
        assert(results@[0]@ == wildcards(ov, prefix as nat)[0]);
    } else {
        let free: u32 = 8 - prefix % 8;
        let mut size: u32 = 1;
        let mut e: u32 = 0;
        while e < free
            invariant
                e <= free <= 8,
                size == pow2(e as nat),
                size <= 256,
            decreases free - e,
        {
            assert(pow2((e + 1) as nat) == 2 * pow2(e as nat));
            assert(e < 8 ==> size <= 128) by {
                if e < 8 {
                    assert(pow2(e as nat) <= 128) by {
                        reveal_with_fuel(pow2, 9);
                        assert(e == 0 || e == 1 || e == 2 || e == 3 || e == 4 || e == 5 || e == 6 || e == 7);
                    }
                }
            }
            size = size * 2;
            e = e + 1;
        }
        assert(size == 2 || size == 4 || size == 8 || size == 16 || size == 32 || size == 64
            || size == 128) by {
            reveal_with_fuel(pow2, 9);
            assert(free == 1 || free == 2 || free == 3 || free == 4 || free == 5 || free == 6
                || free == 7);
        }
        let o = octets[k];
        assert(o <= 255);
        assert(o / size * size <= o) by (nonlinear_arith)
            requires
                size >= 1,
        ;
        let start = o / size * size;
        assert(start + size <= 256) by (nonlinear_arith)
            requires
                o <= 255,
                start == o / size * size,
                size == 2 || size == 4 || size == 8 || size == 16 || size == 32 || size == 64
                    || size == 128,
        {
        }
        let mut j: u32 = 0;
        while j < size
            invariant
                octets@.len() == 4,
                ov == octets@.map_values(|o: u32| o as nat),
                k == prefix / 8,
                k < 4,
                prefix % 8 != 0,
                size == pow2((8 - prefix % 8) as nat),
                start == octets@[k as int] / size * size,
                j <= size,
                start + size <= 256,
                results@.len() == j,
                forall|t: int| 0 <= t < j ==> #[trigger] results@[t]@ == wildcards(ov, prefix as nat)[t],
            decreases size - j,
        {
            let mut entry = String::new();
            push_lead(&mut entry, &octets, k);
            push_dec(&mut entry, start + j);
            if k != 3 {
                push_char(&mut entry, '.');
                push_char(&mut entry, '*');
            }
            results.push(entry);
            j = j + 1;
        }
    }
    Ok(results)
}

// ---------------------------------------------------------------------------
// The patterns cover exactly the address block
// ---------------------------------------------------------------------------

/// A bypass wildcard pattern matches an address text: a pattern ending in `*`
/// matches every text that begins with the rest of it; another pattern matches
/// only itself.
pub open spec fn wildcard_matches(pattern: Seq<char>, text: Seq<char>) -> bool {
    if pattern.len() > 0 && pattern.last() == '*' {
        has_prefix(text, pattern.drop_last())
    } else {
        pattern == text
    }
}

/// The size of the aligned range that octet `i` of an address in a block with
/// this prefix length ranges over: 1 for a fixed octet, 256 for a free one.
pub open spec fn octet_block(prefix: nat, i: int) -> nat {
    if prefix >= 8 * i + 8 {
        1
    } else if prefix <= 8 * i {
        256
    } else {
        pow2((8 - (prefix - 8 * i)) as nat)
    }
}

/// Four octets.
pub open spec fn is_octets(a: Seq<nat>) -> bool {
    a.len() == 4 && forall|i: int| 0 <= i < 4 ==> #[trigger] a[i] < 256
}

/// Address `a` lies in the block `octets/prefix`: its first `prefix` bits agree
/// with those of `octets`.
pub open spec fn in_block(a: Seq<nat>, octets: Seq<nat>, prefix: nat) -> bool {
    forall|i: int| 0 <= i < 4 ==> #[trigger] (a[i] / octet_block(prefix, i)) == octets[i] / octet_block(
        prefix,
        i,
    )
}

/// The decimal texts of `a[k..4]` joined by `'.'`.
pub open spec fn dotted_rest(a: Seq<nat>, k: int) -> Seq<char>
    decreases 3 - k,
{
    if k >= 3 {
        dec_repr(a[3])
    } else {
        dec_repr(a[k]) + seq!['.'] + dotted_rest(a, k as int + 1)
    }
}

pub open spec fn dot_free(s: Seq<char>) -> bool {
    forall|i: int| 0 <= i < s.len() ==> s[i] != '.'
}

proof fn lemma_dec_dot_free(n: nat)
    ensures
        dot_free(dec_repr(n)),
        dec_repr(n).len() >= 1,
        dec_repr(n).last() != '*',
{
    crate::text::lemma_dec_repr(n);
    assert forall|i: int| 0 <= i < dec_repr(n).len() implies dec_repr(n)[i] != '.' by {
        assert(crate::text::is_digit(dec_repr(n)[i]));
    }
    assert(crate::text::is_digit(dec_repr(n)[dec_repr(n).len() - 1]));
}

proof fn lemma_lead_step(a: Seq<nat>, k: int)
    requires
        k >= 1,
    ensures
        dotted_lead(a, k) == dotted_lead(a, k - 1) + dec_repr(a[k - 1]) + seq!['.'],
{
    if k == 1 {
        assert(dotted_lead(a, 1) =~= dotted_lead(a, 0) + dec_repr(a[0]) + seq!['.']);
    } else {
        assert(dotted_lead(a, k) =~= dotted_lead(a, k - 1) + dec_repr(a[k - 1]) + seq!['.']);
    }
}

/// An address text is its first `k` octets with their dots, then the rest.
proof fn lemma_dotted_split(a: Seq<nat>, k: int)
    requires
        0 <= k <= 3,
    ensures
        dotted(a, 4) == dotted_lead(a, k) + dotted_rest(a, k),
    decreases 3 - k,
{
    if k == 3 {
        assert(dotted(a, 4) =~= dotted_lead(a, 3) + dotted_rest(a, 3));
    } else {
        lemma_dotted_split(a, k + 1);
        lemma_lead_step(a, k + 1);
        assert(dotted_lead(a, k + 1) + dotted_rest(a, k as int + 1) =~= dotted_lead(a, k) + dotted_rest(a, k));
    }
}

/// Dot-free tokens followed by a dot: one such text begins with another exactly
/// when the tokens are equal and the rests are so related.
proof fn lemma_token_prefix(x: Seq<char>, r: Seq<char>, y: Seq<char>, t: Seq<char>)
    requires
        dot_free(x),
        dot_free(y),
    ensures
        has_prefix(x + seq!['.'] + r, y + seq!['.'] + t) <==> (x == y && has_prefix(r, t)),
{
    let s1 = x + seq!['.'] + r;
    let s2 = y + seq!['.'] + t;
    if has_prefix(s1, s2) {
        let m = y.len() as int;
        assert(s2[m] == '.');
        assert(s1.take(s2.len() as int)[m] == s2[m]);
        assert(s1[m] == '.');
        if m < x.len() {
            assert(s1[m] == x[m]);
        }
        if m > x.len() {
            assert(s1[x.len() as int] == '.');
            assert(s1.take(s2.len() as int)[x.len() as int] == s2[x.len() as int]);
            assert(s2[x.len() as int] == y[x.len() as int]);
        }
        assert(m == x.len());
        assert forall|i: int| 0 <= i < m implies x[i] == y[i] by {
            assert(s1.take(s2.len() as int)[i] == s2[i]);
            assert(s1[i] == x[i]);
            assert(s2[i] == y[i]);
        }
        assert(x =~= y);
        assert forall|i: int| 0 <= i < t.len() implies r[i] == t[i] by {
            assert(s1.take(s2.len() as int)[m + 1 + i] == s2[m + 1 + i]);
        }
        assert(r.take(t.len() as int) =~= t);
    }
    if x == y && has_prefix(r, t) {
        assert(s1.take(s2.len() as int) =~= s2);
    }
}

/// Address texts that begin with the same `k` octets: `lead(a, k) + r` begins with
/// `lead(o, k) + t` exactly when the octets agree and `r` begins with `t`.
proof fn lemma_lead_prefix(a: Seq<nat>, o: Seq<nat>, k: int, r: Seq<char>, t: Seq<char>)
    requires
        0 <= k <= 4,
        a.len() == 4,
        o.len() == 4,
    ensures
        has_prefix(dotted_lead(a, k) + r, dotted_lead(o, k) + t) <==> ((forall|i: int|
            0 <= i < k ==> #[trigger] a[i] == o[i]) && has_prefix(r, t)),
    decreases k,
{
    if k == 0 {
        assert(dotted_lead(a, 0) + r =~= r);
        assert(dotted_lead(o, 0) + t =~= t);
    } else {
        lemma_lead_step(a, k);
        lemma_lead_step(o, k);
        lemma_dec_dot_free(a[k - 1]);
        lemma_dec_dot_free(o[k - 1]);
        let ra = dec_repr(a[k - 1]) + seq!['.'] + r;
        let to = dec_repr(o[k - 1]) + seq!['.'] + t;
        assert(dotted_lead(a, k) + r =~= dotted_lead(a, k - 1) + ra);
        assert(dotted_lead(o, k) + t =~= dotted_lead(o, k - 1) + to);
        lemma_lead_prefix(a, o, k - 1, ra, to);
        lemma_token_prefix(dec_repr(a[k - 1]), r, dec_repr(o[k - 1]), t);
        crate::text::lemma_dec_repr(a[k - 1]);
        crate::text::lemma_dec_repr(o[k - 1]);
    }
}

proof fn lemma_prefix_empty(s: Seq<char>)
    ensures
        has_prefix(s, Seq::empty()),
{
    assert(s.take(0) =~= Seq::<char>::empty());
}

proof fn lemma_lead_congruent(a: Seq<nat>, o: Seq<nat>, k: int)
    requires
        0 <= k <= 4,
        a.len() == 4,
        o.len() == 4,
        forall|i: int| 0 <= i < k ==> #[trigger] a[i] == o[i],
    ensures
        dotted_lead(a, k) == dotted_lead(o, k),
    decreases k,
{
    if k > 0 {
        lemma_lead_congruent(a, o, k - 1);
        lemma_lead_step(a, k);
        lemma_lead_step(o, k);
    }
}

/// The full text of address `a` equals `lead(o, 3)` followed by the decimal text
/// of `x` exactly when `a` is `o[0..3]` followed by `x`.
proof fn lemma_full_text(a: Seq<nat>, o: Seq<nat>, x: nat)
    requires
        a.len() == 4,
        o.len() == 4,
    ensures
        (dotted_lead(o, 3) + dec_repr(x) == dotted(a, 4)) <==> ((forall|i: int|
            0 <= i < 3 ==> #[trigger] a[i] == o[i]) && a[3] == x),
{
    lemma_dotted_split(a, 3);
    let lhs = dotted_lead(o, 3) + dec_repr(x);
    let rhs = dotted_lead(a, 3) + dec_repr(a[3]);
    assert(dotted_rest(a, 3) == dec_repr(a[3]));
    if lhs == rhs {
        assert(rhs.take(lhs.len() as int) =~= lhs);
        lemma_lead_prefix(a, o, 3, dec_repr(a[3]), dec_repr(x));
        lemma_lead_congruent(a, o, 3);
        let n = dotted_lead(o, 3).len() as int;
        assert(lhs.skip(n) =~= dec_repr(x));
        assert(rhs.skip(n) =~= dec_repr(a[3]));
        crate::text::lemma_dec_repr(x);
        crate::text::lemma_dec_repr(a[3]);
    }
    if (forall|i: int| 0 <= i < 3 ==> #[trigger] a[i] == o[i]) && a[3] == x {
        lemma_lead_congruent(a, o, 3);
    }
}

proof fn lemma_block_range(v: nat, o: nat, size: nat)
    requires
        size > 0,
    ensures
        (v / size == o / size) <==> (o / size * size <= v < o / size * size + size),
{
    assert((v / size == o / size) <==> (o / size * size <= v < o / size * size + size))
        by (nonlinear_arith)
        requires
            size > 0,
    {
        let q = o / size;
        assert(v == size * (v / size) + v % size);
        assert(0 <= v % size < size);
        if q * size <= v && v < q * size + size {
            assert(v / size == q);
        }
    }
}

proof fn lemma_pow2_small(e: nat)
    requires
        1 <= e <= 7,
    ensures
        2 <= pow2(e) <= 128,
{
    reveal_with_fuel(pow2, 8);
}

/// The patterns cover exactly the address block: an address (four octets)
/// matches one of the patterns of the block that `cidr` names exactly when it
/// lies in that block.
pub proof fn law_wildcards_cover_block(cidr: Seq<char>, a: Seq<nat>)
    requires
        cidr_parts(cidr) is Some,
        is_octets(a),
    ensures
        ({
            let (o, p) = cidr_parts(cidr)->0;
            (exists|j: int|
                0 <= j < wildcards(o, p).len() && wildcard_matches(
                    #[trigger] wildcards(o, p)[j],
                    dotted(a, 4),
                )) <==> in_block(a, o, p)
        }),
{
    let (o, p) = cidr_parts(cidr)->0;
    let k = p / 8;
    let w = wildcards(o, p);
    let text = dotted(a, 4);
    assert(o.len() == 4);
    if k >= 4 {
        assert(p == 32);
        lemma_dotted_split(o, 3);
        assert(dotted_rest(o, 3) == dec_repr(o[3]));
        lemma_dec_dot_free(o[3]);
        assert(w[0].last() == dec_repr(o[3]).last());
        lemma_full_text(a, o, o[3]);
        assert forall|i: int| 0 <= i < 4 implies octet_block(p, i) == 1 by {}
        if in_block(a, o, p) {
            assert forall|i: int| 0 <= i < 3 implies #[trigger] a[i] == o[i] by {
                assert(a[i] / octet_block(p, i) == o[i] / octet_block(p, i));
            }
            assert(a[3] / octet_block(p, 3) == o[3] / octet_block(p, 3));
            assert(wildcard_matches(w[0], text));
        }
        if exists|j: int| 0 <= j < w.len() && wildcard_matches(#[trigger] w[j], text) {
            assert(wildcard_matches(w[0], text));
            assert forall|i: int| 0 <= i < 4 implies #[trigger] (a[i] / octet_block(p, i)) == o[i]
                / octet_block(p, i) by {}
        }
    } else if p % 8 == 0 {
        let pat = dotted_lead(o, k as int) + seq!['*'];
        assert(pat.drop_last() =~= dotted_lead(o, k as int));
        lemma_dotted_split(a, k as int);
        lemma_lead_prefix(a, o, k as int, dotted_rest(a, k as int), Seq::empty());
        assert(dotted_lead(o, k as int) + Seq::<char>::empty() =~= dotted_lead(o, k as int));
        lemma_prefix_empty(dotted_rest(a, k as int));
        assert forall|i: int| 0 <= i < 4 implies octet_block(p, i) == (if i < k { 1nat } else { 256nat }) by {}
        if in_block(a, o, p) {
            assert forall|i: int| 0 <= i < k implies #[trigger] a[i] == o[i] by {
                assert(a[i] / octet_block(p, i) == o[i] / octet_block(p, i));
            }
            assert(wildcard_matches(w[0], text));
        }
        if exists|j: int| 0 <= j < w.len() && wildcard_matches(#[trigger] w[j], text) {
            assert(wildcard_matches(w[0], text));
            assert forall|i: int| 0 <= i < 4 implies #[trigger] (a[i] / octet_block(p, i)) == o[i]
                / octet_block(p, i) by {
                if i >= k {
                    assert(a[i] < 256 && o[i] < 256);
                }
            }
        }
    } else {
        let size = pow2((8 - p % 8) as nat);
        lemma_pow2_small((8 - p % 8) as nat);
        let start = o[k as int] / size * size;
        assert(octet_block(p, k as int) == size);
        assert forall|i: int| 0 <= i < 4 && i != k implies octet_block(p, i) == (if i < k { 1nat } else { 256nat }) by {}
        lemma_dotted_split(a, k as int);
        lemma_block_range(a[k as int], o[k as int], size);
        // the pattern for value x matches exactly when a agrees below k and a[k] == x
        assert forall|j: int| 0 <= j < size implies (wildcard_matches(#[trigger] w[j], text) <==> ((
            forall|i: int| 0 <= i < k ==> #[trigger] a[i] == o[i]) && a[k as int] == start + j)) by {
            let x = (start + j) as nat;
            lemma_dec_dot_free(x);
            if k != 3 {
                let pat = dotted_lead(o, k as int) + dec_repr(x) + seq!['.', '*'];
                assert(w[j] == pat);
                let body = dec_repr(x) + seq!['.'];
                assert(pat.drop_last() =~= dotted_lead(o, k as int) + body);
                assert(dotted_rest(a, k as int) == dec_repr(a[k as int]) + seq!['.'] + dotted_rest(a, k as int + 1));
                lemma_lead_prefix(a, o, k as int, dotted_rest(a, k as int), body);
                lemma_dec_dot_free(a[k as int]);
                lemma_token_prefix(dec_repr(a[k as int]), dotted_rest(a, k as int + 1), dec_repr(x), Seq::empty());
                assert(body =~= dec_repr(x) + seq!['.'] + Seq::<char>::empty());
                lemma_prefix_empty(dotted_rest(a, k as int + 1));
                crate::text::lemma_dec_repr(x);
                crate::text::lemma_dec_repr(a[k as int]);
            } else {
                let pat = dotted_lead(o, 3) + dec_repr(x) + Seq::<char>::empty();
                assert(w[j] == pat);
                assert(pat =~= dotted_lead(o, 3) + dec_repr(x));
                assert(pat.last() == dec_repr(x).last());
                lemma_full_text(a, o, x);
            }
        }
        if in_block(a, o, p) {
            assert forall|i: int| 0 <= i < k implies #[trigger] a[i] == o[i] by {
                assert(a[i] / octet_block(p, i) == o[i] / octet_block(p, i));
            }
            assert(a[k as int] / octet_block(p, k as int) == o[k as int] / octet_block(p, k as int));
            let j = a[k as int] - start;
            assert(wildcard_matches(w[j], text));
        }
        if exists|j: int| 0 <= j < w.len() && wildcard_matches(#[trigger] w[j], text) {
            let j = choose|j: int| 0 <= j < w.len() && wildcard_matches(#[trigger] w[j], text);
            assert(a[k as int] == start + j);
            assert forall|i: int| 0 <= i < 4 implies #[trigger] (a[i] / octet_block(p, i)) == o[i]
                / octet_block(p, i) by {
                if i > k {
                    assert(a[i] < 256 && o[i] < 256);
                }
            }
        }
    }
}


/// Host bits are ignored: two CIDR texts with the same prefix length whose
/// addresses agree on their first `prefix` bits give the same wildcard patterns
/// (`127.0.0.1/8` and `127.255.3.9/8` both give `127.*`).
pub proof fn law_host_bits_ignored(c1: Seq<char>, c2: Seq<char>)
    requires
        cidr_parts(c1) is Some,
        cidr_parts(c2) is Some,
        (cidr_parts(c1)->0).1 == (cidr_parts(c2)->0).1,
        in_block((cidr_parts(c1)->0).0, (cidr_parts(c2)->0).0, (cidr_parts(c1)->0).1),
    ensures
        wildcards((cidr_parts(c1)->0).0, (cidr_parts(c1)->0).1) == wildcards(
            (cidr_parts(c2)->0).0,
            (cidr_parts(c2)->0).1,
        ),
{
    let (a, p) = cidr_parts(c1)->0;
    let o = (cidr_parts(c2)->0).0;
    let k = p / 8;
    assert(a.len() == 4 && o.len() == 4);
    assert forall|i: int| 0 <= i < k && i < 4 implies #[trigger] a[i] == o[i] by {
        assert(octet_block(p, i) == 1);
        assert(a[i] / octet_block(p, i) == o[i] / octet_block(p, i));
    }
    if k >= 4 {
        assert(a =~= o);
    } else {
        lemma_lead_congruent(a, o, k as int);
        if p % 8 != 0 {
            let size = pow2((8 - p % 8) as nat);
            assert(octet_block(p, k as int) == size);
            assert(a[k as int] / octet_block(p, k as int) == o[k as int] / octet_block(p, k as int));
            assert(wildcards(a, p) =~= wildcards(o, p));
        }
    }
}

} // verus!
