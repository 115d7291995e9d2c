use vstd::prelude::*;

verus! {

/// Unicode's White_Space property, which `char::is_whitespace` tests.
pub open spec fn is_ws(c: char) -> bool {
    let u = c as u32;
    ||| 0x9 <= u <= 0xD
    ||| u == 0x20
    ||| u == 0x85
    ||| u == 0xA0
    ||| u == 0x1680
    ||| 0x2000 <= u <= 0x200A
    ||| u == 0x2028
    ||| u == 0x2029
    ||| u == 0x202F
    ||| u == 0x205F
    ||| u == 0x3000
}

pub fn is_whitespace(c: char) -> (r: bool)
    ensures
        r == is_ws(c),
{
    let u = c as u32;
    (0x9 <= u && u <= 0xD) || u == 0x20 || u == 0x85 || u == 0xA0 || u == 0x1680 || (0x2000 <= u
        && u <= 0x200A) || u == 0x2028 || u == 0x2029 || u == 0x202F || u == 0x205F || u == 0x3000
}

/// `s` without its leading whitespace.
pub open spec fn trim_start(s: Seq<char>) -> Seq<char>
    decreases s.len(),
{
    if s.len() > 0 && is_ws(s[0]) {
        trim_start(s.drop_first())
    } else {
        s
    }
}

/// `s` without its trailing whitespace.
pub open spec fn trim_end(s: Seq<char>) -> Seq<char>
    decreases s.len(),
{
    if s.len() > 0 && is_ws(s.last()) {
        trim_end(s.drop_last())
    } else {
        s
    }
}

/// `s` without leading and trailing whitespace, as `str::trim` gives it.
pub open spec fn trim(s: Seq<char>) -> Seq<char> {
    trim_end(trim_start(s))
}

/// Every character of `w` is whitespace.
pub open spec fn all_ws(w: Seq<char>) -> bool {
    forall|i: int| 0 <= i < w.len() ==> is_ws(#[trigger] w[i])
}

proof fn lemma_trim_start_ws(w: Seq<char>)
    requires
        all_ws(w),
    ensures
        trim_start(w).len() == 0,
    decreases w.len(),
{
    if w.len() > 0 {
        assert(is_ws(w[0]));
        lemma_trim_start_ws(w.drop_first());
    }
}

proof fn lemma_trim_start_prefix(w: Seq<char>, s: Seq<char>)
    requires
        all_ws(w),
    ensures
        trim_start(w + s) == trim_start(s),
    decreases w.len(),
{
    if w.len() == 0 {
        assert(w + s =~= s);
    } else {
        assert((w + s)[0] == w[0]);
        assert(is_ws(w[0]));
        assert((w + s).drop_first() =~= w.drop_first() + s);
        lemma_trim_start_prefix(w.drop_first(), s);
    }
}

proof fn lemma_trim_end_suffix(s: Seq<char>, w: Seq<char>)
    requires
        all_ws(w),
    ensures
        trim_end(s + w) == trim_end(s),
    decreases w.len(),
{
    if w.len() == 0 {
        assert(s + w =~= s);
    } else {
        assert((s + w).last() == w.last());
        assert(is_ws(w[w.len() - 1]));
        assert((s + w).drop_last() =~= s + w.drop_last());
        lemma_trim_end_suffix(s, w.drop_last());
    }
}

proof fn lemma_trim_start_append(s: Seq<char>, w: Seq<char>)
    requires
        all_ws(w),
    ensures
        trim_start(s + w) == trim_start(s) + w || (trim_start(s).len() == 0 && trim_start(s + w).len()
            == 0),
    decreases s.len(),
{
    if s.len() == 0 {
        assert(s + w =~= w);
        lemma_trim_start_ws(w);
    } else if is_ws(s[0]) {
        assert((s + w)[0] == s[0]);
        assert((s + w).drop_first() =~= s.drop_first() + w);
        lemma_trim_start_append(s.drop_first(), w);
    } else {
        assert((s + w)[0] == s[0]);
    }
}

/// Whitespace around a string does not change what trimming it gives.
pub proof fn lemma_trim_ignores_whitespace(w1: Seq<char>, s: Seq<char>, w2: Seq<char>)
    requires
        all_ws(w1),
        all_ws(w2),
    ensures
        trim(w1 + s + w2) == trim(s),
{
    assert(w1 + s + w2 =~= w1 + (s + w2));
    lemma_trim_start_prefix(w1, s + w2);
    lemma_trim_start_append(s, w2);
    if trim_start(s + w2) == trim_start(s) + w2 {
        lemma_trim_end_suffix(trim_start(s), w2);
    }
}

/// The index of the first whitespace character of `s`, or its length.
pub open spec fn first_ws(s: Seq<char>) -> nat
    decreases s.len(),
{
    if s.len() == 0 || is_ws(s[0]) {
        0
    } else {
        1 + first_ws(s.drop_first())
    }
}

pub proof fn lemma_trim_start_len(s: Seq<char>)
    ensures
        trim_start(s).len() <= s.len(),
        trim_start(s).len() > 0 ==> !is_ws(trim_start(s)[0]),
    decreases s.len(),
{
    if s.len() > 0 && is_ws(s[0]) {
        lemma_trim_start_len(s.drop_first());
    }
}

pub proof fn lemma_first_ws_len(s: Seq<char>)
    ensures
        first_ws(s) <= s.len(),
        s.len() > 0 && !is_ws(s[0]) ==> first_ws(s) >= 1,
    decreases s.len(),
{
    if s.len() > 0 && !is_ws(s[0]) {
        lemma_first_ws_len(s.drop_first());
    }
}

/// The maximal runs of non-whitespace characters of `s`, as `str::split_whitespace`
/// gives them.
pub open spec fn words(s: Seq<char>) -> Seq<Seq<char>>
    decreases s.len(),
{
    let t = trim_start(s);
    if t.len() == 0 {
        Seq::empty()
    } else {
        proof {
            lemma_trim_start_len(s);
            lemma_first_ws_len(t);
        }
        seq![t.take(first_ws(t) as int)] + words(t.skip(first_ws(t) as int))
    }
}

/// ASCII letters lowered, as `to_ascii_lowercase` does.
pub open spec fn lower_char(c: char) -> char {
    if 'A' <= c <= 'Z' {
        ((c as u32) + 32) as char
    } else {
        c
    }
}

pub open spec fn ascii_lower(s: Seq<char>) -> Seq<char> {
    s.map_values(|c: char| lower_char(c))
}

/// The characters of a string slice.
pub fn chars_of(s: &str) -> (v: Vec<char>)
    ensures
        v@ == s@,
{
    let n = s.unicode_len();
    let mut v: Vec<char> = Vec::new();
    let mut i: usize = 0;
    while i < n
        invariant
            n == s@.len(),
            0 <= i <= n,
            v@ == s@.take(i as int),
        decreases n - i,
    {
        v.push(s.get_char(i));
        i += 1;
        assert(v@ =~= s@.take(i as int));
    }
    assert(s@.take(n as int) =~= s@);
    v
}

/// A `String` holding exactly the given characters, built by std's
/// `Iterator::collect` (through `FromIterator<&char> for String`). The contract
/// claims that the collected string's characters are those of the slice, in order,
/// as std documents for collecting characters into a `String`.
#[verifier::external_body]
pub(crate) fn string_from_chars(cs: &[char]) -> (s: String)
    ensures
        s@ == cs@,
{
    cs.iter().collect()
}

/// The characters `s[lo..hi]`.
pub fn sub_chars(s: &Vec<char>, lo: usize, hi: usize) -> (v: Vec<char>)
    requires
        lo <= hi <= s.len(),
    ensures
        v@ == s@.subrange(lo as int, hi as int),
{
    let mut v: Vec<char> = Vec::new();
    let mut i = lo;
    while i < hi
        invariant
            lo <= i <= hi <= s.len(),
            v@ == s@.subrange(lo as int, i as int),
        decreases hi - i,
    {
        v.push(s[i]);
        i += 1;
        assert(v@ =~= s@.subrange(lo as int, i as int));
    }
    v
}

/// Whether the characters `s[lo..hi]` spell `lit`.
pub fn range_eq(s: &Vec<char>, lo: usize, hi: usize, lit: &str) -> (r: bool)
    requires
        lo <= hi <= s.len(),
    ensures
        r == (s@.subrange(lo as int, hi as int) == lit@),
{
    let n = lit.unicode_len();
    if hi - lo != n {
        proof {
            if s@.subrange(lo as int, hi as int) == lit@ {
                assert(s@.subrange(lo as int, hi as int).len() == lit@.len());
            }
        }
        return false;
    }
    let mut i: usize = 0;
    while i < n
        invariant
            n == lit@.len(),
            hi - lo == n,
            lo <= hi <= s.len(),
            0 <= i <= n,
            forall|j: int| 0 <= j < i ==> s@[lo + j] == lit@[j],
        decreases n - i,
    {
        if s[lo + i] != lit.get_char(i) {
            assert(s@.subrange(lo as int, hi as int)[i as int] != lit@[i as int]);
            return false;
        }
        i += 1;
    }
    assert(s@.subrange(lo as int, hi as int) =~= lit@);
    true
}

/// Whether `s[lo..hi]` begins with `lit`.
pub fn range_starts_with(s: &Vec<char>, lo: usize, hi: usize, lit: &str) -> (r: bool)
    requires
        lo <= hi <= s.len(),
    ensures
        r == (lit@.len() <= hi - lo && s@.subrange(lo as int, lo + lit@.len()) == lit@),
{
    let n = lit.unicode_len();
    if n > hi - lo {
        return false;
    }
    range_eq(s, lo, lo + n, lit)
}

proof fn lemma_trim_start_step(s: Seq<char>, lo: int, hi: int)
    requires
        0 <= lo < hi <= s.len(),
    ensures
        is_ws(s[lo]) ==> trim_start(s.subrange(lo, hi)) == trim_start(s.subrange(lo + 1, hi)),
        !is_ws(s[lo]) ==> trim_start(s.subrange(lo, hi)) == s.subrange(lo, hi),
{
    assert(s.subrange(lo, hi).drop_first() =~= s.subrange(lo + 1, hi));
}

proof fn lemma_trim_end_step(s: Seq<char>, lo: int, hi: int)
    requires
        0 <= lo < hi <= s.len(),
    ensures
        is_ws(s[hi - 1]) ==> trim_end(s.subrange(lo, hi)) == trim_end(s.subrange(lo, hi - 1)),
        !is_ws(s[hi - 1]) ==> trim_end(s.subrange(lo, hi)) == s.subrange(lo, hi),
{
    assert(s.subrange(lo, hi).drop_last() =~= s.subrange(lo, hi - 1));
}

/// Skips leading whitespace of `s[lo..hi]`.
pub fn skip_ws(s: &Vec<char>, lo: usize, hi: usize) -> (p: usize)
    requires
        lo <= hi <= s.len(),
    ensures
        lo <= p <= hi,
        trim_start(s@.subrange(lo as int, hi as int)) == s@.subrange(p as int, hi as int),
{
    let mut p = lo;
    while p < hi && is_whitespace(s[p])
        invariant
            lo <= p <= hi <= s.len(),
            trim_start(s@.subrange(lo as int, hi as int)) == trim_start(
                s@.subrange(p as int, hi as int),
            ),
        decreases hi - p,
    {
        proof {
            lemma_trim_start_step(s@, p as int, hi as int);
        }
        p += 1;
    }
    proof {
        if p < hi {
            lemma_trim_start_step(s@, p as int, hi as int);
        } else {
            assert(s@.subrange(p as int, hi as int).len() == 0);
        }
    }
    p
}

/// The range of `s[lo..hi]` left once whitespace is trimmed from both ends.
pub fn trim_range(s: &Vec<char>, lo: usize, hi: usize) -> (r: (usize, usize))
    requires
        lo <= hi <= s.len(),
    ensures
        lo <= r.0 <= r.1 <= hi,
        trim(s@.subrange(lo as int, hi as int)) == s@.subrange(r.0 as int, r.1 as int),
{
    let p = skip_ws(s, lo, hi);
    let mut q = hi;
    while q > p && is_whitespace(s[q - 1])
        invariant
            lo <= p <= q <= hi <= s.len(),
            trim(s@.subrange(lo as int, hi as int)) == trim_end(s@.subrange(p as int, q as int)),
        decreases q - p,
    {
        proof {
            lemma_trim_end_step(s@, p as int, q as int);
        }
        q -= 1;
    }
    proof {
        if q > p {
            lemma_trim_end_step(s@, p as int, q as int);
        } else {
            assert(s@.subrange(p as int, q as int).len() == 0);
        }
    }
    (p, q)
}

/// The first whitespace position in `s[lo..hi]`, or `hi`.
pub fn find_ws(s: &Vec<char>, lo: usize, hi: usize) -> (k: usize)
    requires
        lo <= hi <= s.len(),
    ensures
        lo <= k <= hi,
        k == lo + first_ws(s@.subrange(lo as int, hi as int)),
{
    let mut k = lo;
    while k < hi && !is_whitespace(s[k])
        invariant
            lo <= k <= hi <= s.len(),
            lo + first_ws(s@.subrange(lo as int, hi as int)) == k + first_ws(
                s@.subrange(k as int, hi as int),
            ),
        decreases hi - k,
    {
        assert(s@.subrange(k as int, hi as int).drop_first() =~= s@.subrange(k + 1, hi as int));
        k += 1;
    }
    k
}

/// The words of `s[lo..hi]`.
pub fn split_words(s: &Vec<char>, lo: usize, hi: usize) -> (ws: Vec<Vec<char>>)
    requires
        lo <= hi <= s.len(),
    ensures
        ws@.map_values(|w: Vec<char>| w@) == words(s@.subrange(lo as int, hi as int)),
{
    let mut ws: Vec<Vec<char>> = Vec::new();
    let mut p = lo;
    while p < hi
        invariant
            lo <= p <= hi <= s.len(),
            words(s@.subrange(lo as int, hi as int)) == ws@.map_values(|w: Vec<char>| w@)
                + words(s@.subrange(p as int, hi as int)),
        decreases hi - p,
    {
        let start = skip_ws(s, p, hi);
        if start == hi {
            assert(words(s@.subrange(p as int, hi as int)) =~= Seq::<Seq<char>>::empty());
            assert(ws@.map_values(|w: Vec<char>| w@) + Seq::<Seq<char>>::empty() =~= ws@.map_values(
                |w: Vec<char>| w@,
            ));
            p = hi;
        } else {
            let end = find_ws(s, start, hi);
            let ghost t = s@.subrange(start as int, hi as int);
            proof {
                lemma_first_ws_len(t);
                assert(t.take(first_ws(t) as int) =~= s@.subrange(start as int, end as int));
                assert(t.skip(first_ws(t) as int) =~= s@.subrange(end as int, hi as int));
            }
            let w = sub_chars(s, start, end);
            let ghost before = ws@.map_values(|w: Vec<char>| w@);
            ws.push(w);
            assert(ws@.map_values(|w: Vec<char>| w@) =~= before.push(
                s@.subrange(start as int, end as int),
            ));
            assert(before + words(s@.subrange(p as int, hi as int)) =~= before.push(
                s@.subrange(start as int, end as int),
            ) + words(s@.subrange(end as int, hi as int)));
            p = end;
        }
    }
    assert(words(s@.subrange(p as int, hi as int)) =~= Seq::<Seq<char>>::empty());
    assert(ws@.map_values(|w: Vec<char>| w@) + Seq::<Seq<char>>::empty() =~= ws@.map_values(
        |w: Vec<char>| w@,
    ));
    ws
}

/// `s[lo..hi]` with ASCII letters lowered.
pub fn lower_range(s: &Vec<char>, lo: usize, hi: usize) -> (v: Vec<char>)
    requires
        lo <= hi <= s.len(),
    ensures
        v@ == ascii_lower(s@.subrange(lo as int, hi as int)),
{
    let mut v: Vec<char> = Vec::new();
    let mut i = lo;
    while i < hi
        invariant
            lo <= i <= hi <= s.len(),
            v@ == ascii_lower(s@.subrange(lo as int, i as int)),
        decreases hi - i,
    {
        let c = s[i];
        let l = if 'A' <= c && c <= 'Z' {
            assert(('A' as u32) <= (c as u32) <= ('Z' as u32));
            char_from_lower(c)
        } else {
            c
        };
        v.push(l);
        i += 1;
        assert(v@ =~= ascii_lower(s@.subrange(lo as int, i as int)));
    }
    v
}

fn char_from_lower(c: char) -> (l: char)
    requires
        'A' <= c <= 'Z',
    ensures
        l == lower_char(c),
{
    let u = c as u32 + 32;
    if u == 97 { 'a' } else if u == 98 { 'b' } else if u == 99 { 'c' } else if u == 100 { 'd' }
    else if u == 101 { 'e' } else if u == 102 { 'f' } else if u == 103 { 'g' }
    else if u == 104 { 'h' } else if u == 105 { 'i' } else if u == 106 { 'j' }
    else if u == 107 { 'k' } else if u == 108 { 'l' } else if u == 109 { 'm' }
    else if u == 110 { 'n' } else if u == 111 { 'o' } else if u == 112 { 'p' }
    else if u == 113 { 'q' } else if u == 114 { 'r' } else if u == 115 { 's' }
    else if u == 116 { 't' } else if u == 117 { 'u' } else if u == 118 { 'v' }
    else if u == 119 { 'w' } else if u == 120 { 'x' } else if u == 121 { 'y' } else { 'z' }
}


/// An ASCII decimal digit.
pub open spec fn is_digit(c: char) -> bool {
    '0' <= c <= '9'
}

pub open spec fn all_digits(d: Seq<char>) -> bool {
    forall|i: int| 0 <= i < d.len() ==> is_digit(#[trigger] d[i])
}

/// The number that a string of decimal digits spells.
pub open spec fn digits_value(d: Seq<char>) -> int
    decreases d.len(),
{
    if d.len() == 0 {
        0
    } else {
        digits_value(d.drop_last()) * 10 + ((d.last() as u32) - ('0' as u32))
    }
}

/// The value of `s` as `i32::from_str` reads it: an optional sign, then at least one
/// decimal digit, and nothing else; `None` when the value does not fit.
pub open spec fn parse_i32_spec(s: Seq<char>) -> Option<i32> {
    let neg = s.len() > 0 && s[0] == '-';
    let d = if s.len() > 0 && (s[0] == '-' || s[0] == '+') {
        s.drop_first()
    } else {
        s
    };
    let v = if neg {
        -digits_value(d)
    } else {
        digits_value(d)
    };
    if d.len() == 0 || !all_digits(d) || !(i32::MIN <= v <= i32::MAX) {
        None
    } else {
        Some(v as i32)
    }
}

proof fn lemma_digits_grow(d: Seq<char>, k: int)
    requires
        all_digits(d),
        0 <= k <= d.len(),
    ensures
        0 <= digits_value(d.take(k)) <= digits_value(d),
    decreases d.len(),
{
    if d.len() > 0 {
        assert(all_digits(d.drop_last()));
        if k == d.len() {
            assert(d.take(k) =~= d);
            lemma_digits_grow(d.drop_last(), d.len() - 1);
            assert(d.drop_last().take(d.len() - 1) =~= d.drop_last());
        } else {
            lemma_digits_grow(d.drop_last(), k);
            assert(d.drop_last().take(k) =~= d.take(k));
            lemma_digits_grow(d.drop_last(), d.len() - 1);
            assert(d.drop_last().take(d.len() - 1) =~= d.drop_last());
        }
    } else {
        assert(d.take(k) =~= d);
    }
}

/// Reads `w` as an `i32` the way `str::parse::<i32>` does.
pub fn parse_i32(w: &Vec<char>) -> (r: Option<i32>)
    ensures
        r == parse_i32_spec(w@),
{
    let n = w.len();
    let neg = n > 0 && w[0] == '-';
    let start: usize = if n > 0 && (w[0] == '-' || w[0] == '+') {
        1
    } else {
        0
    };
    let ghost d = if n > 0 && (w@[0] == '-' || w@[0] == '+') {
        w@.drop_first()
    } else {
        w@
    };
    assert(d =~= w@.subrange(start as int, n as int));
    if start == n {
        return None;
    }
    let mut acc: i64 = 0;
    let mut i = start;
    while i < n
        invariant
            start <= i <= n == w.len(),
            start < n,
            d == w@.subrange(start as int, n as int),
            d == (if n > 0 && (w@[0] == '-' || w@[0] == '+') {
                w@.drop_first()
            } else {
                w@
            }),
            neg == (n > 0 && w@[0] == '-'),
            all_digits(d.take(i - start)),
            acc == digits_value(d.take(i - start)),
            0 <= acc <= 2147483648,
        decreases n - i,
    {
        let c = w[i];
        if !('0' <= c && c <= '9') {
            assert(d[i - start] == c);
            assert(!is_digit(d[i - start]));
            return None;
        }
        assert(d.take(i - start + 1).drop_last() =~= d.take(i - start));
        let digit = (c as u32 - '0' as u32) as i64;
        assert(d.take(i - start + 1).last() == c);
        assert(digits_value(d.take(i - start + 1)) == acc * 10 + digit);
        acc = acc * 10 + digit;
        i += 1;
        assert(all_digits(d.take(i - start)));
        if acc > 2147483648 {
            proof {
                if all_digits(d) {
                    lemma_digits_grow(d, i - start);
                    assert(digits_value(d) >= acc);
                }
            }
            return None;
        }
    }
    assert(d.take(n - start) =~= d);
    if neg {
        Some((-acc) as i32)
    } else if acc > 2147483647 {
        None
    } else {
        Some(acc as i32)
    }
}


/// `s` without leading and trailing whitespace.
pub fn trim_str(s: &str) -> (r: String)
    ensures
        r@ == trim(s@),
{
    let cs = chars_of(s);
    let n = cs.len();
    assert(cs@.subrange(0, n as int) =~= s@);
    let (a, b) = trim_range(&cs, 0, n);
    string_from_chars(sub_chars(&cs, a, b).as_slice())
}

}
