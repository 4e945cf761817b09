//! Text utilities: whitespace trimming and substring search over
//! character sequences, with exact specifications.

use vstd::prelude::*;

verus! {

/// A character with the Unicode `White_Space` property, the class that
/// `str::trim` removes at either end of a string.
pub open spec fn is_ws(c: char) -> bool {
    c == '\u{9}' || c == '\u{a}' || c == '\u{b}' || c == '\u{c}' || c == '\u{d}' || c == ' '
        || c == '\u{85}' || c == '\u{a0}' || c == '\u{1680}' || c == '\u{2000}' || c == '\u{2001}'
        || c == '\u{2002}' || c == '\u{2003}' || c == '\u{2004}' || c == '\u{2005}'
        || c == '\u{2006}' || c == '\u{2007}' || c == '\u{2008}' || c == '\u{2009}'
        || c == '\u{200a}' || c == '\u{2028}' || c == '\u{2029}' || c == '\u{202f}'
        || c == '\u{205f}' || c == '\u{3000}'
}

pub fn is_ws_char(c: char) -> (r: bool)
    ensures
        r == is_ws(c),
{
    c == '\u{9}' || c == '\u{a}' || c == '\u{b}' || c == '\u{c}' || c == '\u{d}' || c == ' '
        || c == '\u{85}' || c == '\u{a0}' || c == '\u{1680}' || c == '\u{2000}' || c == '\u{2001}'
        || c == '\u{2002}' || c == '\u{2003}' || c == '\u{2004}' || c == '\u{2005}'
        || c == '\u{2006}' || c == '\u{2007}' || c == '\u{2008}' || c == '\u{2009}'
        || c == '\u{200a}' || c == '\u{2028}' || c == '\u{2029}' || c == '\u{202f}'
        || c == '\u{205f}' || c == '\u{3000}'
}

/// The sequence with leading whitespace removed.
pub open spec fn trim_start_spec(s: Seq<char>) -> Seq<char>
    decreases s.len(),
{
    if s.len() > 0 && is_ws(s[0]) {
        trim_start_spec(s.drop_first())
    } else {
        s
    }
}

/// The sequence with trailing whitespace removed.
pub open spec fn trim_end_spec(s: Seq<char>) -> Seq<char>
    decreases s.len(),
{
    if s.len() > 0 && is_ws(s.last()) {
        trim_end_spec(s.drop_last())
    } else {
        s
    }
}

/// The sequence with whitespace removed from both ends, as `str::trim`
/// produces it.
pub open spec fn trimmed(s: Seq<char>) -> Seq<char> {
    trim_end_spec(trim_start_spec(s))
}

proof fn lemma_trim_start_skip(s: Seq<char>, f: int)
    requires
        0 <= f <= s.len(),
        forall|k: int| 0 <= k < f ==> is_ws(s[k]),
        f == s.len() || !is_ws(s[f]),
    ensures
        trim_start_spec(s) == s.skip(f),
    decreases f,
{
    if f == 0 {
        assert(s.skip(0) =~= s);
    } else {
        assert(is_ws(s[0]));
        lemma_trim_start_skip(s.drop_first(), f - 1);
        assert(s.drop_first().skip(f - 1) =~= s.skip(f));
    }
}

proof fn lemma_trim_end_take(s: Seq<char>, l: int)
    requires
        0 <= l <= s.len(),
        forall|k: int| l <= k < s.len() ==> is_ws(s[k]),
        l == 0 || !is_ws(s[l - 1]),
    ensures
        trim_end_spec(s) == s.take(l),
    decreases s.len() - l,
{
    if l == s.len() {
        assert(s.take(l) =~= s);
    } else {
        assert(is_ws(s.last()));
        lemma_trim_end_take(s.drop_last(), l);
        assert(s.drop_last().take(l) =~= s.take(l));
    }
}

/// Remove leading and trailing Unicode whitespace from a string.
pub fn trim_str(s: &str) -> (r: String)
    ensures
        r@ == trimmed(s@),
{
    let n = s.unicode_len();
    let mut f: usize = 0;
    loop
        invariant
            f <= n,
            n == s@.len(),
            forall|k: int| 0 <= k < f ==> is_ws(s@[k]),
        ensures
            f <= n,
            forall|k: int| 0 <= k < f ==> is_ws(s@[k]),
            f == n || !is_ws(s@[f as int]),
        decreases n - f,
    {
        if f == n {
            break ;
        }
        if !is_ws_char(s.get_char(f)) {
            break ;
        }
        f = f + 1;
    }
    let mut l: usize = n;
    loop
        invariant
            f <= l <= n,
            n == s@.len(),
            f == n || !is_ws(s@[f as int]),
            forall|k: int| l <= k < n ==> is_ws(s@[k]),
        ensures
            f <= l <= n,
            forall|k: int| l <= k < n ==> is_ws(s@[k]),
            l == f || !is_ws(s@[l - 1]),
        decreases l,
    {
        if l == f {
            break ;
        }
        if !is_ws_char(s.get_char(l - 1)) {
            break ;
        }
        l = l - 1;
    }
    let part = s.substring_char(f, l);
    proof {
        lemma_trim_start_skip(s@, f as int);
        let u = s@.skip(f as int);
        assert forall|k: int| (l - f) <= k < u.len() implies is_ws(u[k]) by {
            assert(u[k] == s@[k + f]);
        }
        if l > f {
            assert(u[l - f - 1] == s@[l - 1]);
        }
        lemma_trim_end_take(u, l - f);
        assert(u.take(l - f) =~= s@.subrange(f as int, l as int));
    }
    part.to_owned()
}

/// `p` occurs as a contiguous subsequence of `s`.
pub open spec fn contains_seq(s: Seq<char>, p: Seq<char>) -> bool {
    exists|i: int| 0 <= i && i + p.len() <= s.len() && #[trigger] s.subrange(i, i + p.len()) == p
}

/// `p` occurs in `s` starting at index `i`.
spec fn match_at(s: Seq<char>, p: Seq<char>, i: int) -> bool {
    &&& 0 <= i
    &&& i + p.len() <= s.len()
    &&& forall|j: int| 0 <= j < p.len() ==> s[i + j] == p[j]
}

proof fn lemma_match_at_contains(s: Seq<char>, p: Seq<char>, i: int)
    requires
        match_at(s, p, i),
    ensures
        contains_seq(s, p),
{
    assert(s.subrange(i, i + p.len() as int) =~= p);
}

/// Substring search: does `p` occur anywhere in `s`?
pub fn str_contains(s: &str, p: &str) -> (r: bool)
    ensures
        r == contains_seq(s@, p@),
{
    let n = s.unicode_len();
    let m = p.unicode_len();
    if m > n {
        return false;
    }
    let mut i: usize = 0;
    while i <= n - m
        invariant
            m <= n,
            n == s@.len(),
            m == p@.len(),
            i <= n - m + 1,
            forall|q: int| 0 <= q < i ==> !match_at(s@, p@, q),
        decreases n - m - i + 1,
    {
        let mut j: usize = 0;
        let mut hit = true;
        while j < m
            invariant
                m <= n,
                n == s@.len(),
                m == p@.len(),
                i + m <= n,
                j <= m,
                hit ==> forall|k: int| 0 <= k < j ==> s@[i + k] == p@[k],
                !hit ==> !match_at(s@, p@, i as int),
            decreases m - j,
        {
            if s.get_char(i + j) != p.get_char(j) {
                hit = false;
                j = m;
            } else {
                j = j + 1;
            }
        }
        if hit {
            proof {
                lemma_match_at_contains(s@, p@, i as int);
            }
            return true;
        }
        i = i + 1;
    }
    proof {
        assert forall|q: int| 0 <= q && q + p@.len() <= s@.len() implies #[trigger] s@.subrange(
            q,
            q + p@.len() as int,
        ) != p@ by {
            assert(!match_at(s@, p@, q));
            if s@.subrange(q, q + p@.len() as int) == p@ {
                assert forall|j: int| 0 <= j < p@.len() implies s@[q + j] == p@[j] by {
                    assert(s@.subrange(q, q + p@.len() as int)[j] == s@[q + j]);
                }
            }
        }
    }
    false
}

/// The character for one decimal digit.
pub open spec fn digit_char(d: int) -> char {
    if d == 0 {
        '0'
    } else if d == 1 {
        '1'
    } else if d == 2 {
        '2'
    } else if d == 3 {
        '3'
    } else if d == 4 {
        '4'
    } else if d == 5 {
        '5'
    } else if d == 6 {
        '6'
    } else if d == 7 {
        '7'
    } else if d == 8 {
        '8'
    } else {
        '9'
    }
}

/// The usual decimal rendering of a non-negative integer, most
/// significant digit first, with no leading zeros (except for zero
/// itself).
pub open spec fn dec_of(n: int) -> Seq<char>
    decreases n,
{
    if n < 10 {
        seq![digit_char(n)]
    } else {
        dec_of(n / 10).push(digit_char(n % 10))
    }
}

fn digit_str(d: u64) -> (r: &'static str)
    requires
        d < 10,
    ensures
        r@ =~= seq![digit_char(d as int)],
{
    proof {
        reveal_strlit("0");
        reveal_strlit("1");
        reveal_strlit("2");
        reveal_strlit("3");
        reveal_strlit("4");
        reveal_strlit("5");
        reveal_strlit("6");
        reveal_strlit("7");
        reveal_strlit("8");
        reveal_strlit("9");
    }
    if d == 0 {
        "0"
    } else if d == 1 {
        "1"
    } else if d == 2 {
        "2"
    } else if d == 3 {
        "3"
    } else if d == 4 {
        "4"
    } else if d == 5 {
        "5"
    } else if d == 6 {
        "6"
    } else if d == 7 {
        "7"
    } else if d == 8 {
        "8"
    } else {
        "9"
    }
}

/// Digits collected least significant first, read back most significant
/// first.
spec fn digits_chars(ds: Seq<u64>) -> Seq<char>
    decreases ds.len(),
{
    if ds.len() == 0 {
        Seq::empty()
    } else {
        digits_chars(ds.drop_first()) + seq![digit_char(ds[0] as int)]
    }
}

proof fn lemma_digits_chars_push(ds: Seq<u64>, d: u64)
    ensures
        digits_chars(ds.push(d)) == seq![digit_char(d as int)] + digits_chars(ds),
    decreases ds.len(),
{
    let e = ds.push(d).drop_first();
    assert(ds.push(d)[0] == d || ds.push(d)[0] == ds[0]);
    if ds.len() == 0 {
        assert(e =~= Seq::<u64>::empty());
        assert(digits_chars(e) =~= Seq::<char>::empty());
        assert(ds.push(d)[0] == d);
        assert(digits_chars(ds.push(d)) == digits_chars(e) + seq![digit_char(d as int)]);
        assert(digits_chars(ds.push(d)) =~= seq![digit_char(d as int)] + digits_chars(ds));
    } else {
        assert(e =~= ds.drop_first().push(d));
        assert(ds.push(d)[0] == ds[0]);
        lemma_digits_chars_push(ds.drop_first(), d);
        assert(digits_chars(ds.push(d)) == digits_chars(e) + seq![digit_char(ds[0] as int)]);
        assert(digits_chars(ds) == digits_chars(ds.drop_first()) + seq![digit_char(ds[0] as int)]);
        assert(digits_chars(ds.push(d)) =~= seq![digit_char(d as int)] + digits_chars(ds));
    }
}

/// Render a number in decimal.
pub fn u64_to_string(n: u64) -> (r: String)
    ensures
        r@ == dec_of(n as int),
{
    let mut digits: Vec<u64> = Vec::new();
    let mut rem = n;
    proof {
        assert(digits_chars(Seq::<u64>::empty()) =~= Seq::<char>::empty());
        assert(dec_of(n as int) =~= dec_of(n as int) + Seq::<char>::empty());
    }
    loop
        invariant
            forall|k: int| 0 <= k < digits@.len() ==> digits@[k] < 10,
            rem != 0 ==> dec_of(n as int) == dec_of(rem as int) + digits_chars(digits@),
            rem == 0 && digits@.len() > 0 ==> dec_of(n as int) == digits_chars(digits@),
            digits@.len() == 0 ==> rem == n,
        ensures
            forall|k: int| 0 <= k < digits@.len() ==> digits@[k] < 10,
            digits@.len() > 0,
            dec_of(n as int) == digits_chars(digits@),
        decreases rem, (if digits@.len() == 0 { 1int } else { 0int }),
    {
        if rem == 0 && digits.len() > 0 {
            break ;
        }
        let d = rem % 10;
        let next = rem / 10;
        proof {
            lemma_digits_chars_push(digits@, d);
            if rem >= 10 {
                assert(dec_of(rem as int) == dec_of(rem as int / 10).push(
                    digit_char(rem as int % 10),
                ));
                assert(dec_of(rem as int) == dec_of(next as int).push(digit_char(d as int)));
                assert(dec_of(next as int).push(digit_char(d as int)) + digits_chars(digits@)
                    =~= dec_of(next as int) + (seq![digit_char(d as int)] + digits_chars(
                    digits@,
                )));
            } else {
                assert(rem == 0 ==> digits@.len() == 0 && n == 0);
                assert(dec_of(rem as int) =~= seq![digit_char(d as int)]);
                assert(seq![digit_char(d as int)] + digits_chars(digits@) == digits_chars(
                    digits@.push(d),
                ));
                if rem == 0 {
                    assert(dec_of(n as int) =~= seq![digit_char(0)]);
                }
            }
        }
        digits.push(d);
        rem = next;
    }
    let mut out = String::new();
    let mut i = digits.len();
    while i > 0
        invariant
            i <= digits@.len(),
            forall|k: int| 0 <= k < digits@.len() ==> digits@[k] < 10,
            out@ == digits_chars(digits@.skip(i as int)),
        decreases i,
    {
        i = i - 1;
        let s = digit_str(digits[i]);
        proof {
            assert(digits@.skip(i as int).drop_first() =~= digits@.skip(i as int + 1));
            assert(digits@.skip(i as int)[0] == digits@[i as int]);
        }
        out.append(s);
    }
    proof {
        assert(digits@.skip(0) =~= digits@);
    }
    out
}

} // verus!
