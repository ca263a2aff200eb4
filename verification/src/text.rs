//! Small string helpers shared by the engine and the domain layer.
use vstd::prelude::*;

verus! {

/// `String::push` appends one character (std's documented behaviour).
pub assume_specification[ String::push ](s: &mut String, ch: char)
    ensures
        final(s)@ == old(s)@.push(ch),
;

/// The characters of `s`, in order.
pub fn chars_of(s: &str) -> (v: Vec<char>)
    ensures
        v@ == s@,
{
    let mut v: Vec<char> = Vec::new();
    for c in it: s.chars()
        invariant
            v@ == it.seq().take(it.index() as int),
            it.seq() == s@,
    {
        v.push(c);
    }
    v
}

/// Whether two character vectors hold the same characters.
pub fn chars_eq(a: &Vec<char>, b: &Vec<char>) -> (r: bool)
    ensures
        r == (a@ == b@),
{
    if a.len() != b.len() {
        return false;
    }
    let mut i: usize = 0;
    while i < a.len()
        invariant
            a.len() == b.len(),
            i <= a.len(),
            forall|j: int| 0 <= j < i ==> a@[j] == b@[j],
        decreases a.len() - i,
    {
        if a[i] != b[i] {
            return false;
        }
        i += 1;
    }
    assert(a@ =~= b@);
    true
}

/// Whether two strings hold the same characters.
pub fn str_eq(a: &str, b: &str) -> (r: bool)
    ensures
        r == (a@ == b@),
{
    let ca = chars_of(a);
    let cb = chars_of(b);
    chars_eq(&ca, &cb)
}

/// An owned copy of `s`.
pub fn owned(s: &str) -> (r: String)
    ensures
        r@ == s@,
{
    s.to_string()
}

/// `a` followed by `b`.
pub fn join(a: &str, b: &str) -> (r: String)
    ensures
        r@ == a@ + b@,
{
    let s = a.to_string();
    s.concat(b)
}

/// `a`, `b` and `c`, one after the other.
pub fn join3(a: &str, b: &str, c: &str) -> (r: String)
    ensures
        r@ == a@ + b@ + c@,
{
    let s = join(a, b);
    s.concat(c)
}

/// Whether `s` starts with `prefix`.
pub fn starts_with_chars(s: &Vec<char>, prefix: &Vec<char>) -> (r: bool)
    ensures
        r == (prefix@.len() <= s@.len() && s@.take(prefix@.len() as int) == prefix@),
{
    if prefix.len() > s.len() {
        return false;
    }
    let mut i: usize = 0;
    while i < prefix.len()
        invariant
            prefix.len() <= s.len(),
            i <= prefix.len(),
            forall|j: int| 0 <= j < i ==> s@[j] == prefix@[j],
        decreases prefix.len() - i,
    {
        if s[i] != prefix[i] {
            assert(s@.take(prefix@.len() as int)[i as int] != prefix@[i as int]);
            return false;
        }
        i += 1;
    }
    assert(s@.take(prefix@.len() as int) =~= prefix@);
    true
}

/// Lexicographic order of character sequences by code point (for UTF-8
/// strings this is the order of their bytes).
pub open spec fn seq_lt(a: Seq<char>, b: Seq<char>) -> bool
    decreases a.len(),
{
    if a.len() == 0 {
        b.len() > 0
    } else if b.len() == 0 {
        false
    } else if (a[0] as u32) < (b[0] as u32) {
        true
    } else if (a[0] as u32) > (b[0] as u32) {
        false
    } else {
        seq_lt(a.drop_first(), b.drop_first())
    }
}

/// Whether `a` comes strictly before `b`.
pub fn chars_lt(a: &Vec<char>, b: &Vec<char>) -> (r: bool)
    ensures
        r == seq_lt(a@, b@),
{
    let mut i: usize = 0;
    assert(a@.skip(0) =~= a@);
    assert(b@.skip(0) =~= b@);
    while i < a.len() && i < b.len()
        invariant
            i <= a.len(),
            i <= b.len(),
            seq_lt(a@.skip(i as int), b@.skip(i as int)) == seq_lt(a@, b@),
        decreases a.len() - i,
    {
        let x = a[i] as u32;
        let y = b[i] as u32;
        assert(a@.skip(i as int)[0] == a@[i as int]);
        assert(b@.skip(i as int)[0] == b@[i as int]);
        if x < y {
            return true;
        }
        if x > y {
            return false;
        }
        assert(a@.skip(i as int).drop_first() =~= a@.skip(i + 1));
        assert(b@.skip(i as int).drop_first() =~= b@.skip(i + 1));
        i += 1;
    }
    i == a.len() && i < b.len()
}

/// `seq_lt` is a strict total order: irreflexive, transitive, and any two
/// different strings are ordered one way or the other.
pub proof fn lemma_seq_lt_order(a: Seq<char>, b: Seq<char>, c: Seq<char>)
    ensures
        !seq_lt(a, a),
        seq_lt(a, b) && seq_lt(b, c) ==> seq_lt(a, c),
        a != b ==> seq_lt(a, b) || seq_lt(b, a),
    decreases a.len(),
{
    if a.len() > 0 {
        lemma_seq_lt_order(a.drop_first(), b.drop_first(), c.drop_first());
        if b.len() > 0 {
            vstd::utf8::char_u32_cast(a[0], a[0] as u32);
            vstd::utf8::char_u32_cast(b[0], b[0] as u32);
        }
        if b.len() > 0 && a[0] == b[0] && a.drop_first() == b.drop_first() {
            assert(a =~= b) by {
                assert forall|i: int| 0 <= i < a.len() implies a[i] == b[i] by {
                    if i > 0 {
                        assert(a[i] == a.drop_first()[i - 1]);
                        assert(b[i] == b.drop_first()[i - 1]);
                    }
                }
            }
        }
    } else if b.len() == 0 {
        assert(a =~= b);
    }
}

/// Whether string `a` comes strictly before string `b`.
pub fn str_lt(a: &str, b: &str) -> (r: bool)
    ensures
        r == seq_lt(a@, b@),
{
    let ca = chars_of(a);
    let cb = chars_of(b);
    chars_lt(&ca, &cb)
}

/// The decimal digits of `n`.
pub open spec fn decimal(n: nat) -> Seq<char>
    decreases n,
{
    if n < 10 {
        seq![((n + ('0' as u32)) as u32) as char]
    } else {
        decimal(n / 10).push((((n % 10) + ('0' as u32)) as u32) as char)
    }
}

fn digit_str(d: usize) -> (r: &'static str)
    requires
        d < 10,
    ensures
        r@ == seq![((d + ('0' as u32)) as u32) as char],
{
    proof {
        reveal_strlit("0");
        reveal_strlit("1");
        reveal_strlit("2");
        reveal_strlit("3");
        reveal_strlit("4");
        reveal_strlit("5");
        reveal_strlit("6");
        reveal_strlit("7");
        reveal_strlit("8");
        reveal_strlit("9");
    }
    if d == 0 {
        "0"
    } else if d == 1 {
        "1"
    } else if d == 2 {
        "2"
    } else if d == 3 {
        "3"
    } else if d == 4 {
        "4"
    } else if d == 5 {
        "5"
    } else if d == 6 {
        "6"
    } else if d == 7 {
        "7"
    } else if d == 8 {
        "8"
    } else {
        "9"
    }
}

/// `s` followed by the decimal digits of `n`.
pub fn append_decimal(s: &mut String, n: usize)
    ensures
        final(s)@ == old(s)@ + decimal(n as nat),
{
    append_decimal_u64(s, n as u64);
}

/// `s` followed by the decimal digits of `n`.
pub fn append_decimal_u64(s: &mut String, n: u64)
    ensures
        final(s)@ == old(s)@ + decimal(n as nat),
    decreases n,
{
    if n >= 10 {
        append_decimal_u64(s, n / 10);
    }
    s.append(digit_str((n % 10) as usize));
    assert(s@ =~= old(s)@ + decimal(n as nat));
}

/// `decimal(n)` with zeros in front up to `width` characters.
pub open spec fn zero_padded(n: nat, width: nat) -> Seq<char> {
    let d = decimal(n);
    if d.len() < width {
        Seq::new((width - d.len()) as nat, |i: int| '0') + d
    } else {
        d
    }
}

/// The decimal form of `n`, zero-padded to `width` characters (as the
/// format `{:0width$}` writes it).
pub fn zero_padded_string(n: u64, width: usize) -> (r: String)
    ensures
        r@ == zero_padded(n as nat, width as nat),
{
    let mut digits = String::new();
    append_decimal_u64(&mut digits, n);
    assert(digits@ =~= decimal(n as nat));
    let len = chars_of(digits.as_str()).len();
    let mut out = String::new();
    let mut k: usize = len;
    proof {
        reveal_strlit("0");
    }
    while k < width
        invariant
            len == decimal(n as nat).len(),
            len <= k <= width || (k == len && len >= width),
            out@ == Seq::new((k - len) as nat, |i: int| '0'),
        decreases width - k,
    {
        out.push('0');
        k += 1;
        assert(out@ =~= Seq::new((k - len) as nat, |i: int| '0'));
    }
    out.append(digits.as_str());
    assert(out@ =~= zero_padded(n as nat, width as nat));
    out
}

/// The decimal form of `n`.
pub fn decimal_string(n: usize) -> (r: String)
    ensures
        r@ == decimal(n as nat),
{
    let mut s = String::new();
    append_decimal(&mut s, n);
    assert(s@ =~= decimal(n as nat));
    s
}

/// The Unicode `White_Space` property.
pub open spec fn white_space(c: char) -> bool {
    let n = c as u32;
    (0x9 <= n && n <= 0xd) || n == 0x20 || n == 0x85 || n == 0xa0 || n == 0x1680 || (0x2000 <= n && n
        <= 0x200a) || n == 0x2028 || n == 0x2029 || n == 0x202f || n == 0x205f || n == 0x3000
}

pub fn is_white_space(c: char) -> (r: bool)
    ensures
        r == white_space(c),
{
    let n = c as u32;
    (0x9 <= n && n <= 0xd) || n == 0x20 || n == 0x85 || n == 0xa0 || n == 0x1680 || (0x2000 <= n && n
        <= 0x200a) || n == 0x2028 || n == 0x2029 || n == 0x202f || n == 0x205f || n == 0x3000
}

/// `s` without leading and trailing white space: `s[lo..hi]` where `lo` is
/// the first non-space position and `hi` one past the last.
pub open spec fn trimmed(s: Seq<char>) -> Seq<char> {
    let lo = match crate::seqs::first_match(s, not_space()) {
        Some(i) => i,
        None => s.len() as int,
    };
    let hi = match crate::seqs::first_match(s.reverse(), not_space()) {
        Some(j) => s.len() - j,
        None => lo,
    };
    s.subrange(lo, hi)
}

pub open spec fn not_space() -> spec_fn(char) -> bool {
    |c: char| !white_space(c)
}

/// The string without leading and trailing white space.
pub fn trim(s: &str) -> (r: String)
    ensures
        r@ == trimmed(s@),
{
    let cs = chars_of(s);
    let ghost p = not_space();
    let mut lo: usize = 0;
    while lo < cs.len() && is_white_space(cs[lo])
        invariant
            lo <= cs.len(),
            p == not_space(),
            forall|j: int| 0 <= j < lo ==> !p(#[trigger] cs@[j]),
        decreases cs.len() - lo,
    {
        lo += 1;
    }
    proof {
        if lo < cs.len() {
            crate::seqs::lemma_first_match_is(cs@, p, lo as int);
        } else {
            crate::seqs::lemma_first_match_none(cs@, p);
        }
    }
    let mut hi: usize = cs.len();
    let ghost rev = cs@.reverse();
    while hi > lo && is_white_space(cs[hi - 1])
        invariant
            lo <= hi <= cs.len(),
            p == not_space(),
            rev == cs@.reverse(),
            lo < cs.len() ==> !white_space(cs@[lo as int]),
            lo < cs.len() ==> hi > lo,
            forall|j: int| 0 <= j < cs.len() - hi ==> !p(#[trigger] rev[j]),
        decreases hi,
    {
        assert(rev[cs.len() - hi] == cs@[hi - 1]);
        hi -= 1;
    }
    proof {
        if lo < cs.len() {
            assert(hi > lo);
            assert(rev[cs.len() - hi] == cs@[hi - 1]);
            crate::seqs::lemma_first_match_is(rev, p, cs.len() - hi);
        } else {
            assert forall|j: int| 0 <= j < rev.len() implies !p(#[trigger] rev[j]) by {
                assert(rev[j] == cs@[cs.len() - 1 - j]);
            }
            crate::seqs::lemma_first_match_none(rev, p);
        }
    }
    string_of_range(&cs, lo, hi)
}

/// The characters `cs[lo..hi]` as a string.
pub fn string_of_range(cs: &Vec<char>, lo: usize, hi: usize) -> (r: String)
    requires
        lo <= hi <= cs@.len(),
    ensures
        r@ == cs@.subrange(lo as int, hi as int),
{
    let mut out = String::new();
    let mut k: usize = lo;
    while k < hi
        invariant
            lo <= k <= hi,
            hi <= cs.len(),
            out@ == cs@.subrange(lo as int, k as int),
        decreases hi - k,
    {
        out.push(cs[k]);
        k += 1;
        assert(out@ =~= cs@.subrange(lo as int, k as int));
    }
    out
}

/// Whether `c` is an ASCII digit.
pub open spec fn ascii_digit(c: char) -> bool {
    '0' <= c && c <= '9'
}

/// The number the ASCII digits `ds` write.
pub open spec fn digits_value(ds: Seq<char>) -> int
    decreases ds.len(),
{
    if ds.len() == 0 {
        0
    } else {
        digits_value(ds.drop_last()) * 10 + ((ds.last() as u32) - ('0' as u32))
    }
}

/// Whether every character of `ds` is an ASCII digit.
pub open spec fn all_ascii_digits(ds: Seq<char>) -> bool {
    forall|i: int| 0 <= i < ds.len() ==> ascii_digit(#[trigger] ds[i])
}

/// The length of the sign in front of a decimal (`+` or `-`).
pub open spec fn sign_len(s: Seq<char>) -> int {
    if s.len() > 0 && (s[0] == '-' || s[0] == '+') {
        1
    } else {
        0
    }
}

/// A signed decimal as `i64::from_str` reads it: an optional `+` or `-`,
/// then at least one ASCII digit, the value in range.
pub open spec fn parse_i64_spec(s: Seq<char>) -> Option<i64> {
    let ds = s.skip(sign_len(s));
    if ds.len() == 0 || !all_ascii_digits(ds) {
        None
    } else {
        let v = if s[0] == '-' {
            -digits_value(ds)
        } else {
            digits_value(ds)
        };
        if i64::MIN <= v <= i64::MAX {
            Some(v as i64)
        } else {
            None
        }
    }
}

proof fn lemma_digits_value_grows(ds: Seq<char>, i: int)
    requires
        0 <= i <= ds.len(),
        all_ascii_digits(ds),
    ensures
        digits_value(ds) >= digits_value(ds.take(i)) >= 0,
    decreases ds.len() - i,
{
    if i == ds.len() {
        assert(ds.take(i) =~= ds);
        lemma_digits_value_nonneg(ds);
    } else {
        lemma_digits_value_grows(ds, i + 1);
        assert(ds.take(i + 1).drop_last() =~= ds.take(i));
        assert(all_ascii_digits(ds.take(i)));
        lemma_digits_value_nonneg(ds.take(i));
    }
}

proof fn lemma_digits_value_nonneg(ds: Seq<char>)
    requires
        all_ascii_digits(ds),
    ensures
        digits_value(ds) >= 0,
    decreases ds.len(),
{
    if ds.len() > 0 {
        assert(all_ascii_digits(ds.drop_last()));
        lemma_digits_value_nonneg(ds.drop_last());
    }
}

/// `str::parse::<i64>`, on the characters of `s`.
pub fn parse_i64(s: &str) -> (r: Option<i64>)
    ensures
        r == parse_i64_spec(s@),
{
    let cs = chars_of(s);
    let signed = cs.len() > 0 && (cs[0] == '-' || cs[0] == '+');
    let neg = cs.len() > 0 && cs[0] == '-';
    let start: usize = if signed {
        1
    } else {
        0
    };
    let ghost ds = cs@.skip(start as int);
    assert(start == sign_len(cs@));
    if start == cs.len() {
        return None;
    }
    let mut acc: i64 = 0;
    let mut i: usize = start;
    assert(ds.take(0) =~= Seq::<char>::empty());
    let ghost v: int = 0;
    while i < cs.len()
        invariant
            cs@ == s@,
            start == sign_len(cs@),
            ds == cs@.skip(start as int),
            ds.len() > 0,
            neg == (cs@[0] == '-'),
            start <= i <= cs.len(),
            all_ascii_digits(ds.take(i - start)),
            acc == if neg {
                -digits_value(ds.take(i - start))
            } else {
                digits_value(ds.take(i - start))
            },
        decreases cs.len() - i,
    {
        let c = cs[i];
        assert(ds[i - start] == c);
        if !('0' <= c && c <= '9') {
            assert(!all_ascii_digits(ds));
            return None;
        }
        let d = (c as u32 - '0' as u32) as i64;
        assert(ds.take(i + 1 - start).drop_last() =~= ds.take(i - start));
        assert(ds.take(i + 1 - start).last() == c);
        assert(digits_value(ds.take(i + 1 - start)) == digits_value(ds.take(i - start)) * 10 + d);
        assert(all_ascii_digits(ds.take(i + 1 - start)));
        let next = if neg {
            match acc.checked_mul(10) {
                Some(m) => m.checked_sub(d),
                None => None,
            }
        } else {
            match acc.checked_mul(10) {
                Some(m) => m.checked_add(d),
                None => None,
            }
        };
        match next {
            Some(x) => {
                acc = x;
            },
            None => {
                proof {
                    lemma_digits_value_nonneg(ds.take(i - start));
                    if all_ascii_digits(ds) {
                        lemma_digits_value_grows(ds, i + 1 - start);
                    }
                }
                return None;
            },
        }
        i += 1;
    }
    assert(ds.take(cs.len() - start) =~= ds);
    Some(acc)
}

/// `s` without its leading double quotes.
pub open spec fn strip_leading_quotes(s: Seq<char>) -> Seq<char>
    decreases s.len(),
{
    if s.len() > 0 && s[0] == '"' {
        strip_leading_quotes(s.drop_first())
    } else {
        s
    }
}

/// `s` without its trailing double quotes.
pub open spec fn strip_trailing_quotes(s: Seq<char>) -> Seq<char>
    decreases s.len(),
{
    if s.len() > 0 && s.last() == '"' {
        strip_trailing_quotes(s.drop_last())
    } else {
        s
    }
}

proof fn lemma_strip_leading(s: Seq<char>, n: int)
    requires
        0 <= n <= s.len(),
        forall|k: int| 0 <= k < n ==> #[trigger] s[k] == '"',
        n == s.len() || s[n] != '"',
    ensures
        strip_leading_quotes(s) == s.skip(n),
    decreases n,
{
    if n == 0 {
        assert(s.skip(0) =~= s);
    } else {
        assert forall|k: int| 0 <= k < n - 1 implies #[trigger] s.drop_first()[k] == '"' by {
            assert(s.drop_first()[k] == s[k + 1]);
        }
        lemma_strip_leading(s.drop_first(), n - 1);
        assert(s.drop_first().skip(n - 1) =~= s.skip(n));
    }
}

proof fn lemma_strip_trailing(t: Seq<char>, m: int)
    requires
        0 <= m <= t.len(),
        forall|k: int| m <= k < t.len() ==> #[trigger] t[k] == '"',
        m == 0 || t[m - 1] != '"',
    ensures
        strip_trailing_quotes(t) == t.take(m),
    decreases t.len() - m,
{
    if m == t.len() {
        assert(t.take(m) =~= t);
    } else {
        assert forall|k: int| m <= k < t.len() - 1 implies #[trigger] t.drop_last()[k] == '"' by {
            assert(t.drop_last()[k] == t[k]);
        }
        lemma_strip_trailing(t.drop_last(), m);
        assert(t.drop_last().take(m) =~= t.take(m));
    }
}

/// `str::trim_matches('"')`: `s` without the double quotes at either end.
pub fn trim_quotes(s: &str) -> (r: String)
    ensures
        r@ == strip_trailing_quotes(strip_leading_quotes(s@)),
{
    let cs = chars_of(s);
    let mut lo: usize = 0;
    while lo < cs.len() && cs[lo] == '"'
        invariant
            lo <= cs.len(),
            forall|k: int| 0 <= k < lo ==> #[trigger] cs@[k] == '"',
        decreases cs.len() - lo,
    {
        lo += 1;
    }
    proof {
        lemma_strip_leading(cs@, lo as int);
    }
    let ghost t = cs@.skip(lo as int);
    let mut hi: usize = cs.len();
    while hi > lo && cs[hi - 1] == '"'
        invariant
            lo <= hi <= cs.len(),
            t == cs@.skip(lo as int),
            forall|k: int| hi - lo <= k < t.len() ==> #[trigger] t[k] == '"',
        decreases hi,
    {
        assert(t[hi - 1 - lo] == cs@[hi - 1]);
        hi -= 1;
    }
    proof {
        if hi > lo {
            assert(t[hi - lo - 1] == cs@[hi - 1]);
        }
        lemma_strip_trailing(t, (hi - lo) as int);
        assert(t.take(hi - lo) =~= cs@.subrange(lo as int, hi as int));
    }
    string_of_range(&cs, lo, hi)
}

} // verus!
