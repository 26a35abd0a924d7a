//! Verified text helpers: splitting on a separator character,
//! ASCII-case-insensitive comparison, and decimal parsing/formatting of
//! 16-bit port numbers. The runtime's listing grammar is ASCII throughout,
//! so case folding is defined on the ASCII letters alone.

use vstd::prelude::*;
use vstd::string::*;

verus! {

/// ASCII lower-casing of a single character; everything outside `'A'..='Z'`
/// is left unchanged.
pub open spec fn lower_char(c: char) -> char {
    match c {
        'A' => 'a',
        'B' => 'b',
        'C' => 'c',
        'D' => 'd',
        'E' => 'e',
        'F' => 'f',
        'G' => 'g',
        'H' => 'h',
        'I' => 'i',
        'J' => 'j',
        'K' => 'k',
        'L' => 'l',
        'M' => 'm',
        'N' => 'n',
        'O' => 'o',
        'P' => 'p',
        'Q' => 'q',
        'R' => 'r',
        'S' => 's',
        'T' => 't',
        'U' => 'u',
        'V' => 'v',
        'W' => 'w',
        'X' => 'x',
        'Y' => 'y',
        'Z' => 'z',
        _ => c,
    }
}

/// ASCII-case-insensitive equality of two character sequences.
pub open spec fn ci_eq(a: Seq<char>, b: Seq<char>) -> bool {
    a.len() == b.len() && forall|i: int| 0 <= i < a.len() ==> lower_char(#[trigger] a[i]) == lower_char(b[i])
}

fn lower_char_exec(c: char) -> (r: char)
    ensures
        r == lower_char(c),
{
    match c {
        'A' => 'a',
        'B' => 'b',
        'C' => 'c',
        'D' => 'd',
        'E' => 'e',
        'F' => 'f',
        'G' => 'g',
        'H' => 'h',
        'I' => 'i',
        'J' => 'j',
        'K' => 'k',
        'L' => 'l',
        'M' => 'm',
        'N' => 'n',
        'O' => 'o',
        'P' => 'p',
        'Q' => 'q',
        'R' => 'r',
        'S' => 's',
        'T' => 't',
        'U' => 'u',
        'V' => 'v',
        'W' => 'w',
        'X' => 'x',
        'Y' => 'y',
        'Z' => 'z',
        _ => c,
    }
}

/// Compares two strings up to ASCII case.
pub fn eq_ignore_case(a: &str, b: &str) -> (r: bool)
    ensures
        r == ci_eq(a@, b@),
{
    let n = a.unicode_len();
    let m = b.unicode_len();
    if n != m {
        return false;
    }
    let mut i: usize = 0;
    while i < n
        invariant
            0 <= i <= n,
            n == a@.len(),
            n == b@.len(),
            forall|j: int| 0 <= j < i ==> lower_char(#[trigger] a@[j]) == lower_char(b@[j]),
        decreases n - i,
    {
        let ca = lower_char_exec(a.get_char(i));
        let cb = lower_char_exec(b.get_char(i));
        if ca != cb {
            return false;
        }
        i += 1;
    }
    true
}

/// Exact equality of two strings.
pub fn str_eq(a: &str, b: &str) -> (r: bool)
    ensures
        r == (a@ == b@),
{
    let n = a.unicode_len();
    let m = b.unicode_len();
    if n != m {
        proof {
            assert(a@ != b@);
        }
        return false;
    }
    let mut i: usize = 0;
    while i < n
        invariant
            0 <= i <= n,
            n == a@.len(),
            n == b@.len(),
            forall|j: int| 0 <= j < i ==> a@[j] == b@[j],
        decreases n - i,
    {
        if a.get_char(i) != b.get_char(i) {
            return false;
        }
        i += 1;
    }
    proof {
        assert(a@ =~= b@);
    }
    true
}

/// Prepends `pre` to the first segment of a non-empty segment list.
pub open spec fn prepend_first(pre: Seq<char>, segs: Seq<Seq<char>>) -> Seq<Seq<char>>
    recommends
        segs.len() >= 1,
{
    segs.update(0, pre + segs[0])
}

/// Splitting a character sequence on a separator, as `str::split` does:
/// the result always has one segment more than there are separators, and
/// an empty input yields one empty segment.
pub open spec fn split_on(s: Seq<char>, sep: char) -> Seq<Seq<char>>
    decreases s.len(),
{
    if s.len() == 0 {
        seq![Seq::<char>::empty()]
    } else {
        let rest = split_on(s.drop_first(), sep);
        if s[0] == sep {
            seq![Seq::<char>::empty()] + rest
        } else {
            prepend_first(seq![s[0]], rest)
        }
    }
}

/// How many times `c` occurs in `s`.
pub open spec fn count_char(s: Seq<char>, c: char) -> nat
    decreases s.len(),
{
    if s.len() == 0 {
        0
    } else {
        (if s[0] == c {
            1nat
        } else {
            0nat
        }) + count_char(s.drop_first(), c)
    }
}

/// A split always yields one segment more than there are separators.
pub proof fn lemma_split_on_len(s: Seq<char>, sep: char)
    ensures
        split_on(s, sep).len() == count_char(s, sep) + 1,
    decreases s.len(),
{
    if s.len() > 0 {
        lemma_split_on_len(s.drop_first(), sep);
    }
}

pub fn split_str(s: &str, sep: char) -> (r: Vec<String>)
    ensures
        r.deep_view() == split_on(s@, sep),
{
    let n = s.unicode_len();
    let mut r: Vec<String> = Vec::new();
    let mut start: usize = 0;
    let mut i: usize = 0;
    proof {
        lemma_split_on_len(s@, sep);
        assert(s@.subrange(0, n as int) =~= s@);
        assert(prepend_first(Seq::<char>::empty(), split_on(s@, sep)) =~~= split_on(s@, sep));
    }
    while i < n
        invariant
            0 <= start <= i <= n,
            n == s@.len(),
            split_on(s@, sep) == r.deep_view() + prepend_first(
                s@.subrange(start as int, i as int),
                split_on(s@.subrange(i as int, n as int), sep),
            ),
        decreases n - i,
    {
        let ghost pre = s@.subrange(start as int, i as int);
        let ghost tail = s@.subrange(i as int, n as int);
        let ghost tail2 = s@.subrange(i as int + 1, n as int);
        proof {
            assert(tail.len() > 0);
            assert(tail[0] == s@[i as int]);
            assert(tail.drop_first() =~= tail2);
            lemma_split_on_len(tail2, sep);
        }
        let c = s.get_char(i);
        if c == sep {
            let seg = s.substring_char(start, i).to_owned();
            proof {
                let x = split_on(tail2, sep);
                assert(split_on(tail, sep) == seq![Seq::<char>::empty()] + x);
                assert(prepend_first(pre, seq![Seq::<char>::empty()] + x) =~~= seq![pre] + x);
                assert(prepend_first(s@.subrange(i as int + 1, i as int + 1), x) =~~= x);
            }
            let ghost old_r = r;
            r.push(seg);
            proof {
                assert(r.deep_view() =~~= old_r.deep_view() + seq![pre]);
            }
            start = i + 1;
        } else {
            proof {
                let x = split_on(tail2, sep);
                assert(split_on(tail, sep) == prepend_first(seq![tail[0]], x));
                assert(s@.subrange(start as int, i as int + 1) =~= pre + seq![s@[i as int]]);
                assert(prepend_first(pre, prepend_first(seq![s@[i as int]], x)) =~~= prepend_first(
                    s@.subrange(start as int, i as int + 1),
                    x,
                ));
            }
        }
        i += 1;
    }
    let last = s.substring_char(start, n).to_owned();
    proof {
        let ghost pre = s@.subrange(start as int, n as int);
        assert(s@.subrange(n as int, n as int) =~= Seq::<char>::empty());
        assert(split_on(Seq::<char>::empty(), sep) == seq![Seq::<char>::empty()]);
        assert(prepend_first(pre, seq![Seq::<char>::empty()]) =~~= seq![pre]);
    }
    let ghost old_r = r;
    r.push(last);
    proof {
        assert(r.deep_view() =~~= old_r.deep_view() + seq![s@.subrange(start as int, n as int)]);
        assert(r.deep_view() =~~= split_on(s@, sep));
    }
    r
}

/// The numeric value of a decimal digit; 10 marks a non-digit.
pub open spec fn digit_val(c: char) -> int {
    match c {
        '0' => 0,
        '1' => 1,
        '2' => 2,
        '3' => 3,
        '4' => 4,
        '5' => 5,
        '6' => 6,
        '7' => 7,
        '8' => 8,
        '9' => 9,
        _ => 10,
    }
}

pub open spec fn is_digit(c: char) -> bool {
    digit_val(c) < 10
}

pub open spec fn all_digits(s: Seq<char>) -> bool {
    forall|i: int| 0 <= i < s.len() ==> is_digit(#[trigger] s[i])
}

/// The value of a digit string, most significant digit first.
pub open spec fn digits_val(s: Seq<char>) -> int
    decreases s.len(),
{
    if s.len() == 0 {
        0
    } else {
        digits_val(s.drop_last()) * 10 + digit_val(s.last())
    }
}

pub proof fn lemma_digits_val_nonneg(s: Seq<char>)
    ensures
        digits_val(s) >= 0,
    decreases s.len(),
{
    if s.len() > 0 {
        lemma_digits_val_nonneg(s.drop_last());
    }
}

/// A digit string is worth at least any of its prefixes.
pub proof fn lemma_digits_val_take_le(s: Seq<char>, m: int)
    requires
        0 <= m <= s.len(),
    ensures
        digits_val(s.take(m)) <= digits_val(s),
    decreases s.len(),
{
    if m == s.len() {
        assert(s.take(m) =~= s);
    } else {
        assert(s.drop_last().take(m) =~= s.take(m));
        lemma_digits_val_take_le(s.drop_last(), m);
        lemma_digits_val_nonneg(s.drop_last());
    }
}

/// What `str::parse::<u16>` accepts: an optional leading `'+'`, then at
/// least one decimal digit, with a value that fits in 16 bits.
pub open spec fn parse_u16_spec(s: Seq<char>) -> Option<u16> {
    let body = if s.len() > 0 && s[0] == '+' {
        s.drop_first()
    } else {
        s
    };
    if body.len() > 0 && all_digits(body) && digits_val(body) <= 65535 {
        Some(digits_val(body) as u16)
    } else {
        None
    }
}

fn digit_of(c: char) -> (d: u32)
    ensures
        d as int == digit_val(c),
{
    match c {
        '0' => 0,
        '1' => 1,
        '2' => 2,
        '3' => 3,
        '4' => 4,
        '5' => 5,
        '6' => 6,
        '7' => 7,
        '8' => 8,
        '9' => 9,
        _ => 10,
    }
}

/// Parses a decimal 16-bit unsigned integer exactly as `str::parse::<u16>`
/// does.
pub fn parse_u16(s: &str) -> (r: Option<u16>)
    ensures
        r == parse_u16_spec(s@),
{
    let n = s.unicode_len();
    let start: usize = if n > 0 && s.get_char(0) == '+' {
        1
    } else {
        0
    };
    let ghost body = if start == 1 {
        s@.drop_first()
    } else {
        s@
    };
    proof {
        assert(body =~= s@.subrange(start as int, n as int));
    }
    if start == n {
        return None;
    }
    let mut val: u32 = 0;
    let mut j: usize = start;
    while j < n
        invariant
            start <= j <= n,
            n == s@.len(),
            start == 0 || start == 1,
            (start == 1) == (s@.len() > 0 && s@[0] == '+'),
            body == (if s@.len() > 0 && s@[0] == '+' {
                s@.drop_first()
            } else {
                s@
            }),
            body == s@.subrange(start as int, n as int),
            all_digits(body.take(j as int - start as int)),
            val as int == digits_val(body.take(j as int - start as int)),
            val <= 65535,
        decreases n - j,
    {
        let ghost k = j as int - start as int;
        let c = s.get_char(j);
        proof {
            assert(body[k] == c);
        }
        let d = digit_of(c);
        if d == 10 {
            proof {
                assert(!is_digit(body[k]));
            }
            return None;
        }
        proof {
            assert(body.take(k + 1).drop_last() =~= body.take(k));
            assert(body.take(k + 1).last() == body[k]);
        }
        let newval = val * 10 + d;
        if newval > 65535 {
            proof {
                if all_digits(body) {
                    lemma_digits_val_take_le(body, k + 1);
                }
            }
            return None;
        }
        val = newval;
        j += 1;
    }
    proof {
        assert(body.take(n as int - start as int) =~= body);
        lemma_digits_val_nonneg(body);
    }
    Some(val as u16)
}

/// The decimal digit characters of a nonnegative integer, most significant
/// first.
pub open spec fn digit_char(d: int) -> char {
    if d == 0 {
        '0'
    } else if d == 1 {
        '1'
    } else if d == 2 {
        '2'
    } else if d == 3 {
        '3'
    } else if d == 4 {
        '4'
    } else if d == 5 {
        '5'
    } else if d == 6 {
        '6'
    } else if d == 7 {
        '7'
    } else if d == 8 {
        '8'
    } else {
        '9'
    }
}

/// The canonical decimal rendering of a nonnegative integer.
pub open spec fn dec_str(n: int) -> Seq<char>
    recommends
        n >= 0,
    decreases n,
{
    if n < 10 {
        seq![digit_char(n)]
    } else {
        dec_str(n / 10) + seq![digit_char(n % 10)]
    }
}

/// The digit characters of a digit list, last digit first.
spec fn rev_digit_chars(ds: Seq<u16>) -> Seq<char>
    decreases ds.len(),
{
    if ds.len() == 0 {
        Seq::<char>::empty()
    } else {
        rev_digit_chars(ds.drop_first()) + seq![digit_char(ds[0] as int)]
    }
}

proof fn lemma_rev_digit_chars_push(ds: Seq<u16>, d: u16)
    ensures
        rev_digit_chars(ds.push(d)) == seq![digit_char(d as int)] + rev_digit_chars(ds),
    decreases ds.len(),
{
    let dsp = ds.push(d);
    if ds.len() == 0 {
        assert(dsp.drop_first() =~= Seq::<u16>::empty());
        assert(rev_digit_chars(dsp) == rev_digit_chars(dsp.drop_first()) + seq![
            digit_char(dsp[0] as int),
        ]);
        assert(rev_digit_chars(dsp) =~= seq![digit_char(d as int)] + rev_digit_chars(ds));
    } else {
        assert(dsp.drop_first() =~= ds.drop_first().push(d));
        lemma_rev_digit_chars_push(ds.drop_first(), d);
        assert(dsp[0] == ds[0]);
        assert(rev_digit_chars(dsp) == rev_digit_chars(dsp.drop_first()) + seq![
            digit_char(dsp[0] as int),
        ]);
        assert(rev_digit_chars(ds) == rev_digit_chars(ds.drop_first()) + seq![
            digit_char(ds[0] as int),
        ]);
        assert(rev_digit_chars(dsp) =~= seq![digit_char(d as int)] + rev_digit_chars(ds));
    }
}

fn push_digit_char(s: &mut String, d: u16)
    requires
        d < 10,
    ensures
        final(s)@ == old(s)@ + seq![digit_char(d as int)],
{
    proof {
        reveal_strlit("0");
        reveal_strlit("1");
        reveal_strlit("2");
        reveal_strlit("3");
        reveal_strlit("4");
        reveal_strlit("5");
        reveal_strlit("6");
        reveal_strlit("7");
        reveal_strlit("8");
        reveal_strlit("9");
    }
    match d {
        0 => s.append("0"),
        1 => s.append("1"),
        2 => s.append("2"),
        3 => s.append("3"),
        4 => s.append("4"),
        5 => s.append("5"),
        6 => s.append("6"),
        7 => s.append("7"),
        8 => s.append("8"),
        _ => s.append("9"),
    }
    proof {
        assert((*s)@ =~= old(s)@ + seq![digit_char(d as int)]);
    }
}

/// Renders a 16-bit unsigned integer in decimal, as `format!("{}", x)` would.
pub fn u16_to_string(x: u16) -> (r: String)
    ensures
        r@ == dec_str(x as int),
{
    let mut digits: Vec<u16> = Vec::new();
    digits.push(x % 10);
    let mut v: u16 = x / 10;
    proof {
        let ds0 = Seq::<u16>::empty().push(x % 10);
        assert(ds0.drop_first() =~= Seq::<u16>::empty());
        assert(rev_digit_chars(Seq::<u16>::empty()) == Seq::<char>::empty());
        assert(rev_digit_chars(ds0) == rev_digit_chars(ds0.drop_first()) + seq![
            digit_char(ds0[0] as int),
        ]);
        assert(rev_digit_chars(ds0) =~= seq![digit_char((x % 10) as int)]);
    }
    while v > 0
        invariant
            forall|k: int| 0 <= k < digits@.len() ==> #[trigger] digits@[k] < 10,
            dec_str(x as int) == (if v > 0 {
                dec_str(v as int)
            } else {
                Seq::<char>::empty()
            }) + rev_digit_chars(digits@),
        decreases v,
    {
        let ghost old_digits = digits@;
        let d = v % 10;
        digits.push(d);
        proof {
            lemma_rev_digit_chars_push(old_digits, d);
        }
        v = v / 10;
    }
    let mut r = String::new();
    let mut i: usize = digits.len();
    proof {
        assert(digits@.skip(i as int) =~= Seq::<u16>::empty());
    }
    while i > 0
        invariant
            0 <= i <= digits@.len(),
            forall|k: int| 0 <= k < digits@.len() ==> #[trigger] digits@[k] < 10,
            r@ == rev_digit_chars(digits@.skip(i as int)),
        decreases i,
    {
        i -= 1;
        let d = digits[i];
        push_digit_char(&mut r, d);
        proof {
            assert(digits@.skip(i as int).drop_first() =~= digits@.skip(i as int + 1));
            assert(digits@.skip(i as int)[0] == digits@[i as int]);
        }
    }
    proof {
        assert(digits@.skip(0) =~= digits@);
    }
    r
}

} // verus!
