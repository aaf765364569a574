//! Character and string helpers: decimal digits, number parsing and
//! formatting, and string equality, each pinned to a spec-level model.

use vstd::prelude::*;

verus! {

/// A decimal digit character.
pub open spec fn is_digit(c: char) -> bool {
    c == '0' || c == '1' || c == '2' || c == '3' || c == '4' || c == '5' || c == '6' || c == '7'
        || c == '8' || c == '9'
}

/// The numeric value of a decimal digit character.
pub open spec fn digit_val(c: char) -> nat {
    if c == '0' {
        0
    } else if c == '1' {
        1
    } else if c == '2' {
        2
    } else if c == '3' {
        3
    } else if c == '4' {
        4
    } else if c == '5' {
        5
    } else if c == '6' {
        6
    } else if c == '7' {
        7
    } else if c == '8' {
        8
    } else {
        9
    }
}

/// The character for a decimal digit value.
pub open spec fn digit_char(d: nat) -> char {
    if d == 0 {
        '0'
    } else if d == 1 {
        '1'
    } else if d == 2 {
        '2'
    } else if d == 3 {
        '3'
    } else if d == 4 {
        '4'
    } else if d == 5 {
        '5'
    } else if d == 6 {
        '6'
    } else if d == 7 {
        '7'
    } else if d == 8 {
        '8'
    } else {
        '9'
    }
}

fn is_digit_exec(c: char) -> (r: bool)
    ensures
        r == is_digit(c),
{
    c == '0' || c == '1' || c == '2' || c == '3' || c == '4' || c == '5' || c == '6' || c == '7'
        || c == '8' || c == '9'
}

fn digit_val_exec(c: char) -> (d: u64)
    requires
        is_digit(c),
    ensures
        d == digit_val(c),
        d < 10,
{
    if c == '0' {
        0
    } else if c == '1' {
        1
    } else if c == '2' {
        2
    } else if c == '3' {
        3
    } else if c == '4' {
        4
    } else if c == '5' {
        5
    } else if c == '6' {
        6
    } else if c == '7' {
        7
    } else if c == '8' {
        8
    } else {
        9
    }
}

/// Whether two strings hold the same characters.
pub fn str_eq(a: &str, b: &str) -> (r: bool)
    ensures
        r == (a@ == b@),
{
    let an = a.unicode_len();
    let bn = b.unicode_len();
    if an != bn {
        assert(a@ != b@);
        return false;
    }
    let mut i: usize = 0;
    while i < an
        invariant
            an == a@.len(),
            an == b@.len(),
            i <= an,
            forall|j: int| 0 <= j < i ==> a@[j] == b@[j],
        decreases an - i,
    {
        if a.get_char(i) != b.get_char(i) {
            return false;
        }
        i += 1;
    }
    assert(a@ =~= b@);
    true
}

/// The index of the first occurrence of `c` in `s`, or `s.len()` if
/// `c` does not occur.
pub open spec fn first_idx(s: Seq<char>, c: char) -> int
    decreases s.len(),
{
    if s.len() == 0 {
        0
    } else if s[0] == c {
        0
    } else {
        1 + first_idx(s.drop_first(), c)
    }
}

pub proof fn lemma_first_idx(s: Seq<char>, c: char)
    ensures
        0 <= first_idx(s, c) <= s.len(),
        first_idx(s, c) < s.len() ==> s[first_idx(s, c)] == c,
        forall|j: int| 0 <= j < first_idx(s, c) ==> s[j] != c,
    decreases s.len(),
{
    if s.len() > 0 && s[0] != c {
        lemma_first_idx(s.drop_first(), c);
        assert forall|j: int| 0 <= j < first_idx(s, c) implies s[j] != c by {
            if j > 0 {
                assert(s.drop_first()[j - 1] == s[j]);
            }
        }
    }
}

/// How often `c` occurs in `s`.
pub open spec fn count_char(s: Seq<char>, c: char) -> nat
    decreases s.len(),
{
    if s.len() == 0 {
        0
    } else {
        count_char(s.drop_last(), c) + (if s.last() == c {
            1nat
        } else {
            0nat
        })
    }
}

pub proof fn lemma_count_char_concat(a: Seq<char>, b: Seq<char>, c: char)
    ensures
        count_char(a + b, c) == count_char(a, c) + count_char(b, c),
    decreases b.len(),
{
    if b.len() == 0 {
        assert(a + b =~= a);
    } else {
        lemma_count_char_concat(a, b.drop_last(), c);
        assert((a + b).drop_last() =~= a + b.drop_last());
        assert((a + b).last() == b.last());
    }
}

/// A string free of `c` counts zero occurrences of it.
pub proof fn lemma_count_char_absent(s: Seq<char>, c: char)
    requires
        forall|i: int| 0 <= i < s.len() ==> s[i] != c,
    ensures
        count_char(s, c) == 0,
    decreases s.len(),
{
    if s.len() > 0 {
        lemma_count_char_absent(s.drop_last(), c);
    }
}

/// A decimal rendering holds digits only, so no line break.
pub proof fn lemma_dec_no_newline(n: nat)
    ensures
        count_char(dec(n), '\n') == 0,
    decreases n,
{
    if n < 10 {
        lemma_count_char_absent(dec(n), '\n');
    } else {
        lemma_dec_no_newline(n / 10);
        lemma_count_char_concat(dec(n / 10), seq![digit_char(n % 10)], '\n');
        lemma_count_char_absent(seq![digit_char(n % 10)], '\n');
    }
}

/// In `a + [c] + b`, where `a` is free of `c`, the first occurrence
/// of `c` is the one between `a` and `b`.
pub proof fn lemma_first_idx_concat(a: Seq<char>, b: Seq<char>, c: char)
    requires
        forall|i: int| 0 <= i < a.len() ==> a[i] != c,
    ensures
        first_idx(a + seq![c] + b, c) == a.len(),
{
    let s = a + seq![c] + b;
    lemma_first_idx(s, c);
    assert(s[a.len() as int] == c);
    if first_idx(s, c) < a.len() {
        assert(s[first_idx(s, c)] == a[first_idx(s, c)]);
        assert(false);
    }
    if first_idx(s, c) > a.len() {
        assert(false);
    }
}

/// A string free of `c` has no first occurrence of it.
pub proof fn lemma_first_idx_absent(a: Seq<char>, c: char)
    requires
        forall|i: int| 0 <= i < a.len() ==> a[i] != c,
    ensures
        first_idx(a, c) == a.len(),
{
    lemma_first_idx(a, c);
    if first_idx(a, c) < a.len() {
        assert(a[first_idx(a, c)] == c);
        assert(false);
    }
}

/// Finds the first occurrence of `c` in `s`, or `s`'s length if none.
pub fn find_char(s: &str, c: char) -> (i: usize)
    ensures
        i == first_idx(s@, c),
{
    let n = s.unicode_len();
    let mut j: usize = 0;
    while j < n && s.get_char(j) != c
        invariant
            j <= n,
            n == s@.len(),
            forall|k: int| 0 <= k < j ==> s@[k] != c,
        decreases n - j,
    {
        j += 1;
    }
    proof {
        lemma_first_idx(s@, c);
        if first_idx(s@, c) < j {
            assert(s@[first_idx(s@, c)] == c);
            assert(false);
        }
        if first_idx(s@, c) > j {
            assert(j < n);
            assert(s@[j as int] != c);
            assert(false);
        }
    }
    j
}

/// The decimal rendering of `n`, most significant digit first.
pub open spec fn dec(n: nat) -> Seq<char>
    decreases n,
{
    if n < 10 {
        seq![digit_char(n)]
    } else {
        dec(n / 10) + seq![digit_char(n % 10)]
    }
}

/// The value of a string of decimal digit characters.
pub open spec fn dec_val(s: Seq<char>) -> nat
    decreases s.len(),
{
    if s.len() == 0 {
        0
    } else {
        dec_val(s.drop_last()) * 10 + digit_val(s.last())
    }
}

/// Whether every character of `s` is a decimal digit.
pub open spec fn all_digits(s: Seq<char>) -> bool {
    forall|i: int| 0 <= i < s.len() ==> is_digit(s[i])
}

/// The digit part of a decimal integer string: a single leading `+`
/// sign is dropped, as `str::parse` for unsigned types accepts one.
pub open spec fn digits_of(s: Seq<char>) -> Seq<char> {
    if s.len() > 0 && s[0] == '+' {
        s.drop_first()
    } else {
        s
    }
}

/// Whether `s` parses as a `u64`: at least one digit after an optional
/// `+` sign, nothing but digits, and a value within range.
pub open spec fn is_u64_string(s: Seq<char>) -> bool {
    &&& digits_of(s).len() > 0
    &&& all_digits(digits_of(s))
    &&& dec_val(digits_of(s)) <= u64::MAX
}

/// The `u64` denoted by `s`, or 0 where `s` is not a `u64` string;
/// this is the value `str::parse::<u64>(s).unwrap_or(0)` yields.
pub open spec fn u64_of(s: Seq<char>) -> nat {
    if is_u64_string(s) {
        dec_val(digits_of(s))
    } else {
        0
    }
}

/// A longer digit string denotes at least as large a value.
proof fn lemma_dec_val_prefix_le(s: Seq<char>, i: int)
    requires
        0 <= i <= s.len(),
    ensures
        dec_val(s.subrange(0, i)) <= dec_val(s),
    decreases s.len() - i,
{
    if i < s.len() {
        lemma_dec_val_prefix_le(s, i + 1);
        let a = s.subrange(0, i);
        let b = s.subrange(0, i + 1);
        assert(b.drop_last() =~= a);
        assert(dec_val(b) == dec_val(a) * 10 + digit_val(b.last()));
        assert(dec_val(a) <= dec_val(a) * 10) by (nonlinear_arith);
    } else {
        assert(s.subrange(0, i) =~= s);
    }
}

/// Parses a string as a decimal `u64`, exactly as `str::parse::<u64>`
/// does for the digits-and-optional-plus grammar.
pub fn parse_u64(s: &str) -> (r: Option<u64>)
    ensures
        r is Some <==> is_u64_string(s@),
        r matches Some(v) ==> v == dec_val(digits_of(s@)),
{
    let n = s.unicode_len();
    if n == 0 {
        return None;
    }
    let ghost d = digits_of(s@);
    let start: usize = if s.get_char(0) == '+' {
        1
    } else {
        0
    };
    assert(d =~= s@.subrange(start as int, n as int));
    if start == n {
        return None;
    }
    let mut acc: u64 = 0;
    let mut i: usize = start;
    while i < n
        invariant
            start <= i <= n,
            n == s@.len(),
            d == digits_of(s@),
            d =~= s@.subrange(start as int, n as int),
            all_digits(d.subrange(0, i - start)),
            acc == dec_val(d.subrange(0, i - start)),
        decreases n - i,
    {
        let c = s.get_char(i);
        if !is_digit_exec(c) {
            proof {
                assert(d[i - start] == c);
                assert(!all_digits(d));
                assert(!is_u64_string(s@));
            }
            return None;
        }
        let v = digit_val_exec(c);
        let ghost pre = d.subrange(0, i - start);
        let ghost cur = d.subrange(0, i + 1 - start);
        assert(cur.drop_last() =~= pre && cur.last() == c);
        if acc > (u64::MAX - v) / 10 {
            assert(dec_val(cur) > u64::MAX) by (nonlinear_arith)
                requires
                    dec_val(cur) == dec_val(pre) * 10 + digit_val(c),
                    dec_val(pre) > (u64::MAX as nat - digit_val(c)) / 10,
                    digit_val(c) < 10,
            ;
            proof {
                lemma_dec_val_prefix_le(d, i + 1 - start);
                assert(dec_val(d) >= dec_val(cur));
                assert(!is_u64_string(s@));
            }
            return None;
        }
        assert(acc * 10 + v <= u64::MAX) by (nonlinear_arith)
            requires
                acc <= (u64::MAX - v) / 10,
                v < 10,
        ;
        acc = acc * 10 + v;
        i += 1;
    }
    assert(d.subrange(0, n - start) =~= d);
    Some(acc)
}

proof fn lemma_dec_all_digits(n: nat)
    ensures
        dec(n).len() > 0,
        all_digits(dec(n)),
    decreases n,
{
    if n >= 10 {
        lemma_dec_all_digits(n / 10);
        let s = dec(n);
        assert forall|i: int| 0 <= i < s.len() implies is_digit(s[i]) by {
            if i < dec(n / 10).len() {
                assert(s[i] == dec(n / 10)[i]);
            } else {
                assert(s[i] == digit_char(n % 10));
            }
        }
    }
}

proof fn lemma_dec_val_of_dec(n: nat)
    ensures
        dec_val(dec(n)) == n,
    decreases n,
{
    if n < 10 {
        let s = dec(n);
        assert(s =~= seq![digit_char(n)]);
        assert(s.last() == digit_char(n));
        assert(s.drop_last() =~= Seq::<char>::empty());
        assert(dec_val(Seq::<char>::empty()) == 0);
        assert(dec_val(s) == digit_val(digit_char(n)));
    } else {
        lemma_dec_val_of_dec(n / 10);
        let s = dec(n);
        assert(s.drop_last() =~= dec(n / 10));
        assert(s.last() == digit_char(n % 10));
        assert(dec_val(s) == (n / 10) * 10 + n % 10);
    }
}

/// Rendering and parsing are inverse: the decimal form of `n` is a
/// valid `u64` string denoting `n` itself.
pub proof fn lemma_dec_round_trip(n: u64)
    ensures
        is_u64_string(dec(n as nat)),
        u64_of(dec(n as nat)) == n,
{
    lemma_dec_all_digits(n as nat);
    lemma_dec_val_of_dec(n as nat);
    assert(is_digit(dec(n as nat)[0]));
    assert(dec(n as nat)[0] != '+');
    assert(digits_of(dec(n as nat)) == dec(n as nat));
}

fn digit_str(d: u64) -> (s: &'static str)
    requires
        d < 10,
    ensures
        s@ =~= seq![digit_char(d as nat)],
{
    proof {
        reveal_strlit("0");
        reveal_strlit("1");
        reveal_strlit("2");
        reveal_strlit("3");
        reveal_strlit("4");
        reveal_strlit("5");
        reveal_strlit("6");
        reveal_strlit("7");
        reveal_strlit("8");
        reveal_strlit("9");
    }
    if d == 0 {
        "0"
    } else if d == 1 {
        "1"
    } else if d == 2 {
        "2"
    } else if d == 3 {
        "3"
    } else if d == 4 {
        "4"
    } else if d == 5 {
        "5"
    } else if d == 6 {
        "6"
    } else if d == 7 {
        "7"
    } else if d == 8 {
        "8"
    } else {
        "9"
    }
}

/// Renders `n` in decimal, as `format!("{}", n)` would.
pub fn u64_to_string(n: u64) -> (r: String)
    ensures
        r@ == dec(n as nat),
    decreases n,
{
    if n < 10 {
        String::from_str(digit_str(n))
    } else {
        let high = u64_to_string(n / 10);
        high.concat(digit_str(n % 10))
    }
}

} // verus!
