//! Character-level helpers shared by the wire codec and the path logic:
//! decimal numerals, separator search and substring extraction.
use vstd::prelude::*;

verus! {

/// Compares two strings by their characters.
pub fn str_eq(a: &String, b: &String) -> (r: bool)
    ensures
        r == (a@ == b@),
{
    a.eq(b)
}

/// Compares a string with a string slice by their characters.
pub fn str_eq_slice(a: &String, b: &str) -> (r: bool)
    ensures
        r == (a@ == b@),
{
    let b = b.to_owned();
    a.eq(&b)
}

/// Whether `c` is an ASCII decimal digit.
pub open spec fn is_digit(c: char) -> bool {
    '0' <= c && c <= '9'
}

/// The numeric value of an ASCII decimal digit.
pub open spec fn digit_value(c: char) -> nat {
    ((c as u32) - ('0' as u32)) as nat
}

/// The ASCII digit for a value below ten.
pub open spec fn digit_char(d: nat) -> char {
    if d == 0 { '0' }
    else if d == 1 { '1' }
    else if d == 2 { '2' }
    else if d == 3 { '3' }
    else if d == 4 { '4' }
    else if d == 5 { '5' }
    else if d == 6 { '6' }
    else if d == 7 { '7' }
    else if d == 8 { '8' }
    else { '9' }
}

/// The shortest decimal numeral of `n`, most significant digit first.
pub open spec fn decimal_text(n: nat) -> Seq<char>
    decreases n,
{
    if n < 10 {
        seq![digit_char(n)]
    } else {
        decimal_text(n / 10).push(digit_char(n % 10))
    }
}

fn digit_str(d: u64) -> (r: &'static str)
    requires
        d < 10,
    ensures
        r@ == seq![digit_char(d as nat)],
{
    proof {
        reveal_strlit("0");
        reveal_strlit("1");
        reveal_strlit("2");
        reveal_strlit("3");
        reveal_strlit("4");
        reveal_strlit("5");
        reveal_strlit("6");
        reveal_strlit("7");
        reveal_strlit("8");
        reveal_strlit("9");
    }
    if d == 0 { "0" }
    else if d == 1 { "1" }
    else if d == 2 { "2" }
    else if d == 3 { "3" }
    else if d == 4 { "4" }
    else if d == 5 { "5" }
    else if d == 6 { "6" }
    else if d == 7 { "7" }
    else if d == 8 { "8" }
    else { "9" }
}

/// Writes `n` as a decimal numeral.
pub fn decimal_string(n: u64) -> (r: String)
    ensures
        r@ == decimal_text(n as nat),
    decreases n,
{
    if n < 10 {
        String::from_str(digit_str(n))
    } else {
        let mut s = decimal_string(n / 10);
        s.append(digit_str(n % 10));
        s
    }
}

proof fn lemma_digit_round_trip(d: nat)
    requires
        d < 10,
    ensures
        is_digit(digit_char(d)),
        digit_value(digit_char(d)) == d,
{
}


/// Whether every character of `s` is a decimal digit.
pub open spec fn all_digits(s: Seq<char>) -> bool {
    forall|i: int| 0 <= i < s.len() ==> #[trigger] is_digit(s[i])
}

/// The value of a run of decimal digits, most significant first.
pub open spec fn digits_value(s: Seq<char>) -> nat
    decreases s.len(),
{
    if s.len() == 0 {
        0
    } else {
        digits_value(s.drop_last()) * 10 + digit_value(s.last())
    }
}

/// The digits of a numeral once an optional leading `+` is set aside.
pub open spec fn unsigned_body(s: Seq<char>) -> Seq<char> {
    if s.len() > 0 && s[0] == '+' {
        s.drop_first()
    } else {
        s
    }
}

/// The value of an unsigned numeral: an optional `+`, then one or more digits.
pub open spec fn unsigned_numeral(s: Seq<char>) -> Option<nat> {
    let body = unsigned_body(s);
    if body.len() > 0 && all_digits(body) {
        Some(digits_value(body))
    } else {
        None
    }
}

/// The value of a signed numeral: an optional `+` or `-`, then one or more digits.
pub open spec fn signed_numeral(s: Seq<char>) -> Option<int> {
    if s.len() > 0 && s[0] == '-' {
        let body = s.drop_first();
        if body.len() > 0 && all_digits(body) {
            Some(-(digits_value(body) as int))
        } else {
            None
        }
    } else {
        match unsigned_numeral(s) {
            Some(v) => Some(v as int),
            None => None,
        }
    }
}

/// A byte read from decimal text; absent when the text is no numeral or the value exceeds a byte.
pub open spec fn byte_of_text(s: Seq<char>) -> Option<u8> {
    match unsigned_numeral(s) {
        Some(v) => if v <= 255 { Some(v as u8) } else { None },
        None => None,
    }
}

/// A 64-bit signed integer read from decimal text; absent when the text is no numeral or
/// the value is out of range.
pub open spec fn i64_of_text(s: Seq<char>) -> Option<i64> {
    match signed_numeral(s) {
        Some(v) => if i64::MIN <= v <= i64::MAX { Some(v as i64) } else { None },
        None => None,
    }
}

/// The decimal numeral of a signed integer, with a leading `-` when negative.
pub open spec fn signed_decimal_text(t: int) -> Seq<char> {
    if t < 0 {
        seq!['-'] + decimal_text((-t) as nat)
    } else {
        decimal_text(t as nat)
    }
}

pub open spec fn min_nat(a: nat, b: nat) -> nat {
    if a <= b { a } else { b }
}

proof fn lemma_capped_step(v: nat, d: nat, cap: nat)
    requires
        d < 10,
    ensures
        min_nat(min_nat(v, cap) * 10 + d, cap) == min_nat(v * 10 + d, cap),
{
    if v >= cap {
        assert(v * 10 + d >= cap) by (nonlinear_arith)
            requires v >= cap;
        assert(cap * 10 + d >= cap) by (nonlinear_arith);
    }
}

/// Reads the digits of `s` from position `from` to the end, with the value held at `cap`.
fn capped_digits(s: &str, from: usize, cap: u128) -> (r: Option<u128>)
    requires
        from <= s@.len(),
        cap <= 0x1_0000_0000_0000_0000_0000_0000_0000,
    ensures
        r == (if from < s@.len() && all_digits(s@.subrange(from as int, s@.len() as int)) {
            Some(min_nat(digits_value(s@.subrange(from as int, s@.len() as int)), cap as nat) as u128)
        } else {
            None::<u128>
        }),
{
    let n = s.unicode_len();
    if from >= n {
        return None;
    }
    let mut acc: u128 = 0;
    let mut i: usize = from;
    while i < n
        invariant
            n == s@.len(),
            from <= i <= n,
            cap <= 0x1_0000_0000_0000_0000_0000_0000_0000,
            all_digits(s@.subrange(from as int, i as int)),
            acc == min_nat(digits_value(s@.subrange(from as int, i as int)), cap as nat),
        decreases n - i,
    {
        let c = s.get_char(i);
        if !('0' <= c && c <= '9') {
            assert(!is_digit(s@.subrange(from as int, n as int)[i - from]));
            return None;
        }
        let ghost prev = s@.subrange(from as int, i as int);
        let ghost next = s@.subrange(from as int, i + 1);
        assert(next.drop_last() =~= prev);
        assert(next.last() == c);
        let d = (c as u32 - '0' as u32) as u128;
        proof {
            lemma_capped_step(digits_value(prev), d as nat, cap as nat);
        }
        let grown = acc * 10 + d;
        acc = if grown <= cap { grown } else { cap };
        i = i + 1;
    }
    assert(s@.subrange(from as int, i as int) =~= s@.subrange(from as int, s@.len() as int));
    Some(acc)
}

/// Reads a byte from decimal text, as std's `u8` parsing does.
pub fn parse_u8(s: &str) -> (r: Option<u8>)
    ensures
        r == byte_of_text(s@),
{
    let n = s.unicode_len();
    let start: usize = if n > 0 && s.get_char(0) == '+' { 1 } else { 0 };
    assert(unsigned_body(s@) =~= s@.subrange(start as int, n as int));
    match capped_digits(s, start, 256) {
        Some(v) => if v <= 255 { Some(v as u8) } else { None },
        None => None,
    }
}

/// Reads a 64-bit signed integer from decimal text, as std's `i64` parsing does.
pub fn parse_i64(s: &str) -> (r: Option<i64>)
    ensures
        r == i64_of_text(s@),
{
    let n = s.unicode_len();
    if n > 0 && s.get_char(0) == '-' {
        assert(s@.drop_first() =~= s@.subrange(1, n as int));
        match capped_digits(s, 1, 0x8000_0000_0000_0001) {
            Some(v) => if v <= 0x8000_0000_0000_0000 {
                Some((0i128 - v as i128) as i64)
            } else {
                None
            },
            None => None,
        }
    } else {
        let start: usize = if n > 0 && s.get_char(0) == '+' { 1 } else { 0 };
        assert(unsigned_body(s@) =~= s@.subrange(start as int, n as int));
        match capped_digits(s, start, 0x8000_0000_0000_0001) {
            Some(v) => if v <= 0x7fff_ffff_ffff_ffff { Some(v as i64) } else { None },
            None => None,
        }
    }
}

/// Writes `t` as a signed decimal numeral.
pub fn signed_decimal_string(t: i64) -> (r: String)
    ensures
        r@ == signed_decimal_text(t as int),
{
    if t < 0 {
        let magnitude = (0i128 - t as i128) as u64;
        let digits = decimal_string(magnitude);
        proof { reveal_strlit("-"); }
        String::from_str("-").concat(digits.as_str())
    } else {
        decimal_string(t as u64)
    }
}


pub(crate) proof fn lemma_decimal_text(n: nat)
    ensures
        decimal_text(n).len() > 0,
        all_digits(decimal_text(n)),
        digits_value(decimal_text(n)) == n,
    decreases n,
{
    lemma_digit_round_trip(n % 10);
    if n >= 10 {
        lemma_decimal_text(n / 10);
        let t = decimal_text(n);
        assert(t.drop_last() =~= decimal_text(n / 10));
        assert(n == (n / 10) * 10 + n % 10) by (nonlinear_arith);
        assert(t.last() == digit_char(n % 10));
        assert(digits_value(t) == digits_value(decimal_text(n / 10)) * 10 + digit_value(t.last()));
        assert forall|i: int| 0 <= i < t.len() implies #[trigger] is_digit(t[i]) by {
            if i < t.len() - 1 {
                assert(t[i] == decimal_text(n / 10)[i]);
            }
        }
    } else {
        lemma_digit_round_trip(n);
        let t = decimal_text(n);
        assert(t.drop_last() =~= Seq::<char>::empty());
        assert(digits_value(Seq::<char>::empty()) == 0);
        assert(digits_value(t) == digits_value(t.drop_last()) * 10 + digit_value(t.last()));
    }
}

/// A byte written in decimal reads back as the same byte.
pub proof fn lemma_byte_text_round_trip(b: u8)
    ensures
        byte_of_text(decimal_text(b as nat)) == Some(b),
{
    lemma_decimal_text(b as nat);
    assert(is_digit(decimal_text(b as nat)[0]));
}

/// A signed integer written in decimal reads back as the same integer.
pub proof fn lemma_i64_text_round_trip(t: i64)
    ensures
        i64_of_text(signed_decimal_text(t as int)) == Some(t),
{
    if t < 0 {
        let m = (-t) as nat;
        lemma_decimal_text(m);
        let s = signed_decimal_text(t as int);
        assert(s.drop_first() =~= decimal_text(m));
    } else {
        lemma_decimal_text(t as nat);
        assert(is_digit(decimal_text(t as nat)[0]));
    }
}

/// Whether `d` occurs in `s` starting at position `i`.
pub open spec fn occurs_at(s: Seq<char>, d: Seq<char>, i: int) -> bool {
    0 <= i && i + d.len() <= s.len() && s.subrange(i, i + d.len()) == d
}

/// The first position at or after `i` where `d` occurs in `s`.
pub open spec fn first_occurrence_from(s: Seq<char>, d: Seq<char>, i: int) -> Option<int>
    decreases s.len() + 1 - i,
{
    if i < 0 || i + d.len() > s.len() {
        None
    } else if occurs_at(s, d, i) {
        Some(i)
    } else {
        first_occurrence_from(s, d, i + 1)
    }
}

/// `s` cut around the first occurrence of `d`: the text before it and the text after it.
pub open spec fn split_once_text(s: Seq<char>, d: Seq<char>) -> Option<(Seq<char>, Seq<char>)> {
    match first_occurrence_from(s, d, 0) {
        Some(i) => Some((s.subrange(0, i), s.subrange(i + d.len(), s.len() as int))),
        None => None,
    }
}

pub(crate) proof fn lemma_first_occurrence_found(s: Seq<char>, d: Seq<char>, i: int, j: int)
    requires
        0 <= i <= j,
        occurs_at(s, d, j),
        forall|k: int| i <= k < j ==> !#[trigger] occurs_at(s, d, k),
    ensures
        first_occurrence_from(s, d, i) == Some(j),
    decreases j - i,
{
    if i < j {
        lemma_first_occurrence_found(s, d, i + 1, j);
    }
}

pub(crate) proof fn lemma_first_occurrence_none(s: Seq<char>, d: Seq<char>, i: int)
    requires
        0 <= i,
        forall|k: int| i <= k ==> !#[trigger] occurs_at(s, d, k),
    ensures
        first_occurrence_from(s, d, i) is None,
    decreases s.len() + 1 - i,
{
    if i + d.len() <= s.len() {
        lemma_first_occurrence_none(s, d, i + 1);
    }
}

pub(crate) proof fn lemma_first_occurrence_sound(s: Seq<char>, d: Seq<char>, i: int)
    requires
        first_occurrence_from(s, d, i) is Some,
    ensures
        i <= first_occurrence_from(s, d, i)->0,
        occurs_at(s, d, first_occurrence_from(s, d, i)->0),
    decreases s.len() + 1 - i,
{
    if !occurs_at(s, d, i) {
        lemma_first_occurrence_sound(s, d, i + 1);
    }
}

fn occurs_at_exec(s: &str, n: usize, d: &str, m: usize, i: usize) -> (r: bool)
    requires
        n == s@.len(),
        m == d@.len(),
        i + m <= n,
    ensures
        r == occurs_at(s@, d@, i as int),
{
    let mut j: usize = 0;
    while j < m
        invariant
            n == s@.len(),
            m == d@.len(),
            i + m <= n,
            j <= m,
            forall|k: int| 0 <= k < j ==> s@[i + k] == d@[k],
        decreases m - j,
    {
        if s.get_char(i + j) != d.get_char(j) {
            assert(s@.subrange(i as int, i + m)[j as int] != d@[j as int]);
            return false;
        }
        j = j + 1;
    }
    assert(s@.subrange(i as int, i + m) =~= d@);
    true
}

/// Whether `s` begins with `d`.
pub fn starts_with_text(s: &str, d: &str) -> (r: bool)
    ensures
        r == occurs_at(s@, d@, 0),
{
    let n = s.unicode_len();
    let m = d.unicode_len();
    if m > n {
        return false;
    }
    occurs_at_exec(s, n, d, m, 0)
}

/// Position of the first occurrence of `d` in `s`, counted in characters.
pub fn find_text(s: &str, d: &str) -> (r: Option<usize>)
    ensures
        match r {
            Some(i) => first_occurrence_from(s@, d@, 0) == Some(i as int),
            None => first_occurrence_from(s@, d@, 0) is None,
        },
{
    let n = s.unicode_len();
    let m = d.unicode_len();
    if m > n {
        proof { lemma_first_occurrence_none(s@, d@, 0); }
        return None;
    }
    if m == 0 {
        assert(s@.subrange(0, 0) =~= d@);
        return Some(0);
    }
    let mut i: usize = 0;
    while i <= n - m
        invariant
            n == s@.len(),
            m == d@.len(),
            1 <= m <= n,
            i <= n - m + 1,
            forall|k: int| 0 <= k < i ==> !#[trigger] occurs_at(s@, d@, k),
        decreases n - i,
    {
        if occurs_at_exec(s, n, d, m, i) {
            proof { lemma_first_occurrence_found(s@, d@, 0, i as int); }
            return Some(i);
        }
        i = i + 1;
    }
    proof { lemma_first_occurrence_none(s@, d@, 0); }
    None
}

/// Cuts `s` around the first occurrence of `d`.
pub fn split_once(s: &str, d: &str) -> (r: Option<(String, String)>)
    ensures
        match r {
            Some(parts) => split_once_text(s@, d@) == Some((parts.0@, parts.1@)),
            None => split_once_text(s@, d@) is None,
        },
{
    match find_text(s, d) {
        Some(i) => {
            proof { lemma_first_occurrence_sound(s@, d@, 0); }
            let n = s.unicode_len();
            let m = d.unicode_len();
            let before = s.substring_char(0, i).to_owned();
            let after = s.substring_char(i + m, n).to_owned();
            Some((before, after))
        },
        None => None,
    }
}

} // verus!
