//! Decimal numerals.
//!
//! Generation parameters that the backend takes as small real numbers are
//! held in thousandths ("milli" units), so a stored value is an integer and
//! every rule about it is exact.  This module renders such values as the
//! usual decimal text (`800` thousandths prints as `0.8`) and parses the
//! text of an edited field back, truncating past the third fraction digit.

use vstd::prelude::*;

verus! {

/// The decimal digit character for `d` (digits `0` through `9`).
pub open spec fn digit_char(d: nat) -> char {
    if d == 0 {
        '0'
    } else if d == 1 {
        '1'
    } else if d == 2 {
        '2'
    } else if d == 3 {
        '3'
    } else if d == 4 {
        '4'
    } else if d == 5 {
        '5'
    } else if d == 6 {
        '6'
    } else if d == 7 {
        '7'
    } else if d == 8 {
        '8'
    } else {
        '9'
    }
}

/// The numeric value of a digit character, if it is one.
pub open spec fn char_digit(c: char) -> Option<nat> {
    if c == '0' {
        Some(0 as nat)
    } else if c == '1' {
        Some(1 as nat)
    } else if c == '2' {
        Some(2 as nat)
    } else if c == '3' {
        Some(3 as nat)
    } else if c == '4' {
        Some(4 as nat)
    } else if c == '5' {
        Some(5 as nat)
    } else if c == '6' {
        Some(6 as nat)
    } else if c == '7' {
        Some(7 as nat)
    } else {
        if c == '8' {
            Some(8 as nat)
        } else if c == '9' {
            Some(9 as nat)
        } else {
            None
        }
    }
}

/// Reading the digit of `d` gives `d` back.
pub proof fn lemma_digit_char_roundtrip(d: nat)
    requires
        d < 10,
    ensures
        char_digit(digit_char(d)) == Some(d),
{
}

/// The decimal numeral of `n`, most significant digit first, no sign and
/// no leading zero (except for `0` itself).
pub open spec fn dec_digits(n: nat) -> Seq<char>
    decreases n,
{
    if n < 10 {
        seq![digit_char(n)]
    } else {
        dec_digits(n / 10).push(digit_char(n % 10))
    }
}

/// Every character of a decimal numeral is a digit.
pub proof fn lemma_dec_digits_are_digits(n: nat)
    ensures
        dec_digits(n).len() >= 1,
        forall|i: int|
            0 <= i < dec_digits(n).len() ==> char_digit(#[trigger] dec_digits(n)[i]) is Some,
    decreases n,
{
    if n < 10 {
        lemma_digit_char_roundtrip(n);
    } else {
        lemma_dec_digits_are_digits(n / 10);
        lemma_digit_char_roundtrip(n % 10);
        assert forall|i: int|
            0 <= i < dec_digits(n).len() implies char_digit(
            #[trigger] dec_digits(n)[i],
        ) is Some by {
            if i < dec_digits(n / 10).len() {
                assert(dec_digits(n)[i] == dec_digits(n / 10)[i]);
            } else {
                assert(dec_digits(n)[i] == digit_char(n % 10));
            }
        }
    }
}

/// The value a sequence of digit characters denotes, given that they all
/// are digits: `acc` is the value of the digits already read.
pub open spec fn digits_value(s: Seq<char>, acc: nat) -> Option<nat>
    decreases s.len(),
{
    if s.len() == 0 {
        Some(acc)
    } else {
        match char_digit(s[0]) {
            Some(d) => digits_value(s.drop_first(), acc * 10 + d),
            None => None,
        }
    }
}

/// Reading a numeral digit by digit yields the number it was made from.
pub proof fn lemma_dec_digits_value(n: nat, acc: nat)
    ensures
        digits_value(dec_digits(n), acc) == Some((acc * vstd::arithmetic::power::pow(
            10,
            dec_digits(n).len(),
        ) + n) as nat),
    decreases n, 1int,
{
    vstd::arithmetic::power::lemma_pow_positive(10, dec_digits(n).len());
    if n < 10 {
        lemma_digit_char_roundtrip(n);
        assert(dec_digits(n).drop_first() =~= Seq::<char>::empty());
        vstd::arithmetic::power::lemma_pow1(10);
        assert(digits_value(Seq::<char>::empty(), (acc * 10 + n) as nat) == Some(
            (acc * 10 + n) as nat,
        ));
        assert(dec_digits(n)[0] == digit_char(n));
        assert(digits_value(dec_digits(n), acc) == Some((acc * 10 + n) as nat));
    } else {
        let hd = dec_digits(n / 10);
        let full = dec_digits(n);
        assert(full == hd.push(digit_char(n % 10)));
        lemma_hd_push(n, acc);
    }
}

/// Helper for [`lemma_dec_digits_value`]: appending the last digit.
proof fn lemma_hd_push(n: nat, acc: nat)
    requires
        n >= 10,
    ensures
        digits_value(dec_digits(n), acc) == Some((acc * vstd::arithmetic::power::pow(
            10,
            dec_digits(n).len(),
        ) + n) as nat),
    decreases n, 0int,
{
    let hd = dec_digits(n / 10);
    let last = digit_char((n % 10) as nat);
    lemma_digit_char_roundtrip(n % 10);
    lemma_dec_digits_are_digits(n / 10);
    lemma_digits_value_push(hd, last, acc);
    lemma_dec_digits_value(n / 10, acc);
    let k = hd.len();
    let p = vstd::arithmetic::power::pow(10, k);
    vstd::arithmetic::power::lemma_pow_positive(10, k);
    let v = (acc * p + n / 10) as nat;
    assert(digits_value(hd.push(last), acc) == Some((v * 10 + n % 10) as nat));
    assert(dec_digits(n) == hd.push(last));
    assert(dec_digits(n).len() == k + 1);
    assert(vstd::arithmetic::power::pow(10, k + 1) == p * 10) by {
        vstd::arithmetic::power::lemma_pow1(10);
        vstd::arithmetic::power::lemma_pow_adds(10, k, 1);
    }
    assert(v * 10 + n % 10 == acc * (p * 10) + (n / 10) * 10 + n % 10) by (nonlinear_arith)
        requires
            v == acc * p + n / 10,
    ;
    assert((n / 10) * 10 + n % 10 == n) by (nonlinear_arith);
}

/// Pushing one digit multiplies the accumulated value by ten and adds it.
proof fn lemma_digits_value_push(s: Seq<char>, c: char, acc: nat)
    requires
        forall|i: int| 0 <= i < s.len() ==> char_digit(#[trigger] s[i]) is Some,
        char_digit(c) is Some,
    ensures
        digits_value(s.push(c), acc) == Some(
            (digits_value(s, acc)->Some_0 * 10 + char_digit(c)->Some_0) as nat,
        ),
        digits_value(s, acc) is Some,
    decreases s.len(),
{
    if s.len() == 0 {
        assert(s.push(c)[0] == c);
        assert(s.push(c).drop_first() =~= Seq::<char>::empty());
        let d = char_digit(c)->Some_0;
        assert(digits_value(Seq::<char>::empty(), acc * 10 + d) == Some((acc * 10 + d) as nat));
        assert(digits_value(s, acc) == Some(acc));
    } else {
        assert(s.push(c)[0] == s[0]);
        assert(s.push(c).drop_first() =~= s.drop_first().push(c));
        assert(forall|i: int|
            0 <= i < s.drop_first().len() ==> char_digit(#[trigger] s.drop_first()[i]) is Some);
        let d = char_digit(s[0])->Some_0;
        lemma_digits_value_push(s.drop_first(), c, acc * 10 + d);
    }
}

/// The plain value of a pure digit string, or nothing if a character is
/// not a digit or the string is empty.
pub open spec fn spec_parse_u64(s: Seq<char>) -> Option<nat> {
    if s.len() == 0 {
        None
    } else {
        digits_value(s, 0)
    }
}

/// Parsing the numeral of `n` gives `n` back.
pub proof fn lemma_parse_dec_digits(n: nat)
    ensures
        spec_parse_u64(dec_digits(n)) == Some(n),
{
    lemma_dec_digits_value(n, 0);
}

/// Appends the decimal numeral of `n` to `out`.
pub fn push_dec_digits(n: u64, out: &mut Vec<char>)
    ensures
        final(out)@ == old(out)@ + dec_digits(n as nat),
    decreases n,
{
    if n >= 10 {
        push_dec_digits(n / 10, out);
    }
    let d = n % 10;
    let c: char = if d == 0 {
        '0'
    } else if d == 1 {
        '1'
    } else if d == 2 {
        '2'
    } else if d == 3 {
        '3'
    } else if d == 4 {
        '4'
    } else if d == 5 {
        '5'
    } else if d == 6 {
        '6'
    } else if d == 7 {
        '7'
    } else if d == 8 {
        '8'
    } else {
        '9'
    };
    proof {
        assert(c == digit_char((n % 10) as nat));
    }
    out.push(c);
    proof {
        if n < 10 {
            assert(final(out)@ =~= old(out)@ + dec_digits(n as nat));
        } else {
            assert(dec_digits(n as nat) == dec_digits((n / 10) as nat).push(
                digit_char((n % 10) as nat),
            ));
            assert(final(out)@ =~= old(out)@ + dec_digits(n as nat));
        }
    }
}

/// The decimal text of `n`.
pub fn format_u64(n: u64) -> (r: Vec<char>)
    ensures
        r@ == dec_digits(n as nat),
{
    let mut out: Vec<char> = Vec::new();
    push_dec_digits(n, &mut out);
    proof {
        assert(out@ =~= dec_digits(n as nat));
    }
    out
}

/// The digit value of `c`, matching [`char_digit`].
pub fn digit_of(c: char) -> (r: Option<u64>)
    ensures
        match r {
            Some(d) => char_digit(c) == Some(d as nat) && d < 10,
            None => char_digit(c) is None,
        },
{
    match c {
        '0' => Some(0),
        '1' => Some(1),
        '2' => Some(2),
        '3' => Some(3),
        '4' => Some(4),
        '5' => Some(5),
        '6' => Some(6),
        '7' => Some(7),
        '8' => Some(8),
        '9' => Some(9),
        _ => None,
    }
}

/// Values at or above this cap saturate while parsing; every clamping
/// bound in the library lies far below it.
pub const PARSE_CAP: u64 = 100000000;

/// Parses a pure digit string; values reaching [`PARSE_CAP`] saturate.
///
/// Yields a value exactly when [`spec_parse_u64`] does; the value is exact
/// below the cap and at least the cap otherwise.
pub fn parse_u64_chars(s: &Vec<char>) -> (r: Option<u64>)
    ensures
        r is Some <==> spec_parse_u64(s@) is Some,
        r matches Some(v) ==> {
            let n = spec_parse_u64(s@)->Some_0;
            &&& n < PARSE_CAP ==> v == n
            &&& n >= PARSE_CAP ==> v >= PARSE_CAP
        },
{
    if s.len() == 0 {
        return None;
    }
    let mut acc: u64 = 0;
    let mut i: usize = 0;
    proof {
        assert(s@.take(0) =~= Seq::<char>::empty());
    }
    while i < s.len()
        invariant
            i <= s@.len(),
            acc <= PARSE_CAP,
            ({
                let pre = digits_value_prefix(s@, i as int);
                &&& pre is Some
                &&& (pre->Some_0 < PARSE_CAP ==> acc == pre->Some_0)
                &&& (pre->Some_0 >= PARSE_CAP ==> acc == PARSE_CAP)
            }),
        decreases s@.len() - i,
    {
        let c = s[i];
        match digit_of(c) {
            None => {
                proof {
                    if digits_value(s@, 0) is Some {
                        lemma_digits_all(s@);
                    }
                }
                return None;
            },
            Some(d) => {
                proof {
                    lemma_prefix_step(s@, i as int, 0, d as nat);
                    lemma_prefix_monotone(s@, i as int, d as nat);
                }
                if acc >= PARSE_CAP / 10 {
                    proof {
                        let pre = digits_value_prefix(s@, i as int)->Some_0;
                        assert(pre >= PARSE_CAP / 10);
                        assert(pre * 10 + d >= PARSE_CAP) by (nonlinear_arith)
                            requires
                                pre >= PARSE_CAP / 10,
                                PARSE_CAP == 100000000,
                        ;
                    }
                    acc = PARSE_CAP;
                } else {
                    acc = acc * 10 + d;
                }
            },
        }
        i = i + 1;
    }
    proof {
        assert(s@.take(i as int) =~= s@);
    }
    Some(acc)
}

/// The value of the first `i` digit characters of `s`.
pub open spec fn digits_value_prefix(s: Seq<char>, i: int) -> Option<nat> {
    digits_value(s.take(i), 0)
}

/// One parsing step extends the prefix value by a digit.
proof fn lemma_prefix_step(s: Seq<char>, i: int, acc: nat, d: nat)
    requires
        0 <= i < s.len(),
        char_digit(s[i]) == Some(d),
        digits_value_prefix(s, i) is Some,
    ensures
        digits_value_prefix(s, i + 1) == Some(
            (digits_value_prefix(s, i)->Some_0 * 10 + d) as nat,
        ),
{
    let pre = s.take(i);
    lemma_digits_all(pre);
    assert(s.take(i + 1) =~= pre.push(s[i]));
    lemma_digits_value_push(pre, s[i], 0);
}

/// A prefix whose value exists is made of digits throughout.
proof fn lemma_digits_all(s: Seq<char>)
    requires
        digits_value(s, 0) is Some,
    ensures
        forall|i: int| 0 <= i < s.len() ==> char_digit(#[trigger] s[i]) is Some,
{
    lemma_digits_all_acc(s, 0);
}

proof fn lemma_digits_all_acc(s: Seq<char>, acc: nat)
    requires
        digits_value(s, acc) is Some,
    ensures
        forall|i: int| 0 <= i < s.len() ==> char_digit(#[trigger] s[i]) is Some,
    decreases s.len(),
{
    if s.len() > 0 {
        let d = char_digit(s[0])->Some_0;
        lemma_digits_all_acc(s.drop_first(), acc * 10 + d);
        assert forall|i: int| 0 <= i < s.len() implies char_digit(#[trigger] s[i]) is Some by {
            if i > 0 {
                assert(s[i] == s.drop_first()[i - 1]);
            }
        }
    }
}

/// The fraction text of `fr` thousandths (`fr < 1000`): a dot and one to
/// three digits, trailing zeroes dropped; nothing at all for zero.
pub open spec fn frac_chars(fr: nat) -> Seq<char> {
    if fr == 0 {
        Seq::<char>::empty()
    } else if fr % 10 != 0 {
        seq!['.', digit_char(fr / 100), digit_char((fr / 10) % 10), digit_char(fr % 10)]
    } else if fr % 100 != 0 {
        seq!['.', digit_char(fr / 100), digit_char((fr / 10) % 10)]
    } else {
        seq!['.', digit_char(fr / 100)]
    }
}

/// The decimal text of `v` thousandths: `800` prints as `0.8`, `2000` as
/// `2`, `1100` as `1.1`.
pub open spec fn milli_chars(v: nat) -> Seq<char> {
    dec_digits(v / 1000) + frac_chars(v % 1000)
}

/// The index of the first dot in `s`, if any.
pub open spec fn find_dot(s: Seq<char>) -> Option<int>
    decreases s.len(),
{
    if s.len() == 0 {
        None
    } else if s[0] == '.' {
        Some(0)
    } else {
        match find_dot(s.drop_first()) {
            Some(i) => Some(i + 1),
            None => None,
        }
    }
}

/// What [`find_dot`] yields: the first dot's index, or no dot at all.
pub proof fn lemma_find_dot(s: Seq<char>)
    ensures
        match find_dot(s) {
            Some(i) => 0 <= i < s.len() && s[i] == '.' && (forall|j: int|
                0 <= j < i ==> s[j] != '.'),
            None => forall|j: int| 0 <= j < s.len() ==> s[j] != '.',
        },
    decreases s.len(),
{
    if s.len() > 0 && s[0] != '.' {
        lemma_find_dot(s.drop_first());
        assert(forall|j: int| 1 <= j < s.len() ==> s[j] == s.drop_first()[j - 1]);
    }
}

/// A dot at `i` with none before it is the first dot.
pub proof fn lemma_find_dot_unique(s: Seq<char>, i: int)
    requires
        0 <= i < s.len(),
        s[i] == '.',
        forall|j: int| 0 <= j < i ==> s[j] != '.',
    ensures
        find_dot(s) == Some(i),
{
    lemma_find_dot(s);
    match find_dot(s) {
        Some(k) => {
            if k < i {
                assert(s[k] == '.');
            } else if k > i {
                assert(s[i] != '.');
            }
        },
        None => {
            assert(s[i] != '.');
        },
    }
}

/// Every character of `s` is a decimal digit.
pub open spec fn all_digits(s: Seq<char>) -> bool {
    forall|i: int| 0 <= i < s.len() ==> char_digit(#[trigger] s[i]) is Some
}

/// The thousandths denoted by a fraction part, its digits read from the
/// tenths place on; digits past the third are cut off.
pub open spec fn frac3_value(fp: Seq<char>) -> nat {
    frac_digit(fp, 0) * 100 + frac_digit(fp, 1) * 10 + frac_digit(fp, 2)
}

/// The `k`-th fraction digit, zero when absent.
pub open spec fn frac_digit(fp: Seq<char>, k: int) -> nat {
    if 0 <= k < fp.len() {
        match char_digit(fp[k]) {
            Some(d) => d,
            None => 0,
        }
    } else {
        0
    }
}

/// The magnitude, in thousandths, that an unsigned decimal denotes:
/// digits, optionally followed by a dot and further digits, at least one
/// digit in all.
pub open spec fn spec_parse_milli_mag(s: Seq<char>) -> Option<nat> {
    match find_dot(s) {
        Some(i) => {
            let ip = s.take(i);
            let fp = s.skip(i + 1);
            if ip.len() + fp.len() == 0 {
                None
            } else if ip.len() > 0 && digits_value(ip, 0) is None {
                None
            } else if !all_digits(fp) {
                None
            } else {
                Some(int_part_value(ip) * 1000 + frac3_value(fp))
            }
        },
        None => match spec_parse_u64(s) {
            Some(v) => Some(v * 1000),
            None => None,
        },
    }
}

/// The integer part's value; an absent integer part counts as zero.
pub open spec fn int_part_value(ip: Seq<char>) -> nat {
    if ip.len() == 0 {
        0
    } else {
        match digits_value(ip, 0) {
            Some(v) => v,
            None => 0,
        }
    }
}

/// The value, in thousandths, that a decimal with an optional sign
/// denotes.
pub open spec fn spec_parse_milli(s: Seq<char>) -> Option<int> {
    if s.len() > 0 && (s[0] == '-' || s[0] == '+') {
        match spec_parse_milli_mag(s.drop_first()) {
            Some(v) => Some(if s[0] == '-' { -(v as int) } else { v as int }),
            None => None,
        }
    } else {
        match spec_parse_milli_mag(s) {
            Some(v) => Some(v as int),
            None => None,
        }
    }
}

/// The decimal text of `v` thousandths.
pub fn format_milli(v: u64) -> (r: Vec<char>)
    ensures
        r@ == milli_chars(v as nat),
{
    let mut out: Vec<char> = Vec::new();
    push_dec_digits(v / 1000, &mut out);
    let fr = v % 1000;
    if fr != 0 {
        out.push('.');
        push_digit(fr / 100, &mut out);
        if fr % 10 != 0 {
            push_digit((fr / 10) % 10, &mut out);
            push_digit(fr % 10, &mut out);
        } else if fr % 100 != 0 {
            push_digit((fr / 10) % 10, &mut out);
        }
    }
    proof {
        assert(out@ =~= milli_chars(v as nat));
    }
    out
}

/// Appends the digit character of `d` (`d < 10`).
pub fn push_digit(d: u64, out: &mut Vec<char>)
    requires
        d < 10,
    ensures
        final(out)@ == old(out)@.push(digit_char(d as nat)),
{
    let c: char = if d == 0 {
        '0'
    } else if d == 1 {
        '1'
    } else if d == 2 {
        '2'
    } else if d == 3 {
        '3'
    } else if d == 4 {
        '4'
    } else if d == 5 {
        '5'
    } else if d == 6 {
        '6'
    } else if d == 7 {
        '7'
    } else if d == 8 {
        '8'
    } else {
        '9'
    };
    out.push(c);
}

/// Parses a signed decimal into thousandths; magnitudes whose integer
/// part reaches [`PARSE_CAP`] saturate.
pub fn parse_milli_chars(s: &Vec<char>) -> (r: Option<i64>)
    ensures
        r is Some <==> spec_parse_milli(s@) is Some,
        r matches Some(v) ==> {
            let n = spec_parse_milli(s@)->Some_0;
            &&& (-(PARSE_CAP as int) < n < PARSE_CAP ==> v == n)
            &&& (n >= PARSE_CAP ==> v >= PARSE_CAP)
            &&& (n <= -(PARSE_CAP as int) ==> v <= -(PARSE_CAP as i64))
        },
{
    let mut start: usize = 0;
    let mut neg: bool = false;
    if s.len() > 0 && (s[0] == '-' || s[0] == '+') {
        neg = s[0] == '-';
        start = 1;
    }
    let mut rest: Vec<char> = Vec::new();
    let mut i: usize = start;
    while i < s.len()
        invariant
            start <= i <= s@.len(),
            rest@ == s@.subrange(start as int, i as int),
        decreases s@.len() - i,
    {
        rest.push(s[i]);
        proof {
            assert(rest@ =~= s@.subrange(start as int, i + 1 as int));
        }
        i = i + 1;
    }
    proof {
        if start == 1 {
            assert(rest@ =~= s@.drop_first());
        } else {
            assert(rest@ =~= s@);
        }
    }
    let mag = parse_milli_mag(&rest);
    match mag {
        None => None,
        Some(m) => {
            if neg {
                Some(-m)
            } else {
                Some(m)
            }
        },
    }
}

/// Parses an unsigned decimal into thousandths.
fn parse_milli_mag(s: &Vec<char>) -> (r: Option<i64>)
    ensures
        r is Some <==> spec_parse_milli_mag(s@) is Some,
        r matches Some(v) ==> {
            let n = spec_parse_milli_mag(s@)->Some_0;
            &&& 0 <= v
            &&& (n < PARSE_CAP ==> v == n)
            &&& (n >= PARSE_CAP ==> v >= PARSE_CAP)
        },
{
    let mut dot: Option<usize> = None;
    let mut i: usize = 0;
    while i < s.len()
        invariant
            i <= s@.len(),
            match dot {
                Some(d) => d < i && s@[d as int] == '.' && (forall|j: int|
                    0 <= j < d ==> s@[j] != '.'),
                None => forall|j: int| 0 <= j < i ==> s@[j] != '.',
            },
            dot matches Some(d) ==> find_dot(s@) == Some(d as int),
        decreases s@.len() - i,
    {
        if dot.is_none() && s[i] == '.' {
            dot = Some(i);
            proof {
                lemma_find_dot_unique(s@, i as int);
            }
        }
        i = i + 1;
    }
    proof {
        if dot is None {
            lemma_find_dot(s@);
            match find_dot(s@) {
                Some(k) => {
                    assert(s@[k] != '.');
                },
                None => {},
            }
            assert(find_dot(s@) is None);
        }
    }
    match dot {
        None => {
            match parse_u64_chars(s) {
                None => None,
                Some(v) => {
                    let capped = if v >= PARSE_CAP {
                        PARSE_CAP
                    } else {
                        v
                    };
                    proof {
                        let n = spec_parse_u64(s@)->Some_0;
                        if n < PARSE_CAP {
                            assert(capped == n);
                        }
                        assert(n * 1000 >= n) by (nonlinear_arith);
                        if n >= PARSE_CAP {
                            assert(n * 1000 >= PARSE_CAP);
                        }
                    }
                    Some((capped as i64) * 1000)
                },
            }
        },
        Some(d) => {
            let mut ip: Vec<char> = Vec::new();
            let mut k: usize = 0;
            while k < d
                invariant
                    k <= d <= s@.len(),
                    s@[d as int] == '.',
                    ip@ == s@.subrange(0, k as int),
                decreases d - k,
            {
                ip.push(s[k]);
                proof {
                    assert(ip@ =~= s@.subrange(0, k + 1 as int));
                }
                k = k + 1;
            }
            let mut fp: Vec<char> = Vec::new();
            let mut k2: usize = d + 1;
            while k2 < s.len()
                invariant
                    d + 1 <= k2 <= s@.len(),
                    fp@ == s@.subrange(d + 1 as int, k2 as int),
                decreases s@.len() - k2,
            {
                fp.push(s[k2]);
                proof {
                    assert(fp@ =~= s@.subrange(d + 1 as int, k2 + 1 as int));
                }
                k2 = k2 + 1;
            }
            proof {
                assert(ip@ =~= s@.take(d as int));
                assert(fp@ =~= s@.skip(d + 1 as int));
            }
            if ip.len() == 0 && fp.len() == 0 {
                return None;
            }
            let ipv: u64 = if ip.len() == 0 {
                0
            } else {
                match parse_u64_chars(&ip) {
                    None => {
                        return None;
                    },
                    Some(v) => {
                        if v >= PARSE_CAP {
                            PARSE_CAP
                        } else {
                            v
                        }
                    },
                }
            };
            let mut fr: u64 = 0;
            let mut k3: usize = 0;
            while k3 < fp.len()
                invariant
                    k3 <= fp@.len(),
                    d < s@.len(),
                    find_dot(s@) == Some(d as int),
                    fp@ == s@.skip(d + 1 as int),
                    forall|j: int| 0 <= j < k3 ==> char_digit(#[trigger] fp@[j]) is Some,
                    fr == (if k3 >= 1 {
                        frac_digit(fp@, 0) * 100
                    } else {
                        0
                    }) + (if k3 >= 2 {
                        frac_digit(fp@, 1) * 10
                    } else {
                        0
                    }) + (if k3 >= 3 {
                        frac_digit(fp@, 2)
                    } else {
                        0
                    }),
                decreases fp@.len() - k3,
    {
                match digit_of(fp[k3]) {
                    None => {
                        proof {
                            assert(char_digit(fp@[k3 as int]) is None);
                            assert(!all_digits(fp@));
                        }
                        return None;
                    },
                    Some(dg) => {
                        if k3 == 0 {
                            fr = dg * 100;
                        } else if k3 == 1 {
                            fr = fr + dg * 10;
                        } else if k3 == 2 {
                            fr = fr + dg;
                        }
                    },
                }
                k3 = k3 + 1;
            }
            proof {
                assert(all_digits(fp@));
                if fp@.len() == 1 {
                    assert(fr == frac3_value(fp@));
                } else if fp@.len() == 2 {
                    assert(fr == frac3_value(fp@));
                } else if fp@.len() == 0 {
                    assert(fr == frac3_value(fp@));
                } else {
                    assert(fr == frac3_value(fp@));
                }
                let n = spec_parse_milli_mag(s@)->Some_0;
                let ipn = int_part_value(s@.take(d as int));
                assert(n == ipn * 1000 + frac3_value(fp@));
                if ipn < PARSE_CAP {
                    assert(ipv == ipn);
                } else {
                    assert(ipv == PARSE_CAP);
                    assert(ipn * 1000 >= PARSE_CAP * 1000) by (nonlinear_arith)
                        requires
                            ipn >= PARSE_CAP,
                    ;
                }
                assert(ipn * 1000 + frac3_value(fp@) >= ipn * 1000);
            }
            Some((ipv as i64) * 1000 + (fr as i64))
        },
    }
}

/// Parsing the printed text of `v` thousandths gives `v` back.
pub proof fn lemma_milli_roundtrip(v: nat)
    ensures
        spec_parse_milli(milli_chars(v)) == Some(v as int),
{
    let ip = v / 1000;
    let fr = v % 1000;
    let digits = dec_digits(ip);
    lemma_dec_digits_are_digits(ip);
    let s = milli_chars(v);
    assert(forall|j: int| 0 <= j < digits.len() ==> s[j] == digits[j]);
    assert(forall|j: int|
        0 <= j < digits.len() ==> char_digit(#[trigger] s[j]) is Some && s[j] != '.');
    assert(s.len() > 0);
    assert(s[0] != '-' && s[0] != '+') by {
        assert(char_digit(s[0]) is Some);
    }
    if fr == 0 {
        assert(s =~= digits);
        lemma_find_dot_none(s);
        lemma_parse_dec_digits(ip);
        assert(spec_parse_milli_mag(s) == Some(ip * 1000));
        assert(ip * 1000 == v);
    } else {
        let fc = frac_chars(fr);
        assert(s == digits + fc);
        assert(fc[0] == '.');
        assert(s[digits.len() as int] == '.');
        lemma_find_dot_unique(s, digits.len() as int);
        let ipp = s.take(digits.len() as int);
        let fpp = s.skip(digits.len() as int + 1);
        assert(ipp =~= digits);
        assert(fpp =~= fc.drop_first());
        lemma_parse_dec_digits(ip);
        assert(digits_value(ipp, 0) == Some(ip));
        assert(int_part_value(ipp) == ip);
        lemma_frac_roundtrip(fr);
        assert(all_digits(fc.drop_first()));
        assert(frac3_value(fc.drop_first()) == fr);
        assert(spec_parse_milli_mag(s) == Some(ip * 1000 + fr));
        assert(ip * 1000 + fr == v);
    }
}

/// A sequence of digits has no dot.
proof fn lemma_find_dot_none(s: Seq<char>)
    requires
        all_digits(s),
    ensures
        find_dot(s) is None,
{
    lemma_find_dot(s);
    match find_dot(s) {
        Some(i) => {
            assert(char_digit(s[i]) is Some);
        },
        None => {},
    }
}

/// Reading the fraction text of `fr` thousandths gives `fr` back.
proof fn lemma_frac_roundtrip(fr: nat)
    requires
        0 < fr < 1000,
    ensures
        all_digits(frac_chars(fr).drop_first()),
        frac3_value(frac_chars(fr).drop_first()) == fr,
{
    let fc = frac_chars(fr);
    let fp = fc.drop_first();
    lemma_digit_char_roundtrip(fr / 100);
    lemma_digit_char_roundtrip((fr / 10) % 10);
    lemma_digit_char_roundtrip(fr % 10);
    assert(fr / 100 < 10);
    assert(fr == (fr / 100) * 100 + ((fr / 10) % 10) * 10 + fr % 10) by (nonlinear_arith)
        requires
            0 < fr < 1000,
    ;
    if fr % 10 != 0 {
        assert(fp =~= seq![
            digit_char(fr / 100),
            digit_char((fr / 10) % 10),
            digit_char(fr % 10),
        ]);
    } else if fr % 100 != 0 {
        assert(fp =~= seq![digit_char(fr / 100), digit_char((fr / 10) % 10)]);
        assert(fr % 10 == 0);
    } else {
        assert(fp =~= seq![digit_char(fr / 100)]);
        assert((fr / 10) % 10 == 0 && fr % 10 == 0) by (nonlinear_arith)
            requires
                0 < fr < 1000,
                fr % 100 == 0,
        ;
    }
}

/// Appending a digit does not shrink the prefix value.
proof fn lemma_prefix_monotone(s: Seq<char>, i: int, d: nat)
    requires
        0 <= i < s.len(),
        char_digit(s[i]) == Some(d),
        digits_value_prefix(s, i) is Some,
    ensures
        digits_value_prefix(s, i + 1) is Some,
        digits_value_prefix(s, i + 1)->Some_0 >= digits_value_prefix(s, i)->Some_0,
{
    lemma_prefix_step(s, i, 0, d);
    let v = digits_value_prefix(s, i)->Some_0;
    assert(v * 10 + d >= v) by (nonlinear_arith);
}

} // verus!
