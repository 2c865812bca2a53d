//! Text helpers: decimal rendering and parsing of integers, and splitting on a separator.

use vstd::prelude::*;
use vstd::string::StrSliceExecFns;
use vstd::utf8::{decode_utf8, valid_utf8};

verus! {

/// Appends one character to a `String` (std's `String::push`).
#[verifier::external_body]
pub(crate) fn push_char(s: &mut String, c: char)
    ensures
        final(s)@ == old(s)@.push(c),
{
    s.push(c);
}

/// The character for a decimal digit.
pub open spec fn digit_char(d: nat) -> char {
    (('0' as u32) + d) as char
}

/// The decimal digits of `n`, most significant first, without leading zeros ("0" for zero).
pub open spec fn dec_digits(n: nat) -> Seq<char>
    decreases n,
{
    if n < 10 {
        seq![digit_char(n)]
    } else {
        dec_digits(n / 10).push(digit_char(n % 10))
    }
}

/// The decimal rendering of an integer, with a leading '-' when it is negative.
pub open spec fn int_str(i: int) -> Seq<char> {
    if i < 0 {
        seq!['-'] + dec_digits((-i) as nat)
    } else {
        dec_digits(i as nat)
    }
}

fn digit_to_char(d: u64) -> (c: char)
    requires
        d < 10,
    ensures
        c == digit_char(d as nat),
{
    let c: u32 = 48 + d as u32;
    assert(c == ('0' as u32) + d);
    char_from_u32(c)
}

/// Converts an ASCII code point to its character.
pub(crate) fn char_from_u32(c: u32) -> (r: char)
    requires
        c < 128,
    ensures
        r == c as char,
{
    let b: u8 = c as u8;
    b as char
}

/// Appends the decimal digits of `n`.
pub fn push_u64(s: &mut String, n: u64)
    ensures
        final(s)@ == old(s)@ + dec_digits(n as nat),
    decreases n,
{
    if n < 10 {
        push_char(s, digit_to_char(n));
    } else {
        push_u64(s, n / 10);
        push_char(s, digit_to_char(n % 10));
    }
}

/// Appends the decimal rendering of `i`.
pub fn push_i64(s: &mut String, i: i64)
    ensures
        final(s)@ == old(s)@ + int_str(i as int),
{
    if i < 0 {
        push_char(s, '-');
        let m: u64 = if i == i64::MIN { 9223372036854775808u64 } else { (-i) as u64 };
        push_u64(s, m);
    } else {
        push_u64(s, i as u64);
    }
}


/// The characters of a string slice, as a vector.
pub fn chars_of(s: &str) -> (v: Vec<char>)
    ensures
        v@ == s@,
{
    let n = s.unicode_len();
    let mut v: Vec<char> = Vec::new();
    let mut i: usize = 0;
    while i < n
        invariant
            n == s@.len(),
            i <= n,
            v@ == s@.subrange(0, i as int),
        decreases n - i,
    {
        v.push(s.get_char(i));
        i = i + 1;
        assert(v@ =~= s@.subrange(0, i as int));
    }
    assert(v@ =~= s@);
    v
}

/// A new string holding `v[lo..hi]`.
pub fn string_from(v: &Vec<char>, lo: usize, hi: usize) -> (r: String)
    requires
        lo <= hi <= v@.len(),
    ensures
        r@ == v@.subrange(lo as int, hi as int),
{
    let mut r = String::new();
    let mut i: usize = lo;
    while i < hi
        invariant
            lo <= i <= hi <= v@.len(),
            r@ == v@.subrange(lo as int, i as int),
        decreases hi - i,
    {
        push_char(&mut r, v[i]);
        i = i + 1;
        assert(r@ =~= v@.subrange(lo as int, i as int));
    }
    r
}

/// Whether two string slices hold the same characters.
pub fn str_eq(a: &str, b: &str) -> (r: bool)
    ensures
        r == (a@ == b@),
{
    let n = a.unicode_len();
    let m = b.unicode_len();
    if n != m {
        return false;
    }
    let mut i: usize = 0;
    while i < n
        invariant
            n == a@.len(),
            m == b@.len(),
            n == m,
            i <= n,
            forall|j: int| 0 <= j < i ==> a@[j] == b@[j],
        decreases n - i,
    {
        if a.get_char(i) != b.get_char(i) {
            return false;
        }
        i = i + 1;
    }
    assert(a@ =~= b@);
    true
}

/// Whether `c` is an ASCII decimal digit.
pub open spec fn is_digit(c: char) -> bool {
    '0' <= c && c <= '9'
}

/// The value of a decimal digit character.
pub open spec fn digit_value(c: char) -> nat {
    (c as int - '0' as int) as nat
}

/// The value of a string of decimal digits, most significant first (0 for the empty string).
pub open spec fn digits_value(s: Seq<char>) -> nat
    decreases s.len(),
{
    if s.len() == 0 {
        0
    } else {
        digits_value(s.drop_last()) * 10 + digit_value(s.last())
    }
}

/// Whether every character of `s` is a decimal digit.
pub open spec fn all_digits(s: Seq<char>) -> bool {
    forall|i: int| 0 <= i < s.len() ==> is_digit(#[trigger] s[i])
}

/// The value of a non-empty string made only of decimal digits.
pub open spec fn nat_of(s: Seq<char>) -> Option<nat> {
    if s.len() > 0 && all_digits(s) {
        Some(digits_value(s))
    } else {
        None
    }
}

/// The value of an unsigned integer in the syntax of Rust's `FromStr` for unsigned integers:
/// an optional '+', then at least one decimal digit.
pub open spec fn unsigned_of(s: Seq<char>) -> Option<nat> {
    if s.len() > 0 && s[0] == '+' {
        nat_of(s.drop_first())
    } else {
        nat_of(s)
    }
}

/// The value of a signed integer in the syntax of Rust's `FromStr` for signed integers:
/// an optional '+' or '-', then at least one decimal digit.
pub open spec fn signed_of(s: Seq<char>) -> Option<int> {
    if s.len() > 0 && s[0] == '-' {
        match nat_of(s.drop_first()) {
            Some(n) => Some(-(n as int)),
            None => None,
        }
    } else {
        match unsigned_of(s) {
            Some(n) => Some(n as int),
            None => None,
        }
    }
}

/// What `str::parse::<u8>` gives.
pub open spec fn parse_u8_spec(s: Seq<char>) -> Option<u8> {
    match unsigned_of(s) {
        Some(n) => if n <= u8::MAX { Some(n as u8) } else { None },
        None => None,
    }
}

/// What `str::parse::<u16>` gives.
pub open spec fn parse_u16_spec(s: Seq<char>) -> Option<u16> {
    match unsigned_of(s) {
        Some(n) => if n <= u16::MAX { Some(n as u16) } else { None },
        None => None,
    }
}

/// What `str::parse::<u64>` gives.
pub open spec fn parse_u64_spec(s: Seq<char>) -> Option<u64> {
    match unsigned_of(s) {
        Some(n) => if n <= u64::MAX { Some(n as u64) } else { None },
        None => None,
    }
}

/// What `str::parse::<i64>` gives.
pub open spec fn parse_i64_spec(s: Seq<char>) -> Option<i64> {
    match signed_of(s) {
        Some(n) => if i64::MIN <= n <= i64::MAX { Some(n as i64) } else { None },
        None => None,
    }
}

proof fn lemma_digits_value_prefix(s: Seq<char>, j: int)
    requires
        0 <= j <= s.len(),
    ensures
        digits_value(s.subrange(0, j)) <= digits_value(s),
    decreases s.len(),
{
    if j < s.len() {
        lemma_digits_value_prefix(s.drop_last(), j);
        assert(s.drop_last().subrange(0, j) =~= s.subrange(0, j));
    } else {
        assert(s.subrange(0, j) =~= s);
    }
}

/// The value of the digits `v[lo..]`, when they are all digits, there is at least one, and the
/// value fits in a `u64`.
fn digits_u64(v: &Vec<char>, lo: usize) -> (r: Option<u64>)
    requires
        lo <= v@.len(),
    ensures
        r == (match nat_of(v@.skip(lo as int)) {
            Some(n) => if n <= u64::MAX { Some(n as u64) } else { None::<u64> },
            None => None::<u64>,
        }),
{
    let ghost t = v@.skip(lo as int);
    let n = v.len();
    if lo == n {
        return None;
    }
    let mut acc: u64 = 0;
    let mut i: usize = lo;
    while i < n
        invariant
            lo <= i <= n == v@.len(),
            t == v@.skip(lo as int),
            all_digits(t.subrange(0, i - lo)),
            acc as nat == digits_value(t.subrange(0, i - lo)),
        decreases n - i,
    {
        let c = v[i];
        let ghost p = t.subrange(0, i - lo);
        let ghost q = t.subrange(0, i + 1 - lo);
        assert(q.drop_last() =~= p);
        if !('0' <= c && c <= '9') {
            assert(!is_digit(t[i - lo]));
            return None;
        }
        let d: u64 = (c as u32 - '0' as u32) as u64;
        assert(d as nat == digit_value(c));
        match acc.checked_mul(10) {
            None => {
                proof {
                    lemma_digits_value_prefix(t, i + 1 - lo);
                }
                return None;
            },
            Some(a10) => {
                match a10.checked_add(d) {
                    None => {
                        proof {
                            lemma_digits_value_prefix(t, i + 1 - lo);
                        }
                        return None;
                    },
                    Some(a) => {
                        acc = a;
                    },
                }
            },
        }
        i = i + 1;
        assert forall|k: int| 0 <= k < q.len() implies is_digit(#[trigger] q[k]) by {
            if k < p.len() {
                assert(q[k] == p[k]);
            }
        }
    }
    assert(t.subrange(0, n - lo) =~= t);
    Some(acc)
}


/// Parses an unsigned integer as Rust's `FromStr` for unsigned integers does, giving its value
/// when it fits in a `u64`.
pub fn parse_unsigned(v: &Vec<char>) -> (r: Option<u64>)
    ensures
        r == (match unsigned_of(v@) {
            Some(n) => if n <= u64::MAX { Some(n as u64) } else { None::<u64> },
            None => None::<u64>,
        }),
{
    if v.len() > 0 && v[0] == '+' {
        assert(v@.skip(1) =~= v@.drop_first());
        digits_u64(v, 1)
    } else {
        assert(v@.skip(0) =~= v@);
        digits_u64(v, 0)
    }
}

/// `str::parse::<u8>`.
pub fn parse_u8(s: &str) -> (r: Option<u8>)
    ensures
        r == parse_u8_spec(s@),
{
    let v = chars_of(s);
    match parse_unsigned(&v) {
        Some(n) => if n <= 255 { Some(n as u8) } else { None },
        None => None,
    }
}

/// `str::parse::<u16>`.
pub fn parse_u16(s: &str) -> (r: Option<u16>)
    ensures
        r == parse_u16_spec(s@),
{
    let v = chars_of(s);
    match parse_unsigned(&v) {
        Some(n) => if n <= 65535 { Some(n as u16) } else { None },
        None => None,
    }
}

/// `str::parse::<u64>`.
pub fn parse_u64(s: &str) -> (r: Option<u64>)
    ensures
        r == parse_u64_spec(s@),
{
    let v = chars_of(s);
    parse_unsigned(&v)
}

/// `str::parse::<i64>`.
pub fn parse_i64(s: &str) -> (r: Option<i64>)
    ensures
        r == parse_i64_spec(s@),
{
    let v = chars_of(s);
    if v.len() > 0 && v[0] == '-' {
        assert(v@.skip(1) =~= v@.drop_first());
        match digits_u64(&v, 1) {
            Some(n) => {
                if n <= 9223372036854775808u64 {
                    if n == 9223372036854775808u64 {
                        Some(i64::MIN)
                    } else {
                        Some(-(n as i64))
                    }
                } else {
                    None
                }
            },
            None => None,
        }
    } else {
        match parse_unsigned(&v) {
            Some(n) => if n <= 9223372036854775807u64 { Some(n as i64) } else { None },
            None => None,
        }
    }
}

/// The pieces of `s` between occurrences of `sep`, as `str::split` gives them: one more piece
/// than there are separators, empty pieces included.
pub open spec fn split_spec(s: Seq<char>, sep: char) -> Seq<Seq<char>>
    decreases s.len(),
{
    if s.len() == 0 {
        seq![Seq::<char>::empty()]
    } else {
        let p = split_spec(s.drop_last(), sep);
        if s.last() == sep {
            p.push(Seq::<char>::empty())
        } else {
            p.update(p.len() - 1, p.last().push(s.last()))
        }
    }
}

/// The string made of `pieces` with `sep` between consecutive ones.
pub open spec fn join_spec(pieces: Seq<Seq<char>>, sep: char) -> Seq<char>
    decreases pieces.len(),
{
    if pieces.len() == 0 {
        Seq::<char>::empty()
    } else if pieces.len() == 1 {
        pieces[0]
    } else {
        join_spec(pieces.drop_last(), sep) + seq![sep] + pieces.last()
    }
}

/// `split_spec` always has at least one piece.
pub proof fn lemma_split_nonempty(s: Seq<char>, sep: char)
    ensures
        split_spec(s, sep).len() >= 1,
    decreases s.len(),
{
    if s.len() > 0 {
        lemma_split_nonempty(s.drop_last(), sep);
    }
}

/// Splitting on a separator and joining the pieces with it gives the string back.
pub proof fn lemma_join_split(s: Seq<char>, sep: char)
    ensures
        join_spec(split_spec(s, sep), sep) == s,
    decreases s.len(),
{
    if s.len() > 0 {
        let t = s.drop_last();
        lemma_join_split(t, sep);
        lemma_split_nonempty(t, sep);
        let p = split_spec(t, sep);
        if s.last() == sep {
            let q = p.push(Seq::<char>::empty());
            assert(q.drop_last() =~= p);
            assert(join_spec(q, sep) =~= join_spec(p, sep) + seq![sep]);
            assert(s =~= t.push(sep));
        } else {
            let q = p.update(p.len() - 1, p.last().push(s.last()));
            if p.len() == 1 {
                assert(join_spec(q, sep) =~= s);
            } else {
                assert(q.drop_last() =~= p.drop_last());
                assert(join_spec(q, sep) =~= join_spec(p.drop_last(), sep) + seq![sep] + p.last().push(s.last()));
                assert(s =~= t.push(s.last()));
            }
        }
    }
}

/// No piece of a split holds the separator.
pub proof fn lemma_split_pieces_free(s: Seq<char>, sep: char)
    ensures
        forall|i: int, j: int|
            0 <= i < split_spec(s, sep).len() && 0 <= j < split_spec(s, sep)[i].len()
            ==> split_spec(s, sep)[i][j] != sep,
    decreases s.len(),
{
    if s.len() > 0 {
        lemma_split_pieces_free(s.drop_last(), sep);
        lemma_split_nonempty(s.drop_last(), sep);
    }
}

/// Splits `v` on `sep`, as `str::split` does.
pub fn split_chars(v: &Vec<char>, sep: char) -> (r: Vec<String>)
    ensures
        r@.len() == split_spec(v@, sep).len(),
        forall|i: int| 0 <= i < r@.len() ==> #[trigger] r@[i]@ == split_spec(v@, sep)[i],
{
    let n = v.len();
    let mut pieces: Vec<String> = Vec::new();
    let mut start: usize = 0;
    let mut i: usize = 0;
    while i < n
        invariant
            n == v@.len(),
            start <= i <= n,
            pieces@.len() + 1 == split_spec(v@.subrange(0, i as int), sep).len(),
            forall|k: int| 0 <= k < pieces@.len() ==> #[trigger] pieces@[k]@ == split_spec(v@.subrange(0, i as int), sep)[k],
            split_spec(v@.subrange(0, i as int), sep).last() == v@.subrange(start as int, i as int),
        decreases n - i,
    {
        let ghost p = split_spec(v@.subrange(0, i as int), sep);
        assert(v@.subrange(0, i + 1).drop_last() =~= v@.subrange(0, i as int));
        proof { lemma_split_nonempty(v@.subrange(0, i as int), sep); }
        if v[i] == sep {
            let piece = string_from(v, start, i);
            pieces.push(piece);
            start = i + 1;
            i = i + 1;
            assert(v@.subrange(start as int, i as int) =~= Seq::<char>::empty());
        } else {
            i = i + 1;
            assert(v@.subrange(start as int, i as int) =~= p.last().push(v@[i - 1]));
        }
    }
    let last = string_from(v, start, n);
    pieces.push(last);
    assert(v@.subrange(0, n as int) =~= v@);
    pieces
}


/// Ten to the power `k`.
pub open spec fn pow10(k: nat) -> nat
    decreases k,
{
    if k == 0 {
        1
    } else {
        10 * pow10((k - 1) as nat)
    }
}

/// The last `k` decimal digits of `n`, zero-padded to exactly `k` characters.
pub open spec fn padded_digits(n: nat, k: nat) -> Seq<char>
    decreases k,
{
    if k == 0 {
        Seq::<char>::empty()
    } else {
        padded_digits(n / 10, (k - 1) as nat).push(digit_char(n % 10))
    }
}

/// The fractional digits `f` (a `k`-digit fraction) with trailing zeros removed.
pub open spec fn trimmed_fraction(f: nat, k: nat) -> Seq<char>
    decreases k,
{
    if k == 0 {
        Seq::<char>::empty()
    } else if f % 10 == 0 {
        trimmed_fraction(f / 10, (k - 1) as nat)
    } else {
        padded_digits(f, k)
    }
}

/// The absolute value of an integer.
pub open spec fn abs(v: int) -> nat {
    if v < 0 {
        (-v) as nat
    } else {
        v as nat
    }
}

/// A '-' when `v` is negative, else nothing.
pub open spec fn sign_str(v: int) -> Seq<char> {
    if v < 0 {
        seq!['-']
    } else {
        Seq::<char>::empty()
    }
}

/// `v / 10^k` written as the shortest exact decimal: no fractional part when it is a whole
/// number, and no trailing zeros in the fractional part otherwise.
pub open spec fn scaled_str(v: int, k: nat) -> Seq<char> {
    let a = abs(v);
    let d = pow10(k);
    sign_str(v) + dec_digits(a / d) + if a % d == 0 {
        Seq::<char>::empty()
    } else {
        seq!['.'] + trimmed_fraction(a % d, k)
    }
}

/// `v / 10^k` written with exactly `k` fractional digits.
pub open spec fn fixed_str(v: int, k: nat) -> Seq<char> {
    let a = abs(v);
    let d = pow10(k);
    sign_str(v) + dec_digits(a / d) + seq!['.'] + padded_digits(a % d, k)
}

fn pow10_exec(k: u32) -> (d: u64)
    requires
        k <= 3,
    ensures
        d == pow10(k as nat),
        d >= 1,
{
    reveal_with_fuel(pow10, 4);
    if k == 0 {
        1
    } else if k == 1 {
        10
    } else if k == 2 {
        100
    } else {
        1000
    }
}

/// Appends the last `k` decimal digits of `n`, zero-padded.
pub fn push_padded(s: &mut String, n: u64, k: u32)
    ensures
        final(s)@ == old(s)@ + padded_digits(n as nat, k as nat),
    decreases k,
{
    if k > 0 {
        push_padded(s, n / 10, k - 1);
        push_char(s, digit_to_char(n % 10));
    }
}

/// Appends the `k`-digit fraction `f` with trailing zeros removed.
pub fn push_trimmed(s: &mut String, f: u64, k: u32)
    ensures
        final(s)@ == old(s)@ + trimmed_fraction(f as nat, k as nat),
    decreases k,
{
    if k > 0 {
        if f % 10 == 0 {
            push_trimmed(s, f / 10, k - 1);
        } else {
            push_padded(s, f, k);
        }
    }
}

fn abs_i64(v: i64) -> (a: u64)
    ensures
        a as nat == abs(v as int),
{
    if v < 0 {
        if v == i64::MIN {
            9223372036854775808u64
        } else {
            (-v) as u64
        }
    } else {
        v as u64
    }
}

/// Appends `v / 10^k` as the shortest exact decimal.
pub fn push_scaled(s: &mut String, v: i64, k: u32)
    requires
        k <= 3,
    ensures
        final(s)@ == old(s)@ + scaled_str(v as int, k as nat),
{
    let a = abs_i64(v);
    let d = pow10_exec(k);
    if v < 0 {
        push_char(s, '-');
    }
    push_u64(s, a / d);
    if a % d != 0 {
        push_char(s, '.');
        push_trimmed(s, a % d, k);
    }
    assert(final(s)@ =~= old(s)@ + scaled_str(v as int, k as nat));
}

/// Appends `v / 10^k` with exactly `k` fractional digits.
pub fn push_fixed(s: &mut String, v: i64, k: u32)
    requires
        k <= 3,
    ensures
        final(s)@ == old(s)@ + fixed_str(v as int, k as nat),
{
    let a = abs_i64(v);
    let d = pow10_exec(k);
    if v < 0 {
        push_char(s, '-');
    }
    push_u64(s, a / d);
    push_char(s, '.');
    push_padded(s, a % d, k);
    assert(final(s)@ =~= old(s)@ + fixed_str(v as int, k as nat));
}

/// The lowercase hexadecimal digit for `d < 16`.
pub open spec fn hex_char(d: nat) -> char {
    if d < 10 {
        digit_char(d)
    } else {
        (('a' as u32) + (d - 10)) as char
    }
}

/// A byte as two lowercase hexadecimal digits.
pub open spec fn hex2(b: u8) -> Seq<char> {
    seq![hex_char(b as nat / 16), hex_char(b as nat % 16)]
}

fn hex_digit(d: u8) -> (c: char)
    requires
        d < 16,
    ensures
        c == hex_char(d as nat),
{
    if d < 10 {
        digit_to_char(d as u64)
    } else {
        let c: u32 = 97 + (d as u32 - 10);
        char_from_u32(c)
    }
}

/// Appends a byte as two lowercase hexadecimal digits.
pub fn push_hex2(s: &mut String, b: u8)
    ensures
        final(s)@ == old(s)@ + hex2(b),
{
    push_char(s, hex_digit(b / 16));
    push_char(s, hex_digit(b % 16));
    assert(final(s)@ =~= old(s)@ + hex2(b));
}


/// Two to the power `k`.
pub open spec fn pow2(k: nat) -> nat
    decreases k,
{
    if k == 0 {
        1
    } else {
        2 * pow2((k - 1) as nat)
    }
}

pub proof fn lemma_pow2_16()
    ensures
        pow2(16) == 65536,
{
    reveal_with_fuel(pow2, 17);
}

pub proof fn lemma_pow2_32()
    ensures
        pow2(32) == 4294967296,
{
    lemma_pow2_16();
    reveal_with_fuel(pow2, 17);
    assert(pow2(32) == pow2(16) * 65536) by {
        lemma_pow2_add_16(16);
    }
}

proof fn lemma_pow2_add_16(k: nat)
    ensures
        pow2(k + 16) == pow2(k) * 65536,
    decreases k,
{
    if k == 0 {
        lemma_pow2_16();
    } else {
        lemma_pow2_add_16((k - 1) as nat);
        assert(pow2(k + 16) == 2 * pow2((k - 1 + 16) as nat));
    }
}


/// Splits `s` on `sep`, as `str::split` does, giving slices of `s`.
pub fn split_str<'a>(s: &'a str, sep: char) -> (r: Vec<&'a str>)
    ensures
        r@.len() == split_spec(s@, sep).len(),
        forall|i: int| 0 <= i < r@.len() ==> #[trigger] r@[i]@ == split_spec(s@, sep)[i],
{
    let v = chars_of(s);
    let n = v.len();
    let mut pieces: Vec<&'a str> = Vec::new();
    let mut start: usize = 0;
    let mut i: usize = 0;
    while i < n
        invariant
            n == v@.len(),
            v@ == s@,
            start <= i <= n,
            pieces@.len() + 1 == split_spec(v@.subrange(0, i as int), sep).len(),
            forall|k: int| 0 <= k < pieces@.len() ==> #[trigger] pieces@[k]@ == split_spec(v@.subrange(0, i as int), sep)[k],
            split_spec(v@.subrange(0, i as int), sep).last() == v@.subrange(start as int, i as int),
        decreases n - i,
    {
        let ghost p = split_spec(v@.subrange(0, i as int), sep);
        assert(v@.subrange(0, i + 1).drop_last() =~= v@.subrange(0, i as int));
        proof { lemma_split_nonempty(v@.subrange(0, i as int), sep); }
        if v[i] == sep {
            let piece = s.substring_char(start, i);
            pieces.push(piece);
            start = i + 1;
            i = i + 1;
            assert(v@.subrange(start as int, i as int) =~= Seq::<char>::empty());
        } else {
            i = i + 1;
            assert(v@.subrange(start as int, i as int) =~= p.last().push(v@[i - 1]));
        }
    }
    let last = s.substring_char(start, n);
    pieces.push(last);
    assert(v@.subrange(0, n as int) =~= v@);
    pieces
}

/// Splits `s` at the first `sep` into at most two pieces, as `str::splitn(2, sep)` does.
pub open spec fn splitn2_spec(s: Seq<char>, sep: char) -> Seq<Seq<char>> {
    if exists|i: int| 0 <= i < s.len() && s[i] == sep {
        let i = first_index(s, sep);
        seq![s.subrange(0, i), s.subrange(i + 1, s.len() as int)]
    } else {
        seq![s]
    }
}

/// The index of the first occurrence of `c` in `s`.
pub open spec fn first_index(s: Seq<char>, c: char) -> int
    recommends
        exists|i: int| 0 <= i < s.len() && s[i] == c,
{
    choose|i: int| 0 <= i < s.len() && s[i] == c && forall|j: int| 0 <= j < i ==> s[j] != c
}

/// Finds the first occurrence of `c` in `v`.
pub fn find_char(v: &Vec<char>, c: char) -> (r: Option<usize>)
    ensures
        match r {
            Some(i) => i < v@.len() && v@[i as int] == c && forall|j: int| 0 <= j < i ==> v@[j] != c,
            None => forall|j: int| 0 <= j < v@.len() ==> v@[j] != c,
        },
{
    let mut i: usize = 0;
    while i < v.len()
        invariant
            i <= v@.len(),
            forall|j: int| 0 <= j < i ==> v@[j] != c,
        decreases v@.len() - i,
    {
        if v[i] == c {
            return Some(i);
        }
        i = i + 1;
    }
    None
}

/// The first occurrence is unique.
pub proof fn lemma_first_index(s: Seq<char>, c: char, i: int)
    requires
        0 <= i < s.len(),
        s[i] == c,
        forall|j: int| 0 <= j < i ==> s[j] != c,
    ensures
        first_index(s, c) == i,
{
    let k = first_index(s, c);
    assert(0 <= k < s.len() && s[k] == c && forall|j: int| 0 <= j < k ==> s[j] != c);
    if k < i {
        assert(s[k] != c);
    }
    if i < k {
        assert(s[i] != c);
    }
}

/// Splits `s` at the first `sep`, as `str::splitn(2, sep)` does.
pub fn splitn2_str<'a>(s: &'a str, sep: char) -> (r: Vec<&'a str>)
    ensures
        r@.len() == splitn2_spec(s@, sep).len(),
        forall|i: int| 0 <= i < r@.len() ==> #[trigger] r@[i]@ == splitn2_spec(s@, sep)[i],
{
    let v = chars_of(s);
    let n = v.len();
    let mut r: Vec<&'a str> = Vec::new();
    match find_char(&v, sep) {
        Some(i) => {
            proof { lemma_first_index(s@, sep, i as int); }
            r.push(s.substring_char(0, i));
            r.push(s.substring_char(i + 1, n));
        },
        None => {
            r.push(s);
        },
    }
    r
}

/// Whether `s` starts with `c`.
pub open spec fn starts_with(s: Seq<char>, c: char) -> bool {
    s.len() > 0 && s[0] == c
}


/// An optional string taken by its characters.
pub open spec fn opt_view(o: Option<String>) -> Option<Seq<char>> {
    match o {
        Some(s) => Some(s@),
        None => None,
    }
}

/// Copies an optional string.
pub fn clone_opt(o: &Option<String>) -> (r: Option<String>)
    ensures
        opt_view(r) == opt_view(*o),
{
    match o {
        Some(s) => Some(s.clone()),
        None => None,
    }
}

/// An owned copy of a string slice.
pub fn owned(s: &str) -> (r: String)
    ensures
        r@ == s@,
{
    s.to_owned()
}


/// The number of characters of a string slice.
pub trait StrLen {
    fn char_len(&self) -> usize;
}

impl StrLen for str {
    fn char_len(&self) -> (n: usize)
        ensures
            n == self@.len(),
    {
        self.unicode_len()
    }
}


/// Splitting around a separator splits each side.
pub proof fn lemma_split_concat(x: Seq<char>, y: Seq<char>, sep: char)
    ensures
        split_spec(x + seq![sep] + y, sep) == split_spec(x, sep) + split_spec(y, sep),
    decreases y.len(),
{
    lemma_split_nonempty(x, sep);
    if y.len() == 0 {
        assert((x + seq![sep] + y).drop_last() =~= x);
        assert(split_spec(x, sep).push(Seq::<char>::empty()) =~= split_spec(x, sep) + seq![Seq::<char>::empty()]);
    } else {
        let y1 = y.drop_last();
        lemma_split_concat(x, y1, sep);
        lemma_split_nonempty(y1, sep);
        let whole = x + seq![sep] + y;
        assert(whole.drop_last() =~= x + seq![sep] + y1);
        assert(whole.last() == y.last());
        let a = split_spec(x, sep);
        let b = split_spec(y1, sep);
        if y.last() == sep {
            assert((a + b).push(Seq::<char>::empty()) =~= a + b.push(Seq::<char>::empty()));
        } else {
            assert((a + b).update((a + b).len() - 1, (a + b).last().push(y.last()))
                =~= a + b.update(b.len() - 1, b.last().push(y.last())));
        }
    }
}

/// A string without the separator is a single piece.
pub proof fn lemma_split_free(x: Seq<char>, sep: char)
    requires
        forall|i: int| 0 <= i < x.len() ==> x[i] != sep,
    ensures
        split_spec(x, sep) == seq![x],
    decreases x.len(),
{
    if x.len() > 0 {
        lemma_split_free(x.drop_last(), sep);
        assert(x.drop_last().push(x.last()) =~= x);
        assert(x.last() != sep);
        assert(seq![x.drop_last()].update(0, x) =~= seq![x]);
    } else {
        assert(x =~= Seq::<char>::empty());
    }
}

proof fn lemma_digit_char(d: nat)
    requires
        d < 10,
    ensures
        is_digit(digit_char(d)),
        digit_value(digit_char(d)) == d,
{
}

/// The decimal digits of a number are digits, are not empty, and have its value.
pub proof fn lemma_dec_digits(n: nat)
    ensures
        dec_digits(n).len() > 0,
        all_digits(dec_digits(n)),
        digits_value(dec_digits(n)) == n,
    decreases n,
{
    lemma_digit_char(n % 10);
    if n >= 10 {
        lemma_dec_digits(n / 10);
        let s = dec_digits(n);
        assert(s.drop_last() =~= dec_digits(n / 10));
        assert(s.last() == digit_char(n % 10));
        assert(digits_value(s) == digits_value(dec_digits(n / 10)) * 10 + digit_value(digit_char(n % 10)));
        assert((n / 10) * 10 + n % 10 == n);
        assert forall|i: int| 0 <= i < s.len() implies is_digit(#[trigger] s[i]) by {
            if i < s.len() - 1 {
                assert(s[i] == dec_digits(n / 10)[i]);
            }
        }
    } else {
        let s = dec_digits(n);
        assert(s.drop_last() =~= Seq::<char>::empty());
        assert(digits_value(s) == digits_value(s.drop_last()) * 10 + digit_value(s.last()));
    }
}

/// Digits hold no character other than digits.
pub proof fn lemma_digits_free(n: nat, c: char)
    requires
        !is_digit(c),
    ensures
        forall|i: int| 0 <= i < dec_digits(n).len() ==> dec_digits(n)[i] != c,
{
    lemma_dec_digits(n);
}

/// Parsing the decimal rendering of a number gives the number back.
pub proof fn lemma_parse_dec_digits(n: nat)
    ensures
        unsigned_of(dec_digits(n)) == Some(n),
{
    lemma_dec_digits(n);
    assert(is_digit(dec_digits(n)[0]));
}

/// Parsing the decimal rendering of an `i64` gives it back.
pub proof fn lemma_parse_int_str(i: i64)
    ensures
        parse_i64_spec(int_str(i as int)) == Some(i),
{
    if i < 0 {
        let m = (-(i as int)) as nat;
        lemma_dec_digits(m);
        let s = int_str(i as int);
        assert(s.drop_first() =~= dec_digits(m));
    } else {
        lemma_parse_dec_digits(i as nat);
        lemma_dec_digits(i as nat);
        assert(is_digit(dec_digits(i as nat)[0]));
    }
}


/// Joins string slices with a separator between consecutive ones, as `[&str]::join` does.
pub fn join_strs(parts: &[&str], sep: char) -> (r: String)
    ensures
        r@ == join_spec(parts@.map_values(|v: &str| v@), sep),
{
    let ghost views = parts@.map_values(|v: &str| v@);
    let mut r = String::new();
    let mut i: usize = 0;
    while i < parts.len()
        invariant
            i <= parts@.len(),
            views == parts@.map_values(|v: &str| v@),
            r@ == join_spec(views.subrange(0, i as int), sep),
        decreases parts@.len() - i,
    {
        let ghost before = r@;
        if i != 0 {
            push_char(&mut r, sep);
        }
        r.append(parts[i]);
        assert(views.subrange(0, i + 1).drop_last() =~= views.subrange(0, i as int));
        assert(views.subrange(0, i + 1).last() == parts@[i as int]@);
        i = i + 1;
        if i > 1 {
            assert(r@ =~= join_spec(views.subrange(0, i - 1), sep) + seq![sep] + parts@[i - 1]@);
        } else {
            assert(r@ =~= parts@[0]@);
        }
    }
    assert(views.subrange(0, parts@.len() as int) =~= views);
    r
}

/// The lowercase of an ASCII capital letter; any other character unchanged.
pub open spec fn ascii_lower(c: char) -> char {
    if 'A' <= c && c <= 'Z' {
        ((c as u32) + 32) as char
    } else {
        c
    }
}

/// The string with its ASCII capital letters made lowercase.
pub open spec fn lower_seq(s: Seq<char>) -> Seq<char> {
    s.map_values(|c: char| ascii_lower(c))
}

/// The string without a leading '+' or '-'.
pub open spec fn unsigned_part(s: Seq<char>) -> Seq<char> {
    if s.len() > 0 && (s[0] == '+' || s[0] == '-') {
        s.drop_first()
    } else {
        s
    }
}

/// Decimal digits with at most one '.' among them, and at least one digit.
pub open spec fn is_mantissa(m: Seq<char>) -> bool {
    &&& forall|i: int| 0 <= i < m.len() ==> is_digit(#[trigger] m[i]) || m[i] == '.'
    &&& forall|i: int, j: int| 0 <= i < j < m.len() ==> !(#[trigger] m[i] == '.' && #[trigger] m[j] == '.')
    &&& exists|i: int| 0 <= i < m.len() && is_digit(#[trigger] m[i])
}

/// An optional sign, then at least one decimal digit.
pub open spec fn is_exponent(x: Seq<char>) -> bool {
    let y = unsigned_part(x);
    y.len() > 0 && all_digits(y)
}

/// A decimal number: a mantissa, then optionally 'e' or 'E' and an exponent.
pub open spec fn is_number(s: Seq<char>) -> bool {
    ||| is_mantissa(s)
    ||| exists|i: int| 0 <= i < s.len() && ascii_lower(#[trigger] s[i]) == 'e' && is_mantissa(s.take(i)) && is_exponent(s.skip(i + 1))
}

/// Whether `s` is in the syntax that Rust's `FromStr` for `f64` accepts: an optional sign,
/// then "inf", "infinity" or "nan" in any case, or a decimal number.
pub open spec fn float_syntax(s: Seq<char>) -> bool {
    let body = unsigned_part(s);
    ||| lower_seq(body) == "inf"@
    ||| lower_seq(body) == "infinity"@
    ||| lower_seq(body) == "nan"@
    ||| is_number(body)
}

/// The lowercase of an ASCII capital letter.
fn lower_char(c: char) -> (r: char)
    ensures
        r == ascii_lower(c),
{
    if 'A' <= c && c <= 'Z' {
        let code: u32 = c as u32;
        char_from_u32(code + 32)
    } else {
        c
    }
}

/// Whether `v[lo..]` made lowercase is `word`.
fn lower_equals(v: &Vec<char>, lo: usize, word: &str) -> (b: bool)
    requires
        lo <= v@.len(),
    ensures
        b == (lower_seq(v@.subrange(lo as int, v@.len() as int)) == word@),
{
    let ghost t = v@.subrange(lo as int, v@.len() as int);
    let n = word.unicode_len();
    if v.len() - lo != n {
        assert(lower_seq(t).len() != word@.len());
        return false;
    }
    let mut i: usize = 0;
    while i < n
        invariant
            n == word@.len(),
            t == v@.subrange(lo as int, v@.len() as int),
            t.len() == n,
            lo + n == v.len(),
            i <= n,
            forall|k: int| 0 <= k < i ==> lower_seq(t)[k] == word@[k],
        decreases n - i,
    {
        if lower_char(v[lo + i]) != word.get_char(i) {
            assert(lower_seq(t)[i as int] != word@[i as int]);
            return false;
        }
        i = i + 1;
    }
    assert(lower_seq(t) =~= word@);
    true
}

/// Whether `v[lo..hi]` is a mantissa.
fn mantissa_in(v: &Vec<char>, lo: usize, hi: usize) -> (b: bool)
    requires
        lo <= hi <= v@.len(),
    ensures
        b == is_mantissa(v@.subrange(lo as int, hi as int)),
{
    let ghost m = v@.subrange(lo as int, hi as int);
    let mut seen_dot = false;
    let mut seen_digit = false;
    let mut i: usize = lo;
    while i < hi
        invariant
            lo <= i <= hi <= v@.len(),
            m == v@.subrange(lo as int, hi as int),
            forall|k: int| 0 <= k < i - lo ==> is_digit(#[trigger] m[k]) || m[k] == '.',
            forall|k: int, l: int| 0 <= k < l < i - lo ==> !(#[trigger] m[k] == '.' && #[trigger] m[l] == '.'),
            seen_dot <==> exists|k: int| 0 <= k < i - lo && #[trigger] m[k] == '.',
            seen_digit <==> exists|k: int| 0 <= k < i - lo && is_digit(#[trigger] m[k]),
        decreases hi - i,
    {
        let c = v[i];
        assert(m[i - lo] == c);
        if '0' <= c && c <= '9' {
            seen_digit = true;
        } else if c == '.' {
            if seen_dot {
                let ghost k = choose|k: int| 0 <= k < i - lo && #[trigger] m[k] == '.';
                assert(m[k] == '.' && m[i - lo] == '.');
                return false;
            }
            seen_dot = true;
        } else {
            assert(!(is_digit(m[i - lo]) || m[i - lo] == '.'));
            return false;
        }
        i = i + 1;
    }
    seen_digit
}

/// Whether `v[lo..]` is an exponent.
fn exponent_in(v: &Vec<char>, lo: usize) -> (b: bool)
    requires
        lo <= v@.len(),
    ensures
        b == is_exponent(v@.subrange(lo as int, v@.len() as int)),
{
    let ghost x = v@.subrange(lo as int, v@.len() as int);
    let mut start = lo;
    if lo < v.len() && (v[lo] == '+' || v[lo] == '-') {
        start = lo + 1;
    }
    let ghost y = unsigned_part(x);
    assert(y =~= v@.subrange(start as int, v@.len() as int));
    if start == v.len() {
        assert(y.len() == 0);
        assert(!is_exponent(x));
        return false;
    }
    let mut i: usize = start;
    while i < v.len()
        invariant
            start < v@.len(),
            start <= i <= v@.len(),
            x == v@.subrange(lo as int, v@.len() as int),
            y == unsigned_part(x),
            y == v@.subrange(start as int, v@.len() as int),
            forall|k: int| 0 <= k < i - start ==> is_digit(#[trigger] y[k]),
        decreases v@.len() - i,
    {
        if !('0' <= v[i] && v[i] <= '9') {
            assert(!is_digit(y[i - start]));
            assert(!all_digits(y));
            return false;
        }
        i = i + 1;
    }
    assert(all_digits(y));
    true
}

/// Whether `s` is in the syntax that Rust's `FromStr` for `f64` accepts.
pub fn is_float_text(s: &str) -> (b: bool)
    ensures
        b == float_syntax(s@),
{
    let v = chars_of(s);
    let n = v.len();
    let mut lo: usize = 0;
    if n > 0 && (v[0] == '+' || v[0] == '-') {
        lo = 1;
    }
    let ghost body = unsigned_part(s@);
    assert(body =~= v@.subrange(lo as int, n as int));
    if lower_equals(&v, lo, "inf") || lower_equals(&v, lo, "infinity") || lower_equals(&v, lo, "nan") {
        return true;
    }
    let mut e: usize = lo;
    while e < n && !(v[e] == 'e' || v[e] == 'E')
        invariant
            lo <= e <= n,
            n == v@.len(),
            body == v@.subrange(lo as int, n as int),
            forall|k: int| 0 <= k < e - lo ==> ascii_lower(#[trigger] body[k]) != 'e',
        decreases n - e,
    {
        assert(ascii_lower(body[e - lo]) != 'e');
        e = e + 1;
    }
    if e == n {
        let r = mantissa_in(&v, lo, n);
        proof {
            assert forall|i: int| 0 <= i < body.len() implies ascii_lower(#[trigger] body[i]) != 'e' by {}
        }
        r
    } else {
        let ghost i = e - lo;
        assert(ascii_lower(body[i]) == 'e');
        assert(body.take(i) =~= v@.subrange(lo as int, e as int));
        assert(body.skip(i + 1) =~= v@.subrange(e + 1, n as int));
        let m = mantissa_in(&v, lo, e);
        let x = exponent_in(&v, e + 1);
        proof {
            if !is_mantissa(body) {
            } else {
                assert(!(is_digit(body[i]) || body[i] == '.'));
            }
            assert forall|j: int| 0 <= j < body.len() && ascii_lower(#[trigger] body[j]) == 'e' && is_mantissa(body.take(j))
                && is_exponent(body.skip(j + 1)) implies j == i by {
                if j > i {
                    assert(body.take(j)[i] == body[i]);
                    assert(!(is_digit(body.take(j)[i]) || body.take(j)[i] == '.'));
                }
            }
        }
        m && x
    }
}

/// The topic made of the given levels.
pub open spec fn topic(levels: Seq<Seq<char>>) -> Seq<char> {
    join_spec(levels, '/')
}

/// The topic made of two levels.
pub fn topic2(a: &str, b: &str) -> (t: String)
    ensures
        t@ == topic(seq![a@, b@]),
{
    let levels: [&str; 2] = [a, b];
    let t = join_strs(&levels, '/');
    assert(levels@.map_values(|v: &str| v@) =~= seq![a@, b@]);
    t
}

/// The topic made of three levels.
pub fn topic3(a: &str, b: &str, c: &str) -> (t: String)
    ensures
        t@ == topic(seq![a@, b@, c@]),
{
    let levels: [&str; 3] = [a, b, c];
    let t = join_strs(&levels, '/');
    assert(levels@.map_values(|v: &str| v@) =~= seq![a@, b@, c@]);
    t
}

/// The topic made of four levels.
pub fn topic4(a: &str, b: &str, c: &str, d: &str) -> (t: String)
    ensures
        t@ == topic(seq![a@, b@, c@, d@]),
{
    let levels: [&str; 4] = [a, b, c, d];
    let t = join_strs(&levels, '/');
    assert(levels@.map_values(|v: &str| v@) =~= seq![a@, b@, c@, d@]);
    t
}

/// The topic made of five levels.
pub fn topic5(a: &str, b: &str, c: &str, d: &str, e: &str) -> (t: String)
    ensures
        t@ == topic(seq![a@, b@, c@, d@, e@]),
{
    let levels: [&str; 5] = [a, b, c, d, e];
    let t = join_strs(&levels, '/');
    assert(levels@.map_values(|v: &str| v@) =~= seq![a@, b@, c@, d@, e@]);
    t
}

/// The topic prefix of everything under the base topic.
pub open spec fn base_prefix(base: Seq<char>) -> Seq<char> {
    base.push('/')
}

/// The text that the bytes encode, if they are valid UTF-8 (std's `str::from_utf8`). Trusted:
/// that std's notion of valid UTF-8 and its decoding are vstd's `valid_utf8` and `decode_utf8`.
#[verifier::external_body]
pub(crate) fn utf8_text(bytes: &[u8]) -> (r: Option<&str>)
    ensures
        match r {
            Some(s) => valid_utf8(bytes@) && s@ == decode_utf8(bytes@),
            None => !valid_utf8(bytes@),
        },
{
    match std::str::from_utf8(bytes) {
        Ok(s) => Some(s),
        Err(_) => None,
    }
}

/// The part of `t` after the base topic and '/', if `t` starts with them.
pub fn strip_base<'a>(t: &'a str, base: &str) -> (r: Option<&'a str>)
    ensures
        match r {
            Some(sub) => base_prefix(base@).len() <= t@.len() && t@.take(base_prefix(base@).len() as int) == base_prefix(base@)
                && sub@ == t@.skip(base_prefix(base@).len() as int),
            None => !(base_prefix(base@).len() <= t@.len() && t@.take(base_prefix(base@).len() as int) == base_prefix(base@)),
        },
{
    let ghost prefix = base_prefix(base@);
    let n = t.unicode_len();
    let m = base.unicode_len();
    if m >= n {
        return None;
    }
    let mut i: usize = 0;
    while i < m
        invariant
            n == t@.len(),
            m == base@.len(),
            m < n,
            i <= m,
            prefix == base_prefix(base@),
            forall|k: int| 0 <= k < i ==> t@[k] == base@[k],
        decreases m - i,
    {
        if t.get_char(i) != base.get_char(i) {
            assert(t@.take(prefix.len() as int)[i as int] != prefix[i as int]);
            return None;
        }
        i = i + 1;
    }
    if t.get_char(m) != '/' {
        assert(t@.take(prefix.len() as int)[m as int] != prefix[m as int]);
        return None;
    }
    assert(t@.take(prefix.len() as int) =~= prefix);
    Some(t.substring_char(m + 1, n))
}

} // verus!
