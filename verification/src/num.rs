//! Integers as text: fixed-width hexadecimal, decimal, and the parsing of
//! unsigned integers as `u64::from_str_radix` does it.
use vstd::prelude::*;
use crate::text::{char_from_ascii, is_white_space, string_from, string_of, trim, trim_chars, trim_end, trim_start};

verus! {

/// The digit character for `d < 16`, in lower or upper case.
pub open spec fn hex_char(d: nat, upper: bool) -> char {
    if d < 10 {
        (48 + d) as char
    } else if upper {
        (55 + d) as char
    } else {
        (87 + d) as char
    }
}

/// The `n` lowest hexadecimal digits of `v`, most significant first.
pub open spec fn hex_fixed(v: nat, n: nat, upper: bool) -> Seq<char>
    decreases n,
{
    if n == 0 {
        Seq::empty()
    } else {
        hex_fixed(v / 16, (n - 1) as nat, upper).push(hex_char(v % 16, upper))
    }
}

/// `format!("0x{v:016x}")`: `0x` and sixteen lower-case hexadecimal digits.
pub open spec fn spec_hex_u64(v: u64) -> Seq<char> {
    seq!['0', 'x'] + hex_fixed(v as nat, 16, false)
}

/// The decimal digits of `v` without leading zeros (`"0"` for zero).
pub open spec fn dec_digits(v: nat) -> Seq<char>
    decreases v,
{
    if v < 10 {
        seq![hex_char(v, false)]
    } else {
        dec_digits(v / 10).push(hex_char(v % 10, false))
    }
}

/// The digits of `v` in base 16 without leading zeros (`"0"` for zero).
pub open spec fn hex_min(v: nat, upper: bool) -> Seq<char>
    decreases v,
{
    if v < 16 {
        seq![hex_char(v, upper)]
    } else {
        hex_min(v / 16, upper).push(hex_char(v % 16, upper))
    }
}

/// The character for a digit below 16.
pub fn hex_digit(d: u64, upper: bool) -> (c: char)
    requires
        d < 16,
    ensures
        c == hex_char(d as nat, upper),
{
    if d < 10 {
        char_from_ascii((48 + d) as u8)
    } else if upper {
        char_from_ascii((55 + d) as u8)
    } else {
        char_from_ascii((87 + d) as u8)
    }
}

/// Appends the `n` lowest hexadecimal digits of `v`.
pub fn push_hex_fixed(out: &mut Vec<char>, v: u64, n: u32, upper: bool)
    ensures
        final(out)@ == old(out)@ + hex_fixed(v as nat, n as nat, upper),
    decreases n,
{
    if n > 0 {
        push_hex_fixed(out, v / 16, n - 1, upper);
        out.push(hex_digit(v % 16, upper));
        assert(out@ =~= old(out)@ + hex_fixed(v as nat, n as nat, upper));
    } else {
        assert(out@ =~= old(out)@ + hex_fixed(v as nat, n as nat, upper));
    }
}

/// Appends the decimal digits of `v`.
pub fn push_dec(out: &mut Vec<char>, v: u64)
    ensures
        final(out)@ == old(out)@ + dec_digits(v as nat),
    decreases v,
{
    if v < 10 {
        out.push(hex_digit(v, false));
        assert(out@ =~= old(out)@ + dec_digits(v as nat));
    } else {
        push_dec(out, v / 10);
        out.push(hex_digit(v % 10, false));
        assert(out@ =~= old(out)@ + dec_digits(v as nat));
    }
}

/// Appends the hexadecimal digits of `v` without leading zeros.
pub fn push_hex_min(out: &mut Vec<char>, v: u64, upper: bool)
    ensures
        final(out)@ == old(out)@ + hex_min(v as nat, upper),
    decreases v,
{
    if v < 16 {
        out.push(hex_digit(v, upper));
        assert(out@ =~= old(out)@ + hex_min(v as nat, upper));
    } else {
        push_hex_min(out, v / 16, upper);
        out.push(hex_digit(v % 16, upper));
        assert(out@ =~= old(out)@ + hex_min(v as nat, upper));
    }
}

/// Formats an address or register value as `0x` followed by sixteen
/// lower-case hexadecimal digits.
pub fn hex_u64(v: u64) -> (r: String)
    ensures
        r@ == spec_hex_u64(v),
{
    let mut out: Vec<char> = Vec::new();
    out.push('0');
    out.push('x');
    push_hex_fixed(&mut out, v, 16, false);
    assert(out@ =~= spec_hex_u64(v));
    string_of(&out)
}

/// The decimal text of `v`, as `v.to_string()`.
pub fn dec_u64(v: u64) -> (r: String)
    ensures
        r@ == dec_digits(v as nat),
{
    let mut out: Vec<char> = Vec::new();
    push_dec(&mut out, v);
    assert(out@ =~= dec_digits(v as nat));
    string_of(&out)
}

/// Why a text is not an unsigned integer (the kinds of `ParseIntError`
/// that parsing into `u64` can give).
#[derive(PartialEq, Eq, Structural, Clone, Copy, Debug)]
pub enum IntErrorKind {
    Empty,
    InvalidDigit,
    PosOverflow,
}

/// The message that `ParseIntError` displays for each kind.
pub open spec fn int_error_message(k: IntErrorKind) -> Seq<char> {
    match k {
        IntErrorKind::Empty => "cannot parse integer from empty string"@,
        IntErrorKind::InvalidDigit => "invalid digit found in string"@,
        IntErrorKind::PosOverflow => "number too large to fit in target type"@,
    }
}

/// The value of `c` as a digit in base 10 or 16.
pub open spec fn digit_value(c: char, radix: nat) -> Option<nat> {
    if '0' <= c <= '9' && (c as nat) - 48 < radix {
        Some(((c as nat) - 48) as nat)
    } else if radix == 16 && 'a' <= c <= 'f' {
        Some(((c as nat) - 87) as nat)
    } else if radix == 16 && 'A' <= c <= 'F' {
        Some(((c as nat) - 55) as nat)
    } else {
        None
    }
}

/// Reads the digits `ds` left to right on top of `acc`: the first character
/// that is no digit gives `InvalidDigit`, the first step past `u64::MAX`
/// gives `PosOverflow`.
pub open spec fn fold_digits(ds: Seq<char>, radix: nat, acc: nat) -> Result<nat, IntErrorKind>
    decreases ds.len(),
{
    if ds.len() == 0 {
        Ok(acc)
    } else {
        match digit_value(ds[0], radix) {
            None => Err(IntErrorKind::InvalidDigit),
            Some(d) => {
                let n = acc * radix + d;
                if n > u64::MAX {
                    Err(IntErrorKind::PosOverflow)
                } else {
                    fold_digits(ds.drop_first(), radix, n)
                }
            },
        }
    }
}

/// `u64::from_str_radix(s, radix)` for radix 10 or 16: an optional `+`,
/// then digits.
pub open spec fn spec_from_str_radix(s: Seq<char>, radix: nat) -> Result<u64, IntErrorKind> {
    if s.len() == 0 {
        Err(IntErrorKind::Empty)
    } else if (s[0] == '+' || s[0] == '-') && s.len() == 1 {
        Err(IntErrorKind::InvalidDigit)
    } else {
        let ds = if s[0] == '+' {
            s.drop_first()
        } else {
            s
        };
        match fold_digits(ds, radix, 0) {
            Ok(v) => Ok(v as u64),
            Err(e) => Err(e),
        }
    }
}

/// Whether `s` begins with `0x` or `0X`.
pub open spec fn has_hex_prefix(s: Seq<char>) -> bool {
    s.len() >= 2 && s[0] == '0' && (s[1] == 'x' || s[1] == 'X')
}

/// An integer in text: trimmed, then hexadecimal after `0x`/`0X`, else
/// decimal.
pub open spec fn spec_parse_u64_kind(s: Seq<char>) -> Result<u64, IntErrorKind> {
    let t = trim(s);
    if has_hex_prefix(t) {
        spec_from_str_radix(t.skip(2), 16)
    } else {
        spec_from_str_radix(t, 10)
    }
}

/// What `parse_u64_str` returns: the value, or the message of the error.
pub open spec fn spec_parse_u64_str(s: Seq<char>) -> Result<u64, Seq<char>> {
    match spec_parse_u64_kind(s) {
        Ok(v) => Ok(v),
        Err(k) => Err(int_error_message(k)),
    }
}

/// The message of an integer parse error.
pub fn int_error_text(k: IntErrorKind) -> (r: String)
    ensures
        r@ == int_error_message(k),
{
    match k {
        IntErrorKind::Empty => string_from("cannot parse integer from empty string"),
        IntErrorKind::InvalidDigit => string_from("invalid digit found in string"),
        IntErrorKind::PosOverflow => string_from("number too large to fit in target type"),
    }
}

/// The value of `c` as a digit, as `char::to_digit` for radix 10 or 16.
pub fn to_digit(c: char, radix: u64) -> (r: Option<u64>)
    requires
        radix == 10 || radix == 16,
    ensures
        match digit_value(c, radix as nat) {
            Some(d) => r == Some(d as u64),
            None => r is None,
        },
{
    if '0' <= c && c <= '9' && (c as u64) - 48 < radix {
        Some((c as u64) - 48)
    } else if radix == 16 && 'a' <= c && c <= 'f' {
        Some((c as u64) - 87)
    } else if radix == 16 && 'A' <= c && c <= 'F' {
        Some((c as u64) - 55)
    } else {
        None
    }
}

/// Parses `v[start..]` as `u64::from_str_radix` does.
pub fn from_str_radix_chars(v: &Vec<char>, start: usize, radix: u64) -> (r: Result<
    u64,
    IntErrorKind,
>)
    requires
        start <= v@.len(),
        radix == 10 || radix == 16,
    ensures
        r == spec_from_str_radix(v@.skip(start as int), radix as nat),
{
    let ghost s = v@.skip(start as int);
    let n = v.len();
    if start == n {
        return Err(IntErrorKind::Empty);
    }
    assert(s[0] == v@[start as int]);
    let first = v[start];
    if (first == '+' || first == '-') && n - start == 1 {
        return Err(IntErrorKind::InvalidDigit);
    }
    let mut i = if first == '+' {
        start + 1
    } else {
        start
    };
    let ghost ds = if first == '+' {
        s.drop_first()
    } else {
        s
    };
    assert(ds =~= v@.skip(i as int));
    let mut acc: u64 = 0;
    while i < n
        invariant
            start <= i <= n == v@.len(),
            radix == 10 || radix == 16,
            s == v@.skip(start as int),
            s.len() > 0,
            !((s[0] == '+' || s[0] == '-') && s.len() == 1),
            ds == (if s[0] == '+' {
                s.drop_first()
            } else {
                s
            }),
            fold_digits(ds, radix as nat, 0) == fold_digits(v@.skip(i as int), radix as nat, acc as nat),
        decreases n - i,
    {
        let ghost rest = v@.skip(i as int);
        assert(rest[0] == v@[i as int]);
        assert(rest.drop_first() =~= v@.skip(i + 1));
        let d = match to_digit(v[i], radix) {
            Some(d) => d,
            None => {
                return Err(IntErrorKind::InvalidDigit);
            },
        };
        let m = acc.checked_mul(radix);
        let next = match m {
            Some(m) => m.checked_add(d),
            None => None,
        };
        match next {
            Some(x) => {
                acc = x;
            },
            None => {
                assert(acc * radix + d > u64::MAX) by (nonlinear_arith)
                    requires
                        m is None ==> acc * radix > u64::MAX,
                        m matches Some(mm) ==> mm == acc * radix && mm + d > u64::MAX,
                ;
                return Err(IntErrorKind::PosOverflow);
            },
        }
        i = i + 1;
    }
    assert(v@.skip(n as int).len() == 0);
    Ok(acc)
}

/// Parses an integer given as text: surrounding white space is ignored,
/// `0x` or `0X` introduces hexadecimal, anything else is decimal.
pub fn parse_u64_kind(s: &str) -> (r: Result<u64, IntErrorKind>)
    ensures
        r == spec_parse_u64_kind(s@),
{
    let t = trim_chars(s);
    if t.len() >= 2 && t[0] == '0' && (t[1] == 'x' || t[1] == 'X') {
        from_str_radix_chars(&t, 2, 16)
    } else {
        let r = from_str_radix_chars(&t, 0, 10);
        assert(t@.skip(0) =~= t@);
        r
    }
}

/// Parses an integer given as text; an error is given as the message of
/// `ParseIntError`.
pub fn parse_u64_str(s: &str) -> (r: Result<u64, String>)
    ensures
        match spec_parse_u64_str(s@) {
            Ok(v) => r == Ok::<u64, String>(v),
            Err(m) => r matches Err(e) && e@ == m,
        },
{
    match parse_u64_kind(s) {
        Ok(v) => Ok(v),
        Err(k) => Err(int_error_text(k)),
    }
}

// ─── The address round trip ─────────────────────────────────────────────

pub open spec fn pow16(n: nat) -> nat
    decreases n,
{
    if n == 0 {
        1
    } else {
        16 * pow16((n - 1) as nat)
    }
}

proof fn lemma_fold_append(a: Seq<char>, b: Seq<char>, radix: nat, acc: nat)
    requires
        fold_digits(a, radix, acc) is Ok,
    ensures
        fold_digits(a + b, radix, acc) == fold_digits(b, radix, fold_digits(a, radix, acc)->Ok_0),
    decreases a.len(),
{
    if a.len() == 0 {
        assert(a + b =~= b);
    } else {
        assert((a + b).drop_first() =~= a.drop_first() + b);
        let d = digit_value(a[0], radix)->Some_0;
        lemma_fold_append(a.drop_first(), b, radix, acc * radix + d);
    }
}

proof fn lemma_hex_char_value(d: nat)
    requires
        d < 16,
    ensures
        digit_value(hex_char(d, false), 16) == Some(d),
        digit_value(hex_char(d, true), 16) == Some(d),
{
}

proof fn lemma_fold_hex_fixed(v: nat, n: nat, upper: bool)
    requires
        v < pow16(n),
        pow16(n) <= u64::MAX + 1,
    ensures
        fold_digits(hex_fixed(v, n, upper), 16, 0) == Ok::<nat, IntErrorKind>(v),
    decreases n,
{
    if n == 0 {
    } else {
        let q = v / 16;
        let r = v % 16;
        assert(v == 16 * q + r && r < 16) by (nonlinear_arith)
            requires
                q == v / 16,
                r == v % 16,
        ;
        assert(q < pow16((n - 1) as nat)) by (nonlinear_arith)
            requires
                v == 16 * q + r,
                v < 16 * pow16((n - 1) as nat),
                r >= 0,
        ;
        assert(pow16((n - 1) as nat) <= pow16(n));
        lemma_fold_hex_fixed(q, (n - 1) as nat, upper);
        lemma_hex_char_value(r);
        let tail = seq![hex_char(r, upper)];
        assert(hex_fixed(v, n, upper) =~= hex_fixed(q, (n - 1) as nat, upper) + tail);
        lemma_fold_append(hex_fixed(q, (n - 1) as nat, upper), tail, 16, 0);
        assert(tail.drop_first() =~= Seq::<char>::empty());
        assert(q * 16 + r == v) by (nonlinear_arith)
            requires
                v == 16 * q + r,
        ;
        assert(v <= u64::MAX);
        assert(fold_digits(tail.drop_first(), 16, v) == Ok::<nat, IntErrorKind>(v));
        assert(fold_digits(tail, 16, q) == Ok::<nat, IntErrorKind>(v));
    }
}

proof fn lemma_pow16_16()
    ensures
        pow16(16) == u64::MAX + 1,
{
    reveal_with_fuel(pow16, 17);
}

pub proof fn lemma_hex_fixed_len(v: nat, n: nat, upper: bool)
    ensures
        hex_fixed(v, n, upper).len() == n,
        forall|i: int|
            0 <= i < n ==> !is_white_space(#[trigger] hex_fixed(v, n, upper)[i]) && hex_fixed(v, n, upper)[i]
                != '"',
    decreases n,
{
    if n > 0 {
        lemma_hex_fixed_len(v / 16, (n - 1) as nat, upper);
    }
}

/// Parsing the text that `hex_u64` writes gives the value back.
pub proof fn lemma_parse_hex_u64(v: u64)
    ensures
        spec_parse_u64_str(spec_hex_u64(v)) == Ok::<u64, Seq<char>>(v),
{
    let s = spec_hex_u64(v);
    lemma_hex_fixed_len(v as nat, 16, false);
    assert(!is_white_space(s[0]));
    assert(trim_start(s) == s);
    assert(s.len() == 18);
    assert(s.last() == hex_fixed(v as nat, 16, false)[15]);
    assert(trim_end(s) == s);
    assert(trim(s) == s);
    assert(has_hex_prefix(s));
    assert(s.skip(2) =~= hex_fixed(v as nat, 16, false));
    lemma_pow16_16();
    lemma_fold_hex_fixed(v as nat, 16, false);
    let h = hex_fixed(v as nat, 16, false);
    assert(h[0] != '+' && h[0] != '-');
}

proof fn lemma_dec_digits_chars(v: nat)
    ensures
        dec_digits(v).len() >= 1,
        forall|i: int| 0 <= i < dec_digits(v).len() ==> '0' <= #[trigger] dec_digits(v)[i] <= '9',
    decreases v,
{
    if v >= 10 {
        lemma_dec_digits_chars(v / 10);
        let a = dec_digits(v / 10);
        let s = dec_digits(v);
        assert(s == a.push(hex_char(v % 10, false)));
        assert forall|i: int| 0 <= i < s.len() implies '0' <= #[trigger] s[i] <= '9' by {
            if i < a.len() {
                assert(s[i] == a[i]);
            }
        }
    }
}

proof fn lemma_dec_char_value(d: nat)
    requires
        d < 10,
    ensures
        digit_value(hex_char(d, false), 10) == Some(d),
{
}

proof fn lemma_fold_dec(v: nat)
    requires
        v <= u64::MAX,
    ensures
        fold_digits(dec_digits(v), 10, 0) == Ok::<nat, IntErrorKind>(v),
    decreases v,
{
    if v < 10 {
        let s = dec_digits(v);
        lemma_dec_char_value(v);
        assert(s.drop_first() =~= Seq::<char>::empty());
        assert(fold_digits(s.drop_first(), 10, v) == Ok::<nat, IntErrorKind>(v));
    } else {
        let q = v / 10;
        let r = v % 10;
        lemma_fold_dec(q);
        let tail = seq![hex_char(r, false)];
        assert(dec_digits(v) =~= dec_digits(q) + tail);
        lemma_fold_append(dec_digits(q), tail, 10, 0);
        assert(tail.drop_first() =~= Seq::<char>::empty());
        assert(q * 10 + r == v);
        lemma_dec_char_value(r);
        assert(fold_digits(tail.drop_first(), 10, v) == Ok::<nat, IntErrorKind>(v));
        assert(fold_digits(tail, 10, q) == Ok::<nat, IntErrorKind>(v));
    }
}

/// Parsing the decimal text of a value gives the value back, so backends
/// read decimal strings as well as the `0x` form.
pub proof fn lemma_parse_dec_u64(v: u64)
    ensures
        spec_parse_u64_str(dec_digits(v as nat)) == Ok::<u64, Seq<char>>(v),
        spec_from_str_radix(dec_digits(v as nat), 10) == Ok::<u64, IntErrorKind>(v),
        trim_start(dec_digits(v as nat)) == dec_digits(v as nat),
        trim_end(dec_digits(v as nat)) == dec_digits(v as nat),
        dec_digits(v as nat).len() >= 1,
        forall|i: int| 0 <= i < dec_digits(v as nat).len() ==> '0' <= #[trigger] dec_digits(v as nat)[i] <= '9',
{
    let s = dec_digits(v as nat);
    lemma_dec_digits_chars(v as nat);
    assert(!is_white_space(s[0]));
    assert(trim_start(s) == s);
    assert(!is_white_space(s.last()));
    assert(trim_end(s) == s);
    assert(trim(s) == s);
    assert(!has_hex_prefix(s)) by {
        if s.len() >= 2 {
            assert('0' <= s[1] <= '9');
        }
    }
    lemma_fold_dec(v as nat);
    assert(s[0] != '+' && s[0] != '-');
}


/// White space before and after a text that starts and ends with no white
/// space is what `trim` takes away.
proof fn lemma_trim_padded(pre: Seq<char>, x: Seq<char>, post: Seq<char>)
    requires
        forall|i: int| 0 <= i < pre.len() ==> is_white_space(#[trigger] pre[i]),
        forall|i: int| 0 <= i < post.len() ==> is_white_space(#[trigger] post[i]),
        x.len() > 0,
        !is_white_space(x[0]),
        !is_white_space(x.last()),
    ensures
        trim(pre + x + post) == x,
    decreases pre.len() + post.len(),
{
    if pre.len() > 0 {
        let s = pre + x + post;
        assert(s[0] == pre[0]);
        assert(s.drop_first() =~= pre.drop_first() + x + post);
        lemma_trim_padded(pre.drop_first(), x, post);
    } else if post.len() > 0 {
        let s = pre + x + post;
        assert(s =~= x + post);
        assert(!is_white_space(s[0]));
        assert(trim_start(s) == s);
        assert(s.last() == post.last());
        assert(s.drop_last() =~= pre + x + post.drop_last());
        lemma_trim_padded(pre, x, post.drop_last());
        assert(trim_start(s.drop_last()) == s.drop_last()) by {
            assert(s.drop_last()[0] == x[0]);
        }
    } else {
        let s = pre + x + post;
        assert(s =~= x);
    }
}

proof fn lemma_hex_min_chars(v: nat, upper: bool)
    ensures
        hex_min(v, upper).len() >= 1,
        forall|i: int|
            0 <= i < hex_min(v, upper).len() ==> {
                let c = #[trigger] hex_min(v, upper)[i];
                &&& !is_white_space(c)
                &&& c != '+'
                &&& c != '-'
            },
    decreases v,
{
    if v >= 16 {
        lemma_hex_min_chars(v / 16, upper);
        let a = hex_min(v / 16, upper);
        let s = hex_min(v, upper);
        assert forall|i: int| 0 <= i < s.len() implies {
            let c = #[trigger] s[i];
            &&& !is_white_space(c)
            &&& c != '+'
            &&& c != '-'
        } by {
            if i < a.len() {
                assert(s[i] == a[i]);
            }
        }
    }
}

proof fn lemma_fold_hex_min(v: nat, upper: bool)
    requires
        v <= u64::MAX,
    ensures
        fold_digits(hex_min(v, upper), 16, 0) == Ok::<nat, IntErrorKind>(v),
    decreases v,
{
    if v < 16 {
        let s = hex_min(v, upper);
        lemma_hex_char_value(v);
        assert(s.drop_first() =~= Seq::<char>::empty());
        assert(fold_digits(s.drop_first(), 16, v) == Ok::<nat, IntErrorKind>(v));
    } else {
        let q = v / 16;
        let r = v % 16;
        lemma_fold_hex_min(q, upper);
        let tail = seq![hex_char(r, upper)];
        assert(hex_min(v, upper) =~= hex_min(q, upper) + tail);
        lemma_fold_append(hex_min(q, upper), tail, 16, 0);
        assert(tail.drop_first() =~= Seq::<char>::empty());
        assert(q * 16 + r == v);
        lemma_hex_char_value(r);
        assert(fold_digits(tail.drop_first(), 16, v) == Ok::<nat, IntErrorKind>(v));
        assert(fold_digits(tail, 16, q) == Ok::<nat, IntErrorKind>(v));
    }
}

/// Every way the protocol writes an integer reads back: `parse_u64_str`
/// gives `v` for the text of `hex_u64(v)`, for the decimal digits of `v`,
/// and for `0x` or `0X` followed by the digits of `v` in base 16 (lower or
/// upper case, without leading zeros), each also with white space before
/// and after it.
pub proof fn law_parse_u64_round_trip(v: u64, x: char, upper: bool, pre: Seq<char>, post: Seq<char>)
    requires
        x == 'x' || x == 'X',
        forall|i: int| 0 <= i < pre.len() ==> is_white_space(#[trigger] pre[i]),
        forall|i: int| 0 <= i < post.len() ==> is_white_space(#[trigger] post[i]),
    ensures
        spec_parse_u64_str(pre + spec_hex_u64(v) + post) == Ok::<u64, Seq<char>>(v),
        spec_parse_u64_str(pre + dec_digits(v as nat) + post) == Ok::<u64, Seq<char>>(v),
        spec_parse_u64_str(pre + seq!['0', x] + hex_min(v as nat, upper) + post) == Ok::<u64, Seq<char>>(v),
{
    // The `0x` form that `hex_u64` writes.
    let h = spec_hex_u64(v);
    lemma_hex_fixed_len(v as nat, 16, false);
    assert(h.last() == hex_fixed(v as nat, 16, false)[15]);
    lemma_trim_padded(pre, h, post);
    lemma_trim_padded(Seq::empty(), h, Seq::empty());
    assert(Seq::<char>::empty() + h + Seq::<char>::empty() =~= h);
    lemma_parse_hex_u64(v);
    // Decimal digits.
    let d = dec_digits(v as nat);
    lemma_parse_dec_u64(v);
    assert(!is_white_space(d[0]) && !is_white_space(d.last())) by {
        assert('0' <= d[0] <= '9');
        assert('0' <= d[d.len() - 1] <= '9');
    }
    lemma_trim_padded(pre, d, post);
    lemma_trim_padded(Seq::empty(), d, Seq::empty());
    assert(Seq::<char>::empty() + d + Seq::<char>::empty() =~= d);
    // `0x`/`0X` and the shortest digits.
    let m = hex_min(v as nat, upper);
    let t = seq!['0', x] + m;
    lemma_hex_min_chars(v as nat, upper);
    assert(t.last() == m[m.len() - 1]);
    assert(pre + seq!['0', x] + m + post =~= pre + t + post);
    lemma_trim_padded(pre, t, post);
    assert(has_hex_prefix(t));
    assert(t.skip(2) =~= m);
    lemma_fold_hex_min(v as nat, upper);
    assert(m[0] != '+' && m[0] != '-');
    assert(spec_from_str_radix(m, 16) == Ok::<u64, IntErrorKind>(v));
}


// ─── The order of hexadecimal text ──────────────────────────────────────

/// Whether text `a` comes before text `b`: compared character by character
/// by code point, a proper prefix first, as `str` compares.
pub open spec fn chars_lt(a: Seq<char>, b: Seq<char>) -> bool
    decreases a.len(),
{
    if a.len() == 0 {
        b.len() > 0
    } else if b.len() == 0 {
        false
    } else if a[0] != b[0] {
        (a[0] as u32) < (b[0] as u32)
    } else {
        chars_lt(a.drop_first(), b.drop_first())
    }
}

/// Two texts of one length, each with one more character at its end.
proof fn lemma_chars_lt_push(p: Seq<char>, q: Seq<char>, x: char, y: char)
    requires
        p.len() == q.len(),
    ensures
        chars_lt(p.push(x), q.push(y)) == (chars_lt(p, q) || (p == q && (x as u32) < (y as u32))),
        (p.push(x) == q.push(y)) == (p == q && x == y),
    decreases p.len(),
{
    if p.push(x) == q.push(y) {
        assert(p.push(x).drop_last() =~= p);
        assert(q.push(y).drop_last() =~= q);
        assert(p.push(x).last() == x);
    }
    if p.len() == 0 {
        assert(p =~= q);
        assert(p.push(x).drop_first() =~= Seq::<char>::empty());
        assert(q.push(y).drop_first() =~= Seq::<char>::empty());
        assert(!chars_lt(Seq::<char>::empty(), Seq::<char>::empty()));
        assert(!chars_lt(p, q));
        assert(p.push(x)[0] == x && q.push(y)[0] == y);
    } else {
        assert(p.push(x)[0] == p[0]);
        assert(q.push(y)[0] == q[0]);
        if p[0] == q[0] {
            assert(p.push(x).drop_first() =~= p.drop_first().push(x));
            assert(q.push(y).drop_first() =~= q.drop_first().push(y));
            lemma_chars_lt_push(p.drop_first(), q.drop_first(), x, y);
            if p.drop_first() == q.drop_first() {
                assert(p =~= q) by {
                    assert forall|i: int| 0 <= i < p.len() implies p[i] == q[i] by {
                        if i > 0 {
                            assert(p[i] == p.drop_first()[i - 1]);
                            assert(q[i] == q.drop_first()[i - 1]);
                        }
                    }
                }
            }
        } else {
            assert(p != q);
        }
    }
}

/// Digits keep the order of their values, in either case.
proof fn lemma_hex_char_order(d1: nat, d2: nat, upper: bool)
    requires
        d1 < 16,
        d2 < 16,
    ensures
        (d1 < d2) == ((hex_char(d1, upper) as u32) < (hex_char(d2, upper) as u32)),
        (d1 == d2) == (hex_char(d1, upper) == hex_char(d2, upper)),
{
}

/// Fixed-width hexadecimal text keeps the order of the values it shows,
/// and tells them apart.
proof fn lemma_hex_fixed_order(a: nat, b: nat, n: nat, upper: bool)
    requires
        a < pow16(n),
        b < pow16(n),
    ensures
        (a < b) == chars_lt(hex_fixed(a, n, upper), hex_fixed(b, n, upper)),
        (a == b) == (hex_fixed(a, n, upper) == hex_fixed(b, n, upper)),
    decreases n,
{
    if n == 0 {
        assert(hex_fixed(a, 0, upper) =~= Seq::<char>::empty());
        assert(hex_fixed(b, 0, upper) =~= Seq::<char>::empty());
    } else {
        let qa = a / 16;
        let ra = a % 16;
        let qb = b / 16;
        let rb = b % 16;
        let m = (n - 1) as nat;
        assert(a == 16 * qa + ra && ra < 16) by (nonlinear_arith)
            requires
                qa == a / 16,
                ra == a % 16,
        ;
        assert(b == 16 * qb + rb && rb < 16) by (nonlinear_arith)
            requires
                qb == b / 16,
                rb == b % 16,
        ;
        assert(qa < pow16(m)) by (nonlinear_arith)
            requires
                a == 16 * qa + ra,
                a < 16 * pow16(m),
                ra >= 0,
        ;
        assert(qb < pow16(m)) by (nonlinear_arith)
            requires
                b == 16 * qb + rb,
                b < 16 * pow16(m),
                rb >= 0,
        ;
        lemma_hex_fixed_order(qa, qb, m, upper);
        lemma_hex_fixed_len(qa, m, upper);
        lemma_hex_fixed_len(qb, m, upper);
        lemma_chars_lt_push(hex_fixed(qa, m, upper), hex_fixed(qb, m, upper), hex_char(ra, upper), hex_char(rb, upper));
        lemma_hex_char_order(ra, rb, upper);
        assert((a < b) == (qa < qb || (qa == qb && ra < rb))) by (nonlinear_arith)
            requires
                a == 16 * qa + ra,
                b == 16 * qb + rb,
                0 <= ra < 16,
                0 <= rb < 16,
                qa >= 0,
                qb >= 0,
        ;
    }
}

/// Every character after the `0x` of fixed-width lower-case hexadecimal
/// text is a digit or a letter `a` to `f`.
proof fn lemma_hex_fixed_digits(v: nat, n: nat)
    ensures
        forall|i: int|
            0 <= i < n ==> {
                let c = #[trigger] hex_fixed(v, n, false)[i];
                ('0' <= c <= '9') || ('a' <= c <= 'f')
            },
    decreases n,
{
    if n > 0 {
        lemma_hex_fixed_digits(v / 16, (n - 1) as nat);
        lemma_hex_fixed_len(v / 16, (n - 1) as nat, false);
        let p = hex_fixed(v / 16, (n - 1) as nat, false);
        assert forall|i: int| 0 <= i < n implies {
            let c = #[trigger] hex_fixed(v, n, false)[i];
            ('0' <= c <= '9') || ('a' <= c <= 'f')
        } by {
            if i < n - 1 {
                assert(hex_fixed(v, n, false)[i] == p[i]);
            }
        }
    }
}

/// The text of `hex_u64` is 18 characters, `0x` and sixteen lower-case
/// hexadecimal digits, and it keeps the order of the values: `a < b` exactly
/// when the text of `a` comes first, so no two values share a text.
pub proof fn law_hex_u64_order(a: u64, b: u64)
    ensures
        spec_hex_u64(a).len() == 18,
        spec_hex_u64(a)[0] == '0' && spec_hex_u64(a)[1] == 'x',
        forall|i: int| 2 <= i < 18 ==> {
            let c = #[trigger] spec_hex_u64(a)[i];
            ('0' <= c <= '9') || ('a' <= c <= 'f')
        },
        (a < b) == chars_lt(spec_hex_u64(a), spec_hex_u64(b)),
        (a == b) == (spec_hex_u64(a) == spec_hex_u64(b)),
{
    lemma_pow16_16();
    lemma_hex_fixed_len(a as nat, 16, false);
    lemma_hex_fixed_len(b as nat, 16, false);
    lemma_hex_fixed_digits(a as nat, 16);
    lemma_hex_fixed_order(a as nat, b as nat, 16, false);
    let ha = hex_fixed(a as nat, 16, false);
    let hb = hex_fixed(b as nat, 16, false);
    let sa = spec_hex_u64(a);
    let sb = spec_hex_u64(b);
    assert forall|i: int| 2 <= i < 18 implies {
        let c = #[trigger] sa[i];
        ('0' <= c <= '9') || ('a' <= c <= 'f')
    } by {
        assert(sa[i] == ha[i - 2]);
    }
    assert(sa.drop_first().drop_first() =~= ha);
    assert(sb.drop_first().drop_first() =~= hb);
    assert(sa.drop_first()[0] == 'x' && sb.drop_first()[0] == 'x');
    assert(chars_lt(sa, sb) == chars_lt(sa.drop_first(), sb.drop_first()));
    assert(chars_lt(sa.drop_first(), sb.drop_first()) == chars_lt(ha, hb));
    if sa == sb {
        assert(ha == hb);
    }
}

} // verus!
