//! The logic of the Windows debug-API backend that does not touch the
//! operating system: reading hex text and search patterns, scanning memory
//! for a pattern, naming exceptions and memory regions, the register file,
//! the software-breakpoint table and the JSON of debug events.
use iced_x86::{Decoder, DecoderOptions, Formatter, NasmFormatter};
use std::collections::HashMap;
use vstd::prelude::*;
use vstd::std_specs::iter::IteratorSpec;
use vstd::utf8::encode_utf8;
use crate::num::{IntErrorKind, from_str_radix_chars, int_error_message, int_error_text, spec_from_str_radix};
use crate::json::{Json, JsonValue, lemma_object_view, lemma_array_view, new_fields, new_items, push_field, push_item, jstr};
use crate::num::spec_hex_u64;
use crate::protocol::jhex;
use crate::text::{char_from_ascii, chars_of, is_white_space, is_whitespace, push_char, string_from};

verus! {

broadcast use vstd::std_specs::hash::group_hash_axioms;

// ─── Hex text ───────────────────────────────────────────────────────────

/// `s` without its white-space characters.
pub open spec fn drop_ws(s: Seq<char>) -> Seq<char>
    decreases s.len(),
{
    if s.len() == 0 {
        Seq::empty()
    } else if is_white_space(s.last()) {
        drop_ws(s.drop_last())
    } else {
        drop_ws(s.drop_last()).push(s.last())
    }
}

/// What reading hex text gives: the bytes, an error message, or a panic of
/// the slicing (a two-byte window that cuts a character).
pub enum HexParse {
    Bytes(Seq<u8>),
    Error(Seq<char>),
    Panic,
}

/// Whether byte offset `i` of a UTF-8 text starts a character (or is its
/// end), as `str::is_char_boundary`.
pub open spec fn str_boundary(b: Seq<u8>, i: int) -> bool {
    i == 0 || i == b.len() || (0 < i < b.len() && (b[i] < 0x80 || b[i] >= 0xC0))
}

/// `u8::from_str_radix(s, 16)` of the two-byte text `b0 b1`: two ASCII
/// characters read as hexadecimal; a text holding anything else has no
/// hexadecimal digit.
pub open spec fn pair_value(b0: u8, b1: u8) -> Result<u8, IntErrorKind> {
    if b0 < 0x80 && b1 < 0x80 {
        match spec_from_str_radix(seq![b0 as char, b1 as char], 16) {
            Ok(v) => if v <= 255 {
                Ok(v as u8)
            } else {
                Err(IntErrorKind::PosOverflow)
            },
            Err(k) => Err(k),
        }
    } else {
        Err(IntErrorKind::InvalidDigit)
    }
}

/// The bytes of the two-byte windows of `b` from offset `i` on.
pub open spec fn hex_pairs_from(b: Seq<u8>, i: int) -> HexParse
    decreases b.len() - i,
{
    if i < 0 || i + 2 > b.len() {
        HexParse::Bytes(Seq::empty())
    } else if !str_boundary(b, i) || !str_boundary(b, i + 2) {
        HexParse::Panic
    } else {
        match pair_value(b[i], b[i + 1]) {
            Err(k) => HexParse::Error(int_error_message(k)),
            Ok(v) => match hex_pairs_from(b, i + 2) {
                HexParse::Bytes(rest) => HexParse::Bytes(seq![v] + rest),
                other => other,
            },
        }
    }
}

/// What `parse_hex_bytes` gives for a text: white space is dropped, an odd
/// number of bytes is refused, and each two bytes read as one hex byte.
pub open spec fn parse_hex_spec(s: Seq<char>) -> HexParse {
    let b = encode_utf8(drop_ws(s));
    if b.len() % 2 != 0 {
        HexParse::Error("hex length must be even"@)
    } else {
        hex_pairs_from(b, 0)
    }
}

pub open spec fn prepend_bytes(p: Seq<u8>, h: HexParse) -> HexParse {
    match h {
        HexParse::Bytes(r) => HexParse::Bytes(p + r),
        other => other,
    }
}

/// The characters of `s` that are not white space.
fn strip_ws(s: &str) -> (r: String)
    ensures
        r@ == drop_ws(s@),
{
    let v = chars_of(s);
    let mut out = String::new();
    let mut i: usize = 0;
    while i < v.len()
        invariant
            i <= v@.len(),
            v@ == s@,
            out@ == drop_ws(v@.take(i as int)),
        decreases v@.len() - i,
    {
        assert(v@.take(i + 1).drop_last() =~= v@.take(i as int));
        if !is_whitespace(v[i]) {
            push_char(&mut out, v[i]);
        }
        i = i + 1;
    }
    assert(v@.take(v@.len() as int) =~= v@);
    out
}

/// Reads text of hexadecimal byte pairs, white space ignored.
pub fn parse_hex_bytes(s: &str) -> (r: Result<Vec<u8>, String>)
    requires
        !(parse_hex_spec(s@) is Panic),
    ensures
        match parse_hex_spec(s@) {
            HexParse::Bytes(v) => r matches Ok(x) && x@ == v,
            HexParse::Error(m) => r matches Err(e) && e@ == m,
            HexParse::Panic => false,
        },
{
    let clean = strip_ws(s);
    let b = clean.as_str().as_bytes();
    let n = b.len();
    if n % 2 != 0 {
        return Err(string_from("hex length must be even"));
    }
    let mut out: Vec<u8> = Vec::new();
    let mut i: usize = 0;
    while i < n
        invariant
            n == b@.len(),
            b@ == encode_utf8(drop_ws(s@)),
            n % 2 == 0,
            i % 2 == 0,
            i <= n,
            hex_pairs_from(b@, 0) == prepend_bytes(out@, hex_pairs_from(b@, i as int)),
            !(hex_pairs_from(b@, 0) is Panic),
        decreases n - i,
    {
        let b0 = b[i];
        let b1 = b[i + 1];
        let ok0 = i == 0 || b0 < 0x80 || b0 >= 0xC0;
        let ok2 = i + 2 == n || b[i + 2] < 0x80 || b[i + 2] >= 0xC0;
        if !ok0 || !ok2 {
            return Err(string_from("hex length must be even"));
        }
        if b0 >= 0x80 || b1 >= 0x80 {
            return Err(int_error_text(IntErrorKind::InvalidDigit));
        }
        let mut pair: Vec<char> = Vec::new();
        pair.push(char_from_ascii(b0));
        pair.push(char_from_ascii(b1));
        proof {
            assert(pair@ =~= seq![b0 as char, b1 as char]);
            assert(pair@.skip(0) =~= pair@);
        }
        match from_str_radix_chars(&pair, 0, 16) {
            Err(k) => {
                return Err(int_error_text(k));
            },
            Ok(v) => {
                if v > 255 {
                    return Err(int_error_text(IntErrorKind::PosOverflow));
                }
                let ghost prev = out@;
                out.push(v as u8);
                proof {
                    match hex_pairs_from(b@, i + 2) {
                        HexParse::Bytes(rest) => {
                            assert(prev + (seq![v as u8] + rest) =~= out@ + rest);
                        },
                        _ => {},
                    }
                }
            },
        }
        i = i + 2;
    }
    Ok(out)
}

/// Whether reading the hex text would cut a character in two, where the
/// slicing of the text panics: the case that `parse_hex_bytes` excludes.
pub fn hex_text_panics(s: &str) -> (r: bool)
    ensures
        r == (parse_hex_spec(s@) is Panic),
{
    let clean = strip_ws(s);
    let b = clean.as_str().as_bytes();
    let n = b.len();
    if n % 2 != 0 {
        return false;
    }
    let mut i: usize = 0;
    while i < n
        invariant
            n == b@.len(),
            b@ == encode_utf8(drop_ws(s@)),
            n % 2 == 0,
            i % 2 == 0,
            i <= n,
            (hex_pairs_from(b@, 0) is Panic) == (hex_pairs_from(b@, i as int) is Panic),
        decreases n - i,
    {
        let b0 = b[i];
        let b1 = b[i + 1];
        let ok0 = i == 0 || b0 < 0x80 || b0 >= 0xC0;
        let ok2 = i + 2 == n || b[i + 2] < 0x80 || b[i + 2] >= 0xC0;
        if !ok0 || !ok2 {
            return true;
        }
        if b0 >= 0x80 || b1 >= 0x80 {
            return false;
        }
        let mut pair: Vec<char> = Vec::new();
        pair.push(char_from_ascii(b0));
        pair.push(char_from_ascii(b1));
        proof {
            assert(pair@ =~= seq![b0 as char, b1 as char]);
            assert(pair@.skip(0) =~= pair@);
        }
        match from_str_radix_chars(&pair, 0, 16) {
            Err(_) => {
                return false;
            },
            Ok(v) => {
                if v > 255 {
                    return false;
                }
            },
        }
        i = i + 2;
    }
    false
}

// ─── Memory search ──────────────────────────────────────────────────────

/// `u8::from_str_radix(t, 16)`: the value when the text reads and fits.
pub open spec fn hex_byte_token(t: Seq<char>) -> Option<u8> {
    match spec_from_str_radix(t, 16) {
        Ok(v) => if v <= 255 {
            Some(v as u8)
        } else {
            None
        },
        Err(_) => None,
    }
}

/// The white-space separated words of `s`, in order (`split_whitespace`).
pub open spec fn words(s: Seq<char>) -> Seq<Seq<char>>
    decreases s.len(),
{
    let t = crate::text::trim_start(s);
    if t.len() == 0 {
        Seq::empty()
    } else {
        let n = crate::http::word_len(t);
        if n == 0 {
            Seq::empty()
        } else {
            proof {
                crate::text::lemma_trim_start_len(s);
                crate::http::lemma_word_len_le(t);
            }
            seq![t.take(n as int)] + words(t.skip(n as int))
        }
    }
}

/// What reading a search pattern gives: one entry per word, `None` for a
/// wildcard (`?` or `??`), or the message for the first word that is no
/// hex byte, or for an empty pattern.
pub open spec fn pattern_from(ws: Seq<Seq<char>>) -> Result<Seq<Option<u8>>, Seq<char>>
    decreases ws.len(),
{
    if ws.len() == 0 {
        Ok(Seq::empty())
    } else {
        let w = ws[0];
        let head: Result<Option<u8>, Seq<char>> = if w == "?"@ || w == "??"@ {
            Ok(None)
        } else {
            match hex_byte_token(w) {
                Some(b) => Ok(Some(b)),
                None => Err("Invalid pattern byte: "@ + w),
            }
        };
        match head {
            Err(e) => Err(e),
            Ok(x) => match pattern_from(ws.drop_first()) {
                Ok(rest) => Ok(seq![x] + rest),
                Err(e) => Err(e),
            },
        }
    }
}

pub open spec fn search_pattern_spec(s: Seq<char>) -> Result<Seq<Option<u8>>, Seq<char>> {
    match pattern_from(words(s)) {
        Ok(p) => if p.len() == 0 {
            Err("Empty pattern"@)
        } else {
            Ok(p)
        },
        Err(e) => Err(e),
    }
}

pub open spec fn prepend_pattern(acc: Seq<Option<u8>>, r: Result<Seq<Option<u8>>, Seq<char>>) -> Result<Seq<Option<u8>>, Seq<char>> {
    match r {
        Ok(rest) => Ok(acc + rest),
        Err(e) => Err(e),
    }
}

/// Reads a search pattern: white-space separated hex bytes, `?` or `??`
/// for any byte.
pub fn parse_search_pattern(s: &str) -> (r: Result<Vec<Option<u8>>, String>)
    ensures
        match search_pattern_spec(s@) {
            Ok(p) => r matches Ok(x) && x@ == p,
            Err(m) => r matches Err(e) && e@ == m,
        },
{
    let v = chars_of(s);
    let mut acc: Vec<Option<u8>> = Vec::new();
    let mut p: usize = 0;
    proof {
        assert(v@.skip(0) =~= v@);
        assert(acc@ + Seq::<Option<u8>>::empty() =~= acc@);
    }
    loop
        invariant
            p <= v@.len(),
            v@ == s@,
            pattern_from(words(v@)) == prepend_pattern(acc@, pattern_from(words(v@.skip(p as int)))),
        ensures
            pattern_from(words(v@)) == Ok::<Seq<Option<u8>>, Seq<char>>(acc@),
        decreases v@.len() - p,
    {
        let i = crate::http::skip_ws(&v, p);
        if i == v.len() {
            proof {
                assert(crate::text::trim_start(v@.skip(p as int)).len() == 0);
                assert(acc@ + Seq::<Option<u8>>::empty() =~= acc@);
            }
            break;
        }
        let j = crate::http::word_end(&v, i);
        let w = chars_of(crate::text::string_of_range(&v, i, j).as_str());
        proof {
            let t = v@.skip(i as int);
            assert(t[0] == v@[i as int]);
            assert(crate::http::word_len(t) > 0);
            assert(j > i);
            assert(t.take(j - i) =~= v@.subrange(i as int, j as int));
            assert(t.skip(j - i) =~= v@.skip(j as int));
            assert(crate::text::trim_start(v@.skip(p as int)) == t);
            assert(words(v@.skip(p as int)) == seq![w@] + words(v@.skip(j as int)));
            assert((seq![w@] + words(v@.skip(j as int))).drop_first() =~= words(v@.skip(j as int)));
            assert((seq![w@] + words(v@.skip(j as int)))[0] == w@);
        }
        let item: Option<u8> = if crate::text::chars_is(&w, "?") || crate::text::chars_is(&w, "??") {
            None
        } else {
            proof {
                assert(w@.skip(0) =~= w@);
            }
            match from_str_radix_chars(&w, 0, 16) {
                Ok(x) => {
                    if x > 255 {
                        let mut msg = string_from("Invalid pattern byte: ");
                        crate::text::append_chars(&mut msg, &w);
                        return Err(msg);
                    }
                    Some(x as u8)
                },
                Err(_) => {
                    let mut msg = string_from("Invalid pattern byte: ");
                    crate::text::append_chars(&mut msg, &w);
                    return Err(msg);
                },
            }
        };
        let ghost prev = acc@;
        acc.push(item);
        proof {
            match pattern_from(words(v@.skip(j as int))) {
                Ok(rest) => {
                    assert(prev + (seq![item] + rest) =~= acc@ + rest);
                },
                Err(_) => {},
            }
        }
        p = j;
    }
    if acc.len() == 0 {
        return Err(string_from("Empty pattern"));
    }
    Ok(acc)
}

/// Whether `pat` matches `buf` at offset `i`: every byte of the pattern that
/// is not a wildcard equals the byte of `buf` under it.
pub open spec fn matches_at(buf: Seq<u8>, pat: Seq<Option<u8>>, i: int) -> bool {
    &&& 0 <= i
    &&& i + pat.len() <= buf.len()
    &&& forall|j: int| 0 <= j < pat.len() ==> (#[trigger] pat[j] matches Some(b) ==> buf[i + j] == b)
}

/// The offsets below `k` where `pat` matches `buf`, in increasing order.
pub open spec fn match_offsets_below(buf: Seq<u8>, pat: Seq<Option<u8>>, k: int) -> Seq<int>
    decreases k,
{
    if k <= 0 {
        Seq::empty()
    } else {
        let r = match_offsets_below(buf, pat, k - 1);
        if matches_at(buf, pat, k - 1) {
            r.push(k - 1)
        } else {
            r
        }
    }
}

/// Every offset where `pat` matches `buf`, in increasing order.
pub open spec fn match_offsets(buf: Seq<u8>, pat: Seq<Option<u8>>) -> Seq<int> {
    match_offsets_below(buf, pat, buf.len() - pat.len() + 1)
}

/// The addresses, as text, of the matches of `pat` in `buf` read at `at`.
pub open spec fn match_addrs(buf: Seq<u8>, pat: Seq<Option<u8>>, at: u64) -> Seq<Seq<char>> {
    match_offsets(buf, pat).map_values(|i: int| crate::num::spec_hex_u64((at + i) as u64))
}

proof fn lemma_offsets_prefix(buf: Seq<u8>, pat: Seq<Option<u8>>, k: int, k2: int)
    requires
        k <= k2,
    ensures
        match_offsets_below(buf, pat, k).len() <= match_offsets_below(buf, pat, k2).len(),
        match_offsets_below(buf, pat, k2).take(match_offsets_below(buf, pat, k).len() as int)
            == match_offsets_below(buf, pat, k),
    decreases k2 - k,
{
    if k < k2 {
        lemma_offsets_prefix(buf, pat, k, k2 - 1);
        let a = match_offsets_below(buf, pat, k);
        let b = match_offsets_below(buf, pat, k2 - 1);
        let c = match_offsets_below(buf, pat, k2);
        if k2 > 0 && matches_at(buf, pat, k2 - 1) {
            assert(c == b.push(k2 - 1));
            assert(c.take(a.len() as int) =~= b.take(a.len() as int));
        }
    } else {
        let a = match_offsets_below(buf, pat, k);
        assert(a.take(a.len() as int) =~= a);
    }
}

/// Appends to `found` the addresses of the matches of `pat` in `buf`, which
/// was read at `at`, until `found` holds `limit` of them.
pub fn scan_matches(buf: &Vec<u8>, pat: &Vec<Option<u8>>, at: u64, found: &mut Vec<String>, limit: usize)
    requires
        old(found)@.len() < limit,
        pat@.len() > 0,
        at + buf@.len() <= u64::MAX,
    ensures
        ({
            let all = match_addrs(buf@, pat@, at);
            let room = (limit - old(found)@.len()) as int;
            let n = if all.len() < room {
                all.len() as int
            } else {
                room
            };
            crate::protocol::strings_view(final(found)@) == crate::protocol::strings_view(old(found)@)
                + all.take(n)
        }),
{
    let m = pat.len();
    let len = buf.len();
    if len < m {
        proof {
            let all = match_addrs(buf@, pat@, at);
            assert(all.take(0) =~= Seq::<Seq<char>>::empty());
            assert(crate::protocol::strings_view(found@) =~= crate::protocol::strings_view(old(found)@) + all.take(0));
        }
        return;
    }
    let last = len - m;
    let ghost start = crate::protocol::strings_view(found@);
    let ghost total = (last + 1) as int;
    let mut i: usize = 0;
    proof {
        assert(start =~= start + Seq::<int>::empty().map_values(|o: int| crate::num::spec_hex_u64((at + o) as u64)));
    }
    while i <= last
        invariant_except_break
            found@.len() < limit,
        invariant
            m == pat@.len(),
            len == buf@.len(),
            last == len - m,
            i <= last + 1,
            total == last + 1,
            m > 0,
            at + buf@.len() <= u64::MAX,
            start == crate::protocol::strings_view(old(found)@),
            crate::protocol::strings_view(found@) == start + match_offsets_below(buf@, pat@, i as int).map_values(
                |o: int| crate::num::spec_hex_u64((at + o) as u64),
            ),
            found@.len() == old(found)@.len() + match_offsets_below(buf@, pat@, i as int).len(),
        ensures
            crate::protocol::strings_view(found@) == start + match_offsets_below(buf@, pat@, i as int).map_values(
                |o: int| crate::num::spec_hex_u64((at + o) as u64),
            ),
            found@.len() == old(found)@.len() + match_offsets_below(buf@, pat@, i as int).len(),
            (i == last + 1 && found@.len() < limit) || found@.len() == limit,
            i <= last + 1,
        decreases last + 1 - i,
    {
        let mut matched = true;
        let mut j: usize = 0;
        while j < m
            invariant
                m == pat@.len(),
                len == buf@.len(),
                i + m <= len,
                j <= m,
                matched ==> forall|k: int| 0 <= k < j ==> (#[trigger] pat@[k] matches Some(b) ==> buf@[i + k] == b),
                !matched ==> !matches_at(buf@, pat@, i as int),
            decreases m - j,
        {
            if let Some(b) = pat[j] {
                if buf[i + j] != b {
                    matched = false;
                }
            }
            j = j + 1;
        }
        let ghost prev = found@;
        if matched {
            assert(matches_at(buf@, pat@, i as int));
            found.push(crate::num::hex_u64(at + i as u64));
            proof {
                let ob = match_offsets_below(buf@, pat@, i as int);
                let ob1 = match_offsets_below(buf@, pat@, i + 1);
                assert(ob1 == ob.push(i as int));
                assert(crate::protocol::strings_view(found@) =~= crate::protocol::strings_view(prev).push(
                    crate::num::spec_hex_u64((at + i) as u64),
                ));
                assert(ob1.map_values(|o: int| crate::num::spec_hex_u64((at + o) as u64)) =~= ob.map_values(
                    |o: int| crate::num::spec_hex_u64((at + o) as u64),
                ).push(crate::num::spec_hex_u64((at + i) as u64)));
            }
            if found.len() >= limit {
                i = i + 1;
                break;
            }
        } else {
            assert(match_offsets_below(buf@, pat@, i + 1) == match_offsets_below(buf@, pat@, i as int));
        }
        i = i + 1;
    }
    proof {
        let all_o = match_offsets_below(buf@, pat@, total);
        let got = match_offsets_below(buf@, pat@, i as int);
        lemma_offsets_prefix(buf@, pat@, i as int, total);
        let f = |o: int| crate::num::spec_hex_u64((at + o) as u64);
        let all = match_addrs(buf@, pat@, at);
        assert(all == all_o.map_values(f));
        assert(got.map_values(f) =~= all.take(got.len() as int));
        let room = (limit - old(found)@.len()) as int;
        assert(all.len() == all_o.len());
        if found@.len() != limit {
            assert(got == all_o);
        }
        assert(got.len() == (if all.len() < room { all.len() as int } else { room }));
    }
}

/// Win32 `MEM_COMMIT`.
pub const MEM_COMMIT: u32 = 0x1000;
/// Win32 `MEM_FREE`.
pub const MEM_FREE: u32 = 0x10000;
/// Win32 `MEM_RESERVE`.
pub const MEM_RESERVE: u32 = 0x2000;
/// Win32 `PAGE_NOACCESS`.
pub const PAGE_NOACCESS: u32 = 0x01;

/// `a + b`, or `u64::MAX` when that overflows.
pub open spec fn sat_add(a: u64, b: u64) -> u64 {
    if a + b > u64::MAX {
        u64::MAX
    } else {
        (a + b) as u64
    }
}

/// The part `[lo, hi)` of a region at `base` of `size` bytes that a search
/// of `[start, end)` reads: only committed regions that allow access, and
/// only where they overlap the range.
pub open spec fn search_window_spec(base: u64, size: u64, state: u32, protect: u32, start: u64, end: u64) -> Option<(u64, u64)> {
    let next = sat_add(base, size);
    let lo = if base > start {
        base
    } else {
        start
    };
    let hi = if next < end {
        next
    } else {
        end
    };
    if state == MEM_COMMIT && protect & PAGE_NOACCESS == 0 && lo < hi {
        Some((lo, hi))
    } else {
        None
    }
}

/// Where in a region a memory search reads, if anywhere.
pub fn search_window(base: u64, size: u64, state: u32, protect: u32, start: u64, end: u64) -> (r: Option<(u64, u64)>)
    ensures
        r == search_window_spec(base, size, state, protect, start, end),
{
    let next = base.saturating_add(size);
    let lo = if base > start {
        base
    } else {
        start
    };
    let hi = if next < end {
        next
    } else {
        end
    };
    if state == MEM_COMMIT && protect & PAGE_NOACCESS == 0 && lo < hi {
        Some((lo, hi))
    } else {
        None
    }
}

/// The address at which a walk over the memory regions goes on after the
/// region at `base` of `size` bytes, or `None` when the walk ends (the next
/// address would not move forward).
pub fn next_region_addr(addr: u64, base: u64, size: u64) -> (r: Option<u64>)
    ensures
        r == (if sat_add(base, size) <= addr {
            None
        } else {
            Some(sat_add(base, size))
        }),
{
    let next = base.saturating_add(size);
    if next <= addr {
        None
    } else {
        Some(next)
    }
}

/// The name of a region state.
pub open spec fn mem_state_name_spec(state: u32) -> Seq<char> {
    if state == MEM_COMMIT {
        "Commit"@
    } else if state == MEM_FREE {
        "Free"@
    } else if state == MEM_RESERVE {
        "Reserve"@
    } else {
        "Unknown"@
    }
}

pub fn mem_state_name(state: u32) -> (r: &'static str)
    ensures
        r@ == mem_state_name_spec(state),
{
    if state == MEM_COMMIT {
        "Commit"
    } else if state == MEM_FREE {
        "Free"
    } else if state == MEM_RESERVE {
        "Reserve"
    } else {
        "Unknown"
    }
}

/// The short name of a page protection (`E` execute, `R` read, `W` write,
/// `C` copy on write).
pub open spec fn mem_protect_name_spec(p: u32) -> Seq<char> {
    if p == 0x10 {
        "E"@
    } else if p == 0x20 {
        "ER"@
    } else if p == 0x40 {
        "ERW"@
    } else if p == 0x80 {
        "ERWC"@
    } else if p == 0x01 {
        "---"@
    } else if p == 0x02 {
        "R"@
    } else if p == 0x04 {
        "RW"@
    } else if p == 0x08 {
        "RWC"@
    } else {
        ""@
    }
}

pub fn mem_protect_name(p: u32) -> (r: &'static str)
    ensures
        r@ == mem_protect_name_spec(p),
{
    if p == 0x10 {
        "E"
    } else if p == 0x20 {
        "ER"
    } else if p == 0x40 {
        "ERW"
    } else if p == 0x80 {
        "ERWC"
    } else if p == 0x01 {
        "---"
    } else if p == 0x02 {
        "R"
    } else if p == 0x04 {
        "RW"
    } else if p == 0x08 {
        "RWC"
    } else {
        ""
    }
}

/// The name of a region type.
pub open spec fn mem_type_name_spec(t: u32) -> Seq<char> {
    if t == 0x20000 {
        "Private"@
    } else if t == 0x40000 {
        "Mapped"@
    } else if t == 0x1000000 {
        "Image"@
    } else {
        ""@
    }
}

pub fn mem_type_name(t: u32) -> (r: &'static str)
    ensures
        r@ == mem_type_name_spec(t),
{
    if t == 0x20000 {
        "Private"
    } else if t == 0x40000 {
        "Mapped"
    } else if t == 0x1000000 {
        "Image"
    } else {
        ""
    }
}

/// One region of the memory map.
pub open spec fn region_json(base: u64, size: u64, protect: u32, state: u32, type_: u32, name: Seq<char>) -> Json {
    Json::Object(
        Seq::empty().push(("base"@, Json::Str(spec_hex_u64(base)))).push(("size"@, Json::Str(spec_hex_u64(size)))).push(
            ("protect"@, Json::Str(mem_protect_name_spec(protect))),
        ).push(("state"@, Json::Str(mem_state_name_spec(state)))).push(("type"@, Json::Str(mem_type_name_spec(type_)))).push(
            ("name"@, Json::Str(name)),
        ),
    )
}

pub fn region_value(base: u64, size: u64, protect: u32, state: u32, type_: u32, name: &str) -> (r: JsonValue)
    ensures
        r@ == region_json(base, size, protect, state, type_, name@),
{
    let mut f = new_fields();
    push_field(&mut f, "base", jhex(base));
    push_field(&mut f, "size", jhex(size));
    push_field(&mut f, "protect", jstr(mem_protect_name(protect)));
    push_field(&mut f, "state", jstr(mem_state_name(state)));
    push_field(&mut f, "type", jstr(mem_type_name(type_)));
    push_field(&mut f, "name", jstr(name));
    proof {
        lemma_object_view(f);
    }
    JsonValue::Object(f)
}

// ─── Debug events ───────────────────────────────────────────────────────

/// The text of a known exception code.
pub open spec fn exception_description_spec(code: u32) -> Seq<char> {
    if code == 0x80000001 {
        "GUARD_PAGE_VIOLATION"@
    } else if code == 0x80000002 {
        "DATATYPE_MISALIGNMENT"@
    } else if code == 0x80000003 {
        "BREAKPOINT"@
    } else if code == 0x80000004 {
        "SINGLE_STEP"@
    } else if code == 0xC0000005 {
        "ACCESS_VIOLATION"@
    } else if code == 0xC0000006 {
        "IN_PAGE_ERROR"@
    } else if code == 0xC0000008 {
        "INVALID_HANDLE"@
    } else if code == 0xC000000D {
        "INVALID_PARAMETER"@
    } else if code == 0xC0000017 {
        "NO_MEMORY"@
    } else if code == 0xC000001D {
        "ILLEGAL_INSTRUCTION"@
    } else if code == 0xC0000025 {
        "NONCONTINUABLE_EXCEPTION"@
    } else if code == 0xC0000029 {
        "INVALID_UNWIND_TARGET"@
    } else if code == 0xC000002A || code == 0xC000008C {
        "ARRAY_BOUNDS_EXCEEDED"@
    } else if code == 0xC0000094 {
        "INT_DIVIDE_BY_ZERO"@
    } else if code == 0xC0000095 {
        "INT_OVERFLOW"@
    } else if code == 0xC0000096 {
        "PRIVILEGED_INSTRUCTION"@
    } else if code == 0xC00000FD {
        "STACK_OVERFLOW"@
    } else if code == 0xC0000135 {
        "DLL_NOT_FOUND"@
    } else if code == 0xC0000138 {
        "ORDINAL_NOT_FOUND"@
    } else if code == 0xC0000139 {
        "ENTRYPOINT_NOT_FOUND"@
    } else if code == 0xC000013A {
        "CTRL_C_EXIT"@
    } else if code == 0xC0000142 {
        "DLL_INIT_FAILED"@
    } else if code == 0xE06D7363 {
        "CXX_EXCEPTION (thrown C++ exception)"@
    } else if code == 0x406D1388 {
        "THREAD_NAME_EXCEPTION (debug)"@
    } else {
        ""@
    }
}

/// The text of a known exception code, empty for others.
pub fn exception_description(code: u32) -> (r: &'static str)
    ensures
        r@ == exception_description_spec(code),
{
    if code == 0x80000001 {
        "GUARD_PAGE_VIOLATION"
    } else if code == 0x80000002 {
        "DATATYPE_MISALIGNMENT"
    } else if code == 0x80000003 {
        "BREAKPOINT"
    } else if code == 0x80000004 {
        "SINGLE_STEP"
    } else if code == 0xC0000005 {
        "ACCESS_VIOLATION"
    } else if code == 0xC0000006 {
        "IN_PAGE_ERROR"
    } else if code == 0xC0000008 {
        "INVALID_HANDLE"
    } else if code == 0xC000000D {
        "INVALID_PARAMETER"
    } else if code == 0xC0000017 {
        "NO_MEMORY"
    } else if code == 0xC000001D {
        "ILLEGAL_INSTRUCTION"
    } else if code == 0xC0000025 {
        "NONCONTINUABLE_EXCEPTION"
    } else if code == 0xC0000029 {
        "INVALID_UNWIND_TARGET"
    } else if code == 0xC000002A || code == 0xC000008C {
        "ARRAY_BOUNDS_EXCEEDED"
    } else if code == 0xC0000094 {
        "INT_DIVIDE_BY_ZERO"
    } else if code == 0xC0000095 {
        "INT_OVERFLOW"
    } else if code == 0xC0000096 {
        "PRIVILEGED_INSTRUCTION"
    } else if code == 0xC00000FD {
        "STACK_OVERFLOW"
    } else if code == 0xC0000135 {
        "DLL_NOT_FOUND"
    } else if code == 0xC0000138 {
        "ORDINAL_NOT_FOUND"
    } else if code == 0xC0000139 {
        "ENTRYPOINT_NOT_FOUND"
    } else if code == 0xC000013A {
        "CTRL_C_EXIT"
    } else if code == 0xC0000142 {
        "DLL_INIT_FAILED"
    } else if code == 0xE06D7363 {
        "CXX_EXCEPTION (thrown C++ exception)"
    } else if code == 0x406D1388 {
        "THREAD_NAME_EXCEPTION (debug)"
    } else {
        ""
    }
}

/// The event name of an exception: breakpoints and single steps by name.
pub open spec fn exception_kind_spec(code: u32) -> Seq<char> {
    if code == 0x80000003 {
        "breakpoint"@
    } else if code == 0x80000004 {
        "single_step"@
    } else {
        "exception"@
    }
}

/// An exception code as `0x` and eight upper-case hexadecimal digits.
pub open spec fn code_text(code: u32) -> Seq<char> {
    seq!['0', 'x'] + crate::num::hex_fixed(code as nat, 8, true)
}

/// A debug event as the backend reports it, decoded from the operating
/// system's record.
#[derive(Debug)]
pub enum DebugEventInfo {
    CreateProcess { image_base: u64 },
    CreateThread { start: u64 },
    ExitThread,
    ExitProcess { exit_code: u32 },
    /// A DLL was loaded at `base`; `path` is its file name as far as it
    /// could be read (empty when not).
    LoadDll { base: u64, path: String },
    UnloadDll { base: u64 },
    DebugString,
    Rip,
    Exception { code: u32, address: u64, first_chance: bool },
    Unknown,
}

/// The part of a path after its last `\` or `/`.
pub open spec fn base_name(s: Seq<char>) -> Seq<char>
    decreases s.len(),
{
    if s.len() == 0 {
        s
    } else if s.last() == '\\' || s.last() == '/' {
        Seq::empty()
    } else {
        base_name(s.drop_last()).push(s.last())
    }
}

/// The name of an event.
pub open spec fn event_name(ev: DebugEventInfo) -> Seq<char> {
    match ev {
        DebugEventInfo::CreateProcess { .. } => "create_process"@,
        DebugEventInfo::CreateThread { .. } => "create_thread"@,
        DebugEventInfo::ExitThread => "exit_thread"@,
        DebugEventInfo::ExitProcess { .. } => "exit_process"@,
        DebugEventInfo::LoadDll { .. } => "load_dll"@,
        DebugEventInfo::UnloadDll { .. } => "unload_dll"@,
        DebugEventInfo::DebugString => "debug_string"@,
        DebugEventInfo::Rip => "rip"@,
        DebugEventInfo::Exception { code, .. } => exception_kind_spec(code),
        DebugEventInfo::Unknown => "unknown"@,
    }
}

/// The members that an event adds to the stop report.
pub open spec fn event_extra(ev: DebugEventInfo) -> Seq<(Seq<char>, Json)> {
    match ev {
        DebugEventInfo::CreateProcess { image_base } => seq![("image_base"@, Json::Str(spec_hex_u64(image_base)))],
        DebugEventInfo::CreateThread { start } => seq![("start"@, Json::Str(spec_hex_u64(start)))],
        DebugEventInfo::ExitProcess { exit_code } => seq![("exit_code"@, Json::UInt(exit_code as u64))],
        DebugEventInfo::LoadDll { base, path } => seq![
            ("base"@, Json::Str(spec_hex_u64(base))),
            ("name"@, Json::Str(base_name(path@))),
            ("path"@, Json::Str(path@)),
        ],
        DebugEventInfo::UnloadDll { base } => seq![("base"@, Json::Str(spec_hex_u64(base)))],
        DebugEventInfo::Exception { code, address, first_chance } => seq![
            ("code"@, Json::Str(code_text(code))),
            ("address"@, Json::Str(spec_hex_u64(address))),
            ("first_chance"@, Json::Bool(first_chance)),
            ("description"@, Json::Str(exception_description_spec(code))),
        ],
        _ => Seq::empty(),
    }
}

/// The report of a stop at a debug event of process `pid`, thread `tid`.
pub open spec fn event_json(pid: u32, tid: u32, ev: DebugEventInfo) -> Json {
    Json::Object(
        seq![
            ("stopped"@, Json::Bool(true)),
            ("event"@, Json::Str(event_name(ev))),
            ("pid"@, Json::UInt(pid as u64)),
            ("tid"@, Json::UInt(tid as u64)),
        ] + event_extra(ev),
    )
}

/// The part of a path after its last `\` or `/`.
pub fn base_name_of(s: &str) -> (r: String)
    ensures
        r@ == base_name(s@),
{
    let v = chars_of(s);
    let mut i = v.len();
    proof {
        assert(v@.take(i as int) =~= v@);
        assert(base_name(v@) + v@.skip(i as int) =~= base_name(v@));
    }
    while i > 0 && v[i - 1] != '\\' && v[i - 1] != '/'
        invariant
            i <= v@.len(),
            v@ == s@,
            base_name(v@) == base_name(v@.take(i as int)) + v@.skip(i as int),
        decreases i,
    {
        proof {
            let t = v@.take(i as int);
            assert(t.drop_last() =~= v@.take(i - 1));
            assert(base_name(t) == base_name(t.drop_last()).push(t.last()));
            assert(v@.skip(i - 1) =~= seq![v@[i - 1]] + v@.skip(i as int));
            assert(base_name(t.drop_last()).push(t.last()) + v@.skip(i as int) =~= base_name(t.drop_last())
                + v@.skip(i - 1));
        }
        i = i - 1;
    }
    proof {
        if i > 0 {
            assert(base_name(v@.take(i as int)) =~= Seq::<char>::empty());
        } else {
            assert(v@.take(0) =~= Seq::<char>::empty());
        }
        assert(v@.skip(i as int) =~= v@.subrange(i as int, v@.len() as int));
        assert(Seq::<char>::empty() + v@.skip(i as int) =~= v@.skip(i as int));
    }
    crate::text::string_of_range(&v, i, v.len())
}

fn code_text_value(code: u32) -> (r: String)
    ensures
        r@ == code_text(code),
{
    let mut out: Vec<char> = Vec::new();
    out.push('0');
    out.push('x');
    crate::num::push_hex_fixed(&mut out, code as u64, 8, true);
    proof {
        assert(out@ =~= code_text(code));
    }
    crate::text::string_of(&out)
}

/// The report of a stop at a debug event.
pub fn event_value(pid: u32, tid: u32, ev: &DebugEventInfo) -> (r: JsonValue)
    ensures
        r@ == event_json(pid, tid, *ev),
{
    let mut f = new_fields();
    let name: &str = match ev {
        DebugEventInfo::CreateProcess { .. } => "create_process",
        DebugEventInfo::CreateThread { .. } => "create_thread",
        DebugEventInfo::ExitThread => "exit_thread",
        DebugEventInfo::ExitProcess { .. } => "exit_process",
        DebugEventInfo::LoadDll { .. } => "load_dll",
        DebugEventInfo::UnloadDll { .. } => "unload_dll",
        DebugEventInfo::DebugString => "debug_string",
        DebugEventInfo::Rip => "rip",
        DebugEventInfo::Exception { code, .. } => if *code == 0x80000003 {
            "breakpoint"
        } else if *code == 0x80000004 {
            "single_step"
        } else {
            "exception"
        },
        DebugEventInfo::Unknown => "unknown",
    };
    push_field(&mut f, "stopped", JsonValue::Bool(true));
    push_field(&mut f, "event", jstr(name));
    push_field(&mut f, "pid", JsonValue::UInt(pid as u64));
    push_field(&mut f, "tid", JsonValue::UInt(tid as u64));
    let ghost head = crate::json::fields_view(f@);
    match ev {
        DebugEventInfo::CreateProcess { image_base } => {
            push_field(&mut f, "image_base", jhex(*image_base));
        },
        DebugEventInfo::CreateThread { start } => {
            push_field(&mut f, "start", jhex(*start));
        },
        DebugEventInfo::ExitProcess { exit_code } => {
            push_field(&mut f, "exit_code", JsonValue::UInt(*exit_code as u64));
        },
        DebugEventInfo::LoadDll { base, path } => {
            push_field(&mut f, "base", jhex(*base));
            push_field(&mut f, "name", JsonValue::Str(base_name_of(path.as_str())));
            push_field(&mut f, "path", JsonValue::Str(path.clone()));
        },
        DebugEventInfo::UnloadDll { base } => {
            push_field(&mut f, "base", jhex(*base));
        },
        DebugEventInfo::Exception { code, address, first_chance } => {
            push_field(&mut f, "code", JsonValue::Str(code_text_value(*code)));
            push_field(&mut f, "address", jhex(*address));
            push_field(&mut f, "first_chance", JsonValue::Bool(*first_chance));
            push_field(&mut f, "description", jstr(exception_description(*code)));
        },
        _ => {},
    }
    proof {
        assert(crate::json::fields_view(f@) =~= seq![
            ("stopped"@, Json::Bool(true)),
            ("event"@, Json::Str(event_name(*ev))),
            ("pid"@, Json::UInt(pid as u64)),
            ("tid"@, Json::UInt(tid as u64)),
        ] + event_extra(*ev));
        lemma_object_view(f);
    }
    JsonValue::Object(f)
}

// ─── Text from the system ───────────────────────────────────────────────

/// Whether a code unit is a high (leading) surrogate.
pub open spec fn is_high_surrogate(u: u16) -> bool {
    0xD800 <= u <= 0xDBFF
}

/// Whether a code unit is a low (trailing) surrogate.
pub open spec fn is_low_surrogate(u: u16) -> bool {
    0xDC00 <= u <= 0xDFFF
}

/// UTF-16 decoded with U+FFFD for what does not decode: a unit that is no
/// surrogate is the character with its code; a high surrogate followed by a
/// low one is the character they encode together; any other surrogate is
/// U+FFFD.
pub open spec fn utf16_lossy(units: Seq<u16>) -> Seq<char>
    decreases units.len(),
{
    if units.len() == 0 {
        Seq::empty()
    } else {
        let u = units[0];
        if !is_high_surrogate(u) && !is_low_surrogate(u) {
            seq![u as char] + utf16_lossy(units.drop_first())
        } else if is_high_surrogate(u) && units.len() >= 2 && is_low_surrogate(units[1]) {
            seq![(0x10000 + (u - 0xD800) * 0x400 + (units[1] - 0xDC00)) as char] + utf16_lossy(
                units.subrange(2, units.len() as int),
            )
        } else {
            seq!['\u{FFFD}'] + utf16_lossy(units.drop_first())
        }
    }
}

/// `String::from_utf16_lossy` of `units[..end]`: the units decoded as
/// UTF-16, with U+FFFD (the replacement character) for each surrogate that
/// is not part of a high-low pair, as its documentation says.
#[verifier::external_body]
fn decode_utf16_lossy(units: &Vec<u16>, end: usize) -> (r: String)
    requires
        end <= units@.len(),
    ensures
        r@ == utf16_lossy(units@.take(end as int)),
{
    String::from_utf16_lossy(&units[..end])
}

/// The position of the first zero unit, or the length.
pub open spec fn first_nul(units: Seq<u16>) -> int
    decreases units.len(),
{
    if units.len() == 0 {
        0
    } else if units[0] == 0 {
        0
    } else {
        1 + first_nul(units.drop_first())
    }
}

/// The text of a zero-terminated UTF-16 buffer: the units before the first
/// zero, decoded.
pub fn wide_buf_to_string(buf: &Vec<u16>) -> (r: String)
    ensures
        r@ == utf16_lossy(buf@.take(first_nul(buf@))),
{
    let mut end: usize = 0;
    assert(buf@.skip(0) =~= buf@);
    while end < buf.len() && buf[end] != 0
        invariant
            end <= buf@.len(),
            first_nul(buf@) == end + first_nul(buf@.skip(end as int)),
        decreases buf@.len() - end,
    {
        proof {
            assert(buf@.skip(end as int)[0] == buf@[end as int]);
            assert(buf@.skip(end as int).drop_first() =~= buf@.skip(end + 1));
        }
        end = end + 1;
    }
    proof {
        if end < buf.len() {
            assert(buf@.skip(end as int)[0] == buf@[end as int]);
        }
    }
    decode_utf16_lossy(buf, end)
}

// ─── Bytes as text ──────────────────────────────────────────────────────

/// Bytes as two hexadecimal digits each, in lower or upper case.
pub open spec fn bytes_hex_case(b: Seq<u8>, upper: bool) -> Seq<char>
    decreases b.len(),
{
    if b.len() == 0 {
        Seq::empty()
    } else {
        bytes_hex_case(b.drop_last(), upper) + crate::num::hex_fixed(b.last() as nat, 2, upper)
    }
}

/// Bytes as two lower-case hexadecimal digits each.
pub open spec fn bytes_hex(b: Seq<u8>) -> Seq<char> {
    bytes_hex_case(b, false)
}

/// Bytes as two hexadecimal digits each, the pairs joined by one space.
pub open spec fn bytes_hex_spaced(b: Seq<u8>, upper: bool) -> Seq<char>
    decreases b.len(),
{
    if b.len() == 0 {
        Seq::empty()
    } else if b.len() == 1 {
        crate::num::hex_fixed(b[0] as nat, 2, upper)
    } else {
        bytes_hex_spaced(b.drop_last(), upper) + seq![' '] + crate::num::hex_fixed(b.last() as nat, 2, upper)
    }
}

/// A hexadecimal digit reads back as the value it shows.
proof fn lemma_hex_char_digit(d: nat, upper: bool)
    requires
        d < 16,
    ensures
        crate::num::digit_value(crate::num::hex_char(d, upper), 16) == Some(d),
        (crate::num::hex_char(d, upper) as u32) < 0x80,
        '\0' <= crate::num::hex_char(d, upper) <= '\u{7f}',
        !is_white_space(crate::num::hex_char(d, upper)),
{
}

/// The text of bytes has two characters per byte: the high digit, then the
/// low one.
proof fn lemma_bytes_hex_at(b: Seq<u8>, upper: bool)
    ensures
        bytes_hex_case(b, upper).len() == 2 * b.len(),
        forall|k: int|
            0 <= k < b.len() ==> bytes_hex_case(b, upper)[2 * k] == crate::num::hex_char((b[k] / 16) as nat, upper)
                && bytes_hex_case(b, upper)[2 * k + 1] == crate::num::hex_char((b[k] % 16) as nat, upper),
    decreases b.len(),
{
    if b.len() > 0 {
        let p = b.drop_last();
        lemma_bytes_hex_at(p, upper);
        let v = b.last() as nat;
        assert(crate::num::hex_fixed(v, 2, upper) =~= seq![
            crate::num::hex_char((v / 16) % 16, upper),
            crate::num::hex_char(v % 16, upper),
        ]) by {
            reveal_with_fuel(crate::num::hex_fixed, 3);
        }
        assert((v / 16) % 16 == v / 16);
        assert forall|k: int| 0 <= k < b.len() implies bytes_hex_case(b, upper)[2 * k] == crate::num::hex_char(
            (b[k] / 16) as nat,
            upper,
        ) && bytes_hex_case(b, upper)[2 * k + 1] == crate::num::hex_char((b[k] % 16) as nat, upper) by {
            if k < p.len() {
                assert(b[k] == p[k]);
            }
        }
    }
}

/// No character of a text of bytes is white space.
proof fn lemma_drop_ws_keeps(s: Seq<char>)
    requires
        forall|i: int| 0 <= i < s.len() ==> !is_white_space(#[trigger] s[i]),
    ensures
        drop_ws(s) == s,
    decreases s.len(),
{
    if s.len() > 0 {
        let p = s.drop_last();
        assert forall|i: int| 0 <= i < p.len() implies !is_white_space(#[trigger] p[i]) by {
            assert(p[i] == s[i]);
        }
        lemma_drop_ws_keeps(p);
        assert(p.push(s.last()) =~= s);
    }
}

/// Dropping white space from two texts one after the other.
proof fn lemma_drop_ws_append(a: Seq<char>, c: Seq<char>)
    ensures
        drop_ws(a + c) == drop_ws(a) + drop_ws(c),
    decreases c.len(),
{
    if c.len() == 0 {
        assert(a + c =~= a);
        assert(drop_ws(a) + drop_ws(c) =~= drop_ws(a));
    } else {
        assert((a + c).last() == c.last());
        assert((a + c).drop_last() =~= a + c.drop_last());
        lemma_drop_ws_append(a, c.drop_last());
        if !is_white_space(c.last()) {
            assert((drop_ws(a) + drop_ws(c.drop_last())).push(c.last()) =~= drop_ws(a) + drop_ws(
                c.drop_last(),
            ).push(c.last()));
        }
    }
}

/// The spaced text of bytes without its spaces is the text of the bytes.
proof fn lemma_spaced_drop_ws(b: Seq<u8>, upper: bool)
    ensures
        drop_ws(bytes_hex_spaced(b, upper)) == bytes_hex_case(b, upper),
    decreases b.len(),
{
    if b.len() > 0 {
        let h = crate::num::hex_fixed(b.last() as nat, 2, upper);
        crate::num::lemma_hex_fixed_len(b.last() as nat, 2, upper);
        lemma_drop_ws_keeps(h);
        let p = b.drop_last();
        if b.len() == 1 {
            assert(p.len() == 0);
            assert(b[0] == b.last());
            assert(bytes_hex_case(p, upper) == Seq::<char>::empty());
            assert(bytes_hex_case(b, upper) == bytes_hex_case(p, upper) + h);
            assert(bytes_hex_case(b, upper) =~= h);
        } else {
            lemma_spaced_drop_ws(p, upper);
            let sp = seq![' '];
            assert(is_white_space(sp.last()));
            assert(sp.drop_last() =~= Seq::<char>::empty());
            assert(drop_ws(sp.drop_last()) =~= Seq::<char>::empty());
            assert(drop_ws(sp) =~= Seq::<char>::empty());
            lemma_drop_ws_append(bytes_hex_spaced(p, upper), sp);
            lemma_drop_ws_append(bytes_hex_spaced(p, upper) + sp, h);
            assert(bytes_hex_case(p, upper) + Seq::<char>::empty() =~= bytes_hex_case(p, upper));
        }
    }
}

/// The pairs of an ASCII text of bytes from pair `k` on read back as the
/// bytes from `k` on.
proof fn lemma_pairs_read_back(b: Seq<u8>, e: Seq<u8>, k: int, upper: bool)
    requires
        0 <= k <= b.len(),
        e.len() == 2 * b.len(),
        forall|i: int| 0 <= i < e.len() ==> #[trigger] e[i] < 0x80,
        forall|j: int|
            0 <= j < b.len() ==> (e[2 * j] as char) == crate::num::hex_char((b[j] / 16) as nat, upper)
                && (e[2 * j + 1] as char) == crate::num::hex_char((b[j] % 16) as nat, upper),
    ensures
        hex_pairs_from(e, 2 * k) == HexParse::Bytes(b.skip(k)),
    decreases b.len() - k,
{
    if k == b.len() {
        assert(b.skip(k) =~= Seq::<u8>::empty());
    } else {
        lemma_pairs_read_back(b, e, k + 1, upper);
        let i = 2 * k;
        let hi = (b[k] / 16) as nat;
        let lo = (b[k] % 16) as nat;
        lemma_hex_char_digit(hi, upper);
        lemma_hex_char_digit(lo, upper);
        assert(e[i] < 0x80 && e[i + 1] < 0x80);
        if i + 2 < e.len() {
            assert(e[i + 2] < 0x80);
        }
        assert(str_boundary(e, i) && str_boundary(e, i + 2));
        let s = seq![e[i] as char, e[i + 1] as char];
        assert(s[0] == crate::num::hex_char(hi, upper));
        assert(s[1] == crate::num::hex_char(lo, upper));
        assert(s[0] != '+' && s[0] != '-');
        assert(s.drop_first() =~= seq![s[1]]);
        assert(seq![s[1]].drop_first() =~= Seq::<char>::empty());
        assert(crate::num::fold_digits(s, 16, 0) == Ok::<nat, IntErrorKind>(hi * 16 + lo)) by {
            reveal_with_fuel(crate::num::fold_digits, 3);
        }
        assert(hi * 16 + lo == b[k]);
        assert(spec_from_str_radix(s, 16) == Ok::<u64, IntErrorKind>(b[k] as u64));
        assert(pair_value(e[i], e[i + 1]) == Ok::<u8, IntErrorKind>(b[k]));
        assert(seq![b[k]] + b.skip(k + 1) =~= b.skip(k));
    }
}

/// The text of bytes, in either case, reads back as the bytes.
proof fn lemma_case_reads_back(b: Seq<u8>, upper: bool)
    ensures
        drop_ws(bytes_hex_case(b, upper)) == bytes_hex_case(b, upper),
        parse_hex_spec(bytes_hex_case(b, upper)) == HexParse::Bytes(b),
{
    let t = bytes_hex_case(b, upper);
    lemma_bytes_hex_at(b, upper);
    assert forall|i: int| 0 <= i < t.len() implies !is_white_space(#[trigger] t[i]) && '\0' <= t[i] <= '\u{7f}' by {
        let k = i / 2;
        assert(0 <= k < b.len());
        if i % 2 == 0 {
            assert(i == 2 * k);
            lemma_hex_char_digit((b[k] / 16) as nat, upper);
        } else {
            assert(i == 2 * k + 1);
            lemma_hex_char_digit((b[k] % 16) as nat, upper);
        }
    }
    lemma_drop_ws_keeps(t);
    assert(vstd::utf8::is_ascii_chars(t));
    vstd::utf8::is_ascii_chars_encode_utf8(t);
    let e = vstd::utf8::encode_utf8(t);
    assert forall|i: int| 0 <= i < e.len() implies #[trigger] e[i] < 0x80 by {
        assert(t[i] as u8 == e[i]);
    }
    assert forall|j: int| 0 <= j < b.len() implies (e[2 * j] as char) == crate::num::hex_char(
        (b[j] / 16) as nat,
        upper,
    ) && (e[2 * j + 1] as char) == crate::num::hex_char((b[j] % 16) as nat, upper) by {
        assert(t[2 * j] as u8 == e[2 * j]);
        assert(t[2 * j + 1] as u8 == e[2 * j + 1]);
        lemma_hex_char_digit((b[j] / 16) as nat, upper);
        lemma_hex_char_digit((b[j] % 16) as nat, upper);
    }
    lemma_pairs_read_back(b, e, 0, upper);
    assert(b.skip(0) =~= b);
}

/// Hex text read back: the two-digit text of any bytes, in lower case (as
/// `readMem` writes it) or upper case, with the pairs run together or
/// joined by spaces, and indeed any text that is that text once its white
/// space is dropped, reads back through `parse_hex_bytes` as those bytes.
pub proof fn law_hex_text_reads_back(b: Seq<u8>, upper: bool)
    ensures
        parse_hex_spec(bytes_hex(b)) == HexParse::Bytes(b),
        parse_hex_spec(bytes_hex_case(b, upper)) == HexParse::Bytes(b),
        parse_hex_spec(bytes_hex_spaced(b, upper)) == HexParse::Bytes(b),
        forall|t: Seq<char>| #[trigger] drop_ws(t) == bytes_hex_case(b, upper) ==> parse_hex_spec(t) == HexParse::Bytes(b),
{
    lemma_case_reads_back(b, false);
    lemma_case_reads_back(b, upper);
    lemma_spaced_drop_ws(b, upper);
}

/// The bytes `b[from..to]` as two lower-case hexadecimal digits each.
pub fn bytes_hex_value(b: &Vec<u8>, from: usize, to: usize) -> (r: String)
    requires
        from <= to <= b@.len(),
    ensures
        r@ == bytes_hex(b@.subrange(from as int, to as int)),
{
    let mut out: Vec<char> = Vec::new();
    let mut i = from;
    proof {
        assert(b@.subrange(from as int, from as int) =~= Seq::<u8>::empty());
    }
    while i < to
        invariant
            from <= i <= to <= b@.len(),
            out@ == bytes_hex(b@.subrange(from as int, i as int)),
        decreases to - i,
    {
        crate::num::push_hex_fixed(&mut out, b[i] as u64, 2, false);
        proof {
            assert(b@.subrange(from as int, i + 1).drop_last() =~= b@.subrange(from as int, i as int));
        }
        i = i + 1;
    }
    crate::text::string_of(&out)
}

// ─── Registers ──────────────────────────────────────────────────────────

/// The general registers of an x64 thread.
#[derive(Debug, Clone, Copy)]
pub struct X64Regs {
    pub rax: u64,
    pub rbx: u64,
    pub rcx: u64,
    pub rdx: u64,
    pub rsi: u64,
    pub rdi: u64,
    pub rbp: u64,
    pub rsp: u64,
    pub r8: u64,
    pub r9: u64,
    pub r10: u64,
    pub r11: u64,
    pub r12: u64,
    pub r13: u64,
    pub r14: u64,
    pub r15: u64,
    pub rip: u64,
    pub eflags: u32,
}

/// The flags as `0x` and eight lower-case hexadecimal digits.
pub open spec fn eflags_text(f: u32) -> Seq<char> {
    seq!['0', 'x'] + crate::num::hex_fixed(f as nat, 8, false)
}

/// The register file by name, in the order of the names.
pub open spec fn x64_regs_list(r: X64Regs) -> Seq<(Seq<char>, Seq<char>)> {
    seq![
        ("eflags"@, eflags_text(r.eflags)),
        ("r10"@, spec_hex_u64(r.r10)),
        ("r11"@, spec_hex_u64(r.r11)),
        ("r12"@, spec_hex_u64(r.r12)),
        ("r13"@, spec_hex_u64(r.r13)),
        ("r14"@, spec_hex_u64(r.r14)),
        ("r15"@, spec_hex_u64(r.r15)),
        ("r8"@, spec_hex_u64(r.r8)),
        ("r9"@, spec_hex_u64(r.r9)),
        ("rax"@, spec_hex_u64(r.rax)),
        ("rbp"@, spec_hex_u64(r.rbp)),
        ("rbx"@, spec_hex_u64(r.rbx)),
        ("rcx"@, spec_hex_u64(r.rcx)),
        ("rdi"@, spec_hex_u64(r.rdi)),
        ("rdx"@, spec_hex_u64(r.rdx)),
        ("rip"@, spec_hex_u64(r.rip)),
        ("rsi"@, spec_hex_u64(r.rsi)),
        ("rsp"@, spec_hex_u64(r.rsp)),
    ]
}

/// The register dump of an x64 thread.
pub fn x64_reg_dump(r: &X64Regs) -> (d: crate::protocol::RegDump)
    ensures
        d.arch@ == "x64"@,
        crate::protocol::regs_view(d.registers@) == x64_regs_list(*r),
{
    let mut flags: Vec<char> = Vec::new();
    flags.push('0');
    flags.push('x');
    crate::num::push_hex_fixed(&mut flags, r.eflags as u64, 8, false);
    let mut v = crate::protocol::new_regs();
    crate::protocol::push_reg(&mut v, "eflags", crate::text::string_of(&flags));
    crate::protocol::push_reg(&mut v, "r10", crate::num::hex_u64(r.r10));
    crate::protocol::push_reg(&mut v, "r11", crate::num::hex_u64(r.r11));
    crate::protocol::push_reg(&mut v, "r12", crate::num::hex_u64(r.r12));
    crate::protocol::push_reg(&mut v, "r13", crate::num::hex_u64(r.r13));
    crate::protocol::push_reg(&mut v, "r14", crate::num::hex_u64(r.r14));
    crate::protocol::push_reg(&mut v, "r15", crate::num::hex_u64(r.r15));
    crate::protocol::push_reg(&mut v, "r8", crate::num::hex_u64(r.r8));
    crate::protocol::push_reg(&mut v, "r9", crate::num::hex_u64(r.r9));
    crate::protocol::push_reg(&mut v, "rax", crate::num::hex_u64(r.rax));
    crate::protocol::push_reg(&mut v, "rbp", crate::num::hex_u64(r.rbp));
    crate::protocol::push_reg(&mut v, "rbx", crate::num::hex_u64(r.rbx));
    crate::protocol::push_reg(&mut v, "rcx", crate::num::hex_u64(r.rcx));
    crate::protocol::push_reg(&mut v, "rdi", crate::num::hex_u64(r.rdi));
    crate::protocol::push_reg(&mut v, "rdx", crate::num::hex_u64(r.rdx));
    crate::protocol::push_reg(&mut v, "rip", crate::num::hex_u64(r.rip));
    crate::protocol::push_reg(&mut v, "rsi", crate::num::hex_u64(r.rsi));
    crate::protocol::push_reg(&mut v, "rsp", crate::num::hex_u64(r.rsp));
    proof {
        assert(flags@ =~= eflags_text(r.eflags));
        assert(crate::protocol::regs_view(v@) =~= x64_regs_list(*r));
    }
    crate::protocol::RegDump { arch: string_from("x64"), registers: v }
}

/// Which register a name sets, in ASCII lower case.
pub open spec fn set_x64_reg_spec(r: X64Regs, name: Seq<char>, value: u64) -> Option<X64Regs> {
    let n = crate::text::ascii_lower_seq(name);
    if n == "rax"@ {
        Some(X64Regs { rax: value, ..r })
    } else if n == "rbx"@ {
        Some(X64Regs { rbx: value, ..r })
    } else if n == "rcx"@ {
        Some(X64Regs { rcx: value, ..r })
    } else if n == "rdx"@ {
        Some(X64Regs { rdx: value, ..r })
    } else if n == "rsi"@ {
        Some(X64Regs { rsi: value, ..r })
    } else if n == "rdi"@ {
        Some(X64Regs { rdi: value, ..r })
    } else if n == "rbp"@ {
        Some(X64Regs { rbp: value, ..r })
    } else if n == "rsp"@ {
        Some(X64Regs { rsp: value, ..r })
    } else if n == "r8"@ {
        Some(X64Regs { r8: value, ..r })
    } else if n == "r9"@ {
        Some(X64Regs { r9: value, ..r })
    } else if n == "r10"@ {
        Some(X64Regs { r10: value, ..r })
    } else if n == "r11"@ {
        Some(X64Regs { r11: value, ..r })
    } else if n == "r12"@ {
        Some(X64Regs { r12: value, ..r })
    } else if n == "r13"@ {
        Some(X64Regs { r13: value, ..r })
    } else if n == "r14"@ {
        Some(X64Regs { r14: value, ..r })
    } else if n == "r15"@ {
        Some(X64Regs { r15: value, ..r })
    } else if n == "rip"@ || n == "pc"@ {
        Some(X64Regs { rip: value, ..r })
    } else {
        None
    }
}

/// Sets the register that `name` names (in any ASCII case; `pc` is `rip`).
pub fn set_x64_reg(r: &mut X64Regs, name: &str, value: u64) -> (res: Result<(), String>)
    ensures
        match set_x64_reg_spec(*old(r), name@, value) {
            Some(n) => res is Ok && *final(r) == n,
            None => *final(r) == *old(r) && (res matches Err(e) && e@ == "unknown x64 register "@ + name@),
        },
{
    let lower = crate::text::lower_ascii_chars(&chars_of(name));
    let l = &lower;
    if crate::text::chars_is(l, "rax") {
        r.rax = value;
    } else if crate::text::chars_is(l, "rbx") {
        r.rbx = value;
    } else if crate::text::chars_is(l, "rcx") {
        r.rcx = value;
    } else if crate::text::chars_is(l, "rdx") {
        r.rdx = value;
    } else if crate::text::chars_is(l, "rsi") {
        r.rsi = value;
    } else if crate::text::chars_is(l, "rdi") {
        r.rdi = value;
    } else if crate::text::chars_is(l, "rbp") {
        r.rbp = value;
    } else if crate::text::chars_is(l, "rsp") {
        r.rsp = value;
    } else if crate::text::chars_is(l, "r8") {
        r.r8 = value;
    } else if crate::text::chars_is(l, "r9") {
        r.r9 = value;
    } else if crate::text::chars_is(l, "r10") {
        r.r10 = value;
    } else if crate::text::chars_is(l, "r11") {
        r.r11 = value;
    } else if crate::text::chars_is(l, "r12") {
        r.r12 = value;
    } else if crate::text::chars_is(l, "r13") {
        r.r13 = value;
    } else if crate::text::chars_is(l, "r14") {
        r.r14 = value;
    } else if crate::text::chars_is(l, "r15") {
        r.r15 = value;
    } else if crate::text::chars_is(l, "rip") || crate::text::chars_is(l, "pc") {
        r.rip = value;
    } else {
        let mut msg = string_from("unknown x64 register ");
        crate::text::append_str(&mut msg, name);
        return Err(msg);
    }
    Ok(())
}

/// The registers with the trap flag set, so that the thread stops after one
/// instruction.
pub fn with_trap_flag(r: X64Regs) -> (s: X64Regs)
    ensures
        s == (X64Regs { eflags: r.eflags | 0x100, ..r }),
{
    X64Regs { eflags: r.eflags | 0x100, ..r }
}

// ─── Disassembly ────────────────────────────────────────────────────────

/// What iced-x86 makes of the 64-bit instruction at the start of `bytes`
/// when it sits at address `ip`: its length and its NASM text, or `None`
/// when the bytes hold no valid instruction.
pub uninterp spec fn spec_x64_decode(bytes: Seq<u8>, ip: u64) -> Option<(nat, Seq<char>)>;

/// iced-x86 `Decoder::decode` of one 64-bit instruction at `bytes[pos..]`
/// with the address `ip`, and `NasmFormatter::format` of it with "`" as the
/// digit separator and the operands from column 8. The result is named by
/// `spec_x64_decode`; what the source shows of it is stated: a valid
/// instruction is between 1 and 15 bytes long and lies within the bytes
/// given.
#[verifier::external_body]
fn decode_x64_at(bytes: &Vec<u8>, pos: usize, ip: u64) -> (r: Option<(usize, String)>)
    requires
        pos <= bytes@.len(),
    ensures
        match r {
            Some((n, t)) => spec_x64_decode(bytes@.skip(pos as int), ip) == Some((n as nat, t@)) && 1 <= n
                <= 15 && pos + n <= bytes@.len(),
            None => spec_x64_decode(bytes@.skip(pos as int), ip) is None,
        },
{
    let instr = Decoder::with_ip(64, &bytes[pos..], ip, DecoderOptions::NONE).decode();
    if instr.is_invalid() {
        return None;
    }
    let mut formatter = NasmFormatter::new();
    formatter.options_mut().set_digit_separator("`");
    formatter.options_mut().set_first_operand_char_index(8);
    let mut text = String::new();
    formatter.format(&instr, &mut text);
    Some((instr.len(), text))
}

/// The address of the instruction at offset `pos` of bytes read at `addr`.
pub open spec fn disasm_ip(addr: u64, pos: nat) -> u64 {
    ((addr + pos) % 0x1_0000_0000_0000_0000) as u64
}

/// The bytes shown for an instruction of `n` bytes at `ip`: from its offset
/// to the read address (0 when `ip` wrapped below it), clipped to the bytes
/// read.
pub open spec fn shown_bytes(bytes: Seq<u8>, addr: u64, ip: u64, n: nat) -> Seq<u8> {
    let off: int = if ip >= addr {
        ip - addr
    } else {
        0
    };
    if off < bytes.len() {
        bytes.subrange(off, if bytes.len() < off + n { bytes.len() as int } else { off + n })
    } else {
        Seq::empty()
    }
}

/// At most `k` lines of disassembly of `bytes` (read at `addr`) from offset
/// `pos` on, up to the first byte that starts no valid instruction.
#[verifier::opaque]
pub open spec fn x64_lines(bytes: Seq<u8>, addr: u64, pos: nat, k: nat) -> Seq<Json>
    decreases k,
{
    if k == 0 || pos >= bytes.len() {
        Seq::empty()
    } else {
        let ip = disasm_ip(addr, pos);
        match spec_x64_decode(bytes.skip(pos as int), ip) {
            None => Seq::empty(),
            Some((n, text)) => seq![
                crate::protocol::disasm_json(
                    spec_hex_u64(ip),
                    bytes_hex(shown_bytes(bytes, addr, ip, n)),
                    text,
                ),
            ] + x64_lines(bytes, addr, pos + n, (k - 1) as nat),
        }
    }
}

proof fn lemma_x64_lines_step(bytes: Seq<u8>, addr: u64, pos: nat, k: nat, n: nat, text: Seq<char>)
    requires
        k > 0,
        pos < bytes.len(),
        spec_x64_decode(bytes.skip(pos as int), disasm_ip(addr, pos)) == Some((n, text)),
    ensures
        x64_lines(bytes, addr, pos, k) == seq![
            crate::protocol::disasm_json(
                spec_hex_u64(disasm_ip(addr, pos)),
                bytes_hex(shown_bytes(bytes, addr, disasm_ip(addr, pos), n)),
                text,
            ),
        ] + x64_lines(bytes, addr, pos + n, (k - 1) as nat),
{
    reveal(x64_lines);
}

proof fn lemma_ip_step(addr: u64, pos: nat, n: nat)
    requires
        n < 0x1_0000_0000_0000_0000,
    ensures
        disasm_ip(addr, pos + n) == disasm_ip(addr, pos).wrapping_add(n as u64),
{
    let m: int = 0x1_0000_0000_0000_0000;
    vstd::arithmetic::div_mod::lemma_add_mod_noop(addr + pos, n as int, m);
    vstd::arithmetic::div_mod::lemma_small_mod(n, m as nat);
    let ip = disasm_ip(addr, pos);
    if ip + n >= m {
        vstd::arithmetic::div_mod::lemma_mod_sub_multiples_vanish((ip + n) as int, m);
        vstd::arithmetic::div_mod::lemma_small_mod((ip + n - m) as nat, m as nat);
    } else {
        vstd::arithmetic::div_mod::lemma_small_mod((ip + n) as nat, m as nat);
    }
}

proof fn lemma_x64_lines_end(bytes: Seq<u8>, addr: u64, pos: nat, k: nat)
    requires
        k == 0 || pos >= bytes.len() || spec_x64_decode(bytes.skip(pos as int), disasm_ip(addr, pos)) is None,
    ensures
        x64_lines(bytes, addr, pos, k) == Seq::<Json>::empty(),
{
    reveal(x64_lines);
}

/// The line of an instruction of `n` bytes at `ip` with text `text`.
fn x64_line_value(bytes: &Vec<u8>, addr: u64, ip: u64, n: usize, text: String) -> (r: JsonValue)
    ensures
        r@ == crate::protocol::disasm_json(spec_hex_u64(ip), bytes_hex(shown_bytes(bytes@, addr, ip, n as nat)), text@),
{
    let len = bytes.len();
    let off: u64 = if ip >= addr {
        ip - addr
    } else {
        0
    };
    let (lo, hi): (usize, usize) = if off < len as u64 {
        let o = off as usize;
        let end = if len - o < n {
            len
        } else {
            o + n
        };
        (o, end)
    } else {
        (0, 0)
    };
    proof {
        assert(bytes@.subrange(lo as int, hi as int) == shown_bytes(bytes@, addr, ip, n as nat)) by {
            if !(off < len) {
                assert(bytes@.subrange(0, 0) =~= Seq::<u8>::empty());
            }
        }
    }
    crate::protocol::DisasmLine { addr: crate::num::hex_u64(ip), bytes: bytes_hex_value(bytes, lo, hi), text }.to_json()
}

/// Disassembles at most `count` instructions of `bytes`, read at `addr`.
pub fn x64_disassemble(bytes: &Vec<u8>, addr: u64, count: usize) -> (r: Vec<JsonValue>)
    ensures
        crate::json::items_view(r@) == x64_lines(bytes@, addr, 0, count as nat),
{
    let mut items = new_items();
    let mut pos: usize = 0;
    let mut ip: u64 = addr;
    let len = bytes.len();
    proof {
        assert(disasm_ip(addr, 0) == addr);
        assert(crate::json::items_view(items@) + x64_lines(bytes@, addr, 0, count as nat) =~= x64_lines(
            bytes@,
            addr,
            0,
            count as nat,
        ));
        if !(pos < len && items@.len() < count) {
            lemma_x64_lines_end(bytes@, addr, 0, count as nat);
        }
    }
    while pos < len && items.len() < count
        invariant
            len == bytes@.len(),
            pos <= len,
            items@.len() <= count,
            ip == disasm_ip(addr, pos as nat),
            x64_lines(bytes@, addr, 0, count as nat) == crate::json::items_view(items@) + x64_lines(
                bytes@,
                addr,
                pos as nat,
                (count - items@.len()) as nat,
            ),
            !(pos < len && items@.len() < count) ==> x64_lines(bytes@, addr, 0, count as nat)
                == crate::json::items_view(items@),
        ensures
            x64_lines(bytes@, addr, 0, count as nat) == crate::json::items_view(items@),
        decreases len - pos,
    {
        let ghost k = (count - items@.len()) as nat;
        match decode_x64_at(bytes, pos, ip) {
            None => {
                proof {
                    lemma_x64_lines_end(bytes@, addr, pos as nat, k);
                    assert(crate::json::items_view(items@) + Seq::<Json>::empty() =~= crate::json::items_view(items@));
                }
                break;
            },
            Some((n, text)) => {
                proof {
                    lemma_x64_lines_step(bytes@, addr, pos as nat, k, n as nat, text@);
                }
                let line = x64_line_value(bytes, addr, ip, n, text);
                let ghost before = crate::json::items_view(items@);
                push_item(&mut items, line);
                proof {
                    let rest = x64_lines(bytes@, addr, (pos + n) as nat, (k - 1) as nat);
                    assert(before + (seq![line@] + rest) =~= crate::json::items_view(items@) + rest);
                    lemma_ip_step(addr, pos as nat, n as nat);
                }
                ip = ip.wrapping_add(n as u64);
                pos = pos + n;
            },
        }
        proof {
            if !(pos < len && items@.len() < count) {
                lemma_x64_lines_end(bytes@, addr, pos as nat, (count - items@.len()) as nat);
                assert(crate::json::items_view(items@) + Seq::<Json>::empty() =~= crate::json::items_view(items@));
            }
        }
    }
    items
}


// ─── Software breakpoints ───────────────────────────────────────────────

/// An `int3` breakpoint and the byte it replaced.
#[derive(Debug, Clone, Copy)]
pub struct SoftBreakpoint {
    pub id: u64,
    pub addr: u64,
    pub original: u8,
}

/// The software breakpoints by ID.
#[derive(Debug)]
pub struct SoftBreakpoints {
    next_bp: u64,
    bps: HashMap<u64, SoftBreakpoint>,
}

pub struct SoftBpView {
    pub next_bp: u64,
    pub bps: Map<u64, SoftBreakpoint>,
}

impl View for SoftBreakpoints {
    type V = SoftBpView;

    closed spec fn view(&self) -> SoftBpView {
        SoftBpView { next_bp: self.next_bp, bps: self.bps@ }
    }
}

/// IDs start at 1, each breakpoint sits under its own ID, and every ID is
/// below the next one.
pub open spec fn soft_wf(v: SoftBpView) -> bool {
    &&& v.next_bp >= 1
    &&& forall|id: u64| #[trigger] v.bps.contains_key(id) ==> v.bps[id].id == id && id < v.next_bp
}

/// Whether some breakpoint sits at `addr`.
pub open spec fn soft_has_addr(m: Map<u64, SoftBreakpoint>, addr: u64) -> bool {
    exists|id: u64| #[trigger] m.contains_key(id) && m[id].addr == addr
}

/// What `bpSet` answers.
pub open spec fn soft_set_json(id: u64, addr: u64, original: u8) -> Json {
    Json::Object(
        seq![
            ("id"@, Json::UInt(id)),
            ("addr"@, Json::Str(spec_hex_u64(addr))),
            ("enabled"@, Json::Bool(true)),
            ("kind"@, Json::Str("software-int3"@)),
            ("original"@, Json::Str(seq!['0', 'x'] + crate::num::hex_fixed(original as nat, 2, false))),
        ],
    )
}

/// One breakpoint as `bpList` reports it.
pub open spec fn soft_record_json(b: SoftBreakpoint) -> Json {
    Json::Object(
        seq![
            ("id"@, Json::UInt(b.id)),
            ("addr"@, Json::Str(spec_hex_u64(b.addr))),
            ("kind"@, Json::Str("int3"@)),
            ("enabled"@, Json::Bool(true)),
            ("hit_count"@, Json::UInt(0)),
        ],
    )
}

/// The answer to clearing one breakpoint that was found.
pub open spec fn soft_cleared_json(b: SoftBreakpoint) -> Json {
    Json::Object(
        seq![("cleared"@, Json::Bool(true)), ("id"@, Json::UInt(b.id)), ("addr"@, Json::Str(spec_hex_u64(b.addr)))],
    )
}

fn soft_cleared_value(b: SoftBreakpoint) -> (r: JsonValue)
    ensures
        r@ == soft_cleared_json(b),
{
    let mut f = new_fields();
    push_field(&mut f, "cleared", JsonValue::Bool(true));
    push_field(&mut f, "id", JsonValue::UInt(b.id));
    push_field(&mut f, "addr", jhex(b.addr));
    proof {
        assert(crate::json::fields_view(f@) =~= seq![
            ("cleared"@, Json::Bool(true)),
            ("id"@, Json::UInt(b.id)),
            ("addr"@, Json::Str(spec_hex_u64(b.addr))),
        ]);
        lemma_object_view(f);
    }
    JsonValue::Object(f)
}

fn soft_not_cleared_value(key: &str, value: JsonValue) -> (r: JsonValue)
    ensures
        r@ == Json::Object(seq![("cleared"@, Json::Bool(false)), (key@, value@)]),
{
    let mut f = new_fields();
    push_field(&mut f, "cleared", JsonValue::Bool(false));
    push_field(&mut f, key, value);
    proof {
        assert(crate::json::fields_view(f@) =~= seq![("cleared"@, Json::Bool(false)), (key@, value@)]);
        lemma_object_view(f);
    }
    JsonValue::Object(f)
}

/// Set, then clear: the breakpoint that `add` records under the next ID is
/// the one that `clear_id` takes out under that ID, and the only one that
/// `clear_addr` can find at its address when no other breakpoint was there;
/// taking it out gives back the table as it was before, and the clear hands
/// back the byte that the breakpoint replaced.
pub proof fn law_soft_set_then_clear(v: SoftBpView, addr: u64, original: u8)
    requires
        soft_wf(v),
        v.next_bp < u64::MAX,
    ensures
        ({
            let b = SoftBreakpoint { id: v.next_bp, addr, original };
            let m = v.bps.insert(v.next_bp, b);
            &&& !v.bps.contains_key(v.next_bp)
            &&& soft_wf(SoftBpView { next_bp: (v.next_bp + 1) as u64, bps: m })
            &&& m[v.next_bp] == b
            &&& m.remove(v.next_bp) == v.bps
            &&& !soft_has_addr(v.bps, addr) ==> forall|id: u64|
                #[trigger] m.contains_key(id) && m[id].addr == addr ==> id == v.next_bp
        }),
{
    let b = SoftBreakpoint { id: v.next_bp, addr, original };
    let m = v.bps.insert(v.next_bp, b);
    assert(m.remove(v.next_bp) =~= v.bps);
}

impl SoftBreakpoints {
    /// No breakpoints; the first ID is 1.
    pub fn new() -> (r: SoftBreakpoints)
        ensures
            r@.next_bp == 1,
            r@.bps == Map::<u64, SoftBreakpoint>::empty(),
            soft_wf(r@),
    {
        SoftBreakpoints { next_bp: 1, bps: HashMap::new() }
    }

    /// Whether another ID can be given out.
    pub fn can_add(&self) -> (r: bool)
        ensures
            r == (self@.next_bp < u64::MAX),
    {
        self.next_bp < u64::MAX
    }

    /// Records a breakpoint at `addr` that replaced `original`, under the
    /// next ID, and gives the answer to `bpSet`.
    pub fn add(&mut self, addr: u64, original: u8) -> (r: JsonValue)
        requires
            soft_wf(old(self)@),
            old(self)@.next_bp < u64::MAX,
        ensures
            soft_wf(final(self)@),
            final(self)@.next_bp == old(self)@.next_bp + 1,
            !old(self)@.bps.contains_key(old(self)@.next_bp),
            final(self)@.bps == old(self)@.bps.insert(
                old(self)@.next_bp,
                SoftBreakpoint { id: old(self)@.next_bp, addr, original },
            ),
            r@ == soft_set_json(old(self)@.next_bp, addr, original),
    {
        let id = self.next_bp;
        self.next_bp = self.next_bp + 1;
        self.bps.insert(id, SoftBreakpoint { id, addr, original });
        proof {
            assert forall|k: u64| #[trigger] self@.bps.contains_key(k) implies self@.bps[k].id == k && k
                < self@.next_bp by {
                if k != id {
                    assert(old(self)@.bps.contains_key(k));
                }
            }
        }
        let mut orig: Vec<char> = Vec::new();
        orig.push('0');
        orig.push('x');
        crate::num::push_hex_fixed(&mut orig, original as u64, 2, false);
        let mut f = new_fields();
        push_field(&mut f, "id", JsonValue::UInt(id));
        push_field(&mut f, "addr", jhex(addr));
        push_field(&mut f, "enabled", JsonValue::Bool(true));
        push_field(&mut f, "kind", jstr("software-int3"));
        push_field(&mut f, "original", JsonValue::Str(crate::text::string_of(&orig)));
        proof {
            assert(orig@ =~= seq!['0', 'x'] + crate::num::hex_fixed(original as nat, 2, false));
            assert(crate::json::fields_view(f@) =~= soft_set_json(id, addr, original)->Object_0);
            lemma_object_view(f);
        }
        JsonValue::Object(f)
    }

    /// Forgets every breakpoint without putting bytes back (the debuggee is
    /// gone); the next ID stays.
    pub fn forget_all(&mut self)
        ensures
            soft_wf(old(self)@) ==> soft_wf(final(self)@),
            final(self)@.next_bp == old(self)@.next_bp,
            final(self)@.bps == Map::<u64, SoftBreakpoint>::empty(),
    {
        self.bps = HashMap::new();
    }

    /// The breakpoint IDs, each once, in the order in which the table walks
    /// them (which the map leaves open).
    fn ids(&self) -> (r: Vec<u64>)
        ensures
            lists_once(r@, self@.bps.dom()),
    {
        let ghost ks = IteratorSpec::remaining(&vstd::std_specs::hash::spec_keys_iter(&self.bps)).unref();
        let mut r: Vec<u64> = Vec::new();
        for k in it: self.bps.keys()
            invariant
                it.seq().unref() == ks,
                r@ == ks.take(it.index() as int),
        {
            r.push(*k);
            assert(ks.take(it.index() + 1) =~= ks.take(it.index() as int).push(*k));
        }
        assert(ks.take(ks.len() as int) =~= ks);
        r
    }

    /// The answer to `bpList`: every breakpoint once, in the order in which
    /// the table walks them.
    pub fn list_json(&self) -> (r: JsonValue)
        ensures
            exists|ks: Seq<u64>|
                lists_once(ks, self@.bps.dom()) && r@ == Json::Object(
                    seq![("breakpoints"@, Json::Array(ks.map_values(|k: u64| soft_record_json(self@.bps[k]))))],
                ),
    {
        let ks = self.ids();
        let mut items = new_items();
        let mut i: usize = 0;
        while i < ks.len()
            invariant
                i <= ks@.len(),
                lists_once(ks@, self@.bps.dom()),
                crate::json::items_view(items@) == ks@.take(i as int).map_values(
                    |k: u64| soft_record_json(self@.bps[k]),
                ),
            decreases ks@.len() - i,
        {
            let k = ks[i];
            proof {
                assert(ks@.contains(k));
                assert(ks@.to_set().contains(k));
            }
            match self.bps.get(&k) {
                Some(b) => {
                    let b = *b;
                    let mut f = new_fields();
                    push_field(&mut f, "id", JsonValue::UInt(b.id));
                    push_field(&mut f, "addr", jhex(b.addr));
                    push_field(&mut f, "kind", jstr("int3"));
                    push_field(&mut f, "enabled", JsonValue::Bool(true));
                    push_field(&mut f, "hit_count", JsonValue::UInt(0));
                    proof {
                        assert(crate::json::fields_view(f@) =~= soft_record_json(b)->Object_0);
                        lemma_object_view(f);
                    }
                    push_item(&mut items, JsonValue::Object(f));
                },
                None => {},
            }
            proof {
                assert(ks@.take(i + 1) =~= ks@.take(i as int).push(k));
            }
            i = i + 1;
            assert(crate::json::items_view(items@) =~= ks@.take(i as int).map_values(
                |k: u64| soft_record_json(self@.bps[k]),
            ));
        }
        assert(ks@.take(i as int) =~= ks@);
        proof {
            lemma_array_view(items);
        }
        let mut f = new_fields();
        push_field(&mut f, "breakpoints", JsonValue::Array(items));
        proof {
            lemma_object_view(f);
        }
        JsonValue::Object(f)
    }

    /// Removes every breakpoint: the address and original byte of each, to
    /// put back, in the order in which the table walks them, and the answer
    /// with their count.
    pub fn clear_all(&mut self) -> (r: (Vec<(u64, u8)>, JsonValue))
        requires
            soft_wf(old(self)@),
        ensures
            soft_wf(final(self)@),
            final(self)@.next_bp == old(self)@.next_bp,
            final(self)@.bps == Map::<u64, SoftBreakpoint>::empty(),
            exists|ks: Seq<u64>|
                lists_once(ks, old(self)@.bps.dom()) && r.0@ == ks.map_values(
                    |k: u64| (old(self)@.bps[k].addr, old(self)@.bps[k].original),
                ),
            r.1@ == Json::Object(
                seq![
                    ("cleared"@, Json::Bool(true)),
                    ("count"@, Json::UInt(r.0@.len() as u64)),
                    ("all"@, Json::Bool(true)),
                ],
            ),
    {
        let ghost orig = self@.bps;
        let ks = self.ids();
        let mut restores: Vec<(u64, u8)> = Vec::new();
        let mut i: usize = 0;
        while i < ks.len()
            invariant
                i <= ks@.len(),
                lists_once(ks@, orig.dom()),
                self@.next_bp == old(self)@.next_bp,
                forall|t: u64| #[trigger] self@.bps.contains_key(t) <==> (orig.contains_key(t) && !ks@.take(i as int).contains(t)),
                forall|t: u64| #[trigger] self@.bps.contains_key(t) ==> orig.contains_key(t) && self@.bps[t] == orig[t],
                restores@ == ks@.take(i as int).map_values(|k: u64| (orig[k].addr, orig[k].original)),
            decreases ks@.len() - i,
        {
            let t = ks[i];
            proof {
                assert(ks@.take(i + 1) =~= ks@.take(i as int).push(t));
                lemma_push_contains(ks@.take(i as int), t);
                assert(ks@.contains(t));
                assert(ks@.to_set().contains(t));
                assert(!ks@.take(i as int).contains(t)) by {
                    if ks@.take(i as int).contains(t) {
                        let j = choose|j: int| 0 <= j < i && ks@.take(i as int)[j] == t;
                        assert(ks@[j] == ks@[i as int]);
                    }
                }
            }
            assert(self@.bps.contains_key(t));
            let removed = self.bps.remove(&t);
            match removed {
                Some(b) => {
                    restores.push((b.addr, b.original));
                },
                None => {},
            }
            proof {
                assert(restores@ =~= ks@.take(i + 1).map_values(|k: u64| (orig[k].addr, orig[k].original)));
            }
            i = i + 1;
        }
        proof {
            assert(ks@.take(ks@.len() as int) =~= ks@);
            assert forall|t: u64| !self@.bps.contains_key(t) by {
                if orig.contains_key(t) {
                    assert(ks@.to_set().contains(t));
                }
            }
            assert(self@.bps =~= Map::<u64, SoftBreakpoint>::empty());
        }
        let count = restores.len() as u64;
        let mut f = new_fields();
        push_field(&mut f, "cleared", JsonValue::Bool(true));
        push_field(&mut f, "count", JsonValue::UInt(count));
        push_field(&mut f, "all", JsonValue::Bool(true));
        proof {
            assert(crate::json::fields_view(f@) =~= seq![
                ("cleared"@, Json::Bool(true)),
                ("count"@, Json::UInt(count)),
                ("all"@, Json::Bool(true)),
            ]);
            lemma_object_view(f);
        }
        (restores, JsonValue::Object(f))
    }

    /// Removes the breakpoint with ID `id`, if there is one: its address and
    /// original byte to put back, and the answer.
    pub fn clear_id(&mut self, id: u64) -> (r: (Option<(u64, u8)>, JsonValue))
        requires
            soft_wf(old(self)@),
        ensures
            soft_wf(final(self)@),
            final(self)@.next_bp == old(self)@.next_bp,
            final(self)@.bps == old(self)@.bps.remove(id),
            if old(self)@.bps.contains_key(id) {
                let b = old(self)@.bps[id];
                &&& r.0 == Some((b.addr, b.original))
                &&& r.1@ == soft_cleared_json(b)
            } else {
                &&& r.0 is None
                &&& r.1@ == Json::Object(seq![("cleared"@, Json::Bool(false)), ("id"@, Json::UInt(id))])
            },
    {
        let removed = self.bps.remove(&id);
        match removed {
            Some(b) => (Some((b.addr, b.original)), soft_cleared_value(b)),
            None => (None, soft_not_cleared_value("id", JsonValue::UInt(id))),
        }
    }

    /// The ID of a breakpoint at `addr`, the first that the table walks to.
    fn id_at(&self, addr: u64) -> (r: Option<u64>)
        ensures
            match r {
                Some(k) => self@.bps.contains_key(k) && self@.bps[k].addr == addr,
                None => !soft_has_addr(self@.bps, addr),
            },
    {
        let ks = self.ids();
        let mut i: usize = 0;
        while i < ks.len()
            invariant
                i <= ks@.len(),
                lists_once(ks@, self@.bps.dom()),
                forall|j: int| 0 <= j < i ==> self@.bps[#[trigger] ks@[j]].addr != addr,
            decreases ks@.len() - i,
        {
            let k = ks[i];
            proof {
                assert(ks@.contains(k));
                assert(ks@.to_set().contains(k));
            }
            match self.bps.get(&k) {
                Some(b) => {
                    if b.addr == addr {
                        return Some(k);
                    }
                },
                None => {},
            }
            i = i + 1;
        }
        proof {
            if soft_has_addr(self@.bps, addr) {
                let k = choose|k: u64| #[trigger] self@.bps.contains_key(k) && self@.bps[k].addr == addr;
                assert(ks@.to_set().contains(k));
                assert(ks@.contains(k));
                let j = choose|j: int| 0 <= j < ks@.len() && ks@[j] == k;
                assert(self@.bps[ks@[j]].addr != addr);
            }
        }
        None
    }

    /// Removes a breakpoint at `addr`, if there is one (the first that the
    /// table walks to): its address and original byte to put back, and the
    /// answer.
    pub fn clear_addr(&mut self, addr: u64) -> (r: (Option<(u64, u8)>, JsonValue))
        requires
            soft_wf(old(self)@),
        ensures
            soft_wf(final(self)@),
            final(self)@.next_bp == old(self)@.next_bp,
            if soft_has_addr(old(self)@.bps, addr) {
                exists|k: u64|
                    #[trigger] old(self)@.bps.contains_key(k) && old(self)@.bps[k].addr == addr && final(self)@.bps
                        == old(self)@.bps.remove(k) && r.0 == Some((addr, old(self)@.bps[k].original)) && r.1@
                        == soft_cleared_json(old(self)@.bps[k])
            } else {
                &&& final(self)@ == old(self)@
                &&& r.0 is None
                &&& r.1@ == Json::Object(
                    seq![("cleared"@, Json::Bool(false)), ("addr"@, Json::Str(spec_hex_u64(addr)))],
                )
            },
    {
        match self.id_at(addr) {
            Some(k) => {
                let removed = self.bps.remove(&k);
                match removed {
                    Some(b) => (Some((b.addr, b.original)), soft_cleared_value(b)),
                    None => (None, soft_not_cleared_value("addr", jhex(addr))),
                }
            },
            None => (None, soft_not_cleared_value("addr", jhex(addr))),
        }
    }
}


// ─── Threads ────────────────────────────────────────────────────────────

/// The threads of the debuggee by ID, each with a handle of type `H`.
pub struct ThreadTable<H> {
    threads: HashMap<u32, H>,
}

impl<H> View for ThreadTable<H> {
    type V = Map<u32, H>;

    closed spec fn view(&self) -> Map<u32, H> {
        self.threads@
    }
}

/// `ks` names each key of `ids` once.
pub open spec fn lists_once<K>(ks: Seq<K>, ids: Set<K>) -> bool {
    ks.no_duplicates() && ks.to_set() == ids
}

/// The handles of the threads `ks`, in that order.
pub open spec fn handles_of<H>(m: Map<u32, H>, ks: Seq<u32>) -> Seq<H> {
    ks.map_values(|t: u32| m[t])
}

proof fn lemma_push_contains<K>(s: Seq<K>, v: K)
    ensures
        forall|x: K| #[trigger] s.push(v).contains(x) <==> (s.contains(x) || x == v),
{
    assert forall|x: K| #[trigger] s.push(v).contains(x) <==> (s.contains(x) || x == v) by {
        if s.contains(x) {
            let j = choose|j: int| 0 <= j < s.len() && s[j] == x;
            assert(s.push(v)[j] == x);
        }
        if x == v {
            assert(s.push(v)[s.len() as int] == x);
        }
        if s.push(v).contains(x) && x != v {
            let j = choose|j: int| 0 <= j < s.push(v).len() && s.push(v)[j] == x;
            assert(s[j] == x);
        }
    }
}

/// Whether `t` occurs in `seen`.
fn seen_has(seen: &Vec<u32>, t: u32) -> (r: bool)
    ensures
        r == seen@.contains(t),
{
    let mut k: usize = 0;
    while k < seen.len()
        invariant
            k <= seen@.len(),
            forall|j: int| 0 <= j < k ==> seen@[j] != t,
        decreases seen@.len() - k,
    {
        if seen[k] == t {
            return true;
        }
        k = k + 1;
    }
    false
}

impl<H> ThreadTable<H> {
    /// An empty table.
    pub fn new() -> (r: ThreadTable<H>)
        ensures
            r@ == Map::<u32, H>::empty(),
    {
        ThreadTable { threads: HashMap::new() }
    }

    /// Whether thread `tid` is in the table.
    pub fn contains(&self, tid: u32) -> (r: bool)
        ensures
            r == self@.contains_key(tid),
    {
        self.threads.contains_key(&tid)
    }

    /// The handle of thread `tid`, if it is in the table.
    pub fn get(&self, tid: u32) -> (r: Option<&H>)
        ensures
            match r {
                Some(h) => self@.contains_key(tid) && self@[tid] == *h,
                None => !self@.contains_key(tid),
            },
    {
        self.threads.get(&tid)
    }

    /// Puts thread `tid` with handle `h` in the table, and gives back the
    /// handle it replaced.
    pub fn insert(&mut self, tid: u32, h: H) -> (r: Option<H>)
        ensures
            final(self)@ == old(self)@.insert(tid, h),
            match r {
                Some(o) => old(self)@.contains_key(tid) && o == old(self)@[tid],
                None => !old(self)@.contains_key(tid),
            },
    {
        self.threads.insert(tid, h)
    }

    /// Takes thread `tid` out of the table, with its handle.
    pub fn remove(&mut self, tid: u32) -> (r: Option<H>)
        ensures
            final(self)@ == old(self)@.remove(tid),
            match r {
                Some(o) => old(self)@.contains_key(tid) && o == old(self)@[tid],
                None => !old(self)@.contains_key(tid),
            },
    {
        self.threads.remove(&tid)
    }

    /// The thread IDs, each once, in the order in which the table walks
    /// them (which the map leaves open).
    pub fn tids(&self) -> (r: Vec<u32>)
        ensures
            lists_once(r@, self@.dom()),
    {
        let ghost ks = IteratorSpec::remaining(&vstd::std_specs::hash::spec_keys_iter(&self.threads)).unref();
        let mut r: Vec<u32> = Vec::new();
        for k in it: self.threads.keys()
            invariant
                it.seq().unref() == ks,
                r@ == ks.take(it.index() as int),
        {
            r.push(*k);
            assert(ks.take(it.index() + 1) =~= ks.take(it.index() as int).push(*k));
        }
        assert(ks.take(ks.len() as int) =~= ks);
        r
    }

    /// The first thread ID in the order in which the table walks them, if
    /// there is a thread.
    pub fn first_tid(&self) -> (r: Option<u32>)
        ensures
            match r {
                Some(t) => self@.contains_key(t),
                None => self@.dom().is_empty(),
            },
    {
        let ghost ks = IteratorSpec::remaining(&vstd::std_specs::hash::spec_keys_iter(&self.threads)).unref();
        for k in it: self.threads.keys()
            invariant
                it.seq().unref() == ks,
                it.index() == 0,
        {
            assert(ks[0] == *k);
            assert(ks.to_set().contains(ks[0]));
            return Some(*k);
        }
        assert(ks.to_set() =~= Set::<u32>::empty());
        None
    }

    /// Takes out every thread that is not in `seen` and gives back their
    /// handles, to be closed.
    pub fn retain_seen(&mut self, seen: &Vec<u32>) -> (r: Vec<H>)
        ensures
            final(self)@ == old(self)@.restrict(seen@.to_set()),
            exists|ks: Seq<u32>|
                lists_once(ks, old(self)@.dom().difference(seen@.to_set())) && r@ == handles_of(old(self)@, ks),
    {
        let ghost orig = self@;
        let ks = self.tids();
        let mut out: Vec<H> = Vec::new();
        let ghost mut stale: Seq<u32> = Seq::empty();
        let mut i: usize = 0;
        while i < ks.len()
            invariant
                i <= ks@.len(),
                lists_once(ks@, orig.dom()),
                stale.no_duplicates(),
                forall|t: u32| #[trigger] stale.contains(t) <==> (ks@.take(i as int).contains(t) && !seen@.contains(t)),
                forall|t: u32| #[trigger] self@.contains_key(t) <==> (orig.contains_key(t) && !stale.contains(t)),
                forall|t: u32| #[trigger] self@.contains_key(t) ==> orig.contains_key(t) && self@[t] == orig[t],
                out@ == handles_of(orig, stale),
            decreases ks@.len() - i,
        {
            let t = ks[i];
            proof {
                assert(ks@.take(i + 1) =~= ks@.take(i as int).push(t));
                lemma_push_contains(ks@.take(i as int), t);
                assert(ks@.contains(t));
                assert(ks@.to_set().contains(t));
                assert(!ks@.take(i as int).contains(t)) by {
                    if ks@.take(i as int).contains(t) {
                        let j = choose|j: int| 0 <= j < i && ks@.take(i as int)[j] == t;
                        assert(ks@[j] == ks@[i as int]);
                    }
                }
                assert(!stale.contains(t));
            }
            if !seen_has(seen, t) {
                let ghost s_before = self@;
                assert(self@.contains_key(t));
                let removed = self.threads.remove(&t);
                match removed {
                    Some(h) => {
                        out.push(h);
                    },
                    None => {},
                }
                proof {
                    let s0 = stale;
                    stale = stale.push(t);
                    lemma_push_contains(s0, t);
                    assert forall|x: int, y: int| 0 <= x < y < stale.len() implies stale[x] != stale[y] by {
                        if y == stale.len() - 1 {
                            assert(s0.contains(stale[x]));
                        } else {
                            assert(stale[x] == s0[x] && stale[y] == s0[y]);
                        }
                    }
                    assert(s0.map_values(|x: u32| orig[x]).push(orig[t]) =~= stale.map_values(|x: u32| orig[x]));
                    assert(out@ =~= handles_of(orig, stale));
                }
            }
            i = i + 1;
        }
        proof {
            assert(ks@.take(ks@.len() as int) =~= ks@);
            assert forall|t: u32| #[trigger] self@.contains_key(t) <==> (orig.contains_key(t) && seen@.to_set().contains(t)) by {
                assert(ks@.to_set().contains(t) == ks@.contains(t));
            }
            assert(self@ =~= orig.restrict(seen@.to_set()));
            assert(stale.to_set() =~= orig.dom().difference(seen@.to_set())) by {
                assert forall|t: u32| stale.to_set().contains(t) <==> orig.dom().difference(seen@.to_set()).contains(t) by {
                    assert(ks@.to_set().contains(t) == ks@.contains(t));
                }
            }
        }
        out
    }

    /// Takes every thread out and gives back their handles.
    pub fn drain(&mut self) -> (r: Vec<H>)
        ensures
            final(self)@ == Map::<u32, H>::empty(),
            exists|ks: Seq<u32>| lists_once(ks, old(self)@.dom()) && r@ == handles_of(old(self)@, ks),
    {
        let ghost orig = self@;
        let ks = self.tids();
        let mut out: Vec<H> = Vec::new();
        let mut i: usize = 0;
        while i < ks.len()
            invariant
                i <= ks@.len(),
                lists_once(ks@, orig.dom()),
                forall|t: u32| #[trigger] self@.contains_key(t) <==> (orig.contains_key(t) && !ks@.take(i as int).contains(t)),
                forall|t: u32| #[trigger] self@.contains_key(t) ==> orig.contains_key(t) && self@[t] == orig[t],
                out@ == handles_of(orig, ks@.take(i as int)),
            decreases ks@.len() - i,
        {
            let t = ks[i];
            proof {
                assert(ks@.take(i + 1) =~= ks@.take(i as int).push(t));
                lemma_push_contains(ks@.take(i as int), t);
                assert(ks@.contains(t));
                assert(ks@.to_set().contains(t));
                assert(!ks@.take(i as int).contains(t)) by {
                    if ks@.take(i as int).contains(t) {
                        let j = choose|j: int| 0 <= j < i && ks@.take(i as int)[j] == t;
                        assert(ks@[j] == ks@[i as int]);
                    }
                }
            }
            assert(self@.contains_key(t));
            let removed = self.threads.remove(&t);
            match removed {
                Some(h) => {
                    out.push(h);
                },
                None => {},
            }
            proof {
                assert(ks@.take(i as int).map_values(|x: u32| orig[x]).push(orig[t]) =~= ks@.take(i + 1).map_values(
                    |x: u32| orig[x],
                ));
                assert(out@ =~= handles_of(orig, ks@.take(i + 1)));
            }
            i = i + 1;
        }
        proof {
            assert(ks@.take(ks@.len() as int) =~= ks@);
            assert forall|t: u32| !self@.contains_key(t) by {
                if orig.contains_key(t) {
                    assert(ks@.to_set().contains(t));
                }
            }
            assert(self@ =~= Map::<u32, H>::empty());
        }
        out
    }
}

/// One thread as `threads` reports it: its decimal ID, whether it is the
/// active one, and no name or program counter.
pub open spec fn thread_entry_json(tid: u32, active: Option<u32>) -> Json {
    crate::protocol::thread_json(crate::num::dec_digits(tid as nat), None, None, active == Some(tid))
}

/// The answer to `threads`.
pub fn threads_value(tids: &Vec<u32>, active: Option<u32>) -> (r: JsonValue)
    ensures
        r@ == Json::Array(tids@.map_values(|t: u32| thread_entry_json(t, active))),
{
    let mut items = new_items();
    let mut i: usize = 0;
    while i < tids.len()
        invariant
            i <= tids@.len(),
            crate::json::items_view(items@) == tids@.take(i as int).map_values(|t: u32| thread_entry_json(t, active)),
        decreases tids@.len() - i,
    {
        let t = tids[i];
        let info = crate::protocol::ThreadInfo {
            id: crate::num::dec_u64(t as u64),
            name: None,
            pc: None,
            active: match active {
                Some(a) => a == t,
                None => false,
            },
        };
        push_item(&mut items, info.to_json());
        proof {
            assert(tids@.take(i + 1) =~= tids@.take(i as int).push(t));
        }
        i = i + 1;
        assert(crate::json::items_view(items@) =~= tids@.take(i as int).map_values(
            |t: u32| thread_entry_json(t, active),
        ));
    }
    assert(tids@.take(i as int) =~= tids@);
    proof {
        lemma_array_view(items);
    }
    JsonValue::Array(items)
}


// ─── Symbols ────────────────────────────────────────────────────────────

/// The module name to look a symbol up in: none for no module, the name as
/// given when it ends (in lower case) with `.dll` or `.exe`, else the name
/// with `.dll` added.
pub open spec fn dll_name_spec(module: Seq<char>) -> Seq<char> {
    let l = crate::text::lowercase(module);
    if module.len() == 0 {
        Seq::empty()
    } else if crate::text::ends_with(l, ".dll"@) || crate::text::ends_with(l, ".exe"@) {
        module
    } else {
        module + ".dll"@
    }
}

/// The module name to look a symbol up in.
pub fn dll_name_for(module: &str) -> (r: String)
    ensures
        r@ == dll_name_spec(module@),
{
    if module.is_empty() {
        return String::new();
    }
    let l = chars_of(crate::text::to_lowercase(module).as_str());
    if crate::text::chars_end_with(&l, ".dll") || crate::text::chars_end_with(&l, ".exe") {
        string_from(module)
    } else {
        let mut r = string_from(module);
        crate::text::append_str(&mut r, ".dll");
        r
    }
}

/// Whether a symbol name can be handed to the system as a C string (it
/// holds no NUL character).
pub fn symbol_name_ok(symbol: &str) -> (r: bool)
    ensures
        r == !crate::text::has_char(symbol@, '\0'),
{
    !crate::text::chars_contain(&chars_of(symbol), '\0')
}

/// The message when a symbol is not found.
pub open spec fn symbol_not_found_msg(symbol: Seq<char>, module: Seq<char>) -> Seq<char> {
    "symbol '"@ + symbol + "' not found in '"@ + (if module.len() == 0 {
        "process"@
    } else {
        module
    }) + "'"@
}

pub fn symbol_not_found_message(symbol: &str, module: &str) -> (r: String)
    ensures
        r@ == symbol_not_found_msg(symbol@, module@),
{
    let mut m = string_from("symbol '");
    crate::text::append_str(&mut m, symbol);
    crate::text::append_str(&mut m, "' not found in '");
    if module.is_empty() {
        crate::text::append_str(&mut m, "process");
    } else {
        crate::text::append_str(&mut m, module);
    }
    crate::text::append_str(&mut m, "'");
    m
}

/// The answer to a symbol that was found at `addr`.
pub open spec fn resolved_json(addr: u64, symbol: Seq<char>, module: Seq<char>) -> Json {
    Json::Object(
        seq![
            ("addr"@, Json::Str(spec_hex_u64(addr))),
            ("symbol"@, Json::Str(symbol)),
            ("module"@, Json::Str(module)),
            ("resolved"@, Json::Bool(true)),
        ],
    )
}

pub fn resolved_value(addr: u64, symbol: &str, module: &str) -> (r: JsonValue)
    ensures
        r@ == resolved_json(addr, symbol@, module@),
{
    let mut f = new_fields();
    push_field(&mut f, "addr", jhex(addr));
    push_field(&mut f, "symbol", jstr(symbol));
    push_field(&mut f, "module", jstr(module));
    push_field(&mut f, "resolved", JsonValue::Bool(true));
    proof {
        assert(crate::json::fields_view(f@) =~= resolved_json(addr, symbol@, module@)->Object_0);
        lemma_object_view(f);
    }
    JsonValue::Object(f)
}

// ─── Answers ────────────────────────────────────────────────────────────

/// The name the Windows backend gives itself.
pub const WINAPI_BACKEND_NAME: &'static str = "HYWDbg WinAPI Backend";

/// What the Windows backend answers to `hello`.
pub open spec fn winapi_hello_json() -> Json {
    Json::Object(
        seq![
            ("name"@, Json::Str(WINAPI_BACKEND_NAME@)),
            ("kind"@, Json::Str("winapi"@)),
            ("mode"@, Json::Str("stdio-backend"@)),
            ("real"@, Json::Bool(true)),
            ("debug_api"@, Json::Str("Windows Debug API"@)),
        ],
    )
}

pub fn winapi_hello() -> (r: JsonValue)
    ensures
        r@ == winapi_hello_json(),
{
    let mut f = new_fields();
    push_field(&mut f, "name", jstr(WINAPI_BACKEND_NAME));
    push_field(&mut f, "kind", jstr("winapi"));
    push_field(&mut f, "mode", jstr("stdio-backend"));
    push_field(&mut f, "real", JsonValue::Bool(true));
    push_field(&mut f, "debug_api", jstr("Windows Debug API"));
    proof {
        assert(crate::json::fields_view(f@) =~= winapi_hello_json()->Object_0);
        lemma_object_view(f);
    }
    JsonValue::Object(f)
}

/// What the Windows backend says of itself.
pub fn winapi_capabilities() -> (r: crate::protocol::BackendCapabilities)
    ensures
        r.name@ == WINAPI_BACKEND_NAME@,
        r.version@ == "0.1.0"@,
        r.backend_kind@ == "winapi"@,
        crate::protocol::strings_view(r.supported_arches@) == seq!["x64"@],
        crate::protocol::strings_view(r.features@) == seq![
            "real-winapi-debugloop"@,
            "launch"@,
            "attach"@,
            "go"@,
            "pause"@,
            "single-step"@,
            "read-process-memory"@,
            "write-process-memory"@,
            "get-thread-context"@,
            "set-thread-context"@,
            "software-breakpoint-int3"@,
            "threads"@,
            "modules"@,
        ],
{
    let mut arches: Vec<String> = Vec::new();
    arches.push(string_from("x64"));
    let mut f: Vec<String> = Vec::new();
    f.push(string_from("real-winapi-debugloop"));
    f.push(string_from("launch"));
    f.push(string_from("attach"));
    f.push(string_from("go"));
    f.push(string_from("pause"));
    f.push(string_from("single-step"));
    f.push(string_from("read-process-memory"));
    f.push(string_from("write-process-memory"));
    f.push(string_from("get-thread-context"));
    f.push(string_from("set-thread-context"));
    f.push(string_from("software-breakpoint-int3"));
    f.push(string_from("threads"));
    f.push(string_from("modules"));
    proof {
        assert(crate::protocol::strings_view(arches@) =~= seq!["x64"@]);
        assert(crate::protocol::strings_view(f@) =~= seq![
            "real-winapi-debugloop"@,
            "launch"@,
            "attach"@,
            "go"@,
            "pause"@,
            "single-step"@,
            "read-process-memory"@,
            "write-process-memory"@,
            "get-thread-context"@,
            "set-thread-context"@,
            "software-breakpoint-int3"@,
            "threads"@,
            "modules"@,
        ]);
    }
    crate::protocol::BackendCapabilities {
        name: string_from(WINAPI_BACKEND_NAME),
        version: string_from("0.1.0"),
        backend_kind: string_from("winapi"),
        supported_arches: arches,
        features: f,
    }
}

/// The block that `readMem` answers with: the address, the number of bytes
/// read and their hex text.
pub fn mem_block_value(addr: u64, bytes: &Vec<u8>) -> (r: JsonValue)
    ensures
        r@ == Json::Object(
            seq![
                ("addr"@, Json::Str(spec_hex_u64(addr))),
                ("size"@, Json::UInt(bytes@.len() as u64)),
                ("hex"@, Json::Str(bytes_hex(bytes@))),
            ],
        ),
{
    proof {
        assert(bytes@.subrange(0, bytes@.len() as int) =~= bytes@);
    }
    let block = crate::protocol::MemoryBlock {
        addr: crate::num::hex_u64(addr),
        size: bytes.len() as u64,
        hex: bytes_hex_value(bytes, 0, bytes.len()),
    };
    let r = block.to_json();
    proof {
        assert(block.json()->Object_0 =~= seq![
            ("addr"@, Json::Str(spec_hex_u64(addr))),
            ("size"@, Json::UInt(bytes@.len() as u64)),
            ("hex"@, Json::Str(bytes_hex(bytes@))),
        ]);
    }
    r
}

/// The answer to `setReg`.
pub fn set_reg_answer(name: &str, value: u64) -> (r: JsonValue)
    ensures
        r@ == Json::Object(
            seq![("set"@, Json::Bool(true)), ("name"@, Json::Str(name@)), ("value"@, Json::Str(spec_hex_u64(value)))],
        ),
{
    let mut f = new_fields();
    push_field(&mut f, "set", JsonValue::Bool(true));
    push_field(&mut f, "name", jstr(name));
    push_field(&mut f, "value", jhex(value));
    proof {
        assert(crate::json::fields_view(f@) =~= seq![
            ("set"@, Json::Bool(true)),
            ("name"@, Json::Str(name@)),
            ("value"@, Json::Str(spec_hex_u64(value))),
        ]);
        lemma_object_view(f);
    }
    JsonValue::Object(f)
}

/// The answer to `writeMem`.
pub fn written_answer(written: usize, addr: u64) -> (r: JsonValue)
    ensures
        r@ == Json::Object(seq![("written"@, Json::UInt(written as u64)), ("addr"@, Json::Str(spec_hex_u64(addr)))]),
{
    let mut f = new_fields();
    push_field(&mut f, "written", JsonValue::UInt(written as u64));
    push_field(&mut f, "addr", jhex(addr));
    proof {
        assert(crate::json::fields_view(f@) =~= seq![
            ("written"@, Json::UInt(written as u64)),
            ("addr"@, Json::Str(spec_hex_u64(addr))),
        ]);
        lemma_object_view(f);
    }
    JsonValue::Object(f)
}

/// The most bytes `readMem` reads at once.
pub const MAX_READ: u64 = 65536;

/// The number of bytes `readMem` reads for a requested size.
pub fn read_size(requested: u64) -> (r: usize)
    ensures
        r as int == (if requested < MAX_READ {
            requested as int
        } else {
            MAX_READ as int
        }),
{
    if requested < MAX_READ {
        requested as usize
    } else {
        MAX_READ as usize
    }
}

/// The number of instructions `disasm` decodes for a requested count
/// (`None`: none asked for), and the number of bytes it reads for them.
pub fn disasm_count(requested: Option<u64>) -> (r: (usize, usize))
    ensures
        r.0 as int == match requested {
            Some(x) => if x < 96 {
                x as int
            } else {
                96
            },
            None => 32,
        },
        r.1 == r.0 * 16,
{
    let c: usize = match requested {
        Some(x) => if x < 96 {
            x as usize
        } else {
            96
        },
        None => 32,
    };
    (c, c * 16)
}

/// The message of a method the Windows backend does not know.
pub fn winapi_unknown_method(method: &str) -> (r: crate::protocol::RpcResponse)
    ensures
        r@ == crate::protocol::err_view(0, "unknown_method"@, "winapi backend does not implement "@ + method@),
{
    let mut m = string_from("winapi backend does not implement ");
    crate::text::append_str(&mut m, method);
    crate::protocol::RpcResponse::err(0, "unknown_method", m.as_str())
}



// ─── The walk of a memory search ────────────────────────────────────────

/// The most matches that a memory search reports.
pub const SEARCH_LIMIT: usize = 1000;

/// What a memory search does with the region it reached: stop (the region
/// starts at or past the end of the search), pass over it, or read the
/// window `lo..hi` of it.
pub enum RegionPlan {
    Done,
    Skip,
    Read(u64, u64),
}

/// What a memory search from `start` to `end` does with the region at
/// `base` of `size` bytes, in the given state and protection.
pub fn search_region_plan(base: u64, size: u64, state: u32, protect: u32, start: u64, end: u64) -> (r: RegionPlan)
    ensures
        base >= end ==> r is Done,
        base < end ==> match search_window_spec(base, size, state, protect, start, end) {
            Some((lo, hi)) => r matches RegionPlan::Read(a, b) && a == lo && b == hi,
            None => r is Skip,
        },
{
    if base >= end {
        RegionPlan::Done
    } else {
        match search_window(base, size, state, protect, start, end) {
            Some((lo, hi)) => RegionPlan::Read(lo, hi),
            None => RegionPlan::Skip,
        }
    }
}

/// Where a memory search goes on after the region at `base` of `size`
/// bytes, reached from `addr`, with `found` matches so far: nowhere once the
/// limit of matches is reached or the next address would not move forward.
pub fn search_goes_on(found: usize, addr: u64, base: u64, size: u64) -> (r: Option<u64>)
    ensures
        r == (if found >= SEARCH_LIMIT {
            None
        } else if sat_add(base, size) <= addr {
            None
        } else {
            Some(sat_add(base, size))
        }),
{
    if found >= SEARCH_LIMIT {
        None
    } else {
        next_region_addr(addr, base, size)
    }
}


// ─── Laws of the Windows backend's answers ──────────────────────────────

/// A memory search reads every committed region that is not marked
/// no-access, whatever its other protection bits (read-only, executable,
/// guard, ...), over the part of it that lies between `start` and `end`;
/// it reads nothing else, and no protection bit but no-access changes what
/// it reads.
pub proof fn law_search_window_reads_accessible(
    base: u64,
    size: u64,
    state: u32,
    protect: u32,
    other: u32,
    start: u64,
    end: u64,
)
    ensures
        ({
            let lo: u64 = if base > start {
                base
            } else {
                start
            };
            let top: int = base + size;
            let next: u64 = if top > u64::MAX {
                u64::MAX
            } else {
                top as u64
            };
            let hi: u64 = if next < end {
                next
            } else {
                end
            };
            &&& (state == 0x1000 && protect & 0x01 == 0 && lo < hi) ==> search_window_spec(
                base,
                size,
                state,
                protect,
                start,
                end,
            ) == Some((lo, hi))
            &&& search_window_spec(base, size, state, protect, start, end) matches Some((a, b)) ==> state == 0x1000
                && protect & 0x01 == 0 && a == lo && b == hi && lo < hi
            &&& (protect & 0x01) == (other & 0x01) ==> search_window_spec(base, size, state, protect, start, end)
                == search_window_spec(base, size, state, other, start, end)
        }),
{
}

/// The kinds of two debug events are the same.
pub open spec fn same_event_kind(a: DebugEventInfo, b: DebugEventInfo) -> bool {
    ||| a is CreateProcess && b is CreateProcess
    ||| a is CreateThread && b is CreateThread
    ||| a is ExitThread && b is ExitThread
    ||| a is ExitProcess && b is ExitProcess
    ||| a is LoadDll && b is LoadDll
    ||| a is UnloadDll && b is UnloadDll
    ||| a is DebugString && b is DebugString
    ||| a is Rip && b is Rip
    ||| a is Exception && b is Exception
    ||| a is Unknown && b is Unknown
}

/// The stop report names the event: a new thread is `create_thread`, an
/// ended one `exit_thread`, a new process `create_process`, an ended one
/// `exit_process`, and so on; events of different kinds are never reported
/// under the same name, and the report carries the process and thread.
pub proof fn law_event_names(pid: u32, tid: u32, ev: DebugEventInfo, ev2: DebugEventInfo)
    ensures
        event_json(pid, tid, ev)->Object_0[1] == ("event"@, Json::Str(event_name(ev))),
        event_json(pid, tid, ev)->Object_0[2] == ("pid"@, Json::UInt(pid as u64)),
        event_json(pid, tid, ev)->Object_0[3] == ("tid"@, Json::UInt(tid as u64)),
        ev is CreateThread ==> event_name(ev) == "create_thread"@,
        ev is ExitThread ==> event_name(ev) == "exit_thread"@,
        ev is CreateProcess ==> event_name(ev) == "create_process"@,
        ev is ExitProcess ==> event_name(ev) == "exit_process"@,
        ev is LoadDll ==> event_name(ev) == "load_dll"@,
        ev is UnloadDll ==> event_name(ev) == "unload_dll"@,
        ev is DebugString ==> event_name(ev) == "debug_string"@,
        ev is Rip ==> event_name(ev) == "rip"@,
        ev is Unknown ==> event_name(ev) == "unknown"@,
        ev matches DebugEventInfo::Exception { code, .. } ==> event_name(ev) == (if code == 0x80000003 {
            "breakpoint"@
        } else if code == 0x80000004 {
            "single_step"@
        } else {
            "exception"@
        }),
        ev matches DebugEventInfo::CreateThread { start } ==> event_json(pid, tid, ev)->Object_0[4] == (
            "start"@,
            Json::Str(spec_hex_u64(start)),
        ),
        ev matches DebugEventInfo::CreateProcess { image_base } ==> event_json(pid, tid, ev)->Object_0[4] == (
            "image_base"@,
            Json::Str(spec_hex_u64(image_base)),
        ),
        ev matches DebugEventInfo::ExitProcess { exit_code } ==> event_json(pid, tid, ev)->Object_0[4] == (
            "exit_code"@,
            Json::UInt(exit_code as u64),
        ),
        ev matches DebugEventInfo::UnloadDll { base } ==> event_json(pid, tid, ev)->Object_0[4] == (
            "base"@,
            Json::Str(spec_hex_u64(base)),
        ),
        ev matches DebugEventInfo::LoadDll { base, path } ==> event_json(pid, tid, ev)->Object_0.subrange(4, 7) == seq![
            ("base"@, Json::Str(spec_hex_u64(base))),
            ("name"@, Json::Str(base_name(path@))),
            ("path"@, Json::Str(path@)),
        ],
        ev matches DebugEventInfo::Exception { code, address, first_chance } ==> event_json(pid, tid, ev)->Object_0.subrange(4, 8)
            == seq![
            ("code"@, Json::Str(code_text(code))),
            ("address"@, Json::Str(spec_hex_u64(address))),
            ("first_chance"@, Json::Bool(first_chance)),
            ("description"@, Json::Str(exception_description_spec(code))),
        ],
        (ev is ExitThread || ev is DebugString || ev is Rip || ev is Unknown) ==> event_json(pid, tid, ev)->Object_0.len() == 4,
        !same_event_kind(ev, ev2) ==> event_name(ev) != event_name(ev2),
{
    reveal_strlit("create_process");
    reveal_strlit("create_thread");
    reveal_strlit("exit_thread");
    reveal_strlit("exit_process");
    reveal_strlit("load_dll");
    reveal_strlit("unload_dll");
    reveal_strlit("debug_string");
    reveal_strlit("rip");
    reveal_strlit("breakpoint");
    reveal_strlit("single_step");
    reveal_strlit("exception");
    reveal_strlit("unknown");
    let n1 = event_name(ev);
    let n2 = event_name(ev2);
    if !same_event_kind(ev, ev2) && n1 == n2 {
        assert(n1.len() == n2.len());
        assert(n1[0] == n2[0]);
        if n1.len() > 1 {
            assert(n1[1] == n2[1]);
        }
        if n1.len() > 7 {
            assert(n1[7] == n2[7]);
        }
    }
}

/// Each disassembly line shows all the bytes of its instruction: for the
/// instruction of `n` bytes that decodes at offset `pos` (with its address
/// `addr + pos` not wrapping), the line's `bytes` is the hex of
/// `bytes[pos .. min(len, pos + n)]`, two characters for each of those
/// bytes, so `2 * n` characters when the instruction lies inside the bytes.
pub proof fn law_x64_line_bytes(bytes: Seq<u8>, addr: u64, pos: nat, k: nat, n: nat, text: Seq<char>)
    requires
        k > 0,
        pos < bytes.len(),
        addr + pos <= u64::MAX,
        spec_x64_decode(bytes.skip(pos as int), (addr + pos) as u64) == Some((n, text)),
    ensures
        ({
            let end: int = if bytes.len() < pos + n {
                bytes.len() as int
            } else {
                (pos + n) as int
            };
            let shown = bytes_hex(bytes.subrange(pos as int, end));
            &&& x64_lines(bytes, addr, pos, k)[0] == crate::protocol::disasm_json(
                spec_hex_u64((addr + pos) as u64),
                shown,
                text,
            )
            &&& shown.len() == 2 * (end - pos)
            &&& pos + n <= bytes.len() ==> shown.len() == 2 * n
        }),
{
    assert(disasm_ip(addr, pos) == (addr + pos) as u64);
    lemma_x64_lines_step(bytes, addr, pos, k, n, text);
    let end: int = if bytes.len() < pos + n {
        bytes.len() as int
    } else {
        (pos + n) as int
    };
    assert(shown_bytes(bytes, addr, (addr + pos) as u64, n) == bytes.subrange(pos as int, end));
    lemma_bytes_hex_at(bytes.subrange(pos as int, end), false);
}


/// The names of the x64 registers read back in lower case.
proof fn lemma_x64_reg_names()
    ensures
        crate::text::ascii_lower_seq("eflags"@) == "eflags"@,
        crate::text::ascii_lower_seq("r10"@) == "r10"@,
        crate::text::ascii_lower_seq("r11"@) == "r11"@,
        crate::text::ascii_lower_seq("r12"@) == "r12"@,
        crate::text::ascii_lower_seq("r13"@) == "r13"@,
        crate::text::ascii_lower_seq("r14"@) == "r14"@,
        crate::text::ascii_lower_seq("r15"@) == "r15"@,
        crate::text::ascii_lower_seq("r8"@) == "r8"@,
        crate::text::ascii_lower_seq("r9"@) == "r9"@,
        crate::text::ascii_lower_seq("rax"@) == "rax"@,
        crate::text::ascii_lower_seq("rbp"@) == "rbp"@,
        crate::text::ascii_lower_seq("rbx"@) == "rbx"@,
        crate::text::ascii_lower_seq("rcx"@) == "rcx"@,
        crate::text::ascii_lower_seq("rdi"@) == "rdi"@,
        crate::text::ascii_lower_seq("rdx"@) == "rdx"@,
        crate::text::ascii_lower_seq("rip"@) == "rip"@,
        crate::text::ascii_lower_seq("rsi"@) == "rsi"@,
        crate::text::ascii_lower_seq("rsp"@) == "rsp"@,
        crate::text::ascii_lower_seq("pc"@) == "pc"@,
        "eflags"@.len() == 6,
        "r10"@.len() == 3,
        "r11"@.len() == 3,
        "r12"@.len() == 3,
        "r13"@.len() == 3,
        "r14"@.len() == 3,
        "r15"@.len() == 3,
        "r8"@.len() == 2,
        "r9"@.len() == 2,
        "rax"@.len() == 3,
        "rbp"@.len() == 3,
        "rbx"@.len() == 3,
        "rcx"@.len() == 3,
        "rdi"@.len() == 3,
        "rdx"@.len() == 3,
        "rip"@.len() == 3,
        "rsi"@.len() == 3,
        "rsp"@.len() == 3,
        "pc"@.len() == 2,
        "eflags"@[0] == 'e',
        "eflags"@[1] == 'f',
        "eflags"@[2] == 'l',
        "eflags"@[3] == 'a',
        "eflags"@[4] == 'g',
        "eflags"@[5] == 's',
        "r10"@[0] == 'r',
        "r10"@[1] == '1',
        "r10"@[2] == '0',
        "r11"@[0] == 'r',
        "r11"@[1] == '1',
        "r11"@[2] == '1',
        "r12"@[0] == 'r',
        "r12"@[1] == '1',
        "r12"@[2] == '2',
        "r13"@[0] == 'r',
        "r13"@[1] == '1',
        "r13"@[2] == '3',
        "r14"@[0] == 'r',
        "r14"@[1] == '1',
        "r14"@[2] == '4',
        "r15"@[0] == 'r',
        "r15"@[1] == '1',
        "r15"@[2] == '5',
        "r8"@[0] == 'r',
        "r8"@[1] == '8',
        "r9"@[0] == 'r',
        "r9"@[1] == '9',
        "rax"@[0] == 'r',
        "rax"@[1] == 'a',
        "rax"@[2] == 'x',
        "rbp"@[0] == 'r',
        "rbp"@[1] == 'b',
        "rbp"@[2] == 'p',
        "rbx"@[0] == 'r',
        "rbx"@[1] == 'b',
        "rbx"@[2] == 'x',
        "rcx"@[0] == 'r',
        "rcx"@[1] == 'c',
        "rcx"@[2] == 'x',
        "rdi"@[0] == 'r',
        "rdi"@[1] == 'd',
        "rdi"@[2] == 'i',
        "rdx"@[0] == 'r',
        "rdx"@[1] == 'd',
        "rdx"@[2] == 'x',
        "rip"@[0] == 'r',
        "rip"@[1] == 'i',
        "rip"@[2] == 'p',
        "rsi"@[0] == 'r',
        "rsi"@[1] == 's',
        "rsi"@[2] == 'i',
        "rsp"@[0] == 'r',
        "rsp"@[1] == 's',
        "rsp"@[2] == 'p',
        "pc"@[0] == 'p',
        "pc"@[1] == 'c',
{
    reveal_strlit("eflags");
    reveal_strlit("r10");
    reveal_strlit("r11");
    reveal_strlit("r12");
    reveal_strlit("r13");
    reveal_strlit("r14");
    reveal_strlit("r15");
    reveal_strlit("r8");
    reveal_strlit("r9");
    reveal_strlit("rax");
    reveal_strlit("rbp");
    reveal_strlit("rbx");
    reveal_strlit("rcx");
    reveal_strlit("rdi");
    reveal_strlit("rdx");
    reveal_strlit("rip");
    reveal_strlit("rsi");
    reveal_strlit("rsp");
    reveal_strlit("pc");
    assert(crate::text::ascii_lower_seq("eflags"@) =~= "eflags"@);
    assert(crate::text::ascii_lower_seq("r10"@) =~= "r10"@);
    assert(crate::text::ascii_lower_seq("r11"@) =~= "r11"@);
    assert(crate::text::ascii_lower_seq("r12"@) =~= "r12"@);
    assert(crate::text::ascii_lower_seq("r13"@) =~= "r13"@);
    assert(crate::text::ascii_lower_seq("r14"@) =~= "r14"@);
    assert(crate::text::ascii_lower_seq("r15"@) =~= "r15"@);
    assert(crate::text::ascii_lower_seq("r8"@) =~= "r8"@);
    assert(crate::text::ascii_lower_seq("r9"@) =~= "r9"@);
    assert(crate::text::ascii_lower_seq("rax"@) =~= "rax"@);
    assert(crate::text::ascii_lower_seq("rbp"@) =~= "rbp"@);
    assert(crate::text::ascii_lower_seq("rbx"@) =~= "rbx"@);
    assert(crate::text::ascii_lower_seq("rcx"@) =~= "rcx"@);
    assert(crate::text::ascii_lower_seq("rdi"@) =~= "rdi"@);
    assert(crate::text::ascii_lower_seq("rdx"@) =~= "rdx"@);
    assert(crate::text::ascii_lower_seq("rip"@) =~= "rip"@);
    assert(crate::text::ascii_lower_seq("rsi"@) =~= "rsi"@);
    assert(crate::text::ascii_lower_seq("rsp"@) =~= "rsp"@);
    assert(crate::text::ascii_lower_seq("pc"@) =~= "pc"@);
}

/// The register dump names each register once and shows, under each
/// name, that register's own value: `rbx` shows `rbx`, `rsp` shows `rsp`,
/// and so on, the flags as eight hexadecimal digits.
pub proof fn law_x64_dump_shows_each_register(r: X64Regs)
    ensures
        x64_regs_list(r).len() == 18,
        forall|i: int, j: int| 0 <= i < j < 18 ==> x64_regs_list(r)[i].0 != x64_regs_list(r)[j].0,
        x64_regs_list(r).contains(("eflags"@, eflags_text(r.eflags))),
        x64_regs_list(r).contains(("r10"@, spec_hex_u64(r.r10))),
        x64_regs_list(r).contains(("r11"@, spec_hex_u64(r.r11))),
        x64_regs_list(r).contains(("r12"@, spec_hex_u64(r.r12))),
        x64_regs_list(r).contains(("r13"@, spec_hex_u64(r.r13))),
        x64_regs_list(r).contains(("r14"@, spec_hex_u64(r.r14))),
        x64_regs_list(r).contains(("r15"@, spec_hex_u64(r.r15))),
        x64_regs_list(r).contains(("r8"@, spec_hex_u64(r.r8))),
        x64_regs_list(r).contains(("r9"@, spec_hex_u64(r.r9))),
        x64_regs_list(r).contains(("rax"@, spec_hex_u64(r.rax))),
        x64_regs_list(r).contains(("rbp"@, spec_hex_u64(r.rbp))),
        x64_regs_list(r).contains(("rbx"@, spec_hex_u64(r.rbx))),
        x64_regs_list(r).contains(("rcx"@, spec_hex_u64(r.rcx))),
        x64_regs_list(r).contains(("rdi"@, spec_hex_u64(r.rdi))),
        x64_regs_list(r).contains(("rdx"@, spec_hex_u64(r.rdx))),
        x64_regs_list(r).contains(("rip"@, spec_hex_u64(r.rip))),
        x64_regs_list(r).contains(("rsi"@, spec_hex_u64(r.rsi))),
        x64_regs_list(r).contains(("rsp"@, spec_hex_u64(r.rsp))),
{
    lemma_x64_reg_names();
    let d = x64_regs_list(r);
    assert(d[0] == ("eflags"@, eflags_text(r.eflags)));
    assert(d[1] == ("r10"@, spec_hex_u64(r.r10)));
    assert(d[2] == ("r11"@, spec_hex_u64(r.r11)));
    assert(d[3] == ("r12"@, spec_hex_u64(r.r12)));
    assert(d[4] == ("r13"@, spec_hex_u64(r.r13)));
    assert(d[5] == ("r14"@, spec_hex_u64(r.r14)));
    assert(d[6] == ("r15"@, spec_hex_u64(r.r15)));
    assert(d[7] == ("r8"@, spec_hex_u64(r.r8)));
    assert(d[8] == ("r9"@, spec_hex_u64(r.r9)));
    assert(d[9] == ("rax"@, spec_hex_u64(r.rax)));
    assert(d[10] == ("rbp"@, spec_hex_u64(r.rbp)));
    assert(d[11] == ("rbx"@, spec_hex_u64(r.rbx)));
    assert(d[12] == ("rcx"@, spec_hex_u64(r.rcx)));
    assert(d[13] == ("rdi"@, spec_hex_u64(r.rdi)));
    assert(d[14] == ("rdx"@, spec_hex_u64(r.rdx)));
    assert(d[15] == ("rip"@, spec_hex_u64(r.rip)));
    assert(d[16] == ("rsi"@, spec_hex_u64(r.rsi)));
    assert(d[17] == ("rsp"@, spec_hex_u64(r.rsp)));
    assert forall|i: int, j: int| 0 <= i < j < 18 implies d[i].0 != d[j].0 by {
        if d[i].0 == d[j].0 {
            assert(d[i].0.len() == d[j].0.len());
            assert(d[i].0[0] == d[j].0[0]);
            assert(d[i].0[1] == d[j].0[1]);
            if d[i].0.len() > 2 {
                assert(d[i].0[2] == d[j].0[2]);
            }
        }
    }
}

/// Setting a register under the name the dump shows it by changes that
/// entry of the dump to the new value and leaves every other entry, the
/// flags among them, as it was; `pc` sets `rip`, and the flags and names
/// that are no register cannot be set.
pub proof fn law_x64_set_then_dump(r: X64Regs, i: int, v: u64)
    requires
        1 <= i < 18,
    ensures
        ({
            let d = x64_regs_list(r);
            set_x64_reg_spec(r, d[i].0, v) matches Some(r2) && x64_regs_list(r2) == d.update(
                i,
                (d[i].0, spec_hex_u64(v)),
            )
        }),
        set_x64_reg_spec(r, "pc"@, v) == set_x64_reg_spec(r, "rip"@, v),
        set_x64_reg_spec(r, "eflags"@, v) is None,
{
    lemma_x64_reg_names();
    let d = x64_regs_list(r);
    if i == 1 {
        assert(d[1].0 == "r10"@);
        let r2 = X64Regs { r10: v, ..r };
        assert(set_x64_reg_spec(r, "r10"@, v) == Some(r2));
        assert(x64_regs_list(r2) =~= d.update(1, ("r10"@, spec_hex_u64(v))));
    }
    if i == 2 {
        assert(d[2].0 == "r11"@);
        let r2 = X64Regs { r11: v, ..r };
        assert(set_x64_reg_spec(r, "r11"@, v) == Some(r2));
        assert(x64_regs_list(r2) =~= d.update(2, ("r11"@, spec_hex_u64(v))));
    }
    if i == 3 {
        assert(d[3].0 == "r12"@);
        let r2 = X64Regs { r12: v, ..r };
        assert(set_x64_reg_spec(r, "r12"@, v) == Some(r2));
        assert(x64_regs_list(r2) =~= d.update(3, ("r12"@, spec_hex_u64(v))));
    }
    if i == 4 {
        assert(d[4].0 == "r13"@);
        let r2 = X64Regs { r13: v, ..r };
        assert(set_x64_reg_spec(r, "r13"@, v) == Some(r2));
        assert(x64_regs_list(r2) =~= d.update(4, ("r13"@, spec_hex_u64(v))));
    }
    if i == 5 {
        assert(d[5].0 == "r14"@);
        let r2 = X64Regs { r14: v, ..r };
        assert(set_x64_reg_spec(r, "r14"@, v) == Some(r2));
        assert(x64_regs_list(r2) =~= d.update(5, ("r14"@, spec_hex_u64(v))));
    }
    if i == 6 {
        assert(d[6].0 == "r15"@);
        let r2 = X64Regs { r15: v, ..r };
        assert(set_x64_reg_spec(r, "r15"@, v) == Some(r2));
        assert(x64_regs_list(r2) =~= d.update(6, ("r15"@, spec_hex_u64(v))));
    }
    if i == 7 {
        assert(d[7].0 == "r8"@);
        let r2 = X64Regs { r8: v, ..r };
        assert(set_x64_reg_spec(r, "r8"@, v) == Some(r2));
        assert(x64_regs_list(r2) =~= d.update(7, ("r8"@, spec_hex_u64(v))));
    }
    if i == 8 {
        assert(d[8].0 == "r9"@);
        let r2 = X64Regs { r9: v, ..r };
        assert(set_x64_reg_spec(r, "r9"@, v) == Some(r2));
        assert(x64_regs_list(r2) =~= d.update(8, ("r9"@, spec_hex_u64(v))));
    }
    if i == 9 {
        assert(d[9].0 == "rax"@);
        let r2 = X64Regs { rax: v, ..r };
        assert(set_x64_reg_spec(r, "rax"@, v) == Some(r2));
        assert(x64_regs_list(r2) =~= d.update(9, ("rax"@, spec_hex_u64(v))));
    }
    if i == 10 {
        assert(d[10].0 == "rbp"@);
        let r2 = X64Regs { rbp: v, ..r };
        assert(set_x64_reg_spec(r, "rbp"@, v) == Some(r2));
        assert(x64_regs_list(r2) =~= d.update(10, ("rbp"@, spec_hex_u64(v))));
    }
    if i == 11 {
        assert(d[11].0 == "rbx"@);
        let r2 = X64Regs { rbx: v, ..r };
        assert(set_x64_reg_spec(r, "rbx"@, v) == Some(r2));
        assert(x64_regs_list(r2) =~= d.update(11, ("rbx"@, spec_hex_u64(v))));
    }
    if i == 12 {
        assert(d[12].0 == "rcx"@);
        let r2 = X64Regs { rcx: v, ..r };
        assert(set_x64_reg_spec(r, "rcx"@, v) == Some(r2));
        assert(x64_regs_list(r2) =~= d.update(12, ("rcx"@, spec_hex_u64(v))));
    }
    if i == 13 {
        assert(d[13].0 == "rdi"@);
        let r2 = X64Regs { rdi: v, ..r };
        assert(set_x64_reg_spec(r, "rdi"@, v) == Some(r2));
        assert(x64_regs_list(r2) =~= d.update(13, ("rdi"@, spec_hex_u64(v))));
    }
    if i == 14 {
        assert(d[14].0 == "rdx"@);
        let r2 = X64Regs { rdx: v, ..r };
        assert(set_x64_reg_spec(r, "rdx"@, v) == Some(r2));
        assert(x64_regs_list(r2) =~= d.update(14, ("rdx"@, spec_hex_u64(v))));
    }
    if i == 15 {
        assert(d[15].0 == "rip"@);
        let r2 = X64Regs { rip: v, ..r };
        assert(set_x64_reg_spec(r, "rip"@, v) == Some(r2));
        assert(x64_regs_list(r2) =~= d.update(15, ("rip"@, spec_hex_u64(v))));
    }
    if i == 16 {
        assert(d[16].0 == "rsi"@);
        let r2 = X64Regs { rsi: v, ..r };
        assert(set_x64_reg_spec(r, "rsi"@, v) == Some(r2));
        assert(x64_regs_list(r2) =~= d.update(16, ("rsi"@, spec_hex_u64(v))));
    }
    if i == 17 {
        assert(d[17].0 == "rsp"@);
        let r2 = X64Regs { rsp: v, ..r };
        assert(set_x64_reg_spec(r, "rsp"@, v) == Some(r2));
        assert(x64_regs_list(r2) =~= d.update(17, ("rsp"@, spec_hex_u64(v))));
    }
}


/// A register is set under its name in any ASCII case: `RSP`, `Rsp` and
/// `rsp` set the same register to the same value.
pub proof fn law_x64_set_ignores_case(r: X64Regs, name: Seq<char>, v: u64)
    ensures
        set_x64_reg_spec(r, name, v) == set_x64_reg_spec(r, crate::text::ascii_lower_seq(name), v),
{
    assert(crate::text::ascii_lower_seq(crate::text::ascii_lower_seq(name)) =~= crate::text::ascii_lower_seq(name));
}


proof fn lemma_offsets_below_exact(buf: Seq<u8>, pat: Seq<Option<u8>>, k: int)
    ensures
        forall|i: int| #[trigger] match_offsets_below(buf, pat, k).contains(i) <==> (i < k && matches_at(buf, pat, i)),
        forall|x: int, y: int|
            0 <= x < y < match_offsets_below(buf, pat, k).len() ==> match_offsets_below(buf, pat, k)[x]
                < match_offsets_below(buf, pat, k)[y],
        forall|x: int| 0 <= x < match_offsets_below(buf, pat, k).len() ==> #[trigger] match_offsets_below(buf, pat, k)[x] < k,
    decreases k,
{
    if k > 0 {
        lemma_offsets_below_exact(buf, pat, k - 1);
        let r = match_offsets_below(buf, pat, k - 1);
        let c = match_offsets_below(buf, pat, k);
        if matches_at(buf, pat, k - 1) {
            assert(c == r.push(k - 1));
            assert forall|i: int| #[trigger] c.contains(i) <==> (i < k && matches_at(buf, pat, i)) by {
                if c.contains(i) && i != k - 1 {
                    let t = choose|t: int| 0 <= t < c.len() && c[t] == i;
                    assert(r[t] == i);
                }
                if r.contains(i) {
                    let t = choose|t: int| 0 <= t < r.len() && r[t] == i;
                    assert(c[t] == i);
                }
                if i == k - 1 {
                    assert(c[c.len() - 1] == i);
                }
            }
            assert forall|x: int, y: int| 0 <= x < y < c.len() implies c[x] < c[y] by {
                if y < c.len() - 1 {
                    assert(c[x] == r[x] && c[y] == r[y]);
                } else {
                    assert(c[x] == r[x]);
                }
            }
            assert forall|x: int| 0 <= x < c.len() implies #[trigger] c[x] < k by {
                if x < c.len() - 1 {
                    assert(c[x] == r[x]);
                }
            }
        } else {
            assert(c == r);
            assert forall|i: int| #[trigger] c.contains(i) <==> (i < k && matches_at(buf, pat, i)) by {
                if i == k - 1 && c.contains(i) {
                    let t = choose|t: int| 0 <= t < c.len() && c[t] == i;
                    assert(r[t] < k - 1);
                }
            }
        }
    } else {
        let c = match_offsets_below(buf, pat, k);
        assert(c.len() == 0);
        assert forall|i: int| #[trigger] c.contains(i) <==> (i < k && matches_at(buf, pat, i)) by {}
    }
}

/// A memory search reports exactly the offsets at which the pattern fits
/// inside the bytes read with every byte that is not a wildcard equal to
/// the byte there (a wildcard matches any byte), each once and in
/// increasing order, as the address of the read plus the offset.
pub proof fn law_match_offsets_exact(buf: Seq<u8>, pat: Seq<Option<u8>>, at: u64)
    ensures
        forall|i: int|
            #[trigger] match_offsets(buf, pat).contains(i) <==> (0 <= i && i + pat.len() <= buf.len() && forall|j: int|
                0 <= j < pat.len() ==> (#[trigger] pat[j] matches Some(b) ==> buf[i + j] == b)),
        forall|x: int, y: int|
            0 <= x < y < match_offsets(buf, pat).len() ==> match_offsets(buf, pat)[x] < match_offsets(buf, pat)[y],
        match_addrs(buf, pat, at).len() == match_offsets(buf, pat).len(),
        forall|x: int|
            0 <= x < match_offsets(buf, pat).len() ==> #[trigger] match_addrs(buf, pat, at)[x] == spec_hex_u64(
                (at + match_offsets(buf, pat)[x]) as u64,
            ),
{
    let k = buf.len() - pat.len() + 1;
    lemma_offsets_below_exact(buf, pat, k);
}

/// Whether a word of a search pattern reads as one hexadecimal byte.
pub open spec fn byte_word(w: Seq<char>) -> bool {
    match spec_from_str_radix(w, 16) {
        Ok(v) => v <= 255,
        Err(_) => false,
    }
}

/// The entries of a search pattern read from its words: it is read when
/// every word is `?`, `??` or a hexadecimal byte, and then has one entry
/// per word, in order, a wildcard for `?` and `??` and the byte's value
/// for the others; otherwise the message names the first word that is
/// neither.
pub proof fn law_pattern_words(ws: Seq<Seq<char>>)
    ensures
        match pattern_from(ws) {
            Ok(p) => {
                &&& p.len() == ws.len()
                &&& forall|i: int|
                    0 <= i < ws.len() ==> (#[trigger] p[i] == (if ws[i] == "?"@ || ws[i] == "??"@ {
                        None
                    } else {
                        match spec_from_str_radix(ws[i], 16) {
                            Ok(v) => Some(v as u8),
                            Err(_) => None,
                        }
                    }) && (ws[i] == "?"@ || ws[i] == "??"@ || byte_word(ws[i])))
            },
            Err(e) => exists|i: int|
                0 <= i < ws.len() && !(ws[i] == "?"@ || ws[i] == "??"@) && !(byte_word(ws[i])) && e == "Invalid pattern byte: "@ + ws[i] && forall|j: int|
                    0 <= j < i ==> (ws[j] == "?"@ || ws[j] == "??"@ || byte_word(ws[j])),
        },
    decreases ws.len(),
{
    if ws.len() > 0 {
        let rest = ws.drop_first();
        law_pattern_words(rest);
        match pattern_from(ws) {
            Ok(p) => {
                let p2 = pattern_from(rest)->Ok_0;
                assert(p == seq![p[0]] + p2);
                assert forall|i: int| 0 <= i < ws.len() implies (#[trigger] p[i] == (if ws[i] == "?"@ || ws[i]
                    == "??"@ {
                    None
                } else {
                    match spec_from_str_radix(ws[i], 16) {
                        Ok(v) => Some(v as u8),
                        Err(_) => None,
                    }
                }) && (ws[i] == "?"@ || ws[i] == "??"@ || byte_word(ws[i]))) by {
                    if i > 0 {
                        assert(p[i] == p2[i - 1]);
                        assert(ws[i] == rest[i - 1]);
                    }
                }
            },
            Err(e) => {
                let w = ws[0];
                if w == "?"@ || w == "??"@ || hex_byte_token(w) is Some {
                    let i = choose|i: int|
                        0 <= i < rest.len() && !(rest[i] == "?"@ || rest[i] == "??"@) && !(byte_word(rest[i])) && e == "Invalid pattern byte: "@ + rest[i] && forall|j: int|
                            0 <= j < i ==> (rest[j] == "?"@ || rest[j] == "??"@ || byte_word(rest[j]));
                    assert(ws[i + 1] == rest[i]);
                    assert forall|j: int| 0 <= j < i + 1 implies (ws[j] == "?"@ || ws[j] == "??"@
                        || byte_word(ws[j])) by {
                        if j > 0 {
                            assert(ws[j] == rest[j - 1]);
                        }
                    }
                } else {
                    assert(e == "Invalid pattern byte: "@ + ws[0]);
                }
            },
        }
    }
}

} // verus!
