//! The text that the desktop front end shows: addresses in the
//! `00000000`00000000` style, hex dumps, register, module, thread and
//! disassembly columns, the log pane, and the reading of console commands.
use vstd::prelude::*;
use crate::json::{Json, JsonValue, json_as_bool, json_as_str, json_get};
use crate::num::{IntErrorKind, from_str_radix_chars, hex_fixed, push_hex_fixed, spec_from_str_radix};
use crate::text::{
    append_chars, append_str, chars_of, is_white_space, is_whitespace, string_from, string_of,
    string_of_range, trim, trim_chars,
};

verus! {

// ─── Numbers ────────────────────────────────────────────────────────────

/// `s` without the `"` characters at its start and end.
pub open spec fn trim_quotes(s: Seq<char>) -> Seq<char>
    decreases s.len(),
{
    if s.len() > 0 && s[0] == '"' {
        trim_quotes(s.drop_first())
    } else if s.len() > 0 && s.last() == '"' {
        trim_quotes(s.drop_last())
    } else {
        s
    }
}

/// How the front end reads a number: trimmed, without surrounding quotes,
/// hexadecimal after `0x`/`0X`, else decimal.
pub open spec fn ui_parse_u64_spec(s: Seq<char>) -> Result<u64, IntErrorKind> {
    let t = trim_quotes(trim(s));
    if t.len() >= 2 && t[0] == '0' && (t[1] == 'x' || t[1] == 'X') {
        spec_from_str_radix(t.skip(2), 16)
    } else {
        spec_from_str_radix(t, 10)
    }
}

/// Reads a number the way the front end does.
pub fn parse_u64(s: &str) -> (r: Result<u64, IntErrorKind>)
    ensures
        r == ui_parse_u64_spec(s@),
{
    let v = trim_chars(s);
    let mut a: usize = 0;
    let mut b: usize = v.len();
    assert(v@.subrange(0, v@.len() as int) =~= v@);
    while a < b && (v[a] == '"' || v[b - 1] == '"')
        invariant
            a <= b <= v@.len(),
            trim_quotes(v@) == trim_quotes(v@.subrange(a as int, b as int)),
        decreases b - a,
    {
        let ghost t = v@.subrange(a as int, b as int);
        if v[a] == '"' {
            proof {
                assert(t[0] == v@[a as int]);
                assert(t.drop_first() =~= v@.subrange(a + 1, b as int));
            }
            a = a + 1;
        } else {
            proof {
                assert(t[0] == v@[a as int]);
                assert(t.last() == v@[b - 1]);
                assert(t.drop_last() =~= v@.subrange(a as int, b - 1));
            }
            b = b - 1;
        }
    }
    proof {
        assert(v@.subrange(0, v@.len() as int) =~= v@);
        let t = v@.subrange(a as int, b as int);
        if t.len() > 0 {
            assert(t[0] == v@[a as int]);
            assert(t.last() == v@[b - 1]);
        }
    }
    let t = chars_of(string_of_range(&v, a, b).as_str());
    if t.len() >= 2 && t[0] == '0' && (t[1] == 'x' || t[1] == 'X') {
        from_str_radix_chars(&t, 2, 16)
    } else {
        proof {
            assert(t@.skip(0) =~= t@);
        }
        from_str_radix_chars(&t, 0, 10)
    }
}

/// Eight upper-case hexadecimal digits.
pub open spec fn hex8(v: nat) -> Seq<char> {
    hex_fixed(v, 8, true)
}

/// A 64-bit value as two groups of eight upper-case hexadecimal digits
/// joined by a backtick.
pub open spec fn split_hex(v: u64) -> Seq<char> {
    hex8((v / 0x1_0000_0000) as nat) + seq!['`'] + hex8((v % 0x1_0000_0000) as nat)
}

/// An address as the front end shows it; text that does not read as a
/// number is kept as it is.
pub open spec fn pretty_addr_spec(s: Seq<char>) -> Seq<char> {
    match ui_parse_u64_spec(s) {
        Ok(v) => split_hex(v),
        Err(_) => s,
    }
}

/// The addresses that backends write show as their two halves: for every
/// value, the front end's view of the `0x`-and-sixteen-digits text is the
/// value split at bit 32.
pub proof fn law_pretty_backend_addr(v: u64)
    ensures
        pretty_addr_spec(crate::num::spec_hex_u64(v)) == split_hex(v),
{
    let s = crate::num::spec_hex_u64(v);
    crate::num::lemma_parse_hex_u64(v);
    crate::num::lemma_hex_fixed_len(v as nat, 16, false);
    assert(s.len() == 18);
    assert(!crate::text::is_white_space(s[0]));
    assert(crate::text::trim_start(s) == s);
    assert(s.last() == hex_fixed(v as nat, 16, false)[15]);
    assert(crate::text::trim_end(s) == s);
    assert(trim(s) == s);
    assert(trim_quotes(s) == s);
    assert(crate::num::spec_parse_u64_kind(s) == Ok::<u64, IntErrorKind>(v));
}

fn split_hex_value(v: u64) -> (r: Vec<char>)
    ensures
        r@ == split_hex(v),
{
    let mut out: Vec<char> = Vec::new();
    push_hex_fixed(&mut out, v / 0x1_0000_0000, 8, true);
    out.push('`');
    push_hex_fixed(&mut out, v % 0x1_0000_0000, 8, true);
    proof {
        assert(out@ =~= split_hex(v));
    }
    out
}

/// Shows an address as `XXXXXXXX`XXXXXXXX`.
pub fn pretty_addr(s: &str) -> (r: String)
    ensures
        r@ == pretty_addr_spec(s@),
{
    match parse_u64(s) {
        Ok(v) => string_of(&split_hex_value(v)),
        Err(_) => string_from(s),
    }
}

/// `s` with every occurrence of `pat` (non-empty) replaced by `rep`,
/// scanning from the left (`str::replace`).
pub open spec fn replace_all(s: Seq<char>, pat: Seq<char>, rep: Seq<char>) -> Seq<char>
    decreases s.len(),
{
    if s.len() == 0 || pat.len() == 0 {
        s
    } else if crate::text::starts_with(s, pat) {
        rep + replace_all(s.skip(pat.len() as int), pat, rep)
    } else {
        seq![s[0]] + replace_all(s.drop_first(), pat, rep)
    }
}

/// `s.replace(pat, rep)` for a non-empty `pat`.
pub fn replace_all_str(s: &str, pat: &str, rep: &str) -> (r: String)
    requires
        pat@.len() > 0,
    ensures
        r@ == replace_all(s@, pat@, rep@),
{
    let v = chars_of(s);
    let p = chars_of(pat);
    let mut out = String::new();
    let mut i: usize = 0;
    proof {
        assert(v@.skip(0) =~= v@);
        assert(out@ + replace_all(v@.skip(0), p@, rep@) =~= replace_all(s@, pat@, rep@));
    }
    while i < v.len()
        invariant
            i <= v@.len(),
            v@ == s@,
            p@ == pat@,
            p@.len() > 0,
            replace_all(s@, pat@, rep@) == out@ + replace_all(v@.skip(i as int), p@, rep@),
        decreases v@.len() - i,
    {
        let ghost t = v@.skip(i as int);
        let ghost before = out@;
        if crate::text::chars_start_with_at(&v, i, &p) {
            append_str(&mut out, rep);
            proof {
                assert(t.skip(p@.len() as int) =~= v@.skip(i + p@.len()));
                assert(before + (rep@ + replace_all(t.skip(p@.len() as int), p@, rep@)) =~= out@ + replace_all(
                    v@.skip(i + p@.len()),
                    p@,
                    rep@,
                ));
            }
            i = i + p.len();
        } else {
            crate::text::push_char(&mut out, v[i]);
            proof {
                assert(t[0] == v@[i as int]);
                assert(t.drop_first() =~= v@.skip(i + 1));
                assert(before + (seq![v@[i as int]] + replace_all(t.drop_first(), p@, rep@)) =~= out@ + replace_all(
                    v@.skip(i + 1),
                    p@,
                    rep@,
                ));
            }
            i = i + 1;
        }
    }
    proof {
        assert(out@ + replace_all(v@.skip(i as int), p@, rep@) =~= out@);
    }
    out
}

/// `s` padded with spaces on the right to `w` characters (`{:<w}`).
pub open spec fn pad_right(s: Seq<char>, w: nat) -> Seq<char> {
    if s.len() >= w {
        s
    } else {
        s + Seq::new((w - s.len()) as nat, |i: int| ' ')
    }
}

/// Appends `s` padded with spaces on the right to `w` characters.
pub fn push_padded(out: &mut Vec<char>, s: &Vec<char>, w: usize)
    ensures
        final(out)@ == old(out)@ + pad_right(s@, w as nat),
{
    let mut i: usize = 0;
    while i < s.len()
        invariant
            i <= s@.len(),
            out@ == old(out)@ + s@.take(i as int),
        decreases s@.len() - i,
    {
        out.push(s[i]);
        i = i + 1;
        assert(out@ =~= old(out)@ + s@.take(i as int));
    }
    assert(s@.take(i as int) =~= s@);
    let mut k = s.len();
    while k < w
        invariant
            s@.len() <= k <= w || (k == s@.len() && s@.len() >= w),
            out@ == old(out)@ + s@ + Seq::new((k - s@.len()) as nat, |i: int| ' '),
        decreases w - k,
    {
        out.push(' ');
        k = k + 1;
        assert(out@ =~= old(out)@ + s@ + Seq::new((k - s@.len()) as nat, |i: int| ' '));
    }
    proof {
        if s@.len() >= w {
            assert(out@ =~= old(out)@ + s@);
        } else {
            assert(k == w);
        }
    }
}

// ─── Time ───────────────────────────────────────────────────────────────

/// Two decimal digits.
pub open spec fn two_digits(v: nat) -> Seq<char> {
    seq![((48 + (v / 10) % 10) as u8) as char, ((48 + v % 10) as u8) as char]
}

/// The time of day of a Unix time as `[HH:MM:SS]`.
pub open spec fn time_tag_spec(secs: u64) -> Seq<char> {
    let s = (secs % 86400) as nat;
    seq!['['] + two_digits(s / 3600) + seq![':'] + two_digits((s / 60) % 60) + seq![':'] + two_digits(s % 60)
        + seq![']']
}

fn push_two_digits(out: &mut Vec<char>, v: u64)
    requires
        v < 100,
    ensures
        final(out)@ == old(out)@ + two_digits(v as nat),
{
    out.push(crate::text::char_from_ascii((48 + v / 10) as u8));
    out.push(crate::text::char_from_ascii((48 + v % 10) as u8));
    proof {
        assert((v / 10) % 10 == v / 10);
        assert(out@ =~= old(out)@ + two_digits(v as nat));
    }
}

/// The log prefix for a Unix time: the time of day as `[HH:MM:SS]`.
pub fn time_tag(secs: u64) -> (r: String)
    ensures
        r@ == time_tag_spec(secs),
{
    let s = secs % 86400;
    let mut out: Vec<char> = Vec::new();
    out.push('[');
    push_two_digits(&mut out, s / 3600);
    out.push(':');
    push_two_digits(&mut out, (s / 60) % 60);
    out.push(':');
    push_two_digits(&mut out, s % 60);
    out.push(']');
    proof {
        assert(out@ =~= time_tag_spec(secs));
    }
    string_of(&out)
}


// ─── The log pane ───────────────────────────────────────────────────────

/// The lines of a text as `str::lines` gives them: split at `\n`, a `\r`
/// before the `\n` dropped, no empty line after a final `\n`.
pub open spec fn lines_of(s: Seq<char>) -> Seq<Seq<char>>
    decreases s.len(),
{
    if s.len() == 0 {
        Seq::empty()
    } else {
        let head = crate::http::before_char(s, '\n');
        if head.len() >= s.len() {
            seq![s]
        } else {
            let line = if head.len() > 0 && head.last() == '\r' {
                head.drop_last()
            } else {
                head
            };
            proof {
                crate::http::lemma_before_char_len(s, '\n');
            }
            seq![line] + lines_of(s.skip(head.len() as int + 1))
        }
    }
}

/// Lines joined with `\n` between them.
pub open spec fn join_lines(ls: Seq<Seq<char>>) -> Seq<char>
    decreases ls.len(),
{
    if ls.len() == 0 {
        Seq::empty()
    } else if ls.len() == 1 {
        ls[0]
    } else {
        join_lines(ls.drop_last()) + seq!['\n'] + ls.last()
    }
}

/// The lines of a text.
pub fn lines_vec(s: &str) -> (r: Vec<String>)
    ensures
        crate::protocol::strings_view(r@) == lines_of(s@),
{
    let v = chars_of(s);
    let n = v.len();
    let mut out: Vec<String> = Vec::new();
    let mut i: usize = 0;
    proof {
        assert(v@.skip(0) =~= v@);
        assert(crate::protocol::strings_view(out@) + lines_of(v@.skip(0)) =~= lines_of(s@));
    }
    while i < n
        invariant
            n == v@.len(),
            i <= n,
            v@ == s@,
            lines_of(s@) == crate::protocol::strings_view(out@) + lines_of(v@.skip(i as int)),
        decreases n - i,
    {
        let j = crate::http::char_pos_pub(&v, i, n, '\n');
        let ghost t = v@.skip(i as int);
        proof {
            assert(v@.subrange(i as int, n as int) =~= t);
            assert(v@.subrange(i as int, j as int) == crate::http::before_char(t, '\n'));
        }
        let end = if j > i && v[j - 1] == '\r' && j < n {
            j - 1
        } else {
            j
        };
        let line = string_of_range(&v, i, end);
        let ghost before = crate::protocol::strings_view(out@);
        out.push(line);
        proof {
            let head = crate::http::before_char(t, '\n');
            if j < n {
                assert(head.len() < t.len());
                assert(t.skip(head.len() as int + 1) =~= v@.skip(j + 1));
                if j > i && v@[j - 1] == '\r' {
                    assert(head.last() == v@[j - 1]);
                    assert(head.drop_last() =~= v@.subrange(i as int, end as int));
                }
            } else {
                assert(head =~= t);
                assert(v@.skip(n as int) =~= Seq::<char>::empty());
            }
            assert(crate::protocol::strings_view(out@) =~= before.push(line@));
        }
        i = if j < n {
            j + 1
        } else {
            n
        };
        proof {
            assert(lines_of(s@) == crate::protocol::strings_view(out@) + lines_of(v@.skip(i as int))) by {
                let rest = lines_of(v@.skip(i as int));
                assert(before + (seq![line@] + rest) =~= crate::protocol::strings_view(out@) + rest);
            }
        }
    }
    proof {
        assert(v@.skip(i as int) =~= Seq::<char>::empty());
        assert(crate::protocol::strings_view(out@) + Seq::<Seq<char>>::empty() =~= crate::protocol::strings_view(out@));
    }
    out
}

/// The log after `msg` is added: each line of `msg` prefixed with `tag`
/// and a space, and only the last 120 lines kept.
pub open spec fn append_log_spec(current: Seq<char>, msg: Seq<char>, tag: Seq<char>) -> Seq<char> {
    let all = lines_of(current) + lines_of(msg).map_values(|l: Seq<char>| tag + seq![' '] + l);
    let kept = if all.len() > 120 {
        all.skip(all.len() - 120)
    } else {
        all
    };
    join_lines(kept)
}

/// Adds `msg` to the log text `current`, each line stamped with `tag`.
pub fn append_log(current: &str, msg: &str, tag: &str) -> (r: String)
    ensures
        r@ == append_log_spec(current@, msg@, tag@),
{
    let mut all = lines_vec(current);
    let extra = lines_vec(msg);
    let ghost a0 = crate::protocol::strings_view(all@);
    let mut k: usize = 0;
    while k < extra.len()
        invariant
            k <= extra@.len(),
            crate::protocol::strings_view(extra@) == lines_of(msg@),
            a0 == lines_of(current@),
            crate::protocol::strings_view(all@) == a0 + crate::protocol::strings_view(extra@).take(k as int).map_values(
                |l: Seq<char>| tag@ + seq![' '] + l,
            ),
        decreases extra@.len() - k,
    {
        let mut line = string_from(tag);
        append_str(&mut line, " ");
        append_str(&mut line, extra[k].as_str());
        let ghost before = crate::protocol::strings_view(all@);
        all.push(line);
        proof {
            reveal_strlit(" ");
            let ev = crate::protocol::strings_view(extra@);
            let f = |l: Seq<char>| tag@ + seq![' '] + l;
            assert(line@ == f(ev[k as int]));
            assert(ev.take(k + 1).map_values(f) =~= ev.take(k as int).map_values(f).push(f(ev[k as int])));
            assert(crate::protocol::strings_view(all@) =~= before.push(line@));
            assert(crate::protocol::strings_view(all@) =~= a0 + ev.take(k + 1).map_values(f));
        }
        k = k + 1;
    }
    proof {
        assert(crate::protocol::strings_view(extra@).take(k as int) =~= crate::protocol::strings_view(extra@));
    }
    let total = all.len();
    let start: usize = if total > 120 {
        total - 120
    } else {
        0
    };
    let ghost kept = crate::protocol::strings_view(all@).skip(start as int);
    proof {
        if total <= 120 {
            assert(kept =~= crate::protocol::strings_view(all@));
        }
    }
    let mut out = String::new();
    let mut i = start;
    while i < total
        invariant
            start <= i <= total == all@.len(),
            kept == crate::protocol::strings_view(all@).skip(start as int),
            out@ == join_lines(kept.take(i - start)),
        decreases total - i,
    {
        let ghost prev = out@;
        if i > start {
            append_str(&mut out, "\n");
        }
        append_str(&mut out, all[i].as_str());
        proof {
            reveal_strlit("\n");
            let t = kept.take(i + 1 - start);
            assert(t.len() == i + 1 - start);
            if i > start {
                assert(join_lines(t) == join_lines(t.drop_last()) + seq!['\n'] + t.last());
            }
            assert(t.drop_last() =~= kept.take(i - start));
            assert(t.last() == all@[i as int]@);
            if i == start {
                assert(kept.take(0) =~= Seq::<Seq<char>>::empty());
                assert(out@ =~= all@[i as int]@);
            }
        }
        i = i + 1;
    }
    proof {
        assert(kept.take(total - start) =~= kept);
    }
    out
}


// ─── Disassembly columns ────────────────────────────────────────────────

/// The characters of `s` before its first white space.
pub open spec fn before_ws(s: Seq<char>) -> Seq<char> {
    s.take(crate::http::word_len(s) as int)
}

/// The text of an instruction split into mnemonic, operands and the
/// comment after `;` (with the `;`).
pub open spec fn split_instruction_spec(text: Seq<char>) -> (Seq<char>, Seq<char>, Seq<char>) {
    let t = replace_all(text, " ; real target bytes, decoder not linked yet"@, " ; raw bytes"@);
    let head = crate::http::before_char(t, ';');
    let (ins, comment) = if head.len() < t.len() {
        (trim(head), seq![';'] + t.skip(head.len() as int + 1))
    } else {
        (trim(t), Seq::<char>::empty())
    };
    let m = before_ws(ins);
    let ops = if m.len() < ins.len() {
        trim(ins.skip(m.len() as int + 1))
    } else {
        Seq::<char>::empty()
    };
    (m, ops, comment)
}

/// Splits the text of an instruction into mnemonic, operands and comment.
pub fn split_instruction(text: &str) -> (r: (String, String, String))
    ensures
        (r.0@, r.1@, r.2@) == split_instruction_spec(text@),
{
    proof {
        reveal_strlit(" ; real target bytes, decoder not linked yet");
    }
    let t = replace_all_str(text, " ; real target bytes, decoder not linked yet", " ; raw bytes");
    let tv = chars_of(t.as_str());
    let n = tv.len();
    let k = crate::http::char_pos_pub(&tv, 0, n, ';');
    proof {
        assert(tv@.subrange(0, n as int) =~= tv@);
    }
    let (ins, comment): (Vec<char>, String) = if k < n {
        let head = string_of_range(&tv, 0, k);
        let mut c = string_from(";");
        let rest = string_of_range(&tv, k + 1, n);
        append_str(&mut c, rest.as_str());
        proof {
            reveal_strlit(";");
            assert(tv@.subrange(k + 1, n as int) =~= tv@.skip(k + 1));
        }
        (trim_chars(head.as_str()), c)
    } else {
        (trim_chars(t.as_str()), String::new())
    };
    let m_end = crate::http::word_end(&ins, 0);
    proof {
        assert(ins@.skip(0) =~= ins@);
        assert(ins@.take(m_end as int) =~= ins@.subrange(0, m_end as int));
    }
    let mnemonic = string_of_range(&ins, 0, m_end);
    let ops = if m_end < ins.len() {
        let rest = string_of_range(&ins, m_end + 1, ins.len());
        proof {
            assert(ins@.subrange(m_end + 1, ins@.len() as int) =~= ins@.skip(m_end + 1));
        }
        string_of(&trim_chars(rest.as_str()))
    } else {
        String::new()
    };
    (mnemonic, ops, comment)
}


// ─── Hex text ───────────────────────────────────────────────────────────

/// The two-byte windows of a text's UTF-8 bytes, as characters: two ASCII
/// characters, one two-byte character, or a last single ASCII character.
/// `None` when a window would cut a character (slicing there panics).
pub open spec fn byte_chunks(s: Seq<char>) -> Option<Seq<Seq<char>>>
    decreases s.len(),
{
    if s.len() == 0 {
        Some(Seq::empty())
    } else if (s[0] as u32) < 0x80 {
        if s.len() == 1 {
            Some(seq![s])
        } else if (s[1] as u32) < 0x80 {
            match byte_chunks(s.skip(2)) {
                Some(r) => Some(seq![s.take(2)] + r),
                None => None,
            }
        } else {
            None
        }
    } else if (s[0] as u32) < 0x800 {
        match byte_chunks(s.skip(1)) {
            Some(r) => Some(seq![s.take(1)] + r),
            None => None,
        }
    } else {
        None
    }
}

/// Texts joined with the character `sep` between them.
pub open spec fn join_sep(ls: Seq<Seq<char>>, sep: char) -> Seq<char>
    decreases ls.len(),
{
    if ls.len() == 0 {
        Seq::empty()
    } else if ls.len() == 1 {
        ls[0]
    } else {
        join_sep(ls.drop_last(), sep) + seq![sep] + ls.last()
    }
}

/// Hex text shown as upper-case byte pairs separated by spaces.
pub open spec fn spaced_hex_spec(hex: Seq<char>) -> Seq<char> {
    match byte_chunks(trim(hex)) {
        Some(cs) => join_sep(cs.map_values(|c: Seq<char>| crate::text::uppercase(c)), ' '),
        None => Seq::empty(),
    }
}

/// The byte windows of `v[from..]`, each as a `String`, and whether
/// none was cut.
fn chunks_of(v: &Vec<char>) -> (r: Option<Vec<String>>)
    ensures
        match byte_chunks(v@) {
            Some(cs) => r matches Some(x) && crate::protocol::strings_view(x@) == cs,
            None => r is None,
        },
{
    let n = v.len();
    let mut out: Vec<String> = Vec::new();
    let mut i: usize = 0;
    proof {
        assert(v@.skip(0) =~= v@);
        match byte_chunks(v@) {
            Some(cs) => {
                assert(crate::protocol::strings_view(out@) + cs =~= cs);
            },
            None => {},
        }
    }
    while i < n
        invariant
            n == v@.len(),
            i <= n,
            match byte_chunks(v@) {
                Some(cs) => byte_chunks(v@.skip(i as int)) matches Some(rest) && cs
                    == crate::protocol::strings_view(out@) + rest,
                None => byte_chunks(v@.skip(i as int)) is None,
            },
        decreases n - i,
    {
        let ghost t = v@.skip(i as int);
        let ghost before = crate::protocol::strings_view(out@);
        let c0 = v[i];
        proof {
            assert(t[0] == c0);
        }
        if (c0 as u32) < 0x80 {
            if i + 1 == n {
                out.push(string_of_range(v, i, n));
                proof {
                    assert(t =~= v@.subrange(i as int, n as int));
                    assert(v@.skip(n as int) =~= Seq::<char>::empty());
                    assert(crate::protocol::strings_view(out@) =~= before.push(t));
                }
                i = n;
            } else {
                let c1 = v[i + 1];
                proof {
                    assert(t[1] == c1);
                }
                if (c1 as u32) < 0x80 {
                    out.push(string_of_range(v, i, i + 2));
                    proof {
                        assert(t.take(2) =~= v@.subrange(i as int, i + 2));
                        assert(t.skip(2) =~= v@.skip(i + 2));
                        assert(crate::protocol::strings_view(out@) =~= before.push(t.take(2)));
                        match byte_chunks(v@) {
                            Some(cs) => {
                                let rest = byte_chunks(t.skip(2))->Some_0;
                                assert(before + (seq![t.take(2)] + rest) =~= crate::protocol::strings_view(out@) + rest);
                            },
                            None => {},
                        }
                    }
                    i = i + 2;
                } else {
                    return None;
                }
            }
        } else if (c0 as u32) < 0x800 {
            out.push(string_of_range(v, i, i + 1));
            proof {
                assert(t.take(1) =~= v@.subrange(i as int, i + 1));
                assert(t.skip(1) =~= v@.skip(i + 1));
                assert(crate::protocol::strings_view(out@) =~= before.push(t.take(1)));
                match byte_chunks(v@) {
                    Some(cs) => {
                        let rest = byte_chunks(t.skip(1))->Some_0;
                        assert(before + (seq![t.take(1)] + rest) =~= crate::protocol::strings_view(out@) + rest);
                    },
                    None => {},
                }
            }
            i = i + 1;
        } else {
            return None;
        }
    }
    proof {
        assert(v@.skip(n as int) =~= Seq::<char>::empty());
        match byte_chunks(v@) {
            Some(cs) => {
                assert(crate::protocol::strings_view(out@) + Seq::<Seq<char>>::empty() =~= crate::protocol::strings_view(out@));
            },
            None => {},
        }
    }
    Some(out)
}

/// Hex text as upper-case byte pairs separated by spaces.
pub fn spaced_hex(hex: &str) -> (r: String)
    requires
        byte_chunks(trim(hex@)) is Some,
    ensures
        r@ == spaced_hex_spec(hex@),
{
    let clean = trim_chars(hex);
    let cs = match chunks_of(&clean) {
        Some(c) => c,
        None => {
            return String::new();
        },
    };
    let ghost cv = crate::protocol::strings_view(cs@);
    let mut out = String::new();
    let mut i: usize = 0;
    while i < cs.len()
        invariant
            i <= cs@.len(),
            cv == crate::protocol::strings_view(cs@),
            out@ == join_sep(cv.take(i as int).map_values(|c: Seq<char>| crate::text::uppercase(c)), ' '),
        decreases cs@.len() - i,
    {
        let up = crate::text::to_uppercase(cs[i].as_str());
        let ghost before = out@;
        if i > 0 {
            append_str(&mut out, " ");
        }
        append_str(&mut out, up.as_str());
        proof {
            reveal_strlit(" ");
            let f = |c: Seq<char>| crate::text::uppercase(c);
            let m = cv.take(i + 1).map_values(f);
            assert(cv.take(i + 1).map_values(f).drop_last() =~= cv.take(i as int).map_values(f));
            assert(m.last() == up@);
            if i == 0 {
                assert(cv.take(0).map_values(f) =~= Seq::<Seq<char>>::empty());
                assert(out@ =~= up@);
            }
        }
        i = i + 1;
    }
    proof {
        assert(cv.take(i as int) =~= cv);
    }
    out
}


/// The bytes that a hex text reads as: each window that reads as a hex
/// byte, the others skipped.
pub open spec fn hex_window_bytes(cs: Seq<Seq<char>>) -> Seq<u8>
    decreases cs.len(),
{
    if cs.len() == 0 {
        Seq::empty()
    } else {
        let rest = hex_window_bytes(cs.drop_last());
        match crate::winapi::hex_byte_token(cs.last()) {
            Some(b) => rest.push(b),
            None => rest,
        }
    }
}

/// The header line of a hex dump.
pub open spec fn dump_header() -> Seq<char> {
    "Address             00 01 02 03 04 05 06 07 08 09 0A 0B 0C 0D 0E 0F  ASCII\n"@
}

/// How a byte shows in the text column: itself when printable ASCII, else
/// a dot.
pub open spec fn shown_char(b: u8) -> char {
    if 0x20 <= b <= 0x7e {
        b as char
    } else {
        '.'
    }
}

/// `n` times `s`.
pub open spec fn repeat(s: Seq<char>, n: nat) -> Seq<char>
    decreases n,
{
    if n == 0 {
        Seq::empty()
    } else {
        repeat(s, (n - 1) as nat) + s
    }
}

/// The bytes as two upper-case digits and a space each.
pub open spec fn dump_cells(b: Seq<u8>) -> Seq<char>
    decreases b.len(),
{
    if b.len() == 0 {
        Seq::empty()
    } else {
        dump_cells(b.drop_last()) + hex_fixed(b.last() as nat, 2, true) + seq![' ']
    }
}

/// One row of a hex dump: the address, the cells (padded to sixteen) and
/// the text column.
pub open spec fn dump_row(b: Seq<u8>, addr: u64) -> Seq<char> {
    split_hex(addr) + seq![' ', ' '] + dump_cells(b) + repeat(seq![' ', ' ', ' '], (16 - b.len()) as nat) + seq![' ']
        + b.map_values(|x: u8| shown_char(x)) + seq!['\n']
}

/// The rows of a hex dump of `b` starting at address `addr`.
pub open spec fn dump_rows(b: Seq<u8>, addr: int) -> Seq<char>
    decreases b.len(),
{
    if b.len() == 0 {
        Seq::empty()
    } else {
        let n: int = if b.len() < 16 {
            b.len() as int
        } else {
            16
        };
        dump_row(b.take(n), addr as u64) + dump_rows(b.skip(n), addr + 16)
    }
}

/// A hex dump of the bytes of `hex` read at the address `addr`.
pub open spec fn hex_to_lines_spec(addr: Seq<char>, hex: Seq<char>) -> Seq<char> {
    let base: int = match ui_parse_u64_spec(addr) {
        Ok(v) => v as int,
        Err(_) => 0,
    };
    match byte_chunks(hex) {
        Some(cs) => dump_header() + dump_rows(hex_window_bytes(cs), base),
        None => dump_header(),
    }
}

/// The address of the last row of a dump of `n` bytes from `base`.
pub open spec fn last_row_addr(base: int, n: nat) -> int {
    if n == 0 {
        base
    } else {
        base + 16 * ((n - 1) / 16)
    }
}

fn dump_row_value(out: &mut String, b: &Vec<u8>, from: usize, to: usize, addr: u64)
    requires
        from <= to <= b@.len(),
        to - from <= 16,
    ensures
        final(out)@ == old(out)@ + dump_row(b@.subrange(from as int, to as int), addr),
{
    let ghost row = b@.subrange(from as int, to as int);
    let mut v: Vec<char> = split_hex_value(addr);
    v.push(' ');
    v.push(' ');
    let mut i = from;
    proof {
        assert(row.take(0) =~= Seq::<u8>::empty());
    }
    while i < to
        invariant
            from <= i <= to <= b@.len(),
            row == b@.subrange(from as int, to as int),
            v@ == split_hex(addr) + seq![' ', ' '] + dump_cells(row.take(i - from)),
        decreases to - i,
    {
        push_hex_fixed(&mut v, b[i] as u64, 2, true);
        v.push(' ');
        proof {
            assert(row.take(i + 1 - from).drop_last() =~= row.take(i - from));
            assert(row.take(i + 1 - from).last() == b@[i as int]);
            assert(v@ =~= split_hex(addr) + seq![' ', ' '] + dump_cells(row.take(i + 1 - from)));
        }
        i = i + 1;
    }
    let mut k: usize = to - from;
    proof {
        assert(row.take(to - from) =~= row);
        assert(repeat(seq![' ', ' ', ' '], 0) =~= Seq::<char>::empty());
    }
    while k < 16
        invariant
            to - from <= k <= 16,
            v@ == split_hex(addr) + seq![' ', ' '] + dump_cells(row) + repeat(seq![' ', ' ', ' '], (k - (to - from)) as nat),
        decreases 16 - k,
    {
        v.push(' ');
        v.push(' ');
        v.push(' ');
        k = k + 1;
        assert(v@ =~= split_hex(addr) + seq![' ', ' '] + dump_cells(row) + repeat(seq![' ', ' ', ' '], (k - (to - from)) as nat));
    }
    v.push(' ');
    let ghost mid = v@;
    let mut j = from;
    while j < to
        invariant
            from <= j <= to <= b@.len(),
            row == b@.subrange(from as int, to as int),
            v@ == mid + row.take(j - from).map_values(|x: u8| shown_char(x)),
        decreases to - j,
    {
        let x = b[j];
        let c = if 0x20 <= x && x <= 0x7e {
            crate::text::char_from_ascii(x)
        } else {
            '.'
        };
        v.push(c);
        proof {
            assert(row.take(j + 1 - from) =~= row.take(j - from).push(x));
        }
        j = j + 1;
        assert(v@ =~= mid + row.take(j - from).map_values(|x: u8| shown_char(x)));
    }
    v.push('\n');
    proof {
        assert(row.take(to - from) =~= row);
        assert(v@ =~= dump_row(row, addr));
    }
    append_chars(out, &v);
}

/// Reads the windows of a hex text as bytes.
fn window_bytes(cs: &Vec<String>) -> (r: Vec<u8>)
    ensures
        r@ == hex_window_bytes(crate::protocol::strings_view(cs@)),
{
    let ghost cv = crate::protocol::strings_view(cs@);
    let mut out: Vec<u8> = Vec::new();
    let mut i: usize = 0;
    while i < cs.len()
        invariant
            i <= cs@.len(),
            cv == crate::protocol::strings_view(cs@),
            out@ == hex_window_bytes(cv.take(i as int)),
        decreases cs@.len() - i,
    {
        let w = chars_of(cs[i].as_str());
        proof {
            assert(cv.take(i + 1).drop_last() =~= cv.take(i as int));
            assert(cv.take(i + 1).last() == w@);
            assert(w@.skip(0) =~= w@);
        }
        match from_str_radix_chars(&w, 0, 16) {
            Ok(x) => {
                if x <= 255 {
                    out.push(x as u8);
                }
            },
            Err(_) => {},
        }
        i = i + 1;
    }
    proof {
        assert(cv.take(i as int) =~= cv);
    }
    out
}

/// A hex dump, sixteen bytes to a row, of the hex text `hex` read at the
/// address `addr` (0 when it does not read).
pub fn hex_to_lines(addr: &str, hex: &str) -> (r: String)
    requires
        byte_chunks(hex@) is Some,
        ({
            let base: int = match ui_parse_u64_spec(addr@) {
                Ok(v) => v as int,
                Err(_) => 0,
            };
            last_row_addr(base, hex_window_bytes(byte_chunks(hex@)->Some_0).len()) <= u64::MAX
        }),
    ensures
        r@ == hex_to_lines_spec(addr@, hex@),
{
    let base: u64 = match parse_u64(addr) {
        Ok(v) => v,
        Err(_) => 0,
    };
    let mut out = string_from("Address             00 01 02 03 04 05 06 07 08 09 0A 0B 0C 0D 0E 0F  ASCII\n");
    let cs = match chunks_of(&chars_of(hex)) {
        Some(c) => c,
        None => {
            return out;
        },
    };
    let bytes = window_bytes(&cs);
    let n = bytes.len();
    let mut i: usize = 0;
    let mut row_addr: u64 = base;
    proof {
        assert(bytes@.skip(0) =~= bytes@);
    }
    while i < n
        invariant
            n == bytes@.len(),
            i <= n,
            i == n || (i % 16 == 0 && row_addr as int == base + i),
            last_row_addr(base as int, n as nat) <= u64::MAX,
            hex_to_lines_spec(addr@, hex@) == out@ + dump_rows(bytes@.skip(i as int), row_addr as int),
        decreases n - i,
    {
        let end = if n - i < 16 {
            n
        } else {
            i + 16
        };
        let ghost t = bytes@.skip(i as int);
        let ghost before = out@;
        let ghost old_i = i;
        dump_row_value(&mut out, &bytes, i, end, row_addr);
        proof {
            let k: int = end - i;
            assert(t.take(k) =~= bytes@.subrange(i as int, end as int));
            assert(t.skip(k) =~= bytes@.skip(end as int));
            assert(before + (dump_row(t.take(k), row_addr) + dump_rows(t.skip(k), row_addr + 16)) =~= out@ + dump_rows(
                bytes@.skip(end as int),
                row_addr + 16,
            ));
        }
        if end < n {
            proof {
                assert(base + i + 16 <= last_row_addr(base as int, n as nat)) by (nonlinear_arith)
                    requires
                        i % 16 == 0,
                        i + 16 < n,
                        n > 0,
                ;
            }
            row_addr = row_addr + 16;
        }
        i = end;
        proof {
            if i == n {
                assert(bytes@.skip(n as int) =~= Seq::<u8>::empty());
            } else {
                assert(i % 16 == 0) by (nonlinear_arith)
                    requires
                        i == end,
                        end == old_i + 16,
                        old_i % 16 == 0,
                ;
            }
        }
    }
    proof {
        assert(bytes@.skip(i as int) =~= Seq::<u8>::empty());
    }
    out
}


// ─── Views of backend answers ───────────────────────────────────────────

/// The text of an optional JSON string, or `d`.
pub open spec fn str_or(o: Option<Json>, d: Seq<char>) -> Seq<char> {
    match o {
        Some(j) => match json_as_str(j) {
            Some(s) => s,
            None => d,
        },
        None => d,
    }
}

/// The text of `j.get(key)` when it is a string, or `d`.
fn get_str_or(j: &JsonValue, key: &str, d: &str) -> (r: String)
    ensures
        r@ == str_or(json_get(j@, key@), d@),
{
    match j.get(key) {
        Some(x) => match x.as_str() {
            Some(s) => string_from(s),
            None => string_from(d),
        },
        None => string_from(d),
    }
}

/// The default text of a register.
pub open spec fn zero_reg() -> Seq<char> {
    "0x0000000000000000"@
}

/// The value of register `name` in a register answer's `registers`.
pub open spec fn reg_text(regs: Option<Json>, name: Seq<char>) -> Seq<char> {
    match regs {
        Some(r) => str_or(json_get(r, name), zero_reg()),
        None => zero_reg(),
    }
}

/// The registers the register pane lists, in order.
pub open spec fn pane_regs() -> Seq<Seq<char>> {
    seq![
        "rax"@, "rbx"@, "rcx"@, "rdx"@, "rsi"@, "rdi"@, "rbp"@, "rsp"@, "rip"@,
        "r8"@, "r9"@, "r10"@, "r11"@, "r12"@, "r13"@, "r14"@, "r15"@,
    ]
}

/// One line of the register pane.
pub open spec fn reg_line(regs: Option<Json>, name: Seq<char>) -> Seq<char> {
    pad_right(crate::text::ascii_upper_seq(name), 4) + seq![' ', ' '] + pretty_addr_spec(reg_text(regs, name)) + seq!['\n']
}

/// The lines of the register pane for the first `k` registers.
pub open spec fn reg_lines(regs: Option<Json>, k: nat) -> Seq<char>
    decreases k,
{
    if k == 0 || k > pane_regs().len() {
        Seq::empty()
    } else {
        reg_lines(regs, (k - 1) as nat) + reg_line(regs, pane_regs()[k - 1])
    }
}

/// The flags pane for a register answer.
pub open spec fn flags_text(regs: Option<Json>) -> Seq<char> {
    let f = match regs {
        Some(r) => str_or(
            match json_get(r, "eflags"@) {
                Some(j) => Some(j),
                None => json_get(r, "rflags"@),
            },
            zero_reg(),
        ),
        None => zero_reg(),
    };
    "RFLAGS "@ + f + "\nCF 0 PF 0 AF 0 ZF 0 SF 0\nTF 0 IF 1 DF 0 OF 0 NT 0"@
}

/// What the front end takes from a register answer: the architecture, the
/// register pane, the flags pane, `rip` and `rsp`.
pub open spec fn format_regs_spec(v: Json) -> (Seq<char>, Seq<char>, Seq<char>, Seq<char>, Seq<char>) {
    let regs = json_get(v, "registers"@);
    (
        str_or(json_get(v, "arch"@), "x64"@),
        reg_lines(regs, 17),
        flags_text(regs),
        reg_text(regs, "rip"@),
        reg_text(regs, "rsp"@),
    )
}

fn reg_text_value(regs: Option<&JsonValue>, name: &str) -> (r: String)
    ensures
        r@ == reg_text(
            match regs {
                Some(x) => Some(x@),
                None => None,
            },
            name@,
        ),
{
    match regs {
        Some(r) => get_str_or(r, name, "0x0000000000000000"),
        None => string_from("0x0000000000000000"),
    }
}

fn pane_reg_name(k: usize) -> (r: &'static str)
    requires
        k < 17,
    ensures
        r@ == pane_regs()[k as int],
{
    if k == 0 {
        "rax"
    } else if k == 1 {
        "rbx"
    } else if k == 2 {
        "rcx"
    } else if k == 3 {
        "rdx"
    } else if k == 4 {
        "rsi"
    } else if k == 5 {
        "rdi"
    } else if k == 6 {
        "rbp"
    } else if k == 7 {
        "rsp"
    } else if k == 8 {
        "rip"
    } else if k == 9 {
        "r8"
    } else if k == 10 {
        "r9"
    } else if k == 11 {
        "r10"
    } else if k == 12 {
        "r11"
    } else if k == 13 {
        "r12"
    } else if k == 14 {
        "r13"
    } else if k == 15 {
        "r14"
    } else {
        "r15"
    }
}

/// What the front end takes from a register answer.
pub fn format_regs(v: &JsonValue) -> (r: (String, String, String, String, String))
    ensures
        (r.0@, r.1@, r.2@, r.3@, r.4@) == format_regs_spec(v@),
{
    let arch = get_str_or(v, "arch", "x64");
    let regs = v.get("registers");
    let ghost rv = match regs {
        Some(x) => Some(x@),
        None => None::<Json>,
    };
    let mut out: Vec<char> = Vec::new();
    let mut k: usize = 0;
    while k < 17
        invariant
            k <= 17,
            rv == json_get(v@, "registers"@),
            rv == (match regs {
                Some(x) => Some(x@),
                None => None::<Json>,
            }),
            out@ == reg_lines(rv, k as nat),
        decreases 17 - k,
    {
        let name = pane_reg_name(k);
        let val = reg_text_value(regs, name);
        let up = crate::text::upper_ascii_chars(&chars_of(name));
        push_padded(&mut out, &up, 4);
        out.push(' ');
        out.push(' ');
        let pretty = chars_of(pretty_addr(val.as_str()).as_str());
        let mut i: usize = 0;
        let ghost mid = out@;
        while i < pretty.len()
            invariant
                i <= pretty@.len(),
                out@ == mid + pretty@.take(i as int),
            decreases pretty@.len() - i,
        {
            out.push(pretty[i]);
            i = i + 1;
            assert(out@ =~= mid + pretty@.take(i as int));
        }
        out.push('\n');
        proof {
            assert(pretty@.take(i as int) =~= pretty@);
            assert(out@ =~= reg_lines(rv, (k + 1) as nat));
        }
        k = k + 1;
    }
    let rip = reg_text_value(regs, "rip");
    let rsp = reg_text_value(regs, "rsp");
    let f = match regs {
        Some(r) => match r.get("eflags") {
            Some(e) => match e.as_str() {
                Some(s) => string_from(s),
                None => string_from("0x0000000000000000"),
            },
            None => get_str_or(r, "rflags", "0x0000000000000000"),
        },
        None => string_from("0x0000000000000000"),
    };
    let mut flags = string_from("RFLAGS ");
    append_str(&mut flags, f.as_str());
    append_str(&mut flags, "\nCF 0 PF 0 AF 0 ZF 0 SF 0\nTF 0 IF 1 DF 0 OF 0 NT 0");
    (arch, string_of(&out), flags, rip, rsp)
}


/// At most the first 64 items.
pub open spec fn first64(a: Seq<Json>) -> Seq<Json> {
    if a.len() > 64 {
        a.take(64)
    } else {
        a
    }
}

/// A value in upper-case hexadecimal, zero-padded to eight digits
/// (`{:08X}`).
pub open spec fn hex_pad8(v: u64) -> Seq<char> {
    let h = crate::num::hex_min(v as nat, true);
    if h.len() >= 8 {
        h
    } else {
        Seq::new((8 - h.len()) as nat, |i: int| '0') + h
    }
}

/// The value of `j.get(key)` as an unsigned integer, or 0.
pub open spec fn u64_or_zero(o: Option<Json>) -> u64 {
    match o {
        Some(j) => match crate::json::json_as_u64(j) {
            Some(x) => x,
            None => 0,
        },
        None => 0,
    }
}

/// An address as shown without a zero upper half.
pub open spec fn short_addr(s: Seq<char>) -> Seq<char> {
    replace_all(pretty_addr_spec(s), "00000000`"@, Seq::empty())
}

/// One line of the module pane.
pub open spec fn module_line(m: Json) -> Seq<char> {
    pad_right(short_addr(str_or(json_get(m, "base"@), "0x0"@)), 18) + seq![' '] + pad_right(
        str_or(json_get(m, "name"@), "-"@),
        23,
    ) + seq![' '] + hex_pad8(u64_or_zero(json_get(m, "size"@))) + seq!['\n']
}

pub open spec fn module_lines(ms: Seq<Json>) -> Seq<char>
    decreases ms.len(),
{
    if ms.len() == 0 {
        Seq::empty()
    } else {
        module_lines(ms.drop_last()) + module_line(ms.last())
    }
}

/// The module pane and the name of the first module.
pub open spec fn format_modules_spec(v: Json) -> (Seq<char>, Seq<char>) {
    let header = "Base               Module                  Size\n"@;
    match crate::json::json_as_array(v) {
        Some(a) => {
            let t = first64(a);
            (header + module_lines(t), if t.len() > 0 {
                str_or(json_get(t[0], "name"@), "-"@)
            } else {
                "debuggee"@
            })
        },
        None => (header, "debuggee"@),
    }
}

fn push_str_chars(out: &mut Vec<char>, s: &str)
    ensures
        final(out)@ == old(out)@ + s@,
{
    let v = chars_of(s);
    let mut i: usize = 0;
    while i < v.len()
        invariant
            i <= v@.len(),
            v@ == s@,
            out@ == old(out)@ + v@.take(i as int),
        decreases v@.len() - i,
    {
        out.push(v[i]);
        i = i + 1;
        assert(out@ =~= old(out)@ + v@.take(i as int));
    }
    assert(v@.take(i as int) =~= v@);
}

fn hex_pad8_value(v: u64) -> (r: Vec<char>)
    ensures
        r@ == hex_pad8(v),
{
    let mut h: Vec<char> = Vec::new();
    crate::num::push_hex_min(&mut h, v, true);
    proof {
        assert(h@ =~= crate::num::hex_min(v as nat, true));
    }
    if h.len() >= 8 {
        return h;
    }
    let mut out: Vec<char> = Vec::new();
    let pad = 8 - h.len();
    let mut i: usize = 0;
    while i < pad
        invariant
            i <= pad,
            out@ == Seq::new(i as nat, |k: int| '0'),
        decreases pad - i,
    {
        out.push('0');
        i = i + 1;
        assert(out@ =~= Seq::new(i as nat, |k: int| '0'));
    }
    let mut j: usize = 0;
    let ghost mid = out@;
    while j < h.len()
        invariant
            j <= h@.len(),
            out@ == mid + h@.take(j as int),
        decreases h@.len() - j,
    {
        out.push(h[j]);
        j = j + 1;
        assert(out@ =~= mid + h@.take(j as int));
    }
    assert(h@.take(j as int) =~= h@);
    out
}

fn u64_or_zero_value(j: &JsonValue, key: &str) -> (r: u64)
    ensures
        r == u64_or_zero(json_get(j@, key@)),
{
    match j.get(key) {
        Some(x) => match x.as_u64() {
            Some(u) => u,
            None => 0,
        },
        None => 0,
    }
}

/// The module pane for a `modules` answer, and the name of the first
/// module (`debuggee` without one).
pub fn format_modules(v: &JsonValue) -> (r: (String, String))
    ensures
        (r.0@, r.1@) == format_modules_spec(v@),
{
    let mut out: Vec<char> = Vec::new();
    push_str_chars(&mut out, "Base               Module                  Size\n");
    let a = match v.as_array() {
        Some(a) => a,
        None => {
            return (string_of(&out), string_from("debuggee"));
        },
    };
    let ghost av = crate::json::items_view(a@);
    let n: usize = if a.len() > 64 {
        64
    } else {
        a.len()
    };
    let ghost head = out@;
    let mut first = string_from("debuggee");
    let mut i: usize = 0;
    proof {
        assert(av.take(0) =~= Seq::<Json>::empty());
    }
    while i < n
        invariant
            n <= a@.len(),
            av == crate::json::items_view(a@),
            i <= n,
            out@ == head + module_lines(av.take(i as int)),
            i > 0 ==> first@ == str_or(json_get(av[0], "name"@), "-"@),
            i == 0 ==> first@ == "debuggee"@,
        decreases n - i,
    {
        let m = &a[i];
        let name = get_str_or(m, "name", "-");
        if i == 0 {
            first = name.clone();
        }
        let base = get_str_or(m, "base", "0x0");
        proof {
            reveal_strlit("00000000`");
            reveal_strlit("");
            assert(""@ =~= Seq::<char>::empty());
        }
        let short = replace_all_str(pretty_addr(base.as_str()).as_str(), "00000000`", "");
        let ghost before = out@;
        push_padded(&mut out, &chars_of(short.as_str()), 18);
        out.push(' ');
        push_padded(&mut out, &chars_of(name.as_str()), 23);
        out.push(' ');
        let size = hex_pad8_value(u64_or_zero_value(m, "size"));
        crate::text::append_chars_vec(&mut out, &size);
        out.push('\n');
        proof {
            reveal_strlit("");
            assert(av[i as int] == m@);
            assert(out@ =~= before + module_line(m@));
            assert(av.take(i + 1).drop_last() =~= av.take(i as int));
        }
        i = i + 1;
    }
    proof {
        assert(first64(av) =~= av.take(n as int));
    }
    (string_of(&out), first)
}


/// Whether a thread record says it is active.
pub open spec fn thread_active(t: Json) -> bool {
    match json_get(t, "active"@) {
        Some(j) => crate::json::json_as_bool(j) == Some(true),
        None => false,
    }
}

/// One line of the thread pane.
pub open spec fn thread_line(t: Json) -> Seq<char> {
    pad_right(str_or(json_get(t, "id"@), "-"@), 8) + seq![' '] + pad_right(str_or(json_get(t, "pc"@), "-"@), 17)
        + seq![' '] + (if thread_active(t) {
        "Active"@
    } else {
        "Ready"@
    }) + seq!['\n']
}

pub open spec fn thread_lines(ts: Seq<Json>) -> Seq<char>
    decreases ts.len(),
{
    if ts.len() == 0 {
        Seq::empty()
    } else {
        thread_lines(ts.drop_last()) + thread_line(ts.last())
    }
}

/// The ID of the last active thread of the list, `----` without one.
pub open spec fn last_active_id(ts: Seq<Json>) -> Seq<char>
    decreases ts.len(),
{
    if ts.len() == 0 {
        "----"@
    } else if thread_active(ts.last()) {
        str_or(json_get(ts.last(), "id"@), "-"@)
    } else {
        last_active_id(ts.drop_last())
    }
}

/// The thread pane and the ID of the thread to show: the active one, else
/// the first.
pub open spec fn format_threads_spec(v: Json) -> (Seq<char>, Seq<char>) {
    let header = "TID      PC                State\n"@;
    match crate::json::json_as_array(v) {
        Some(a) => {
            let t = first64(a);
            let act = last_active_id(t);
            (header + thread_lines(t), if act == "----"@ {
                if a.len() > 0 {
                    str_or(json_get(a[0], "id"@), "----"@)
                } else {
                    "----"@
                }
            } else {
                act
            })
        },
        None => (header, "----"@),
    }
}

/// The thread pane for a `threads` answer and the thread to show.
pub fn format_threads(v: &JsonValue) -> (r: (String, String))
    ensures
        (r.0@, r.1@) == format_threads_spec(v@),
{
    let mut out: Vec<char> = Vec::new();
    push_str_chars(&mut out, "TID      PC                State\n");
    let a = match v.as_array() {
        Some(a) => a,
        None => {
            return (string_of(&out), string_from("----"));
        },
    };
    let ghost av = crate::json::items_view(a@);
    let n: usize = if a.len() > 64 {
        64
    } else {
        a.len()
    };
    let ghost head = out@;
    let mut tid = string_from("----");
    let mut i: usize = 0;
    proof {
        assert(av.take(0) =~= Seq::<Json>::empty());
    }
    while i < n
        invariant
            n <= a@.len(),
            av == crate::json::items_view(a@),
            i <= n,
            out@ == head + thread_lines(av.take(i as int)),
            tid@ == last_active_id(av.take(i as int)),
        decreases n - i,
    {
        let t = &a[i];
        let id = get_str_or(t, "id", "-");
        let pc = get_str_or(t, "pc", "-");
        let active = match t.get("active") {
            Some(x) => match x.as_bool() {
                Some(b) => b,
                None => false,
            },
            None => false,
        };
        let ghost before = out@;
        push_padded(&mut out, &chars_of(id.as_str()), 8);
        out.push(' ');
        push_padded(&mut out, &chars_of(pc.as_str()), 17);
        out.push(' ');
        if active {
            push_str_chars(&mut out, "Active");
            tid = id;
        } else {
            push_str_chars(&mut out, "Ready");
        }
        out.push('\n');
        proof {
            assert(av[i as int] == t@);
            assert(active == thread_active(t@));
            assert(out@ =~= before + thread_line(t@));
            assert(av.take(i + 1).drop_last() =~= av.take(i as int));
            assert(av.take(i + 1).last() == t@);
        }
        i = i + 1;
    }
    proof {
        assert(first64(av) =~= av.take(n as int));
    }
    if str_eq_lit(&tid, "----") {
        tid = if a.len() > 0 {
            get_str_or(&a[0], "id", "----")
        } else {
            string_from("----")
        };
    }
    (string_of(&out), tid)
}

fn str_eq_lit(s: &String, lit: &str) -> (r: bool)
    ensures
        r == (s@ == lit@),
{
    crate::text::str_eq(s.as_str(), lit)
}

/// The disassembly columns.
#[derive(Debug)]
pub struct DisasmColumns {
    pub pc: String,
    pub addr: String,
    pub bytes: String,
    pub mnemonic: String,
    pub operand: String,
    pub comment: String,
}

/// The address text of a disassembly line.
pub open spec fn line_addr(d: Json) -> Seq<char> {
    str_or(json_get(d, "addr"@), "-"@)
}

/// The bytes text of a disassembly line.
pub open spec fn line_bytes(d: Json) -> Seq<char> {
    str_or(json_get(d, "bytes"@), "-"@)
}

/// The instruction text of a disassembly line.
pub open spec fn line_text(d: Json) -> Seq<char> {
    str_or(json_get(d, "text"@), "-"@)
}

/// The program counter shown: the first line whose address shows as
/// something.
pub open spec fn first_pc(ds: Seq<Json>) -> Seq<char>
    decreases ds.len(),
{
    if ds.len() == 0 {
        Seq::empty()
    } else {
        let p = first_pc(ds.drop_last());
        if p.len() == 0 {
            pretty_addr_spec(line_addr(ds.last()))
        } else {
            p
        }
    }
}

/// A column: the text of `f` of each line, one line each.
pub open spec fn column(ds: Seq<Json>, f: spec_fn(Json) -> Seq<char>) -> Seq<char>
    decreases ds.len(),
{
    if ds.len() == 0 {
        Seq::empty()
    } else {
        column(ds.drop_last(), f) + f(ds.last()) + seq!['\n']
    }
}

/// The columns of a `disasm` answer (its first 64 lines).
pub open spec fn format_disasm_spec(v: Json) -> (Seq<char>, Seq<char>, Seq<char>, Seq<char>, Seq<char>, Seq<char>) {
    let ds = match crate::json::json_as_array(v) {
        Some(a) => first64(a),
        None => Seq::empty(),
    };
    let p = first_pc(ds);
    (
        if p.len() == 0 {
            "00000000`00000000"@
        } else {
            p
        },
        column(ds, |d: Json| short_addr(line_addr(d))),
        column(ds, |d: Json| spaced_hex_spec(line_bytes(d))),
        column(ds, |d: Json| split_instruction_spec(line_text(d)).0),
        column(ds, |d: Json| split_instruction_spec(line_text(d)).1),
        column(ds, |d: Json| split_instruction_spec(line_text(d)).2),
    )
}

/// Whether every line's bytes text can be shown as spaced pairs.
pub open spec fn disasm_bytes_ok(v: Json) -> bool {
    match crate::json::json_as_array(v) {
        Some(a) => forall|i: int| 0 <= i < first64(a).len() ==> byte_chunks(trim(line_bytes(#[trigger] first64(a)[i]))) is Some,
        None => true,
    }
}

fn push_line(out: &mut String, s: &str)
    ensures
        final(out)@ == old(out)@ + s@ + seq!['\n'],
{
    append_str(out, s);
    append_str(out, "\n");
    proof {
        reveal_strlit("\n");
    }
}

/// The disassembly columns for a `disasm` answer.
pub fn format_disasm(v: &JsonValue) -> (r: DisasmColumns)
    requires
        disasm_bytes_ok(v@),
    ensures
        (r.pc@, r.addr@, r.bytes@, r.mnemonic@, r.operand@, r.comment@) == format_disasm_spec(v@),
{
    let mut c = DisasmColumns {
        pc: String::new(),
        addr: String::new(),
        bytes: String::new(),
        mnemonic: String::new(),
        operand: String::new(),
        comment: String::new(),
    };
    let empty: Vec<JsonValue> = Vec::new();
    let a = match v.as_array() {
        Some(a) => a,
        None => &empty,
    };
    let ghost av = crate::json::items_view(a@);
    proof {
        if crate::json::json_as_array(v@) is None {
            assert(av =~= Seq::<Json>::empty());
        }
    }
    let n: usize = if a.len() > 64 {
        64
    } else {
        a.len()
    };
    let ghost ds = av.take(n as int);
    proof {
        assert(first64(av) =~= ds);
        assert(av.take(0) =~= Seq::<Json>::empty());
    }
    let mut i: usize = 0;
    while i < n
        invariant
            n <= a@.len(),
            av == crate::json::items_view(a@),
            ds == av.take(n as int),
            first64(av) == ds,
            n > 0 ==> crate::json::json_as_array(v@) == Some(av),
            i <= n,
            crate::json::json_as_array(v@) is Some ==> crate::json::json_as_array(v@) == Some(av),
            disasm_bytes_ok(v@),
            crate::json::json_as_array(v@) is None ==> av.len() == 0,
            c.pc@ == first_pc(av.take(i as int)),
            c.addr@ == column(av.take(i as int), |d: Json| short_addr(line_addr(d))),
            c.bytes@ == column(av.take(i as int), |d: Json| spaced_hex_spec(line_bytes(d))),
            c.mnemonic@ == column(av.take(i as int), |d: Json| split_instruction_spec(line_text(d)).0),
            c.operand@ == column(av.take(i as int), |d: Json| split_instruction_spec(line_text(d)).1),
            c.comment@ == column(av.take(i as int), |d: Json| split_instruction_spec(line_text(d)).2),
        decreases n - i,
    {
        let d = &a[i];
        let addr_raw = get_str_or(d, "addr", "-");
        let bytes_raw = get_str_or(d, "bytes", "-");
        let text = get_str_or(d, "text", "-");
        proof {
            assert(av[i as int] == d@);
            assert(first64(av)[i as int] == d@);
            assert(byte_chunks(trim(line_bytes(first64(av)[i as int]))) is Some);
        }
        let (mn, op, cm) = split_instruction(text.as_str());
        let pretty = pretty_addr(addr_raw.as_str());
        if c.pc.as_str().is_empty() {
            c.pc = pretty.clone();
        }
        proof {
            reveal_strlit("00000000`");
            reveal_strlit("");
            assert(""@ =~= Seq::<char>::empty());
        }
        let short = replace_all_str(pretty.as_str(), "00000000`", "");
        push_line(&mut c.addr, short.as_str());
        let sp = spaced_hex(bytes_raw.as_str());
        push_line(&mut c.bytes, sp.as_str());
        push_line(&mut c.mnemonic, mn.as_str());
        push_line(&mut c.operand, op.as_str());
        push_line(&mut c.comment, cm.as_str());
        proof {
            let t = av.take(i + 1);
            assert(t.drop_last() =~= av.take(i as int));
            assert(t.last() == d@);
        }
        i = i + 1;
    }
    if c.pc.as_str().is_empty() {
        c.pc = string_from("00000000`00000000");
    }
    c
}


/// Whether a hex dump can be made of `hex` read at `addr` (no byte window
/// cuts a character, and the row addresses fit in 64 bits).
pub open spec fn hex_dump_ok_spec(addr: Seq<char>, hex: Seq<char>) -> bool {
    &&& byte_chunks(hex) is Some
    &&& ({
        let base: int = match ui_parse_u64_spec(addr) {
            Ok(v) => v as int,
            Err(_) => 0,
        };
        last_row_addr(base, hex_window_bytes(byte_chunks(hex)->Some_0).len()) <= u64::MAX
    })
}

/// Whether `hex_to_lines` can dump `hex` read at `addr`.
pub fn hex_dump_ok(addr: &str, hex: &str) -> (r: bool)
    ensures
        r == hex_dump_ok_spec(addr@, hex@),
{
    let cs = match chunks_of(&chars_of(hex)) {
        Some(c) => c,
        None => {
            return false;
        },
    };
    let n = window_bytes(&cs).len();
    let base: u64 = match parse_u64(addr) {
        Ok(v) => v,
        Err(_) => 0,
    };
    if n == 0 {
        return true;
    }
    let rows = ((n - 1) / 16) as u64;
    if rows > (u64::MAX - base) / 16 {
        proof {
            assert(16 * rows > u64::MAX - base) by (nonlinear_arith)
                requires
                    rows > (u64::MAX - base) / 16,
            ;
        }
        false
    } else {
        proof {
            assert(16 * rows <= u64::MAX - base) by (nonlinear_arith)
                requires
                    rows <= (u64::MAX - base) / 16,
            ;
        }
        true
    }
}

/// Whether every line's bytes of a `disasm` answer can be shown.
pub fn disasm_bytes_fit(v: &JsonValue) -> (r: bool)
    ensures
        r == disasm_bytes_ok(v@),
{
    let a = match v.as_array() {
        Some(a) => a,
        None => {
            return true;
        },
    };
    let ghost av = crate::json::items_view(a@);
    let n: usize = if a.len() > 64 {
        64
    } else {
        a.len()
    };
    proof {
        assert(first64(av) =~= av.take(n as int));
    }
    let mut i: usize = 0;
    while i < n
        invariant
            n <= a@.len(),
            av == crate::json::items_view(a@),
            first64(av) == av.take(n as int),
            crate::json::json_as_array(v@) == Some(av),
            i <= n,
            forall|k: int| 0 <= k < i ==> byte_chunks(trim(line_bytes(#[trigger] first64(av)[k]))) is Some,
        decreases n - i,
    {
        let b = get_str_or(&a[i], "bytes", "-");
        let t = trim_chars(b.as_str());
        proof {
            assert(first64(av)[i as int] == a@[i as int]@);
        }
        if chunks_of(&t).is_none() {
            proof {
                assert(crate::json::json_as_array(v@) == Some(av));
                assert(byte_chunks(trim(line_bytes(first64(av)[i as int]))) is None);
            }
            return false;
        }
        i = i + 1;
    }
    true
}

/// A change to the window: each field that is set replaces what is shown.
#[derive(Debug)]
pub struct UiPatch {
    pub status: Option<String>,
    pub core: Option<String>,
    pub backend: Option<String>,
    pub pid: Option<String>,
    pub tid: Option<String>,
    pub arch: Option<String>,
    pub target: Option<String>,
    pub processes: Option<String>,
    pub modules: Option<String>,
    pub threads: Option<String>,
    pub breakpoints: Option<String>,
    pub memory_map: Option<String>,
    pub pc: Option<String>,
    pub disasm_addr: Option<String>,
    pub disasm_bytes: Option<String>,
    pub disasm_mnemonic: Option<String>,
    pub disasm_operand: Option<String>,
    pub disasm_comment: Option<String>,
    pub regs: Option<String>,
    pub flags: Option<String>,
    pub stack: Option<String>,
    pub hex: Option<String>,
    pub log: Option<String>,
}

pub open spec fn text_of(o: Option<String>) -> Option<Seq<char>> {
    match o {
        Some(s) => Some(s@),
        None => None,
    }
}

fn some(s: &str) -> (r: Option<String>)
    ensures
        text_of(r) == Some(s@),
{
    Some(string_from(s))
}

/// What a patch changes: the new text of each panel it sets.
pub struct PatchView {
    pub status: Option<Seq<char>>,
    pub core: Option<Seq<char>>,
    pub backend: Option<Seq<char>>,
    pub pid: Option<Seq<char>>,
    pub tid: Option<Seq<char>>,
    pub arch: Option<Seq<char>>,
    pub target: Option<Seq<char>>,
    pub processes: Option<Seq<char>>,
    pub modules: Option<Seq<char>>,
    pub threads: Option<Seq<char>>,
    pub breakpoints: Option<Seq<char>>,
    pub memory_map: Option<Seq<char>>,
    pub pc: Option<Seq<char>>,
    pub disasm_addr: Option<Seq<char>>,
    pub disasm_bytes: Option<Seq<char>>,
    pub disasm_mnemonic: Option<Seq<char>>,
    pub disasm_operand: Option<Seq<char>>,
    pub disasm_comment: Option<Seq<char>>,
    pub regs: Option<Seq<char>>,
    pub flags: Option<Seq<char>>,
    pub stack: Option<Seq<char>>,
    pub hex: Option<Seq<char>>,
    pub log: Option<Seq<char>>,
}

impl View for UiPatch {
    type V = PatchView;

    open spec fn view(&self) -> PatchView {
        PatchView {
            status: text_of(self.status),
            core: text_of(self.core),
            backend: text_of(self.backend),
            pid: text_of(self.pid),
            tid: text_of(self.tid),
            arch: text_of(self.arch),
            target: text_of(self.target),
            processes: text_of(self.processes),
            modules: text_of(self.modules),
            threads: text_of(self.threads),
            breakpoints: text_of(self.breakpoints),
            memory_map: text_of(self.memory_map),
            pc: text_of(self.pc),
            disasm_addr: text_of(self.disasm_addr),
            disasm_bytes: text_of(self.disasm_bytes),
            disasm_mnemonic: text_of(self.disasm_mnemonic),
            disasm_operand: text_of(self.disasm_operand),
            disasm_comment: text_of(self.disasm_comment),
            regs: text_of(self.regs),
            flags: text_of(self.flags),
            stack: text_of(self.stack),
            hex: text_of(self.hex),
            log: text_of(self.log),
        }
    }
}

/// The patch that changes nothing.
pub open spec fn no_change() -> PatchView {
    PatchView {
        status: None,
        core: None,
        backend: None,
        pid: None,
        tid: None,
        arch: None,
        target: None,
        processes: None,
        modules: None,
        threads: None,
        breakpoints: None,
        memory_map: None,
        pc: None,
        disasm_addr: None,
        disasm_bytes: None,
        disasm_mnemonic: None,
        disasm_operand: None,
        disasm_comment: None,
        regs: None,
        flags: None,
        stack: None,
        hex: None,
        log: None,
    }
}


impl UiPatch {
    /// A patch that changes nothing.
    pub fn empty() -> (r: UiPatch)
        ensures
            r.status is None && r.core is None && r.backend is None && r.pid is None && r.tid is None
                && r.arch is None && r.target is None && r.processes is None && r.modules is None
                && r.threads is None && r.breakpoints is None && r.memory_map is None && r.pc is None
                && r.disasm_addr is None && r.disasm_bytes is None && r.disasm_mnemonic is None
                && r.disasm_operand is None && r.disasm_comment is None && r.regs is None && r.flags is None
                && r.stack is None && r.hex is None && r.log is None,
            r@ == no_change(),
    {
        UiPatch {
            status: None,
            core: None,
            backend: None,
            pid: None,
            tid: None,
            arch: None,
            target: None,
            processes: None,
            modules: None,
            threads: None,
            breakpoints: None,
            memory_map: None,
            pc: None,
            disasm_addr: None,
            disasm_bytes: None,
            disasm_mnemonic: None,
            disasm_operand: None,
            disasm_comment: None,
            regs: None,
            flags: None,
            stack: None,
            hex: None,
            log: None,
        }
    }

    /// What the window shows before anything is known.
    pub fn initial() -> (r: UiPatch)
        ensures
            text_of(r.status) == Some("Idle"@),
            text_of(r.core) == Some("unknown"@),
            text_of(r.backend) == Some("none"@),
            r.pid is None && r.tid is None && r.arch is None,
            text_of(r.target) == Some("no target"@),
            text_of(r.processes) == Some("Core offline\n\nClick Core, WinAPI, then Open EXE."@),
            text_of(r.modules) == Some("No target"@),
            text_of(r.threads) == Some("No target"@),
            text_of(r.breakpoints) == Some("Address             Type   Hits\n<none>"@),
            text_of(r.memory_map) == Some("No target"@),
            text_of(r.pc) == Some("00000000`00000000"@),
            text_of(r.disasm_addr) == Some(""@),
            text_of(r.disasm_bytes) == Some(""@),
            text_of(r.disasm_mnemonic) == Some(""@),
            text_of(r.disasm_operand) == Some("<open an executable to begin>"@),
            text_of(r.disasm_comment) == Some(""@),
            r.regs is None && r.flags is None,
            text_of(r.stack) == Some("No target"@),
            text_of(r.hex) == Some("No target"@),
            r.log is None,
    {
        let mut p = UiPatch::empty();
        p.status = some("Idle");
        p.core = some("unknown");
        p.backend = some("none");
        p.target = some("no target");
        p.processes = some("Core offline\n\nClick Core, WinAPI, then Open EXE.");
        p.modules = some("No target");
        p.threads = some("No target");
        p.breakpoints = some("Address             Type   Hits\n<none>");
        p.memory_map = some("No target");
        p.pc = some("00000000`00000000");
        p.disasm_addr = some("");
        p.disasm_bytes = some("");
        p.disasm_mnemonic = some("");
        p.disasm_operand = some("<open an executable to begin>");
        p.disasm_comment = some("");
        p.stack = some("No target");
        p.hex = some("No target");
        p
    }
}

/// The stack pane: the rows of a hex dump without its header, at most ten.
pub open spec fn stack_text(dump: Seq<char>) -> Seq<char> {
    let ls = lines_of(dump);
    let rows = if ls.len() > 0 {
        ls.drop_first()
    } else {
        ls
    };
    join_lines(if rows.len() > 10 {
        rows.take(10)
    } else {
        rows
    })
}

/// The process pane for one process.
pub open spec fn processes_text(pid: Seq<char>, name: Seq<char>) -> Seq<char> {
    "PID      Process Name           Arch   Status\n"@ + pad_right(pid, 8) + seq![' '] + pad_right(name, 22)
        + " x64    stopped"@
}

fn stack_value(dump: &str) -> (r: String)
    ensures
        r@ == stack_text(dump@),
{
    let ls = lines_vec(dump);
    let ghost lv = crate::protocol::strings_view(ls@);
    let start: usize = if ls.len() > 0 {
        1
    } else {
        0
    };
    let ghost rows = if lv.len() > 0 {
        lv.drop_first()
    } else {
        lv
    };
    let ls_len = ls.len();
    let total = ls_len - start;
    let n: usize = if total > 10 {
        10
    } else {
        total
    };
    let ghost kept = if rows.len() > 10 {
        rows.take(10)
    } else {
        rows
    };
    proof {
        assert(kept.len() == n);
        assert forall|k: int| 0 <= k < n implies kept[k] == lv[k + start] by {
        }
    }
    let mut out = String::new();
    let mut i: usize = 0;
    while i < n
        invariant
            i <= n,
            kept.len() == n,
            start + n <= ls@.len(),
            ls_len == ls@.len(),
            lv == crate::protocol::strings_view(ls@),
            forall|k: int| 0 <= k < n ==> kept[k] == lv[k + start],
            out@ == join_lines(kept.take(i as int)),
        decreases n - i,
    {
        let ghost prev = out@;
        if i > 0 {
            append_str(&mut out, "\n");
        }
        append_str(&mut out, ls[start + i].as_str());
        proof {
            reveal_strlit("\n");
            let t = kept.take(i + 1);
            assert(t.drop_last() =~= kept.take(i as int));
            assert(t.last() == lv[i + start]);
            if i == 0 {
                assert(kept.take(0) =~= Seq::<Seq<char>>::empty());
                assert(out@ =~= lv[start as int]);
            }
        }
        i = i + 1;
    }
    proof {
        assert(kept.take(n as int) =~= kept);
    }
    out
}

/// What the window shows after the target stopped, from the answers to
/// `regs`, `modules`, `threads`, `disasm` and `readMem`.
pub fn refresh_patch(
    pid_hint: Option<String>,
    regs_v: &JsonValue,
    mods_v: &JsonValue,
    th_v: &JsonValue,
    dis_v: &JsonValue,
    mem_v: &JsonValue,
) -> (r: UiPatch)
    requires
        disasm_bytes_ok(dis_v@),
        hex_dump_ok_spec(str_or(json_get(mem_v@, "addr"@), "0x0"@), str_or(json_get(mem_v@, "hex"@), ""@)),
    ensures
        ({
            let (arch, regs, flags, _, _) = format_regs_spec(regs_v@);
            let (threads, tid) = format_threads_spec(th_v@);
            let (pc, da, db, dm, dop, dc) = format_disasm_spec(dis_v@);
            let dump = hex_to_lines_spec(str_or(json_get(mem_v@, "addr"@), "0x0"@), str_or(json_get(mem_v@, "hex"@), ""@));
            let (modules, name) = format_modules_spec(mods_v@);
            let pid = match pid_hint {
                Some(p) => p@,
                None => "----"@,
            };
            &&& text_of(r.status) == Some("Stopped"@)
            &&& text_of(r.core) == Some("online"@)
            &&& text_of(r.backend) == Some("winapi"@)
            &&& text_of(r.pid) == Some(pid)
            &&& text_of(r.tid) == Some(tid)
            &&& text_of(r.arch) == Some(arch)
            &&& text_of(r.target) == Some(name)
            &&& text_of(r.processes) == Some(processes_text(pid, name))
            &&& text_of(r.modules) == Some(modules)
            &&& text_of(r.threads) == Some(threads)
            &&& text_of(r.breakpoints) == Some("Address             Type   Hits\n<none>"@)
            &&& text_of(r.memory_map) == Some("Base               Size       Protect\n<not queried yet>"@)
            &&& text_of(r.pc) == Some(pc)
            &&& text_of(r.disasm_addr) == Some(da)
            &&& text_of(r.disasm_bytes) == Some(db)
            &&& text_of(r.disasm_mnemonic) == Some(dm)
            &&& text_of(r.disasm_operand) == Some(dop)
            &&& text_of(r.disasm_comment) == Some(dc)
            &&& text_of(r.regs) == Some(regs)
            &&& text_of(r.flags) == Some(flags)
            &&& text_of(r.stack) == Some(stack_text(dump))
            &&& text_of(r.hex) == Some(dump)
            &&& r.log is None
        }),
{
    let (arch, regs, flags, _rip, _rsp) = format_regs(regs_v);
    let (threads, tid) = format_threads(th_v);
    let dis = format_disasm(dis_v);
    let maddr = get_str_or(mem_v, "addr", "0x0");
    let mhex = get_str_or(mem_v, "hex", "");
    let hex = hex_to_lines(maddr.as_str(), mhex.as_str());
    let stack = stack_value(hex.as_str());
    let (modules, process_name) = format_modules(mods_v);
    let pid = match pid_hint {
        Some(p) => p,
        None => string_from("----"),
    };
    let mut procs: Vec<char> = Vec::new();
    push_str_chars(&mut procs, "PID      Process Name           Arch   Status\n");
    push_padded(&mut procs, &chars_of(pid.as_str()), 8);
    procs.push(' ');
    push_padded(&mut procs, &chars_of(process_name.as_str()), 22);
    push_str_chars(&mut procs, " x64    stopped");
    proof {
        assert(procs@ =~= processes_text(pid@, process_name@));
    }
    let mut p = UiPatch::empty();
    p.status = some("Stopped");
    p.core = some("online");
    p.backend = some("winapi");
    p.pid = Some(pid);
    p.tid = Some(tid);
    p.arch = Some(arch);
    p.target = Some(process_name);
    p.processes = Some(string_of(&procs));
    p.modules = Some(modules);
    p.threads = Some(threads);
    p.breakpoints = some("Address             Type   Hits\n<none>");
    p.memory_map = some("Base               Size       Protect\n<not queried yet>");
    p.pc = Some(dis.pc);
    p.disasm_addr = Some(dis.addr);
    p.disasm_bytes = Some(dis.bytes);
    p.disasm_mnemonic = Some(dis.mnemonic);
    p.disasm_operand = Some(dis.operand);
    p.disasm_comment = Some(dis.comment);
    p.regs = Some(regs);
    p.flags = Some(flags);
    p.stack = Some(stack);
    p.hex = Some(hex);
    p
}


// ─── Console commands ───────────────────────────────────────────────────

/// A console command, read.
#[derive(Debug)]
pub enum ConsoleCommand {
    /// An empty line: nothing to do.
    Nothing,
    Help,
    /// Start the WinAPI backend.
    Backend,
    /// Stop the backend.
    Stop,
    /// Launch the program at this path.
    Launch(String),
    /// Attach to this process.
    Attach(u64),
    /// Refresh registers, modules, threads, disassembly and memory.
    Refresh,
    /// Disassemble at this address (`None`: at `rip`).
    Disasm(Option<String>),
    /// Dump this many bytes at this address.
    Dump(String, u64),
    /// Set a breakpoint at this address (`None`: at `rip`).
    Breakpoint(Option<String>),
    Go,
    Step,
    Pause,
    /// A `launch` or `attach` that cannot run (its argument is missing or
    /// does not read), with the reason; the console still makes sure the
    /// backend runs before it reports it.
    Fail(String),
    /// A word that names no command.
    Unknown(String),
}

pub enum CommandView {
    Nothing,
    Help,
    Backend,
    Stop,
    Launch(Seq<char>),
    Attach(u64),
    Refresh,
    Disasm(Option<Seq<char>>),
    Dump(Seq<char>, u64),
    Breakpoint(Option<Seq<char>>),
    Go,
    Step,
    Pause,
    Fail(Seq<char>),
    Unknown(Seq<char>),
}

impl View for ConsoleCommand {
    type V = CommandView;

    open spec fn view(&self) -> CommandView {
        match self {
            ConsoleCommand::Nothing => CommandView::Nothing,
            ConsoleCommand::Help => CommandView::Help,
            ConsoleCommand::Backend => CommandView::Backend,
            ConsoleCommand::Stop => CommandView::Stop,
            ConsoleCommand::Launch(p) => CommandView::Launch(p@),
            ConsoleCommand::Attach(p) => CommandView::Attach(*p),
            ConsoleCommand::Refresh => CommandView::Refresh,
            ConsoleCommand::Disasm(a) => CommandView::Disasm(text_of(*a)),
            ConsoleCommand::Dump(a, n) => CommandView::Dump(a@, *n),
            ConsoleCommand::Breakpoint(a) => CommandView::Breakpoint(text_of(*a)),
            ConsoleCommand::Go => CommandView::Go,
            ConsoleCommand::Step => CommandView::Step,
            ConsoleCommand::Pause => CommandView::Pause,
            ConsoleCommand::Fail(e) => CommandView::Fail(e@),
            ConsoleCommand::Unknown(c) => CommandView::Unknown(c@),
        }
    }
}

/// An address argument: `rip` (in any ASCII case) means the current
/// instruction.
pub open spec fn addr_arg(args: Seq<Seq<char>>) -> Option<Seq<char>> {
    let a = if args.len() > 0 {
        args[0]
    } else {
        "rip"@
    };
    if crate::text::eq_ignore_ascii_case(a, "rip"@) {
        None
    } else {
        Some(a)
    }
}

/// How a console line reads.
pub open spec fn parse_command_spec(line: Seq<char>) -> CommandView {
    let l = trim(line);
    let ws = crate::winapi::words(l);
    if l.len() == 0 || ws.len() == 0 {
        CommandView::Nothing
    } else {
        let cmd = crate::text::lowercase(ws[0]);
        let args = ws.drop_first();
        if cmd == "help"@ {
            CommandView::Help
        } else if cmd == "backend"@ {
            CommandView::Backend
        } else if cmd == "stop"@ {
            CommandView::Stop
        } else if cmd == "launch"@ || cmd == "open"@ {
            let rest = if cmd.len() <= l.len() {
                l.skip(cmd.len() as int)
            } else {
                Seq::empty()
            };
            let path = trim(rest);
            if path.len() == 0 {
                CommandView::Fail("launch requires path"@)
            } else {
                CommandView::Launch(path)
            }
        } else if cmd == "attach"@ {
            if args.len() == 0 {
                CommandView::Fail("attach requires pid"@)
            } else {
                match spec_from_str_radix(args[0], 10) {
                    Ok(p) => CommandView::Attach(p),
                    Err(k) => CommandView::Fail(crate::num::int_error_message(k)),
                }
            }
        } else if cmd == "regs"@ || cmd == "r"@ || cmd == "modules"@ || cmd == "threads"@ {
            CommandView::Refresh
        } else if cmd == "u"@ {
            CommandView::Disasm(addr_arg(args))
        } else if cmd == "db"@ {
            let addr = if args.len() > 0 {
                args[0]
            } else {
                "0x0"@
            };
            let size: u64 = if args.len() > 1 {
                match spec_from_str_radix(args[1], 10) {
                    Ok(n) => n,
                    Err(_) => 128,
                }
            } else {
                128
            };
            CommandView::Dump(addr, size)
        } else if cmd == "bp"@ {
            CommandView::Breakpoint(addr_arg(args))
        } else if cmd == "g"@ {
            CommandView::Go
        } else if cmd == "t"@ || cmd == "step"@ {
            CommandView::Step
        } else if cmd == "pause"@ {
            CommandView::Pause
        } else {
            CommandView::Unknown(cmd)
        }
    }
}

/// The words of a line, as `String`s.
fn words_vec(v: &Vec<char>) -> (r: Vec<String>)
    ensures
        crate::protocol::strings_view(r@) == crate::winapi::words(v@),
{
    let mut acc: Vec<String> = Vec::new();
    let mut p: usize = 0;
    proof {
        assert(v@.skip(0) =~= v@);
        assert(crate::protocol::strings_view(acc@) + crate::winapi::words(v@) =~= crate::winapi::words(v@));
    }
    loop
        invariant
            p <= v@.len(),
            crate::winapi::words(v@) == crate::protocol::strings_view(acc@) + crate::winapi::words(v@.skip(p as int)),
        ensures
            crate::winapi::words(v@) == crate::protocol::strings_view(acc@),
        decreases v@.len() - p,
    {
        let i = crate::http::skip_ws(v, p);
        if i == v.len() {
            proof {
                assert(crate::text::trim_start(v@.skip(p as int)).len() == 0);
                assert(crate::protocol::strings_view(acc@) + Seq::<Seq<char>>::empty() =~= crate::protocol::strings_view(acc@));
            }
            break;
        }
        let j = crate::http::word_end(v, i);
        let w = string_of_range(v, i, j);
        proof {
            let t = v@.skip(i as int);
            assert(t[0] == v@[i as int]);
            assert(crate::http::word_len(t) > 0);
            assert(t.take(j - i) =~= v@.subrange(i as int, j as int));
            assert(t.skip(j - i) =~= v@.skip(j as int));
            assert(crate::winapi::words(v@.skip(p as int)) == seq![w@] + crate::winapi::words(v@.skip(j as int)));
        }
        let ghost before = crate::protocol::strings_view(acc@);
        acc.push(w);
        proof {
            let rest = crate::winapi::words(v@.skip(j as int));
            assert(crate::protocol::strings_view(acc@) =~= before.push(w@));
            assert(before + (seq![w@] + rest) =~= crate::protocol::strings_view(acc@) + rest);
        }
        p = j;
    }
    acc
}

fn addr_arg_value(ws: &Vec<String>) -> (r: Option<String>)
    requires
        ws@.len() > 0,
    ensures
        text_of(r) == addr_arg(crate::protocol::strings_view(ws@).drop_first()),
{
    let a = if ws.len() > 1 {
        ws[1].clone()
    } else {
        string_from("rip")
    };
    proof {
        let args = crate::protocol::strings_view(ws@).drop_first();
        if ws@.len() > 1 {
            assert(args[0] == ws@[1]@);
        }
    }
    if crate::text::eq_ignore_case(a.as_str(), "rip") {
        None
    } else {
        Some(a)
    }
}

/// Reads a console line.
pub fn parse_command(line: &str) -> (r: ConsoleCommand)
    ensures
        r@ == parse_command_spec(line@),
{
    let lv = trim_chars(line);
    let ws = words_vec(&lv);
    if lv.len() == 0 || ws.len() == 0 {
        return ConsoleCommand::Nothing;
    }
    let ghost wv = crate::protocol::strings_view(ws@);
    let ghost args = wv.drop_first();
    proof {
        assert(wv[0] == ws@[0]@);
    }
    let cmd = crate::text::to_lowercase(ws[0].as_str());
    let c = cmd.as_str();
    if crate::text::str_eq(c, "help") {
        ConsoleCommand::Help
    } else if crate::text::str_eq(c, "backend") {
        ConsoleCommand::Backend
    } else if crate::text::str_eq(c, "stop") {
        ConsoleCommand::Stop
    } else if crate::text::str_eq(c, "launch") || crate::text::str_eq(c, "open") {
        let k = cmd.as_str().unicode_len();
        let skip = if k < lv.len() {
            k
        } else {
            lv.len()
        };
        let rest = string_of_range(&lv, skip, lv.len());
        let path = trim_chars(rest.as_str());
        proof {
            if cmd@.len() <= lv@.len() {
                assert(lv@.subrange(skip as int, lv@.len() as int) =~= lv@.skip(cmd@.len() as int));
            } else {
                assert(lv@.subrange(skip as int, lv@.len() as int) =~= Seq::<char>::empty());
            }
        }
        if path.len() == 0 {
            ConsoleCommand::Fail(string_from("launch requires path"))
        } else {
            ConsoleCommand::Launch(string_of(&path))
        }
    } else if crate::text::str_eq(c, "attach") {
        if ws.len() < 2 {
            ConsoleCommand::Fail(string_from("attach requires pid"))
        } else {
            let a = chars_of(ws[1].as_str());
            proof {
                assert(args[0] == ws@[1]@);
                assert(a@.skip(0) =~= a@);
            }
            match from_str_radix_chars(&a, 0, 10) {
                Ok(p) => ConsoleCommand::Attach(p),
                Err(k) => ConsoleCommand::Fail(crate::num::int_error_text(k)),
            }
        }
    } else if crate::text::str_eq(c, "regs") || crate::text::str_eq(c, "r") || crate::text::str_eq(c, "modules")
        || crate::text::str_eq(c, "threads") {
        ConsoleCommand::Refresh
    } else if crate::text::str_eq(c, "u") {
        ConsoleCommand::Disasm(addr_arg_value(&ws))
    } else if crate::text::str_eq(c, "db") {
        let addr = if ws.len() > 1 {
            ws[1].clone()
        } else {
            string_from("0x0")
        };
        let size: u64 = if ws.len() > 2 {
            let a = chars_of(ws[2].as_str());
            proof {
                assert(args[1] == ws@[2]@);
                assert(a@.skip(0) =~= a@);
            }
            match from_str_radix_chars(&a, 0, 10) {
                Ok(n) => n,
                Err(_) => 128,
            }
        } else {
            128
        };
        proof {
            if ws@.len() > 1 {
                assert(args[0] == ws@[1]@);
            }
        }
        ConsoleCommand::Dump(addr, size)
    } else if crate::text::str_eq(c, "bp") {
        ConsoleCommand::Breakpoint(addr_arg_value(&ws))
    } else if crate::text::str_eq(c, "g") {
        ConsoleCommand::Go
    } else if crate::text::str_eq(c, "t") || crate::text::str_eq(c, "step") {
        ConsoleCommand::Step
    } else if crate::text::str_eq(c, "pause") {
        ConsoleCommand::Pause
    } else {
        ConsoleCommand::Unknown(cmd)
    }
}

/// The console's help text.
pub const HELP_TEXT: &'static str = "commands: backend winapi | launch <exe> | attach <pid> | regs/r | modules | threads | u [rip] | db <addr> [size] | bp [addr] | g | t | pause | stop";

/// The log entry of a console line that ran: the line, then what it
/// logged (`ok` when nothing).
pub open spec fn command_ok_log(line: Seq<char>, log: Option<Seq<char>>) -> Seq<char> {
    "hyw> "@ + trim(line) + seq!['\n'] + match log {
        Some(l) => l,
        None => "ok"@,
    }
}

pub fn command_ok_log_value(line: &str, log: Option<String>) -> (r: String)
    ensures
        r@ == command_ok_log(line@, text_of(log)),
{
    let mut out = string_from("hyw> ");
    append_chars(&mut out, &trim_chars(line));
    append_str(&mut out, "\n");
    match log {
        Some(l) => append_str(&mut out, l.as_str()),
        None => append_str(&mut out, "ok"),
    }
    proof {
        reveal_strlit("\n");
    }
    out
}

/// The log entry of a console line that failed.
pub open spec fn command_err_log(line: Seq<char>, err: Seq<char>) -> Seq<char> {
    "hyw> "@ + trim(line) + "\nerror: "@ + err
}

pub fn command_err_log_value(line: &str, err: &str) -> (r: String)
    ensures
        r@ == command_err_log(line@, err@),
{
    let mut out = string_from("hyw> ");
    append_chars(&mut out, &trim_chars(line));
    append_str(&mut out, "\nerror: ");
    append_str(&mut out, err);
    out
}


/// Whether `pat` occurs in `s`.
pub open spec fn contains_text(s: Seq<char>, pat: Seq<char>) -> bool {
    exists|i: int| 0 <= i && i + pat.len() <= s.len() && #[trigger] s.subrange(i, i + pat.len()) == pat
}

/// Whether an error message says that a backend is already active (the
/// front end then goes on with that backend).
pub fn mentions_already_active(msg: &str) -> (r: bool)
    ensures
        r == contains_text(msg@, "already active"@),
{
    proof {
        reveal_strlit("already active");
    }
    let v = chars_of(msg);
    let p = chars_of("already active");
    let n = v.len();
    let m = p.len();
    if m > n {
        proof {
            assert(!contains_text(msg@, "already active"@));
        }
        return false;
    }
    let mut i: usize = 0;
    while i <= n - m
        invariant
            n == v@.len(),
            m == p@.len(),
            m <= n,
            v@ == msg@,
            p@ == "already active"@,
            m > 0,
            i <= n - m + 1,
            forall|k: int| 0 <= k < i ==> #[trigger] v@.subrange(k, k + m) != p@,
        decreases n - m + 1 - i,
    {
        if crate::text::chars_start_with_at(&v, i, &p) {
            proof {
                assert(v@.skip(i as int).take(m as int) =~= v@.subrange(i as int, i + m));
            }
            return true;
        }
        proof {
            assert(v@.skip(i as int).take(m as int) =~= v@.subrange(i as int, i + m));
        }
        i = i + 1;
    }
    proof {
        assert(!contains_text(msg@, "already active"@)) by {
            if contains_text(msg@, "already active"@) {
                let k = choose|k: int| 0 <= k && k + m <= n && #[trigger] msg@.subrange(k, k + m) == p@;
                assert(k < i);
            }
        }
    }
    false
}


// ─── What a command comes to ────────────────────────────────────────────

/// What a console command came to, once the backend answered.
#[derive(Debug)]
pub enum CommandOutcome {
    Help,
    /// The WinAPI backend runs.
    BackendReady,
    /// The backend was stopped.
    BackendStopped,
    /// The program at the path was launched; the panels after it.
    Launched(UiPatch, String),
    /// The process was attached to; the panels after it.
    Attached(UiPatch, u64),
    /// The panels, refreshed.
    Refreshed(UiPatch),
    /// The target ran until it stopped; the panels after it.
    Went(UiPatch),
    /// The target made one step; the panels after it.
    Stepped(UiPatch),
    /// The target was paused; the panels after it.
    Paused(UiPatch),
    /// The disassembly columns.
    Disassembled(DisasmColumns),
    /// The hex dump.
    Dumped(String),
    BreakpointSet,
    /// A word that names no command.
    Unknown(String),
}

pub enum OutcomeView {
    Help,
    BackendReady,
    BackendStopped,
    Launched(PatchView, Seq<char>),
    Attached(PatchView, u64),
    Refreshed(PatchView),
    Went(PatchView),
    Stepped(PatchView),
    Paused(PatchView),
    Disassembled(Seq<char>, Seq<char>, Seq<char>, Seq<char>, Seq<char>, Seq<char>),
    Dumped(Seq<char>),
    BreakpointSet,
    Unknown(Seq<char>),
}

impl View for CommandOutcome {
    type V = OutcomeView;

    open spec fn view(&self) -> OutcomeView {
        match self {
            CommandOutcome::Help => OutcomeView::Help,
            CommandOutcome::BackendReady => OutcomeView::BackendReady,
            CommandOutcome::BackendStopped => OutcomeView::BackendStopped,
            CommandOutcome::Launched(p, path) => OutcomeView::Launched(p@, path@),
            CommandOutcome::Attached(p, pid) => OutcomeView::Attached(p@, *pid),
            CommandOutcome::Refreshed(p) => OutcomeView::Refreshed(p@),
            CommandOutcome::Went(p) => OutcomeView::Went(p@),
            CommandOutcome::Stepped(p) => OutcomeView::Stepped(p@),
            CommandOutcome::Paused(p) => OutcomeView::Paused(p@),
            CommandOutcome::Disassembled(c) => OutcomeView::Disassembled(
                c.pc@,
                c.addr@,
                c.bytes@,
                c.mnemonic@,
                c.operand@,
                c.comment@,
            ),
            CommandOutcome::Dumped(h) => OutcomeView::Dumped(h@),
            CommandOutcome::BreakpointSet => OutcomeView::BreakpointSet,
            CommandOutcome::Unknown(c) => OutcomeView::Unknown(c@),
        }
    }
}

/// A patch with the given log entry.
pub open spec fn logged(p: PatchView, log: Seq<char>) -> PatchView {
    PatchView { log: Some(log), ..p }
}

/// The panels a command's outcome changes, and what it logs.
pub open spec fn outcome_patch_spec(o: OutcomeView) -> PatchView {
    match o {
        OutcomeView::Help => logged(no_change(), HELP_TEXT@),
        OutcomeView::BackendReady => PatchView {
            backend: Some("winapi"@),
            log: Some("backend winapi ready"@),
            ..no_change()
        },
        OutcomeView::BackendStopped => PatchView {
            backend: Some("none"@),
            log: Some("backend stopped"@),
            ..no_change()
        },
        OutcomeView::Launched(p, path) => logged(p, "launch "@ + path),
        OutcomeView::Attached(p, pid) => PatchView {
            pid: Some(crate::num::dec_digits(pid as nat)),
            log: Some("attach "@ + crate::num::dec_digits(pid as nat)),
            ..p
        },
        OutcomeView::Refreshed(p) => p,
        OutcomeView::Went(p) => logged(p, "go"@),
        OutcomeView::Stepped(p) => logged(p, "step"@),
        OutcomeView::Paused(p) => logged(p, "pause"@),
        OutcomeView::Disassembled(pc, a, b, m, op, c) => PatchView {
            pc: Some(pc),
            disasm_addr: Some(a),
            disasm_bytes: Some(b),
            disasm_mnemonic: Some(m),
            disasm_operand: Some(op),
            disasm_comment: Some(c),
            log: Some("disasm refreshed"@),
            ..no_change()
        },
        OutcomeView::Dumped(h) => PatchView { hex: Some(h), log: Some("memory refreshed"@), ..no_change() },
        OutcomeView::BreakpointSet => PatchView {
            breakpoints: Some("Address             Type   Hits\n<set at current address>"@),
            log: Some("breakpoint set"@),
            ..no_change()
        },
        OutcomeView::Unknown(cmd) => logged(no_change(), "unknown command: "@ + cmd),
    }
}

fn with_log_text(p: UiPatch, log: &str) -> (r: UiPatch)
    ensures
        r@ == logged(p@, log@),
{
    let mut p = p;
    p.log = some(log);
    p
}

fn prefixed(prefix: &str, rest: &str) -> (r: String)
    ensures
        r@ == prefix@ + rest@,
{
    let mut s = string_from(prefix);
    append_str(&mut s, rest);
    s
}

/// The patch that a command's outcome makes.
pub fn outcome_patch(o: CommandOutcome) -> (r: UiPatch)
    ensures
        r@ == outcome_patch_spec(o@),
{
    match o {
        CommandOutcome::Help => with_log_text(UiPatch::empty(), HELP_TEXT),
        CommandOutcome::BackendReady => {
            let mut p = with_log_text(UiPatch::empty(), "backend winapi ready");
            p.backend = some("winapi");
            p
        },
        CommandOutcome::BackendStopped => {
            let mut p = with_log_text(UiPatch::empty(), "backend stopped");
            p.backend = some("none");
            p
        },
        CommandOutcome::Launched(p, path) => {
            let mut p = p;
            p.log = Some(prefixed("launch ", path.as_str()));
            p
        },
        CommandOutcome::Attached(p, pid) => {
            let mut p = p;
            let n = crate::num::dec_u64(pid);
            p.log = Some(prefixed("attach ", n.as_str()));
            p.pid = Some(n);
            p
        },
        CommandOutcome::Refreshed(p) => p,
        CommandOutcome::Went(p) => with_log_text(p, "go"),
        CommandOutcome::Stepped(p) => with_log_text(p, "step"),
        CommandOutcome::Paused(p) => with_log_text(p, "pause"),
        CommandOutcome::Disassembled(c) => {
            let mut p = with_log_text(UiPatch::empty(), "disasm refreshed");
            p.pc = Some(c.pc);
            p.disasm_addr = Some(c.addr);
            p.disasm_bytes = Some(c.bytes);
            p.disasm_mnemonic = Some(c.mnemonic);
            p.disasm_operand = Some(c.operand);
            p.disasm_comment = Some(c.comment);
            p
        },
        CommandOutcome::Dumped(h) => {
            let mut p = with_log_text(UiPatch::empty(), "memory refreshed");
            p.hex = Some(h);
            p
        },
        CommandOutcome::BreakpointSet => {
            let mut p = with_log_text(UiPatch::empty(), "breakpoint set");
            p.breakpoints = some("Address             Type   Hits\n<set at current address>");
            p
        },
        CommandOutcome::Unknown(cmd) => with_log_text(UiPatch::empty(), prefixed("unknown command: ", cmd.as_str()).as_str()),
    }
}

/// The patch a console line ends in: a command that ran logs the line and
/// what it logged (`ok` when nothing); one that failed logs the line and
/// the error, and the status says that it failed.
pub fn command_log_patch(line: &str, r: Result<UiPatch, String>) -> (p: UiPatch)
    ensures
        match r {
            Ok(q) => p@ == logged(q@, command_ok_log(line@, q@.log)),
            Err(e) => p@ == PatchView {
                log: Some(command_err_log(line@, e@)),
                status: Some("Command failed"@),
                ..no_change()
            },
        },
{
    match r {
        Ok(q) => {
            let mut q = q;
            let log = q.log.take();
            q.log = Some(command_ok_log_value(line, log));
            q
        },
        Err(e) => {
            let mut p = UiPatch::empty();
            p.log = Some(command_err_log_value(line, e.as_str()));
            p.status = some("Command failed");
            p
        },
    }
}


// ─── Replies of the core ────────────────────────────────────────────────

/// What the front end takes from a reply of the core: the `result` member
/// (JSON `null` where it is missing) when `ok` is `true`; otherwise the
/// error's `message` member, the whole `error` member where it has no
/// `message`, or nothing where the reply has no `error` member.
pub open spec fn reply_outcome_spec(obj: Json) -> Result<Json, Option<Json>> {
    let ok = match json_get(obj, "ok"@) {
        Some(v) => json_as_bool(v) == Some(true),
        None => false,
    };
    if ok {
        Ok(
            match json_get(obj, "result"@) {
                Some(r) => r,
                None => Json::Null,
            },
        )
    } else {
        match json_get(obj, "error"@) {
            Some(e) => Err(
                Some(
                    match json_get(e, "message"@) {
                        Some(m) => m,
                        None => e,
                    },
                ),
            ),
            None => Err(None),
        }
    }
}

/// Splits a reply of the core into its result or the detail of its error.
pub fn reply_outcome(obj: &JsonValue) -> (r: Result<JsonValue, Option<JsonValue>>)
    ensures
        match (r, reply_outcome_spec(obj@)) {
            (Ok(v), Ok(j)) => v@ == j,
            (Err(None), Err(None)) => true,
            (Err(Some(d)), Err(Some(j))) => d@ == j,
            _ => false,
        },
{
    let ok = match obj.get("ok") {
        Some(v) => v.as_bool() == Some(true),
        None => false,
    };
    if ok {
        match obj.get("result") {
            Some(v) => Ok(v.deep_clone()),
            None => Ok(JsonValue::Null),
        }
    } else {
        match obj.get("error") {
            Some(e) => match e.get("message") {
                Some(m) => Err(Some(m.deep_clone())),
                None => Err(Some(e.deep_clone())),
            },
            None => Err(None),
        }
    }
}

/// The message of a failed call: `<method> failed: <detail>`, with
/// `unknown error` where the reply gave no detail.
pub open spec fn rpc_failure_spec(method: Seq<char>, detail: Option<Seq<char>>) -> Seq<char> {
    method + " failed: "@ + match detail {
        Some(d) => d,
        None => "unknown error"@,
    }
}

/// Words the failure of a call to the core.
pub fn rpc_failure_message(method: &str, detail: Option<&str>) -> (r: String)
    ensures
        r@ == rpc_failure_spec(method@, match detail {
            Some(d) => Some(d@),
            None => None,
        }),
{
    let mut out = string_from(method);
    append_str(&mut out, " failed: ");
    match detail {
        Some(d) => append_str(&mut out, d),
        None => append_str(&mut out, "unknown error"),
    }
    out
}

} // verus!
