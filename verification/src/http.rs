//! The core daemon's command line and its small HTTP front door: reading a
//! request head line by line, deciding how to answer, and the head of the
//! answer.
use vstd::prelude::*;
use crate::num::{IntErrorKind, dec_digits, dec_u64, from_str_radix_chars, spec_from_str_radix};
use crate::text::{
    append_str, chars_of, eq_ignore_ascii_case, has_char, is_white_space, is_whitespace,
    lemma_trim_start_skip, str_eq, string_from, string_of_range, trim, trim_bounds, trim_start,
    eq_ignore_case,
};

verus! {

/// The largest request body the daemon reads.
pub const MAX_HTTP_BODY: usize = 1048576;

/// The value after the first `name` in an argument list.
pub open spec fn arg_value_spec(args: Seq<Seq<char>>, name: Seq<char>) -> Option<Seq<char>>
    decreases args.len(),
{
    if args.len() < 2 {
        None
    } else if args[0] == name {
        Some(args[1])
    } else {
        arg_value_spec(args.drop_first(), name)
    }
}

pub open spec fn args_view(args: Seq<String>) -> Seq<Seq<char>> {
    args.map_values(|a: String| a@)
}

/// The argument that follows the first occurrence of `name`, if any.
pub fn arg_value(args: &Vec<String>, name: &str) -> (r: Option<String>)
    ensures
        match arg_value_spec(args_view(args@), name@) {
            Some(v) => r matches Some(x) && x@ == v,
            None => r is None,
        },
{
    let ghost all = args_view(args@);
    let n = args.len();
    let mut i: usize = 0;
    assert(all.skip(0) =~= all);
    while i < n && i + 1 < n
        invariant
            i <= args@.len(),
            n == args@.len(),
            all == args_view(args@),
            arg_value_spec(all.skip(i as int), name@) == arg_value_spec(all, name@),
        decreases args@.len() - i,
    {
        proof {
            let t = all.skip(i as int);
            assert(t[0] == args@[i as int]@);
            assert(t[1] == args@[i + 1]@);
            assert(t.drop_first() =~= all.skip(i + 1));
        }
        if str_eq(args[i].as_str(), name) {
            return Some(args[i + 1].clone());
        }
        i = i + 1;
    }
    None
}

/// The number of characters at the start of `s` that are not white space.
pub open spec fn word_len(s: Seq<char>) -> nat
    decreases s.len(),
{
    if s.len() > 0 && !is_white_space(s[0]) {
        1 + word_len(s.drop_first())
    } else {
        0
    }
}

pub proof fn lemma_word_len_le(s: Seq<char>)
    ensures
        word_len(s) <= s.len(),
    decreases s.len(),
{
    if s.len() > 0 && !is_white_space(s[0]) {
        lemma_word_len_le(s.drop_first());
    }
}

/// The first word of `s`, empty when there is none (`split_whitespace`).
pub open spec fn first_word(s: Seq<char>) -> Seq<char> {
    let t = trim_start(s);
    t.take(word_len(t) as int)
}

/// What follows the first word of `s`.
pub open spec fn after_first_word(s: Seq<char>) -> Seq<char> {
    let t = trim_start(s);
    t.skip(word_len(t) as int)
}

/// The characters of `s` before its first `c` (all of `s` without one).
pub open spec fn before_char(s: Seq<char>, c: char) -> Seq<char>
    decreases s.len(),
{
    if s.len() == 0 || s[0] == c {
        Seq::empty()
    } else {
        seq![s[0]] + before_char(s.drop_first(), c)
    }
}

/// The method of an HTTP request line: its first word.
pub open spec fn request_method(line: Seq<char>) -> Seq<char> {
    first_word(line)
}

/// The path of an HTTP request line: its second word up to any `?`.
pub open spec fn request_path(line: Seq<char>) -> Seq<char> {
    before_char(first_word(after_first_word(line)), '?')
}

/// `s` without the carriage returns and line feeds at its end.
pub open spec fn trim_end_crlf(s: Seq<char>) -> Seq<char>
    decreases s.len(),
{
    if s.len() > 0 && (s.last() == '\r' || s.last() == '\n') {
        trim_end_crlf(s.drop_last())
    } else {
        s
    }
}

/// `str::parse::<usize>()` of a text, 0 when it does not read.
pub open spec fn parse_usize_or_zero(s: Seq<char>) -> usize {
    match spec_from_str_radix(s, 10) {
        Ok(v) => if v <= usize::MAX {
            v as usize
        } else {
            0
        },
        Err(_) => 0,
    }
}

/// What one header line does to the request head.
pub enum HeaderEffect {
    /// The blank line that ends the head.
    End,
    /// A `Content-Length` header with the length it gives.
    ContentLength(usize),
    /// Any other line.
    Other,
}

pub open spec fn header_effect(line: Seq<char>) -> HeaderEffect {
    let t = trim_end_crlf(line);
    if t.len() == 0 {
        HeaderEffect::End
    } else if has_char(t, ':') {
        let name = before_char(t, ':');
        if eq_ignore_ascii_case(name, "content-length"@) {
            HeaderEffect::ContentLength(parse_usize_or_zero(trim(t.skip(name.len() as int + 1))))
        } else {
            HeaderEffect::Other
        }
    } else {
        HeaderEffect::Other
    }
}

/// The head of an HTTP request as far as the daemon reads it.
#[derive(Debug)]
pub struct HttpHead {
    pub method: String,
    pub path: String,
    pub content_length: usize,
}

/// How the daemon answers a request head.
#[derive(Debug)]
pub enum HttpRoute {
    /// Answer at once with this status, content type and body.
    Reply { status: String, content_type: String, body: String },
    /// Read a body of this many bytes and answer it as a protocol request.
    ReadBody(usize),
}

pub enum RouteView {
    Reply(Seq<char>, Seq<char>, Seq<char>),
    ReadBody(usize),
}

impl View for HttpRoute {
    type V = RouteView;

    open spec fn view(&self) -> RouteView {
        match self {
            HttpRoute::Reply { status, content_type, body } => RouteView::Reply(
                status@,
                content_type@,
                body@,
            ),
            HttpRoute::ReadBody(n) => RouteView::ReadBody(*n),
        }
    }
}

/// `OPTIONS` gets an empty 204; anything but `POST /rpc` a 404; a body
/// over the limit a 413; else the body is read.
pub open spec fn http_route_spec(method: Seq<char>, path: Seq<char>, content_length: usize) -> RouteView {
    if method == "OPTIONS"@ {
        RouteView::Reply("204 No Content"@, "text/plain"@, ""@)
    } else if method != "POST"@ || path != "/rpc"@ {
        RouteView::Reply("404 Not Found"@, "application/json"@, "{\"error\":\"not found\"}"@)
    } else if content_length > MAX_HTTP_BODY {
        RouteView::Reply(
            "413 Payload Too Large"@,
            "application/json"@,
            "{\"error\":\"request body too large\"}"@,
        )
    } else {
        RouteView::ReadBody(content_length)
    }
}

/// The head of an HTTP answer with a body of `body_len` bytes.
pub open spec fn http_head_text(status: Seq<char>, content_type: Seq<char>, body_len: usize) -> Seq<char> {
    "HTTP/1.1 "@ + status + "\r\nContent-Type: "@ + content_type + "\r\nContent-Length: "@
        + dec_digits(body_len as nat)
        + "\r\nAccess-Control-Allow-Origin: *\r\nAccess-Control-Allow-Headers: content-type\r\nAccess-Control-Allow-Methods: POST, OPTIONS\r\nConnection: close\r\n\r\n"@
}

/// The head of an HTTP answer.
pub fn http_head(status: &str, content_type: &str, body_len: usize) -> (r: String)
    ensures
        r@ == http_head_text(status@, content_type@, body_len),
{
    let mut h = string_from("HTTP/1.1 ");
    append_str(&mut h, status);
    append_str(&mut h, "\r\nContent-Type: ");
    append_str(&mut h, content_type);
    append_str(&mut h, "\r\nContent-Length: ");
    let n = dec_u64(body_len as u64);
    append_str(&mut h, n.as_str());
    append_str(
        &mut h,
        "\r\nAccess-Control-Allow-Origin: *\r\nAccess-Control-Allow-Headers: content-type\r\nAccess-Control-Allow-Methods: POST, OPTIONS\r\nConnection: close\r\n\r\n",
    );
    h
}

proof fn lemma_word_len(s: Seq<char>, k: int)
    requires
        0 <= k <= s.len(),
        forall|j: int| 0 <= j < k ==> !is_white_space(#[trigger] s[j]),
        k == s.len() || is_white_space(s[k]),
    ensures
        word_len(s) == k,
    decreases k,
{
    if k > 0 {
        let t = s.drop_first();
        assert forall|j: int| 0 <= j < k - 1 implies !is_white_space(#[trigger] t[j]) by {
            assert(t[j] == s[j + 1]);
        }
        if k < s.len() {
            assert(t[k - 1] == s[k]);
        }
        lemma_word_len(t, k - 1);
    }
}

proof fn lemma_before_char(s: Seq<char>, c: char, k: int)
    requires
        0 <= k <= s.len(),
        forall|j: int| 0 <= j < k ==> s[j] != c,
        k == s.len() || s[k] == c,
    ensures
        before_char(s, c) == s.take(k),
    decreases k,
{
    if k > 0 {
        let t = s.drop_first();
        assert forall|j: int| 0 <= j < k - 1 implies t[j] != c by {
            assert(t[j] == s[j + 1]);
        }
        if k < s.len() {
            assert(t[k - 1] == s[k]);
        }
        lemma_before_char(t, c, k - 1);
        assert(s.take(k) =~= seq![s[0]] + t.take(k - 1));
    } else {
        assert(s.take(0) =~= Seq::<char>::empty());
    }
}

/// The first position at or after `from` that is not white space.
pub(crate) fn skip_ws(v: &Vec<char>, from: usize) -> (r: usize)
    requires
        from <= v@.len(),
    ensures
        from <= r <= v@.len(),
        trim_start(v@.skip(from as int)) == v@.skip(r as int),
        r < v@.len() ==> !is_white_space(v@[r as int]),
{
    let n = v.len();
    let mut i = from;
    while i < n && is_whitespace(v[i])
        invariant
            from <= i <= n == v@.len(),
            forall|k: int| from <= k < i ==> is_white_space(#[trigger] v@[k]),
        decreases n - i,
    {
        i = i + 1;
    }
    proof {
        let s = v@.skip(from as int);
        assert forall|k: int| 0 <= k < i - from implies is_white_space(#[trigger] s[k]) by {
            assert(s[k] == v@[k + from]);
        }
        lemma_trim_start_skip(s, i - from);
        assert(s.skip(i - from) =~= v@.skip(i as int));
        let t = v@.skip(i as int);
        if t.len() > 0 {
            assert(t[0] == v@[i as int]);
        }
        assert(trim_start(t) == t);
    }
    i
}

/// The end of the word that begins at `from`.
pub(crate) fn word_end(v: &Vec<char>, from: usize) -> (r: usize)
    requires
        from <= v@.len(),
    ensures
        from <= r <= v@.len(),
        r - from == word_len(v@.skip(from as int)),
{
    let n = v.len();
    let mut i = from;
    while i < n && !is_whitespace(v[i])
        invariant
            from <= i <= n == v@.len(),
            forall|k: int| from <= k < i ==> !is_white_space(#[trigger] v@[k]),
        decreases n - i,
    {
        i = i + 1;
    }
    proof {
        let s = v@.skip(from as int);
        assert forall|k: int| 0 <= k < i - from implies !is_white_space(#[trigger] s[k]) by {
            assert(s[k] == v@[k + from]);
        }
        if i < n {
            assert(s[i - from] == v@[i as int]);
        }
        lemma_word_len(s, i - from);
    }
    i
}

/// The first position in `v[from..to]` that holds `c`, or `to`.
pub(crate) fn char_pos_pub(v: &Vec<char>, from: usize, to: usize, c: char) -> (r: usize)
    requires
        from <= to <= v@.len(),
    ensures
        from <= r <= to,
        v@.subrange(from as int, r as int) == before_char(v@.subrange(from as int, to as int), c),
        forall|k: int| from <= k < r ==> v@[k] != c,
        r < to ==> v@[r as int] == c,
{
    char_pos(v, from, to, c)
}

pub proof fn lemma_before_char_len(s: Seq<char>, c: char)
    ensures
        before_char(s, c).len() <= s.len(),
        before_char(s, c).len() < s.len() ==> s[before_char(s, c).len() as int] == c,
        forall|k: int| 0 <= k < before_char(s, c).len() ==> before_char(s, c)[k] == s[k],
    decreases s.len(),
{
    if s.len() > 0 && s[0] != c {
        lemma_before_char_len(s.drop_first(), c);
        let r = before_char(s.drop_first(), c);
        assert(before_char(s, c) == seq![s[0]] + r);
        assert forall|k: int| 0 <= k < before_char(s, c).len() implies before_char(s, c)[k] == s[k] by {
            if k > 0 {
                assert(before_char(s, c)[k] == r[k - 1]);
                assert(r[k - 1] == s.drop_first()[k - 1]);
            }
        }
    }
}

/// The first position in `v[from..to]` that holds `c`, or `to`.
fn char_pos(v: &Vec<char>, from: usize, to: usize, c: char) -> (r: usize)
    requires
        from <= to <= v@.len(),
    ensures
        from <= r <= to,
        v@.subrange(from as int, r as int) == before_char(v@.subrange(from as int, to as int), c),
        forall|k: int| from <= k < r ==> v@[k] != c,
        r < to ==> v@[r as int] == c,
{
    let mut i = from;
    while i < to && v[i] != c
        invariant
            from <= i <= to <= v@.len(),
            forall|k: int| from <= k < i ==> v@[k] != c,
        decreases to - i,
    {
        i = i + 1;
    }
    proof {
        let s = v@.subrange(from as int, to as int);
        assert forall|k: int| 0 <= k < i - from implies s[k] != c by {
            assert(s[k] == v@[k + from]);
        }
        if i < to {
            assert(s[i - from] == v@[i as int]);
        }
        lemma_before_char(s, c, i - from);
        assert(s.take(i - from) =~= v@.subrange(from as int, i as int));
    }
    i
}

impl HttpHead {
    /// The method and path of an HTTP request line, with no content length
    /// yet.
    pub fn from_request_line(line: &str) -> (r: HttpHead)
        ensures
            r.method@ == request_method(line@),
            r.path@ == request_path(line@),
            r.content_length == 0,
    {
        let v = chars_of(line);
        let i = skip_ws(&v, 0);
        let j = word_end(&v, i);
        let k = skip_ws(&v, j);
        let l = word_end(&v, k);
        let m = char_pos(&v, k, l, '?');
        proof {
            assert(v@.skip(0) =~= v@);
            let t = v@.skip(i as int);
            assert(t.take(j - i) =~= v@.subrange(i as int, j as int));
            assert(t.skip(j - i) =~= v@.skip(j as int));
            let u = v@.skip(k as int);
            assert(u.take(l - k) =~= v@.subrange(k as int, l as int));
        }
        HttpHead {
            method: string_of_range(&v, i, j),
            path: string_of_range(&v, k, m),
            content_length: 0,
        }
    }
}



proof fn lemma_trim_end_crlf(s: Seq<char>, e: int)
    requires
        0 <= e <= s.len(),
        forall|k: int| e <= k < s.len() ==> (#[trigger] s[k] == '\r' || s[k] == '\n'),
        e == 0 || (s[e - 1] != '\r' && s[e - 1] != '\n'),
    ensures
        trim_end_crlf(s) == s.take(e),
    decreases s.len() - e,
{
    if e < s.len() {
        let t = s.drop_last();
        assert forall|k: int| e <= k < t.len() implies (#[trigger] t[k] == '\r' || t[k] == '\n') by {
            assert(t[k] == s[k]);
        }
        if e > 0 {
            assert(t[e - 1] == s[e - 1]);
        }
        lemma_trim_end_crlf(t, e);
        assert(t.take(e) =~= s.take(e));
    } else {
        assert(s.take(e) =~= s);
    }
}

/// `str::parse::<usize>()` of the characters of `v`, 0 when they do not
/// read.
fn parse_usize_chars(v: &Vec<char>) -> (r: usize)
    ensures
        r == parse_usize_or_zero(v@),
{
    proof {
        assert(v@.skip(0) =~= v@);
    }
    match from_str_radix_chars(v, 0, 10) {
        Ok(x) => if x <= usize::MAX as u64 {
            x as usize
        } else {
            0
        },
        Err(_) => 0,
    }
}

/// The characters before the first `c` of a text that has none before a `c`.
proof fn lemma_before_char_prefix(a: Seq<char>, b: Seq<char>, c: char)
    requires
        !has_char(a, c),
    ensures
        before_char(a + seq![c] + b, c) == a,
    decreases a.len(),
{
    let s = a + seq![c] + b;
    if a.len() == 0 {
        assert(s[0] == c);
    } else {
        assert(s[0] == a[0]);
        assert(a[0] != c);
        assert(!has_char(a.drop_first(), c)) by {
            if has_char(a.drop_first(), c) {
                let k = choose|k: int| 0 <= k < a.drop_first().len() && a.drop_first()[k] == c;
                assert(a[k + 1] == c);
            }
        }
        lemma_before_char_prefix(a.drop_first(), b, c);
        assert(s.drop_first() =~= a.drop_first() + seq![c] + b);
        assert(seq![a[0]] + a.drop_first() =~= a);
    }
}

/// The header line that gives a body length.
pub open spec fn content_length_line(n: usize) -> Seq<char> {
    "Content-Length: "@ + dec_digits(n as nat) + "\r\n"@
}

/// The length that `http_head` writes reads back: the `Content-Length`
/// line with a length in decimal, ended by CRLF, sets the content length
/// of a request head to that length.
pub proof fn law_content_length_reads_back(n: usize)
    ensures
        header_effect(content_length_line(n)) == HeaderEffect::ContentLength(n),
{
    let d = dec_digits(n as nat);
    crate::num::lemma_parse_dec_u64(n as u64);
    reveal_strlit("Content-Length: ");
    reveal_strlit("\r\n");
    reveal_strlit("content-length");
    let head = "Content-Length"@;
    reveal_strlit("Content-Length");
    let t0 = "Content-Length: "@ + d;
    let line = content_length_line(n);
    assert(line.drop_last() =~= t0 + seq!['\r']);
    assert((t0 + seq!['\r']).drop_last() =~= t0);
    assert(t0.last() == d.last());
    assert(t0.last() != '\r' && t0.last() != '\n') by {
        assert('0' <= d[d.len() - 1] <= '9');
    }
    assert(trim_end_crlf(line) == t0) by {
        reveal_with_fuel(trim_end_crlf, 3);
    }
    assert(t0[14] == ':');
    assert(has_char(t0, ':'));
    assert(!has_char(head, ':')) by {
        if has_char(head, ':') {
            let k = choose|k: int| 0 <= k < head.len() && head[k] == ':';
            assert(head[k] != ':');
        }
    }
    assert(t0 =~= head + seq![':'] + (seq![' '] + d));
    lemma_before_char_prefix(head, seq![' '] + d, ':');
    assert(eq_ignore_ascii_case(head, "content-length"@)) by {
        assert(crate::text::ascii_lower_seq(head) =~= crate::text::ascii_lower_seq("content-length"@));
    }
    let rest = t0.skip(15);
    assert(rest =~= seq![' '] + d);
    assert(rest.drop_first() =~= d);
    assert(is_white_space(rest[0]));
    assert(trim_start(rest) == trim_start(d));
    assert(trim(rest) == d);
    assert(crate::num::spec_from_str_radix(d, 10) == Ok::<u64, IntErrorKind>(n as u64));
    assert(parse_usize_or_zero(d) == n);
}

impl HttpHead {
    /// Takes one header line: returns whether it is the blank line that ends
    /// the head; a `Content-Length` header sets the length.
    pub fn feed_header(&mut self, line: &str) -> (done: bool)
        ensures
            final(self).method == old(self).method,
            final(self).path == old(self).path,
            match header_effect(line@) {
                HeaderEffect::End => done && final(self).content_length == old(self).content_length,
                HeaderEffect::ContentLength(n) => !done && final(self).content_length == n,
                HeaderEffect::Other => !done && final(self).content_length == old(self).content_length,
            },
    {
        let v = chars_of(line);
        let mut e = v.len();
        while e > 0 && (v[e - 1] == '\r' || v[e - 1] == '\n')
            invariant
                e <= v@.len(),
                forall|k: int| e <= k < v@.len() ==> (#[trigger] v@[k] == '\r' || v@[k] == '\n'),
            decreases e,
        {
            e = e - 1;
        }
        proof {
            lemma_trim_end_crlf(v@, e as int);
        }
        let ghost t = v@.take(e as int);
        if e == 0 {
            return true;
        }
        let colon = char_pos(&v, 0, e, ':');
        proof {
            assert(v@.subrange(0, e as int) =~= t);
            assert(v@.subrange(0, colon as int) =~= t.take(colon as int));
        }
        if colon == e {
            proof {
                assert(!has_char(t, ':')) by {
                    if has_char(t, ':') {
                        let k = choose|k: int| 0 <= k < t.len() && t[k] == ':';
                        assert(t[k] == v@[k]);
                    }
                }
            }
            return false;
        }
        proof {
            assert(t[colon as int] == ':');
            assert(has_char(t, ':'));
        }
        let name = chars_of(string_of_range(&v, 0, colon).as_str());
        let key = chars_of("content-length");
        if !crate::text::chars_eq(&crate::text::lower_ascii_chars(&name), &crate::text::lower_ascii_chars(&key)) {
            return false;
        }
        let value = chars_of(string_of_range(&v, colon + 1, e).as_str());
        proof {
            assert(value@ =~= t.skip(colon as int + 1));
        }
        let (a, b) = trim_bounds(&value);
        let trimmed = chars_of(string_of_range(&value, a, b).as_str());
        self.content_length = parse_usize_chars(&trimmed);
        false
    }

    /// How to answer the request whose head this is.
    pub fn route(&self) -> (r: HttpRoute)
        ensures
            r@ == http_route_spec(self.method@, self.path@, self.content_length),
    {
        if str_eq(self.method.as_str(), "OPTIONS") {
            HttpRoute::Reply {
                status: string_from("204 No Content"),
                content_type: string_from("text/plain"),
                body: string_from(""),
            }
        } else if !str_eq(self.method.as_str(), "POST") || !str_eq(self.path.as_str(), "/rpc") {
            HttpRoute::Reply {
                status: string_from("404 Not Found"),
                content_type: string_from("application/json"),
                body: string_from("{\"error\":\"not found\"}"),
            }
        } else if self.content_length > MAX_HTTP_BODY {
            HttpRoute::Reply {
                status: string_from("413 Payload Too Large"),
                content_type: string_from("application/json"),
                body: string_from("{\"error\":\"request body too large\"}"),
            }
        } else {
            HttpRoute::ReadBody(self.content_length)
        }
    }
}

} // verus!
