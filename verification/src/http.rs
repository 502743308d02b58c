//! The live surface server's HTTP: reading a request's first line and
//! headers, choosing a route, and writing the response head.
use vstd::prelude::*;

use crate::fields::is_blank;
use crate::text::{chars_of, chars_start_with, char_is_whitespace, dec, digit_char, digits_value,
    is_digit, unsigned_digits, is_whitespace,
    lemma_trim_start_at, parse_usize, parse_usize_spec, push_dec, push_str, starts_with,
    str_eq, string_of, trim, trim_end, trim_end_spec, trim_spec, trim_start_by};

verus! {

// ---------------------------------------------------------------------------
// Responses
// ---------------------------------------------------------------------------

/// A response of the live surface server.
pub struct HttpResponse {
    pub status: u16,
    pub content_type: &'static str,
    pub body: Vec<u8>,
}

pub open spec fn utf8(s: Seq<char>) -> Seq<u8> {
    vstd::utf8::encode_utf8(s)
}

impl HttpResponse {
    /// `200 OK` with an HTML page.
    pub fn html(body: String) -> (res: HttpResponse)
        ensures
            res.status == 200,
            res.content_type@ == "text/html; charset=utf-8"@,
            res.body@ == utf8(body@),
    {
        HttpResponse {
            status: 200,
            content_type: "text/html; charset=utf-8",
            body: body.as_str().as_bytes_vec(),
        }
    }

    /// `200 OK` with a JSON document.
    pub fn json(body: Vec<u8>) -> (res: HttpResponse)
        ensures
            res.status == 200,
            res.content_type@ == "application/json; charset=utf-8"@,
            res.body == body,
    {
        HttpResponse { status: 200, content_type: "application/json; charset=utf-8", body }
    }

    /// A plain-text response with the given status.
    pub fn text(status: u16, body: String) -> (res: HttpResponse)
        ensures
            res.status == status,
            res.content_type@ == "text/plain; charset=utf-8"@,
            res.body@ == utf8(body@),
    {
        HttpResponse {
            status,
            content_type: "text/plain; charset=utf-8",
            body: body.as_str().as_bytes_vec(),
        }
    }

    /// The status line and headers, up to and including the blank line
    /// before the body.
    pub fn head(&self) -> (res: String)
        ensures
            res@ == response_head(self.status, self.content_type@, self.body@.len()),
    {
        let mut out = String::new();
        push_str(&mut out, "HTTP/1.1 ");
        push_dec(&mut out, self.status as u128);
        push_str(&mut out, " ");
        push_str(&mut out, status_reason(self.status));
        push_str(&mut out, "\r\nContent-Type: ");
        push_str(&mut out, self.content_type);
        push_str(&mut out, "\r\nContent-Length: ");
        push_dec(&mut out, self.body.len() as u128);
        push_str(&mut out, "\r\nAccess-Control-Allow-Origin: *\r\nConnection: close\r\n\r\n");
        out
    }
}

/// The reason phrase written for a status.
pub open spec fn reason_spec(status: u16) -> Seq<char> {
    if status == 400 {
        "Bad Request"@
    } else if status == 404 {
        "Not Found"@
    } else if status == 500 {
        "Internal Server Error"@
    } else {
        "OK"@
    }
}

/// The reason phrase written for a status; `OK` for any status it does not
/// name.
pub fn status_reason(status: u16) -> (res: &'static str)
    ensures
        res@ == reason_spec(status),
{
    if status == 400 {
        "Bad Request"
    } else if status == 404 {
        "Not Found"
    } else if status == 500 {
        "Internal Server Error"
    } else {
        "OK"
    }
}

/// The head of a response.
pub open spec fn response_head(status: u16, content_type: Seq<char>, body_len: nat) -> Seq<char> {
    "HTTP/1.1 "@ + dec(status as nat) + " "@ + reason_spec(status) + "\r\nContent-Type: "@
        + content_type + "\r\nContent-Length: "@ + dec(body_len)
        + "\r\nAccess-Control-Allow-Origin: *\r\nConnection: close\r\n\r\n"@
}

// ---------------------------------------------------------------------------
// Request line
// ---------------------------------------------------------------------------

/// The characters of `s` up to its first whitespace.
pub open spec fn leading_word(s: Seq<char>) -> Seq<char>
    decreases s.len(),
{
    if s.len() == 0 || is_whitespace(s[0]) {
        seq![]
    } else {
        seq![s[0]] + leading_word(s.drop_first())
    }
}

/// The first whitespace-separated word of `s` and what follows it.
pub open spec fn next_word(s: Seq<char>) -> Option<(Seq<char>, Seq<char>)> {
    let t = trim_start_by(s, |c: char| is_whitespace(c));
    if t.len() == 0 {
        None
    } else {
        let w = leading_word(t);
        Some((w, t.skip(w.len() as int)))
    }
}

/// The method and path of a request line: its first two words, with `` and
/// `/` for those that are missing.
pub open spec fn request_target(line: Seq<char>) -> (Seq<char>, Seq<char>) {
    match next_word(line) {
        None => (seq![], seq!['/']),
        Some((m, rest)) => (
            m,
            match next_word(rest) {
                None => seq!['/'],
                Some((p, _)) => p,
            },
        ),
    }
}

proof fn lemma_leading_word_at(s: Seq<char>, j: int)
    requires
        0 <= j <= s.len(),
        forall|k: int| 0 <= k < j ==> !is_whitespace(#[trigger] s[k]),
        j < s.len() ==> is_whitespace(s[j]),
    ensures
        leading_word(s) == s.take(j),
    decreases j,
{
    if j == 0 {
        assert(s.take(0) =~= Seq::<char>::empty());
    } else {
        let t = s.drop_first();
        assert forall|k: int| 0 <= k < j - 1 implies !is_whitespace(#[trigger] t[k]) by {
            assert(t[k] == s[k + 1]);
        }
        lemma_leading_word_at(t, j - 1);
        assert(seq![s[0]] + t.take(j - 1) =~= s.take(j));
    }
}

/// Finds the next word of `cs[from..]`: `None` when only whitespace is left,
/// else its bounds.
fn find_word(cs: &Vec<char>, from: usize) -> (res: Option<(usize, usize)>)
    requires
        from <= cs@.len(),
    ensures
        match res {
            None => next_word(cs@.skip(from as int)) is None,
            Some((a, b)) => from <= a < b <= cs@.len() && next_word(cs@.skip(from as int))
                == Some((cs@.subrange(a as int, b as int), cs@.skip(b as int))),
        },
{
    let n = cs.len();
    let mut a = from;
    while a < n && char_is_whitespace(cs[a])
        invariant
            n == cs@.len(),
            from <= a <= n,
            forall|k: int| from <= k < a ==> is_whitespace(#[trigger] cs@[k]),
        decreases n - a,
    {
        a = a + 1;
    }
    let ghost ws = |c: char| is_whitespace(c);
    let ghost s = cs@.skip(from as int);
    proof {
        assert forall|k: int| 0 <= k < a - from implies ws(#[trigger] s[k]) by {
            assert(s[k] == cs@[k + from]);
        }
        if a < n {
            assert(s[a - from] == cs@[a as int]);
        }
        lemma_trim_start_at(s, ws, a - from);
        assert(s.skip(a - from) =~= cs@.skip(a as int));
    }
    if a == n {
        return None;
    }
    let mut b = a;
    while b < n && !char_is_whitespace(cs[b])
        invariant
            n == cs@.len(),
            a <= b <= n,
            forall|k: int| a <= k < b ==> !is_whitespace(#[trigger] cs@[k]),
        decreases n - b,
    {
        b = b + 1;
    }
    proof {
        let t = cs@.skip(a as int);
        assert forall|k: int| 0 <= k < b - a implies !is_whitespace(#[trigger] t[k]) by {
            assert(t[k] == cs@[k + a]);
        }
        if b < n {
            assert(t[b - a] == cs@[b as int]);
        }
        lemma_leading_word_at(t, b - a);
        assert(t.take(b - a) =~= cs@.subrange(a as int, b as int));
        assert(t.skip(b - a) =~= cs@.skip(b as int));
    }
    Some((a, b))
}

/// The method and path of a request line, or `None` for a line that holds
/// nothing but whitespace (a connection that sent no request).
pub fn parse_request_line(line: &str) -> (res: Option<(String, String)>)
    ensures
        res is None <==> is_blank(line@),
        res matches Some((m, p)) ==> (m@, p@) == request_target(line@),
{
    let cs = chars_of(line);
    assert(cs@.skip(0) =~= cs@);
    let first = find_word(&cs, 0);
    proof {
        // a line is blank exactly when it has no word
        let ws = |c: char| is_whitespace(c);
        let t = trim_start_by(cs@, ws);
        lemma_trim_start_first(cs@);
        if t.len() == 0 {
            assert(crate::text::trim_end_by(t, ws) == t);
        } else {
            lemma_trim_end_nonempty(t);
        }
    }
    match first {
        None => None,
        Some((a, b)) => {
            let method = string_of(&cs, a, b);
            let path = match find_word(&cs, b) {
                None => {
                    let mut p = String::new();
                    crate::text::push_char(&mut p, '/');
                    p
                },
                Some((c, d)) => string_of(&cs, c, d),
            };
            Some((method, path))
        },
    }
}

/// What trimming leading whitespace leaves does not begin with whitespace.
proof fn lemma_trim_start_first(s: Seq<char>)
    ensures
        trim_start_by(s, |c: char| is_whitespace(c)).len() > 0 ==> !is_whitespace(
            trim_start_by(s, |c: char| is_whitespace(c))[0],
        ),
    decreases s.len(),
{
    if s.len() > 0 && is_whitespace(s[0]) {
        lemma_trim_start_first(s.drop_first());
    }
}

/// Trimming the end of a sequence that begins with a non-whitespace
/// character leaves it non-empty.
proof fn lemma_trim_end_nonempty(t: Seq<char>)
    requires
        t.len() > 0,
        !is_whitespace(t[0]),
    ensures
        crate::text::trim_end_by(t, |c: char| is_whitespace(c)).len() > 0,
    decreases t.len(),
{
    if t.len() > 1 && is_whitespace(t.last()) {
        assert(t.drop_last()[0] == t[0]);
        lemma_trim_end_nonempty(t.drop_last());
    }
}

// ---------------------------------------------------------------------------
// Headers
// ---------------------------------------------------------------------------

/// Whether a header line ends the headers: nothing but whitespace.
pub open spec fn is_header_end_spec(line: Seq<char>) -> bool {
    trim_end_spec(line).len() == 0
}

/// Whether a header line ends the headers.
pub fn is_header_end(line: &str) -> (res: bool)
    ensures
        res == is_header_end_spec(line@),
{
    let t = trim_end(line);
    t.as_str().is_empty()
}

/// Index of the first `:` in `s`, if any.
pub open spec fn first_colon(s: Seq<char>) -> Option<int>
    decreases s.len(),
{
    if s.len() == 0 {
        None
    } else if s[0] == ':' {
        Some(0)
    } else {
        match first_colon(s.drop_first()) {
            Some(i) => Some(i + 1),
            None => None,
        }
    }
}

/// ASCII upper-case letters lowered; other characters unchanged.
pub open spec fn ascii_lower(c: char) -> char {
    if 'A' <= c && c <= 'Z' {
        ((c as u32) + 32) as char
    } else {
        c
    }
}

/// The length a `Content-Length` header line announces (zero when its value
/// is not a number), or `None` for any other header. The name is matched
/// without regard to ASCII case.
pub open spec fn content_length_spec(line: Seq<char>) -> Option<nat> {
    let t = trim_end_spec(line);
    match first_colon(t) {
        None => None,
        Some(i) => if t.take(i).map_values(|c: char| ascii_lower(c)) == "content-length"@ {
            Some(
                match parse_usize_spec(trim_spec(t.skip(i + 1))) {
                    Some(v) => v,
                    None => 0,
                },
            )
        } else {
            None
        },
    }
}

fn lower_char(c: char) -> (res: char)
    ensures
        res == ascii_lower(c),
{
    if 'A' <= c && c <= 'Z' {
        let u: u32 = (c as u32) + 32;
        let b: u8 = u as u8;
        b as char
    } else {
        c
    }
}

/// The length a `Content-Length` header line announces, or `None` for any
/// other header.
pub fn header_content_length(line: &str) -> (res: Option<usize>)
    ensures
        match res {
            Some(v) => content_length_spec(line@) == Some(v as nat),
            None => content_length_spec(line@) is None,
        },
{
    let t = trim_end(line);
    let cs = chars_of(t.as_str());
    let n = cs.len();
    let mut i: usize = 0;
    while i < n && cs[i] != ':'
        invariant
            n == cs@.len(),
            i <= n,
            forall|k: int| 0 <= k < i ==> cs@[k] != ':',
        decreases n - i,
    {
        i = i + 1;
    }
    proof {
        lemma_first_colon_at(cs@, i as int);
    }
    if i == n {
        return None;
    }
    let name = chars_of("content-length");
    let mut same = name.len() == i;
    let mut k: usize = 0;
    while same && k < i
        invariant
            n == cs@.len(),
            i < n,
            name@ == "content-length"@,
            k <= i,
            same ==> name@.len() == i,
            same ==> forall|j: int| 0 <= j < k ==> ascii_lower(cs@[j]) == name@[j],
            !same ==> cs@.take(i as int).map_values(|c: char| ascii_lower(c)) != name@,
        decreases i - k + (if same { 1int } else { 0 }),
    {
        if lower_char(cs[k]) != name[k] {
            proof {
                assert(cs@.take(i as int).map_values(|c: char| ascii_lower(c))[k as int] != name@[k as int]);
            }
            same = false;
        } else {
            k = k + 1;
        }
    }
    proof {
        if same {
            assert(cs@.take(i as int).map_values(|c: char| ascii_lower(c)) =~= name@);
        } else if name@.len() != i {
            assert(cs@.take(i as int).map_values(|c: char| ascii_lower(c)).len() != name@.len());
        }
    }
    if !same {
        return None;
    }
    let value = string_of(&cs, i + 1, n);
    assert(value@ =~= cs@.skip(i + 1));
    let v = trim(value.as_str());
    match parse_usize(v.as_str()) {
        Some(len) => Some(len),
        None => Some(0),
    }
}

proof fn lemma_first_colon_at(s: Seq<char>, i: int)
    requires
        0 <= i <= s.len(),
        forall|k: int| 0 <= k < i ==> s[k] != ':',
        i < s.len() ==> s[i] == ':',
    ensures
        first_colon(s) == (if i < s.len() { Some(i) } else { None::<int> }),
    decreases i,
{
    if i > 0 {
        let t = s.drop_first();
        assert forall|k: int| 0 <= k < i - 1 implies t[k] != ':' by {
            assert(t[k] == s[k + 1]);
        }
        if i < s.len() {
            assert(t[i - 1] == s[i]);
        }
        lemma_first_colon_at(t, i - 1);
    }
}

// ---------------------------------------------------------------------------
// Routes
// ---------------------------------------------------------------------------

/// What the live surface server does for a request.
pub enum HttpRoute {
    /// `GET /`: the index of surfaces.
    Index,
    /// `POST /event`: record a feedback event.
    RecordEvent,
    /// `POST /promote`: promote a surface.
    Promote,
    /// `GET /surfaces/<id>`: the page of a surface.
    SurfacePage(String),
    /// `GET /api/surfaces/<id>`: the full summary of a surface.
    SurfaceApi(String),
    /// Anything else: `404`.
    NotFound,
}

/// The part of a request path before its first `?`.
pub open spec fn before_query(path: Seq<char>) -> Seq<char>
    decreases path.len(),
{
    if path.len() == 0 || path[0] == '?' {
        seq![]
    } else {
        seq![path[0]] + before_query(path.drop_first())
    }
}

/// `s` with every leading repetition of the non-empty prefix `p` removed.
pub open spec fn strip_all(s: Seq<char>, p: Seq<char>) -> Seq<char>
    decreases s.len(),
{
    if p.len() > 0 && starts_with(s, p) {
        strip_all(s.skip(p.len() as int), p)
    } else {
        s
    }
}

/// The route of a request.
pub open spec fn route_spec(method: Seq<char>, path: Seq<char>) -> (HttpRouteKind, Seq<char>) {
    let p = before_query(path);
    if method == "GET"@ && p == "/"@ {
        (HttpRouteKind::Index, seq![])
    } else if method == "POST"@ && p == "/event"@ {
        (HttpRouteKind::RecordEvent, seq![])
    } else if method == "POST"@ && p == "/promote"@ {
        (HttpRouteKind::Promote, seq![])
    } else if method == "GET"@ && starts_with(p, "/surfaces/"@) {
        (HttpRouteKind::SurfacePage, strip_all(p, "/surfaces/"@))
    } else if method == "GET"@ && starts_with(p, "/api/surfaces/"@) {
        (HttpRouteKind::SurfaceApi, strip_all(p, "/api/surfaces/"@))
    } else {
        (HttpRouteKind::NotFound, seq![])
    }
}

/// The kind of a route, without its identifier.
pub ghost enum HttpRouteKind {
    Index,
    RecordEvent,
    Promote,
    SurfacePage,
    SurfaceApi,
    NotFound,
}

/// The kind and identifier of a route.
pub open spec fn route_view(r: HttpRoute) -> (HttpRouteKind, Seq<char>) {
    match r {
        HttpRoute::Index => (HttpRouteKind::Index, seq![]),
        HttpRoute::RecordEvent => (HttpRouteKind::RecordEvent, seq![]),
        HttpRoute::Promote => (HttpRouteKind::Promote, seq![]),
        HttpRoute::SurfacePage(id) => (HttpRouteKind::SurfacePage, id@),
        HttpRoute::SurfaceApi(id) => (HttpRouteKind::SurfaceApi, id@),
        HttpRoute::NotFound => (HttpRouteKind::NotFound, seq![]),
    }
}

proof fn lemma_before_query_at(s: Seq<char>, i: int)
    requires
        0 <= i <= s.len(),
        forall|k: int| 0 <= k < i ==> s[k] != '?',
        i < s.len() ==> s[i] == '?',
    ensures
        before_query(s) == s.take(i),
    decreases i,
{
    if i == 0 {
        assert(s.take(0) =~= Seq::<char>::empty());
    } else {
        let t = s.drop_first();
        assert forall|k: int| 0 <= k < i - 1 implies t[k] != '?' by {
            assert(t[k] == s[k + 1]);
        }
        if i < s.len() {
            assert(t[i - 1] == s[i]);
        }
        lemma_before_query_at(t, i - 1);
        assert(seq![s[0]] + t.take(i - 1) =~= s.take(i));
    }
}

/// Strips every leading repetition of `prefix` from `cs[from..]`.
fn strip_prefixes(cs: &Vec<char>, prefix: &str) -> (res: String)
    requires
        prefix@.len() > 0,
    ensures
        res@ == strip_all(cs@, prefix@),
{
    let p = chars_of(prefix);
    let n = cs.len();
    let mut i: usize = 0;
    assert(cs@.skip(0) =~= cs@);
    while i <= n && chars_start_with(cs, i, &p)
        invariant
            n == cs@.len(),
            i <= n,
            p@ == prefix@,
            p@.len() > 0,
            strip_all(cs@, prefix@) == strip_all(cs@.skip(i as int), prefix@),
        decreases n - i,
    {
        proof {
            assert(cs@.skip(i as int).skip(p@.len() as int) =~= cs@.skip(i + p@.len()));
        }
        i = i + p.len();
    }
    assert(cs@.skip(i as int) =~= cs@.subrange(i as int, n as int));
    string_of(cs, i, n)
}

/// Chooses what the live surface server does for a request. The query is
/// ignored; a surface identifier is the rest of the path after `/surfaces/`
/// (or `/api/surfaces/`), with repeats of that prefix removed.
pub fn route_http(method: &str, path: &str) -> (res: HttpRoute)
    ensures
        route_view(res) == route_spec(method@, path@),
{
    let cs = chars_of(path);
    let n = cs.len();
    let mut q: usize = 0;
    while q < n && cs[q] != '?'
        invariant
            n == cs@.len(),
            q <= n,
            forall|k: int| 0 <= k < q ==> cs@[k] != '?',
        decreases n - q,
    {
        q = q + 1;
    }
    proof {
        lemma_before_query_at(cs@, q as int);
    }
    let base = string_of(&cs, 0, q);
    let p = chars_of(base.as_str());
    assert(p@ =~= before_query(path@));
    let is_get = str_eq(method, "GET");
    let is_post = str_eq(method, "POST");
    assert(p@.skip(0) =~= p@);
    if is_get && str_eq(base.as_str(), "/") {
        return HttpRoute::Index;
    }
    if is_post && str_eq(base.as_str(), "/event") {
        return HttpRoute::RecordEvent;
    }
    if is_post && str_eq(base.as_str(), "/promote") {
        return HttpRoute::Promote;
    }
    let page_prefix = chars_of("/surfaces/");
    if is_get && chars_start_with(&p, 0, &page_prefix) {
        proof {
            reveal_strlit("/surfaces/");
        }
        return HttpRoute::SurfacePage(strip_prefixes(&p, "/surfaces/"));
    }
    let api_prefix = chars_of("/api/surfaces/");
    if is_get && chars_start_with(&p, 0, &api_prefix) {
        proof {
            reveal_strlit("/api/surfaces/");
        }
        return HttpRoute::SurfaceApi(strip_prefixes(&p, "/api/surfaces/"));
    }
    HttpRoute::NotFound
}

/// The value of a decimal representation is the number it represents.
pub proof fn lemma_dec_value(n: nat)
    ensures
        digits_value(dec(n)) == n,
        dec(n).len() > 0,
        forall|k: int| 0 <= k < dec(n).len() ==> is_digit(#[trigger] dec(n)[k]),
    decreases n,
{
    crate::ids::lemma_dec_digits(n);
    if n < 10 {
        assert((n + 48) as u8 == n + 48);
        assert(digit_char(n) as nat == n + 48);
        assert(dec(n).drop_last() =~= Seq::<char>::empty());
        assert(digits_value(dec(n)) == digits_value(dec(n).drop_last()) * 10 + ((dec(n).last() as nat)
            - 48) as nat);
    } else {
        lemma_dec_value(n / 10);
        let d = (n % 10) as nat;
        assert((d + 48) as u8 == d + 48);
        assert(dec(n).drop_last() =~= dec(n / 10));
        assert(dec(n).last() == digit_char(d));
        assert(digit_char(d) as nat == d + 48);
        assert(digits_value(dec(n)) == digits_value(dec(n).drop_last()) * 10 + ((dec(n).last() as nat)
            - 48) as nat);
        assert((n / 10) * 10 + n % 10 == n) by (nonlinear_arith);
    }
}

/// The server reads back the length it announces: the `Content-Length`
/// header line as [`HttpResponse::head`] writes it (followed by its line
/// break) is read by [`header_content_length`] as that same length.
pub proof fn lemma_content_length_round_trip(n: nat)
    requires
        n <= usize::MAX,
    ensures
        content_length_spec("Content-Length: "@ + dec(n) + "\r\n"@) == Some(n),
{
    reveal_strlit("Content-Length: ");
    reveal_strlit("\r\n");
    reveal_strlit("content-length");
    let ws = |c: char| is_whitespace(c);
    let l = "Content-Length: "@;
    let d = dec(n);
    lemma_dec_value(n);
    let line = l + d + "\r\n"@;
    let t = l + d;
    // the line break is trimmed, the last digit is kept
    assert forall|k: int| t.len() <= k < line.len() implies ws(#[trigger] line[k]) by {}
    assert(line[t.len() - 1] == d[d.len() - 1]);
    crate::text::lemma_trim_end_at(line, ws, t.len() as int);
    assert(line.take(t.len() as int) =~= t);
    assert(trim_end_spec(line) == t);
    // the name ends at the colon
    assert forall|k: int| 0 <= k < 14 implies t[k] != ':' by {
        assert(t[k] == l[k]);
    }
    assert(t[14] == ':');
    lemma_first_colon_at(t, 14);
    let name = t.take(14).map_values(|c: char| ascii_lower(c));
    assert(name =~= "content-length"@) by {
        assert forall|k: int| 0 <= k < 14 implies name[k] == "content-length"@[k] by {
            assert(t[k] == l[k]);
            assert((('C' as u32) + 32) as char == 'c');
            assert((('L' as u32) + 32) as char == 'l');
        }
    }
    // the value is the digits, once the space is trimmed
    let v = t.skip(15);
    assert(v =~= seq![' '] + d);
    assert(v[1] == d[0]);
    crate::text::lemma_trim_start_at(v, ws, 1);
    assert(v.skip(1) =~= d);
    assert(d[d.len() - 1] == d.last());
    crate::text::lemma_trim_end_at(d, ws, d.len() as int);
    assert(d.take(d.len() as int) =~= d);
    assert(trim_spec(v) == d);
    assert(unsigned_digits(d) == d);
}

} // verus!
