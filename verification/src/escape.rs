//! Escaping of text for HTML and JavaScript string literals, and the
//! derivation of CSS class tokens from card kinds.
use vstd::prelude::*;

use crate::text::{chars_of, push_char, push_str, starts_with, string_of, trim_end_by, trim_start_by,
    lemma_trim_start_at, lemma_trim_end_at};

verus! {

/// Each character of `s` replaced by `f` of it, in order.
pub open spec fn flat_map_chars(s: Seq<char>, f: spec_fn(char) -> Seq<char>) -> Seq<char>
    decreases s.len(),
{
    if s.len() == 0 {
        seq![]
    } else {
        f(s[0]) + flat_map_chars(s.drop_first(), f)
    }
}

/// Mapping characters distributes over concatenation.
pub proof fn lemma_flat_map_append(a: Seq<char>, b: Seq<char>, f: spec_fn(char) -> Seq<char>)
    ensures
        flat_map_chars(a + b, f) == flat_map_chars(a, f) + flat_map_chars(b, f),
    decreases a.len(),
{
    if a.len() == 0 {
        assert(a + b =~= b);
        assert(seq![] + flat_map_chars(b, f) =~= flat_map_chars(b, f));
    } else {
        lemma_flat_map_append(a.drop_first(), b, f);
        assert((a + b).drop_first() =~= a.drop_first() + b);
        assert(f(a[0]) + (flat_map_chars(a.drop_first(), f) + flat_map_chars(b, f)) =~= (f(a[0])
            + flat_map_chars(a.drop_first(), f)) + flat_map_chars(b, f));
    }
}

/// Mapping one more character appends its image.
pub proof fn lemma_flat_map_push(s: Seq<char>, c: char, f: spec_fn(char) -> Seq<char>)
    ensures
        flat_map_chars(s.push(c), f) == flat_map_chars(s, f) + f(c),
{
    lemma_flat_map_append(s, seq![c], f);
    assert(s + seq![c] =~= s.push(c));
    let e = Seq::<char>::empty();
    assert(seq![c].drop_first() =~= e);
    assert(flat_map_chars(e, f) == e);
    assert(flat_map_chars(seq![c], f) == f(seq![c][0]) + flat_map_chars(seq![c].drop_first(), f));
    assert(flat_map_chars(seq![c], f) =~= f(c));
}

/// Every character of the image satisfies `q` when every image of a single
/// character does.
pub proof fn lemma_flat_map_all(s: Seq<char>, f: spec_fn(char) -> Seq<char>, q: spec_fn(char) -> bool)
    requires
        forall|i: int, k: int|
            0 <= i < s.len() && 0 <= k < f(s[i]).len() ==> q(#[trigger] f(s[i])[k]),
    ensures
        forall|k: int| 0 <= k < flat_map_chars(s, f).len() ==> q(#[trigger] flat_map_chars(s, f)[k]),
    decreases s.len(),
{
    if s.len() > 0 {
        let t = s.drop_first();
        assert forall|i: int, k: int| 0 <= i < t.len() && 0 <= k < f(t[i]).len() implies q(
            #[trigger] f(t[i])[k],
        ) by {
            assert(t[i] == s[i + 1]);
        }
        lemma_flat_map_all(t, f, q);
        let head = f(s[0]);
        let whole = flat_map_chars(s, f);
        assert forall|k: int| 0 <= k < whole.len() implies q(#[trigger] whole[k]) by {
            if k < head.len() {
                assert(whole[k] == head[k]);
            } else {
                assert(whole[k] == flat_map_chars(t, f)[k - head.len()]);
            }
        }
    }
}

// ---------------------------------------------------------------------------
// HTML
// ---------------------------------------------------------------------------

/// The HTML text for one character: `& < > " '` become entities.
pub open spec fn html_entity(c: char) -> Seq<char> {
    if c == '&' {
        seq!['&', 'a', 'm', 'p', ';']
    } else if c == '<' {
        seq!['&', 'l', 't', ';']
    } else if c == '>' {
        seq!['&', 'g', 't', ';']
    } else if c == '"' {
        seq!['&', 'q', 'u', 'o', 't', ';']
    } else if c == '\'' {
        seq!['&', '#', '3', '9', ';']
    } else {
        seq![c]
    }
}

/// `s` escaped for HTML text and attribute values.
pub open spec fn escape_spec(s: Seq<char>) -> Seq<char> {
    flat_map_chars(s, |c: char| html_entity(c))
}

/// Escapes `& < > " '` for HTML.
pub fn escape(input: &str) -> (res: String)
    ensures
        res@ == escape_spec(input@),
{
    let cs = chars_of(input);
    let mut out = String::new();
    for i in 0..cs.len()
        invariant
            cs@ == input@,
            out@ == escape_spec(cs@.take(i as int)),
    {
        let c = cs[i];
        let ghost before = out@;
        if c == '&' {
            push_str(&mut out, "&amp;");
        } else if c == '<' {
            push_str(&mut out, "&lt;");
        } else if c == '>' {
            push_str(&mut out, "&gt;");
        } else if c == '"' {
            push_str(&mut out, "&quot;");
        } else if c == '\'' {
            push_str(&mut out, "&#39;");
        } else {
            push_char(&mut out, c);
        }
        proof {
            reveal_strlit("&amp;");
            reveal_strlit("&lt;");
            reveal_strlit("&gt;");
            reveal_strlit("&quot;");
            reveal_strlit("&#39;");
            assert(out@ =~= before + html_entity(c));
            lemma_flat_map_push(cs@.take(i as int), c, |c: char| html_entity(c));
            assert(cs@.take(i + 1) =~= cs@.take(i as int).push(c));
        }
    }
    proof {
        assert(cs@.take(cs@.len() as int) =~= cs@);
    }
    out
}

/// Reads HTML text produced by [`escape_spec`] back into the original text.
pub open spec fn html_unescape(t: Seq<char>) -> Seq<char>
    decreases t.len(),
{
    if t.len() == 0 {
        seq![]
    } else if t[0] == '&' && t.len() >= 2 && t[1] == 'a' && t.len() >= 5 {
        seq!['&'] + html_unescape(t.skip(5))
    } else if t[0] == '&' && t.len() >= 2 && t[1] == 'l' && t.len() >= 4 {
        seq!['<'] + html_unescape(t.skip(4))
    } else if t[0] == '&' && t.len() >= 2 && t[1] == 'g' && t.len() >= 4 {
        seq!['>'] + html_unescape(t.skip(4))
    } else if t[0] == '&' && t.len() >= 2 && t[1] == 'q' && t.len() >= 6 {
        seq!['"'] + html_unescape(t.skip(6))
    } else if t[0] == '&' && t.len() >= 2 && t[1] == '#' && t.len() >= 5 {
        seq!['\''] + html_unescape(t.skip(5))
    } else {
        seq![t[0]] + html_unescape(t.drop_first())
    }
}

/// Unescaping gives back what was escaped.
pub proof fn lemma_html_unescape_escape(s: Seq<char>)
    ensures
        html_unescape(escape_spec(s)) == s,
    decreases s.len(),
{
    if s.len() > 0 {
        let c = s[0];
        let e = html_entity(c);
        let rest = escape_spec(s.drop_first());
        let t = escape_spec(s);
        assert(t == e + rest);
        lemma_html_unescape_escape(s.drop_first());
        assert(t.skip(e.len() as int) =~= rest);
        if c == '&' || c == '<' || c == '>' || c == '"' || c == '\'' {
            assert(t[0] == e[0]);
            assert(t[1] == e[1]);
        } else {
            assert(t[0] == c);
            assert(t.drop_first() =~= rest);
        }
        assert(s =~= seq![c] + s.drop_first());
    }
}

/// HTML escaping never merges two different texts: different inputs give
/// different outputs.
pub proof fn lemma_escape_injective(a: Seq<char>, b: Seq<char>)
    requires
        escape_spec(a) == escape_spec(b),
    ensures
        a == b,
{
    lemma_html_unescape_escape(a);
    lemma_html_unescape_escape(b);
}

/// Escaped text holds none of `< > " '`, so it can neither open a tag nor
/// close an attribute value.
pub proof fn lemma_escape_no_markup(s: Seq<char>)
    ensures
        forall|k: int|
            0 <= k < escape_spec(s).len() ==> {
                let c = #[trigger] escape_spec(s)[k];
                c != '<' && c != '>' && c != '"' && c != '\''
            },
{
    let f = |c: char| html_entity(c);
    let q = |c: char| c != '<' && c != '>' && c != '"' && c != '\'';
    assert forall|i: int, k: int| 0 <= i < s.len() && 0 <= k < f(s[i]).len() implies q(
        #[trigger] f(s[i])[k],
    ) by {}
    lemma_flat_map_all(s, f, q);
}

/// The characters that HTML escaping replaces.
pub open spec fn is_html_special(c: char) -> bool {
    c == '&' || c == '<' || c == '>' || c == '"' || c == '\''
}

/// Whether `t` begins with one of the five entities escaping writes.
pub open spec fn starts_with_entity(t: Seq<char>) -> bool {
    ||| starts_with(t, html_entity('&'))
    ||| starts_with(t, html_entity('<'))
    ||| starts_with(t, html_entity('>'))
    ||| starts_with(t, html_entity('"'))
    ||| starts_with(t, html_entity('\''))
}

/// Every `&` in escaped text begins one of the entities `&amp;`, `&lt;`,
/// `&gt;`, `&quot;` or `&#39;`: no raw ampersand is left.
pub proof fn lemma_escape_ampersands_start_entities(s: Seq<char>)
    ensures
        forall|k: int|
            0 <= k < escape_spec(s).len() && #[trigger] escape_spec(s)[k] == '&' ==> starts_with_entity(
                escape_spec(s).skip(k),
            ),
    decreases s.len(),
{
    if s.len() > 0 {
        lemma_escape_ampersands_start_entities(s.drop_first());
        let c = s[0];
        let e = html_entity(c);
        let r = escape_spec(s.drop_first());
        let t = escape_spec(s);
        assert(t == e + r);
        assert forall|k: int| 0 <= k < t.len() && #[trigger] t[k] == '&' implies starts_with_entity(
            t.skip(k),
        ) by {
            if k < e.len() {
                assert(t[k] == e[k]);
                if is_html_special(c) {
                    assert(k == 0);
                    assert(t.skip(0).take(e.len() as int) =~= e);
                } else {
                    assert(e[k] == c);
                }
            } else {
                assert(t[k] == r[k - e.len()]);
                assert(t.skip(k) =~= r.skip(k - e.len()));
            }
        }
    }
}

/// Mapping every character to itself leaves the text as it is.
pub proof fn lemma_flat_map_identity(s: Seq<char>, f: spec_fn(char) -> Seq<char>)
    requires
        forall|k: int| 0 <= k < s.len() ==> f(#[trigger] s[k]) == seq![s[k]],
    ensures
        flat_map_chars(s, f) == s,
    decreases s.len(),
{
    if s.len() > 0 {
        let t = s.drop_first();
        assert forall|k: int| 0 <= k < t.len() implies f(#[trigger] t[k]) == seq![t[k]] by {
            assert(t[k] == s[k + 1]);
        }
        lemma_flat_map_identity(t, f);
        assert(f(s[0]) == seq![s[0]]);
        assert(seq![s[0]] + t =~= s);
    }
}

proof fn lemma_escape_len(s: Seq<char>)
    ensures
        escape_spec(s).len() >= s.len(),
        (exists|k: int| 0 <= k < s.len() && is_html_special(#[trigger] s[k])) ==> escape_spec(
            s,
        ).len() > s.len(),
    decreases s.len(),
{
    if s.len() > 0 {
        let t = s.drop_first();
        lemma_escape_len(t);
        assert(escape_spec(s) == html_entity(s[0]) + escape_spec(t));
        if exists|k: int| 0 <= k < s.len() && is_html_special(#[trigger] s[k]) {
            let k = choose|k: int| 0 <= k < s.len() && is_html_special(#[trigger] s[k]);
            if k > 0 {
                assert(is_html_special(t[k - 1]));
            }
        }
    }
}

/// Escaping leaves a text as it is exactly when the text holds none of
/// `& < > " '`.
pub proof fn lemma_escape_unchanged_iff(s: Seq<char>)
    ensures
        (escape_spec(s) == s) <==> (forall|k: int| 0 <= k < s.len() ==> !is_html_special(#[trigger] s[k])),
{
    if forall|k: int| 0 <= k < s.len() ==> !is_html_special(#[trigger] s[k]) {
        assert forall|k: int| 0 <= k < s.len() implies (|c: char| html_entity(c))(#[trigger] s[k])
            == seq![s[k]] by {
            assert(!is_html_special(s[k]));
        }
        lemma_flat_map_identity(s, |c: char| html_entity(c));
    } else {
        lemma_escape_len(s);
    }
}

// ---------------------------------------------------------------------------
// JavaScript string literals
// ---------------------------------------------------------------------------

/// The text inside a double-quoted JavaScript string for one character.
pub open spec fn js_escape_char(c: char) -> Seq<char> {
    if c == '\\' {
        seq!['\\', '\\']
    } else if c == '"' {
        seq!['\\', '"']
    } else if c == '\n' {
        seq!['\\', 'n']
    } else if c == '\r' {
        seq!['\\', 'r']
    } else {
        seq![c]
    }
}

/// `s` escaped for a double-quoted JavaScript string literal.
pub open spec fn escape_js_spec(s: Seq<char>) -> Seq<char> {
    flat_map_chars(s, |c: char| js_escape_char(c))
}

/// Escapes backslash, double quote, line feed and carriage return for a
/// double-quoted JavaScript string.
pub fn escape_js(input: &str) -> (res: String)
    ensures
        res@ == escape_js_spec(input@),
{
    let cs = chars_of(input);
    let mut out = String::new();
    for i in 0..cs.len()
        invariant
            cs@ == input@,
            out@ == escape_js_spec(cs@.take(i as int)),
    {
        let c = cs[i];
        let ghost before = out@;
        if c == '\\' {
            push_char(&mut out, '\\');
            push_char(&mut out, '\\');
        } else if c == '"' {
            push_char(&mut out, '\\');
            push_char(&mut out, '"');
        } else if c == '\n' {
            push_char(&mut out, '\\');
            push_char(&mut out, 'n');
        } else if c == '\r' {
            push_char(&mut out, '\\');
            push_char(&mut out, 'r');
        } else {
            push_char(&mut out, c);
        }
        proof {
            assert(out@ =~= before + js_escape_char(c));
            lemma_flat_map_push(cs@.take(i as int), c, |c: char| js_escape_char(c));
            assert(cs@.take(i + 1) =~= cs@.take(i as int).push(c));
        }
    }
    proof {
        assert(cs@.take(cs@.len() as int) =~= cs@);
    }
    out
}

/// Reads text produced by [`escape_js_spec`] back into the original text.
pub open spec fn js_unescape(t: Seq<char>) -> Seq<char>
    decreases t.len(),
{
    if t.len() == 0 {
        seq![]
    } else if t[0] == '\\' && t.len() >= 2 {
        let c = if t[1] == 'n' {
            '\n'
        } else if t[1] == 'r' {
            '\r'
        } else {
            t[1]
        };
        seq![c] + js_unescape(t.skip(2))
    } else {
        seq![t[0]] + js_unescape(t.drop_first())
    }
}

/// Unescaping gives back what was escaped.
pub proof fn lemma_js_unescape_escape(s: Seq<char>)
    ensures
        js_unescape(escape_js_spec(s)) == s,
    decreases s.len(),
{
    if s.len() > 0 {
        let c = s[0];
        let e = js_escape_char(c);
        let rest = escape_js_spec(s.drop_first());
        let t = escape_js_spec(s);
        assert(t == e + rest);
        lemma_js_unescape_escape(s.drop_first());
        assert(t.skip(e.len() as int) =~= rest);
        if c == '\\' || c == '"' || c == '\n' || c == '\r' {
            assert(t[0] == e[0]);
            assert(t[1] == e[1]);
        } else {
            assert(t[0] == c);
            assert(t.drop_first() =~= rest);
        }
        assert(s =~= seq![c] + s.drop_first());
    }
}

/// JavaScript escaping never merges two different texts.
pub proof fn lemma_escape_js_injective(a: Seq<char>, b: Seq<char>)
    requires
        escape_js_spec(a) == escape_js_spec(b),
    ensures
        a == b,
{
    lemma_js_unescape_escape(a);
    lemma_js_unescape_escape(b);
}

/// Escaped JavaScript text holds no raw line break, so it stays on the line
/// of its string literal.
pub proof fn lemma_escape_js_single_line(s: Seq<char>)
    ensures
        forall|k: int|
            0 <= k < escape_js_spec(s).len() ==> {
                let c = #[trigger] escape_js_spec(s)[k];
                c != '\n' && c != '\r'
            },
{
    let f = |c: char| js_escape_char(c);
    let q = |c: char| c != '\n' && c != '\r';
    assert forall|i: int, k: int| 0 <= i < s.len() && 0 <= k < f(s[i]).len() implies q(
        #[trigger] f(s[i])[k],
    ) by {}
    lemma_flat_map_all(s, f, q);
}

// ---------------------------------------------------------------------------
// CSS class tokens
// ---------------------------------------------------------------------------

pub open spec fn is_ascii_alphanumeric(c: char) -> bool {
    ('a' <= c && c <= 'z') || ('A' <= c && c <= 'Z') || ('0' <= c && c <= '9')
}

/// An ASCII letter or digit, lowered; anything else becomes `-`.
pub open spec fn class_char(c: char) -> char {
    if 'A' <= c && c <= 'Z' {
        ((c as u32) + 32) as char
    } else if is_ascii_alphanumeric(c) {
        c
    } else {
        '-'
    }
}

pub open spec fn is_dash(c: char) -> bool {
    c == '-'
}

/// The class token for `s`: its characters mapped by [`class_char`], with
/// dashes trimmed from both ends; `surface` when nothing is left.
pub open spec fn class_token_spec(s: Seq<char>) -> Seq<char> {
    let t = trim_end_by(
        trim_start_by(s.map_values(|c: char| class_char(c)), |c: char| is_dash(c)),
        |c: char| is_dash(c),
    );
    if t.len() == 0 {
        seq!['s', 'u', 'r', 'f', 'a', 'c', 'e']
    } else {
        t
    }
}

fn class_char_exec(c: char) -> (res: char)
    ensures
        res == class_char(c),
{
    if 'A' <= c && c <= 'Z' {
        let u: u32 = (c as u32) + 32;
        assert(u == (c as u32) + 32);
        let b: u8 = u as u8;
        b as char
    } else if ('a' <= c && c <= 'z') || ('0' <= c && c <= '9') {
        c
    } else {
        '-'
    }
}

/// A CSS class token derived from a card kind: lower-case ASCII letters and
/// digits, other characters as `-`, no dash at either end.
pub fn class_token(input: &str) -> (res: String)
    ensures
        res@ == class_token_spec(input@),
{
    let cs = chars_of(input);
    let mut mapped: Vec<char> = Vec::new();
    for i in 0..cs.len()
        invariant
            cs@ == input@,
            mapped@ == cs@.take(i as int).map_values(|c: char| class_char(c)),
    {
        let m = class_char_exec(cs[i]);
        mapped.push(m);
        proof {
            assert(cs@.take(i + 1).map_values(|c: char| class_char(c)) =~= cs@.take(
                i as int,
            ).map_values(|c: char| class_char(c)).push(m));
        }
    }
    proof {
        assert(cs@.take(cs@.len() as int) =~= cs@);
    }
    let n = mapped.len();
    let mut i: usize = 0;
    while i < n && mapped[i] == '-'
        invariant
            n == mapped@.len(),
            i <= n,
            forall|k: int| 0 <= k < i ==> is_dash(#[trigger] mapped@[k]),
        decreases n - i,
    {
        i = i + 1;
    }
    let mut j: usize = n;
    while j > i && mapped[j - 1] == '-'
        invariant
            n == mapped@.len(),
            i <= j <= n,
            forall|k: int| j <= k < n ==> is_dash(#[trigger] mapped@[k]),
        decreases j - i,
    {
        j = j - 1;
    }
    proof {
        let dash = |c: char| is_dash(c);
        lemma_trim_start_at(mapped@, dash, i as int);
        let t = mapped@.skip(i as int);
        assert forall|k: int| j - i <= k < t.len() implies dash(#[trigger] t[k]) by {
            assert(t[k] == mapped@[k + i]);
        }
        if j > i {
            assert(t[j - i - 1] == mapped@[j - 1]);
        }
        lemma_trim_end_at(t, dash, j - i);
        assert(t.take(j - i) =~= mapped@.subrange(i as int, j as int));
    }
    if i == j {
        proof {
            reveal_strlit("surface");
        }
        let s = String::from_str("surface");
        s
    } else {
        string_of(&mapped, i, j)
    }
}

/// A class token is never empty, holds only lower-case ASCII letters, digits
/// and dashes, and neither begins nor ends with a dash.
pub proof fn lemma_class_token_shape(s: Seq<char>)
    ensures
        class_token_spec(s).len() > 0,
        forall|k: int|
            0 <= k < class_token_spec(s).len() ==> {
                let c = #[trigger] class_token_spec(s)[k];
                ('a' <= c && c <= 'z') || ('0' <= c && c <= '9') || c == '-'
            },
        class_token_spec(s)[0] != '-',
        class_token_spec(s).last() != '-',
{
    let dash = |c: char| is_dash(c);
    let m = s.map_values(|c: char| class_char(c));
    assert forall|k: int| 0 <= k < m.len() implies {
        let c = #[trigger] m[k];
        ('a' <= c && c <= 'z') || ('0' <= c && c <= '9') || c == '-'
    } by {
        let c = s[k];
        if 'A' <= c && c <= 'Z' {
            assert(((c as u32) + 32) as char == class_char(c));
        }
    }
    // first index that is not a dash
    let i = lemma_first_non(m, dash);
    let a = m.skip(i);
    lemma_trim_start_at(m, dash, i);
    let j = lemma_last_non(a, dash);
    lemma_trim_end_at(a, dash, j);
    let t = a.take(j);
    assert forall|k: int| 0 <= k < t.len() implies {
        let c = #[trigger] t[k];
        ('a' <= c && c <= 'z') || ('0' <= c && c <= '9') || c == '-'
    } by {
        assert(t[k] == m[k + i]);
    }
    if t.len() > 0 {
        assert(t[0] == a[0]);
        assert(t.last() == a[j - 1]);
    }
}

/// Index of the first element not satisfying `p` (or the length).
proof fn lemma_first_non(s: Seq<char>, p: spec_fn(char) -> bool) -> (i: int)
    ensures
        0 <= i <= s.len(),
        forall|k: int| 0 <= k < i ==> p(#[trigger] s[k]),
        i < s.len() ==> !p(s[i]),
    decreases s.len(),
{
    if s.len() == 0 || !p(s[0]) {
        0
    } else {
        let r = lemma_first_non(s.drop_first(), p);
        assert forall|k: int| 0 <= k < r + 1 implies p(#[trigger] s[k]) by {
            if k > 0 {
                assert(s[k] == s.drop_first()[k - 1]);
            }
        }
        r + 1
    }
}

/// Index just after the last element not satisfying `p` (or zero).
proof fn lemma_last_non(s: Seq<char>, p: spec_fn(char) -> bool) -> (j: int)
    ensures
        0 <= j <= s.len(),
        forall|k: int| j <= k < s.len() ==> p(#[trigger] s[k]),
        j > 0 ==> !p(s[j - 1]),
    decreases s.len(),
{
    if s.len() == 0 || !p(s.last()) {
        s.len() as int
    } else {
        let r = lemma_last_non(s.drop_last(), p);
        assert forall|k: int| r <= k < s.len() implies p(#[trigger] s[k]) by {
            if k < s.len() - 1 {
                assert(s[k] == s.drop_last()[k]);
            }
        }
        r
    }
}

} // verus!
