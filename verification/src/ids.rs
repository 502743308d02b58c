//! Identifiers and timestamps of surfaces, events and assets.
use vstd::prelude::*;

use crate::escape::{escape_spec, escape_js_spec, html_entity, js_escape_char, lemma_flat_map_identity};
use crate::text::{chars_of, dec, digit_char, fmt_u128, push_char, push_dec, push_str};

verus! {

/// A character allowed in an identifier: an ASCII letter or digit, `_` or `-`.
pub open spec fn is_id_char(c: char) -> bool {
    ||| ('a' <= c && c <= 'z')
    ||| ('A' <= c && c <= 'Z')
    ||| ('0' <= c && c <= '9')
    ||| c == '_'
    ||| c == '-'
}

/// A valid identifier: non-empty, made of identifier characters only.
pub open spec fn is_valid_id(s: Seq<char>) -> bool {
    s.len() > 0 && forall|k: int| 0 <= k < s.len() ==> is_id_char(#[trigger] s[k])
}

/// Accepts exactly the non-empty identifiers made of ASCII letters, digits,
/// `_` and `-`; anything else is refused with `invalid id`.
pub fn validate_id(id: &str) -> (res: Result<(), String>)
    ensures
        res is Ok <==> is_valid_id(id@),
        res matches Err(e) ==> e@ == "invalid id"@,
{
    let cs = chars_of(id);
    let mut ok = true;
    let mut i: usize = 0;
    while i < cs.len()
        invariant
            cs@ == id@,
            i <= cs@.len(),
            ok <==> forall|k: int| 0 <= k < i ==> is_id_char(#[trigger] cs@[k]),
        decreases cs@.len() - i,
    {
        let c = cs[i];
        let good = ('a' <= c && c <= 'z') || ('A' <= c && c <= 'Z') || ('0' <= c && c <= '9') || c
            == '_' || c == '-';
        proof {
            if ok && !good {
                assert(!is_id_char(cs@[i as int]));
            }
        }
        ok = ok && good;
        i = i + 1;
    }
    if ok && cs.len() > 0 {
        Ok(())
    } else {
        Err(String::from_str("invalid id"))
    }
}

/// The text of an identifier: prefix, `_`, the milliseconds, `_`, the count.
pub open spec fn id_text(prefix: Seq<char>, millis: nat, count: nat) -> Seq<char> {
    prefix + seq!['_'] + dec(millis) + seq!['_'] + dec(count)
}

/// Writes an identifier from its prefix, a time in milliseconds and a count.
pub fn format_id(prefix: &str, millis: u128, count: u64) -> (res: String)
    ensures
        res@ == id_text(prefix@, millis as nat, count as nat),
{
    let mut out = String::new();
    push_str(&mut out, prefix);
    push_char(&mut out, '_');
    push_dec(&mut out, millis);
    push_char(&mut out, '_');
    push_dec(&mut out, count as u128);
    out
}

/// A fresh identifier with the given prefix: `prefix_<millis>_<count>`,
/// where `count` is the value the caller took from its counter.
pub fn new_id(prefix: &str, count: u64) -> (res: String)
    ensures
        exists|reading: Option<(u64, u32)>|
            is_clock_reading(reading) && res@ == id_text(prefix@, reading_millis(reading), count as nat),
{
    let millis = unix_millis();
    format_id(prefix, millis, count)
}

/// The current time as decimal milliseconds since the Unix epoch (`0` for a
/// clock before the epoch).
pub fn now_stamp() -> (res: String)
    ensures
        exists|reading: Option<(u64, u32)>|
            is_clock_reading(reading) && res@ == dec(reading_millis(reading)),
{
    fmt_u128(unix_millis())
}

#[verifier::external_type_specification]
#[verifier::external_body]
pub struct ExSystemTime(std::time::SystemTime);

/// Trusted: `SystemTime::now`, the current system time. Nothing is stated of
/// it: it is the clock.
#[verifier::external_body]
fn system_now() -> std::time::SystemTime {
    std::time::SystemTime::now()
}

/// Trusted: `SystemTime::duration_since(UNIX_EPOCH)`, the time elapsed since
/// the epoch, or `None` for a time before it. Nothing is stated of the value.
#[verifier::external_body]
fn since_unix_epoch(t: &std::time::SystemTime) -> Option<std::time::Duration> {
    t.duration_since(std::time::UNIX_EPOCH).ok()
}

/// Trusted: `Duration::as_secs`, the whole seconds of `d`. Nothing is stated:
/// the duration is opaque here.
#[verifier::external_body]
fn whole_secs(d: &std::time::Duration) -> u64 {
    d.as_secs()
}

/// Trusted: `Duration::subsec_nanos`, the fractional part of `d` in
/// nanoseconds, which std documents as always less than one billion.
#[verifier::external_body]
fn subsec_nanos(d: &std::time::Duration) -> (res: u32)
    ensures
        res < 1_000_000_000,
{
    d.subsec_nanos()
}

/// The whole milliseconds in a duration of `secs` seconds and `nanos`
/// nanoseconds (what `Duration::as_millis` gives).
pub open spec fn millis_of(secs: nat, nanos: nat) -> nat {
    secs * 1000 + nanos / 1_000_000
}

/// The milliseconds of a clock reading: whole seconds and nanoseconds since
/// the epoch, or `None` for a clock before the epoch.
pub open spec fn reading_millis(reading: Option<(u64, u32)>) -> nat {
    match reading {
        Some((secs, nanos)) => millis_of(secs as nat, nanos as nat),
        None => 0,
    }
}

/// A clock reading is well formed when its nanoseconds are under a second.
pub open spec fn is_clock_reading(reading: Option<(u64, u32)>) -> bool {
    reading matches Some((_, nanos)) ==> nanos < 1_000_000_000
}

/// The milliseconds since the epoch for a clock reading: the whole
/// milliseconds of the duration, or zero for a clock before the epoch.
pub fn millis_from_reading(reading: Option<(u64, u32)>) -> (res: u128)
    ensures
        res == reading_millis(reading),
{
    match reading {
        Some((secs, nanos)) => (secs as u128) * 1000 + (nanos / 1_000_000) as u128,
        None => 0,
    }
}

/// Milliseconds since the Unix epoch, or zero when the clock reads earlier:
/// [`millis_from_reading`] of what the clock gives. Which reading that is,
/// is the clock's.
pub fn unix_millis() -> (res: u128)
    ensures
        exists|reading: Option<(u64, u32)>|
            is_clock_reading(reading) && res == reading_millis(reading),
{
    let reading = match since_unix_epoch(&system_now()) {
        Some(d) => Some((whole_secs(&d), subsec_nanos(&d))),
        None => None,
    };
    millis_from_reading(reading)
}

/// Every character of a decimal representation is a digit.
pub proof fn lemma_dec_digits(n: nat)
    ensures
        forall|k: int| 0 <= k < dec(n).len() ==> '0' <= #[trigger] dec(n)[k] <= '9',
    decreases n,
{
    if n >= 10 {
        lemma_dec_digits(n / 10);
        let d = (n % 10) as nat;
        assert((d + 48) as u8 == d + 48);
        assert(digit_char(d) as int == d + 48);
        let t = dec(n);
        assert(t == dec(n / 10).push(digit_char(d)));
        assert forall|k: int| 0 <= k < t.len() implies '0' <= #[trigger] t[k] <= '9' by {
            if k < t.len() - 1 {
                assert(t[k] == dec(n / 10)[k]);
            }
        }
    } else {
        assert((n + 48) as u8 == n + 48);
        assert(digit_char(n) as int == n + 48);
    }
}

/// An identifier made from a valid prefix is itself valid, so every surface,
/// event and asset identifier the library makes passes `validate_id`.
pub proof fn lemma_new_id_valid(prefix: Seq<char>, millis: nat, count: nat)
    requires
        is_valid_id(prefix),
    ensures
        is_valid_id(id_text(prefix, millis, count)),
{
    lemma_dec_digits(millis);
    lemma_dec_digits(count);
    let t = id_text(prefix, millis, count);
    let a = dec(millis);
    let b = dec(count);
    assert forall|k: int| 0 <= k < t.len() implies is_id_char(#[trigger] t[k]) by {
        if k < prefix.len() {
            assert(t[k] == prefix[k]);
        } else if k == prefix.len() {
            assert(t[k] == '_');
        } else if k < prefix.len() + 1 + a.len() {
            assert(t[k] == a[k - prefix.len() - 1]);
        } else if k == prefix.len() + 1 + a.len() {
            assert(t[k] == '_');
        } else {
            assert(t[k] == b[k - prefix.len() - 2 - a.len()]);
        }
    }
}

/// A valid identifier needs no escaping: HTML and JavaScript escaping leave
/// it as it is, and it holds no `/`, `\` or `.`, so it names a single file
/// inside the directory it is joined to.
pub proof fn lemma_valid_id_is_plain(id: Seq<char>)
    requires
        is_valid_id(id),
    ensures
        escape_spec(id) == id,
        escape_js_spec(id) == id,
        forall|k: int| 0 <= k < id.len() ==> {
            let c = #[trigger] id[k];
            c != '/' && c != '\\' && c != '.'
        },
{
    assert forall|k: int| 0 <= k < id.len() implies (|c: char| html_entity(c))(#[trigger] id[k])
        == seq![id[k]] by {
        assert(is_id_char(id[k]));
    }
    lemma_flat_map_identity(id, |c: char| html_entity(c));
    assert forall|k: int| 0 <= k < id.len() implies (|c: char| js_escape_char(c))(#[trigger] id[k])
        == seq![id[k]] by {
        assert(is_id_char(id[k]));
    }
    lemma_flat_map_identity(id, |c: char| js_escape_char(c));
}

proof fn lemma_id_counts_apart(p1: Seq<char>, m1: nat, c1: nat, p2: Seq<char>, m2: nat, c2: nat)
    requires
        dec(c1).len() <= dec(c2).len(),
        id_text(p1, m1, c1) == id_text(p2, m2, c2),
    ensures
        c1 == c2,
{
    crate::http::lemma_dec_value(c1);
    crate::http::lemma_dec_value(c2);
    let t = id_text(p1, m1, c1);
    let a = dec(c1);
    let b = dec(c2);
    let x1 = p1 + seq!['_'] + dec(m1) + seq!['_'];
    let x2 = p2 + seq!['_'] + dec(m2) + seq!['_'];
    assert(t == x1 + a);
    assert(t == x2 + b);
    if a.len() < b.len() {
        let i = t.len() - a.len() - 1;
        assert(t[i] == x1[x1.len() - 1]);
        assert(t[i] == b[i - x2.len()]);
        assert(crate::text::is_digit(b[i - x2.len()]));
        assert(false);
    } else {
        assert(t.skip(x1.len() as int) =~= a);
        assert(t.skip(x2.len() as int) =~= b);
    }
}

/// Identifiers made with different counts differ, whatever their prefixes
/// and times: the count is what follows the last `_`, so a counter that never
/// repeats a value never repeats an identifier.
pub proof fn lemma_new_id_distinct(p1: Seq<char>, m1: nat, c1: nat, p2: Seq<char>, m2: nat, c2: nat)
    requires
        c1 != c2,
    ensures
        id_text(p1, m1, c1) != id_text(p2, m2, c2),
{
    if id_text(p1, m1, c1) == id_text(p2, m2, c2) {
        if dec(c1).len() <= dec(c2).len() {
            lemma_id_counts_apart(p1, m1, c1, p2, m2, c2);
        } else {
            lemma_id_counts_apart(p2, m2, c2, p1, m1, c1);
        }
    }
}

} // verus!
