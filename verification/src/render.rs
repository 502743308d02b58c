//! The HTML views: one page per surface, and an index of surfaces.
use vstd::prelude::*;

use crate::escape::{class_token, class_token_spec, escape, escape_js, escape_js_spec, escape_spec};
use crate::surface::{Card, Surface, SurfaceEvent, SurfaceSummary};
use crate::text::{dec_signed, push_dec_signed, push_str};

verus! {

// The fixed text of a surface page, between the places where the surface's
// own text goes.
pub const PAGE_0: &'static str = "<!doctype html>\n<html lang=\"en\">\n<head>\n  <meta charset=\"utf-8\">\n  <meta name=\"viewport\" content=\"width=device-width, initial-scale=1\">\n  <title>";
pub const PAGE_1: &'static str = "</title>\n  <style>\n    :root { color-scheme: light dark; font-family: -apple-system, BlinkMacSystemFont, \"Segoe UI\", system-ui, sans-serif; }\n    body { margin: 0; background: #101613; color: #e5fff6; }\n    main { max-width: 1060px; margin: 0 auto; padding: 30px; }\n    header, .card, .events, .promotion { border: 1px solid #26342f; border-radius: 8px; background: #151d1a; }\n    header { display: grid; grid-template-columns: minmax(0, 1fr) auto; gap: 18px; padding: 18px; }\n    h1 { margin: 4px 0 8px; font-size: clamp(26px, 4vw, 44px); line-height: 1; }\n    p { color: #9eb2aa; line-height: 1.5; }\n    .eyebrow, .card span, .events strong, .promotion strong { color: #34d399; font-size: 11px; font-weight: 700; text-transform: uppercase; }\n    .badge { align-self: start; padding: 5px 9px; border: 1px solid #36584b; border-radius: 999px; color: #bdf8df; font-size: 12px; }\n    .medium-board { display: grid; grid-template-columns: repeat(auto-fit, minmax(210px, 1fr)); gap: 12px; margin: 14px 0; }\n    .card { min-height: 136px; padding: 15px; }\n    .card h2 { margin: 10px 0 8px; font-size: 17px; }\n    button, input, textarea { font: inherit; }\n    button { margin-top: 12px; padding: 7px 10px; border: 1px solid #36584b; border-radius: 999px; background: #16251f; color: #d9fff0; cursor: pointer; }\n    button:hover { border-color: #34d399; }\n    .live-controls { display: grid; grid-template-columns: minmax(0, 1fr) auto auto; gap: 8px; margin: 14px 0; }\n    .live-controls input { min-width: 0; padding: 10px 12px; border: 1px solid #26342f; border-radius: 8px; background: #151d1a; color: #e5fff6; }\n    .live-controls button { margin-top: 0; border-radius: 8px; }\n    .card-diagram { grid-column: span 2; }\n    .card-matrix { background: linear-gradient(135deg, #151d1a 0%, #17231f 100%); }\n    .card-chart .meter { height: 10px; }\n    .card-image-gen { border-color: #456354; }\n    .meter { height: 7px; margin-top: 14px; overflow: hidden; border-radius: 999px; background: #26342f; }\n    .meter span { display: block; height: 100%; background: #34d399; }\n    .events, .promotion { display: grid; gap: 10px; margin-top: 12px; padding: 14px; }\n    .events div { display: flex; flex-wrap: wrap; gap: 8px; }\n    .events span { padding: 5px 8px; border: 1px solid #36584b; border-radius: 999px; color: #d9fff0; font-size: 12px; }\n    .events em { color: #9eb2aa; font-style: normal; }\n    @media (max-width: 620px) { .card-diagram { grid-column: span 1; } main { padding: 18px; } }\n  </style>\n</head>\n<body>\n  <main data-medium=\"";
pub const PAGE_2: &'static str = "\">\n    <header>\n      <div><span class=\"eyebrow\">Canmore medium</span><h1>";
pub const PAGE_3: &'static str = "</h1><p>";
pub const PAGE_4: &'static str = "</p></div>\n      <strong class=\"badge\">";
pub const PAGE_5: &'static str = "</strong>\n    </header>\n    <section class=\"live-controls\">\n      <input id=\"canmore-note\" placeholder=\"Send a note back into the surface\">\n      <button id=\"canmore-note-send\">Record note</button>\n      <button id=\"canmore-promote\">Promote</button>\n    </section>\n    <section class=\"medium-board\">";
pub const PAGE_6: &'static str = "</section>\n    <section class=\"events\"><strong>Feedback events</strong><div>";
pub const PAGE_7: &'static str = "</div></section>\n    <section class=\"promotion\"><strong>Promotion</strong><p>";
pub const PAGE_8: &'static str = "</p></section>\n  </main>\n  <script>\n    const surfaceId = \"";
pub const PAGE_9: &'static str = "\";\n    const eventList = document.querySelector(\".events div\");\n    const addEvent = (kind, target) => {\n      const pill = document.createElement(\"span\");\n      pill.textContent = `${kind}: ${target || \"surface\"}`;\n      const empty = eventList.querySelector(\"em\");\n      if (empty) empty.remove();\n      eventList.prepend(pill);\n    };\n    async function postEvent(kind, target, note) {\n      const response = await fetch(\"/event\", {\n        method: \"POST\",\n        headers: { \"content-type\": \"application/json\" },\n        body: JSON.stringify({ id: surfaceId, kind, target, note })\n      });\n      if (!response.ok) throw new Error(await response.text());\n      addEvent(kind, target);\n    }\n    document.querySelectorAll(\"[data-kind]\").forEach((button) => {\n      button.addEventListener(\"click\", () => postEvent(button.dataset.kind, button.dataset.target, null));\n    });\n    document.getElementById(\"canmore-note-send\").addEventListener(\"click\", () => {\n      const input = document.getElementById(\"canmore-note\");\n      const note = input.value.trim();\n      if (!note) return;\n      postEvent(\"note\", \"surface\", note).then(() => input.value = \"\");\n    });\n    document.getElementById(\"canmore-promote\").addEventListener(\"click\", async () => {\n      const response = await fetch(\"/promote\", {\n        method: \"POST\",\n        headers: { \"content-type\": \"application/json\" },\n        body: JSON.stringify({ id: surfaceId, note: \"Promoted from live surface.\" })\n      });\n      if (response.ok) addEvent(\"promoted\", \"project material\");\n    });\n  </script>\n</body>\n</html>";
pub const INDEX_0: &'static str = "<!doctype html><html lang=\"en\"><head><meta charset=\"utf-8\"><meta name=\"viewport\" content=\"width=device-width, initial-scale=1\"><title>Canmore surfaces</title><style>\n        body { margin: 0; background: #101613; color: #e5fff6; font-family: -apple-system, BlinkMacSystemFont, \"Segoe UI\", system-ui, sans-serif; }\n        main { max-width: 900px; margin: 0 auto; padding: 28px; }\n        a { display: grid; gap: 6px; margin: 10px 0; padding: 14px; color: inherit; text-decoration: none; border: 1px solid #26342f; border-radius: 8px; background: #151d1a; }\n        span { color: #34d399; font-size: 12px; text-transform: uppercase; }\n        </style></head><body><main><h1>Canmore surfaces</h1>";
pub const INDEX_1: &'static str = "</main></body></html>";

pub const CARD_0: &'static str = "<article class=\"card card-";
pub const CARD_1: &'static str = "\"><span>";
pub const CARD_2: &'static str = "</span><h2>";
pub const CARD_3: &'static str = "</h2><p>";
pub const CARD_4: &'static str = "</p>";
pub const CARD_5: &'static str = "<button data-kind=\"selected\" data-target=\"";
pub const CARD_6: &'static str = "\">Use this</button></article>";
pub const METER_0: &'static str = "<div class=\"meter\"><span style=\"width:";
pub const METER_1: &'static str = "%\"></span></div>";
pub const EVENT_0: &'static str = "<span>";
pub const EVENT_1: &'static str = ": ";
pub const EVENT_2: &'static str = "</span>";
pub const NO_EVENTS: &'static str = "<em>No feedback events recorded yet.</em>";
pub const LINK_0: &'static str = "<a href=\"/surfaces/";
pub const LINK_1: &'static str = "\"><strong>";
pub const LINK_2: &'static str = "</strong><span>";
pub const LINK_3: &'static str = "</span></a>";

/// How many of the latest events a page shows.
pub const SHOWN_EVENTS: usize = 12;

/// A meter value clamped to 0..=100.
pub open spec fn clamp_percent(v: int) -> int {
    if v < 0 {
        0
    } else if v > 100 {
        100
    } else {
        v
    }
}

/// The meter of a card with a value; nothing for a card without one.
pub open spec fn meter_html(value: Option<i64>) -> Seq<char> {
    match value {
        Some(v) => METER_0@ + dec_signed(clamp_percent(v as int)) + METER_1@,
        None => seq![],
    }
}

/// The HTML of one card; all of its text is escaped.
pub open spec fn card_html(c: Card) -> Seq<char> {
    CARD_0@ + class_token_spec(c.kind@) + CARD_1@ + escape_spec(c.kind@) + CARD_2@ + escape_spec(
        c.title@,
    ) + CARD_3@ + escape_spec(c.body@) + CARD_4@ + meter_html(c.value) + CARD_5@ + escape_spec(
        c.title@,
    ) + CARD_6@
}

/// The HTML of the cards, in order.
pub open spec fn cards_html(cs: Seq<Card>) -> Seq<char>
    decreases cs.len(),
{
    if cs.len() == 0 {
        seq![]
    } else {
        cards_html(cs.drop_last()) + card_html(cs.last())
    }
}

/// The target an event shows: its own, or `surface`.
pub open spec fn event_target(e: SurfaceEvent) -> Seq<char> {
    match e.target {
        Some(t) => t@,
        None => "surface"@,
    }
}

/// The HTML of one event pill.
pub open spec fn event_html(e: SurfaceEvent) -> Seq<char> {
    EVENT_0@ + escape_spec(e.kind@) + EVENT_1@ + escape_spec(event_target(e)) + EVENT_2@
}

/// The HTML of the event pills, in order.
pub open spec fn events_html(es: Seq<SurfaceEvent>) -> Seq<char>
    decreases es.len(),
{
    if es.len() == 0 {
        seq![]
    } else {
        events_html(es.drop_last()) + event_html(es.last())
    }
}

/// The events a page shows: the latest twelve, newest first.
pub open spec fn shown_events(es: Seq<SurfaceEvent>) -> Seq<SurfaceEvent> {
    let n = if es.len() < 12 {
        es.len() as int
    } else {
        12
    };
    Seq::new(n as nat, |k: int| es[es.len() - 1 - k])
}

/// The events part of a page: the shown events, or a note that none were
/// recorded.
pub open spec fn event_body_html(es: Seq<SurfaceEvent>) -> Seq<char> {
    if es.len() == 0 {
        NO_EVENTS@
    } else {
        events_html(shown_events(es))
    }
}

/// The HTML page of a surface: every text of the surface is HTML-escaped,
/// and its identifier is JavaScript-escaped in the page script.
pub open spec fn surface_page(s: Surface) -> Seq<char> {
    PAGE_0@ + escape_spec(s.title@) + PAGE_1@ + escape_spec(s.medium@) + PAGE_2@ + escape_spec(
        s.title@,
    ) + PAGE_3@ + escape_spec(s.purpose@) + PAGE_4@ + escape_spec(s.medium@) + PAGE_5@
        + cards_html(s.cards@) + PAGE_6@ + event_body_html(s.events@) + PAGE_7@ + escape_spec(
        s.promotion@,
    ) + PAGE_8@ + escape_js_spec(s.id@) + PAGE_9@
}

fn push_escaped(out: &mut String, s: &str)
    ensures
        final(out)@ == old(out)@ + escape_spec(s@),
{
    let e = escape(s);
    push_str(out, e.as_str());
}

/// Appends the HTML of one card.
pub fn push_card_html(out: &mut String, card: &Card)
    ensures
        final(out)@ == old(out)@ + card_html(*card),
{
    let ghost start = out@;
    push_str(out, CARD_0);
    let class = class_token(card.kind.as_str());
    push_str(out, class.as_str());
    push_str(out, CARD_1);
    push_escaped(out, card.kind.as_str());
    push_str(out, CARD_2);
    push_escaped(out, card.title.as_str());
    push_str(out, CARD_3);
    push_escaped(out, card.body.as_str());
    push_str(out, CARD_4);
    match card.value {
        Some(v) => {
            push_str(out, METER_0);
            let w: i64 = if v < 0 {
                0
            } else if v > 100 {
                100
            } else {
                v
            };
            push_dec_signed(out, w);
            push_str(out, METER_1);
        },
        None => {},
    }
    push_str(out, CARD_5);
    push_escaped(out, card.title.as_str());
    push_str(out, CARD_6);
    assert(out@ =~= start + card_html(*card));
}

/// Appends the HTML of one event pill.
pub fn push_event_html(out: &mut String, event: &SurfaceEvent)
    ensures
        final(out)@ == old(out)@ + event_html(*event),
{
    let ghost start = out@;
    push_str(out, EVENT_0);
    push_escaped(out, event.kind.as_str());
    push_str(out, EVENT_1);
    match &event.target {
        Some(t) => push_escaped(out, t.as_str()),
        None => push_escaped(out, "surface"),
    }
    push_str(out, EVENT_2);
    assert(out@ =~= start + event_html(*event));
}

/// The HTML page of a surface, with its cards, its latest events and a
/// script that reports clicks, notes and promotion back to the server.
pub fn render_surface_html(surface: &Surface) -> (res: String)
    ensures
        res@ == surface_page(*surface),
{
    let mut cards = String::new();
    for i in 0..surface.cards.len()
        invariant
            cards@ == cards_html(surface.cards@.take(i as int)),
    {
        push_card_html(&mut cards, &surface.cards[i]);
        assert(surface.cards@.take(i + 1).drop_last() =~= surface.cards@.take(i as int));
    }
    assert(surface.cards@.take(surface.cards@.len() as int) =~= surface.cards@);
    let n = surface.events.len();
    let shown = if n < SHOWN_EVENTS {
        n
    } else {
        SHOWN_EVENTS
    };
    let mut events = String::new();
    let ghost es = surface.events@;
    for k in 0..shown
        invariant
            n == es.len(),
            es == surface.events@,
            shown <= n,
            shown == (if n < 12 { n } else { 12 }),
            events@ == events_html(shown_events(es).take(k as int)),
    {
        push_event_html(&mut events, &surface.events[n - 1 - k]);
        assert(shown_events(es).take(k + 1).drop_last() =~= shown_events(es).take(k as int));
    }
    assert(shown_events(es).take(shown as int) =~= shown_events(es));
    let mut out = String::new();
    push_str(&mut out, PAGE_0);
    push_escaped(&mut out, surface.title.as_str());
    push_str(&mut out, PAGE_1);
    push_escaped(&mut out, surface.medium.as_str());
    push_str(&mut out, PAGE_2);
    push_escaped(&mut out, surface.title.as_str());
    push_str(&mut out, PAGE_3);
    push_escaped(&mut out, surface.purpose.as_str());
    push_str(&mut out, PAGE_4);
    push_escaped(&mut out, surface.medium.as_str());
    push_str(&mut out, PAGE_5);
    push_str(&mut out, cards.as_str());
    push_str(&mut out, PAGE_6);
    if n == 0 {
        push_str(&mut out, NO_EVENTS);
    } else {
        push_str(&mut out, events.as_str());
    }
    push_str(&mut out, PAGE_7);
    push_escaped(&mut out, surface.promotion.as_str());
    push_str(&mut out, PAGE_8);
    let id_js = escape_js(surface.id.as_str());
    push_str(&mut out, id_js.as_str());
    push_str(&mut out, PAGE_9);
    assert(out@ =~= surface_page(*surface));
    out
}

/// The index entry of one surface: a link to its page. The title and medium
/// are escaped; the identifier goes into the link as it is.
pub open spec fn link_html(s: SurfaceSummary) -> Seq<char> {
    LINK_0@ + s.id@ + LINK_1@ + escape_spec(s.title@) + LINK_2@ + escape_spec(s.medium@) + LINK_3@
}

/// The index entries, in order.
pub open spec fn links_html(ss: Seq<SurfaceSummary>) -> Seq<char>
    decreases ss.len(),
{
    if ss.len() == 0 {
        seq![]
    } else {
        links_html(ss.drop_last()) + link_html(ss.last())
    }
}

/// The index page of the listed surfaces.
pub open spec fn index_page(ss: Seq<SurfaceSummary>) -> Seq<char> {
    INDEX_0@ + links_html(ss) + INDEX_1@
}

/// The index page: a link to each listed surface, in order.
pub fn render_index_html(surfaces: &Vec<SurfaceSummary>) -> (res: String)
    ensures
        res@ == index_page(surfaces@),
{
    let mut links = String::new();
    for i in 0..surfaces.len()
        invariant
            links@ == links_html(surfaces@.take(i as int)),
    {
        let s = &surfaces[i];
        let ghost start = links@;
        push_str(&mut links, LINK_0);
        push_str(&mut links, s.id.as_str());
        push_str(&mut links, LINK_1);
        push_escaped(&mut links, s.title.as_str());
        push_str(&mut links, LINK_2);
        push_escaped(&mut links, s.medium.as_str());
        push_str(&mut links, LINK_3);
        assert(links@ =~= start + link_html(surfaces@[i as int]));
        assert(surfaces@.take(i + 1).drop_last() =~= surfaces@.take(i as int));
    }
    assert(surfaces@.take(surfaces@.len() as int) =~= surfaces@);
    let mut out = String::new();
    push_str(&mut out, INDEX_0);
    push_str(&mut out, links.as_str());
    push_str(&mut out, INDEX_1);
    assert(out@ =~= index_page(surfaces@));
    out
}

// ---------------------------------------------------------------------------
// Pieces in order
// ---------------------------------------------------------------------------

/// The total length of the first `i` pieces `f(xs[0])`, ..., `f(xs[i - 1])`.
pub open spec fn pieces_len<T>(xs: Seq<T>, f: spec_fn(T) -> Seq<char>, i: int) -> int
    decreases i,
{
    if i <= 0 {
        0
    } else {
        pieces_len(xs, f, i - 1) + f(xs[i - 1]).len()
    }
}

proof fn lemma_pieces_len_mono<T>(xs: Seq<T>, f: spec_fn(T) -> Seq<char>, i: int, j: int)
    requires
        0 <= i <= j,
    ensures
        pieces_len(xs, f, i) <= pieces_len(xs, f, j),
    decreases j,
{
    if i < j {
        lemma_pieces_len_mono(xs, f, i, j - 1);
    }
}

proof fn lemma_pieces_len_drop_last<T>(xs: Seq<T>, f: spec_fn(T) -> Seq<char>, i: int)
    requires
        0 <= i < xs.len(),
    ensures
        pieces_len(xs.drop_last(), f, i) == pieces_len(xs, f, i),
    decreases i,
{
    if i > 0 {
        lemma_pieces_len_drop_last(xs, f, i - 1);
        assert(xs.drop_last()[i - 1] == xs[i - 1]);
    }
}

/// `g` makes its text by appending `f` of each item in turn.
#[verifier::opaque]
pub open spec fn appends_pieces<T>(g: spec_fn(Seq<T>) -> Seq<char>, f: spec_fn(T) -> Seq<char>) -> bool {
    forall|s: Seq<T>|
        #![trigger g(s)]
        g(s) == if s.len() == 0 {
            Seq::<char>::empty()
        } else {
            g(s.drop_last()) + f(s.last())
        }
}

proof fn lemma_appends_step<T>(g: spec_fn(Seq<T>) -> Seq<char>, f: spec_fn(T) -> Seq<char>, s: Seq<T>)
    requires
        appends_pieces(g, f),
    ensures
        s.len() > 0 ==> g(s) == g(s.drop_last()) + f(s.last()),
        s.len() == 0 ==> g(s) == Seq::<char>::empty(),
{
    reveal(appends_pieces);
}

/// A text made by appending `f` of each item in turn is exactly the pieces
/// `f(xs[0])`, `f(xs[1])`, ... one after the other: its length is their total
/// length, and piece `i` stands right after the pieces before it.
#[verifier::rlimit(40)]
#[verifier::spinoff_prover]
proof fn lemma_joined_pieces<T>(xs: Seq<T>, f: spec_fn(T) -> Seq<char>, g: spec_fn(Seq<T>) -> Seq<char>)
    requires
        appends_pieces(g, f),
    ensures
        g(xs).len() == pieces_len(xs, f, xs.len() as int),
        forall|i: int|
            0 <= i < xs.len() ==> g(xs).subrange(pieces_len(xs, f, i), pieces_len(xs, f, i + 1))
                == f(#[trigger] xs[i]),
    decreases xs.len(),
{
    let n = xs.len() as int;
    lemma_appends_step(g, f, xs);
    if n > 0 {
        let p = xs.drop_last();
        lemma_joined_pieces(p, f, g);
        lemma_pieces_len_drop_last(xs, f, n - 1);
        assert forall|i: int|
            0 <= i < xs.len() implies g(xs).subrange(pieces_len(xs, f, i), pieces_len(xs, f, i + 1))
            == f(#[trigger] xs[i]) by {
            if i < n - 1 {
                lemma_pieces_len_drop_last(xs, f, i);
                lemma_pieces_len_drop_last(xs, f, i + 1);
                lemma_pieces_len_mono(p, f, i + 1, n - 1);
                lemma_pieces_len_mono(p, f, i, i + 1);
                lemma_pieces_len_mono(p, f, 0, i);
                assert(p[i] == xs[i]);
                assert(g(p).subrange(pieces_len(p, f, i), pieces_len(p, f, i + 1)) == f(p[i]));
                assert(g(xs).subrange(pieces_len(xs, f, i), pieces_len(xs, f, i + 1)) =~= g(p).subrange(
                    pieces_len(p, f, i),
                    pieces_len(p, f, i + 1),
                ));
            } else {
                assert(g(xs).subrange(pieces_len(xs, f, i), pieces_len(xs, f, i + 1)) =~= f(xs.last()));
            }
        }
    }
}

/// The card section of a surface page holds the HTML of every card, in
/// order: its length is the total length of the cards' HTML, and card `i`'s
/// HTML stands right after the HTML of the cards before it. So a surface with
/// `n` cards shows `n` card articles.
pub proof fn lemma_cards_in_order(cs: Seq<Card>)
    ensures
        cards_html(cs).len() == pieces_len(cs, |c: Card| card_html(c), cs.len() as int),
        forall|i: int|
            0 <= i < cs.len() ==> cards_html(cs).subrange(
                pieces_len(cs, |c: Card| card_html(c), i),
                pieces_len(cs, |c: Card| card_html(c), i + 1),
            ) == card_html(#[trigger] cs[i]),
{
    let f = |c: Card| card_html(c);
    let g = |s: Seq<Card>| cards_html(s);
    assert(appends_pieces(g, f)) by {
        reveal(appends_pieces);
        assert forall|s: Seq<Card>| #![trigger g(s)]
            g(s) == if s.len() == 0 {
                Seq::<char>::empty()
            } else {
                g(s.drop_last()) + f(s.last())
            } by {}
    }
    lemma_joined_pieces(cs, f, g);
}

/// The event pills of a page hold the HTML of every shown event, in order.
pub proof fn lemma_events_in_order(es: Seq<SurfaceEvent>)
    ensures
        events_html(es).len() == pieces_len(es, |e: SurfaceEvent| event_html(e), es.len() as int),
        forall|i: int|
            0 <= i < es.len() ==> events_html(es).subrange(
                pieces_len(es, |e: SurfaceEvent| event_html(e), i),
                pieces_len(es, |e: SurfaceEvent| event_html(e), i + 1),
            ) == event_html(#[trigger] es[i]),
{
    let f = |e: SurfaceEvent| event_html(e);
    let g = |s: Seq<SurfaceEvent>| events_html(s);
    assert(appends_pieces(g, f)) by {
        reveal(appends_pieces);
        assert forall|s: Seq<SurfaceEvent>| #![trigger g(s)]
            g(s) == if s.len() == 0 {
                Seq::<char>::empty()
            } else {
                g(s.drop_last()) + f(s.last())
            } by {}
    }
    lemma_joined_pieces(es, f, g);
}

/// A page shows the latest twelve events (all of them when there are fewer),
/// newest first: the last ones recorded, in reverse order.
pub proof fn lemma_shown_events(es: Seq<SurfaceEvent>)
    ensures
        shown_events(es).len() <= 12,
        shown_events(es).len() <= es.len(),
        es.len() <= 12 ==> shown_events(es).len() == es.len(),
        es.len() > 12 ==> shown_events(es).len() == 12,
        shown_events(es) == es.subrange(es.len() - shown_events(es).len(), es.len() as int).reverse(),
{
    let m = shown_events(es).len() as int;
    let tail = es.subrange(es.len() - m, es.len() as int);
    if m > 0 {
        assert(shown_events(es) =~= tail.reverse());
    } else {
        assert(shown_events(es) =~= tail.reverse());
    }
}

/// The index page links every listed surface, in the listing's order: its
/// link section's length is the total length of the links, and link `i`
/// stands right after the links before it. So `n` summaries give `n` links.
pub proof fn lemma_links_in_order(ss: Seq<SurfaceSummary>)
    ensures
        links_html(ss).len() == pieces_len(ss, |s: SurfaceSummary| link_html(s), ss.len() as int),
        forall|i: int|
            0 <= i < ss.len() ==> links_html(ss).subrange(
                pieces_len(ss, |s: SurfaceSummary| link_html(s), i),
                pieces_len(ss, |s: SurfaceSummary| link_html(s), i + 1),
            ) == link_html(#[trigger] ss[i]),
{
    let f = |s: SurfaceSummary| link_html(s);
    let g = |t: Seq<SurfaceSummary>| links_html(t);
    assert(appends_pieces(g, f)) by {
        reveal(appends_pieces);
        assert forall|t: Seq<SurfaceSummary>| #![trigger g(t)]
            g(t) == if t.len() == 0 {
                Seq::<char>::empty()
            } else {
                g(t.drop_last()) + f(t.last())
            } by {}
    }
    lemma_joined_pieces(ss, f, g);
}

} // verus!
