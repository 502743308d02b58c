//! Medium surfaces: what a surface holds, and how it is created, updated,
//! given feedback events, promoted and summarised.
use vstd::prelude::*;

use crate::fields::{is_blank, required_message, required_non_empty};
use crate::text::{push_str, trim_spec};

verus! {

/// The promotion note of a surface created without one.
pub const DEFAULT_PROMOTION: &'static str = "Promote only if this becomes project material.";

/// One card of a surface.
pub struct Card {
    pub id: Option<String>,
    /// The card's type (`diagram`, `chart`, `matrix`, ...).
    pub kind: String,
    pub title: String,
    pub body: String,
    /// A meter value, shown clamped to 0..=100.
    pub value: Option<i64>,
}

/// A feedback event recorded on a surface.
pub struct SurfaceEvent {
    pub id: String,
    pub kind: String,
    pub target: Option<String>,
    /// Any JSON value, held as its JSON text.
    pub value: Option<String>,
    pub note: Option<String>,
    pub created_at: String,
}

/// A stored medium surface.
pub struct Surface {
    pub id: String,
    pub title: String,
    pub purpose: String,
    pub medium: String,
    pub ephemeral: bool,
    pub promotion: String,
    pub cards: Vec<Card>,
    pub events: Vec<SurfaceEvent>,
    pub created_at: String,
    pub updated_at: String,
    pub promoted_at: Option<String>,
}

/// What a caller gives to create a surface.
pub struct SurfaceInput {
    pub title: String,
    pub purpose: String,
    pub medium: String,
    pub ephemeral: bool,
    pub promotion: Option<String>,
    pub cards: Vec<Card>,
}

/// The fields a caller replaces on an existing surface.
pub struct SurfacePatch {
    pub id: String,
    pub title: Option<String>,
    pub purpose: Option<String>,
    pub medium: Option<String>,
    pub ephemeral: Option<bool>,
    pub promotion: Option<String>,
    pub cards: Option<Vec<Card>>,
}

/// A feedback event a caller reports for surface `id`.
pub struct EventInput {
    pub id: String,
    pub kind: String,
    pub target: Option<String>,
    pub value: Option<String>,
    pub note: Option<String>,
}

/// The compact view of a surface that tools answer with; cards, promotion
/// note and events are present only when asked for.
pub struct SurfaceSummary {
    pub id: String,
    pub title: String,
    pub purpose: String,
    pub medium: String,
    pub ephemeral: bool,
    pub promoted: bool,
    pub card_count: usize,
    pub event_count: usize,
    pub updated_at: String,
    pub viewer_path: String,
    pub cards: Option<Vec<Card>>,
    pub promotion: Option<String>,
    pub events: Option<Vec<SurfaceEvent>>,
}

fn copy_text(s: &Option<String>) -> (res: Option<String>)
    ensures
        res == *s,
{
    match s {
        Some(t) => Some(t.clone()),
        None => None,
    }
}

impl Card {
    /// A copy of the card.
    pub fn duplicate(&self) -> (res: Card)
        ensures
            res == *self,
    {
        Card {
            id: copy_text(&self.id),
            kind: self.kind.clone(),
            title: self.title.clone(),
            body: self.body.clone(),
            value: self.value,
        }
    }
}

impl SurfaceEvent {
    /// A copy of the event.
    pub fn duplicate(&self) -> (res: SurfaceEvent)
        ensures
            res == *self,
    {
        SurfaceEvent {
            id: self.id.clone(),
            kind: self.kind.clone(),
            target: copy_text(&self.target),
            value: copy_text(&self.value),
            note: copy_text(&self.note),
            created_at: self.created_at.clone(),
        }
    }
}

/// A copy of a list of cards.
pub fn copy_cards(cards: &Vec<Card>) -> (res: Vec<Card>)
    ensures
        res@ == cards@,
{
    let mut res: Vec<Card> = Vec::new();
    for i in 0..cards.len()
        invariant
            res@ == cards@.take(i as int),
    {
        res.push(cards[i].duplicate());
        assert(cards@.take(i + 1) =~= cards@.take(i as int).push(cards@[i as int]));
    }
    assert(cards@.take(cards@.len() as int) =~= cards@);
    res
}

/// A copy of a list of events.
pub fn copy_events(events: &Vec<SurfaceEvent>) -> (res: Vec<SurfaceEvent>)
    ensures
        res@ == events@,
{
    let mut res: Vec<SurfaceEvent> = Vec::new();
    for i in 0..events.len()
        invariant
            res@ == events@.take(i as int),
    {
        res.push(events[i].duplicate());
        assert(events@.take(i + 1) =~= events@.take(i as int).push(events@[i as int]));
    }
    assert(events@.take(events@.len() as int) =~= events@);
    res
}

// ---------------------------------------------------------------------------
// Creating
// ---------------------------------------------------------------------------

/// The error that creating from `input` meets first, if any: title, then
/// purpose, then medium must not be blank.
pub open spec fn create_error(input: SurfaceInput) -> Option<Seq<char>> {
    if is_blank(input.title@) {
        Some(required_message("title"@))
    } else if is_blank(input.purpose@) {
        Some(required_message("purpose"@))
    } else if is_blank(input.medium@) {
        Some(required_message("medium"@))
    } else {
        None
    }
}

/// `s` is the surface created from `input` with identifier `id` at time `now`.
pub open spec fn is_created(input: SurfaceInput, id: String, now: String, s: Surface) -> bool {
    &&& s.id == id
    &&& s.title@ == trim_spec(input.title@)
    &&& s.purpose@ == trim_spec(input.purpose@)
    &&& s.medium@ == trim_spec(input.medium@)
    &&& s.ephemeral == input.ephemeral
    &&& s.promotion@ == match input.promotion {
        Some(p) => p@,
        None => DEFAULT_PROMOTION@,
    }
    &&& s.cards == input.cards
    &&& s.events@.len() == 0
    &&& s.created_at == now
    &&& s.updated_at == now
    &&& s.promoted_at is None
}

/// A new surface from `input`: title, purpose and medium trimmed and
/// required, no events yet, not promoted, created and updated at `now`.
pub fn create_surface(input: SurfaceInput, id: String, now: String) -> (res: Result<
    Surface,
    String,
>)
    ensures
        res is Err <==> create_error(input) is Some,
        res matches Err(e) ==> e@ == create_error(input)->Some_0,
        res matches Ok(s) ==> is_created(input, id, now, s),
{
    let SurfaceInput { title, purpose, medium, ephemeral, promotion, cards } = input;
    let title = required_non_empty(title, "title")?;
    let purpose = required_non_empty(purpose, "purpose")?;
    let medium = required_non_empty(medium, "medium")?;
    let promotion = match promotion {
        Some(p) => p,
        None => String::from_str(DEFAULT_PROMOTION),
    };
    Ok(
        Surface {
            id,
            title,
            purpose,
            medium,
            ephemeral,
            promotion,
            cards,
            events: Vec::new(),
            created_at: now.clone(),
            updated_at: now,
            promoted_at: None,
        },
    )
}

// ---------------------------------------------------------------------------
// Updating
// ---------------------------------------------------------------------------

/// Whether a replacement text field is given and blank.
pub open spec fn blank_given(field: Option<String>) -> bool {
    field matches Some(t) && is_blank(t@)
}

/// The error that applying `patch` meets first, if any.
pub open spec fn update_error(patch: SurfacePatch) -> Option<Seq<char>> {
    if blank_given(patch.title) {
        Some(required_message("title"@))
    } else if blank_given(patch.purpose) {
        Some(required_message("purpose"@))
    } else if blank_given(patch.medium) {
        Some(required_message("medium"@))
    } else {
        None
    }
}

/// A replaced text field: trimmed when given, unchanged otherwise.
pub open spec fn replaced_text(old: String, field: Option<String>, new: String) -> bool {
    match field {
        Some(t) => new@ == trim_spec(t@),
        None => new == old,
    }
}

/// `new` is `old` with `patch` applied at time `now`: given fields replaced,
/// identity, events and times of creation and promotion kept.
pub open spec fn is_updated(old: Surface, patch: SurfacePatch, now: String, new: Surface) -> bool {
    &&& new.id == old.id
    &&& replaced_text(old.title, patch.title, new.title)
    &&& replaced_text(old.purpose, patch.purpose, new.purpose)
    &&& replaced_text(old.medium, patch.medium, new.medium)
    &&& new.ephemeral == match patch.ephemeral {
        Some(e) => e,
        None => old.ephemeral,
    }
    &&& new.promotion == match patch.promotion {
        Some(p) => p,
        None => old.promotion,
    }
    &&& new.cards == match patch.cards {
        Some(c) => c,
        None => old.cards,
    }
    &&& new.events == old.events
    &&& new.created_at == old.created_at
    &&& new.promoted_at == old.promoted_at
    &&& new.updated_at == now
}

fn replace_text(old: String, field: Option<String>, key: &str) -> (res: Result<String, String>)
    ensures
        res is Err <==> blank_given(field),
        res matches Err(e) ==> e@ == required_message(key@),
        res matches Ok(v) ==> replaced_text(old, field, v),
{
    match field {
        Some(t) => required_non_empty(t, key),
        None => Ok(old),
    }
}

/// Replaces the fields that `patch` gives, without changing the surface's
/// identity; a given title, purpose or medium must not be blank.
pub fn update_surface(surface: Surface, patch: SurfacePatch, now: String) -> (res: Result<
    Surface,
    String,
>)
    ensures
        res is Err <==> update_error(patch) is Some,
        res matches Err(e) ==> e@ == update_error(patch)->Some_0,
        res matches Ok(s) ==> is_updated(surface, patch, now, s),
{
    let SurfacePatch { id: _, title, purpose, medium, ephemeral, promotion, cards } = patch;
    let Surface {
        id: sid,
        title: old_title,
        purpose: old_purpose,
        medium: old_medium,
        ephemeral: old_ephemeral,
        promotion: old_promotion,
        cards: old_cards,
        events,
        created_at,
        updated_at: _,
        promoted_at,
    } = surface;
    let title = replace_text(old_title, title, "title")?;
    let purpose = replace_text(old_purpose, purpose, "purpose")?;
    let medium = replace_text(old_medium, medium, "medium")?;
    let ephemeral = match ephemeral {
        Some(e) => e,
        None => old_ephemeral,
    };
    let promotion = match promotion {
        Some(x) => x,
        None => old_promotion,
    };
    let cards = match cards {
        Some(c) => c,
        None => old_cards,
    };
    Ok(
        Surface {
            id: sid,
            title,
            purpose,
            medium,
            ephemeral,
            promotion,
            cards,
            events,
            created_at,
            updated_at: now,
            promoted_at,
        },
    )
}

// ---------------------------------------------------------------------------
// Feedback events
// ---------------------------------------------------------------------------

/// The error for an event without a kind.
pub open spec fn event_kind_message() -> Seq<char> {
    "event kind is required"@
}

/// `new` is `old` with one event appended, made from `input` with identifier
/// `event_id` at `event_time`, and updated at `updated_at`.
pub open spec fn is_event_recorded(
    old: Surface,
    input: EventInput,
    event_id: String,
    event_time: String,
    updated_at: String,
    new: Surface,
) -> bool {
    &&& new.events@ == old.events@.push(
        SurfaceEvent {
            id: event_id,
            kind: input.kind,
            target: input.target,
            value: input.value,
            note: input.note,
            created_at: event_time,
        },
    )
    &&& new.id == old.id
    &&& new.title == old.title
    &&& new.purpose == old.purpose
    &&& new.medium == old.medium
    &&& new.ephemeral == old.ephemeral
    &&& new.promotion == old.promotion
    &&& new.cards == old.cards
    &&& new.created_at == old.created_at
    &&& new.promoted_at == old.promoted_at
    &&& new.updated_at == updated_at
}

/// Appends a feedback event; the event's kind must not be blank.
pub fn record_event(
    surface: Surface,
    input: EventInput,
    event_id: String,
    event_time: String,
    updated_at: String,
) -> (res: Result<Surface, String>)
    ensures
        res is Err <==> is_blank(input.kind@),
        res matches Err(e) ==> e@ == event_kind_message(),
        res matches Ok(s) ==> is_event_recorded(surface, input, event_id, event_time, updated_at, s),
{
    let trimmed = crate::text::trim(input.kind.as_str());
    if trimmed.as_str().is_empty() {
        return Err(String::from_str("event kind is required"));
    }
    let EventInput { id: _, kind, target, value, note } = input;
    let event = SurfaceEvent { id: event_id, kind, target, value, note, created_at: event_time };
    let mut surface = surface;
    surface.events.push(event);
    surface.updated_at = updated_at;
    Ok(surface)
}

// ---------------------------------------------------------------------------
// Promoting
// ---------------------------------------------------------------------------

/// `new` is `old` marked as durable project material at `promoted_at`, with
/// its promotion note replaced by `note` when one is given.
pub open spec fn is_promoted(
    old: Surface,
    note: Option<String>,
    promoted_at: String,
    updated_at: String,
    new: Surface,
) -> bool {
    &&& !new.ephemeral
    &&& new.promoted_at == Some(promoted_at)
    &&& new.promotion == match note {
        Some(n) => n,
        None => old.promotion,
    }
    &&& new.id == old.id
    &&& new.title == old.title
    &&& new.purpose == old.purpose
    &&& new.medium == old.medium
    &&& new.cards == old.cards
    &&& new.events == old.events
    &&& new.created_at == old.created_at
    &&& new.updated_at == updated_at
}

/// Marks a surface as durable project material.
pub fn promote_surface(
    surface: Surface,
    note: Option<String>,
    promoted_at: String,
    updated_at: String,
) -> (res: Surface)
    ensures
        is_promoted(surface, note, promoted_at, updated_at, res),
{
    let mut surface = surface;
    surface.ephemeral = false;
    surface.promoted_at = Some(promoted_at);
    match note {
        Some(n) => {
            surface.promotion = n;
        },
        None => {},
    }
    surface.updated_at = updated_at;
    surface
}

// ---------------------------------------------------------------------------
// Summaries
// ---------------------------------------------------------------------------

/// Where the HTML view of surface `id` is written, relative to the workspace.
pub open spec fn viewer_path_spec(id: Seq<char>) -> Seq<char> {
    ".canmore-medium/surfaces/"@ + id + ".html"@
}

/// `r` is the summary of `s`: compact, with cards and promotion note only
/// when `include_spec`, and events only when `include_events`.
pub open spec fn is_summary_of(s: Surface, include_spec: bool, include_events: bool, r: SurfaceSummary) -> bool {
    &&& r.id == s.id
    &&& r.title == s.title
    &&& r.purpose == s.purpose
    &&& r.medium == s.medium
    &&& r.ephemeral == s.ephemeral
    &&& r.promoted == (s.promoted_at is Some)
    &&& r.card_count == s.cards@.len()
    &&& r.event_count == s.events@.len()
    &&& r.updated_at == s.updated_at
    &&& r.viewer_path@ == viewer_path_spec(s.id@)
    &&& (r.cards is Some <==> include_spec)
    &&& (r.cards matches Some(c) ==> c@ == s.cards@)
    &&& (r.promotion is Some <==> include_spec)
    &&& (r.promotion matches Some(p) ==> p == s.promotion)
    &&& (r.events is Some <==> include_events)
    &&& (r.events matches Some(e) ==> e@ == s.events@)
}

/// The summary of a surface that tools answer with.
pub fn surface_response(surface: &Surface, include_spec: bool, include_events: bool) -> (res:
    SurfaceSummary)
    ensures
        is_summary_of(*surface, include_spec, include_events, res),
{
    let mut viewer_path = String::new();
    push_str(&mut viewer_path, ".canmore-medium/surfaces/");
    push_str(&mut viewer_path, surface.id.as_str());
    push_str(&mut viewer_path, ".html");
    assert(viewer_path@ =~= viewer_path_spec(surface.id@));
    let cards = if include_spec {
        Some(copy_cards(&surface.cards))
    } else {
        None
    };
    let promotion = if include_spec {
        Some(surface.promotion.clone())
    } else {
        None
    };
    let events = if include_events {
        Some(copy_events(&surface.events))
    } else {
        None
    };
    SurfaceSummary {
        id: surface.id.clone(),
        title: surface.title.clone(),
        purpose: surface.purpose.clone(),
        medium: surface.medium.clone(),
        ephemeral: surface.ephemeral,
        promoted: surface.promoted_at.is_some(),
        card_count: surface.cards.len(),
        event_count: surface.events.len(),
        updated_at: surface.updated_at.clone(),
        viewer_path,
        cards,
        promotion,
        events,
    }
}

// ---------------------------------------------------------------------------
// Laws of the lifecycle
// ---------------------------------------------------------------------------

/// Once promoted, a surface stays promoted and durable through later
/// updates that do not make it ephemeral again, and through feedback events.
pub proof fn lemma_promotion_survives(
    old: Surface,
    patch: SurfacePatch,
    now: String,
    updated: Surface,
    input: EventInput,
    event_id: String,
    event_time: String,
    later: String,
    recorded: Surface,
)
    requires
        old.promoted_at is Some,
        !old.ephemeral,
        is_updated(old, patch, now, updated),
        !(patch.ephemeral == Some(true)),
        is_event_recorded(updated, input, event_id, event_time, later, recorded),
    ensures
        recorded.promoted_at == old.promoted_at,
        !recorded.ephemeral,
{
}

/// Recording an event adds exactly one to the event count of the summary and
/// keeps the count of cards; earlier events stay where they were.
pub proof fn lemma_event_count_grows(
    old: Surface,
    input: EventInput,
    event_id: String,
    event_time: String,
    updated_at: String,
    new: Surface,
    a: bool,
    b: bool,
    before: SurfaceSummary,
    c: bool,
    d: bool,
    after: SurfaceSummary,
)
    requires
        is_event_recorded(old, input, event_id, event_time, updated_at, new),
        is_summary_of(old, a, b, before),
        is_summary_of(new, c, d, after),
    ensures
        after.event_count == before.event_count + 1,
        after.card_count == before.card_count,
        forall|k: int| 0 <= k < old.events@.len() ==> #[trigger] new.events@[k] == old.events@[k],
{
}

/// A surface just created summarises as not promoted, with no events and
/// as many cards as it was given.
pub proof fn lemma_created_summary(
    input: SurfaceInput,
    id: String,
    now: String,
    s: Surface,
    a: bool,
    b: bool,
    r: SurfaceSummary,
)
    requires
        is_created(input, id, now, s),
        is_summary_of(s, a, b, r),
    ensures
        !r.promoted,
        r.event_count == 0,
        r.card_count == input.cards@.len(),
        r.ephemeral == input.ephemeral,
        r.id == id,
{
}

} // verus!
