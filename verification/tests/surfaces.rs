use canmore::fields::{default_ephemeral, required_non_empty, required_string};
use canmore::listing::{has_json_extension, list_limit, list_recent};
use canmore::surface::{
    create_surface, promote_surface, record_event, surface_response, update_surface, Card,
    EventInput, Surface, SurfaceInput, SurfacePatch, DEFAULT_PROMOTION,
};

fn card(kind: &str, title: &str, body: &str, value: Option<i64>) -> Card {
    Card {
        id: None,
        kind: kind.into(),
        title: title.into(),
        body: body.into(),
        value,
    }
}

fn input(title: &str, purpose: &str, medium: &str, cards: Vec<Card>) -> SurfaceInput {
    SurfaceInput {
        title: title.into(),
        purpose: purpose.into(),
        medium: medium.into(),
        ephemeral: true,
        promotion: None,
        cards,
    }
}

fn event(kind: &str, target: Option<&str>) -> EventInput {
    EventInput {
        id: "surface_1_1".into(),
        kind: kind.into(),
        target: target.map(|t| t.to_string()),
        value: None,
        note: None,
    }
}

fn sample() -> Surface {
    create_surface(
        input("Decision", "Use a visual medium.", "matrix", vec![card("matrix", "Options", "Compare directly.", None)]),
        "surface_1_1".into(),
        "100".into(),
    )
    .unwrap()
}

#[test]
fn surface_lifecycle_is_compact_until_full_read() {
    let created = sample();
    let summary = surface_response(&created, false, false);
    assert_eq!(summary.card_count, 1);
    assert!(summary.cards.is_none());

    let surface = record_event(
        created,
        event("selected variant", Some("Options")),
        "event_1_2".into(),
        "101".into(),
        "102".into(),
    )
    .unwrap();
    let compact = surface_response(&surface, false, false);
    let full = surface_response(&surface, true, true);
    assert_eq!(compact.event_count, 1);
    assert!(compact.events.is_none());
    assert_eq!(full.cards.as_ref().unwrap().len(), 1);
    assert_eq!(full.events.as_ref().unwrap().len(), 1);
    assert_eq!(full.viewer_path, ".canmore-medium/surfaces/surface_1_1.html");
}

#[test]
fn surfaces_reject_blank_identity_fields() {
    let error = match create_surface(input("Decision", "Purpose", " ", Vec::new()), "s".into(), "1".into()) {
        Ok(_) => panic!("blank medium accepted"),
        Err(e) => e,
    };
    assert_eq!(error, "medium is required");
}

#[test]
fn create_checks_title_then_purpose_then_medium() {
    let e = create_surface(input(" \t", "", "", Vec::new()), "s".into(), "1".into()).err().unwrap();
    assert_eq!(e, "title is required");
    let e = create_surface(input("T", "\n", "", Vec::new()), "s".into(), "1".into()).err().unwrap();
    assert_eq!(e, "purpose is required");
}

#[test]
fn create_trims_and_defaults() {
    let s = create_surface(input("  Board \n", " Why ", " grid ", Vec::new()), "s_1".into(), "7".into()).unwrap();
    assert_eq!(s.title, "Board");
    assert_eq!(s.purpose, "Why");
    assert_eq!(s.medium, "grid");
    assert_eq!(s.promotion, DEFAULT_PROMOTION);
    assert_eq!(s.created_at, "7");
    assert_eq!(s.updated_at, "7");
    assert!(s.ephemeral);
    assert!(s.events.is_empty());
    assert!(s.promoted_at.is_none());
}

#[test]
fn update_replaces_fields_but_not_identity() {
    let s = record_event(sample(), event("note", None), "e".into(), "101".into(), "102".into()).unwrap();
    let patch = SurfacePatch {
        id: "ignored".into(),
        title: Some(" New title ".into()),
        purpose: None,
        medium: None,
        ephemeral: Some(false),
        promotion: Some(" keep spaces ".into()),
        cards: Some(Vec::new()),
    };
    let u = update_surface(s, patch, "200".into()).unwrap();
    assert_eq!(u.id, "surface_1_1");
    assert_eq!(u.title, "New title");
    assert_eq!(u.purpose, "Use a visual medium.");
    assert!(!u.ephemeral);
    assert_eq!(u.promotion, " keep spaces ");
    assert!(u.cards.is_empty());
    assert_eq!(u.events.len(), 1);
    assert_eq!(u.created_at, "100");
    assert_eq!(u.updated_at, "200");
}

#[test]
fn update_refuses_blank_replacement() {
    let patch = SurfacePatch {
        id: "x".into(),
        title: None,
        purpose: Some("   ".into()),
        medium: Some("".into()),
        ephemeral: None,
        promotion: None,
        cards: None,
    };
    let e = update_surface(sample(), patch, "2".into()).err().unwrap();
    assert_eq!(e, "purpose is required");
}

#[test]
fn events_append_and_require_a_kind() {
    let e = record_event(sample(), event(" ", None), "e".into(), "1".into(), "2".into()).err().unwrap();
    assert_eq!(e, "event kind is required");
    let s = record_event(sample(), event("click", Some("a")), "e1".into(), "1".into(), "2".into()).unwrap();
    let s = record_event(s, event("note", None), "e2".into(), "3".into(), "4".into()).unwrap();
    assert_eq!(s.events.len(), 2);
    assert_eq!(s.events[0].id, "e1");
    assert_eq!(s.events[1].kind, "note");
    assert_eq!(s.events[1].created_at, "3");
    assert_eq!(s.updated_at, "4");
}

#[test]
fn promotion_marks_durable_and_survives_events() {
    let p = promote_surface(sample(), Some("Project material.".into()), "300".into(), "301".into());
    assert!(!p.ephemeral);
    assert_eq!(p.promoted_at.as_deref(), Some("300"));
    assert_eq!(p.promotion, "Project material.");
    let r = surface_response(&p, true, true);
    assert!(r.promoted);
    assert_eq!(r.promotion.as_deref(), Some("Project material."));
    let later = record_event(p, event("note", None), "e".into(), "400".into(), "401".into()).unwrap();
    assert!(surface_response(&later, false, false).promoted);
    let kept = promote_surface(sample(), None, "1".into(), "2".into());
    assert_eq!(kept.promotion, DEFAULT_PROMOTION);
}

#[test]
fn required_fields() {
    assert_eq!(required_non_empty("  x y ".into(), "title").unwrap(), "x y");
    assert_eq!(required_non_empty("\u{3000}".into(), "medium").err().unwrap(), "medium is required");
    assert_eq!(required_string(Some(" id "), "id").unwrap(), " id ");
    assert_eq!(required_string(Some("  "), "id").err().unwrap(), "missing id");
    assert_eq!(required_string(None, "surface_id").err().unwrap(), "missing surface_id");
    assert!(default_ephemeral());
}

fn stamped(id: &str, updated_at: &str) -> canmore::surface::SurfaceSummary {
    let mut s = create_surface(input("T", "P", "M", Vec::new()), id.into(), "0".into()).unwrap();
    s.updated_at = updated_at.into();
    surface_response(&s, false, false)
}

#[test]
fn listing_is_newest_first_and_limited() {
    let list = vec![
        stamped("a", "100"),
        stamped("b", "300"),
        stamped("c", "200"),
        stamped("d", "300"),
        stamped("e", "99"),
    ];
    let ids: Vec<String> = list_recent(list, 10).into_iter().map(|s| s.id).collect();
    // string order: "99" sorts after "300"
    assert_eq!(ids, vec!["e", "b", "d", "c", "a"]);
    let list = vec![stamped("a", "1"), stamped("b", "3"), stamped("c", "2")];
    let ids: Vec<String> = list_recent(list, 2).into_iter().map(|s| s.id).collect();
    assert_eq!(ids, vec!["b", "c"]);
    assert!(list_recent(Vec::new(), 5).is_empty());
}

#[test]
fn list_limits() {
    assert_eq!(list_limit(None), 20);
    assert_eq!(list_limit(Some(7)), 7);
    assert_eq!(list_limit(Some(1000)), 100);
    assert_eq!(list_limit(Some(0)), 0);
}

#[test]
fn json_files_are_recognised() {
    assert!(has_json_extension("surface_1_2.json"));
    assert!(has_json_extension("a.b.json"));
    assert!(has_json_extension(".x.json"));
    assert!(!has_json_extension(".json"));
    assert!(!has_json_extension("surface.html"));
    assert!(!has_json_extension("json"));
    assert!(!has_json_extension("a.jsonl"));
}
