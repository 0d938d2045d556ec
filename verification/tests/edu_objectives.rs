use vibe_gba::edu::{EduSnapshot, EduTracker};

const SUMMARY: &str = "FIELD map layout=08000000 events=08000000 scripts=08000000 conns=08000000 music=0000 layoutId=0011 region=0 cave=0 weather=0 type=0 battle=0\nSAVE save1=02025734 route101=3 birch_lab=3 starter=1\nPARTY count=1 species=280 level=5 hp=20/20 checksum=1234\nSAVE_FLAGS pokemon_get=true rescued_birch=true hide_bag=true hide_zigzagoon=true hide_lab_birch=false route101_boy=false hide_may_1f=false hide_may_2f=false hide_may_ball=false";

#[test]
fn parses_emerald_debug_summary() {
    let snapshot = EduSnapshot::from_debug_summary(SUMMARY, 123);
    assert_eq!(snapshot.frame, 123);
    assert_eq!(snapshot.layout_id, Some(0x0011));
    assert_eq!(snapshot.party_count, Some(1));
    assert_eq!(snapshot.party_species, Some(280));
    assert_eq!(snapshot.starter_var, Some(1));
    assert_eq!(snapshot.pokemon_get, Some(true));
    assert_eq!(snapshot.rescued_birch, Some(true));
}

#[test]
fn completes_matching_objectives_once() {
    let snapshot = EduSnapshot::from_debug_summary(SUMMARY, 456);
    let mut tracker = EduTracker::emerald_onboarding();
    let completed = tracker.update(&snapshot);
    let ids: Vec<_> = completed.iter().map(|objective| objective.id).collect();
    assert_eq!(ids, vec!["route101", "rescue_birch", "starter_acquired"]);
    assert!(tracker.update(&snapshot).is_empty());
    assert_eq!(tracker.objectives()[2].completed_at, Some(456));
}

#[test]
fn leaves_unknown_or_missing_fields_pending() {
    let snapshot = EduSnapshot::from_debug_summary("FIELD map layoutId=000a\n", 7);
    let mut tracker = EduTracker::emerald_onboarding();
    let completed = tracker.update(&snapshot);
    assert_eq!(completed.len(), 1);
    assert_eq!(completed[0].id, "littleroot");
    assert!(tracker.objectives()[4].completed_at.is_none());
}
