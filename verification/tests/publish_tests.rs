use geolite_db::fetch::{Kind, UpdateConfig};
use geolite_db::publish::{Action, UpdateCycle};

const ALL: UpdateConfig = UpdateConfig { asn: true, cities: true, frozen: false };
const MINIMAL: UpdateConfig = UpdateConfig { asn: false, cities: false, frozen: false };

#[test]
fn successful_cycle_runs_all_steps_in_order() {
    let mut m = UpdateCycle::start(ALL, 1_700_000_000);
    assert_eq!(m.pending(), Some(Action::CheckFreshness));
    m.observe_freshness(true);
    assert_eq!(m.pending(), Some(Action::WriteInProgressMarker));
    m.observe(true);
    assert_eq!(m.pending(), Some(Action::FetchAll));
    m.observe(true);
    assert_eq!(m.pending(), Some(Action::CopyArtifact(Kind::Asn)));
    m.observe(true);
    assert_eq!(m.pending(), Some(Action::CopyArtifact(Kind::Cities)));
    m.observe(true);
    assert_eq!(m.pending(), Some(Action::CopyArtifact(Kind::Countries)));
    m.observe(true);
    assert_eq!(m.pending(), Some(Action::CopyArtifact(Kind::IsoCsv)));
    m.observe(true);
    assert_eq!(m.pending(), Some(Action::CommitMarker));
    m.observe(true);
    assert_eq!(m.pending(), Some(Action::RemoveScratch));
    m.observe(true);
    assert_eq!(m.pending(), None);
    assert_eq!(m.outcome_message(), Some("updated".to_string()));
}

#[test]
fn minimal_plan_copies_two_artifacts() {
    let mut m = UpdateCycle::start(MINIMAL, 7);
    m.observe_freshness(true);
    m.observe(true); // marker written
    m.observe(true); // fetched
    assert_eq!(m.pending(), Some(Action::CopyArtifact(Kind::Countries)));
    m.observe(true);
    assert_eq!(m.pending(), Some(Action::CopyArtifact(Kind::IsoCsv)));
    m.observe(true);
    assert_eq!(m.pending(), Some(Action::CommitMarker));
}

#[test]
fn fresh_snapshot_ends_cycle_with_nothing_done() {
    let mut m = UpdateCycle::start(ALL, 42);
    assert_eq!(m.pending(), Some(Action::CheckFreshness));
    m.observe_freshness(false);
    assert_eq!(m.pending(), None);
    assert_eq!(m.outcome_message(), Some("nochange".to_string()));
}

#[test]
fn failed_copy_stops_the_cycle() {
    let mut m = UpdateCycle::start(ALL, 42);
    m.observe_freshness(true);
    m.observe(true); // marker written
    m.observe(true); // fetched
    assert_eq!(m.pending(), Some(Action::CopyArtifact(Kind::Asn)));
    m.observe(false); // the copy failed: no commit, no further action
    assert_eq!(m.pending(), None);
    assert_eq!(m.outcome_message(), Some("error".to_string()));
}

#[test]
fn failed_fetch_stops_the_cycle() {
    let mut m = UpdateCycle::start(MINIMAL, 42);
    m.observe_freshness(true);
    m.observe(true);
    assert_eq!(m.pending(), Some(Action::FetchAll));
    m.observe(false);
    assert_eq!(m.pending(), None);
    assert_eq!(m.outcome_message(), Some("error".to_string()));
}

#[test]
fn no_outcome_while_running() {
    let mut m = UpdateCycle::start(MINIMAL, 42);
    assert_eq!(m.outcome_message(), None);
    m.observe_freshness(true);
    assert_eq!(m.outcome_message(), None);
}
