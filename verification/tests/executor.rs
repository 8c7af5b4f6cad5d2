use nicky::executor::{Action, Event, Outcome, Phase, Run};
use nicky::roster::{Member, Role, Snapshot};
use nicky::selector::{Selector, Token};
use nicky::transform::Transform;

const DONE: char = '\u{2588}';
const PENDING: char = '\u{2591}';

fn bar_of(filled: usize) -> String {
    let mut out = String::new();
    for i in 0..12 {
        out.push(if i < filled { DONE } else { PENDING });
    }
    out
}

fn member(id: u64, name: &str, roles: &[u64]) -> Member {
    Member { id, display_name: name.to_string(), roles: roles.to_vec() }
}

fn three_members() -> Vec<Member> {
    vec![member(1, "Ada", &[]), member(2, "Bob", &[]), member(3, "Cy", &[])]
}

fn is_post(action: &Action, text: &str) -> bool {
    matches!(action, Action::Post(found) if found == text)
}

fn is_edit(action: &Action, text: &str) -> bool {
    matches!(action, Action::Edit(found) if found == text)
}

fn is_rename(action: &Action, at: usize, id: u64, name: &str) -> bool {
    matches!(action, Action::Rename { position, member, name: found }
        if *position == at && *member == id && found == name)
}

fn renamed(position: usize, ok: bool) -> Event {
    Event::Renamed { position, ok }
}

/// A run that has been opened and is waiting for its targets.
fn opened() -> Run {
    let mut run = Run::new();
    assert!(is_post(&run.step(Event::Start), "Loading..."));
    assert!(is_edit(&run.step(Event::Posted(true)), "Retrieving members..."));
    assert!(matches!(run.step(Event::Edited(true)), Action::Resolve));
    assert_eq!(run.phase(), Phase::Resolving);
    run
}

/// What a remote service that refuses the members in `refused` makes of a
/// run, with one rename under way at a time.
fn drive(
    targets: Vec<Member>,
    transform: &Transform,
    refused: &[u64],
) -> (Outcome, Vec<(u64, String)>, Vec<String>) {
    let mut run = Run::new();
    let mut renamed_to: Vec<(u64, String)> = Vec::new();
    let mut shown: Vec<String> = Vec::new();
    let mut pending = Some(targets);
    let mut action = run.step(Event::Start);
    loop {
        let event = match action {
            Action::Post(text) => {
                shown.push(text);
                Event::Posted(true)
            }
            Action::Edit(text) => {
                shown.push(text);
                Event::Edited(true)
            }
            Action::Resolve => Event::Resolved(pending.take().expect("asked once")),
            Action::Rename { position, member, name } => {
                if refused.contains(&member) {
                    renamed(position, false)
                } else {
                    renamed_to.push((member, transform.rename(&name).expect("a valid transform")));
                    renamed(position, true)
                }
            }
            Action::Stop => break,
            Action::Abort => panic!("the run was opened"),
            Action::Nothing => panic!("every event was awaited"),
        };
        action = run.step(event);
    }
    assert!(run.is_finished());
    (run.outcome(), renamed_to, shown)
}

#[test]
fn end_to_end_prepend_to_a_role() {
    let mut snapshot = Snapshot::new();
    assert!(snapshot.add_role(Role { id: 20, name: "Mod".to_string() }));
    assert!(snapshot.add_member(member(1, "A", &[20])));
    assert!(snapshot.add_member(member(2, "B", &[20])));
    assert!(snapshot.add_member(member(3, "C", &[])));
    let selector = Selector::Include(vec![Token::parse("Mod")]);
    let targets = selector.select(&snapshot);
    assert_eq!(targets.iter().map(|m| m.id).collect::<Vec<u64>>(), vec![1, 2]);
    let (outcome, renamed_to, shown) = drive(targets, &Transform::prepend("[Mod] "), &[]);
    assert_eq!(renamed_to, vec![(1, "[Mod] A".to_string()), (2, "[Mod] B".to_string())]);
    assert_eq!(outcome, Outcome { succeeded: 2, failed: 0, cancelled: false });
    assert_eq!(
        shown,
        vec![
            "Loading...".to_string(),
            "Retrieving members...".to_string(),
            format!(". Nicknaming... {} 50% / A", bar_of(6)),
            format!("\\ Nicknaming... {} 100% / B", bar_of(12)),
            "Done!".to_string(),
        ]
    );
}

#[test]
fn a_failure_is_reported_and_the_run_goes_on() {
    let (outcome, renamed_to, shown) = drive(three_members(), &Transform::append("!"), &[2]);
    assert_eq!(renamed_to, vec![(1, "Ada!".to_string()), (3, "Cy!".to_string())]);
    assert_eq!(outcome, Outcome { succeeded: 2, failed: 1, cancelled: false });
    assert_eq!(outcome.succeeded + outcome.failed, 3);
    assert_eq!(
        shown[3],
        format!(
            "\\ Nicknaming... {} 67% / Perhaps I don't have permission to rename **Bob**?",
            bar_of(8)
        )
    );
    assert_eq!(shown[4], format!("/ Nicknaming... {} 100% / Cy", bar_of(12)));
    assert_eq!(shown.last().map(|s| s.as_str()), Some("Done!"));
}

#[test]
fn every_failure_still_ends_in_done() {
    let (outcome, renamed_to, shown) = drive(three_members(), &Transform::reset(), &[1, 2, 3]);
    assert!(renamed_to.is_empty());
    assert_eq!(outcome, Outcome { succeeded: 0, failed: 3, cancelled: false });
    assert_eq!(shown.last().map(|s| s.as_str()), Some("Done!"));
}

#[test]
fn no_targets_still_ends_in_done() {
    let (outcome, renamed_to, shown) = drive(Vec::new(), &Transform::reset(), &[]);
    assert!(renamed_to.is_empty());
    assert_eq!(outcome, Outcome { succeeded: 0, failed: 0, cancelled: false });
    assert_eq!(
        shown,
        vec!["Loading...".to_string(), "Retrieving members...".to_string(), "Done!".to_string()]
    );
}

#[test]
fn a_status_that_cannot_be_posted_aborts() {
    let mut run = Run::new();
    assert_eq!(run.phase(), Phase::Idle);
    assert!(is_post(&run.step(Event::Start), "Loading..."));
    assert_eq!(run.phase(), Phase::Opening);
    assert!(matches!(run.step(Event::Posted(false)), Action::Abort));
    assert!(run.is_finished());
    assert_eq!(run.outcome(), Outcome { succeeded: 0, failed: 0, cancelled: false });
    assert!(matches!(run.step(Event::Start), Action::Nothing));
}

#[test]
fn a_failed_announcement_does_not_stop_the_run() {
    let mut run = Run::new();
    run.step(Event::Start);
    run.step(Event::Posted(true));
    assert_eq!(run.phase(), Phase::Announcing);
    assert!(matches!(run.step(Event::Edited(false)), Action::Resolve));
    assert!(is_rename(&run.step(Event::Resolved(three_members())), 0, 1, "Ada"));
    assert_eq!(run.phase(), Phase::Renaming);
}

#[test]
fn a_failed_status_edit_cancels_before_the_next_member() {
    let mut run = opened();
    assert!(is_rename(&run.step(Event::Resolved(three_members())), 0, 1, "Ada"));
    assert!(matches!(run.step(renamed(0, true)), Action::Edit(_)));
    assert_eq!(run.phase(), Phase::Reporting);
    assert!(is_rename(&run.step(Event::Edited(true)), 1, 2, "Bob"));
    assert!(matches!(run.step(renamed(1, false)), Action::Edit(_)));
    // The status message is gone: no further rename is asked for.
    assert!(is_edit(&run.step(Event::Edited(false)), "Done!"));
    assert_eq!(run.phase(), Phase::Closing);
    assert!(matches!(run.step(Event::Edited(false)), Action::Stop));
    assert!(run.is_finished());
    let outcome = run.outcome();
    assert_eq!(outcome, Outcome { succeeded: 1, failed: 1, cancelled: true });
    assert!(outcome.succeeded + outcome.failed <= 3);
}

#[test]
fn a_request_to_cancel_is_seen_between_members() {
    let mut run = opened();
    assert!(is_rename(&run.step(Event::Resolved(three_members())), 0, 1, "Ada"));
    run.cancel();
    // The rename under way is still counted and reported.
    assert!(matches!(run.step(renamed(0, true)), Action::Edit(_)));
    assert!(is_edit(&run.step(Event::Edited(true)), "Done!"));
    assert!(matches!(run.step(Event::Edited(true)), Action::Stop));
    assert_eq!(run.outcome(), Outcome { succeeded: 1, failed: 0, cancelled: true });
}

#[test]
fn a_request_to_cancel_before_the_targets_renames_no_one() {
    let mut run = opened();
    run.cancel();
    assert!(is_edit(&run.step(Event::Resolved(three_members())), "Done!"));
    assert!(matches!(run.step(Event::Edited(true)), Action::Stop));
    assert_eq!(run.outcome(), Outcome { succeeded: 0, failed: 0, cancelled: true });
}

#[test]
fn a_cancellation_after_the_last_member_cancels_nothing() {
    let mut run = opened();
    assert!(is_rename(&run.step(Event::Resolved(vec![member(1, "Ada", &[])])), 0, 1, "Ada"));
    assert!(matches!(run.step(renamed(0, true)), Action::Edit(_)));
    assert!(is_edit(&run.step(Event::Edited(false)), "Done!"));
    assert!(matches!(run.step(Event::Edited(true)), Action::Stop));
    assert_eq!(run.outcome(), Outcome { succeeded: 1, failed: 0, cancelled: false });
}

#[test]
fn events_that_are_not_awaited_change_nothing() {
    let mut run = Run::new();
    assert!(matches!(run.step(renamed(0, true)), Action::Nothing));
    assert!(matches!(run.step(Event::Ready), Action::Nothing));
    assert!(matches!(run.step(Event::Edited(true)), Action::Nothing));
    assert!(matches!(run.step(Event::Resolved(three_members())), Action::Nothing));
    assert_eq!(run.phase(), Phase::Idle);
    let mut run = opened();
    assert!(matches!(run.step(Event::Start), Action::Nothing));
    assert!(matches!(run.step(renamed(0, true)), Action::Nothing));
    assert_eq!(run.phase(), Phase::Resolving);
    assert!(is_rename(&run.step(Event::Resolved(three_members())), 0, 1, "Ada"));
    assert!(matches!(run.step(Event::Edited(true)), Action::Nothing));
    assert!(matches!(run.step(Event::Resolved(three_members())), Action::Nothing));
    // A report for a target that was never handed out is not counted.
    assert!(matches!(run.step(renamed(1, true)), Action::Nothing));
    assert!(matches!(run.step(renamed(7, false)), Action::Nothing));
    assert_eq!(run.outcome(), Outcome { succeeded: 0, failed: 0, cancelled: false });
    assert_eq!(run.phase(), Phase::Renaming);
}

#[test]
fn the_counts_add_up_for_every_pattern_of_failures() {
    for mask in 0..32u32 {
        let targets: Vec<Member> = (0..5).map(|i| member(i, "m", &[])).collect();
        let refused: Vec<u64> = (0..5).filter(|i| mask & (1 << i) != 0).collect();
        let (outcome, renamed_to, _) = drive(targets, &Transform::set("x"), &refused);
        assert_eq!(outcome.failed, refused.len());
        assert_eq!(outcome.succeeded, renamed_to.len());
        assert_eq!(outcome.succeeded + outcome.failed, 5);
        assert!(!outcome.cancelled);
    }
}

#[test]
fn several_renames_can_be_under_way() {
    let mut run = opened();
    assert!(is_rename(&run.step(Event::Resolved(three_members())), 0, 1, "Ada"));
    assert!(is_rename(&run.step(Event::Ready), 1, 2, "Bob"));
    assert!(is_rename(&run.step(Event::Ready), 2, 3, "Cy"));
    // Every member is handed out: a free worker gets nothing.
    assert!(matches!(run.step(Event::Ready), Action::Nothing));
    // The reports come in as the renames end, in any order.
    assert!(is_edit(
        &run.step(renamed(2, true)),
        &format!(". Nicknaming... {} 33% / Cy", bar_of(4))
    ));
    // While a status is being shown, nothing else is taken in.
    assert!(matches!(run.step(renamed(0, true)), Action::Nothing));
    assert!(matches!(run.step(Event::Ready), Action::Nothing));
    assert!(matches!(run.step(Event::Edited(true)), Action::Nothing));
    assert_eq!(run.phase(), Phase::Renaming);
    assert!(is_edit(
        &run.step(renamed(0, false)),
        &format!(
            "\\ Nicknaming... {} 67% / Perhaps I don't have permission to rename **Ada**?",
            bar_of(8)
        )
    ));
    assert!(matches!(run.step(Event::Edited(true)), Action::Nothing));
    assert!(is_edit(
        &run.step(renamed(1, true)),
        &format!("/ Nicknaming... {} 100% / Bob", bar_of(12))
    ));
    assert!(is_edit(&run.step(Event::Edited(true)), "Done!"));
    assert!(matches!(run.step(Event::Edited(true)), Action::Stop));
    assert_eq!(run.outcome(), Outcome { succeeded: 2, failed: 1, cancelled: false });
}

#[test]
fn renames_under_way_end_after_a_cancellation() {
    let targets: Vec<Member> = (0..5).map(|i| member(i, "m", &[])).collect();
    let mut run = opened();
    assert!(is_rename(&run.step(Event::Resolved(targets)), 0, 0, "m"));
    assert!(is_rename(&run.step(Event::Ready), 1, 1, "m"));
    assert!(is_rename(&run.step(Event::Ready), 2, 2, "m"));
    assert!(matches!(run.step(renamed(1, true)), Action::Edit(_)));
    // The status message is gone: the two renames under way are waited for,
    // and no other is handed out.
    assert!(matches!(run.step(Event::Edited(false)), Action::Nothing));
    assert!(matches!(run.step(Event::Ready), Action::Nothing));
    assert!(matches!(run.step(renamed(0, true)), Action::Edit(_)));
    assert!(matches!(run.step(Event::Edited(true)), Action::Nothing));
    assert!(matches!(run.step(Event::Ready), Action::Nothing));
    assert!(matches!(run.step(renamed(2, false)), Action::Edit(_)));
    assert!(is_edit(&run.step(Event::Edited(true)), "Done!"));
    assert!(matches!(run.step(Event::Edited(true)), Action::Stop));
    let outcome = run.outcome();
    assert_eq!(outcome, Outcome { succeeded: 2, failed: 1, cancelled: true });
    assert!(outcome.succeeded + outcome.failed < 5);
}

#[test]
fn no_more_reports_are_counted_than_renames_were_handed_out() {
    let mut run = opened();
    assert!(is_rename(&run.step(Event::Resolved(three_members())), 0, 1, "Ada"));
    assert!(matches!(run.step(renamed(0, true)), Action::Edit(_)));
    assert!(is_rename(&run.step(Event::Edited(true)), 1, 2, "Bob"));
    assert!(matches!(run.step(renamed(0, true)), Action::Edit(_)));
    assert!(is_rename(&run.step(Event::Edited(true)), 2, 3, "Cy"));
    assert!(matches!(run.step(renamed(0, true)), Action::Edit(_)));
    assert!(is_edit(&run.step(Event::Edited(true)), "Done!"));
    assert!(matches!(run.step(renamed(0, true)), Action::Nothing));
    assert!(matches!(run.step(Event::Edited(true)), Action::Stop));
    assert_eq!(run.outcome(), Outcome { succeeded: 3, failed: 0, cancelled: false });
}
