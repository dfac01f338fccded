//! The steps by which a database is brought to its new place.

use yeti3_cleaner::history::migration::{next_step, temporary_path, End, Reply, Step};

/// Goes through the steps with these replies and returns what was asked for.
fn walk(replies: &[Reply]) -> Vec<Step> {
    let mut asked = vec![Step::FindDestination];
    for reply in replies {
        let step = asked.last().unwrap().clone();
        asked.push(next_step(step, reply.clone()));
    }
    asked
}

fn finding(text: &str) -> Reply {
    Reply::Finding { text: String::from(text) }
}

#[test]
fn sound_database_is_linked() {
    let asked = walk(&[
        Reply::Missing,
        Reply::Found,
        Reply::Done,
        Reply::Done,
        finding("ok"),
        Reply::Done,
        Reply::Done,
        Reply::Done,
    ]);
    assert_eq!(
        asked,
        vec![
            Step::FindDestination,
            Step::FindOld,
            Step::Prepare,
            Step::Copy,
            Step::Check,
            Step::Sync,
            Step::Link,
            Step::Remove { end: End::Settled },
            Step::Finish { end: End::Settled },
        ]
    );
    assert_eq!(End::Settled.context(), None);
}

#[test]
fn existing_destination_is_left_alone() {
    assert_eq!(walk(&[Reply::Found])[1], Step::Finish { end: End::Settled });
    assert_eq!(walk(&[Reply::Missing, Reply::Missing])[2], Step::Finish { end: End::Settled });
    let taken = walk(&[
        Reply::Missing,
        Reply::Found,
        Reply::Done,
        Reply::Done,
        finding("ok"),
        Reply::Done,
        Reply::Taken,
    ]);
    assert_eq!(taken[7], Step::Remove { end: End::Settled });
}

#[test]
fn broken_copy_is_removed_and_reported() {
    let asked =
        walk(&[Reply::Missing, Reply::Found, Reply::Done, Reply::Done, finding("row 3 missing")]);
    let end = End::Broken { finding: String::from("row 3 missing") };
    assert_eq!(asked[5], Step::Remove { end: end.clone() });
    assert_eq!(next_step(asked[5].clone(), Reply::Error), Step::Finish { end: end.clone() });
    assert_eq!(
        end.reason().as_deref(),
        Some("history migration integrity check failed: row 3 missing")
    );
    assert_eq!(
        end.context().as_deref(),
        Some("cannot migrate history to Documents/Yeti3Cleaner; original database preserved")
    );
}

#[test]
fn failures_end_the_migration() {
    for failing in 0..3 {
        let mut replies = vec![Reply::Missing, Reply::Found, Reply::Done];
        replies.truncate(failing);
        replies.push(Reply::Error);
        assert_eq!(
            walk(&replies).last().unwrap(),
            &Step::Finish { end: End::Unprepared },
            "{failing}"
        );
    }
    let good = [
        Reply::Missing,
        Reply::Found,
        Reply::Done,
        Reply::Done,
        finding("ok"),
        Reply::Done,
        Reply::Done,
    ];
    for failing in 3..7 {
        let mut replies = good[..failing].to_vec();
        replies.push(Reply::Error);
        let asked = walk(&replies);
        assert_eq!(asked.last().unwrap(), &Step::Remove { end: End::Failed }, "{failing}");
    }
    assert_eq!(End::Unprepared.context(), None);
    assert!(End::Failed.context().is_some());
    assert_eq!(End::Failed.reason(), None);
}

#[test]
fn temporary_copy_is_hidden_beside_the_destination() {
    assert_eq!(
        temporary_path(b"/h/Documents/Yeti3Cleaner", 42, 1_700_000_000_123_456_789),
        b"/h/Documents/Yeti3Cleaner/.history-migration-42-1700000000123456789.sqlite3"
    );
}
