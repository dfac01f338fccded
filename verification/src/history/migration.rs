//! How a database at the old place is brought to the new one: which step follows on which
//! reply.

use crate::paths::{join, joined};
use crate::text::{decimal, decimal_text, wide_decimal_text};
use vstd::prelude::*;
use vstd::utf8::encode_utf8;

verus! {

/// What is asked for. Nothing but `Link` makes the destination, and that never overwrites
/// one; nothing writes to the old database.
#[derive(Debug, Clone, PartialEq, Eq)]
pub enum Step {
    /// See whether the destination exists.
    FindDestination,
    /// See whether the old database exists.
    FindOld,
    /// Make the directory of the destination, and a name beside it for a temporary copy.
    Prepare,
    /// Copy the old database, opened for reading only, to the temporary place.
    Copy,
    /// Read what the integrity check says of the copy.
    Check,
    /// Bring the copy to the disk.
    Sync,
    /// Link the copy to the destination, if there is none.
    Link,
    /// Remove the temporary copy, and then end as is told here.
    Remove { end: End },
    /// The end.
    Finish { end: End },
}

/// How a migration ends.
#[derive(Debug, Clone, PartialEq, Eq)]
pub enum End {
    /// There is nothing to do, or it is done.
    Settled,
    /// It failed before there was a copy.
    Unprepared,
    /// It failed with the copy, and the old database is preserved.
    Failed,
    /// The integrity check found the copy broken and said this.
    Broken { finding: String },
}

/// What came of a step.
#[derive(Debug, Clone, PartialEq, Eq)]
pub enum Reply {
    /// It exists.
    Found,
    /// It does not exist.
    Missing,
    /// The step was done.
    Done,
    /// The integrity check said this.
    Finding { text: String },
    /// The destination exists by now.
    Taken,
    /// The step failed.
    Error,
}

/// Whether `after` follows on `step` and `reply`. A reply that does not belong to a step
/// counts as its failure.
pub open spec fn follows(step: Step, reply: Reply, after: Step) -> bool {
    match step {
        Step::FindDestination => match reply {
            Reply::Found => after == (Step::Finish { end: End::Settled }),
            Reply::Missing => after == Step::FindOld,
            _ => after == (Step::Finish { end: End::Unprepared }),
        },
        Step::FindOld => match reply {
            Reply::Found => after == Step::Prepare,
            Reply::Missing => after == (Step::Finish { end: End::Settled }),
            _ => after == (Step::Finish { end: End::Unprepared }),
        },
        Step::Prepare => match reply {
            Reply::Done => after == Step::Copy,
            _ => after == (Step::Finish { end: End::Unprepared }),
        },
        Step::Copy => match reply {
            Reply::Done => after == Step::Check,
            _ => after == (Step::Remove { end: End::Failed }),
        },
        Step::Check => match reply {
            Reply::Finding { text } => if text@ == "ok"@ {
                after == Step::Sync
            } else {
                after == (Step::Remove { end: End::Broken { finding: text } })
            },
            _ => after == (Step::Remove { end: End::Failed }),
        },
        Step::Sync => match reply {
            Reply::Done => after == Step::Link,
            _ => after == (Step::Remove { end: End::Failed }),
        },
        Step::Link => match reply {
            Reply::Done | Reply::Taken => after == (Step::Remove { end: End::Settled }),
            _ => after == (Step::Remove { end: End::Failed }),
        },
        Step::Remove { end } => after == (Step::Finish { end }),
        Step::Finish { end } => after == step,
    }
}

/// Decides which step follows.
pub fn next_step(step: Step, reply: Reply) -> (after: Step)
    ensures
        follows(step, reply, after),
{
    match (step, reply) {
        (Step::FindDestination, Reply::Found) => Step::Finish { end: End::Settled },
        (Step::FindDestination, Reply::Missing) => Step::FindOld,
        (Step::FindDestination, _) => Step::Finish { end: End::Unprepared },
        (Step::FindOld, Reply::Found) => Step::Prepare,
        (Step::FindOld, Reply::Missing) => Step::Finish { end: End::Settled },
        (Step::FindOld, _) => Step::Finish { end: End::Unprepared },
        (Step::Prepare, Reply::Done) => Step::Copy,
        (Step::Prepare, _) => Step::Finish { end: End::Unprepared },
        (Step::Copy, Reply::Done) => Step::Check,
        (Step::Copy, _) => Step::Remove { end: End::Failed },
        (Step::Check, Reply::Finding { text }) => {
            let sound = "ok".to_owned();
            if text == sound {
                Step::Sync
            } else {
                Step::Remove { end: End::Broken { finding: text } }
            }
        },
        (Step::Check, _) => Step::Remove { end: End::Failed },
        (Step::Sync, Reply::Done) => Step::Link,
        (Step::Sync, _) => Step::Remove { end: End::Failed },
        (Step::Link, Reply::Done) => Step::Remove { end: End::Settled },
        (Step::Link, Reply::Taken) => Step::Remove { end: End::Settled },
        (Step::Link, _) => Step::Remove { end: End::Failed },
        (Step::Remove { end }, _) => Step::Finish { end },
        (Step::Finish { end }, _) => Step::Finish { end },
    }
}

/// What a failure with the copy is called.
pub open spec fn failure_context() -> Seq<char> {
    "cannot migrate history to Documents/Yeti3Cleaner; original database preserved"@
}

/// What is said of a copy that the integrity check found broken.
pub open spec fn broken_text(finding: Seq<char>) -> Seq<char> {
    "history migration integrity check failed: "@ + finding
}

impl End {
    /// What a failure with the copy is called; nothing where the migration is settled or
    /// never came to a copy.
    pub fn context(&self) -> (text: Option<String>)
        ensures
            *self is Failed || *self is Broken ==> (text matches Some(text) && text@
                == failure_context()),
            *self is Settled || *self is Unprepared ==> text is None,
    {
        match self {
            End::Failed => Some(
                "cannot migrate history to Documents/Yeti3Cleaner; original database preserved".to_owned(),
            ),
            End::Broken { .. } => Some(
                "cannot migrate history to Documents/Yeti3Cleaner; original database preserved".to_owned(),
            ),
            _ => None,
        }
    }

    /// What is said of a copy that was found broken.
    pub fn reason(&self) -> (text: Option<String>)
        ensures
            match *self {
                End::Broken { finding } => text matches Some(text) && text@ == broken_text(
                    finding@,
                ),
                _ => text is None,
            },
    {
        match self {
            End::Broken { finding } => {
                let mut text = "history migration integrity check failed: ".to_owned();
                text.append(finding.as_str());
                Some(text)
            },
            _ => None,
        }
    }
}

/// Where the temporary copy stands: beside the destination, under a hidden name made of the
/// process and the time.
pub open spec fn temporary_in(parent: Seq<u8>, process: u32, nanos: u128) -> Seq<u8> {
    joined(
        parent,
        encode_utf8(
            ".history-migration-"@ + decimal(process as nat) + "-"@ + decimal(nanos as nat)
                + ".sqlite3"@,
        ),
    )
}

/// Names the temporary copy.
pub fn temporary_path(parent: &[u8], process: u32, nanos: u128) -> (path: Vec<u8>)
    ensures
        path@ == temporary_in(parent@, process, nanos),
{
    let mut name = ".history-migration-".to_owned();
    let number = decimal_text(process as u64);
    let time = wide_decimal_text(nanos);
    name.append(number.as_str());
    name.append("-");
    name.append(time.as_str());
    name.append(".sqlite3");
    join(parent, name.as_str().as_bytes())
}

/// Whether `trail` is the way of a migration through its steps, one for each reply and the
/// one that follows on the last.
pub open spec fn is_way(trail: Seq<Step>, replies: Seq<Reply>) -> bool {
    &&& trail.len() == replies.len() + 1
    &&& trail[0] == Step::FindDestination
    &&& forall|i: int|
        0 <= i < replies.len() ==> follows(trail[i], #[trigger] replies[i], trail[i + 1])
}

/// How far a step is from the start.
spec fn rank(step: Step) -> int {
    match step {
        Step::FindDestination => 0,
        Step::FindOld => 1,
        Step::Prepare => 2,
        Step::Copy => 3,
        Step::Check => 4,
        Step::Sync => 5,
        Step::Link => 6,
        Step::Remove { .. } => 7,
        Step::Finish { .. } => 8,
    }
}

/// Each step leads further, so the step at position `at` of a way has at least that rank;
/// before the copy is removed the positions and the ranks are the same.
proof fn ranks_rise(trail: Seq<Step>, replies: Seq<Reply>, at: int)
    requires
        is_way(trail, replies),
        0 <= at < trail.len(),
    ensures
        rank(trail[at]) >= at || trail[at] is Finish,
        rank(trail[at]) < 7 ==> rank(trail[at]) == at,
    decreases at,
{
    if at > 0 {
        ranks_rise(trail, replies, at - 1);
        assert(follows(trail[at - 1], replies[at - 1], trail[at - 1 + 1]));
    }
}

/// The destination is made only from a copy that the integrity check found sound, and only
/// where no destination was found before.
pub proof fn only_sound_copies_are_linked(trail: Seq<Step>, replies: Seq<Reply>, at: int)
    requires
        is_way(trail, replies),
        0 <= at < trail.len(),
        trail[at] == Step::Link,
    ensures
        at == 6,
        replies[0] == Reply::Missing,
        replies[1] == Reply::Found,
        trail[4] == Step::Check,
        replies[4] matches Reply::Finding { text } && text@ == "ok"@,
        replies[5] == Reply::Done,
{
    ranks_rise(trail, replies, at);
    assert(follows(trail[5], replies[5], trail[6]));
    assert(follows(trail[4], replies[4], trail[5]));
    assert(follows(trail[3], replies[3], trail[4]));
    assert(follows(trail[2], replies[2], trail[3]));
    assert(follows(trail[1], replies[1], trail[2]));
    assert(follows(trail[0], replies[0], trail[1]));
}

/// A copy that was begun is removed before the migration ends, whatever comes between.
pub proof fn copies_are_removed(trail: Seq<Step>, replies: Seq<Reply>, begun: int, end: int)
    requires
        is_way(trail, replies),
        0 <= begun <= end < trail.len(),
        trail[begun] == Step::Copy,
        trail[end] is Finish,
    ensures
        exists|i: int| begun < i < end && #[trigger] trail[i] is Remove,
    decreases end - begun,
{
    removed_on_the_way(trail, replies, begun, end);
}

proof fn removed_on_the_way(trail: Seq<Step>, replies: Seq<Reply>, from: int, end: int)
    requires
        is_way(trail, replies),
        0 <= from <= end < trail.len(),
        3 <= rank(trail[from]) <= 6,
        trail[end] is Finish,
    ensures
        exists|i: int| from < i < end && #[trigger] trail[i] is Remove,
    decreases end - from,
{
    assert(follows(trail[from], replies[from], trail[from + 1]));
    if !(trail[from + 1] is Remove) {
        removed_on_the_way(trail, replies, from + 1, end);
    }
}

/// Where a destination is found, or nothing at the old place, the migration ends at once,
/// settled, and asks for nothing else.
pub proof fn settled_places_are_left_alone(trail: Seq<Step>, replies: Seq<Reply>)
    requires
        is_way(trail, replies),
        replies.len() >= 2,
        replies[0] == Reply::Found || (replies[0] == Reply::Missing && replies[1]
            == Reply::Missing),
    ensures
        forall|i: int| 0 <= i < trail.len() ==> {
            ||| (#[trigger] trail[i]) is FindDestination
            ||| trail[i] is FindOld
            ||| trail[i] == (Step::Finish { end: End::Settled })
        },
        trail[2] == (Step::Finish { end: End::Settled }),
{
    assert(follows(trail[0], replies[0], trail[1]));
    assert(follows(trail[1], replies[1], trail[2]));
    assert forall|i: int| 2 <= i < trail.len() implies #[trigger] trail[i] == (Step::Finish {
        end: End::Settled,
    }) by {
        finish_stays(trail, replies, 2, i);
    }
}

proof fn finish_stays(trail: Seq<Step>, replies: Seq<Reply>, from: int, to: int)
    requires
        is_way(trail, replies),
        0 <= from <= to < trail.len(),
        trail[from] is Finish,
    ensures
        trail[to] == trail[from],
    decreases to - from,
{
    if from < to {
        assert(follows(trail[from], replies[from], trail[from + 1]));
        finish_stays(trail, replies, from + 1, to);
    }
}

/// Every migration comes to its end after eight replies at most.
pub proof fn migration_ends(trail: Seq<Step>, replies: Seq<Reply>)
    requires
        is_way(trail, replies),
        replies.len() >= 8,
    ensures
        trail[8] is Finish,
{
    ranks_rise(trail, replies, 8);
}

/// A failure with the copy never ends settled, and a settled end with a copy means that the
/// destination was linked or taken.
pub proof fn settled_with_a_copy_means_linked(trail: Seq<Step>, replies: Seq<Reply>, at: int)
    requires
        is_way(trail, replies),
        0 < at < trail.len(),
        trail[at] == (Step::Remove { end: End::Settled }),
    ensures
        trail[at - 1] == Step::Link,
        replies[at - 1] == Reply::Done || replies[at - 1] == Reply::Taken,
{
    assert(follows(trail[at - 1], replies[at - 1], trail[at - 1 + 1]));
}

/// Where everything succeeds an old database is brought to the new place: it is copied, the
/// copy is found sound and brought to the disk, then linked, and what was temporary is removed.
/// A destination that somebody else has made by then is as good.
pub proof fn migration_succeeds(trail: Seq<Step>, replies: Seq<Reply>)
    requires
        is_way(trail, replies),
        replies.len() >= 8,
        replies[0] is Missing,
        replies[1] is Found,
        replies[2] is Done,
        replies[3] is Done,
        replies[4] is Finding && replies[4]->text@ == "ok"@,
        replies[5] is Done,
        replies[6] is Done || replies[6] is Taken,
    ensures
        trail[1] is FindOld,
        trail[2] is Prepare,
        trail[3] is Copy,
        trail[4] is Check,
        trail[5] is Sync,
        trail[6] is Link,
        trail[7] == (Step::Remove { end: End::Settled }),
        trail[8] == (Step::Finish { end: End::Settled }),
{
    assert(follows(trail[0], replies[0], trail[1]));
    assert(follows(trail[1], replies[1], trail[2]));
    assert(follows(trail[2], replies[2], trail[3]));
    assert(follows(trail[3], replies[3], trail[4]));
    assert(follows(trail[4], replies[4], trail[5]));
    assert(follows(trail[5], replies[5], trail[6]));
    assert(follows(trail[6], replies[6], trail[7]));
    assert(follows(trail[7], replies[7], trail[8]));
}

/// A step that does not succeed ends the migration: at once where there is no copy yet, and
/// otherwise after the copy is removed. A copy that is found broken ends it with what was found.
pub proof fn failures_end_the_migration(step: Step, reply: Reply, after: Step)
    requires
        follows(step, reply, after),
    ensures
        step is FindDestination && !(reply is Found) && !(reply is Missing) ==> after
            == (Step::Finish { end: End::Unprepared }),
        step is FindOld && !(reply is Found) && !(reply is Missing) ==> after == (Step::Finish {
            end: End::Unprepared,
        }),
        step is Prepare && !(reply is Done) ==> after == (Step::Finish { end: End::Unprepared }),
        step is Copy && !(reply is Done) ==> after == (Step::Remove { end: End::Failed }),
        step is Check && !(reply is Finding) ==> after == (Step::Remove { end: End::Failed }),
        step is Check && (reply matches Reply::Finding { text } && text@ != "ok"@) ==> after
            == (Step::Remove { end: End::Broken { finding: reply->text } }),
        step is Sync && !(reply is Done) ==> after == (Step::Remove { end: End::Failed }),
        step is Link && !(reply is Done) && !(reply is Taken) ==> after == (Step::Remove {
            end: End::Failed,
        }),
        step matches Step::Remove { end } ==> after == (Step::Finish { end }),
        step is Finish ==> after == step,
{
}

/// What is said of a failure tells where the history was to go and that the old one is still
/// there, and what is said of a broken copy ends with what was found.
pub proof fn failures_are_told(finding: Seq<char>, other: Seq<char>)
    ensures
        failure_context()
            == "cannot migrate history to Documents/Yeti3Cleaner; original database preserved"@,
        broken_text(finding) == "history migration integrity check failed: "@ + finding,
        broken_text(finding) == broken_text(other) ==> finding == other,
{
    let start = "history migration integrity check failed: "@;
    if broken_text(finding) == broken_text(other) {
        assert((start + finding).skip(start.len() as int) =~= finding);
        assert((start + other).skip(start.len() as int) =~= other);
    }
}

} // verus!
