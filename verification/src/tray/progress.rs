//! What each event brings about: the controller goes on whenever it can.

use super::laws::stop_ends_everything;
use super::machine::{
    is_fresh, only_if, removal, scan_name, steps, stopping, Action, Event, Poll, ScanOpening, Tray,
};
use super::signs::{StartTitle, Status};
use crate::arguments::raw;
use crate::selection::CleanupSelection;
use crate::text::decimal;
use crate::unambiguous::{
    decimals_are_digits, decimals_are_unambiguous, digits_end_where_others_begin,
};
use vstd::prelude::*;
use vstd::utf8::encode_utf8;

verus! {

/// Where no reply is outstanding and the cleaner runs, a poll that does not find it running,
/// be it because it has ended or because the poll failed, leaves it not running: its plan is
/// removed, the menu says so, and its result is read.
pub proof fn ended_cleaner_is_reaped(
    before: Tray,
    poll: Poll,
    after: Tray,
    actions: Seq<Action>,
)
    requires
        steps(before, Event::CleanPolled { poll }, after, actions),
        before.awaited is Nothing,
        before.cleaning,
        poll is Ended || poll is Failed,
    ensures
        !after.cleaning,
        !after.paused,
        after.plan is None,
        before.plan matches Some(path) ==> actions.contains(Action::RemoveFile { path }),
        actions.contains(Action::Forget),
        actions.contains(Action::ReadResult),
        after.awaited is Reading,
        actions.contains(Action::ShowStart { title: StartTitle::Start }),
        actions.contains(Action::ShowStop { visible: false }),
        after.start is Start,
        !after.stop_visible,
        after.scanning == before.scanning,
        after.report == before.report,
        after.questions == before.questions,
        after.result_before_run == before.result_before_run,
        after.status == before.status,
        after.animation_frame == before.animation_frame,
        after.launch_frame == before.launch_frame,
        before.plan is Some ==> actions.len() == 5,
        before.plan is None ==> actions.len() == 4,
        actions[0] is Forget,
        actions.last() is ReadResult,
{
    let middle = removal(before.plan).len() as int;
    assert(actions[0] is Forget);
    if let Some(path) = before.plan {
        assert(actions[1] == Action::RemoveFile { path });
    }
    assert(actions[middle + 1] == Action::ShowStart { title: StartTitle::Start });
    assert(actions[middle + 2] == Action::ShowStop { visible: false });
    assert(actions[middle + 3] is ReadResult);
}

/// Where no reply is outstanding and a scan runs, a poll that does not find it running, be it
/// because it has ended or because the poll failed, leaves it not running, and its report is
/// collected. The plan stays for the cleaner.
pub proof fn ended_scan_is_collected(
    before: Tray,
    poll: Poll,
    after: Tray,
    actions: Seq<Action>,
)
    requires
        steps(before, Event::ScanPolled { poll }, after, actions),
        before.awaited is Nothing,
        before.scanning,
        poll is Ended || poll is Failed,
    ensures
        !after.scanning,
        after.report is None,
        actions.contains(Action::CollectScan { from: before.report }),
        after.awaited is Collection,
        actions.contains(Action::ShowStart { title: StartTitle::Start }),
        actions.contains(Action::ShowStop { visible: false }),
        after.start is Start,
        !after.stop_visible,
        after.plan == before.plan,
        after.cleaning == before.cleaning,
        after.paused == before.paused,
        after.questions == before.questions,
        after.result_before_run == before.result_before_run,
        after.status == before.status,
        after.animation_frame == before.animation_frame,
        after.launch_frame == before.launch_frame,
        actions.len() == 3,
        actions.last() is CollectScan,
{
    assert(actions[0] == Action::ShowStart { title: StartTitle::Start });
    assert(actions[1] == Action::ShowStop { visible: false });
    assert(actions[2] == Action::CollectScan { from: before.report });
}

/// What runs is left alone: a poll that finds a scan or the cleaner running changes nothing,
/// nor does one of what does not run, nor one while a reply is outstanding.
pub proof fn running_work_is_left_alone(
    before: Tray,
    poll: Poll,
    after: Tray,
    actions: Seq<Action>,
)
    ensures
        steps(before, Event::CleanPolled { poll }, after, actions) && (poll is Running
            || !before.cleaning || !(before.awaited is Nothing)) ==> after == before
            && actions.len() == 0,
        steps(before, Event::ScanPolled { poll }, after, actions) && (poll is Running
            || !before.scanning || !(before.awaited is Nothing)) ==> after == before
            && actions.len() == 0,
{
}

/// The start item, where nothing runs and no reply is outstanding, asks for a scan: of
/// everything, with its plan written to one file and its report to another, both of which
/// stand in the place for reports and bear the number of the process and the time. The
/// controller then waits for the start of that very scan, and all else stays.
pub proof fn start_begins_a_scan(
    before: Tray,
    place: Vec<u8>,
    process: u32,
    nanos: u128,
    after: Tray,
    actions: Seq<Action>,
)
    requires
        steps(before, Event::StartPressed { place, process, nanos }, after, actions),
        before.awaited is Nothing,
        !before.scanning,
        !before.cleaning,
    ensures
        actions.len() == 1,
        actions[0] matches Action::Scan { report, plan, arguments } && after.awaited is ScanOpening
            && after.awaited->report@ == report@ && after.awaited->plan@ == plan@
            && arguments@.len() == 5 && arguments@[0]@ == encode_utf8("scan"@) && arguments@[1]@
            == encode_utf8("--max"@) && arguments@[2]@ == encode_utf8("--verbose"@)
            && arguments@[3]@ == encode_utf8("--plan-out"@) && arguments@[4]@ == plan@
            && report@ == crate::paths::joined(
            place@,
            encode_utf8(
                "yeti3-scan-"@ + decimal(process as nat) + "-"@ + decimal(nanos as nat) + ".txt"@,
            ),
        ) && plan@ == crate::paths::joined(
            place@,
            encode_utf8(
                "yeti3-scan-"@ + decimal(process as nat) + "-"@ + decimal(nanos as nat) + ".json"@,
            ),
        ),
        after == (Tray { awaited: after.awaited, ..before }),
{
    if let Action::Scan { report, plan, arguments } = actions[0] {
        let line = raw(arguments@);
        assert(line.len() == arguments@.len());
        assert forall|i: int| 0 <= i < line.len() implies #[trigger] arguments@[i]@ == line[i] by {}
    }
}

/// No two scans write to the same files, and the report of a scan is not its plan.
pub proof fn scans_have_names_of_their_own(
    process: u32,
    nanos: u128,
    other_process: u32,
    other_nanos: u128,
)
    ensures
        scan_name(process, nanos) == scan_name(other_process, other_nanos) ==> process
            == other_process && nanos == other_nanos,
        scan_name(process, nanos) + ".txt"@ != scan_name(other_process, other_nanos) + ".json"@,
{
    let name = scan_name(process, nanos);
    let other = scan_name(other_process, other_nanos);
    reveal_strlit("yeti3-scan-");
    reveal_strlit("-");
    reveal_strlit(".txt");
    reveal_strlit(".json");
    let start = "yeti3-scan-"@;
    let size = start.len() as int;
    if name == other {
        decimals_are_digits(process as nat);
        decimals_are_digits(other_process as nat);
        let rest = "-"@ + decimal(nanos as nat);
        let more = "-"@ + decimal(other_nanos as nat);
        assert(name.skip(size) =~= decimal(process as nat) + rest);
        assert(other.skip(size) =~= decimal(other_process as nat) + more);
        digits_end_where_others_begin(decimal(process as nat), decimal(other_process as nat), rest, more);
        assert(rest.skip(1) =~= decimal(nanos as nat));
        assert(more.skip(1) =~= decimal(other_nanos as nat));
        decimals_are_unambiguous(process as nat, other_process as nat);
        decimals_are_unambiguous(nanos as nat, other_nanos as nat);
    }
    assert((name + ".txt"@).last() == 't');
    assert((other + ".json"@).last() == 'n');
}

/// While a scan runs, or while a reply is outstanding, the start item does nothing.
pub proof fn start_waits(before: Tray, event: Event, after: Tray, actions: Seq<Action>)
    requires
        steps(before, event, after, actions),
        event is StartPressed,
        before.scanning || !(before.awaited is Nothing),
    ensures
        after == before,
        actions.len() == 0,
{
}

/// Where the cleaner runs and no scan, the start item holds it, or lets it go on where it was
/// held, and the menu and the status bar say so.
pub proof fn start_holds_and_lets_go(
    before: Tray,
    event: Event,
    after: Tray,
    actions: Seq<Action>,
)
    requires
        steps(before, event, after, actions),
        event is StartPressed,
        before.awaited is Nothing,
        before.cleaning,
        !before.scanning,
    ensures
        after.paused == !before.paused,
        !before.paused <==> actions.contains(Action::Suspend),
        before.paused <==> actions.contains(Action::Resume),
        before.paused ==> after.start is Pause && after.status == (Status::Working { frame: 0 })
            && after.animation_frame == 0,
        !before.paused ==> after.start is Continue && after.status is Paused
            && after.animation_frame == before.animation_frame,
        after.stop_visible,
        actions.contains(Action::ShowStart { title: after.start }),
        actions.contains(Action::ShowStop { visible: true }),
        actions.contains(Action::ShowStatus { status: after.status }),
        actions.len() == 4,
        actions[0] is Suspend || actions[0] is Resume,
        after.cleaning,
        !after.scanning,
        after.plan == before.plan,
        after.report == before.report,
        after.questions == before.questions,
        after.result_before_run == before.result_before_run,
        after.launch_frame == before.launch_frame,
        after.awaited is Nothing,
{
    assert(actions[1] == Action::ShowStart { title: after.start });
    assert(actions[2] == Action::ShowStatus { status: after.status });
    assert(actions[3] == Action::ShowStop { visible: true });
    if before.paused {
        assert(actions[0] is Resume);
    } else {
        assert(actions[0] is Suspend);
    }
}

/// A scan that was started runs from then on, with the files that were chosen for it, and the
/// menu and the status bar say so.
pub proof fn started_scan_runs(before: Tray, after: Tray, actions: Seq<Action>)
    requires
        steps(before, Event::ScanOpened { opening: ScanOpening::Started }, after, actions),
        before.awaited is ScanOpening,
    ensures
        after.scanning,
        after.report == Some(before.awaited->report),
        after.plan == Some(before.awaited->plan),
        after.awaited is Nothing,
        after.start is Scanning,
        after.stop_visible,
        after.status == (Status::Working { frame: 0 }),
        actions.contains(Action::ShowStart { title: StartTitle::Scanning }),
        actions.contains(Action::ShowStop { visible: true }),
        actions.contains(Action::ShowStatus { status: Status::Working { frame: 0 } }),
        actions.len() == 3,
        after.cleaning == before.cleaning,
        after.paused == before.paused,
        after.questions == before.questions,
        after.animation_frame == before.animation_frame,
        after.launch_frame == before.launch_frame,
        after.result_before_run == before.result_before_run,
{
    assert(actions[0] == Action::ShowStart { title: StartTitle::Scanning });
    assert(actions[1] == Action::ShowStop { visible: true });
    assert(actions[2] == Action::ShowStatus { status: Status::Working { frame: 0 } });
}

/// A scan that was not started leaves a sign of trouble and nothing else, and of its files the
/// report is removed where it had been created.
pub proof fn failed_scan_is_reported(
    before: Tray,
    opening: ScanOpening,
    after: Tray,
    actions: Seq<Action>,
)
    requires
        steps(before, Event::ScanOpened { opening }, after, actions),
        before.awaited is ScanOpening,
        opening is NoReport || opening is NotSpawned,
    ensures
        after.awaited is Nothing,
        after.status is Trouble,
        actions.contains(Action::ShowStatus { status: Status::Trouble }),
        opening is NotSpawned ==> actions.len() == 2 && actions.contains(
            Action::RemoveFile { path: before.awaited->report },
        ),
        opening is NoReport ==> actions.len() == 1,
        after == (Tray { awaited: after.awaited, status: after.status, ..before }),
{
    if opening is NotSpawned {
        assert(actions[0] == Action::RemoveFile { path: before.awaited->report });
        assert(actions[1] == Action::ShowStatus { status: Status::Trouble });
    } else {
        assert(actions[0] == Action::ShowStatus { status: Status::Trouble });
    }
}

/// A scan that succeeded and whose report could be read leads to a question with that very
/// report, and its plan is kept for the answer.
pub proof fn finished_scan_leads_to_a_question(
    before: Tray,
    report: String,
    after: Tray,
    actions: Seq<Action>,
)
    requires
        steps(
            before,
            Event::ScanCollected { success: Some(true), report: Some(report) },
            after,
            actions,
        ),
        before.awaited is Collection,
    ensures
        actions.contains(Action::Ask { text: report }),
        actions.contains(Action::ShowStatus { status: Status::Idle }),
        actions.len() == 2,
        actions.last() is Ask,
        before.questions < u64::MAX ==> after.questions == before.questions + 1,
        before.questions == u64::MAX ==> after.questions == u64::MAX,
        after.awaited is Nothing,
        after.status is Idle,
        after.plan == before.plan,
        after == (Tray {
            questions: after.questions,
            awaited: after.awaited,
            status: after.status,
            ..before
        }),
{
    assert(actions[0] == Action::ShowStatus { status: Status::Idle });
    assert(actions[1] == Action::Ask { text: report });
}

/// A scan that failed, that could not be waited for or whose report could not be read leads to
/// no question: its plan is removed and there is a sign of trouble.
pub proof fn failed_scan_leads_to_no_question(
    before: Tray,
    success: Option<bool>,
    report: Option<String>,
    after: Tray,
    actions: Seq<Action>,
)
    requires
        steps(before, Event::ScanCollected { success, report }, after, actions),
        before.awaited is Collection,
        success is None || success == Some(false) || report is None,
    ensures
        after.questions == before.questions,
        after.plan is None,
        before.plan matches Some(path) ==> actions.contains(Action::RemoveFile { path }),
        after.status is Trouble,
        actions.contains(Action::ShowStatus { status: Status::Trouble }),
        actions.len() <= 2,
        after.awaited is Nothing,
        after == (Tray {
            plan: after.plan,
            awaited: after.awaited,
            status: after.status,
            ..before
        }),
{
    assert(actions[0] == Action::ShowStatus { status: Status::Trouble });
    if let Some(path) = before.plan {
        assert(actions[1] == Action::RemoveFile { path });
    }
}

/// A selection that answers an open question starts the cleaner on the plan that is known:
/// with everything, without a further question, from that plan. The result that stood there
/// before is remembered, and zero where there was none.
pub proof fn selection_starts_the_cleaner(
    before: Tray,
    selection: CleanupSelection,
    latest: Option<i64>,
    after: Tray,
    actions: Seq<Action>,
)
    requires
        steps(before, Event::Answered { selection: Some(selection), latest }, after, actions),
        before.awaited is Nothing,
        before.questions > 0,
        before.plan is Some,
    ensures
        actions.len() == 1,
        actions[0] matches Action::Clean { arguments } && arguments@.len() >= 5
            && arguments@[0]@ == encode_utf8("clean"@) && arguments@[1]@ == encode_utf8("--max"@)
            && arguments@[2]@ == encode_utf8("--yes"@) && arguments@[3]@ == encode_utf8(
            "--plan-in"@,
        ) && arguments@[4]@ == before.plan->0@,
        after.awaited is CleanOpening,
        after.questions == before.questions - 1,
        after.plan == before.plan,
        latest matches Some(id) ==> after.result_before_run == id,
        latest is None ==> after.result_before_run == 0,
        after == (Tray {
            questions: after.questions,
            awaited: after.awaited,
            result_before_run: after.result_before_run,
            ..before
        }),
{
    if let Action::Clean { arguments } = actions[0] {
        let line = raw(arguments@);
        assert(line.len() == arguments@.len());
        assert forall|i: int| 0 <= i < line.len() implies #[trigger] arguments@[i]@ == line[i] by {}
    }
}

/// A question that is answered without a selection is over: the plan that is known is removed
/// and nothing else happens.
pub proof fn refusal_removes_the_plan(
    before: Tray,
    latest: Option<i64>,
    after: Tray,
    actions: Seq<Action>,
)
    requires
        steps(before, Event::Answered { selection: None, latest }, after, actions),
        before.awaited is Nothing,
        before.questions > 0,
    ensures
        after.questions == before.questions - 1,
        after.plan is None,
        before.plan matches Some(path) ==> actions == seq![Action::RemoveFile { path }],
        before.plan is None ==> actions.len() == 0,
        after == (Tray { questions: after.questions, plan: after.plan, ..before }),
{
}

/// A selection for which there is no plan any more leaves a sign of trouble and starts
/// nothing.
pub proof fn selection_without_a_plan_is_trouble(
    before: Tray,
    selection: CleanupSelection,
    latest: Option<i64>,
    after: Tray,
    actions: Seq<Action>,
)
    requires
        steps(before, Event::Answered { selection: Some(selection), latest }, after, actions),
        before.awaited is Nothing,
        before.questions > 0,
        before.plan is None,
    ensures
        after.questions == before.questions - 1,
        after.status is Trouble,
        actions == seq![Action::ShowStatus { status: Status::Trouble }],
        latest matches Some(id) ==> after.result_before_run == id,
        latest is None ==> after.result_before_run == 0,
        after == (Tray {
            questions: after.questions,
            result_before_run: after.result_before_run,
            status: after.status,
            ..before
        }),
{
}

/// A cleaner that was started runs from then on and is not held, and the menu and the status
/// bar say so.
pub proof fn started_cleaner_runs(before: Tray, after: Tray, actions: Seq<Action>)
    requires
        steps(before, Event::CleanOpened { started: true }, after, actions),
        before.awaited is CleanOpening,
    ensures
        after.cleaning,
        !after.paused,
        after.animation_frame == 0,
        after.awaited is Nothing,
        after.start is Pause,
        after.stop_visible,
        after.status == (Status::Working { frame: 0 }),
        actions.contains(Action::ShowStart { title: StartTitle::Pause }),
        actions.contains(Action::ShowStop { visible: true }),
        actions.contains(Action::ShowStatus { status: Status::Working { frame: 0 } }),
        actions.len() == 3,
        after.plan == before.plan,
        after.report == before.report,
        after.scanning == before.scanning,
        after.questions == before.questions,
        after.launch_frame == before.launch_frame,
        after.result_before_run == before.result_before_run,
{
    assert(actions[0] == Action::ShowStart { title: StartTitle::Pause });
    assert(actions[1] == Action::ShowStop { visible: true });
    assert(actions[2] == Action::ShowStatus { status: Status::Working { frame: 0 } });
}

/// A cleaner that was not started leaves a sign of trouble, and the plan is removed.
pub proof fn failed_cleaner_is_reported(before: Tray, after: Tray, actions: Seq<Action>)
    requires
        steps(before, Event::CleanOpened { started: false }, after, actions),
        before.awaited is CleanOpening,
    ensures
        after.plan is None,
        before.plan matches Some(path) ==> actions.contains(Action::RemoveFile { path }),
        after.status is Trouble,
        actions.contains(Action::ShowStatus { status: Status::Trouble }),
        actions.len() <= 2,
        after.awaited is Nothing,
        after == (Tray {
            plan: after.plan,
            awaited: after.awaited,
            status: after.status,
            ..before
        }),
{
    assert(actions[0] == Action::ShowStatus { status: Status::Trouble });
    if let Some(path) = before.plan {
        assert(actions[1] == Action::RemoveFile { path });
    }
}

/// A result that is newer than the one before the run is a success, and is shown unless the
/// settings say otherwise. Where there is none that is newer there is a sign of trouble,
/// which is taken back later.
pub proof fn result_is_shown_or_missed(
    before: Tray,
    latest: Option<i64>,
    show_result: Option<bool>,
    after: Tray,
    actions: Seq<Action>,
)
    requires
        steps(before, Event::ResultRead { latest, show_result }, after, actions),
        before.awaited is Reading,
    ensures
        after.awaited is Nothing,
        latest matches Some(id) && id > before.result_before_run ==> after.status is Done,
        latest matches Some(id) && id > before.result_before_run ==> (actions.contains(
            Action::ShowResult,
        ) <==> show_result is None || show_result == Some(true)),
        latest matches Some(id) && id > before.result_before_run ==> !actions.contains(
            Action::ResetLater,
        ),
        latest matches Some(id) && id <= before.result_before_run ==> after.status is Trouble
            && actions.contains(Action::ResetLater) && !actions.contains(Action::ShowResult),
        latest is None ==> after.status is Trouble && actions.contains(Action::ResetLater)
            && !actions.contains(Action::ShowResult),
        actions.contains(Action::ShowStatus { status: after.status }),
        actions.len() <= 2,
        after == (Tray { awaited: after.awaited, status: after.status, ..before }),
{
    assert(actions[0] == Action::ShowStatus { status: after.status });
    if latest is Some && latest->0 > before.result_before_run {
        match show_result {
            None | Some(true) => {
                assert(actions[1] == Action::ShowResult);
                assert(actions.contains(Action::ShowResult));
            },
            Some(false) => {
                assert(actions.len() == 1);
                assert(!actions.contains(Action::ShowResult));
            },
        }
    } else {
        assert(actions[1] is ResetLater);
    }
}

/// The animation moves while something runs that is not held: each tick shows the frame that
/// is next and goes on to the one behind it, and to the first behind the eighth. A held
/// cleaner keeps its sign and its frame, and where nothing runs nothing moves.
pub proof fn ticks_move_the_animation(before: Tray, after: Tray, actions: Seq<Action>)
    requires
        steps(before, Event::Tick, after, actions),
        before.animation_frame < 8,
    ensures
        !before.scanning && !before.cleaning ==> after == before && actions.len() == 0,
        (before.scanning || before.cleaning) ==> actions == seq![
            Action::ShowStatus { status: after.status },
        ],
        (before.scanning || before.cleaning) && before.paused ==> after.status is Paused
            && after.animation_frame == before.animation_frame,
        (before.scanning || before.cleaning) && !before.paused ==> after.status
            == (Status::Working { frame: before.animation_frame }),
        (before.scanning || before.cleaning) && !before.paused && before.animation_frame < 7
            ==> after.animation_frame == before.animation_frame + 1,
        (before.scanning || before.cleaning) && !before.paused && before.animation_frame == 7
            ==> after.animation_frame == 0,
        after == (Tray {
            status: after.status,
            animation_frame: after.animation_frame,
            ..before
        }),
{
}

/// The launch shows twenty-four pictures, one at a time, each under a number of two digits,
/// and then closes.
pub proof fn launch_shows_the_next_frame(before: Tray, after: Tray, actions: Seq<Action>)
    requires
        steps(before, Event::LaunchTick, after, actions),
    ensures
        before.launch_frame < 24 ==> after.launch_frame == before.launch_frame + 1
            && actions.len() == 1 && actions[0] is ShowFrame,
        before.launch_frame < 24 ==> actions[0]->name@ =~= "frame-"@ + seq![
            ('0' as int + before.launch_frame / 10) as char,
            ('0' as int + before.launch_frame % 10) as char,
        ] + ".png"@,
        before.launch_frame >= 24 ==> after.launch_frame == before.launch_frame && actions == seq![
            Action::CloseLaunch,
        ],
        after == (Tray { launch_frame: after.launch_frame, ..before }),
{
    reveal_strlit("frame-");
    reveal_strlit("frame-0");
    reveal_strlit(".png");
    reveal_with_fuel(decimal, 2);
    if before.launch_frame < 24 {
        let shown = actions[0]->name@;
        if before.launch_frame >= 10 {
            assert(decimal(before.launch_frame as nat).len() == 2);
        }
    }
}

/// A sign of trouble is taken back when its time is over, unless something runs by then.
pub proof fn trouble_is_taken_back(before: Tray, after: Tray, actions: Seq<Action>)
    requires
        steps(before, Event::ResetDue, after, actions),
    ensures
        before.scanning || before.cleaning ==> after == before && actions.len() == 0,
        !before.scanning && !before.cleaning ==> after.status is Idle && actions == seq![
            Action::ShowStatus { status: Status::Idle },
        ],
        after == (Tray { status: after.status, ..before }),
{
}

/// The window with the result goes when it is closed, and with it the sign of success.
pub proof fn closed_result_is_hidden(before: Tray, after: Tray, actions: Seq<Action>)
    requires
        steps(before, Event::ResultClosed, after, actions),
    ensures
        after.status is Idle,
        actions == seq![Action::HideResult, Action::ShowStatus { status: Status::Idle }],
        after == (Tray { status: after.status, ..before }),
{
}

proof fn lemma_stopping_quits_nothing(before: Tray)
    ensures
        !stopping(before).contains(Action::Quit),
{
    let actions = stopping(before);
    assert forall|i: int| 0 <= i < actions.len() implies !(#[trigger] actions[i] is Quit) by {}
}

/// One where something holds, and nothing otherwise.
pub open spec fn one_if(holds: bool) -> int {
    if holds {
        1
    } else {
        0
    }
}

proof fn lemma_stopping_is_in_order(before: Tray)
    ensures
        ({
            let actions = stopping(before);
            let size = actions.len() as int;
            &&& size == 3 + one_if(before.scanning) + one_if(before.report is Some) + one_if(
                before.plan is Some,
            ) + one_if(before.cleaning && before.paused) + one_if(before.cleaning)
            &&& before.scanning ==> actions[0] is KillScan
            &&& actions[size - 3] == (Action::ShowStart { title: StartTitle::Start })
            &&& actions[size - 2] == (Action::ShowStop { visible: false })
            &&& actions[size - 1] == (Action::ShowStatus { status: Status::Idle })
        }),
{
}

/// The stop item and the quit item do their work wherever no reply is outstanding: what runs
/// is ended, what is known of files is removed, and the quit item ends the program last. The
/// stop item never does. While a reply is outstanding neither does anything.
pub proof fn stop_and_quit_end_the_work(
    before: Tray,
    event: Event,
    after: Tray,
    actions: Seq<Action>,
)
    requires
        steps(before, event, after, actions),
        event is StopPressed || event is QuitPressed,
    ensures
        !(before.awaited is Nothing) ==> after == before && actions.len() == 0,
        before.awaited is Nothing ==> {
            &&& !after.scanning && !after.cleaning && !after.paused
            &&& after.plan is None && after.report is None
            &&& after.start is Start && !after.stop_visible && after.status is Idle
            &&& before.scanning <==> actions.contains(Action::KillScan)
            &&& before.cleaning <==> actions.contains(Action::Terminate)
            &&& before.cleaning && before.paused <==> actions.contains(Action::Resume)
            &&& before.report matches Some(path) ==> actions.contains(Action::RemoveFile { path })
            &&& before.plan matches Some(path) ==> actions.contains(Action::RemoveFile { path })
            &&& event is QuitPressed <==> actions.contains(Action::Quit)
            &&& event is QuitPressed ==> actions.last() is Quit
            &&& before.scanning ==> actions[0] is KillScan
            &&& actions.len() == 3 + one_if(before.scanning) + one_if(before.report is Some)
                + one_if(before.plan is Some) + one_if(before.cleaning && before.paused) + one_if(
                before.cleaning,
            ) + one_if(event is QuitPressed)
            &&& {
                let end = actions.len() - one_if(event is QuitPressed);
                &&& actions[end - 3] == (Action::ShowStart { title: StartTitle::Start })
                &&& actions[end - 2] == (Action::ShowStop { visible: false })
                &&& actions[end - 1] == (Action::ShowStatus { status: Status::Idle })
            }
        },
        after.questions == before.questions,
        after.animation_frame == before.animation_frame,
        after.launch_frame == before.launch_frame,
        after.result_before_run == before.result_before_run,
        after.awaited == before.awaited,
{
    if before.awaited is Nothing {
        stop_ends_everything(before);
        let most = stopping(before);
        assert(actions == most + only_if(event is QuitPressed, Action::Quit));
        assert forall|action: Action| !(action is Quit) implies #[trigger] actions.contains(action)
            == most.contains(action) by {
            if most.contains(action) {
                let at = most.index_of(action);
                assert(actions[at] == action);
            }
            if actions.contains(action) {
                let at = actions.index_of(action);
                assert(most[at] == action);
            }
        }
        lemma_stopping_quits_nothing(before);
        lemma_stopping_is_in_order(before);
        if event is QuitPressed {
            assert(actions[most.len() as int] is Quit);
        }
    }
}

/// A reply that is not awaited changes nothing.
pub proof fn unasked_replies_change_nothing(
    before: Tray,
    event: Event,
    after: Tray,
    actions: Seq<Action>,
)
    requires
        steps(before, event, after, actions),
        event is ScanOpened ==> !(before.awaited is ScanOpening),
        event is ScanCollected ==> !(before.awaited is Collection),
        event is CleanOpened ==> !(before.awaited is CleanOpening),
        event is ResultRead ==> !(before.awaited is Reading),
        event is Answered ==> before.questions == 0 || !(before.awaited is Nothing),
        event is ScanOpened || event is ScanCollected || event is CleanOpened
            || event is ResultRead || event is Answered,
    ensures
        after == before,
        actions.len() == 0,
{
}

/// At launch nothing runs, no file is known, no question stands open and no reply is outstanding:
/// the menu offers to start and not to stop, the status is idle, and both animations stand at
/// their start. Whatever shows the result of a run then shows a first one.
pub proof fn launch_starts_from_nothing(tray: Tray)
    requires
        is_fresh(tray),
    ensures
        !tray.scanning && !tray.cleaning && !tray.paused,
        tray.report is None && tray.plan is None,
        tray.questions == 0,
        tray.awaited is Nothing,
        tray.start is Start,
        !tray.stop_visible,
        tray.status is Idle,
        tray.animation_frame == 0,
        tray.launch_frame == 0,
        tray.result_before_run == 0,
{
}

} // verus!
