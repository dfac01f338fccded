//! What holds of every step of the controller.

use super::machine::{
    launches, only_if, removal, steps, stopped, stopping, ticks, Action, Event, Tray,
};
use super::signs::{frame_name, StartTitle, Status, FRAMES, LAUNCH_FRAMES};
use crate::arguments::raw;
use crate::selection::clean_line;
use vstd::prelude::*;

verus! {

/// Whatever happens, what always holds goes on to hold: among it, that only a running cleaner
/// is paused, and that the cleaner is started with a plan only.
pub proof fn steps_keep_the_rules(before: Tray, event: Event, after: Tray, actions: Seq<Action>)
    requires
        before.wf(),
        steps(before, event, after, actions),
    ensures
        after.wf(),
{
}

/// As long as no scan is started while a question stands open, a scan and the cleaner never
/// run at once, and the title of the start item and the presence of the stop item tell what
/// runs.
pub proof fn steps_stay_orderly(before: Tray, event: Event, after: Tray, actions: Seq<Action>)
    requires
        before.orderly(),
        steps(before, event, after, actions),
        !(event is StartPressed && before.questions > 0),
    ensures
        after.orderly(),
{
}

/// A question holds nothing up: the start item does while it stands open what it does
/// otherwise, and leaves it open.
pub proof fn question_holds_nothing_up(
    before: Tray,
    event: Event,
    after: Tray,
    actions: Seq<Action>,
)
    requires
        steps(before, event, after, actions),
        event is StartPressed,
    ensures
        after.questions == before.questions,
        steps(
            (Tray { questions: 0, ..before }),
            event,
            (Tray { questions: 0, ..after }),
            actions,
        ),
{
}

/// The title of the start item after `actions`, where it was `title` before them.
pub open spec fn title_after(actions: Seq<Action>, title: StartTitle) -> StartTitle
    decreases actions.len(),
{
    if actions.len() == 0 {
        title
    } else {
        match actions.last() {
            Action::ShowStart { title } => title,
            _ => title_after(actions.drop_last(), title),
        }
    }
}

/// Whether the stop item is in the menu after `actions`, where `visible` says so of the time
/// before them.
pub open spec fn stop_after(actions: Seq<Action>, visible: bool) -> bool
    decreases actions.len(),
{
    if actions.len() == 0 {
        visible
    } else {
        match actions.last() {
            Action::ShowStop { visible } => visible,
            _ => stop_after(actions.drop_last(), visible),
        }
    }
}

/// What stands in the status bar after `actions`, where it was `status` before them.
pub open spec fn status_after(actions: Seq<Action>, status: Status) -> Status
    decreases actions.len(),
{
    if actions.len() == 0 {
        status
    } else {
        match actions.last() {
            Action::ShowStatus { status } => status,
            _ => status_after(actions.drop_last(), status),
        }
    }
}

proof fn title_is_last(actions: Seq<Action>, title: StartTitle, at: int)
    requires
        -1 <= at < actions.len(),
        at >= 0 ==> actions[at] is ShowStart,
        forall|i: int| at < i < actions.len() ==> !(#[trigger] actions[i] is ShowStart),
    ensures
        title_after(actions, title) == if at >= 0 {
            actions[at]->title
        } else {
            title
        },
    decreases actions.len(),
{
    if at < actions.len() - 1 {
        title_is_last(actions.drop_last(), title, at);
    }
}

proof fn stop_is_last(actions: Seq<Action>, visible: bool, at: int)
    requires
        -1 <= at < actions.len(),
        at >= 0 ==> actions[at] is ShowStop,
        forall|i: int| at < i < actions.len() ==> !(#[trigger] actions[i] is ShowStop),
    ensures
        stop_after(actions, visible) == if at >= 0 {
            actions[at]->visible
        } else {
            visible
        },
    decreases actions.len(),
{
    if at < actions.len() - 1 {
        stop_is_last(actions.drop_last(), visible, at);
    }
}

proof fn status_is_last(actions: Seq<Action>, status: Status, at: int)
    requires
        -1 <= at < actions.len(),
        at >= 0 ==> actions[at] is ShowStatus,
        forall|i: int| at < i < actions.len() ==> !(#[trigger] actions[i] is ShowStatus),
    ensures
        status_after(actions, status) == if at >= 0 {
            actions[at]->status
        } else {
            status
        },
    decreases actions.len(),
{
    if at < actions.len() - 1 {
        status_is_last(actions.drop_last(), status, at);
    }
}

/// Whether the menu and the status bar, which were as `before` has them, are as `after` has
/// them once `actions` are done.
pub open spec fn screen_follows(before: Tray, after: Tray, actions: Seq<Action>) -> bool {
    &&& title_after(actions, before.start) == after.start
    &&& stop_after(actions, before.stop_visible) == after.stop_visible
    &&& status_after(actions, before.status) == after.status
}

/// The signs that `actions` show, each at its place, and none behind it.
spec fn shows_at(actions: Seq<Action>, title: int, stop: int, status: int) -> bool {
    &&& -1 <= title < actions.len()
    &&& -1 <= stop < actions.len()
    &&& -1 <= status < actions.len()
    &&& title >= 0 ==> actions[title] is ShowStart
    &&& stop >= 0 ==> actions[stop] is ShowStop
    &&& status >= 0 ==> actions[status] is ShowStatus
    &&& forall|i: int| title < i < actions.len() ==> !(#[trigger] actions[i] is ShowStart)
    &&& forall|i: int| stop < i < actions.len() ==> !(#[trigger] actions[i] is ShowStop)
    &&& forall|i: int| status < i < actions.len() ==> !(#[trigger] actions[i] is ShowStatus)
}

proof fn lemma_screen(
    before: Tray,
    after: Tray,
    actions: Seq<Action>,
    title: int,
    stop: int,
    status: int,
)
    requires
        shows_at(actions, title, stop, status),
        after.start == if title >= 0 {
            actions[title]->title
        } else {
            before.start
        },
        after.stop_visible == if stop >= 0 {
            actions[stop]->visible
        } else {
            before.stop_visible
        },
        after.status == if status >= 0 {
            actions[status]->status
        } else {
            before.status
        },
    ensures
        screen_follows(before, after, actions),
{
    title_is_last(actions, before.start, title);
    stop_is_last(actions, before.stop_visible, stop);
    status_is_last(actions, before.status, status);
}

proof fn lemma_screen_of_items(before: Tray, event: Event, after: Tray, actions: Seq<Action>)
    requires
        steps(before, event, after, actions),
        event is StartPressed || event is StopPressed || event is QuitPressed,
    ensures
        screen_follows(before, after, actions),
{
    if !before.is_open() {
        lemma_screen(before, after, actions, -1, -1, -1);
    } else if event is StartPressed {
        if before.cleaning && !before.scanning {
            lemma_screen(before, after, actions, 1, 3, 2);
        } else {
            lemma_screen(before, after, actions, -1, -1, -1);
        }
    } else {
        let size = stopping(before).len() as int;
        assert(actions.take(size) =~= stopping(before));
        assert(actions[size - 3] is ShowStart);
        assert(actions[size - 2] is ShowStop);
        assert(actions[size - 1] is ShowStatus);
        lemma_screen(before, after, actions, size - 3, size - 2, size - 1);
    }
}

proof fn lemma_screen_of_times(before: Tray, event: Event, after: Tray, actions: Seq<Action>)
    requires
        steps(before, event, after, actions),
        event is ResetDue || event is Tick || event is LaunchTick || event is ResultClosed,
    ensures
        screen_follows(before, after, actions),
{
    let status = if event is LaunchTick || actions.len() == 0 {
        -1
    } else {
        actions.len() - 1
    };
    lemma_screen(before, after, actions, -1, -1, status);
}

proof fn lemma_screen_of_polls(before: Tray, event: Event, after: Tray, actions: Seq<Action>)
    requires
        steps(before, event, after, actions),
        event is ScanPolled || event is CleanPolled,
    ensures
        screen_follows(before, after, actions),
{
    if actions.len() == 0 {
        lemma_screen(before, after, actions, -1, -1, -1);
    } else {
        let last = actions.len() as int;
        lemma_screen(before, after, actions, last - 3, last - 2, -1);
    }
}

proof fn lemma_screen_of_starts(before: Tray, event: Event, after: Tray, actions: Seq<Action>)
    requires
        steps(before, event, after, actions),
        event is ScanOpened || event is CleanOpened,
    ensures
        screen_follows(before, after, actions),
{
    if actions.len() == 0 {
        lemma_screen(before, after, actions, -1, -1, -1);
    } else if actions.len() == 3 {
        lemma_screen(before, after, actions, 0, 1, 2);
    } else if actions[0] is ShowStatus {
        lemma_screen(before, after, actions, -1, -1, 0);
    } else {
        lemma_screen(before, after, actions, -1, -1, 1);
    }
}

proof fn lemma_screen_of_replies(before: Tray, event: Event, after: Tray, actions: Seq<Action>)
    requires
        steps(before, event, after, actions),
        event is ScanCollected || event is Answered || event is ResultRead,
    ensures
        screen_follows(before, after, actions),
{
    if actions.len() > 0 && actions[0] is ShowStatus {
        lemma_screen(before, after, actions, -1, -1, 0);
    } else {
        lemma_screen(before, after, actions, -1, -1, -1);
    }
}

/// What a user sees follows what the controller knows: the actions of a step leave the menu
/// and the status bar as the state after the step has them.
pub proof fn screen_follows_the_state(
    before: Tray,
    event: Event,
    after: Tray,
    actions: Seq<Action>,
)
    requires
        steps(before, event, after, actions),
    ensures
        screen_follows(before, after, actions),
{
    match event {
        Event::StartPressed { .. } | Event::StopPressed | Event::QuitPressed => {
            lemma_screen_of_items(before, event, after, actions);
        },
        Event::ResetDue | Event::Tick | Event::LaunchTick | Event::ResultClosed => {
            lemma_screen_of_times(before, event, after, actions);
        },
        Event::ScanPolled { .. } | Event::CleanPolled { .. } => {
            lemma_screen_of_polls(before, event, after, actions);
        },
        Event::ScanOpened { .. } | Event::CleanOpened { .. } => {
            lemma_screen_of_starts(before, event, after, actions);
        },
        Event::ScanCollected { .. } | Event::Answered { .. } | Event::ResultRead { .. } => {
            lemma_screen_of_replies(before, event, after, actions);
        },
    }
}

/// No file is forgotten as long as no scan is started while a question stands open: a plan
/// stays known until it is removed, and a report until it is removed or handed on to be read
/// and removed.
pub proof fn files_are_not_forgotten(
    before: Tray,
    event: Event,
    after: Tray,
    actions: Seq<Action>,
    path: Vec<u8>,
)
    requires
        before.orderly(),
        steps(before, event, after, actions),
    ensures
        before.plan == Some(path) ==> after.plan == Some(path) || actions.contains(
            Action::RemoveFile { path },
        ),
        before.report == Some(path) ==> after.report == Some(path) || actions.contains(
            Action::RemoveFile { path },
        ) || actions.contains(Action::CollectScan { from: Some(path) }),
{
    let first = only_if(before.scanning, Action::KillScan).len() as int;
    let second = first + removal(before.report).len();
    match event {
        Event::StopPressed | Event::QuitPressed => {
            if before.is_open() {
                if before.report == Some(path) {
                    assert(actions[first] == Action::RemoveFile { path });
                }
                if before.plan == Some(path) {
                    assert(actions[second] == Action::RemoveFile { path });
                }
            }
        },
        Event::Answered { .. } => {
            if before.questions > 0 && before.plan == Some(path) && after.plan is None {
                assert(actions[0] == Action::RemoveFile { path });
            }
        },
        Event::ScanPolled { .. } => {
            if before.scanning && actions.len() > 0 {
                assert(actions[2] == Action::CollectScan { from: before.report });
            }
        },
        _ => {
            if before.plan == Some(path) && after.plan is None {
                assert(actions[1] == Action::RemoveFile { path });
            }
        },
    }
}

/// Stopping neither starts the cleaner nor shows a result.
proof fn lemma_stopping_starts_nothing(before: Tray, at: int)
    requires
        0 <= at < stopping(before).len(),
    ensures
        !(stopping(before)[at] is Clean),
        !(stopping(before)[at] is ShowResult),
{
}

/// Nothing is cleaned unasked: the cleaner is started only on a selection that answers an
/// open question, with the command line for that selection and for the plan known by then,
/// and it counts as running only once it was started so.
pub proof fn nothing_is_cleaned_unasked(
    before: Tray,
    event: Event,
    after: Tray,
    actions: Seq<Action>,
    at: int,
)
    requires
        before.wf(),
        steps(before, event, after, actions),
        0 <= at < actions.len(),
        actions[at] is Clean,
    ensures
        before.questions > 0,
        event is Answered && event->selection is Some && before.plan is Some,
        raw(actions[at]->Clean_arguments@) == clean_line(
            before.plan->0@,
            event->selection->0,
        ),
        after.awaited is CleanOpening,
{
    if event is StopPressed || event is QuitPressed {
        if at < stopping(before).len() {
            lemma_stopping_starts_nothing(before, at);
        }
    } else {
        assert(event is Answered);
    }
}

/// The cleaner runs only where it ran before or where its start was awaited and succeeded,
/// and its start is awaited only where a selection asked for it.
pub proof fn cleaner_runs_only_when_started(
    before: Tray,
    event: Event,
    after: Tray,
    actions: Seq<Action>,
)
    requires
        before.wf(),
        steps(before, event, after, actions),
    ensures
        after.cleaning ==> before.cleaning || (before.awaited is CleanOpening && event
            == Event::CleanOpened { started: true }),
        after.awaited is CleanOpening ==> before.awaited is CleanOpening || (before.questions > 0
            && event is Answered && event->selection is Some),
{
}

/// To hold the cleaner and to let it go on again leaves everything as it was, but for the
/// animation, which starts anew, and the menu, which then fits a running cleaner. A scan
/// that runs as well keeps the start item from doing either.
pub proof fn pause_is_taken_back(
    before: Tray,
    pause: Event,
    held: Tray,
    holding: Seq<Action>,
    resume: Event,
    after: Tray,
    resuming: Seq<Action>,
)
    requires
        before.is_open(),
        before.cleaning,
        !before.scanning,
        !before.paused,
        pause is StartPressed,
        resume is StartPressed,
        steps(before, pause, held, holding),
        steps(held, resume, after, resuming),
    ensures
        held.paused,
        holding[0] is Suspend,
        resuming[0] is Resume,
        after == (Tray {
            animation_frame: 0,
            start: StartTitle::Pause,
            stop_visible: true,
            status: Status::Working { frame: 0 },
            ..before
        }),
        before.orderly() ==> after == (Tray {
            animation_frame: 0,
            status: Status::Working { frame: 0 },
            ..before
        }),
{
}

/// After a stop, in whatever state, nothing runs, no file is known and the menu and the status
/// bar say so. A scan that ran was killed, the files that were known are removed, a cleaner
/// that ran was asked to end, and one that was held, and no other, was let go on right before
/// that.
pub proof fn stop_ends_everything(before: Tray)
    ensures
        ({
            let after = stopped(before);
            &&& !after.is_running()
            &&& !after.paused
            &&& after.report is None
            &&& after.plan is None
            &&& after.start == StartTitle::Start
            &&& !after.stop_visible
            &&& after.status == Status::Idle
        }),
        ({
            let actions = stopping(before);
            &&& before.scanning <==> actions.contains(Action::KillScan)
            &&& before.report matches Some(path) ==> actions.contains(Action::RemoveFile { path })
            &&& before.plan matches Some(path) ==> actions.contains(Action::RemoveFile { path })
            &&& before.cleaning <==> actions.contains(Action::Terminate)
            &&& before.cleaning && before.paused <==> actions.contains(Action::Resume)
            &&& before.cleaning && before.paused ==> exists|i: int|
                0 <= i < actions.len() - 1 && #[trigger] actions[i] is Resume && actions[i
                    + 1] is Terminate
        }),
{
    let actions = stopping(before);
    let first = only_if(before.scanning, Action::KillScan).len() as int;
    let second = first + removal(before.report).len();
    let third = second + removal(before.plan).len();
    if before.scanning {
        assert(actions[0] == Action::KillScan);
    }
    if let Some(path) = before.report {
        assert(actions[first] == Action::RemoveFile { path });
    }
    if let Some(path) = before.plan {
        assert(actions[second] == Action::RemoveFile { path });
    }
    if before.cleaning {
        if before.paused {
            assert(actions[third] == Action::Resume);
            assert(actions[third + 1] == Action::Terminate);
        } else {
            assert(actions[third] == Action::Terminate);
        }
    }
}

/// A second stop, in whatever state the first came, changes nothing: the controller is as the
/// first one left it, and all that is asked for is to show so. Nothing is killed, let go on,
/// ended or removed once more.
pub proof fn second_stop_changes_nothing(before: Tray)
    ensures
        stopped(stopped(before)) == stopped(before),
        stopping(stopped(before)) == seq![
            Action::ShowStart { title: StartTitle::Start },
            Action::ShowStop { visible: false },
            Action::ShowStatus { status: Status::Idle },
        ],
        forall|i: int|
            0 <= i < stopping(stopped(before)).len() ==> {
                let action = #[trigger] stopping(stopped(before))[i];
                !(action is KillScan) && !(action is Resume) && !(action is Terminate) && !(
                action is RemoveFile)
            },
{
}

/// The stop item and the quit item stop everything, unless a reply is outstanding.
pub proof fn items_stop_everything(
    before: Tray,
    event: Event,
    after: Tray,
    actions: Seq<Action>,
)
    requires
        before.is_open(),
        event is StopPressed || event is QuitPressed,
        steps(before, event, after, actions),
    ensures
        after == stopped(before),
        actions == stopping(before) + only_if(event is QuitPressed, Action::Quit),
{
}

/// A result is shown only where it is newer than the one that stood there before the run.
pub proof fn only_new_results_are_shown(
    before: Tray,
    event: Event,
    after: Tray,
    actions: Seq<Action>,
)
    requires
        before.wf(),
        steps(before, event, after, actions),
        actions.contains(Action::ShowResult),
    ensures
        event matches Event::ResultRead { latest: Some(id), .. } && id > before.result_before_run,
{
    let at = choose|at: int| 0 <= at < actions.len() && actions[at] == Action::ShowResult;
    if event is StopPressed || event is QuitPressed {
        if at < stopping(before).len() {
            lemma_stopping_starts_nothing(before, at);
        }
    } else {
        assert(actions[at] is ShowResult);
    }
}

/// Whether `trail` is a row of states between which only the animation goes on.
pub open spec fn is_animation(trail: Seq<Tray>, shown: Seq<Seq<Action>>) -> bool {
    &&& trail.len() == shown.len() + 1
    &&& forall|i: int| 0 <= i < shown.len() ==> ticks(trail[i], trail[i + 1], #[trigger] shown[i])
}

/// The animation goes on by one frame at a time and repeats itself after eight.
pub proof fn animation_goes_round(trail: Seq<Tray>, shown: Seq<Seq<Action>>, at: int)
    requires
        is_animation(trail, shown),
        trail[0].wf(),
        trail[0].is_running(),
        !trail[0].paused,
        0 <= at < trail.len(),
    ensures
        trail[at].is_running(),
        !trail[at].paused,
        trail[at].animation_frame == (trail[0].animation_frame + at) % FRAMES as int,
        at < shown.len() ==> shown[at] == seq![
            Action::ShowStatus {
                status: Status::Working {
                    frame: ((trail[0].animation_frame + at) % FRAMES as int) as usize,
                },
            },
        ],
    decreases at,
{
    if at > 0 {
        animation_goes_round(trail, shown, at - 1);
        assert(ticks(trail[at - 1], trail[at - 1 + 1], shown[at - 1]));
    }
    if at < shown.len() {
        assert(ticks(trail[at], trail[at + 1], shown[at]));
    }
}

/// Whether `trail` is a row of states between which only the launch goes on.
pub open spec fn is_launch(trail: Seq<Tray>, shown: Seq<Seq<Action>>) -> bool {
    &&& trail.len() == shown.len() + 1
    &&& forall|i: int|
        0 <= i < shown.len() ==> launches(trail[i], trail[i + 1], #[trigger] shown[i])
}

/// The launch shows its frames in turn, each once, and then closes.
pub proof fn launch_shows_each_frame(trail: Seq<Tray>, shown: Seq<Seq<Action>>, at: int)
    requires
        is_launch(trail, shown),
        trail[0].launch_frame == 0,
        0 <= at < shown.len(),
    ensures
        at < LAUNCH_FRAMES ==> trail[at].launch_frame == at && shown[at].len() == 1,
        at < LAUNCH_FRAMES ==> (shown[at][0] matches Action::ShowFrame { name } && name@
            == frame_name(at as nat)),
        at >= LAUNCH_FRAMES ==> trail[at].launch_frame == LAUNCH_FRAMES && shown[at] == seq![
            Action::CloseLaunch,
        ],
    decreases at,
{
    if at > 0 {
        launch_shows_each_frame(trail, shown, at - 1);
        assert(launches(trail[at - 1], trail[at - 1 + 1], shown[at - 1]));
    }
    assert(launches(trail[at], trail[at + 1], shown[at]));
}

} // verus!
