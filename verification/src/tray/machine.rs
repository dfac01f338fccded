//! One step of the controller: from what it knows and what happened to what it knows then
//! and what it asks for.

use super::signs::{
    frame_file, frame_name, StartTitle, Status, FRAMES, LAUNCH_FRAMES,
};
use crate::arguments::{add_argument, add_path, encoded, raw};
use crate::paths::{join, joined};
use crate::selection::{clean_arguments, clean_line, CleanupSelection};
use crate::text::{decimal, decimal_text, wide_decimal_text};
use vstd::prelude::*;
use vstd::utf8::encode_utf8;

verus! {

/// What was learnt of a process without waiting for it.
#[derive(Debug, Clone, Copy, PartialEq, Eq, Structural)]
pub enum Poll {
    Running,
    Ended,
    Failed,
}

/// How the start of a scan went.
#[derive(Debug, Clone, Copy, PartialEq, Eq, Structural)]
pub enum ScanOpening {
    Started,
    NoReport,
    NotSpawned,
}

/// What can happen.
#[derive(Debug, Clone, PartialEq, Eq)]
pub enum Event {
    /// The start item was chosen: in which directory a report can stand, which process this
    /// is, and how many nanoseconds have passed since the epoch.
    StartPressed { place: Vec<u8>, process: u32, nanos: u128 },
    /// The stop item was chosen.
    StopPressed,
    /// The quit item was chosen.
    QuitPressed,
    /// The time for a sign of trouble is over.
    ResetDue,
    /// It is time for the next frame of the animation.
    Tick,
    /// It is time for the next frame of the launch.
    LaunchTick,
    /// The window with the result was closed.
    ResultClosed,
    /// The scan was polled.
    ScanPolled { poll: Poll },
    /// The cleaner was polled.
    CleanPolled { poll: Poll },
    /// The scan was started, or not.
    ScanOpened { opening: ScanOpening },
    /// The scan was waited for, with its success if that is known, and its report was read.
    ScanCollected { success: Option<bool>, report: Option<String> },
    /// A question was answered, the one asked last of those that stand open, and this is the
    /// id of the result that stands there by now.
    Answered { selection: Option<CleanupSelection>, latest: Option<i64> },
    /// The cleaner was started, or not.
    CleanOpened { started: bool },
    /// The result was read, and whether it is to be shown, where the settings could be read.
    ResultRead { latest: Option<i64>, show_result: Option<bool> },
}

/// What the controller asks for.
#[derive(Debug, Clone, PartialEq, Eq)]
pub enum Action {
    ShowStart { title: StartTitle },
    ShowStop { visible: bool },
    ShowStatus { status: Status },
    /// Create the report file and start the scanner, which writes to it.
    Scan { report: Vec<u8>, plan: Vec<u8>, arguments: Vec<Vec<u8>> },
    /// Kill the scan and wait for it.
    KillScan,
    /// Wait for the scan, read its report and remove it.
    CollectScan { from: Option<Vec<u8>> },
    /// Ask what to clean.
    Ask { text: String },
    /// Start the cleaner.
    Clean { arguments: Vec<Vec<u8>> },
    /// Let the cleaner go on.
    Resume,
    /// Hold the cleaner.
    Suspend,
    /// Ask the cleaner to end and wait for it.
    Terminate,
    /// Forget the cleaner, which has ended.
    Forget,
    RemoveFile { path: Vec<u8> },
    /// Read the latest result.
    ReadResult,
    ShowResult,
    HideResult,
    /// Take back the sign of trouble in three seconds.
    ResetLater,
    ShowFrame { name: String },
    CloseLaunch,
    Quit,
}

/// Which reply the controller waits for. It comes before anything else can happen.
#[derive(Debug, Clone, PartialEq, Eq)]
pub enum Awaited {
    Nothing,
    ScanOpening { report: Vec<u8>, plan: Vec<u8> },
    Collection,
    CleanOpening,
    Reading,
}

/// What the controller knows.
#[derive(Debug, Clone, PartialEq, Eq)]
pub struct Tray {
    pub scanning: bool,
    pub cleaning: bool,
    pub paused: bool,
    pub report: Option<Vec<u8>>,
    pub plan: Option<Vec<u8>>,
    /// How many questions stand open. While they do, everything else goes on.
    pub questions: u64,
    pub animation_frame: usize,
    pub launch_frame: usize,
    pub result_before_run: i64,
    pub awaited: Awaited,
    pub start: StartTitle,
    pub stop_visible: bool,
    pub status: Status,
}

/// The title that fits a state.
pub open spec fn fitting_title(scanning: bool, cleaning: bool, paused: bool) -> StartTitle {
    if scanning {
        StartTitle::Scanning
    } else if cleaning && paused {
        StartTitle::Continue
    } else if cleaning {
        StartTitle::Pause
    } else {
        StartTitle::Start
    }
}

impl Tray {
    /// Whether anything runs.
    pub open spec fn is_running(self) -> bool {
        self.scanning || self.cleaning
    }

    /// Whether no reply is outstanding. A question may stand open.
    pub open spec fn is_open(self) -> bool {
        self.awaited is Nothing
    }

    /// What always holds: only the cleaner is paused; the report is there while the scan
    /// runs; a reply is awaited only of what can give it, and the cleaner is started with a
    /// plan only.
    pub open spec fn wf(self) -> bool {
        &&& self.paused ==> self.cleaning
        &&& self.report is Some <==> self.scanning
        &&& self.awaited is ScanOpening ==> !self.is_running()
        &&& self.awaited is Collection ==> !self.scanning
        &&& self.awaited is CleanOpening ==> self.plan is Some
        &&& self.awaited is Reading ==> !self.cleaning
        &&& self.animation_frame < FRAMES
        &&& self.launch_frame <= LAUNCH_FRAMES
    }

    /// What holds besides where no scan was started while a question stood open: a scan, the
    /// cleaner, a question and a reply exclude each other; the plan is there from the scan to
    /// the end of the cleaner; the menu fits the state.
    pub open spec fn orderly(self) -> bool {
        &&& self.wf()
        &&& !(self.scanning && self.cleaning)
        &&& self.is_running() ==> self.awaited is Nothing && self.questions == 0
        &&& self.questions <= 1
        &&& self.questions == 1 ==> self.awaited is Nothing
        &&& (self.is_running() || self.awaited is Collection || self.awaited is CleanOpening)
            ==> self.plan is Some
        &&& self.plan is Some ==> (self.is_running() || self.awaited is Collection
            || self.questions == 1 || self.awaited is CleanOpening)
        &&& self.start == fitting_title(self.scanning, self.cleaning, self.paused)
        &&& self.stop_visible == self.is_running()
    }
}

/// The removal of a file, where there is one.
pub open spec fn removal(path: Option<Vec<u8>>) -> Seq<Action> {
    match path {
        Some(path) => seq![Action::RemoveFile { path }],
        None => seq![],
    }
}

/// One action, or none.
pub open spec fn only_if(wanted: bool, action: Action) -> Seq<Action> {
    if wanted {
        seq![action]
    } else {
        seq![]
    }
}

/// The name of a scan, by which its files are called.
pub open spec fn scan_name(process: u32, nanos: u128) -> Seq<char> {
    "yeti3-scan-"@ + decimal(process as nat) + "-"@ + decimal(nanos as nat)
}

/// The command line of the scanner for a plan.
pub open spec fn scan_line(plan: Seq<u8>) -> Seq<Seq<u8>> {
    encoded(seq!["scan"@, "--max"@, "--verbose"@, "--plan-out"@]).push(plan)
}

/// Whether `action` starts a scan whose files stand in `place`.
pub open spec fn is_scan(
    action: Action,
    place: Seq<u8>,
    process: u32,
    nanos: u128,
    report: Seq<u8>,
    plan: Seq<u8>,
) -> bool {
    &&& report == joined(place, encode_utf8(scan_name(process, nanos) + ".txt"@))
    &&& plan == joined(place, encode_utf8(scan_name(process, nanos) + ".json"@))
    &&& action matches Action::Scan { report: to, plan: out, arguments }
    &&& to@ == report
    &&& out@ == plan
    &&& raw(arguments@) == scan_line(plan)
}

/// What stopping everything asks for.
pub open spec fn stopping(tray: Tray) -> Seq<Action> {
    only_if(tray.scanning, Action::KillScan) + removal(tray.report) + removal(tray.plan) + only_if(
        tray.cleaning && tray.paused,
        Action::Resume,
    ) + only_if(tray.cleaning, Action::Terminate) + seq![
        Action::ShowStart { title: StartTitle::Start },
        Action::ShowStop { visible: false },
        Action::ShowStatus { status: Status::Idle },
    ]
}

/// The controller once everything is stopped.
pub open spec fn stopped(tray: Tray) -> Tray {
    Tray {
        scanning: false,
        cleaning: false,
        paused: false,
        report: None,
        plan: None,
        start: StartTitle::Start,
        stop_visible: false,
        status: Status::Idle,
        ..tray
    }
}

/// Whether the start item takes the controller from `before` to `after`.
pub open spec fn starts(
    before: Tray,
    place: Seq<u8>,
    process: u32,
    nanos: u128,
    after: Tray,
    actions: Seq<Action>,
) -> bool {
    if !before.is_open() || before.scanning {
        after == before && actions.len() == 0
    } else if before.cleaning && before.paused {
        &&& after == (Tray {
            paused: false,
            animation_frame: 0,
            start: StartTitle::Pause,
            stop_visible: true,
            status: Status::Working { frame: 0 },
            ..before
        })
        &&& actions =~= seq![
            Action::Resume,
            Action::ShowStart { title: StartTitle::Pause },
            Action::ShowStatus { status: Status::Working { frame: 0 } },
            Action::ShowStop { visible: true },
        ]
    } else if before.cleaning {
        &&& after == (Tray {
            paused: true,
            start: StartTitle::Continue,
            stop_visible: true,
            status: Status::Paused,
            ..before
        })
        &&& actions =~= seq![
            Action::Suspend,
            Action::ShowStart { title: StartTitle::Continue },
            Action::ShowStatus { status: Status::Paused },
            Action::ShowStop { visible: true },
        ]
    } else {
        &&& actions.len() == 1
        &&& after.awaited matches Awaited::ScanOpening { report, plan }
        &&& is_scan(actions[0], place, process, nanos, report@, plan@)
        &&& after == (Tray { awaited: after.awaited, ..before })
    }
}

/// Whether the reply on the start of a scan takes the controller from `before` to `after`.
pub open spec fn opens_scan(
    before: Tray,
    opening: ScanOpening,
    after: Tray,
    actions: Seq<Action>,
) -> bool {
    match (before.awaited, opening) {
        (Awaited::ScanOpening { report, plan }, ScanOpening::Started) => {
            &&& after == (Tray {
                scanning: true,
                report: Some(report),
                plan: Some(plan),
                awaited: Awaited::Nothing,
                start: StartTitle::Scanning,
                stop_visible: true,
                status: Status::Working { frame: 0 },
                ..before
            })
            &&& actions =~= seq![
                Action::ShowStart { title: StartTitle::Scanning },
                Action::ShowStop { visible: true },
                Action::ShowStatus { status: Status::Working { frame: 0 } },
            ]
        },
        (Awaited::ScanOpening { report, plan }, _) => {
            &&& after == (Tray { awaited: Awaited::Nothing, status: Status::Trouble, ..before })
            &&& actions =~= only_if(
                opening == ScanOpening::NotSpawned,
                Action::RemoveFile { path: report },
            ) + seq![Action::ShowStatus { status: Status::Trouble }]
        },
        _ => after == before && actions.len() == 0,
    }
}

/// The number of open questions once another one is asked. It stays at its limit.
pub open spec fn one_more(questions: u64) -> u64 {
    if questions < u64::MAX {
        (questions + 1) as u64
    } else {
        questions
    }
}

/// Whether the end of a scan takes the controller from `before` to `after`.
pub open spec fn collects(
    before: Tray,
    success: Option<bool>,
    report: Option<String>,
    after: Tray,
    actions: Seq<Action>,
) -> bool {
    if !(before.awaited is Collection) {
        after == before && actions.len() == 0
    } else if success == Some(true) && report is Some {
        &&& after == (Tray {
            awaited: Awaited::Nothing,
            questions: one_more(before.questions),
            status: Status::Idle,
            ..before
        })
        &&& actions =~= seq![
            Action::ShowStatus { status: Status::Idle },
            Action::Ask { text: report->0 },
        ]
    } else {
        &&& after == (Tray {
            awaited: Awaited::Nothing,
            plan: None,
            status: Status::Trouble,
            ..before
        })
        &&& actions =~= seq![Action::ShowStatus { status: Status::Trouble }] + removal(before.plan)
    }
}

/// The id of a result, or zero where there is none.
pub open spec fn id_or_zero(latest: Option<i64>) -> i64 {
    match latest {
        Some(id) => id,
        None => 0,
    }
}

/// Whether the answer to a question takes the controller from `before` to `after`. The plan
/// is the one known by then.
pub open spec fn answers(
    before: Tray,
    selection: Option<CleanupSelection>,
    latest: Option<i64>,
    after: Tray,
    actions: Seq<Action>,
) -> bool {
    let questions = (before.questions - 1) as u64;
    if !before.is_open() || before.questions == 0 {
        after == before && actions.len() == 0
    } else {
        match (selection, before.plan) {
            (None, plan) => {
                &&& after == (Tray { questions, plan: None, ..before })
                &&& actions =~= removal(plan)
            },
            (Some(_), None) => {
                &&& after == (Tray {
                    questions,
                    result_before_run: id_or_zero(latest),
                    status: Status::Trouble,
                    ..before
                })
                &&& actions =~= seq![Action::ShowStatus { status: Status::Trouble }]
            },
            (Some(selection), Some(plan)) => {
                &&& after == (Tray {
                    questions,
                    awaited: Awaited::CleanOpening,
                    result_before_run: id_or_zero(latest),
                    ..before
                })
                &&& actions.len() == 1
                &&& actions[0] matches Action::Clean { arguments }
                &&& raw(arguments@) == clean_line(plan@, selection)
            },
        }
    }
}

/// Whether the reply on the start of the cleaner takes the controller from `before` to
/// `after`.
pub open spec fn opens_clean(
    before: Tray,
    started: bool,
    after: Tray,
    actions: Seq<Action>,
) -> bool {
    if !(before.awaited is CleanOpening) {
        after == before && actions.len() == 0
    } else if started {
        &&& after == (Tray {
            cleaning: true,
            paused: false,
            animation_frame: 0,
            awaited: Awaited::Nothing,
            start: StartTitle::Pause,
            stop_visible: true,
            status: Status::Working { frame: 0 },
            ..before
        })
        &&& actions =~= seq![
            Action::ShowStart { title: StartTitle::Pause },
            Action::ShowStop { visible: true },
            Action::ShowStatus { status: Status::Working { frame: 0 } },
        ]
    } else {
        &&& after == (Tray {
            awaited: Awaited::Nothing,
            plan: None,
            status: Status::Trouble,
            ..before
        })
        &&& actions =~= seq![Action::ShowStatus { status: Status::Trouble }] + removal(before.plan)
    }
}

/// Whether a result is newer than the one that stood there before the run.
pub open spec fn is_new(latest: Option<i64>, baseline: i64) -> bool {
    latest matches Some(id) && id > baseline
}

/// Whether the reading of the result takes the controller from `before` to `after`.
pub open spec fn reads(
    before: Tray,
    latest: Option<i64>,
    show_result: Option<bool>,
    after: Tray,
    actions: Seq<Action>,
) -> bool {
    if !(before.awaited is Reading) {
        after == before && actions.len() == 0
    } else if is_new(latest, before.result_before_run) {
        &&& after == (Tray { awaited: Awaited::Nothing, status: Status::Done, ..before })
        &&& actions =~= seq![Action::ShowStatus { status: Status::Done }] + only_if(
            show_result != Some(false),
            Action::ShowResult,
        )
    } else {
        &&& after == (Tray { awaited: Awaited::Nothing, status: Status::Trouble, ..before })
        &&& actions =~= seq![Action::ShowStatus { status: Status::Trouble }, Action::ResetLater]
    }
}

/// Whether a poll of the scan takes the controller from `before` to `after`.
pub open spec fn polls_scan(before: Tray, poll: Poll, after: Tray, actions: Seq<Action>) -> bool {
    if before.is_open() && before.scanning && poll != Poll::Running {
        &&& after == (Tray {
            scanning: false,
            report: None,
            awaited: Awaited::Collection,
            start: StartTitle::Start,
            stop_visible: false,
            ..before
        })
        &&& actions =~= seq![
            Action::ShowStart { title: StartTitle::Start },
            Action::ShowStop { visible: false },
            Action::CollectScan { from: before.report },
        ]
    } else {
        after == before && actions.len() == 0
    }
}

/// Whether a poll of the cleaner takes the controller from `before` to `after`.
pub open spec fn polls_clean(before: Tray, poll: Poll, after: Tray, actions: Seq<Action>) -> bool {
    if before.is_open() && before.cleaning && poll != Poll::Running {
        &&& after == (Tray {
            cleaning: false,
            paused: false,
            plan: None,
            awaited: Awaited::Reading,
            start: StartTitle::Start,
            stop_visible: false,
            ..before
        })
        &&& actions =~= seq![Action::Forget] + removal(before.plan) + seq![
            Action::ShowStart { title: StartTitle::Start },
            Action::ShowStop { visible: false },
            Action::ReadResult,
        ]
    } else {
        after == before && actions.len() == 0
    }
}

/// Whether the next frame of the animation takes the controller from `before` to `after`.
pub open spec fn ticks(before: Tray, after: Tray, actions: Seq<Action>) -> bool {
    if !before.is_running() {
        after == before && actions.len() == 0
    } else {
        let status = if before.paused {
            Status::Paused
        } else {
            Status::Working { frame: before.animation_frame }
        };
        let next = if before.paused {
            before.animation_frame as int
        } else {
            (before.animation_frame + 1) % FRAMES as int
        };
        &&& after == (Tray { status, animation_frame: next as usize, ..before })
        &&& actions =~= seq![Action::ShowStatus { status }]
    }
}

/// Whether the next frame of the launch takes the controller from `before` to `after`.
pub open spec fn launches(before: Tray, after: Tray, actions: Seq<Action>) -> bool {
    if before.launch_frame >= LAUNCH_FRAMES {
        after == before && actions =~= seq![Action::CloseLaunch]
    } else {
        &&& after == (Tray { launch_frame: (before.launch_frame + 1) as usize, ..before })
        &&& actions.len() == 1
        &&& actions[0] matches Action::ShowFrame { name }
        &&& name@ == frame_name(before.launch_frame as nat)
    }
}

/// Whether `event` takes the controller from `before` to `after` and makes it ask for
/// `actions`. A reply that is not awaited changes nothing, nor does a poll or what a user
/// does while one is outstanding.
pub open spec fn steps(before: Tray, event: Event, after: Tray, actions: Seq<Action>) -> bool {
    match event {
        Event::StartPressed { place, process, nanos } => starts(
            before,
            place@,
            process,
            nanos,
            after,
            actions,
        ),
        Event::StopPressed => if before.is_open() {
            after == stopped(before) && actions =~= stopping(before)
        } else {
            after == before && actions.len() == 0
        },
        Event::QuitPressed => if before.is_open() {
            after == stopped(before) && actions =~= stopping(before) + seq![Action::Quit]
        } else {
            after == before && actions.len() == 0
        },
        Event::ResetDue => if before.is_running() {
            after == before && actions.len() == 0
        } else {
            &&& after == (Tray { status: Status::Idle, ..before })
            &&& actions =~= seq![Action::ShowStatus { status: Status::Idle }]
        },
        Event::Tick => ticks(before, after, actions),
        Event::LaunchTick => launches(before, after, actions),
        Event::ResultClosed => {
            &&& after == (Tray { status: Status::Idle, ..before })
            &&& actions =~= seq![
                Action::HideResult,
                Action::ShowStatus { status: Status::Idle },
            ]
        },
        Event::ScanPolled { poll } => polls_scan(before, poll, after, actions),
        Event::CleanPolled { poll } => polls_clean(before, poll, after, actions),
        Event::ScanOpened { opening } => opens_scan(before, opening, after, actions),
        Event::ScanCollected { success, report } => collects(
            before,
            success,
            report,
            after,
            actions,
        ),
        Event::Answered { selection, latest } => answers(
            before,
            selection,
            latest,
            after,
            actions,
        ),
        Event::CleanOpened { started } => opens_clean(before, started, after, actions),
        Event::ResultRead { latest, show_result } => reads(
            before,
            latest,
            show_result,
            after,
            actions,
        ),
    }
}

/// Whether `tray` is the controller at launch.
pub open spec fn is_fresh(tray: Tray) -> bool {
    &&& !tray.scanning
    &&& !tray.cleaning
    &&& !tray.paused
    &&& tray.report is None
    &&& tray.plan is None
    &&& tray.questions == 0
    &&& tray.animation_frame == 0
    &&& tray.launch_frame == 0
    &&& tray.result_before_run == 0
    &&& tray.awaited is Nothing
    &&& tray.start == StartTitle::Start
    &&& !tray.stop_visible
    &&& tray.status == Status::Idle
}

/// Asks for the removal of a file, where there is one.
fn push_removal(actions: &mut Vec<Action>, path: Option<Vec<u8>>)
    ensures
        final(actions)@ == old(actions)@ + removal(path),
{
    if let Some(path) = path {
        actions.push(Action::RemoveFile { path });
    }
}

/// Writes the command line of the scanner.
fn scan_arguments(plan: &[u8]) -> (arguments: Vec<Vec<u8>>)
    ensures
        raw(arguments@) == scan_line(plan@),
{
    let mut arguments: Vec<Vec<u8>> = Vec::new();
    add_argument(&mut arguments, "scan");
    add_argument(&mut arguments, "--max");
    add_argument(&mut arguments, "--verbose");
    add_argument(&mut arguments, "--plan-out");
    add_path(&mut arguments, plan);
    assert(raw(arguments@) =~= scan_line(plan@));
    arguments
}

/// Names a file of a scan.
fn scan_file(place: &[u8], process: u32, nanos: u128, extension: &str) -> (path: Vec<u8>)
    ensures
        path@ == joined(place@, encode_utf8(scan_name(process, nanos) + extension@)),
{
    let mut name = "yeti3-scan-".to_owned();
    let number = decimal_text(process as u64);
    let time = wide_decimal_text(nanos);
    name.append(number.as_str());
    name.append("-");
    name.append(time.as_str());
    name.append(extension);
    assert(name@ =~= scan_name(process, nanos) + extension@);
    join(place, name.as_str().as_bytes())
}

impl Tray {
    /// The controller at launch.
    pub fn new() -> (tray: Tray)
        ensures
            is_fresh(tray),
            tray.orderly(),
    {
        Tray {
            scanning: false,
            cleaning: false,
            paused: false,
            report: None,
            plan: None,
            questions: 0,
            animation_frame: 0,
            launch_frame: 0,
            result_before_run: 0,
            awaited: Awaited::Nothing,
            start: StartTitle::Start,
            stop_visible: false,
            status: Status::Idle,
        }
    }

    fn show_start(&mut self, title: StartTitle, actions: &mut Vec<Action>)
        ensures
            *final(self) == (Tray { start: title, ..*old(self) }),
            final(actions)@ == old(actions)@.push(Action::ShowStart { title }),
    {
        self.start = title;
        actions.push(Action::ShowStart { title });
    }

    fn show_stop(&mut self, visible: bool, actions: &mut Vec<Action>)
        ensures
            *final(self) == (Tray { stop_visible: visible, ..*old(self) }),
            final(actions)@ == old(actions)@.push(Action::ShowStop { visible }),
    {
        self.stop_visible = visible;
        actions.push(Action::ShowStop { visible });
    }

    fn show_status(&mut self, status: Status, actions: &mut Vec<Action>)
        ensures
            *final(self) == (Tray { status, ..*old(self) }),
            final(actions)@ == old(actions)@.push(Action::ShowStatus { status }),
    {
        self.status = status;
        actions.push(Action::ShowStatus { status });
    }

    /// Decides whether no reply is outstanding.
    fn accepts(&self) -> (open: bool)
        ensures
            open == self.is_open(),
    {
        matches!(self.awaited, Awaited::Nothing)
    }

    /// Starts a scan, or holds the cleaner, or lets it go on.
    fn start_pause(&mut self, place: Vec<u8>, process: u32, nanos: u128) -> (actions: Vec<Action>)
        ensures
            starts(*old(self), place@, process, nanos, *final(self), actions@),
    {
        let mut actions: Vec<Action> = Vec::new();
        if !self.accepts() || self.scanning {
            return actions;
        }
        if self.cleaning {
            if self.paused {
                actions.push(Action::Resume);
                self.paused = false;
                self.animation_frame = 0;
                self.show_start(StartTitle::Pause, &mut actions);
                self.show_status(Status::Working { frame: 0 }, &mut actions);
            } else {
                actions.push(Action::Suspend);
                self.paused = true;
                self.show_start(StartTitle::Continue, &mut actions);
                self.show_status(Status::Paused, &mut actions);
            }
            self.show_stop(true, &mut actions);
            return actions;
        }
        let report = scan_file(place.as_slice(), process, nanos, ".txt");
        let plan = scan_file(place.as_slice(), process, nanos, ".json");
        let arguments = scan_arguments(plan.as_slice());
        let (to, out) = (report.clone(), plan.clone());
        assert(to@ =~= report@ && out@ =~= plan@);
        self.awaited = Awaited::ScanOpening { report, plan };
        actions.push(Action::Scan { report: to, plan: out, arguments });
        actions
    }

    /// Takes the reply on the start of a scan.
    fn scan_opened(&mut self, opening: ScanOpening) -> (actions: Vec<Action>)
        ensures
            opens_scan(*old(self), opening, *final(self), actions@),
    {
        let mut actions: Vec<Action> = Vec::new();
        let mut awaited = Awaited::Nothing;
        core::mem::swap(&mut self.awaited, &mut awaited);
        let (report, plan) = match awaited {
            Awaited::ScanOpening { report, plan } => (report, plan),
            other => {
                self.awaited = other;
                return actions;
            },
        };
        match opening {
            ScanOpening::Started => {
                self.scanning = true;
                self.report = Some(report);
                self.plan = Some(plan);
                self.show_start(StartTitle::Scanning, &mut actions);
                self.show_stop(true, &mut actions);
                self.show_status(Status::Working { frame: 0 }, &mut actions);
            },
            ScanOpening::NoReport => {
                self.show_status(Status::Trouble, &mut actions);
            },
            ScanOpening::NotSpawned => {
                actions.push(Action::RemoveFile { path: report });
                self.show_status(Status::Trouble, &mut actions);
            },
        }
        actions
    }

    /// Stops whatever runs and gives up its files.
    pub fn stop_child(&mut self) -> (actions: Vec<Action>)
        ensures
            *final(self) == stopped(*old(self)),
            actions@ == stopping(*old(self)),
    {
        let mut actions: Vec<Action> = Vec::new();
        if self.scanning {
            self.scanning = false;
            actions.push(Action::KillScan);
        }
        push_removal(&mut actions, self.report.take());
        push_removal(&mut actions, self.plan.take());
        if self.cleaning {
            if self.paused {
                actions.push(Action::Resume);
            }
            actions.push(Action::Terminate);
        }
        self.cleaning = false;
        self.paused = false;
        self.show_start(StartTitle::Start, &mut actions);
        self.show_stop(false, &mut actions);
        self.show_status(Status::Idle, &mut actions);
        assert(actions@ =~= stopping(*old(self)));
        actions
    }

    /// Takes a poll of the scan.
    fn reap_scan_finished(&mut self, poll: Poll) -> (actions: Vec<Action>)
        ensures
            polls_scan(*old(self), poll, *final(self), actions@),
    {
        let mut actions: Vec<Action> = Vec::new();
        if self.accepts() && self.scanning && poll != Poll::Running {
            self.scanning = false;
            self.awaited = Awaited::Collection;
            self.show_start(StartTitle::Start, &mut actions);
            self.show_stop(false, &mut actions);
            let from = self.report.take();
            actions.push(Action::CollectScan { from });
        }
        actions
    }

    /// Gives up on a scan or a cleaner that could not do its work.
    fn give_up(&mut self) -> (actions: Vec<Action>)
        ensures
            *final(self) == (Tray {
                awaited: Awaited::Nothing,
                plan: None,
                status: Status::Trouble,
                ..*old(self)
            }),
            actions@ == seq![Action::ShowStatus { status: Status::Trouble }] + removal(
                old(self).plan,
            ),
    {
        let mut actions: Vec<Action> = Vec::new();
        self.awaited = Awaited::Nothing;
        self.show_status(Status::Trouble, &mut actions);
        push_removal(&mut actions, self.plan.take());
        actions
    }

    /// Takes the end of a scan.
    fn scan_collected(&mut self, success: Option<bool>, report: Option<String>) -> (actions: Vec<
        Action,
    >)
        ensures
            collects(*old(self), success, report, *final(self), actions@),
    {
        let mut actions: Vec<Action> = Vec::new();
        if !matches!(self.awaited, Awaited::Collection) {
            return actions;
        }
        match (success, report) {
            (Some(true), Some(report)) => {
                self.awaited = Awaited::Nothing;
                if self.questions < u64::MAX {
                    self.questions = self.questions + 1;
                }
                self.show_status(Status::Idle, &mut actions);
                actions.push(Action::Ask { text: report });
                actions
            },
            _ => self.give_up(),
        }
    }

    /// Starts the cleaner on what was selected.
    fn start_cleaning(&mut self, selection: CleanupSelection, latest: Option<i64>) -> (actions: Vec<
        Action,
    >)
        requires
            old(self).is_open(),
            old(self).questions > 0,
        ensures
            answers(*old(self), Some(selection), latest, *final(self), actions@),
    {
        let mut actions: Vec<Action> = Vec::new();
        self.questions = self.questions - 1;
        self.result_before_run = match latest {
            Some(id) => id,
            None => 0,
        };
        let arguments = match &self.plan {
            Some(plan) => Some(clean_arguments(plan.as_slice(), &selection)),
            None => None,
        };
        match arguments {
            Some(arguments) => {
                self.awaited = Awaited::CleanOpening;
                actions.push(Action::Clean { arguments });
            },
            None => {
                self.show_status(Status::Trouble, &mut actions);
            },
        }
        actions
    }

    /// Takes the answer to a question.
    fn answered(&mut self, selection: Option<CleanupSelection>, latest: Option<i64>) -> (actions:
        Vec<Action>)
        ensures
            answers(*old(self), selection, latest, *final(self), actions@),
    {
        let mut actions: Vec<Action> = Vec::new();
        if !self.accepts() || self.questions == 0 {
            return actions;
        }
        match selection {
            Some(selection) => self.start_cleaning(selection, latest),
            None => {
                self.questions = self.questions - 1;
                push_removal(&mut actions, self.plan.take());
                actions
            },
        }
    }

    /// Takes the reply on the start of the cleaner.
    fn clean_opened(&mut self, started: bool) -> (actions: Vec<Action>)
        ensures
            opens_clean(*old(self), started, *final(self), actions@),
    {
        let mut actions: Vec<Action> = Vec::new();
        if !matches!(self.awaited, Awaited::CleanOpening) {
            return actions;
        }
        if !started {
            return self.give_up();
        }
        self.awaited = Awaited::Nothing;
        self.cleaning = true;
        self.paused = false;
        self.animation_frame = 0;
        self.show_start(StartTitle::Pause, &mut actions);
        self.show_stop(true, &mut actions);
        self.show_status(Status::Working { frame: 0 }, &mut actions);
        actions
    }

    /// Takes a poll of the cleaner.
    fn reap_finished(&mut self, poll: Poll) -> (actions: Vec<Action>)
        ensures
            polls_clean(*old(self), poll, *final(self), actions@),
    {
        let mut actions: Vec<Action> = Vec::new();
        if self.accepts() && self.cleaning && poll != Poll::Running {
            self.cleaning = false;
            actions.push(Action::Forget);
            push_removal(&mut actions, self.plan.take());
            self.paused = false;
            self.awaited = Awaited::Reading;
            self.show_start(StartTitle::Start, &mut actions);
            self.show_stop(false, &mut actions);
            actions.push(Action::ReadResult);
            assert(actions@ =~= seq![Action::Forget] + removal(old(self).plan) + seq![
                Action::ShowStart { title: StartTitle::Start },
                Action::ShowStop { visible: false },
                Action::ReadResult,
            ]);
        }
        actions
    }

    /// Takes what was read of the result.
    fn result_read(&mut self, latest: Option<i64>, show_result: Option<bool>) -> (actions: Vec<
        Action,
    >)
        ensures
            reads(*old(self), latest, show_result, *final(self), actions@),
    {
        let mut actions: Vec<Action> = Vec::new();
        if !matches!(self.awaited, Awaited::Reading) {
            return actions;
        }
        self.awaited = Awaited::Nothing;
        let new = match latest {
            Some(id) => id > self.result_before_run,
            None => false,
        };
        if new {
            self.show_status(Status::Done, &mut actions);
            let show = match show_result {
                Some(show) => show,
                None => true,
            };
            if show {
                actions.push(Action::ShowResult);
            }
        } else {
            self.show_status(Status::Trouble, &mut actions);
            actions.push(Action::ResetLater);
        }
        actions
    }

    /// Shows the next frame of the animation.
    fn animation_tick(&mut self) -> (actions: Vec<Action>)
        ensures
            ticks(*old(self), *final(self), actions@),
    {
        let mut actions: Vec<Action> = Vec::new();
        if self.scanning || self.cleaning {
            if self.paused {
                self.show_status(Status::Paused, &mut actions);
            } else {
                let frame: usize = self.animation_frame;
                self.show_status(Status::Working { frame }, &mut actions);
                self.animation_frame = (frame % FRAMES + 1) % FRAMES;
            }
        }
        actions
    }

    /// Shows the next frame of the launch.
    fn launch_tick(&mut self) -> (actions: Vec<Action>)
        ensures
            launches(*old(self), *final(self), actions@),
    {
        let mut actions: Vec<Action> = Vec::new();
        if self.launch_frame >= LAUNCH_FRAMES {
            actions.push(Action::CloseLaunch);
        } else {
            actions.push(Action::ShowFrame { name: frame_file(self.launch_frame) });
            self.launch_frame = self.launch_frame + 1;
        }
        actions
    }

    /// Takes `event`, and tells what is to be done.
    pub fn step(&mut self, event: Event) -> (actions: Vec<Action>)
        ensures
            steps(*old(self), event, *final(self), actions@),
            old(self).wf() ==> final(self).wf(),
            old(self).orderly() && !(event is StartPressed && old(self).questions > 0)
                ==> final(self).orderly(),
    {
        let open = self.accepts();
        let running = self.scanning || self.cleaning;
        let mut actions: Vec<Action> = Vec::new();
        match event {
            Event::StartPressed { place, process, nanos } => self.start_pause(
                place,
                process,
                nanos,
            ),
            Event::StopPressed => if open {
                self.stop_child()
            } else {
                actions
            },
            Event::QuitPressed => if open {
                let mut actions = self.stop_child();
                actions.push(Action::Quit);
                actions
            } else {
                actions
            },
            Event::ResetDue => {
                if !running {
                    self.show_status(Status::Idle, &mut actions);
                }
                actions
            },
            Event::Tick => self.animation_tick(),
            Event::LaunchTick => self.launch_tick(),
            Event::ResultClosed => {
                actions.push(Action::HideResult);
                self.show_status(Status::Idle, &mut actions);
                actions
            },
            Event::ScanPolled { poll } => self.reap_scan_finished(poll),
            Event::CleanPolled { poll } => self.reap_finished(poll),
            Event::ScanOpened { opening } => self.scan_opened(opening),
            Event::ScanCollected { success, report } => self.scan_collected(success, report),
            Event::Answered { selection, latest } => self.answered(selection, latest),
            Event::CleanOpened { started } => self.clean_opened(started),
            Event::ResultRead { latest, show_result } => self.result_read(latest, show_result),
        }
    }
}

} // verus!
