//! The controller behind the tray icon, step by step.

use yeti3_cleaner::selection::{Choice, CleanupSelection};
use yeti3_cleaner::tray::machine::{Action, Awaited, Event, Poll, ScanOpening, Tray};
use yeti3_cleaner::tray::menu::{open_disk_helper, tray_menu, Command, Entry, HelperView};
use yeti3_cleaner::tray::signs::{
    clicked, frame_file, set_stop_visible, Click, Opening, StartTitle, Status, StopChange,
};

fn bytes(value: &str) -> Vec<u8> {
    value.as_bytes().to_vec()
}

fn text(value: &str) -> String {
    String::from(value)
}

fn start() -> Event {
    Event::StartPressed { place: bytes("/tmp"), process: 77, nanos: 123456789012345678901 }
}

fn selection() -> CleanupSelection {
    CleanupSelection {
        groups: vec![Choice::Caches],
        backups: false,
        homebrew: false,
        docker: true,
        xcode: false,
    }
}

fn scanning() -> Tray {
    let mut tray = Tray::new();
    tray.step(start());
    tray.step(Event::ScanOpened { opening: ScanOpening::Started });
    tray
}

fn asking() -> Tray {
    let mut tray = scanning();
    tray.step(Event::ScanPolled { poll: Poll::Ended });
    tray.step(Event::ScanCollected { success: Some(true), report: Some(text("report")) });
    tray
}

fn cleaning() -> Tray {
    let mut tray = asking();
    tray.step(Event::Answered { selection: Some(selection()), latest: Some(5) });
    tray.step(Event::CleanOpened { started: true });
    tray
}

const REPORT: &str = "/tmp/yeti3-scan-77-123456789012345678901.txt";
const PLAN: &str = "/tmp/yeti3-scan-77-123456789012345678901.json";

#[test]
fn scan_is_started() {
    let mut tray = Tray::new();
    assert_eq!(
        tray.step(start()),
        vec![Action::Scan {
            report: bytes(REPORT),
            plan: bytes(PLAN),
            arguments: vec![
                bytes("scan"),
                bytes("--max"),
                bytes("--verbose"),
                bytes("--plan-out"),
                bytes(PLAN),
            ],
        }]
    );
    assert_eq!(
        tray.step(Event::ScanOpened { opening: ScanOpening::Started }),
        vec![
            Action::ShowStart { title: StartTitle::Scanning },
            Action::ShowStop { visible: true },
            Action::ShowStatus { status: Status::Working { frame: 0 } },
        ]
    );
    assert!(tray.scanning && tray.stop_visible);
    assert_eq!(tray.report, Some(bytes(REPORT)));
    assert_eq!(tray.plan, Some(bytes(PLAN)));
    assert_eq!(tray.step(start()), vec![]);
    assert_eq!(tray.step(Event::ScanPolled { poll: Poll::Running }), vec![]);
}

#[test]
fn scan_that_cannot_start_is_trouble() {
    let mut tray = Tray::new();
    tray.step(start());
    assert_eq!(
        tray.step(Event::ScanOpened { opening: ScanOpening::NoReport }),
        vec![Action::ShowStatus { status: Status::Trouble }]
    );
    tray.step(start());
    assert_eq!(
        tray.step(Event::ScanOpened { opening: ScanOpening::NotSpawned }),
        vec![
            Action::RemoveFile { path: bytes(REPORT) },
            Action::ShowStatus { status: Status::Trouble },
        ]
    );
    assert!(!tray.scanning && tray.plan.is_none());
    assert_eq!(
        tray.step(Event::ResetDue),
        vec![Action::ShowStatus { status: Status::Idle }]
    );
}

#[test]
fn finished_scan_is_collected() {
    for poll in [Poll::Ended, Poll::Failed] {
        let mut tray = scanning();
        assert_eq!(
            tray.step(Event::ScanPolled { poll }),
            vec![
                Action::ShowStart { title: StartTitle::Start },
                Action::ShowStop { visible: false },
                Action::CollectScan { from: Some(bytes(REPORT)) },
            ]
        );
        assert_eq!(
            tray.step(Event::ScanCollected { success: Some(true), report: Some(text("r")) }),
            vec![
                Action::ShowStatus { status: Status::Idle },
                Action::Ask { text: text("r") },
            ]
        );
        assert_eq!((tray.awaited, tray.questions), (Awaited::Nothing, 1));
    }
}

#[test]
fn failed_scan_gives_up_its_plan() {
    for (success, report) in [
        (Some(false), Some(text("r"))),
        (None, Some(text("r"))),
        (Some(true), None),
    ] {
        let mut tray = scanning();
        tray.step(Event::ScanPolled { poll: Poll::Ended });
        assert_eq!(
            tray.step(Event::ScanCollected { success, report }),
            vec![
                Action::ShowStatus { status: Status::Trouble },
                Action::RemoveFile { path: bytes(PLAN) },
            ]
        );
        assert!(tray.plan.is_none());
    }
}

#[test]
fn nothing_is_cleaned_without_an_answer() {
    let mut tray = asking();
    assert_eq!(
        tray.step(Event::Answered { selection: None, latest: None }),
        vec![Action::RemoveFile { path: bytes(PLAN) }]
    );
    assert!(!tray.cleaning);
    assert_eq!(
        tray.step(Event::Answered { selection: Some(selection()), latest: None }),
        vec![]
    );
    assert_eq!(tray.step(Event::CleanOpened { started: true }), vec![]);
    assert!(!tray.cleaning);
}

#[test]
fn answer_starts_the_cleaner() {
    let mut tray = asking();
    assert_eq!(
        tray.step(Event::Answered { selection: Some(selection()), latest: Some(5) }),
        vec![Action::Clean {
            arguments: vec![
                bytes("clean"),
                bytes("--max"),
                bytes("--yes"),
                bytes("--plan-in"),
                bytes(PLAN),
                bytes("--selected"),
                bytes("caches"),
                bytes("--include-docker"),
            ],
        }]
    );
    assert_eq!(tray.result_before_run, 5);
    assert_eq!(
        tray.step(Event::CleanOpened { started: true }),
        vec![
            Action::ShowStart { title: StartTitle::Pause },
            Action::ShowStop { visible: true },
            Action::ShowStatus { status: Status::Working { frame: 0 } },
        ]
    );
    assert!(tray.cleaning && !tray.scanning);
}

#[test]
fn cleaner_that_cannot_start_is_trouble() {
    let mut tray = asking();
    tray.step(Event::Answered { selection: Some(selection()), latest: None });
    assert_eq!(tray.result_before_run, 0);
    assert_eq!(
        tray.step(Event::CleanOpened { started: false }),
        vec![
            Action::ShowStatus { status: Status::Trouble },
            Action::RemoveFile { path: bytes(PLAN) },
        ]
    );
}

#[test]
fn answer_after_a_stop_is_trouble() {
    let mut tray = asking();
    tray.step(Event::StopPressed);
    assert_eq!(
        tray.step(Event::Answered { selection: Some(selection()), latest: None }),
        vec![Action::ShowStatus { status: Status::Trouble }]
    );
}

fn later() -> Event {
    Event::StartPressed { place: vec![b'/', 0xff], process: 77, nanos: 2 }
}

const LATER_PLAN: &[u8] = b"/\xff/yeti3-scan-77-2.json";

#[test]
fn question_does_not_keep_a_scan_from_starting() {
    let mut tray = asking();
    let actions = tray.step(later());
    assert!(matches!(&actions[..], [Action::Scan { plan, .. }] if plan == LATER_PLAN));
    tray.step(Event::ScanOpened { opening: ScanOpening::Started });
    assert!(tray.scanning);
    assert_eq!((tray.questions, tray.plan.as_deref()), (1, Some(LATER_PLAN)));
    // The first question is answered while the second scan runs.
    let actions = tray.step(Event::Answered { selection: Some(selection()), latest: None });
    assert!(matches!(&actions[..], [Action::Clean { arguments }] if arguments[4] == LATER_PLAN));
    tray.step(Event::CleanOpened { started: true });
    assert!(tray.scanning && tray.cleaning && tray.questions == 0);
    assert_eq!(tray.start, StartTitle::Pause);
    assert_eq!(tray.step(later()), vec![]);
}

#[test]
fn questions_are_answered_one_by_one() {
    let mut tray = asking();
    tray.step(later());
    tray.step(Event::ScanOpened { opening: ScanOpening::Started });
    tray.step(Event::ScanPolled { poll: Poll::Ended });
    tray.step(Event::ScanCollected { success: Some(true), report: Some(text("r")) });
    assert_eq!(tray.questions, 2);
    assert_eq!(
        tray.step(Event::Answered { selection: None, latest: None }),
        vec![Action::RemoveFile { path: LATER_PLAN.to_vec() }]
    );
    assert_eq!(
        tray.step(Event::Answered { selection: Some(selection()), latest: Some(3) }),
        vec![Action::ShowStatus { status: Status::Trouble }]
    );
    assert_eq!((tray.questions, tray.result_before_run), (0, 3));
    let settled = tray.clone();
    assert_eq!(
        tray.step(Event::Answered { selection: Some(selection()), latest: Some(9) }),
        vec![]
    );
    assert_eq!(tray, settled);
}

#[test]
fn pause_is_taken_back() {
    let mut tray = cleaning();
    let before = tray.clone();
    assert_eq!(
        tray.step(start()),
        vec![
            Action::Suspend,
            Action::ShowStart { title: StartTitle::Continue },
            Action::ShowStatus { status: Status::Paused },
            Action::ShowStop { visible: true },
        ]
    );
    assert!(tray.paused);
    assert_eq!(
        tray.step(Event::Tick),
        vec![Action::ShowStatus { status: Status::Paused }]
    );
    assert_eq!(
        tray.step(start()),
        vec![
            Action::Resume,
            Action::ShowStart { title: StartTitle::Pause },
            Action::ShowStatus { status: Status::Working { frame: 0 } },
            Action::ShowStop { visible: true },
        ]
    );
    assert_eq!(tray, before);
}

#[test]
fn stop_ends_everything() {
    let mut tray = scanning();
    assert_eq!(
        tray.step(Event::StopPressed),
        vec![
            Action::KillScan,
            Action::RemoveFile { path: bytes(REPORT) },
            Action::RemoveFile { path: bytes(PLAN) },
            Action::ShowStart { title: StartTitle::Start },
            Action::ShowStop { visible: false },
            Action::ShowStatus { status: Status::Idle },
        ]
    );
    let mut tray = cleaning();
    tray.step(start());
    assert_eq!(
        tray.step(Event::QuitPressed),
        vec![
            Action::RemoveFile { path: bytes(PLAN) },
            Action::Resume,
            Action::Terminate,
            Action::ShowStart { title: StartTitle::Start },
            Action::ShowStop { visible: false },
            Action::ShowStatus { status: Status::Idle },
            Action::Quit,
        ]
    );
    assert!(!tray.cleaning && !tray.paused && tray.plan.is_none());
}

#[test]
fn second_stop_changes_nothing() {
    for mut tray in [scanning(), cleaning(), Tray::new()] {
        tray.stop_child();
        let once = tray.clone();
        assert_eq!(
            tray.step(Event::StopPressed),
            vec![
                Action::ShowStart { title: StartTitle::Start },
                Action::ShowStop { visible: false },
                Action::ShowStatus { status: Status::Idle },
            ]
        );
        assert_eq!(tray, once);
    }
}

#[test]
fn animation_goes_on_from_any_frame() {
    let mut tray = cleaning();
    tray.animation_frame = usize::MAX;
    tray.step(Event::Tick);
    assert_eq!(tray.animation_frame, 0);
    tray.step(Event::Tick);
    assert_eq!(tray.animation_frame, 1);
}

#[test]
fn only_a_new_result_is_shown() {
    let mut tray = cleaning();
    assert_eq!(
        tray.step(Event::CleanPolled { poll: Poll::Failed }),
        vec![
            Action::Forget,
            Action::RemoveFile { path: bytes(PLAN) },
            Action::ShowStart { title: StartTitle::Start },
            Action::ShowStop { visible: false },
            Action::ReadResult,
        ]
    );
    let waiting = tray.clone();
    for show_result in [Some(true), None] {
        let mut tray = waiting.clone();
        assert_eq!(
            tray.step(Event::ResultRead { latest: Some(6), show_result }),
            vec![Action::ShowStatus { status: Status::Done }, Action::ShowResult]
        );
        assert_eq!(
            tray.step(Event::ResultClosed),
            vec![Action::HideResult, Action::ShowStatus { status: Status::Idle }]
        );
    }
    let mut tray = waiting.clone();
    assert_eq!(
        tray.step(Event::ResultRead { latest: Some(6), show_result: Some(false) }),
        vec![Action::ShowStatus { status: Status::Done }]
    );
    for latest in [Some(5), None] {
        let mut tray = waiting.clone();
        assert_eq!(
            tray.step(Event::ResultRead { latest, show_result: Some(true) }),
            vec![Action::ShowStatus { status: Status::Trouble }, Action::ResetLater]
        );
    }
}

#[test]
fn animation_goes_round() {
    let mut tray = cleaning();
    let mut shown = Vec::new();
    for _ in 0..9 {
        for action in tray.step(Event::Tick) {
            if let Action::ShowStatus { status } = action {
                shown.push(status.text());
            }
        }
    }
    assert_eq!(
        shown,
        ["Y³ ·", "Y³ •", "Y³ ●", "Y³ •", "Y³ ·", "Y³  ", "Y³ ·", "Y³ •", "Y³ ·"]
    );
    assert_eq!(Tray::new().step(Event::Tick), vec![]);
    let busy = tray.step(Event::ResetDue);
    assert_eq!(busy, vec![]);
}

#[test]
fn launch_shows_each_frame() {
    let mut tray = Tray::new();
    for frame in 0..24 {
        assert_eq!(
            tray.step(Event::LaunchTick),
            vec![Action::ShowFrame { name: format!("frame-{frame:02}.png") }]
        );
    }
    for _ in 0..3 {
        assert_eq!(tray.step(Event::LaunchTick), vec![Action::CloseLaunch]);
    }
    assert_eq!(frame_file(123), "frame-123.png");
}

/// Lets 20,000 things happen. Where the walk is `orderly`, no start is chosen while a
/// question stands open.
fn walk(orderly: bool) {
    let mut state: u64 = 1;
    let mut roll = |sides: u64| {
        state = state.wrapping_mul(6364136223846793005).wrapping_add(1442695040888963407);
        (state >> 33) % sides
    };
    let mut tray = Tray::new();
    let (mut title, mut visible, mut status) = (StartTitle::Start, false, Status::Idle);
    for _ in 0..20_000 {
        let event = match roll(16) {
            0 | 1 => start(),
            2 => Event::StopPressed,
            3 => Event::ResetDue,
            4 => Event::Tick,
            5 => Event::ResultClosed,
            6 => Event::ScanPolled { poll: Poll::Ended },
            7 => Event::CleanPolled { poll: Poll::Ended },
            8 | 9 => Event::ScanOpened { opening: ScanOpening::Started },
            10 => Event::ScanOpened { opening: ScanOpening::NotSpawned },
            11 => Event::ScanCollected { success: Some(true), report: Some(text("r")) },
            12 => Event::Answered { selection: Some(selection()), latest: None },
            13 => Event::CleanOpened { started: true },
            14 => Event::ResultRead { latest: Some(1), show_result: None },
            _ => Event::LaunchTick,
        };
        if orderly && tray.questions > 0 && matches!(event, Event::StartPressed { .. }) {
            continue;
        }
        for action in tray.step(event) {
            match action {
                Action::ShowStart { title: new } => title = new,
                Action::ShowStop { visible: new } => visible = new,
                Action::ShowStatus { status: new } => status = new,
                _ => {}
            }
        }
        assert!(!tray.paused || tray.cleaning);
        assert_eq!(tray.report.is_some(), tray.scanning);
        assert_eq!((title, visible, status), (tray.start, tray.stop_visible, tray.status));
        if orderly {
            assert!(!(tray.scanning && tray.cleaning) && tray.questions <= 1);
            assert_eq!(visible, tray.scanning || tray.cleaning);
        }
    }
}

#[test]
fn whatever_happens_the_rules_hold() {
    walk(false);
}

#[test]
fn steps_stay_orderly() {
    walk(true);
}

#[test]
fn titles_and_signs_read() {
    assert_eq!(StartTitle::Start.text(), "Старт очистки");
    assert_eq!(StartTitle::Scanning.text(), "Сканирование…");
    assert_eq!(StartTitle::Pause.text(), "Пауза");
    assert_eq!(StartTitle::Continue.text(), "Продолжить");
    assert_eq!(Status::Idle.text(), "Y³");
    assert_eq!(Status::Paused.text(), "Y³ Ⅱ");
    assert_eq!(Status::Done.text(), "Y³ ✓");
    assert_eq!(Status::Trouble.text(), "Y³ !");
}

#[test]
fn clicks_open_the_menu_or_the_statistics() {
    assert_eq!(clicked(Click::RightDown, false, false), Opening::Statistics);
    assert_eq!(clicked(Click::RightUp, true, true), Opening::Statistics);
    assert_eq!(clicked(Click::LeftDown, true, true), Opening::Menu);
    assert_eq!(clicked(Click::LeftUp, true, true), Opening::Menu);
    assert_eq!(clicked(Click::LeftDown, false, true), Opening::Nothing);
    assert_eq!(clicked(Click::LeftDown, true, false), Opening::Nothing);
    assert_eq!(clicked(Click::Other, true, true), Opening::Nothing);
}

#[test]
fn stop_item_comes_and_goes() {
    let index = |menu: &[&str], item: &str| {
        menu.iter().position(|other| *other == item).map_or(-1, |at| at as isize)
    };
    let shown = |menu: &[&'static str], visible: bool| {
        let mut menu = menu.to_vec();
        let stop = index(&menu, "stop");
        match set_stop_visible(visible, stop, Some(index(&menu, "start"))) {
            StopChange::Insert { at } => menu.insert(at as usize, "stop"),
            StopChange::Remove => {
                menu.remove(stop as usize);
            }
            StopChange::Enable | StopChange::Keep => {}
        }
        menu
    };
    for menu in [vec!["start", "quit"], vec!["about", "start"], vec!["quit"]] {
        let once = shown(&menu, true);
        assert!(once.contains(&"stop"));
        assert_eq!(shown(&once, true), once);
        assert_eq!(shown(&once, false), menu);
        assert_eq!(shown(&menu, false), menu);
    }
    assert_eq!(shown(&["about", "start", "quit"], true), ["about", "start", "stop", "quit"]);
}

#[test]
fn stop_item_is_put_behind_the_start_item() {
    assert_eq!(set_stop_visible(true, -1, Some(3)), StopChange::Insert { at: 4 });
    assert_eq!(set_stop_visible(true, -1, Some(-1)), StopChange::Insert { at: 1 });
    assert_eq!(set_stop_visible(true, -1, None), StopChange::Insert { at: 1 });
    assert_eq!(set_stop_visible(true, 1, Some(0)), StopChange::Enable);
    assert_eq!(set_stop_visible(false, 1, Some(0)), StopChange::Remove);
    assert_eq!(set_stop_visible(false, -1, Some(0)), StopChange::Keep);
}

#[test]
fn menu_has_its_items() {
    let mut titles = Vec::new();
    for entry in tray_menu() {
        match entry {
            Entry::Item { title, command } => titles.push((title, Some(command))),
            Entry::Separator => titles.push(("", None)),
        }
    }
    assert_eq!(
        titles,
        vec![
            ("Старт очистки", Some(Command::StartPause)),
            ("", None),
            ("Статистика…", Some(Command::OpenStatistics)),
            ("Карта диска и каталоги…", Some(Command::OpenDiskMap)),
            ("Проверить обновление…", Some(Command::CheckUpdates)),
            ("Настройки…", Some(Command::OpenSettings)),
            ("", None),
            ("О программе", Some(Command::About)),
            ("Выход", Some(Command::Quit)),
        ]
    );
    assert_eq!(titles[0].0, Tray::new().start.text());
}

#[test]
fn helper_is_opened_with_its_view() {
    let engine = b"/Applications/Y.app/Contents/MacOS/yeti3-cleaner-engine";
    let helper = "/Applications/Y.app/Contents/Helpers/Yeti3-DiskMap.app";
    assert_eq!(
        open_disk_helper(engine, HelperView::DiskMap),
        vec![bytes("-a"), bytes(helper)]
    );
    assert_eq!(
        open_disk_helper(engine, HelperView::Updates),
        vec![bytes("-a"), bytes(helper), bytes("-n"), bytes("--args"), bytes("--updates")]
    );
    assert_eq!(open_disk_helper(engine, HelperView::Settings)[4], b"--settings");
}
