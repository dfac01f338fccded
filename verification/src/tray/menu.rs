//! The menu of the tray, and the helper that some of its items open.

use crate::arguments::{add_argument, add_path, encoded, raw};
use crate::paths::{disk_helper, disk_helper_path};
use vstd::prelude::*;
use vstd::utf8::encode_utf8;

verus! {

/// What an item of the menu does.
#[derive(Debug, Clone, Copy, PartialEq, Eq, Structural)]
pub enum Command {
    StartPause,
    OpenStatistics,
    OpenDiskMap,
    CheckUpdates,
    OpenSettings,
    About,
    Quit,
}

/// An entry of the menu.
#[derive(Debug, Clone, Copy)]
pub enum Entry {
    Item { title: &'static str, command: Command },
    Separator,
}

/// The menu at launch. The stop item is not in it while nothing runs.
pub open spec fn launch_menu() -> Seq<Entry> {
    seq![
        Entry::Item { title: "Старт очистки", command: Command::StartPause },
        Entry::Separator,
        Entry::Item { title: "Статистика…", command: Command::OpenStatistics },
        Entry::Item { title: "Карта диска и каталоги…", command: Command::OpenDiskMap },
        Entry::Item { title: "Проверить обновление…", command: Command::CheckUpdates },
        Entry::Item { title: "Настройки…", command: Command::OpenSettings },
        Entry::Separator,
        Entry::Item { title: "О программе", command: Command::About },
        Entry::Item { title: "Выход", command: Command::Quit },
    ]
}

/// Lists the menu at launch.
pub fn tray_menu() -> (entries: Vec<Entry>)
    ensures
        entries@ == launch_menu(),
{
    let entries = vec![
        Entry::Item { title: "Старт очистки", command: Command::StartPause },
        Entry::Separator,
        Entry::Item { title: "Статистика…", command: Command::OpenStatistics },
        Entry::Item { title: "Карта диска и каталоги…", command: Command::OpenDiskMap },
        Entry::Item { title: "Проверить обновление…", command: Command::CheckUpdates },
        Entry::Item { title: "Настройки…", command: Command::OpenSettings },
        Entry::Separator,
        Entry::Item { title: "О программе", command: Command::About },
        Entry::Item { title: "Выход", command: Command::Quit },
    ];
    assert(entries@ =~= launch_menu());
    entries
}

/// What the helper shows.
#[derive(Debug, Clone, Copy, PartialEq, Eq, Structural)]
pub enum HelperView {
    DiskMap,
    Updates,
    Settings,
}

/// What is handed on to the helper: nothing for its map.
pub open spec fn view_option(view: HelperView) -> Option<Seq<char>> {
    match view {
        HelperView::DiskMap => None,
        HelperView::Updates => Some("--updates"@),
        HelperView::Settings => Some("--settings"@),
    }
}

/// The command line that opens the helper.
pub open spec fn helper_line(helper: Seq<u8>, view: HelperView) -> Seq<Seq<u8>> {
    match view_option(view) {
        None => seq![encode_utf8("-a"@), helper],
        Some(option) => seq![encode_utf8("-a"@), helper] + encoded(seq!["-n"@, "--args"@, option]),
    }
}

/// Writes the command line that opens the helper which belongs to an engine. The engine
/// must lie in a bundle.
pub fn open_disk_helper(engine: &[u8], view: HelperView) -> (arguments: Vec<Vec<u8>>)
    requires
        disk_helper(engine@) is Some,
    ensures
        raw(arguments@) == helper_line(disk_helper(engine@)->0, view),
{
    let mut arguments: Vec<Vec<u8>> = Vec::new();
    if let Some(helper) = disk_helper_path(engine) {
        add_argument(&mut arguments, "-a");
        add_path(&mut arguments, helper.as_slice());
        match view {
            HelperView::DiskMap => {},
            HelperView::Updates => {
                add_argument(&mut arguments, "-n");
                add_argument(&mut arguments, "--args");
                add_argument(&mut arguments, "--updates");
            },
            HelperView::Settings => {
                add_argument(&mut arguments, "-n");
                add_argument(&mut arguments, "--args");
                add_argument(&mut arguments, "--settings");
            },
        }
        assert(raw(arguments@) =~= helper_line(helper@, view));
    }
    arguments
}

/// Whether the menu has an item of this title that does this.
pub open spec fn offers(title: Seq<char>, command: Command) -> bool {
    exists|i: int|
        0 <= i < launch_menu().len() && (#[trigger] launch_menu()[i] matches Entry::Item {
            title: read,
            command: done,
        } && read@ == title && done == command)
}

/// Each item of the menu does what its title says, and there is one for everything that the
/// menu can do.
pub proof fn items_do_what_they_say(at: int)
    requires
        0 <= at < launch_menu().len(),
    ensures
        offers("Старт очистки"@, Command::StartPause),
        offers("Статистика…"@, Command::OpenStatistics),
        offers("Карта диска и каталоги…"@, Command::OpenDiskMap),
        offers("Проверить обновление…"@, Command::CheckUpdates),
        offers("Настройки…"@, Command::OpenSettings),
        offers("О программе"@, Command::About),
        offers("Выход"@, Command::Quit),
        launch_menu().len() == 9,
        launch_menu()[at] is Separator <==> at == 1 || at == 6,
{
    let menu = launch_menu();
    assert(menu[0] == Entry::Item { title: "Старт очистки", command: Command::StartPause });
    assert(menu[2] == Entry::Item { title: "Статистика…", command: Command::OpenStatistics });
    assert(menu[3] == Entry::Item {
        title: "Карта диска и каталоги…",
        command: Command::OpenDiskMap,
    });
    assert(menu[4] == Entry::Item {
        title: "Проверить обновление…",
        command: Command::CheckUpdates,
    });
    assert(menu[5] == Entry::Item { title: "Настройки…", command: Command::OpenSettings });
    assert(menu[7] == Entry::Item { title: "О программе", command: Command::About });
    assert(menu[8] == Entry::Item { title: "Выход", command: Command::Quit });
}

/// The helper is opened by its path. For its map nothing is handed on to it; for anything else
/// a new one is opened, and the last argument alone says what it shows.
pub proof fn helper_is_told_what_to_show(helper: Seq<u8>, view: HelperView)
    ensures
        helper_line(helper, view).len() >= 2,
        helper_line(helper, view)[0] == encode_utf8("-a"@),
        helper_line(helper, view)[1] == helper,
        view is DiskMap <==> helper_line(helper, view).len() == 2,
        !(view is DiskMap) ==> helper_line(helper, view).len() == 5 && helper_line(helper, view)[2]
            == encode_utf8("-n"@) && helper_line(helper, view)[3] == encode_utf8("--args"@),
        view is Updates ==> helper_line(helper, view)[4] == encode_utf8("--updates"@),
        view is Settings ==> helper_line(helper, view)[4] == encode_utf8("--settings"@),
{
}

} // verus!
