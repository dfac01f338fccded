//! The signs by which the tray shows its state, and small decisions on clicks and menus.

use crate::text::{decimal, decimal_text};
use crate::unambiguous::decimals_are_unambiguous;
use vstd::prelude::*;

verus! {

/// The title of the first item of the menu.
#[derive(Debug, Clone, Copy, PartialEq, Eq, Structural)]
pub enum StartTitle {
    Start,
    Scanning,
    Pause,
    Continue,
}

impl StartTitle {
    /// How the title reads.
    pub open spec fn wording(self) -> Seq<char> {
        match self {
            StartTitle::Start => "Старт очистки"@,
            StartTitle::Scanning => "Сканирование…"@,
            StartTitle::Pause => "Пауза"@,
            StartTitle::Continue => "Продолжить"@,
        }
    }

    /// How the title reads.
    pub fn text(self) -> (text: String)
        ensures
            text@ == self.wording(),
    {
        match self {
            StartTitle::Start => "Старт очистки".to_owned(),
            StartTitle::Scanning => "Сканирование…".to_owned(),
            StartTitle::Pause => "Пауза".to_owned(),
            StartTitle::Continue => "Продолжить".to_owned(),
        }
    }
}

/// How many frames the animation of the status has.
pub const FRAMES: usize = 8;

/// What stands in the status bar.
#[derive(Debug, Clone, Copy, PartialEq, Eq, Structural)]
pub enum Status {
    Idle,
    Working { frame: usize },
    Paused,
    Done,
    Trouble,
}

impl Status {
    /// How the status reads.
    pub open spec fn wording(self) -> Seq<char> {
        match self {
            Status::Idle => "Y³"@,
            Status::Working { frame } => {
                let turn = frame as int % FRAMES as int;
                if turn == 0 || turn == 4 || turn == 6 {
                    "Y³ ·"@
                } else if turn == 1 || turn == 3 || turn == 7 {
                    "Y³ •"@
                } else if turn == 2 {
                    "Y³ ●"@
                } else {
                    "Y³  "@
                }
            },
            Status::Paused => "Y³ Ⅱ"@,
            Status::Done => "Y³ ✓"@,
            Status::Trouble => "Y³ !"@,
        }
    }

    /// How the status reads.
    pub fn text(self) -> (text: String)
        ensures
            text@ == self.wording(),
    {
        match self {
            Status::Idle => "Y³".to_owned(),
            Status::Working { frame } => match frame % FRAMES {
                0 | 4 | 6 => "Y³ ·".to_owned(),
                1 | 3 | 7 => "Y³ •".to_owned(),
                2 => "Y³ ●".to_owned(),
                _ => "Y³  ".to_owned(),
            },
            Status::Paused => "Y³ Ⅱ".to_owned(),
            Status::Done => "Y³ ✓".to_owned(),
            Status::Trouble => "Y³ !".to_owned(),
        }
    }
}

/// No two titles of the start item read alike, and none is empty: a user can tell what the
/// item does.
pub proof fn titles_are_told_apart(left: StartTitle, right: StartTitle)
    ensures
        left.wording() == right.wording() ==> left == right,
        left is Start <==> left.wording() == "Старт очистки"@,
        left is Scanning <==> left.wording() == "Сканирование…"@,
        left is Pause <==> left.wording() == "Пауза"@,
        left is Continue <==> left.wording() == "Продолжить"@,
{
    reveal_strlit("Старт очистки");
    reveal_strlit("Сканирование…");
    reveal_strlit("Пауза");
    reveal_strlit("Продолжить");
    assert("Старт очистки"@[1] == 'т');
    assert("Сканирование…"@[1] == 'к');
    assert("Пауза"@[1] == 'а');
    assert("Продолжить"@[1] == 'р');
}

/// Whatever stands in the status bar starts with the sign of the program. Behind it stands
/// nothing while it is idle, a mark of its own for each other state, and a dot that grows and
/// goes while it works: the frames repeat after eight.
pub proof fn statuses_are_told_apart(status: Status)
    ensures
        status.wording().len() >= 2 && status.wording()[0] == 'Y' && status.wording()[1] == '³',
        status is Idle <==> status.wording().len() == 2,
        !(status is Idle) ==> status.wording().len() == 4 && status.wording()[2] == ' ',
        status is Paused <==> status.wording().len() == 4 && status.wording()[3] == 'Ⅱ',
        status is Done <==> status.wording().len() == 4 && status.wording()[3] == '✓',
        status is Trouble <==> status.wording().len() == 4 && status.wording()[3] == '!',
        status matches Status::Working { frame } ==> status.wording()[3] == seq![
            '·',
            '•',
            '●',
            '•',
            '·',
            ' ',
            '·',
            '•',
        ][frame as int % 8],
{
    reveal_strlit("Y³");
    reveal_strlit("Y³ ·");
    reveal_strlit("Y³ •");
    reveal_strlit("Y³ ●");
    reveal_strlit("Y³  ");
    reveal_strlit("Y³ Ⅱ");
    reveal_strlit("Y³ ✓");
    reveal_strlit("Y³ !");
}

/// How many frames are shown at launch.
pub const LAUNCH_FRAMES: usize = 24;

/// The name of the picture for a frame of the launch, with at least two digits.
pub open spec fn frame_name(frame: nat) -> Seq<char> {
    if frame < 10 {
        "frame-0"@ + decimal(frame) + ".png"@
    } else {
        "frame-"@ + decimal(frame) + ".png"@
    }
}

/// Names the picture for a frame of the launch.
pub fn frame_file(frame: usize) -> (name: String)
    ensures
        name@ == frame_name(frame as nat),
{
    let mut name = if frame < 10 {
        "frame-0".to_owned()
    } else {
        "frame-".to_owned()
    };
    let digits = decimal_text(frame as u64);
    name.append(digits.as_str());
    name.append(".png");
    name
}

/// How the icon was clicked.
#[derive(Debug, Clone, Copy, PartialEq, Eq, Structural)]
pub enum Click {
    LeftDown,
    LeftUp,
    RightDown,
    RightUp,
    Other,
}

/// What a click opens.
#[derive(Debug, Clone, Copy, PartialEq, Eq, Structural)]
pub enum Opening {
    Statistics,
    Menu,
    Nothing,
}

/// Decides what a click opens: the right button the statistics, the left button the menu,
/// where there is a menu and a button to hang it on.
pub fn clicked(click: Click, has_menu: bool, has_button: bool) -> (opening: Opening)
    ensures
        opening == Opening::Statistics <==> click == Click::RightDown || click == Click::RightUp,
        opening == Opening::Menu <==> (click == Click::LeftDown || click == Click::LeftUp)
            && has_menu && has_button,
{
    match click {
        Click::RightDown | Click::RightUp => Opening::Statistics,
        Click::LeftDown | Click::LeftUp => if has_menu && has_button {
            Opening::Menu
        } else {
            Opening::Nothing
        },
        Click::Other => Opening::Nothing,
    }
}

/// What becomes of the stop item of the menu.
#[derive(Debug, Clone, Copy, PartialEq, Eq, Structural)]
pub enum StopChange {
    /// It is put in at this place and enabled.
    Insert { at: isize },
    /// It is in the menu already and is enabled.
    Enable,
    /// It is taken out.
    Remove,
    /// It is not in the menu and stays out.
    Keep,
}

/// The place behind the start item, or the second place where there is none.
pub open spec fn stop_place(start: Option<isize>) -> int {
    match start {
        Some(index) => if index >= 0 {
            index + 1
        } else {
            1
        },
        None => 1,
    }
}

/// What becomes of the stop item where it has the index `stop` and the start item the index
/// `start`. An item that is not in the menu has a negative index.
pub open spec fn stop_change(visible: bool, stop: isize, start: Option<isize>) -> StopChange {
    if visible && stop < 0 {
        StopChange::Insert { at: stop_place(start) as isize }
    } else if visible {
        StopChange::Enable
    } else if stop >= 0 {
        StopChange::Remove
    } else {
        StopChange::Keep
    }
}

/// Decides how the stop item is shown or hidden. An item that is not in the menu has a
/// negative index.
pub fn set_stop_visible(visible: bool, stop: isize, start: Option<isize>) -> (change: StopChange)
    requires
        start matches Some(index) ==> index < isize::MAX,
    ensures
        change == stop_change(visible, stop, start),
        change matches StopChange::Insert { at } ==> at == stop_place(start),
{
    if visible {
        if stop < 0 {
            let at: isize = match start {
                Some(index) => if index >= 0 {
                    index + 1
                } else {
                    1
                },
                None => 1,
            };
            StopChange::Insert { at }
        } else {
            StopChange::Enable
        }
    } else if stop >= 0 {
        StopChange::Remove
    } else {
        StopChange::Keep
    }
}

/// The index of an item in a menu, or a negative one where it is not in it.
pub open spec fn item_index<T>(menu: Seq<T>, item: T) -> isize {
    if menu.contains(item) {
        menu.index_of(item) as isize
    } else {
        -1isize
    }
}

/// A menu once the stop item is shown or hidden in it.
pub open spec fn with_stop<T>(menu: Seq<T>, stop: T, start: Option<T>, visible: bool) -> Seq<T> {
    let place = match start {
        Some(item) => Some(item_index(menu, item)),
        None => None,
    };
    match stop_change(visible, item_index(menu, stop), place) {
        StopChange::Insert { at } => menu.insert(at as int, stop),
        StopChange::Remove => menu.remove(item_index(menu, stop) as int),
        StopChange::Enable | StopChange::Keep => menu,
    }
}

/// In a menu with an item the stop item stands right behind the start item once it is shown,
/// or is the second item where there is no start item. To show it twice is to show it once,
/// to hide it twice is to hide it once, and to show and to hide it gives the menu back. The
/// menu holds no item twice.
pub proof fn stop_item_comes_and_goes<T>(menu: Seq<T>, stop: T, start: Option<T>)
    requires
        0 < menu.len() < isize::MAX,
        menu.no_duplicates(),
        start != Some(stop),
    ensures
        with_stop(menu, stop, start, true).contains(stop),
        !with_stop(menu, stop, start, false).contains(stop),
        !menu.contains(stop) ==> with_stop(menu, stop, start, true) == menu.insert(
            match start {
                Some(item) => if menu.contains(item) {
                    menu.index_of(item) + 1
                } else {
                    1
                },
                None => 1,
            },
            stop,
        ),
        with_stop(with_stop(menu, stop, start, true), stop, start, true) == with_stop(
            menu,
            stop,
            start,
            true,
        ),
        with_stop(with_stop(menu, stop, start, false), stop, start, false) == with_stop(
            menu,
            stop,
            start,
            false,
        ),
        !menu.contains(stop) ==> with_stop(with_stop(menu, stop, start, true), stop, start, false)
            == menu,
{
    let shown = with_stop(menu, stop, start, true);
    let hidden = with_stop(menu, stop, start, false);
    if menu.contains(stop) {
        let at = menu.index_of(stop);
        assert(menu[at] == stop);
        assert forall|i: int| 0 <= i < hidden.len() implies hidden[i] != stop by {
            let from = if i < at {
                i
            } else {
                i + 1
            };
            assert(hidden[i] == menu[from]);
        }
    } else {
        let at = match start {
            Some(item) => if menu.contains(item) {
                menu.index_of(item) + 1
            } else {
                1
            },
            None => 1,
        };
        assert(shown =~= menu.insert(at, stop));
        assert(shown[at] == stop);
        assert forall|i: int| 0 <= i < shown.len() && shown[i] == stop implies i == at by {
            if i != at {
                assert(menu.contains(shown[i])) by {
                    let from = if i < at {
                        i
                    } else {
                        i - 1
                    };
                    assert(menu[from] == shown[i]);
                }
            }
        }
        assert(shown.index_of(stop) == at);
        assert(shown.remove(at) =~= menu);
    }
}

/// The picture of a frame bears its number, with a zero in front where it has one digit, so that
/// no two frames have the same.
pub proof fn frames_have_their_pictures(frame: nat, other: nat)
    ensures
        frame < 10 ==> frame_name(frame) == "frame-0"@ + decimal(frame) + ".png"@,
        frame >= 10 ==> frame_name(frame) == "frame-"@ + decimal(frame) + ".png"@,
        frame >= 10 && other >= 10 && frame_name(frame) == frame_name(other) ==> frame == other,
{
    if frame >= 10 && other >= 10 && frame_name(frame) == frame_name(other) {
        let start = "frame-"@.len() as int;
        let end = ".png"@.len() as int;
        let left = frame_name(frame);
        let right = frame_name(other);
        assert(left.subrange(start, left.len() - end) =~= decimal(frame));
        assert(right.subrange(start, right.len() - end) =~= decimal(other));
        decimals_are_unambiguous(frame, other);
    }
}

/// The stop item is put in where it is to be seen and is not there, right behind the start item
/// or at the second place where that is not there, and is enabled where it is there already. It
/// is taken out where it is there and is not to be seen, and otherwise stays out.
pub proof fn stop_item_is_changed_as_needed(visible: bool, stop: isize, start: Option<isize>)
    ensures
        visible && stop >= 0 <==> stop_change(visible, stop, start) is Enable,
        visible && stop < 0 <==> stop_change(visible, stop, start) is Insert,
        !visible && stop >= 0 <==> stop_change(visible, stop, start) is Remove,
        !visible && stop < 0 <==> stop_change(visible, stop, start) is Keep,
        start matches Some(index) && index >= 0 ==> stop_place(start) == start->0 + 1,
        start is None ==> stop_place(start) == 1,
        start matches Some(index) && index < 0 ==> stop_place(start) == 1,
{
}

} // verus!
