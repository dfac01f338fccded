//! What holds between the settings and the window in which they are changed.

use super::screen::{
    ai_ml_rows, behavior_rows, browsers_rows, docker_rows, homebrew_rows, is_unsupported,
    macos_rows, mobile_rows, podman_rows, protection_rows, row_elements, settings_rows, tools_rows,
    xcode_rows, Row,
};
use super::values::{replaced, Settings};
use vstd::prelude::*;

verus! {

/// Whether the row at position `at` is the box for the switch with this tag.
pub open spec fn is_box(at: int, tag: isize) -> bool {
    &&& 0 <= at < settings_rows().len()
    &&& settings_rows()[at] is Check
    &&& settings_rows()[at]->Check_tag == tag
}

/// Whether the row at position `at` is the field for the age with this tag.
pub open spec fn is_field(at: int, tag: isize) -> bool {
    &&& 0 <= at < settings_rows().len()
    &&& settings_rows()[at] is Age
    &&& settings_rows()[at]->Age_tag == tag
}

/// Where the box or the field with a tag stands among the rows.
spec fn place(tag: isize) -> int {
    if tag == 1 {
        1
    } else if tag == 2 {
        2
    } else if tag == 3 {
        3
    } else if tag == 4 {
        5
    } else if tag == 5 {
        7
    } else if tag == 10 {
        10
    } else if tag == 11 {
        11
    } else if tag == 12 {
        12
    } else if tag == 13 {
        13
    } else if tag == 14 {
        14
    } else if tag == 15 {
        15
    } else if tag == 16 {
        9
    } else if tag == 20 {
        17
    } else if tag == 21 {
        18
    } else if tag == 22 {
        20
    } else if tag == 23 {
        21
    } else if tag == 24 {
        22
    } else if tag == 25 {
        23
    } else if tag == 26 {
        24
    } else if tag == 27 {
        25
    } else if tag == 28 {
        26
    } else if tag == 29 {
        27
    } else if tag == 30 {
        28
    } else if tag == 31 {
        29
    } else if tag == 40 {
        32
    } else if tag == 41 {
        33
    } else if tag == 42 {
        34
    } else if tag == 43 {
        35
    } else if tag == 44 {
        36
    } else if tag == 45 {
        37
    } else if tag == 46 {
        38
    } else if tag == 47 {
        39
    } else if tag == 50 {
        41
    } else if tag == 51 {
        42
    } else if tag == 52 {
        43
    } else if tag == 53 {
        44
    } else if tag == 54 {
        45
    } else if tag == 60 {
        47
    } else if tag == 61 {
        48
    } else if tag == 62 {
        49
    } else if tag == 63 {
        50
    } else if tag == 64 {
        51
    } else if tag == 70 {
        54
    } else if tag == 71 {
        55
    } else if tag == 72 {
        56
    } else if tag == 80 {
        59
    } else if tag == 90 {
        61
    } else if tag == 91 {
        62
    } else if tag == 92 {
        63
    } else if tag == 1001 {
        4
    } else if tag == 1002 {
        6
    } else if tag == 1003 {
        19
    } else if tag == 1004 {
        30
    } else if tag == 1005 {
        57
    } else {
        -1
    }
}

/// Whether a row stands where its tag says.
spec fn is_placed(row: Row, at: int) -> bool {
    match row {
        Row::Check { tag, .. } => place(tag) == at,
        Row::Age { tag, .. } => place(tag) == at,
        _ => true,
    }
}

proof fn macos_rows_are_placed()
    ensures
        macos_rows().len() == 8,
        forall|i: int| 0 <= i < 8 ==> is_placed(#[trigger] macos_rows()[i], 0 + i),
{
}

proof fn browsers_rows_are_placed()
    ensures
        browsers_rows().len() == 8,
        forall|i: int| 0 <= i < 8 ==> is_placed(#[trigger] browsers_rows()[i], 8 + i),
{
}

proof fn xcode_rows_are_placed()
    ensures
        xcode_rows().len() == 5,
        forall|i: int| 0 <= i < 5 ==> is_placed(#[trigger] xcode_rows()[i], 16 + i),
{
}

proof fn tools_rows_are_placed()
    ensures
        tools_rows().len() == 10,
        forall|i: int| 0 <= i < 10 ==> is_placed(#[trigger] tools_rows()[i], 21 + i),
{
}

proof fn ai_ml_rows_are_placed()
    ensures
        ai_ml_rows().len() == 9,
        forall|i: int| 0 <= i < 9 ==> is_placed(#[trigger] ai_ml_rows()[i], 31 + i),
{
}

proof fn homebrew_rows_are_placed()
    ensures
        homebrew_rows().len() == 6,
        forall|i: int| 0 <= i < 6 ==> is_placed(#[trigger] homebrew_rows()[i], 40 + i),
{
}

proof fn docker_rows_are_placed()
    ensures
        docker_rows().len() == 7,
        forall|i: int| 0 <= i < 7 ==> is_placed(#[trigger] docker_rows()[i], 46 + i),
{
}

proof fn podman_rows_are_placed()
    ensures
        podman_rows().len() == 5,
        forall|i: int| 0 <= i < 5 ==> is_placed(#[trigger] podman_rows()[i], 53 + i),
{
}

proof fn mobile_rows_are_placed()
    ensures
        mobile_rows().len() == 2,
        forall|i: int| 0 <= i < 2 ==> is_placed(#[trigger] mobile_rows()[i], 58 + i),
{
}

proof fn behavior_rows_are_placed()
    ensures
        behavior_rows().len() == 4,
        forall|i: int| 0 <= i < 4 ==> is_placed(#[trigger] behavior_rows()[i], 60 + i),
{
}

proof fn protection_rows_are_placed()
    ensures
        protection_rows().len() == 3,
        forall|i: int| 0 <= i < 3 ==> is_placed(#[trigger] protection_rows()[i], 64 + i),
{
}

proof fn rows_are_placed()
    ensures
        settings_rows().len() == 67,
        forall|i: int| 0 <= i < settings_rows().len() ==> is_placed(#[trigger] settings_rows()[i], i),
{
    macos_rows_are_placed();
    browsers_rows_are_placed();
    xcode_rows_are_placed();
    tools_rows_are_placed();
    ai_ml_rows_are_placed();
    homebrew_rows_are_placed();
    docker_rows_are_placed();
    podman_rows_are_placed();
    mobile_rows_are_placed();
    behavior_rows_are_placed();
    protection_rows_are_placed();
    assert forall|i: int| 0 <= i < settings_rows().len() implies is_placed(
        #[trigger] settings_rows()[i],
        i,
    ) by {
        if i < 8 {
            assert(settings_rows()[i] == macos_rows()[i - 0]);
        } else if i < 16 {
            assert(settings_rows()[i] == browsers_rows()[i - 8]);
        } else if i < 21 {
            assert(settings_rows()[i] == xcode_rows()[i - 16]);
        } else if i < 31 {
            assert(settings_rows()[i] == tools_rows()[i - 21]);
        } else if i < 40 {
            assert(settings_rows()[i] == ai_ml_rows()[i - 31]);
        } else if i < 46 {
            assert(settings_rows()[i] == homebrew_rows()[i - 40]);
        } else if i < 53 {
            assert(settings_rows()[i] == docker_rows()[i - 46]);
        } else if i < 58 {
            assert(settings_rows()[i] == podman_rows()[i - 53]);
        } else if i < 60 {
            assert(settings_rows()[i] == mobile_rows()[i - 58]);
        } else if i < 64 {
            assert(settings_rows()[i] == behavior_rows()[i - 60]);
        } else {
            assert(settings_rows()[i] == protection_rows()[i - 64]);
        }
    }
}

proof fn macos_rows_are_found()
    ensures
        is_box(1, 1),
        is_box(2, 2),
        is_box(3, 3),
        is_field(4, 1001),
        is_box(5, 4),
        is_field(6, 1002),
        is_box(7, 5),
{
    rows_are_placed();
    macos_rows_are_placed();
    assert(settings_rows()[1] == macos_rows()[1]);
    assert(settings_rows()[2] == macos_rows()[2]);
    assert(settings_rows()[3] == macos_rows()[3]);
    assert(settings_rows()[4] == macos_rows()[4]);
    assert(settings_rows()[5] == macos_rows()[5]);
    assert(settings_rows()[6] == macos_rows()[6]);
    assert(settings_rows()[7] == macos_rows()[7]);
}

proof fn browsers_rows_are_found()
    ensures
        is_box(9, 16),
        is_box(10, 10),
        is_box(11, 11),
        is_box(12, 12),
        is_box(13, 13),
        is_box(14, 14),
        is_box(15, 15),
{
    rows_are_placed();
    macos_rows_are_placed();
    browsers_rows_are_placed();
    assert(settings_rows()[9] == browsers_rows()[1]);
    assert(settings_rows()[10] == browsers_rows()[2]);
    assert(settings_rows()[11] == browsers_rows()[3]);
    assert(settings_rows()[12] == browsers_rows()[4]);
    assert(settings_rows()[13] == browsers_rows()[5]);
    assert(settings_rows()[14] == browsers_rows()[6]);
    assert(settings_rows()[15] == browsers_rows()[7]);
}

proof fn xcode_rows_are_found()
    ensures
        is_box(17, 20),
        is_box(18, 21),
        is_field(19, 1003),
        is_box(20, 22),
{
    rows_are_placed();
    macos_rows_are_placed();
    browsers_rows_are_placed();
    xcode_rows_are_placed();
    assert(settings_rows()[17] == xcode_rows()[1]);
    assert(settings_rows()[18] == xcode_rows()[2]);
    assert(settings_rows()[19] == xcode_rows()[3]);
    assert(settings_rows()[20] == xcode_rows()[4]);
}

proof fn tools_rows_are_found()
    ensures
        is_box(21, 23),
        is_box(22, 24),
        is_box(23, 25),
        is_box(24, 26),
        is_box(25, 27),
        is_box(26, 28),
        is_box(27, 29),
        is_box(28, 30),
        is_box(29, 31),
        is_field(30, 1004),
{
    rows_are_placed();
    macos_rows_are_placed();
    browsers_rows_are_placed();
    xcode_rows_are_placed();
    tools_rows_are_placed();
    assert(settings_rows()[21] == tools_rows()[0]);
    assert(settings_rows()[22] == tools_rows()[1]);
    assert(settings_rows()[23] == tools_rows()[2]);
    assert(settings_rows()[24] == tools_rows()[3]);
    assert(settings_rows()[25] == tools_rows()[4]);
    assert(settings_rows()[26] == tools_rows()[5]);
    assert(settings_rows()[27] == tools_rows()[6]);
    assert(settings_rows()[28] == tools_rows()[7]);
    assert(settings_rows()[29] == tools_rows()[8]);
    assert(settings_rows()[30] == tools_rows()[9]);
}

proof fn ai_ml_rows_are_found()
    ensures
        is_box(32, 40),
        is_box(33, 41),
        is_box(34, 42),
        is_box(35, 43),
        is_box(36, 44),
        is_box(37, 45),
        is_box(38, 46),
        is_box(39, 47),
{
    rows_are_placed();
    macos_rows_are_placed();
    browsers_rows_are_placed();
    xcode_rows_are_placed();
    tools_rows_are_placed();
    ai_ml_rows_are_placed();
    assert(settings_rows()[32] == ai_ml_rows()[1]);
    assert(settings_rows()[33] == ai_ml_rows()[2]);
    assert(settings_rows()[34] == ai_ml_rows()[3]);
    assert(settings_rows()[35] == ai_ml_rows()[4]);
    assert(settings_rows()[36] == ai_ml_rows()[5]);
    assert(settings_rows()[37] == ai_ml_rows()[6]);
    assert(settings_rows()[38] == ai_ml_rows()[7]);
    assert(settings_rows()[39] == ai_ml_rows()[8]);
}

proof fn homebrew_rows_are_found()
    ensures
        is_box(41, 50),
        is_box(42, 51),
        is_box(43, 52),
        is_box(44, 53),
        is_box(45, 54),
{
    rows_are_placed();
    macos_rows_are_placed();
    browsers_rows_are_placed();
    xcode_rows_are_placed();
    tools_rows_are_placed();
    ai_ml_rows_are_placed();
    homebrew_rows_are_placed();
    assert(settings_rows()[41] == homebrew_rows()[1]);
    assert(settings_rows()[42] == homebrew_rows()[2]);
    assert(settings_rows()[43] == homebrew_rows()[3]);
    assert(settings_rows()[44] == homebrew_rows()[4]);
    assert(settings_rows()[45] == homebrew_rows()[5]);
}

proof fn docker_rows_are_found()
    ensures
        is_box(47, 60),
        is_box(48, 61),
        is_box(49, 62),
        is_box(50, 63),
        is_box(51, 64),
{
    rows_are_placed();
    macos_rows_are_placed();
    browsers_rows_are_placed();
    xcode_rows_are_placed();
    tools_rows_are_placed();
    ai_ml_rows_are_placed();
    homebrew_rows_are_placed();
    docker_rows_are_placed();
    assert(settings_rows()[47] == docker_rows()[1]);
    assert(settings_rows()[48] == docker_rows()[2]);
    assert(settings_rows()[49] == docker_rows()[3]);
    assert(settings_rows()[50] == docker_rows()[4]);
    assert(settings_rows()[51] == docker_rows()[5]);
}

proof fn podman_rows_are_found()
    ensures
        is_box(54, 70),
        is_box(55, 71),
        is_box(56, 72),
        is_field(57, 1005),
{
    rows_are_placed();
    macos_rows_are_placed();
    browsers_rows_are_placed();
    xcode_rows_are_placed();
    tools_rows_are_placed();
    ai_ml_rows_are_placed();
    homebrew_rows_are_placed();
    docker_rows_are_placed();
    podman_rows_are_placed();
    assert(settings_rows()[54] == podman_rows()[1]);
    assert(settings_rows()[55] == podman_rows()[2]);
    assert(settings_rows()[56] == podman_rows()[3]);
    assert(settings_rows()[57] == podman_rows()[4]);
}

proof fn mobile_rows_are_found()
    ensures
        is_box(59, 80),
{
    rows_are_placed();
    macos_rows_are_placed();
    browsers_rows_are_placed();
    xcode_rows_are_placed();
    tools_rows_are_placed();
    ai_ml_rows_are_placed();
    homebrew_rows_are_placed();
    docker_rows_are_placed();
    podman_rows_are_placed();
    mobile_rows_are_placed();
    assert(settings_rows()[59] == mobile_rows()[1]);
}

proof fn behavior_rows_are_found()
    ensures
        is_box(61, 90),
        is_box(62, 91),
        is_box(63, 92),
{
    rows_are_placed();
    macos_rows_are_placed();
    browsers_rows_are_placed();
    xcode_rows_are_placed();
    tools_rows_are_placed();
    ai_ml_rows_are_placed();
    homebrew_rows_are_placed();
    docker_rows_are_placed();
    podman_rows_are_placed();
    mobile_rows_are_placed();
    behavior_rows_are_placed();
    assert(settings_rows()[61] == behavior_rows()[1]);
    assert(settings_rows()[62] == behavior_rows()[2]);
    assert(settings_rows()[63] == behavior_rows()[3]);
}

/// Every switch has a box in the window, and only one.
pub proof fn every_switch_has_one_box(settings: Settings, tag: isize)
    requires
        settings.switch(tag as int) is Some,
    ensures
        exists|at: int| is_box(at, tag),
        forall|left: int, right: int|
            #![trigger is_box(left, tag), is_box(right, tag)]
            is_box(left, tag) && is_box(right, tag) ==> left == right,
{
    macos_rows_are_found();
    browsers_rows_are_found();
    xcode_rows_are_found();
    tools_rows_are_found();
    ai_ml_rows_are_found();
    homebrew_rows_are_found();
    docker_rows_are_found();
    podman_rows_are_found();
    mobile_rows_are_found();
    behavior_rows_are_found();
    assert(is_box(place(tag), tag));
    rows_are_placed();
}

/// Every box in the window stands for a switch.
pub proof fn every_box_has_a_switch(settings: Settings, at: int, tag: isize)
    requires
        is_box(at, tag),
    ensures
        settings.switch(tag as int) is Some,
{
    rows_are_placed();
}

/// Every age has a field in the window, and only one.
pub proof fn every_age_has_one_field(settings: Settings, tag: isize)
    requires
        settings.age(tag as int) is Some,
    ensures
        exists|at: int| is_field(at, tag),
        forall|left: int, right: int|
            #![trigger is_field(left, tag), is_field(right, tag)]
            is_field(left, tag) && is_field(right, tag) ==> left == right,
{
    macos_rows_are_found();
    xcode_rows_are_found();
    tools_rows_are_found();
    podman_rows_are_found();
    assert(is_field(place(tag), tag));
    rows_are_placed();
}

/// A box shows what its switch was set to, unless the switch cannot be changed yet; then the
/// box is off and cannot be marked.
pub proof fn boxes_show_what_was_set(
    before: Settings,
    after: Settings,
    tag: isize,
    value: bool,
    row: Row,
)
    requires
        forall|other: int|
            #[trigger] after.switch(other) == replaced(before.switch(other), other == tag, value),
        before.switch(tag as int) is Some,
        row is Check,
        row->Check_tag == tag,
    ensures
        row_elements(after, row).len() == 1,
        row_elements(after, row)[0] is Checkbox,
        row_elements(after, row)[0]->Checkbox_tag == tag,
        row_elements(after, row)[0]->on == (value && !is_unsupported(tag)),
        row_elements(after, row)[0]->Checkbox_enabled == !is_unsupported(tag),
{
    assert(after.switch(tag as int) == replaced(before.switch(tag as int), true, value));
}

/// To mark one box changes no other row.
pub proof fn other_rows_stay(
    before: Settings,
    after: Settings,
    tag: isize,
    value: bool,
    row: Row,
)
    requires
        forall|other: int|
            #[trigger] after.switch(other) == replaced(before.switch(other), other == tag, value),
        forall|other: int| #[trigger] after.age(other) == before.age(other),
        !(row is Check && row->Check_tag == tag),
    ensures
        row_elements(after, row) == row_elements(before, row),
{
    match row {
        Row::Check { tag: other, .. } => {
            assert(after.switch(other as int) == before.switch(other as int));
        },
        Row::Age { tag: other, .. } => {
            assert(after.age(other as int) == before.age(other as int));
        },
        _ => {},
    }
}

} // verus!
