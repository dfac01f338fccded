//! Where the elements of the windows stand and how their texts are set.

use super::about::about_elements;
use super::elements::{Element, Ink, Seen, SeenText, Window, Wording};
use super::result::{
    efficiency_lines, has_remarks, result_elements, result_heading, CleanupResult,
};
use super::statistics::{
    space_lines, statistics_cards, statistics_elements, statistics_heading,
};
use super::telling::{is_set, reads, stands_at};
use crate::history::rows::StatisticsSnapshot;
use crate::settings::screen::settings_buttons;
use vstd::prelude::*;

verus! {

/// A window has the title, the size and the elements that it shows.
pub proof fn window_has_what_it_shows(
    window: Window,
    title: Seq<char>,
    width: int,
    height: int,
    elements: Seq<Seen>,
    at: int,
)
    requires
        window.shows(title, width, height, elements),
    ensures
        window.title@ == title,
        window.width == width,
        window.height == height,
        window.elements@.len() == elements.len(),
        0 <= at < elements.len() ==> window.elements@[at]@ == elements[at],
{
}

/// An element is seen as it is: each of its parts is seen, and as what it is.
pub proof fn elements_are_seen_as_they_are(element: Element)
    ensures
        match element {
            Element::Label { text, frame, style } => element@ == (Seen::Label {
                text: match text {
                    Wording::Words { text } => SeenText::Words { text: text@ },
                    Wording::Amount { before, bytes, after } => SeenText::Amount {
                        before: before@,
                        bytes,
                        after: after@,
                    },
                    Wording::Amounts { first, between, second } => SeenText::Amounts {
                        first,
                        between: between@,
                        second,
                    },
                },
                frame,
                style,
            }),
            Element::Progress { frame, amount, most } => element@ == (Seen::Progress {
                frame,
                amount,
                most,
            }),
            Element::Bar { frame, part, whole, tone } => element@ == (Seen::Bar {
                frame,
                part,
                whole,
                tone,
            }),
            Element::Card { frame, tone } => element@ == (Seen::Card { frame, tone }),
            Element::Panel { frame } => element@ == (Seen::Panel { frame }),
            Element::Picture { name, frame } => element@ == (Seen::Picture { name: name@, frame }),
            Element::Button { title, frame, press } => element@ == (Seen::Button {
                title: title@,
                frame,
                press,
            }),
            Element::Checkbox { title, tag, on, enabled, frame } => element@ == (Seen::Checkbox {
                title: title@,
                tag,
                on,
                enabled,
                frame,
            }),
            Element::Field { value, tag, enabled, frame } => element@ == (Seen::Field {
                value: value@,
                tag,
                enabled,
                frame,
            }),
        },
{
}

/// The three cards of a result stand in a row, 174 points apart, each with its title above its
/// value.
pub proof fn result_cards_stand_in_a_row(result: CleanupResult, at: int)
    requires
        0 <= at < 3,
    ensures
        ({
            let all = result_elements(result);
            let x = 28 + 174 * at;
            &&& all[4 + 3 * at] is Card
            &&& stands_at(all[4 + 3 * at], x, 402, 156, 76)
            &&& stands_at(all[5 + 3 * at], x + 14, 448, 128, 16)
            &&& is_set(all[5 + 3 * at], 95, true, Ink::Muted)
            &&& stands_at(all[6 + 3 * at], x + 14, 414, 128, 30)
            &&& is_set(all[6 + 3 * at], 200, true, Ink::White)
        }),
{
    assert(result_heading(has_remarks(result)).len() == 4);
}

/// The five counters of a result stand in a row, 102 points apart, each below its title.
pub proof fn result_counters_stand_in_a_row(result: CleanupResult, at: int)
    requires
        0 <= at < 5,
    ensures
        ({
            let all = result_elements(result);
            let x = 28 + 102 * at;
            &&& stands_at(all[16 + 2 * at], x, 305, 92, 16)
            &&& is_set(all[16 + 2 * at], 85, true, Ink::Muted)
            &&& stands_at(all[17 + 2 * at], x, 279, 92, 23)
            &&& is_set(all[17 + 2 * at], 130, true, Ink::White)
        }),
{
    assert(result_heading(has_remarks(result)).len() == 4);
    assert(efficiency_lines(result).len() == 3);
}

/// The rest of a result stands around its cards and counters: the heading above them with the
/// artwork at its right, the efficiency between them, and the list below them, with the buttons
/// side by side at the bottom.
pub proof fn result_parts_stand_in_order(result: CleanupResult)
    ensures
        ({
            let all = result_elements(result);
            let size = all.len() as int;
            &&& stands_at(all[0], 430, 505, 105, 105)
            &&& stands_at(all[1], 28, 574, 360, 22) && is_set(all[1], 110, true, Ink::Muted)
            &&& stands_at(all[2], 28, 532, 390, 34) && is_set(all[2], 220, true, Ink::White)
            &&& stands_at(all[3], 28, 503, 390, 22) && is_set(all[3], 105, false, Ink::Muted)
            &&& stands_at(all[13], 28, 365, 220, 18) && is_set(all[13], 95, true, Ink::Muted)
            &&& stands_at(all[14], 335, 365, 197, 18) && is_set(all[14], 95, true, Ink::White)
            &&& stands_at(all[15], 28, 347, 504, 7)
            &&& stands_at(all[26], 28, 236, 320, 18) && is_set(all[26], 95, true, Ink::Muted)
            &&& stands_at(all[size - 2], 28, 24, 170, 40)
            &&& stands_at(all[size - 1], 362, 24, 170, 40)
        }),
{
    assert(result_heading(has_remarks(result)).len() == 4);
    assert(efficiency_lines(result).len() == 3);
}

/// The five cards of the statistics stand in a row, each value below its title, and the heading
/// and the free space above and below them.
pub proof fn statistics_parts_stand_in_order(snapshot: StatisticsSnapshot, at: int)
    requires
        0 <= at < 5,
    ensures
        ({
            let all = statistics_elements(snapshot);
            let width = if at == 0 {
                185int
            } else if at == 4 {
                110
            } else {
                145
            };
            let x = if at == 0 {
                28int
            } else {
                68 + 167 * at
            };
            &&& stands_at(all[3 + 2 * at], x, 571, width, 18)
            &&& is_set(all[3 + 2 * at], 105, true, Ink::Muted)
            &&& stands_at(all[4 + 2 * at], x, 536, width, 34)
            &&& is_set(all[4 + 2 * at], 230, true, Ink::White)
            &&& stands_at(all[0], 28, 635, 350, 28) && is_set(all[0], 220, true, Ink::White)
            &&& stands_at(all[1], 28, 610, 350, 18) && is_set(all[1], 105, true, Ink::Muted)
            &&& stands_at(all[2], 525, 622, 320, 18) && is_set(all[2], 100, false, Ink::Muted)
            &&& stands_at(all[13], 28, 495, 300, 20) && is_set(all[13], 120, true, Ink::White)
            &&& stands_at(all[14], 28, 466, 420, 26) && is_set(all[14], 170, true, Ink::White)
            &&& stands_at(all[15], 28, 443, 360, 18) && is_set(all[15], 105, false, Ink::Muted)
            &&& stands_at(all[16], 28, 400, 300, 20) && is_set(all[16], 120, true, Ink::White)
            &&& reads(all[0], "YETI³ CLEANER"@)
            &&& reads(all[2], "CODE. CLEAN. OPTIMIZE. REPEAT."@)
            &&& stands_at(all[all.len() - 2], 28, 18, 520, 18)
            &&& is_set(all[all.len() - 2], 95, false, Ink::Muted)
            &&& stands_at(all[all.len() - 1], 645, 12, 250, 34)
        }),
{
    let all = statistics_elements(snapshot);
    let heading = statistics_heading();
    let cards = statistics_cards(snapshot);
    let space = space_lines(snapshot);
    assert(heading.len() == 3);
    assert(cards.len() == 10);
    assert(space.len() == 4);
    assert forall|i: int| 0 <= i < 10 implies all[3 + i] == #[trigger] cards[i] by {}
    assert(all[13] == space[0]);
    assert(all[14] == space[1]);
    assert(all[15] == space[2]);
    assert(all[16] == space[3]);
    assert(all[0] == heading[0]);
    assert(all[1] == heading[1]);
    assert(all[2] == heading[2]);
    assert(all[3 + 2 * at] == cards[2 * at]);
    assert(all[4 + 2 * at] == cards[2 * at + 1]);
}

/// The window on the program has the artwork at its left and a panel at its right, with the
/// texts on it from top to bottom and the button below them.
pub proof fn about_parts_stand_in_order(version: Seq<char>)
    ensures
        ({
            let all = about_elements(version);
            &&& all.len() == 10
            &&& all[0] is Picture && stands_at(all[0], 20, 42, 530, 530)
            &&& all[0]->Picture_name == "Yeti3-About.png"@
            &&& all[1] is Panel && stands_at(all[1], 560, 64, 390, 500)
            &&& stands_at(all[2], 588, 482, 330, 44) && is_set(all[2], 290, true, Ink::White)
            &&& stands_at(all[3], 590, 445, 330, 25) && is_set(all[3], 150, false, Ink::Pale)
            &&& stands_at(all[4], 590, 394, 330, 25) && is_set(all[4], 125, true, Ink::White)
            &&& stands_at(all[5], 590, 334, 330, 22) && is_set(all[5], 115, true, Ink::Pale)
            &&& stands_at(all[6], 590, 304, 330, 22) && is_set(all[6], 115, true, Ink::Pale)
            &&& stands_at(all[7], 590, 242, 330, 24) && is_set(all[7], 115, true, Ink::White)
            &&& stands_at(all[8], 590, 208, 330, 22) && is_set(all[8], 105, false, Ink::Pale)
            &&& all[9] is Button && stands_at(all[9], 770, 98, 150, 42)
            &&& reads(all[5], "RUST · GOLANG · KUBERNETES"@)
            &&& reads(all[6], "SWIFT / OBJC · JAVASCRIPT"@)
            &&& reads(all[7], "CODE. CLEAN. OPTIMIZE. REPEAT."@)
            &&& reads(all[8], "Local-first · SQLite history"@)
        }),
{
}

/// The buttons of the settings stand side by side at the bottom.
pub proof fn settings_buttons_stand_below()
    ensures
        settings_buttons().len() == 2,
        stands_at(settings_buttons()[0], 18, 8, 130, 34),
        stands_at(settings_buttons()[1], 570, 8, 130, 34),
{
}

} // verus!
