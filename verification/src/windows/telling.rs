//! What a user reads off the windows.

use super::about::about_elements;
use super::elements::{Frame, Ink, Press, Seen, SeenText, Tone};
use super::result::{
    category_line, category_lines, category_list, efficiency_lines, most_bytes, reclaimed_any,
    result_elements, result_heading, shown_categories, tone_of, CleanupResult,
    CleanupResultCategory,
};
use crate::amounts::{duration_text, size_text};
use crate::settings::screen::settings_buttons;
use crate::text::decimal;
use crate::unambiguous::decimals_are_unambiguous;
use vstd::prelude::*;

verus! {

/// Whether an element reads as `text`.
pub open spec fn reads(element: Seen, text: Seq<char>) -> bool {
    element matches Seen::Label { text: SeenText::Words { text: read }, .. } && read == text
}

/// Where an element stands.
pub open spec fn place_of(element: Seen) -> Frame {
    match element {
        Seen::Label { frame, .. } => frame,
        Seen::Progress { frame, .. } => frame,
        Seen::Bar { frame, .. } => frame,
        Seen::Card { frame, .. } => frame,
        Seen::Panel { frame } => frame,
        Seen::Picture { frame, .. } => frame,
        Seen::Button { frame, .. } => frame,
        Seen::Checkbox { frame, .. } => frame,
        Seen::Field { frame, .. } => frame,
    }
}

/// Whether an element stands at this place.
pub open spec fn stands_at(element: Seen, x: int, y: int, width: int, height: int) -> bool {
    let place = place_of(element);
    place.x == x && place.y == y && place.width == width && place.height == height
}

/// Whether an element is a text that is set so, with its size in tenths of a point.
pub open spec fn is_set(element: Seen, size: int, bold: bool, ink: Ink) -> bool {
    element matches Seen::Label { style, .. } && style.size == size && style.bold == bold
        && style.ink == ink
}

/// Whether an element stands right below another: its upper edge no higher than the other's
/// lower edge, in the same column.
pub open spec fn stands_below(lower: Seen, upper: Seen) -> bool {
    &&& place_of(lower).x == place_of(upper).x
    &&& place_of(lower).width == place_of(upper).width
    &&& place_of(lower).y + place_of(lower).height <= place_of(upper).y
}

/// Whether an element lies within a window of this size.
pub open spec fn lies_within(element: Seen, width: int, height: int) -> bool {
    let place = place_of(element);
    &&& 0 <= place.x && 0 < place.width && place.x + place.width <= width
    &&& 0 <= place.y && 0 < place.height && place.y + place.height <= height
}

/// Whether `value` is read right below `title`.
pub open spec fn reads_under(elements: Seq<Seen>, title: Seq<char>, value: Seq<char>) -> bool {
    exists|i: int|
        0 <= i < elements.len() - 1 && reads(#[trigger] elements[i], title) && reads(
            elements[i + 1],
            value,
        ) && stands_below(elements[i + 1], elements[i])
}

/// Whether there is a button of this title that does this.
pub open spec fn has_button(elements: Seq<Seen>, title: Seq<char>, press: Press) -> bool {
    exists|i: int|
        0 <= i < elements.len() && (#[trigger] elements[i] matches Seen::Button {
            title: read,
            press: done,
            ..
        } && read == title && done == press)
}

/// The window with a result tells it: below each title stands the number that the title names.
pub proof fn result_window_tells_the_numbers(result: CleanupResult)
    ensures
        reads_under(result_elements(result), "БЫЛО"@, size_text(result.free_before)),
        reads_under(result_elements(result), "СТАЛО"@, size_text(result.free_after)),
        reads_under(result_elements(result), "ОСВОБОЖДЕНО"@, size_text(result.reclaimed_bytes)),
        reads_under(result_elements(result), "ФАЙЛЫ"@, decimal(result.files_deleted as nat)),
        reads_under(result_elements(result), "КАТАЛОГИ"@, decimal(result.dirs_deleted as nat)),
        reads_under(result_elements(result), "ПРОПУЩЕНО"@, decimal(result.skipped as nat)),
        reads_under(result_elements(result), "ОШИБКИ"@, decimal(result.errors as nat)),
        reads_under(result_elements(result), "ВРЕМЯ"@, duration_text(result.duration_ms)),
{
    let all = result_elements(result);
    assert(result_heading(crate::windows::result::has_remarks(result)).len() == 4);
    assert(efficiency_lines(result).len() == 3);
    assert(reads(all[5], "БЫЛО"@) && reads(all[6], size_text(result.free_before)));
    assert(stands_below(all[6], all[5]));
    assert(reads(all[8], "СТАЛО"@) && reads(all[9], size_text(result.free_after)));
    assert(stands_below(all[9], all[8]));
    assert(reads(all[11], "ОСВОБОЖДЕНО"@) && reads(all[12], size_text(result.reclaimed_bytes)));
    assert(stands_below(all[12], all[11]));
    assert(reads(all[16], "ФАЙЛЫ"@) && reads(all[17], decimal(result.files_deleted as nat)));
    assert(stands_below(all[17], all[16]));
    assert(reads(all[18], "КАТАЛОГИ"@) && reads(all[19], decimal(result.dirs_deleted as nat)));
    assert(stands_below(all[19], all[18]));
    assert(reads(all[20], "ПРОПУЩЕНО"@) && reads(all[21], decimal(result.skipped as nat)));
    assert(stands_below(all[21], all[20]));
    assert(reads(all[22], "ОШИБКИ"@) && reads(all[23], decimal(result.errors as nat)));
    assert(stands_below(all[23], all[22]));
    assert(reads(all[24], "ВРЕМЯ"@) && reads(all[25], duration_text(result.duration_ms)));
    assert(stands_below(all[25], all[24]));
}

/// Two results whose windows are the same have the same counters.
pub proof fn result_windows_are_told_apart(left: CleanupResult, right: CleanupResult)
    requires
        result_elements(left) == result_elements(right),
    ensures
        left.files_deleted == right.files_deleted,
        left.dirs_deleted == right.dirs_deleted,
        left.skipped == right.skipped,
        left.errors == right.errors,
        size_text(left.free_before) == size_text(right.free_before),
        size_text(left.free_after) == size_text(right.free_after),
        size_text(left.reclaimed_bytes) == size_text(right.reclaimed_bytes),
        duration_text(left.duration_ms) == duration_text(right.duration_ms),
{
    let all = result_elements(left);
    let other = result_elements(right);
    assert(reads(all[6], size_text(left.free_before)));
    assert(reads(other[6], size_text(right.free_before)));
    assert(reads(all[9], size_text(left.free_after)));
    assert(reads(other[9], size_text(right.free_after)));
    assert(reads(all[12], size_text(left.reclaimed_bytes)));
    assert(reads(other[12], size_text(right.reclaimed_bytes)));
    assert(reads(all[17], decimal(left.files_deleted as nat)));
    assert(reads(other[17], decimal(right.files_deleted as nat)));
    assert(reads(all[19], decimal(left.dirs_deleted as nat)));
    assert(reads(other[19], decimal(right.dirs_deleted as nat)));
    assert(reads(all[21], decimal(left.skipped as nat)));
    assert(reads(other[21], decimal(right.skipped as nat)));
    assert(reads(all[23], decimal(left.errors as nat)));
    assert(reads(other[23], decimal(right.errors as nat)));
    assert(reads(all[25], duration_text(left.duration_ms)));
    assert(reads(other[25], duration_text(right.duration_ms)));
    decimals_are_unambiguous(left.files_deleted as nat, right.files_deleted as nat);
    decimals_are_unambiguous(left.dirs_deleted as nat, right.dirs_deleted as nat);
    decimals_are_unambiguous(left.skipped as nat, right.skipped as nat);
    decimals_are_unambiguous(left.errors as nat, right.errors as nat);
}

/// The heading of a result says whether all went well: the run completed and met no error.
pub proof fn result_heading_tells_how_it_went(result: CleanupResult)
    ensures
        result.status@ == "completed"@ && result.errors == 0 ==> reads(
            result_elements(result)[2],
            "ОЧИСТКА ЗАВЕРШЕНА"@,
        ) && reads(result_elements(result)[3], "Очистка завершена успешно"@),
        result.status@ != "completed"@ || result.errors > 0 ==> reads(
            result_elements(result)[2],
            "ЗАВЕРШЕНО С ЗАМЕЧАНИЯМИ"@,
        ) && reads(
            result_elements(result)[3],
            "Не всё удалось удалить — детали сохранены в статистике"@,
        ),
        stands_below(result_elements(result)[3], result_elements(result)[2]),
        reads(result_elements(result)[1], "YETI³ CLEANER"@),
        result_elements(result)[0] is Picture,
        result_elements(result)[0]->Picture_name == "Yeti3-About.png"@,
{
    let all = result_elements(result);
    let head = result_heading(crate::windows::result::has_remarks(result));
    assert(all[0] == head[0]);
    assert(all[1] == head[1]);
    assert(all[2] == head[2]);
    assert(all[3] == head[3]);
}

/// The window says how much of what was found was reclaimed, in words and by a bar that is
/// filled to that part, to all of it at most, and to nothing where nothing was found.
pub proof fn result_window_tells_the_efficiency(result: CleanupResult)
    ensures
        reads(result_elements(result)[13], "ЭФФЕКТИВНОСТЬ"@),
        reads(
            result_elements(result)[14],
            size_text(result.reclaimed_bytes) + " / "@ + size_text(result.discovered_bytes),
        ),
        result_elements(result)[15] matches Seen::Bar { part, whole, .. } && whole > 0 && part
            <= whole && (result.discovered_bytes > 0 ==> whole == result.discovered_bytes) && (
        0 < result.reclaimed_bytes <= result.discovered_bytes ==> part == result.reclaimed_bytes)
            && (result.reclaimed_bytes > result.discovered_bytes > 0 ==> part == whole) && (
        result.discovered_bytes == 0 || result.reclaimed_bytes == 0 ==> part == 0),
{
    let all = result_elements(result);
    let lines = efficiency_lines(result);
    assert(result_heading(crate::windows::result::has_remarks(result)).len() == 4);
    assert(all[13] == lines[0]);
    assert(all[14] == lines[1]);
    assert(all[15] == lines[2]);
}

proof fn lemma_lines(
    categories: Seq<CleanupResultCategory>,
    count: int,
    most: u64,
    tone: Tone,
    at: int,
)
    requires
        0 <= count <= categories.len(),
        0 <= at < count,
    ensures
        category_lines(categories, count, most, tone).len() == 3 * count,
        category_lines(categories, count, most, tone)[3 * at] == category_line(
            categories[at],
            at,
            most,
            tone,
        )[0],
        category_lines(categories, count, most, tone)[3 * at + 1] == category_line(
            categories[at],
            at,
            most,
            tone,
        )[1],
        category_lines(categories, count, most, tone)[3 * at + 2] == category_line(
            categories[at],
            at,
            most,
            tone,
        )[2],
    decreases count,
{
    let head = category_lines(categories, count - 1, most, tone);
    if count == 1 {
        assert(head.len() == 0);
    } else {
        lemma_lines(categories, count - 1, most, tone, if at < count - 1 { at } else { 0 });
    }
    assert(head.len() == 3 * (count - 1));
    assert(category_line(categories[count - 1], count - 1, most, tone).len() == 3);
}

proof fn lemma_most_is_reached(categories: Seq<CleanupResultCategory>) -> (at: int)
    requires
        categories.len() > 0,
    ensures
        0 <= at < categories.len(),
        most_bytes(categories) == categories[at].bytes,
        forall|i: int| 0 <= i < categories.len() ==> (#[trigger] categories[i]).bytes
            <= categories[at].bytes,
    decreases categories.len(),
{
    let less = categories.drop_last();
    if categories.len() == 1 {
        0
    } else {
        let before = lemma_most_is_reached(less);
        assert forall|i: int| 0 <= i < less.len() implies (#[trigger] categories[i]).bytes
            <= less[before].bytes by {
            assert(categories[i] == less[i]);
        }
        if categories.last().bytes > most_bytes(less) {
            categories.len() - 1
        } else {
            before
        }
    }
}

/// The list of a result has a line for each category that is shown: its name, what it
/// reclaimed, and a bar that compares that with the most of them. Without a category it says
/// so.
pub proof fn result_window_lists_categories(result: CleanupResult, at: int) -> (top: int)
    ensures
        ({
            let all = result_elements(result);
            let shown = shown_categories(result);
            &&& reads(all[26], "БОЛЬШЕ ВСЕГО ОЧИЩЕНО"@)
            &&& shown.len() == 0 ==> reads(all[27], "Нет очищенных категорий"@) && stands_at(
                all[27],
                28,
                204,
                504,
                20,
            ) && is_set(all[27], 110, false, Ink::Muted)
            &&& 0 <= at < shown.len() ==> {
                &&& 0 <= top < shown.len()
                &&& forall|i: int| 0 <= i < shown.len() ==> (#[trigger] shown[i]).bytes
                    <= shown[top].bytes
                &&& reads(all[27 + 3 * at], shown[at].category@)
                &&& reads(all[28 + 3 * at], size_text(shown[at].bytes))
                &&& all[29 + 3 * at] matches Seen::Bar { part, whole, .. } && part
                    == shown[at].bytes && whole == shown[top].bytes
                &&& stands_at(all[27 + 3 * at], 28, 204 - 45 * at, 305, 18)
                &&& is_set(all[27 + 3 * at], 105, false, Ink::White)
                &&& stands_at(all[28 + 3 * at], 405, 204 - 45 * at, 127, 18)
                &&& is_set(all[28 + 3 * at], 105, true, Ink::White)
                &&& stands_at(all[29 + 3 * at], 28, 193 - 45 * at, 504, 5)
            }
        }),
{
    let all = result_elements(result);
    let shown = shown_categories(result);
    let list = category_list(result);
    assert(result_heading(crate::windows::result::has_remarks(result)).len() == 4);
    assert(efficiency_lines(result).len() == 3);
    assert forall|i: int| 0 <= i < list.len() implies all[27 + i] == list[i] by {}
    if shown.len() == 0 {
        assert(all[27] == list[0]);
        0
    } else {
        let top = lemma_most_is_reached(shown);
        if 0 <= at < shown.len() {
            assert(at < 3);
            lemma_lines(shown, shown.len() as int, most_bytes(shown), tone_of(result), at);
            assert(all[27 + 3 * at] == list[3 * at]);
            assert(all[28 + 3 * at] == list[3 * at + 1]);
            assert(all[29 + 3 * at] == list[3 * at + 2]);
        }
        top
    }
}

proof fn lemma_kept_places(list: Seq<CleanupResultCategory>) -> (places: Seq<int>)
    ensures
        places.len() == list.filter(reclaimed_any()).len(),
        forall|k: int|
            0 <= k < places.len() ==> 0 <= #[trigger] places[k] < list.len() && list.filter(
                reclaimed_any(),
            )[k] == list[places[k]] && list[places[k]].bytes > 0,
        forall|k: int, l: int| 0 <= k < l < places.len() ==> places[k] < places[l],
        forall|i: int|
            0 <= i < list.len() && (#[trigger] list[i]).bytes > 0 ==> places.contains(i),
    decreases list.len(),
{
    reveal(Seq::filter);
    if list.len() == 0 {
        seq![]
    } else {
        let less = list.drop_last();
        let last = list.len() - 1;
        let before = lemma_kept_places(less);
        assert forall|k: int| 0 <= k < before.len() implies list[#[trigger] before[k]]
            == less[before[k]] by {}
        if reclaimed_any()(list.last()) {
            let places = before.push(last);
            assert forall|i: int| 0 <= i < list.len() && (#[trigger] list[i]).bytes
                > 0 implies places.contains(i) by {
                if i < last {
                    assert(less[i] == list[i]);
                    let k = before.index_of(i);
                    assert(before.contains(i));
                    assert(places[k] == i);
                } else {
                    assert(places[before.len() as int] == i);
                }
            }
            places
        } else {
            assert forall|i: int| 0 <= i < list.len() && (#[trigger] list[i]).bytes
                > 0 implies before.contains(i) by {
                if i < last {
                    assert(less[i] == list[i]);
                }
            }
            before
        }
    }
}

/// The categories that are shown are the first three of those that reclaimed anything, in
/// their order, or all of them where there are fewer.
pub proof fn first_categories_are_shown(result: CleanupResult) -> (places: Seq<int>)
    ensures
        places.len() == shown_categories(result).len() <= 3,
        forall|k: int|
            0 <= k < places.len() ==> 0 <= #[trigger] places[k] < result.categories@.len()
                && shown_categories(result)[k] == result.categories@[places[k]]
                && result.categories@[places[k]].bytes > 0,
        forall|k: int, l: int| 0 <= k < l < places.len() ==> places[k] < places[l],
        forall|i: int|
            0 <= i < result.categories@.len() && (#[trigger] result.categories@[i]).bytes > 0
                ==> places.contains(i) || places.len() == 3 && places[2] < i,
{
    let all = result.categories@;
    let places = lemma_kept_places(all);
    if places.len() <= 3 {
        places
    } else {
        let first = places.take(3);
        assert forall|i: int| 0 <= i < all.len() && (#[trigger] all[i]).bytes
            > 0 implies first.contains(i) || first[2] < i by {
            assert(places.contains(i));
            let k = places.index_of(i);
            if k < 3 {
                assert(first[k] == i);
            } else {
                assert(places[2] < places[k]);
            }
        }
        first
    }
}

/// All cards and bars of a result have one tone: that of success where the run completed and
/// met no error, and that of a warning otherwise. All of it lies within the window.
pub proof fn result_window_has_one_tone(result: CleanupResult, at: int)
    requires
        0 <= at < result_elements(result).len(),
    ensures
        result_elements(result)[at] matches Seen::Card { tone, .. } ==> (tone is Success
            <==> result.status@ == "completed"@ && result.errors == 0),
        result_elements(result)[at] matches Seen::Bar { tone, .. } ==> (tone is Success
            <==> result.status@ == "completed"@ && result.errors == 0),
        lies_within(result_elements(result)[at], 560, 620),
{
    let all = result_elements(result);
    let shown = shown_categories(result);
    let list = category_list(result);
    let tone = tone_of(result);
    assert(result_heading(crate::windows::result::has_remarks(result)).len() == 4);
    assert(efficiency_lines(result).len() == 3);
    if shown.len() > 0 {
        lemma_lines(shown, shown.len() as int, most_bytes(shown), tone, 0);
    }
    if at < 27 {
    } else if at < 27 + list.len() {
        assert(all[at] == list[at - 27]);
        if shown.len() > 0 {
            let line = (at - 27) / 3;
            lemma_lines(shown, shown.len() as int, most_bytes(shown), tone, line);
            let part = (at - 27) % 3;
            assert(at - 27 == 3 * line + part);
            assert(0 <= line < 3);
            if part == 0 {
                assert(list[at - 27] == category_line(shown[line], line, most_bytes(shown), tone)[0]);
            } else if part == 1 {
                assert(list[at - 27] == category_line(shown[line], line, most_bytes(shown), tone)[1]);
            } else {
                assert(list[at - 27] == category_line(shown[line], line, most_bytes(shown), tone)[2]);
            }
        }
    } else {
        assert(all[at] is Button);
    }
}

/// The buttons of the windows do what they say.
pub proof fn buttons_do_what_they_say(result: CleanupResult, version: Seq<char>)
    ensures
        has_button(result_elements(result), "Статистика…"@, Press::OpenStatistics),
        has_button(result_elements(result), "Закрыть"@, Press::CloseResult),
        has_button(about_elements(version), "Готово"@, Press::CloseAbout),
        has_button(settings_buttons(), "По умолчанию"@, Press::ResetDefaults),
        has_button(settings_buttons(), "Закрыть"@, Press::CloseSettings),
{
    let all = result_elements(result);
    let size = all.len() as int;
    assert(all[size - 2] is Button && all[size - 2]->Button_title == "Статистика…"@
        && all[size - 2]->press == Press::OpenStatistics);
    assert(all[size - 1] is Button && all[size - 1]->Button_title == "Закрыть"@
        && all[size - 1]->press == Press::CloseResult);
    assert(about_elements(version)[9]->press == Press::CloseAbout);
    assert(settings_buttons()[0]->press == Press::ResetDefaults);
    assert(settings_buttons()[1]->press == Press::CloseSettings);
}

/// The window on the program tells its version, and no two versions alike. All of it lies
/// within the window.
pub proof fn about_window_tells_the_version(version: Seq<char>, other: Seq<char>, at: int)
    ensures
        reads(about_elements(version)[4], "VERSION "@ + version),
        about_elements(version) == about_elements(other) ==> version == other,
        reads(about_elements(version)[2], "YETI³ CLEANER"@),
        reads(about_elements(version)[3], "Deep macOS Cleanup"@),
        0 <= at < about_elements(version).len() ==> lies_within(
            about_elements(version)[at],
            980,
            640,
        ),
{
    reveal_strlit("VERSION ");
    if about_elements(version) == about_elements(other) {
        assert(reads(about_elements(other)[4], "VERSION "@ + other));
        assert(("VERSION "@ + version).skip(8) =~= version);
        assert(("VERSION "@ + other).skip(8) =~= other);
    }
}

} // verus!
