//! The window with the result of a run.

use super::elements::{
    frame, make_frame, make_style, push_button, push_element, push_text, push_words, seen, style, words,
    Element, Frame, Ink, Press, Seen, Tone, Window,
};
use crate::amounts::{duration_text, format_bytes, format_duration, size_text};
use crate::text::{decimal, decimal_text};
use vstd::prelude::*;

verus! {

/// A category of a result.
#[derive(Debug, Clone, PartialEq, Eq)]
pub struct CleanupResultCategory {
    pub category: String,
    pub bytes: u64,
}

/// The result of a run.
#[derive(Debug, Clone, PartialEq, Eq)]
pub struct CleanupResult {
    pub id: i64,
    pub free_before: u64,
    pub free_after: u64,
    pub discovered_bytes: u64,
    pub reclaimed_bytes: u64,
    pub files_deleted: u64,
    pub dirs_deleted: u64,
    pub skipped: u64,
    pub errors: u64,
    pub duration_ms: u64,
    pub status: String,
    pub categories: Vec<CleanupResultCategory>,
}

/// Whether a run left something to remark on: it did not complete, or it met errors.
pub open spec fn has_remarks(result: CleanupResult) -> bool {
    result.status@ != "completed"@ || result.errors > 0
}

/// The tone of a result.
pub open spec fn tone_of(result: CleanupResult) -> Tone {
    if has_remarks(result) {
        Tone::Warning
    } else {
        Tone::Success
    }
}

/// How many categories are shown.
pub const SHOWN_CATEGORIES: usize = 3;

/// Whether a category reclaimed anything.
pub open spec fn reclaimed_any() -> spec_fn(CleanupResultCategory) -> bool {
    |category: CleanupResultCategory| category.bytes > 0
}

/// The categories that are shown: the first of those that reclaimed anything.
pub open spec fn shown_categories(result: CleanupResult) -> Seq<CleanupResultCategory> {
    let cleaned = result.categories@.filter(reclaimed_any());
    if cleaned.len() <= SHOWN_CATEGORIES {
        cleaned
    } else {
        cleaned.take(SHOWN_CATEGORIES as int)
    }
}

/// The most that one of `categories` reclaimed, or one where there are none.
pub open spec fn most_bytes(categories: Seq<CleanupResultCategory>) -> u64
    decreases categories.len(),
{
    if categories.len() == 0 {
        1
    } else if categories.len() == 1 || categories.last().bytes > most_bytes(
        categories.drop_last(),
    ) {
        categories.last().bytes
    } else {
        most_bytes(categories.drop_last())
    }
}

/// How much of what was found was reclaimed, as a part of a whole that is not zero.
pub open spec fn efficiency(result: CleanupResult) -> (u64, u64) {
    if result.discovered_bytes == 0 {
        (0, 1)
    } else if result.reclaimed_bytes > result.discovered_bytes {
        (result.discovered_bytes, result.discovered_bytes)
    } else {
        (result.reclaimed_bytes, result.discovered_bytes)
    }
}

/// A card at `place`, with a title and a value on it.
pub open spec fn card_at(
    place: Frame,
    title: Seq<char>,
    value: Seq<char>,
    tone: Tone,
) -> Seq<Seen> {
    let x = (place.x + 14) as i64;
    let width = (place.width - 28) as i64;
    seq![
        Seen::Card { frame: place, tone },
        words(title, frame(x, (place.y + 46) as i64, width, 16), style(95, true, Ink::Muted)),
        words(value, frame(x, (place.y + 12) as i64, width, 30), style(200, true, Ink::White)),
    ]
}

/// One of the cards in the upper row of the window.
pub open spec fn card(x: i64, title: Seq<char>, value: Seq<char>, tone: Tone) -> Seq<Seen> {
    card_at(frame(x, 402, 156, 76), title, value, tone)
}

/// A counter with its title above it.
pub open spec fn counter(x: i64, title: Seq<char>, value: Seq<char>) -> Seq<Seen> {
    seq![
        words(title, frame(x, 305, 92, 16), style(85, true, Ink::Muted)),
        words(value, frame(x, 279, 92, 23), style(130, true, Ink::White)),
    ]
}

/// The line of the category at position `index`: its name, what it reclaimed, and how that
/// compares with the most.
pub open spec fn category_line(
    category: CleanupResultCategory,
    index: int,
    most: u64,
    tone: Tone,
) -> Seq<Seen> {
    let y = 204 - 45 * index;
    seq![
        words(category.category@, frame(28, y as i64, 305, 18), style(105, false, Ink::White)),
        words(size_text(category.bytes), frame(405, y as i64, 127, 18), style(105, true, Ink::White)),
        Seen::Bar {
            frame: frame(28, (y - 11) as i64, 504, 5),
            part: category.bytes,
            whole: most,
            tone,
        },
    ]
}

/// The lines of the first `count` of `categories`.
pub open spec fn category_lines(
    categories: Seq<CleanupResultCategory>,
    count: int,
    most: u64,
    tone: Tone,
) -> Seq<Seen>
    decreases count,
{
    if count <= 0 {
        seq![]
    } else {
        category_lines(categories, count - 1, most, tone) + category_line(
            categories[count - 1],
            count - 1,
            most,
            tone,
        )
    }
}

/// The list of categories, or a remark that it is empty.
pub open spec fn category_list(result: CleanupResult) -> Seq<Seen> {
    let categories = shown_categories(result);
    if categories.len() == 0 {
        seq![
            words(
                "Нет очищенных категорий"@,
                frame(28, 204, 504, 20),
                style(110, false, Ink::Muted),
            ),
        ]
    } else {
        category_lines(
            categories,
            categories.len() as int,
            most_bytes(categories),
            tone_of(result),
        )
    }
}

/// What stands above the cards.
pub open spec fn result_heading(remarks: bool) -> Seq<Seen> {
    seq![
        Seen::Picture { name: "Yeti3-About.png"@, frame: frame(430, 505, 105, 105) },
        words("YETI³ CLEANER"@, frame(28, 574, 360, 22), style(110, true, Ink::Muted)),
        words(
            if remarks {
                "ЗАВЕРШЕНО С ЗАМЕЧАНИЯМИ"@
            } else {
                "ОЧИСТКА ЗАВЕРШЕНА"@
            },
            frame(28, 532, 390, 34),
            style(220, true, Ink::White),
        ),
        words(
            if remarks {
                "Не всё удалось удалить — детали сохранены в статистике"@
            } else {
                "Очистка завершена успешно"@
            },
            frame(28, 503, 390, 22),
            style(105, false, Ink::Muted),
        ),
    ]
}

/// How much of what was found was reclaimed.
pub open spec fn efficiency_lines(result: CleanupResult) -> Seq<Seen> {
    seq![
        words("ЭФФЕКТИВНОСТЬ"@, frame(28, 365, 220, 18), style(95, true, Ink::Muted)),
        words(
            size_text(result.reclaimed_bytes) + " / "@ + size_text(result.discovered_bytes),
            frame(335, 365, 197, 18),
            style(95, true, Ink::White),
        ),
        Seen::Bar {
            frame: frame(28, 347, 504, 7),
            part: efficiency(result).0,
            whole: efficiency(result).1,
            tone: tone_of(result),
        },
    ]
}

/// What the window with a result shows.
pub open spec fn result_elements(result: CleanupResult) -> Seq<Seen> {
    let tone = tone_of(result);
    result_heading(has_remarks(result)) + card(28, "БЫЛО"@, size_text(result.free_before), tone)
        + card(202, "СТАЛО"@, size_text(result.free_after), tone) + card(
        376,
        "ОСВОБОЖДЕНО"@,
        size_text(result.reclaimed_bytes),
        tone,
    ) + efficiency_lines(result) + counter(28, "ФАЙЛЫ"@, decimal(result.files_deleted as nat))
        + counter(130, "КАТАЛОГИ"@, decimal(result.dirs_deleted as nat)) + counter(
        232,
        "ПРОПУЩЕНО"@,
        decimal(result.skipped as nat),
    ) + counter(334, "ОШИБКИ"@, decimal(result.errors as nat)) + counter(
        436,
        "ВРЕМЯ"@,
        duration_text(result.duration_ms),
    ) + seq![
        words("БОЛЬШЕ ВСЕГО ОЧИЩЕНО"@, frame(28, 236, 320, 18), style(95, true, Ink::Muted)),
    ] + category_list(result) + seq![
        Seen::Button {
            title: "Статистика…"@,
            frame: frame(28, 24, 170, 40),
            press: Press::OpenStatistics,
        },
        Seen::Button {
            title: "Закрыть"@,
            frame: frame(362, 24, 170, 40),
            press: Press::CloseResult,
        },
    ]
}

/// Adds a card with a title and a value on it.
fn result_make_card(
    elements: &mut Vec<Element>,
    frame: Frame,
    title: &str,
    value: String,
    tone: Tone,
)
    requires
        frame.x + 14 <= i64::MAX,
        frame.y + 46 <= i64::MAX,
        frame.width - 28 >= i64::MIN,
    ensures
        seen(final(elements)@) == seen(old(elements)@) + card_at(frame, title@, value@, tone),
{
    let ghost before = seen(elements@);
    push_element(elements, Element::Card { frame, tone });
    push_text(
        elements,
        title,
        make_frame(frame.x + 14, frame.y + 46, frame.width - 28, 16),
        make_style(95, true, Ink::Muted),
    );
    push_words(
        elements,
        value,
        make_frame(frame.x + 14, frame.y + 12, frame.width - 28, 30),
        make_style(200, true, Ink::White),
    );
    assert(seen(elements@) =~= before + card_at(frame, title@, value@, tone));
}

/// Adds a counter with its title above it.
fn make_counter(elements: &mut Vec<Element>, x: i64, title: &str, value: String)
    ensures
        seen(final(elements)@) == seen(old(elements)@) + counter(x, title@, value@),
{
    let ghost before = seen(elements@);
    push_text(elements, title, make_frame(x, 305, 92, 16), make_style(85, true, Ink::Muted));
    push_words(elements, value, make_frame(x, 279, 92, 23), make_style(130, true, Ink::White));
    assert(seen(elements@) =~= before + counter(x, title@, value@));
}

/// Finds the categories that are shown.
fn pick_categories(result: &CleanupResult) -> (picked: Vec<&CleanupResultCategory>)
    ensures
        picked@.map_values(|category: &CleanupResultCategory| *category) == shown_categories(
            *result,
        ),
{
    let ghost cleaned = reclaimed_any();
    let ghost plain = |category: &CleanupResultCategory| *category;
    let mut picked: Vec<&CleanupResultCategory> = Vec::new();
    let mut at: usize = 0;
    while at < result.categories.len()
        invariant
            at <= result.categories.len(),
            cleaned == reclaimed_any(),
            plain == (|category: &CleanupResultCategory| *category),
            ({
                let found = result.categories@.take(at as int).filter(cleaned);
                picked@.map_values(plain) == if found.len() <= SHOWN_CATEGORIES {
                    found
                } else {
                    found.take(SHOWN_CATEGORIES as int)
                }
            }),
        decreases result.categories.len() - at,
    {
        let ghost found = result.categories@.take(at as int).filter(cleaned);
        let ghost next = result.categories@.take(at + 1).filter(cleaned);
        let category = &result.categories[at];
        proof {
            reveal(Seq::filter);
            assert(result.categories@.take(at + 1).drop_last() =~= result.categories@.take(
                at as int,
            ));
            assert(next == if category.bytes > 0 {
                found.push(*category)
            } else {
                found
            });
            assert(picked@.push(category).map_values(plain) =~= picked@.map_values(plain).push(
                *category,
            ));
            assert(picked@.map_values(plain).len() == picked.len());
            if found.len() >= SHOWN_CATEGORIES {
                assert(next.take(SHOWN_CATEGORIES as int) =~= found.take(SHOWN_CATEGORIES as int));
                assert(found.len() == SHOWN_CATEGORIES ==> found.take(SHOWN_CATEGORIES as int)
                    =~= found);
            }
        }
        if category.bytes > 0 && picked.len() < SHOWN_CATEGORIES {
            picked.push(category);
        }
        at = at + 1;
    }
    assert(result.categories@.take(at as int) =~= result.categories@);
    picked
}

/// Finds the most that one of `categories` reclaimed.
fn find_most(categories: &Vec<&CleanupResultCategory>) -> (most: u64)
    ensures
        most == most_bytes(
            categories@.map_values(|category: &CleanupResultCategory| *category),
        ),
{
    let ghost plain = |category: &CleanupResultCategory| *category;
    let ghost all = categories@.map_values(plain);
    let mut most: u64 = 1;
    let mut at: usize = 0;
    while at < categories.len()
        invariant
            at <= categories.len(),
            plain == (|category: &CleanupResultCategory| *category),
            all == categories@.map_values(plain),
            most == most_bytes(all.take(at as int)),
        decreases categories.len() - at,
    {
        assert(all.take(at + 1).drop_last() =~= all.take(at as int));
        assert(all.take(at + 1).last() == *categories@[at as int]);
        let bytes: u64 = categories[at].bytes;
        if at == 0 || bytes > most {
            most = bytes;
        }
        at = at + 1;
    }
    assert(all.take(at as int) =~= all);
    most
}

/// Adds the list of categories.
fn make_categories(elements: &mut Vec<Element>, result: &CleanupResult, tone: Tone)
    requires
        tone == tone_of(*result),
    ensures
        seen(final(elements)@) == seen(old(elements)@) + category_list(*result),
{
    let ghost before = seen(elements@);
    let ghost plain = |category: &CleanupResultCategory| *category;
    let categories = pick_categories(result);
    let ghost shown = shown_categories(*result);
    assert(shown == categories@.map_values(plain));
    assert(shown.len() == categories.len());
    let most = find_most(&categories);
    if categories.len() == 0 {
        push_text(
            elements,
            "Нет очищенных категорий",
            make_frame(28, 204, 504, 20),
            make_style(110, false, Ink::Muted),
        );
        assert(seen(elements@) =~= before + category_list(*result));
        return;
    }
    let mut y: i64 = 204;
    let mut at: usize = 0;
    assert(seen(elements@) =~= before + category_lines(shown, 0, most, tone));
    while at < categories.len()
        invariant
            at <= categories.len() <= SHOWN_CATEGORIES,
            plain == (|category: &CleanupResultCategory| *category),
            shown == categories@.map_values(plain),
            y == 204 - 45 * at,
            seen(elements@) == before + category_lines(shown, at as int, most, tone),
        decreases categories.len() - at,
    {
        let ghost so_far = seen(elements@);
        let category = categories[at];
        push_words(
            elements,
            category.category.clone(),
            make_frame(28, y, 305, 18),
            make_style(105, false, Ink::White),
        );
        push_words(
            elements,
            format_bytes(category.bytes),
            make_frame(405, y, 127, 18),
            make_style(105, true, Ink::White),
        );
        push_element(
            elements,
            Element::Bar {
                frame: make_frame(28, y - 11, 504, 5),
                part: category.bytes,
                whole: most,
                tone,
            },
        );
        proof {
            assert(shown[at as int] == *category);
            let line = category_line(shown[at as int], at as int, most, tone);
            assert(seen(elements@) =~= so_far + line);
            assert(so_far + line =~= before + (category_lines(shown, at as int, most, tone) + line));
        }
        y = y - 45;
        at = at + 1;
    }
}

/// Adds what stands above the cards.
fn make_heading(elements: &mut Vec<Element>, remarks: bool)
    ensures
        seen(final(elements)@) == seen(old(elements)@) + result_heading(remarks),
{
    let ghost before = seen(elements@);
    push_element(
        elements,
        Element::Picture {
            name: "Yeti3-About.png".to_owned(),
            frame: make_frame(430, 505, 105, 105),
        },
    );
    push_text(
        elements,
        "YETI³ CLEANER",
        make_frame(28, 574, 360, 22),
        make_style(110, true, Ink::Muted),
    );
    push_text(
        elements,
        if remarks {
            "ЗАВЕРШЕНО С ЗАМЕЧАНИЯМИ"
        } else {
            "ОЧИСТКА ЗАВЕРШЕНА"
        },
        make_frame(28, 532, 390, 34),
        make_style(220, true, Ink::White),
    );
    push_text(
        elements,
        if remarks {
            "Не всё удалось удалить — детали сохранены в статистике"
        } else {
            "Очистка завершена успешно"
        },
        make_frame(28, 503, 390, 22),
        make_style(105, false, Ink::Muted),
    );
    assert(seen(elements@) =~= before + result_heading(remarks));
}

/// Adds how much of what was found was reclaimed.
fn make_efficiency(elements: &mut Vec<Element>, result: &CleanupResult, tone: Tone)
    requires
        tone == tone_of(*result),
    ensures
        seen(final(elements)@) == seen(old(elements)@) + efficiency_lines(*result),
{
    let ghost before = seen(elements@);
    push_text(
        elements,
        "ЭФФЕКТИВНОСТЬ",
        make_frame(28, 365, 220, 18),
        make_style(95, true, Ink::Muted),
    );
    let mut amounts = format_bytes(result.reclaimed_bytes);
    let discovered = format_bytes(result.discovered_bytes);
    amounts.append(" / ");
    amounts.append(discovered.as_str());
    push_words(
        elements,
        amounts,
        make_frame(335, 365, 197, 18),
        make_style(95, true, Ink::White),
    );
    let whole: u64 = if result.discovered_bytes == 0 {
        1
    } else {
        result.discovered_bytes
    };
    let part: u64 = if result.reclaimed_bytes > result.discovered_bytes {
        result.discovered_bytes
    } else {
        result.reclaimed_bytes
    };
    push_element(elements, Element::Bar { frame: make_frame(28, 347, 504, 7), part, whole, tone });
    assert(seen(elements@) =~= before + efficiency_lines(*result));
}

/// Decides the tone of a result.
pub fn result_tone(result: &CleanupResult) -> (tone: Tone)
    ensures
        tone == tone_of(*result),
{
    let completed = "completed".to_owned();
    if result.status != completed || result.errors > 0 {
        Tone::Warning
    } else {
        Tone::Success
    }
}

/// Lays out the window with the result of a run.
pub fn show_result_popup(result: &CleanupResult) -> (window: Window)
    ensures
        window.shows(""@, 560, 620, result_elements(*result)),
{
    let tone = result_tone(result);
    let remarks = tone == Tone::Warning;
    let mut elements: Vec<Element> = Vec::new();
    make_heading(&mut elements, remarks);
    result_make_card(
        &mut elements,
        make_frame(28, 402, 156, 76),
        "БЫЛО",
        format_bytes(result.free_before),
        tone,
    );
    result_make_card(
        &mut elements,
        make_frame(202, 402, 156, 76),
        "СТАЛО",
        format_bytes(result.free_after),
        tone,
    );
    result_make_card(
        &mut elements,
        make_frame(376, 402, 156, 76),
        "ОСВОБОЖДЕНО",
        format_bytes(result.reclaimed_bytes),
        tone,
    );
    make_efficiency(&mut elements, result, tone);
    let mut x: i64 = 28;
    make_counter(&mut elements, x, "ФАЙЛЫ", decimal_text(result.files_deleted));
    x = x + 102;
    make_counter(&mut elements, x, "КАТАЛОГИ", decimal_text(result.dirs_deleted));
    x = x + 102;
    make_counter(&mut elements, x, "ПРОПУЩЕНО", decimal_text(result.skipped));
    x = x + 102;
    make_counter(&mut elements, x, "ОШИБКИ", decimal_text(result.errors));
    x = x + 102;
    make_counter(&mut elements, x, "ВРЕМЯ", format_duration(result.duration_ms));
    push_text(
        &mut elements,
        "БОЛЬШЕ ВСЕГО ОЧИЩЕНО",
        make_frame(28, 236, 320, 18),
        make_style(95, true, Ink::Muted),
    );
    make_categories(&mut elements, result, tone);
    push_button(
        &mut elements,
        "Статистика…",
        make_frame(28, 24, 170, 40),
        Press::OpenStatistics,
    );
    push_button(&mut elements, "Закрыть", make_frame(362, 24, 170, 40), Press::CloseResult);
    assert(seen(elements@) =~= result_elements(*result));
    Window { title: "".to_owned(), width: 560, height: 620, elements }
}

/// The most is at least what each reclaimed.
proof fn most_is_most(categories: Seq<CleanupResultCategory>, at: int)
    requires
        0 <= at < categories.len(),
    ensures
        categories[at].bytes <= most_bytes(categories),
    decreases categories.len(),
{
    if at < categories.len() - 1 {
        most_is_most(categories.drop_last(), at);
    }
}

/// Whether a bar is filled to no more than its whole, and has a whole.
pub open spec fn bar_fits(element: Seen) -> bool {
    element matches Seen::Bar { part, whole, .. } ==> part <= whole && whole > 0
}

proof fn category_bars_fit(
    categories: Seq<CleanupResultCategory>,
    count: int,
    most: u64,
    tone: Tone,
)
    requires
        0 <= count <= categories.len(),
        forall|i: int| 0 <= i < categories.len() ==> 0 < (#[trigger] categories[i]).bytes <= most,
    ensures
        forall|i: int|
            0 <= i < category_lines(categories, count, most, tone).len() ==> bar_fits(
                #[trigger] category_lines(categories, count, most, tone)[i],
            ),
    decreases count,
{
    if count > 0 {
        category_bars_fit(categories, count - 1, most, tone);
        assert(0 < categories[count - 1].bytes <= most);
        let all = category_lines(categories, count, most, tone);
        let head = category_lines(categories, count - 1, most, tone);
        let line = category_line(categories[count - 1], count - 1, most, tone);
        assert forall|i: int| 0 <= i < all.len() implies bar_fits(#[trigger] all[i]) by {
            if i < head.len() {
                assert(all[i] == head[i]);
            } else {
                assert(all[i] == line[i - head.len()]);
            }
        }
    }
}

/// No bar of a result is filled beyond its end, and none compares with nothing.
pub proof fn result_bars_fit(result: CleanupResult, at: int)
    requires
        0 <= at < result_elements(result).len(),
    ensures
        bar_fits(result_elements(result)[at]),
{
    broadcast use vstd::seq_lib::group_filter_ensures;

    let categories = shown_categories(result);
    let most = most_bytes(categories);
    assert forall|i: int| 0 <= i < categories.len() implies 0 < (#[trigger] categories[i]).bytes
        <= most by {
        most_is_most(categories, i);
        assert(categories[i] == result.categories@.filter(reclaimed_any())[i]);
        assert(reclaimed_any()(result.categories@.filter(reclaimed_any())[i]));
    }
    category_bars_fit(categories, categories.len() as int, most, tone_of(result));
    assert forall|i: int| 0 <= i < category_list(result).len() implies bar_fits(
        #[trigger] category_list(result)[i],
    ) by {}
}

/// At most three categories are shown, and each of them reclaimed something.
pub proof fn shown_categories_reclaimed(result: CleanupResult, at: int)
    requires
        0 <= at < shown_categories(result).len(),
    ensures
        shown_categories(result).len() <= 3,
        shown_categories(result)[at].bytes > 0,
        result.categories@.contains(shown_categories(result)[at]),
{
    broadcast use vstd::seq_lib::group_filter_ensures;

    let cleaned = result.categories@.filter(reclaimed_any());
    assert(shown_categories(result)[at] == cleaned[at]);
    assert(reclaimed_any()(cleaned[at]));
    assert(cleaned.contains(cleaned[at]));
    result.categories@.lemma_filter_contains_rev(reclaimed_any(), cleaned[at]);
}

} // verus!
