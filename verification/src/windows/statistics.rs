//! The window with the statistics of the last thirty days.

use super::elements::{
    frame, make_frame, make_style, push_button, push_element, push_text, push_words, seen, style,
    words, Element, Ink, Press, Seen, SeenText, Window, Wording,
};
use crate::history::rows::{StatisticsCategory, StatisticsRun, StatisticsSnapshot};
use crate::text::{decimal, decimal_text, signed_decimal, signed_decimal_text};
use vstd::prelude::*;

verus! {

/// The period of the statistics, in days.
pub const STATISTICS_DAYS: u64 = 30;

/// How many runs are shown.
pub const SHOWN_RUNS: usize = 6;

/// How many categories are shown.
pub const SHOWN_CATEGORIES: usize = 5;

/// An amount of bytes with words around it.
pub open spec fn amount(before: Seq<char>, bytes: u64, after: Seq<char>) -> SeenText {
    SeenText::Amount { before, bytes, after }
}

/// A card: a title, and below it a value in large type.
pub open spec fn statistics_card(title: Seq<char>, value: SeenText, x: i64, width: i64) -> Seq<
    Seen,
> {
    seq![
        words(title, frame(x, 571, width, 18), style(105, true, Ink::Muted)),
        Seen::Label {
            text: value,
            frame: frame(x, 536, width, 34),
            style: style(230, true, Ink::White),
        },
    ]
}

/// A card with a number.
pub open spec fn number_card(title: Seq<char>, value: u64, x: i64, width: i64) -> Seq<Seen> {
    statistics_card(title, SeenText::Words { text: decimal(value as nat) }, x, width)
}

/// The scale of some progress indicators: the most of what they show, but not zero.
pub open spec fn scale(most: u64) -> u64 {
    if most == 0 {
        1
    } else {
        most
    }
}

/// The most that one of `runs` reclaimed, or one where there are none.
pub open spec fn most_of_runs(runs: Seq<StatisticsRun>) -> u64
    decreases runs.len(),
{
    if runs.len() == 0 {
        1
    } else if runs.len() == 1 || runs.last().reclaimed_bytes > most_of_runs(runs.drop_last()) {
        runs.last().reclaimed_bytes
    } else {
        most_of_runs(runs.drop_last())
    }
}

/// The most that one of `categories` reclaimed, or one where there are none.
pub open spec fn most_of_categories(categories: Seq<StatisticsCategory>) -> u64
    decreases categories.len(),
{
    if categories.len() == 0 {
        1
    } else if categories.len() == 1 || categories.last().reclaimed_bytes > most_of_categories(
        categories.drop_last(),
    ) {
        categories.last().reclaimed_bytes
    } else {
        most_of_categories(categories.drop_last())
    }
}

/// By how much a run enlarged the free space; nothing where it shrank.
pub open spec fn gained(run: StatisticsRun) -> u64 {
    if run.free_after > run.free_before {
        (run.free_after - run.free_before) as u64
    } else {
        0
    }
}

/// The line of the run at position `index`: what it reclaimed and whether it met errors, how
/// that compares with the most, what it gained, and when it began.
pub open spec fn run_line(run: StatisticsRun, index: int, most: u64) -> Seq<Seen> {
    let y = 368 - 30 * index;
    seq![
        Seen::Label {
            text: amount(
                ""@,
                run.reclaimed_bytes,
                if run.errors == 0 {
                    " · OK"@
                } else {
                    " · с замечаниями"@
                },
            ),
            frame: frame(28, y as i64, 260, 18),
            style: style(105, false, Ink::White),
        },
        Seen::Progress {
            frame: frame(292, (y + 2) as i64, 235, 12),
            amount: run.reclaimed_bytes,
            most: scale(most),
        },
        Seen::Label {
            text: amount("+"@, gained(run), " свободно"@),
            frame: frame(540, y as i64, 175, 18),
            style: style(100, false, Ink::Muted),
        },
        words(
            signed_decimal(run.started_at as int),
            frame(720, y as i64, 125, 18),
            style(95, false, Ink::Muted),
        ),
    ]
}

/// The lines of the first `count` of `runs`.
pub open spec fn run_lines(runs: Seq<StatisticsRun>, count: int, most: u64) -> Seq<Seen>
    decreases count,
{
    if count <= 0 {
        seq![]
    } else {
        run_lines(runs, count - 1, most) + run_line(runs[count - 1], count - 1, most)
    }
}

/// The line of the category at position `index`: its name, how it compares with the most,
/// what it reclaimed, and how many objects it had.
pub open spec fn category_line(category: StatisticsCategory, index: int, most: u64) -> Seq<Seen> {
    let y = 145 - 28 * index;
    seq![
        words(category.category@, frame(28, y as i64, 190, 18), style(105, false, Ink::White)),
        Seen::Progress {
            frame: frame(218, (y + 2) as i64, 370, 12),
            amount: category.reclaimed_bytes,
            most: scale(most),
        },
        Seen::Label {
            text: amount(""@, category.reclaimed_bytes, ""@),
            frame: frame(602, y as i64, 125, 18),
            style: style(105, true, Ink::White),
        },
        words(
            decimal(category.objects as nat) + " объектов"@,
            frame(733, y as i64, 115, 18),
            style(95, false, Ink::Muted),
        ),
    ]
}

/// The lines of the first `count` of `categories`.
pub open spec fn category_lines(
    categories: Seq<StatisticsCategory>,
    count: int,
    most: u64,
) -> Seq<Seen>
    decreases count,
{
    if count <= 0 {
        seq![]
    } else {
        category_lines(categories, count - 1, most) + category_line(
            categories[count - 1],
            count - 1,
            most,
        )
    }
}

/// The smaller of a length and a limit.
pub open spec fn at_most(len: nat, limit: usize) -> int {
    if len <= limit {
        len as int
    } else {
        limit as int
    }
}

/// What stands above the cards.
pub open spec fn statistics_heading() -> Seq<Seen> {
    seq![
        words("YETI³ CLEANER"@, frame(28, 635, 350, 28), style(220, true, Ink::White)),
        words("СТАТИСТИКА · 30 ДНЕЙ"@, frame(28, 610, 350, 18), style(105, true, Ink::Muted)),
        words(
            "CODE. CLEAN. OPTIMIZE. REPEAT."@,
            frame(525, 622, 320, 18),
            style(100, false, Ink::Muted),
        ),
    ]
}

/// The cards with the totals.
pub open spec fn statistics_cards(snapshot: StatisticsSnapshot) -> Seq<Seen> {
    statistics_card("ВСЕГО ОЧИЩЕНО"@, amount(""@, snapshot.reclaimed_bytes, ""@), 28, 185)
        + number_card("ЗАПУСКОВ"@, snapshot.runs, 235, 145) + number_card(
        "ФАЙЛОВ"@,
        snapshot.files_deleted,
        402,
        145,
    ) + number_card("КАТАЛОГОВ"@, snapshot.dirs_deleted, 569, 145) + number_card(
        "ОШИБОК"@,
        snapshot.errors,
        736,
        110,
    )
}

/// What is said of the free space.
pub open spec fn space_lines(snapshot: StatisticsSnapshot) -> Seq<Seen> {
    seq![
        words("СВОБОДНОЕ МЕСТО"@, frame(28, 495, 300, 20), style(120, true, Ink::White)),
        Seen::Label {
            text: SeenText::Amounts {
                first: snapshot.first_free_before,
                between: "  →  "@,
                second: snapshot.latest_free_after,
            },
            frame: frame(28, 466, 420, 26),
            style: style(170, true, Ink::White),
        },
        words(
            "Пропущено: "@ + decimal(snapshot.skipped as nat) + " · Ошибок: "@ + decimal(
                snapshot.errors as nat,
            ),
            frame(28, 443, 360, 18),
            style(105, false, Ink::Muted),
        ),
        words("ПОСЛЕДНИЕ ОЧИСТКИ"@, frame(28, 400, 300, 20), style(120, true, Ink::White)),
    ]
}

/// What the window with the statistics shows.
pub open spec fn statistics_elements(snapshot: StatisticsSnapshot) -> Seq<Seen> {
    let runs = snapshot.recent_runs@;
    let categories = snapshot.categories@;
    statistics_heading() + statistics_cards(snapshot) + space_lines(snapshot) + run_lines(
        runs,
        at_most(runs.len(), SHOWN_RUNS),
        most_of_runs(runs),
    ) + seq![words("ПО КАТЕГОРИЯМ"@, frame(28, 176, 300, 20), style(120, true, Ink::White))]
        + category_lines(
        categories,
        at_most(categories.len(), SHOWN_CATEGORIES),
        most_of_categories(categories),
    ) + seq![
        words(
            "Данные хранятся локально · SQLite · YETI³ Cleaner"@,
            frame(28, 18, 520, 18),
            style(95, false, Ink::Muted),
        ),
        Seen::Button {
            title: "Ошибки последней очистки…"@,
            frame: frame(645, 12, 250, 34),
            press: Press::OpenErrors,
        },
    ]
}

/// Adds a card.
fn make_card(elements: &mut Vec<Element>, title: &str, value: Wording, x: i64, width: i64)
    ensures
        seen(final(elements)@) == seen(old(elements)@) + statistics_card(title@, value@, x, width),
{
    let ghost before = seen(elements@);
    let y: i64 = 530;
    push_text(elements, title, make_frame(x, y + 41, width, 18), make_style(105, true, Ink::Muted));
    push_element(
        elements,
        Element::Label {
            text: value,
            frame: make_frame(x, y + 6, width, 34),
            style: make_style(230, true, Ink::White),
        },
    );
    assert(seen(elements@) =~= before + statistics_card(title@, value@, x, width));
}

/// Adds a card with a number.
fn make_number_card(elements: &mut Vec<Element>, title: &str, value: u64, x: i64, width: i64)
    ensures
        seen(final(elements)@) == seen(old(elements)@) + number_card(title@, value, x, width),
{
    make_card(elements, title, Wording::Words { text: decimal_text(value) }, x, width);
}

/// Words an amount.
fn word_amount(before: &str, bytes: u64, after: &str) -> (text: Wording)
    ensures
        text@ == amount(before@, bytes, after@),
{
    Wording::Amount { before: before.to_owned(), bytes, after: after.to_owned() }
}

/// Adds what stands above the cards, and the cards.
fn make_top(elements: &mut Vec<Element>, snapshot: &StatisticsSnapshot)
    ensures
        seen(final(elements)@) == seen(old(elements)@) + statistics_heading() + statistics_cards(
            *snapshot,
        ),
{
    let ghost before = seen(elements@);
    push_text(
        elements,
        "YETI³ CLEANER",
        make_frame(28, 635, 350, 28),
        make_style(220, true, Ink::White),
    );
    push_text(
        elements,
        "СТАТИСТИКА · 30 ДНЕЙ",
        make_frame(28, 610, 350, 18),
        make_style(105, true, Ink::Muted),
    );
    push_text(
        elements,
        "CODE. CLEAN. OPTIMIZE. REPEAT.",
        make_frame(525, 622, 320, 18),
        make_style(100, false, Ink::Muted),
    );
    assert(seen(elements@) =~= before + statistics_heading());
    let ghost headed = seen(elements@);
    make_card(
        elements,
        "ВСЕГО ОЧИЩЕНО",
        word_amount("", snapshot.reclaimed_bytes, ""),
        28,
        185,
    );
    make_number_card(elements, "ЗАПУСКОВ", snapshot.runs, 235, 145);
    make_number_card(elements, "ФАЙЛОВ", snapshot.files_deleted, 402, 145);
    make_number_card(elements, "КАТАЛОГОВ", snapshot.dirs_deleted, 569, 145);
    make_number_card(elements, "ОШИБОК", snapshot.errors, 736, 110);
    assert(seen(elements@) =~= headed + statistics_cards(*snapshot));
}

/// Adds what is said of the free space.
fn make_space(elements: &mut Vec<Element>, snapshot: &StatisticsSnapshot)
    ensures
        seen(final(elements)@) == seen(old(elements)@) + space_lines(*snapshot),
{
    let ghost before = seen(elements@);
    push_text(
        elements,
        "СВОБОДНОЕ МЕСТО",
        make_frame(28, 495, 300, 20),
        make_style(120, true, Ink::White),
    );
    push_element(
        elements,
        Element::Label {
            text: Wording::Amounts {
                first: snapshot.first_free_before,
                between: "  →  ".to_owned(),
                second: snapshot.latest_free_after,
            },
            frame: make_frame(28, 466, 420, 26),
            style: make_style(170, true, Ink::White),
        },
    );
    let mut line = "Пропущено: ".to_owned();
    let skipped = decimal_text(snapshot.skipped);
    let errors = decimal_text(snapshot.errors);
    line.append(skipped.as_str());
    line.append(" · Ошибок: ");
    line.append(errors.as_str());
    push_words(elements, line, make_frame(28, 443, 360, 18), make_style(105, false, Ink::Muted));
    push_text(
        elements,
        "ПОСЛЕДНИЕ ОЧИСТКИ",
        make_frame(28, 400, 300, 20),
        make_style(120, true, Ink::White),
    );
    assert(seen(elements@) =~= before + space_lines(*snapshot));
}

/// Finds the most that one of `runs` reclaimed.
fn find_most_of_runs(runs: &Vec<StatisticsRun>) -> (most: u64)
    ensures
        most == most_of_runs(runs@),
{
    let mut most: u64 = 1;
    let mut at: usize = 0;
    while at < runs.len()
        invariant
            at <= runs.len(),
            most == most_of_runs(runs@.take(at as int)),
        decreases runs.len() - at,
    {
        assert(runs@.take(at + 1).drop_last() =~= runs@.take(at as int));
        let bytes: u64 = runs[at].reclaimed_bytes;
        if at == 0 || bytes > most {
            most = bytes;
        }
        at = at + 1;
    }
    assert(runs@.take(at as int) =~= runs@);
    most
}

/// Finds the most that one of `categories` reclaimed.
fn find_most_of_categories(categories: &Vec<StatisticsCategory>) -> (most: u64)
    ensures
        most == most_of_categories(categories@),
{
    let mut most: u64 = 1;
    let mut at: usize = 0;
    while at < categories.len()
        invariant
            at <= categories.len(),
            most == most_of_categories(categories@.take(at as int)),
        decreases categories.len() - at,
    {
        assert(categories@.take(at + 1).drop_last() =~= categories@.take(at as int));
        let bytes: u64 = categories[at].reclaimed_bytes;
        if at == 0 || bytes > most {
            most = bytes;
        }
        at = at + 1;
    }
    assert(categories@.take(at as int) =~= categories@);
    most
}

/// Finds the scale of some progress indicators.
fn find_scale(most: u64) -> (found: u64)
    ensures
        found == scale(most),
{
    if most == 0 {
        1
    } else {
        most
    }
}

/// Adds the lines of the latest runs.
fn make_runs(elements: &mut Vec<Element>, runs: &Vec<StatisticsRun>)
    ensures
        seen(final(elements)@) == seen(old(elements)@) + run_lines(
            runs@,
            at_most(runs@.len(), SHOWN_RUNS),
            most_of_runs(runs@),
        ),
{
    let ghost before = seen(elements@);
    let most = find_most_of_runs(runs);
    let mut y: i64 = 368;
    let mut at: usize = 0;
    assert(seen(elements@) =~= before + run_lines(runs@, 0, most));
    while at < runs.len() && at < SHOWN_RUNS
        invariant
            at <= runs.len(),
            at <= SHOWN_RUNS,
            y == 368 - 30 * at,
            seen(elements@) == before + run_lines(runs@, at as int, most),
        decreases runs.len() - at,
    {
        let ghost so_far = seen(elements@);
        let run = &runs[at];
        let gain: u64 = if run.free_after > run.free_before {
            run.free_after - run.free_before
        } else {
            0
        };
        let remark = if run.errors == 0 {
            " · OK"
        } else {
            " · с замечаниями"
        };
        push_element(
            elements,
            Element::Label {
                text: word_amount("", run.reclaimed_bytes, remark),
                frame: make_frame(28, y, 260, 18),
                style: make_style(105, false, Ink::White),
            },
        );
        push_element(
            elements,
            Element::Progress {
                frame: make_frame(292, y + 2, 235, 12),
                amount: run.reclaimed_bytes,
                most: find_scale(most),
            },
        );
        push_element(
            elements,
            Element::Label {
                text: word_amount("+", gain, " свободно"),
                frame: make_frame(540, y, 175, 18),
                style: make_style(100, false, Ink::Muted),
            },
        );
        push_words(
            elements,
            signed_decimal_text(run.started_at),
            make_frame(720, y, 125, 18),
            make_style(95, false, Ink::Muted),
        );
        proof {
            let line = run_line(runs@[at as int], at as int, most);
            assert(seen(elements@) =~= so_far + line);
            assert(so_far + line =~= before + (run_lines(runs@, at as int, most) + line));
        }
        y = y - 30;
        at = at + 1;
    }
}

/// Adds the lines of the categories.
fn make_categories(elements: &mut Vec<Element>, categories: &Vec<StatisticsCategory>)
    ensures
        seen(final(elements)@) == seen(old(elements)@) + category_lines(
            categories@,
            at_most(categories@.len(), SHOWN_CATEGORIES),
            most_of_categories(categories@),
        ),
{
    let ghost before = seen(elements@);
    let most = find_most_of_categories(categories);
    let mut y: i64 = 145;
    let mut at: usize = 0;
    assert(seen(elements@) =~= before + category_lines(categories@, 0, most));
    while at < categories.len() && at < SHOWN_CATEGORIES
        invariant
            at <= categories.len(),
            at <= SHOWN_CATEGORIES,
            y == 145 - 28 * at,
            seen(elements@) == before + category_lines(categories@, at as int, most),
        decreases categories.len() - at,
    {
        let ghost so_far = seen(elements@);
        let category = &categories[at];
        push_words(
            elements,
            category.category.clone(),
            make_frame(28, y, 190, 18),
            make_style(105, false, Ink::White),
        );
        push_element(
            elements,
            Element::Progress {
                frame: make_frame(218, y + 2, 370, 12),
                amount: category.reclaimed_bytes,
                most: find_scale(most),
            },
        );
        push_element(
            elements,
            Element::Label {
                text: word_amount("", category.reclaimed_bytes, ""),
                frame: make_frame(602, y, 125, 18),
                style: make_style(105, true, Ink::White),
            },
        );
        let mut objects = decimal_text(category.objects);
        objects.append(" объектов");
        push_words(
            elements,
            objects,
            make_frame(733, y, 115, 18),
            make_style(95, false, Ink::Muted),
        );
        proof {
            let line = category_line(categories@[at as int], at as int, most);
            assert(seen(elements@) =~= so_far + line);
            assert(so_far + line =~= before + (category_lines(categories@, at as int, most)
                + line));
        }
        y = y - 28;
        at = at + 1;
    }
}

/// Lays out the window with the statistics.
pub fn show_statistics_window(snapshot: &StatisticsSnapshot) -> (window: Window)
    ensures
        window.shows("YETI³ Cleaner · Статистика"@, 940, 720, statistics_elements(*snapshot)),
{
    let mut elements: Vec<Element> = Vec::new();
    make_top(&mut elements, snapshot);
    make_space(&mut elements, snapshot);
    make_runs(&mut elements, &snapshot.recent_runs);
    push_text(
        &mut elements,
        "ПО КАТЕГОРИЯМ",
        make_frame(28, 176, 300, 20),
        make_style(120, true, Ink::White),
    );
    make_categories(&mut elements, &snapshot.categories);
    push_text(
        &mut elements,
        "Данные хранятся локально · SQLite · YETI³ Cleaner",
        make_frame(28, 18, 520, 18),
        make_style(95, false, Ink::Muted),
    );
    push_button(
        &mut elements,
        "Ошибки последней очистки…",
        make_frame(645, 12, 250, 34),
        Press::OpenErrors,
    );
    assert(seen(elements@) =~= statistics_elements(*snapshot));
    Window { title: "YETI³ Cleaner · Статистика".to_owned(), width: 940, height: 720, elements }
}

/// Whether a progress indicator shows no more than its most, and has a most.
pub open spec fn progress_fits(element: Seen) -> bool {
    element matches Seen::Progress { amount, most, .. } ==> amount <= most && most > 0
}

proof fn most_of_runs_is_most(runs: Seq<StatisticsRun>, at: int)
    requires
        0 <= at < runs.len(),
    ensures
        runs[at].reclaimed_bytes <= most_of_runs(runs),
    decreases runs.len(),
{
    if at < runs.len() - 1 {
        most_of_runs_is_most(runs.drop_last(), at);
    }
}

proof fn most_of_categories_is_most(categories: Seq<StatisticsCategory>, at: int)
    requires
        0 <= at < categories.len(),
    ensures
        categories[at].reclaimed_bytes <= most_of_categories(categories),
    decreases categories.len(),
{
    if at < categories.len() - 1 {
        most_of_categories_is_most(categories.drop_last(), at);
    }
}

proof fn run_lines_fit(runs: Seq<StatisticsRun>, count: int)
    requires
        0 <= count <= runs.len(),
    ensures
        forall|i: int|
            0 <= i < run_lines(runs, count, most_of_runs(runs)).len() ==> progress_fits(
                #[trigger] run_lines(runs, count, most_of_runs(runs))[i],
            ),
    decreases count,
{
    if count > 0 {
        run_lines_fit(runs, count - 1);
        most_of_runs_is_most(runs, count - 1);
        let most = most_of_runs(runs);
        let all = run_lines(runs, count, most);
        let head = run_lines(runs, count - 1, most);
        let line = run_line(runs[count - 1], count - 1, most);
        assert forall|i: int| 0 <= i < all.len() implies progress_fits(#[trigger] all[i]) by {
            if i < head.len() {
                assert(all[i] == head[i]);
            } else {
                assert(all[i] == line[i - head.len()]);
            }
        }
    }
}

proof fn category_lines_fit(categories: Seq<StatisticsCategory>, count: int)
    requires
        0 <= count <= categories.len(),
    ensures
        forall|i: int|
            0 <= i < category_lines(categories, count, most_of_categories(categories)).len()
                ==> progress_fits(
                #[trigger] category_lines(categories, count, most_of_categories(categories))[i],
            ),
    decreases count,
{
    if count > 0 {
        category_lines_fit(categories, count - 1);
        most_of_categories_is_most(categories, count - 1);
        let most = most_of_categories(categories);
        let all = category_lines(categories, count, most);
        let head = category_lines(categories, count - 1, most);
        let line = category_line(categories[count - 1], count - 1, most);
        assert forall|i: int| 0 <= i < all.len() implies progress_fits(#[trigger] all[i]) by {
            if i < head.len() {
                assert(all[i] == head[i]);
            } else {
                assert(all[i] == line[i - head.len()]);
            }
        }
    }
}

/// No progress indicator shows more than its most, and none compares with nothing.
pub proof fn statistics_progress_fits(snapshot: StatisticsSnapshot, at: int)
    requires
        0 <= at < statistics_elements(snapshot).len(),
    ensures
        progress_fits(statistics_elements(snapshot)[at]),
{
    let runs = snapshot.recent_runs@;
    let categories = snapshot.categories@;
    run_lines_fit(runs, at_most(runs.len(), SHOWN_RUNS));
    category_lines_fit(categories, at_most(categories.len(), SHOWN_CATEGORIES));
    assert forall|i: int| 0 <= i < statistics_cards(snapshot).len() implies progress_fits(
        #[trigger] statistics_cards(snapshot)[i],
    ) by {}
}

} // verus!
