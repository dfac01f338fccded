//! What a user reads off the window with the statistics.

use super::elements::{Ink, Press, Seen, SeenText};
use super::statistics::{
    at_most, category_line, category_lines, most_of_categories, most_of_runs, run_line, run_lines,
    space_lines, statistics_cards, statistics_elements, statistics_heading, SHOWN_CATEGORIES,
    SHOWN_RUNS, STATISTICS_DAYS,
};
use super::telling::{has_button, is_set, reads, reads_under, stands_at, stands_below};
use crate::history::rows::{StatisticsCategory, StatisticsRun, StatisticsSnapshot};
use crate::text::{decimal, signed_decimal};
use vstd::prelude::*;

verus! {

/// Whether an element shows an amount of bytes, with these words around it.
pub open spec fn amounts_to(
    element: Seen,
    before: Seq<char>,
    amount: int,
    after: Seq<char>,
) -> bool {
    element matches Seen::Label { text: SeenText::Amount { before: start, bytes, after: end }, .. }
        && start == before && bytes == amount && end == after
}

/// Below each title of the statistics stands the total that the title names, and the free
/// space is shown from the first run to the last. The period in the heading, thirty days, is
/// the one that the statistics are asked for.
pub proof fn statistics_window_tells_the_totals(snapshot: StatisticsSnapshot)
    ensures
        STATISTICS_DAYS == 30,
        ({
            let all = statistics_elements(snapshot);
            &&& reads(all[3], "ВСЕГО ОЧИЩЕНО"@)
            &&& amounts_to(all[4], ""@, snapshot.reclaimed_bytes as int, ""@)
            &&& stands_below(all[4], all[3])
            &&& reads_under(all, "ЗАПУСКОВ"@, decimal(snapshot.runs as nat))
            &&& reads_under(all, "ФАЙЛОВ"@, decimal(snapshot.files_deleted as nat))
            &&& reads_under(all, "КАТАЛОГОВ"@, decimal(snapshot.dirs_deleted as nat))
            &&& reads_under(all, "ОШИБОК"@, decimal(snapshot.errors as nat))
            &&& reads(all[13], "СВОБОДНОЕ МЕСТО"@)
            &&& all[14] matches Seen::Label { text: SeenText::Amounts { first, between, second }, .. }
                && first == snapshot.first_free_before && second == snapshot.latest_free_after
                && between == "  →  "@
            &&& reads(
                all[15],
                "Пропущено: "@ + decimal(snapshot.skipped as nat) + " · Ошибок: "@ + decimal(
                    snapshot.errors as nat,
                ),
            )
            &&& reads(all[1], "СТАТИСТИКА · "@ + decimal(STATISTICS_DAYS as nat) + " ДНЕЙ"@)
            &&& reads(all[16], "ПОСЛЕДНИЕ ОЧИСТКИ"@)
        }),
{
    let all = statistics_elements(snapshot);
    let heading = statistics_heading();
    let cards = statistics_cards(snapshot);
    let space = space_lines(snapshot);
    assert(heading.len() == 3);
    assert(cards.len() == 10);
    assert(space.len() == 4);
    assert(all[1] == heading[1]);
    reveal_strlit("СТАТИСТИКА · 30 ДНЕЙ");
    reveal_strlit("СТАТИСТИКА · ");
    reveal_strlit(" ДНЕЙ");
    reveal_with_fuel(decimal, 3);
    assert(decimal(30) =~= seq!['3', '0']);
    assert("СТАТИСТИКА · 30 ДНЕЙ"@ =~= "СТАТИСТИКА · "@ + decimal(30) + " ДНЕЙ"@);
    assert(all[3] == cards[0]);
    assert(all[4] == cards[1]);
    assert(reads(all[5], "ЗАПУСКОВ"@) && reads(all[6], decimal(snapshot.runs as nat)));
    assert(stands_below(all[6], all[5]));
    assert(reads(all[7], "ФАЙЛОВ"@) && reads(all[8], decimal(snapshot.files_deleted as nat)));
    assert(stands_below(all[8], all[7]));
    assert(reads(all[9], "КАТАЛОГОВ"@) && reads(all[10], decimal(snapshot.dirs_deleted as nat)));
    assert(stands_below(all[10], all[9]));
    assert(reads(all[11], "ОШИБОК"@) && reads(all[12], decimal(snapshot.errors as nat)));
    assert(stands_below(all[12], all[11]));
    assert(all[13] == space[0]);
    assert(all[14] == space[1]);
    assert(all[15] == space[2]);
    assert(all[16] == space[3]);
}

proof fn lemma_run_lines(runs: Seq<StatisticsRun>, count: int, most: u64, at: int)
    requires
        0 <= at < count <= runs.len(),
    ensures
        run_lines(runs, count, most).len() == 4 * count,
        forall|j: int|
            0 <= j < 4 ==> run_lines(runs, count, most)[4 * at + j] == #[trigger] run_line(
                runs[at],
                at,
                most,
            )[j],
    decreases count,
{
    let head = run_lines(runs, count - 1, most);
    if count == 1 {
        assert(head.len() == 0);
    } else {
        lemma_run_lines(runs, count - 1, most, if at < count - 1 { at } else { 0 });
    }
    assert(head.len() == 4 * (count - 1));
    assert(run_line(runs[count - 1], count - 1, most).len() == 4);
}

proof fn lemma_category_lines(
    categories: Seq<StatisticsCategory>,
    count: int,
    most: u64,
    at: int,
)
    requires
        0 <= at < count <= categories.len(),
    ensures
        category_lines(categories, count, most).len() == 4 * count,
        forall|j: int|
            0 <= j < 4 ==> category_lines(categories, count, most)[4 * at + j]
                == #[trigger] category_line(categories[at], at, most)[j],
    decreases count,
{
    let head = category_lines(categories, count - 1, most);
    if count == 1 {
        assert(head.len() == 0);
    } else {
        lemma_category_lines(categories, count - 1, most, if at < count - 1 { at } else { 0 });
    }
    assert(head.len() == 4 * (count - 1));
    assert(category_line(categories[count - 1], count - 1, most).len() == 4);
}

proof fn lemma_size_of_runs(runs: Seq<StatisticsRun>, count: int, most: u64)
    requires
        0 <= count <= runs.len(),
    ensures
        run_lines(runs, count, most).len() == 4 * count,
{
    if count > 0 {
        lemma_run_lines(runs, count, most, 0);
    }
}

/// The most that runs reclaimed is what one of them did, and no other did more.
pub proof fn most_of_runs_is_reached(runs: Seq<StatisticsRun>) -> (at: int)
    requires
        runs.len() > 0,
    ensures
        0 <= at < runs.len(),
        most_of_runs(runs) == runs[at].reclaimed_bytes,
        forall|i: int| 0 <= i < runs.len() ==> (#[trigger] runs[i]).reclaimed_bytes
            <= runs[at].reclaimed_bytes,
    decreases runs.len(),
{
    let less = runs.drop_last();
    if runs.len() == 1 {
        0
    } else {
        let before = most_of_runs_is_reached(less);
        assert forall|i: int| 0 <= i < less.len() implies (#[trigger] runs[i]).reclaimed_bytes
            <= less[before].reclaimed_bytes by {
            assert(runs[i] == less[i]);
        }
        if runs.last().reclaimed_bytes > most_of_runs(less) {
            runs.len() - 1
        } else {
            before
        }
    }
}

/// The most that categories reclaimed is what one of them did, and no other did more.
pub proof fn most_of_categories_is_reached(categories: Seq<StatisticsCategory>) -> (at: int)
    requires
        categories.len() > 0,
    ensures
        0 <= at < categories.len(),
        most_of_categories(categories) == categories[at].reclaimed_bytes,
        forall|i: int| 0 <= i < categories.len() ==> (#[trigger] categories[i]).reclaimed_bytes
            <= categories[at].reclaimed_bytes,
    decreases categories.len(),
{
    let less = categories.drop_last();
    if categories.len() == 1 {
        0
    } else {
        let before = most_of_categories_is_reached(less);
        assert forall|i: int| 0 <= i < less.len() implies (
        #[trigger] categories[i]).reclaimed_bytes <= less[before].reclaimed_bytes by {
            assert(categories[i] == less[i]);
        }
        if categories.last().reclaimed_bytes > most_of_categories(less) {
            categories.len() - 1
        } else {
            before
        }
    }
}

/// The window has a line for each of the first six runs: what it reclaimed and whether it met
/// errors, how that compares with the most of all runs, by how much the free space grew, and
/// when the run began. Each line stands thirty points below the one before.
pub proof fn statistics_window_lists_runs(snapshot: StatisticsSnapshot, at: int) -> (top: int)
    requires
        0 <= at < 6,
        at < snapshot.recent_runs@.len(),
    ensures
        ({
            let all = statistics_elements(snapshot);
            let run = snapshot.recent_runs@[at];
            let most = snapshot.recent_runs@[top].reclaimed_bytes;
            &&& 0 <= top < snapshot.recent_runs@.len()
            &&& forall|i: int|
                0 <= i < snapshot.recent_runs@.len() ==> (
                #[trigger] snapshot.recent_runs@[i]).reclaimed_bytes <= most
            &&& run.errors == 0 ==> amounts_to(
                all[17 + 4 * at],
                ""@,
                run.reclaimed_bytes as int,
                " · OK"@,
            )
            &&& run.errors > 0 ==> amounts_to(
                all[17 + 4 * at],
                ""@,
                run.reclaimed_bytes as int,
                " · с замечаниями"@,
            )
            &&& all[18 + 4 * at] matches Seen::Progress { amount, most: whole, .. } && amount
                == run.reclaimed_bytes && (most > 0 ==> whole == most) && (most == 0 ==> whole == 1)
            &&& run.free_after >= run.free_before ==> amounts_to(
                all[19 + 4 * at],
                "+"@,
                run.free_after - run.free_before,
                " свободно"@,
            )
            &&& run.free_after < run.free_before ==> amounts_to(
                all[19 + 4 * at],
                "+"@,
                0,
                " свободно"@,
            )
            &&& reads(all[20 + 4 * at], signed_decimal(run.started_at as int))
            &&& stands_at(all[17 + 4 * at], 28, 368 - 30 * at, 260, 18)
            &&& is_set(all[17 + 4 * at], 105, false, Ink::White)
            &&& stands_at(all[18 + 4 * at], 292, 370 - 30 * at, 235, 12)
            &&& stands_at(all[19 + 4 * at], 540, 368 - 30 * at, 175, 18)
            &&& is_set(all[19 + 4 * at], 100, false, Ink::Muted)
            &&& stands_at(all[20 + 4 * at], 720, 368 - 30 * at, 125, 18)
            &&& is_set(all[20 + 4 * at], 95, false, Ink::Muted)
        }),
{
    let all = statistics_elements(snapshot);
    let runs = snapshot.recent_runs@;
    let count = at_most(runs.len(), SHOWN_RUNS);
    let most = most_of_runs(runs);
    let lines = run_lines(runs, count, most);
    assert(statistics_heading().len() == 3);
    assert(statistics_cards(snapshot).len() == 10);
    assert(space_lines(snapshot).len() == 4);
    lemma_run_lines(runs, count, most, at);
    let line = run_line(runs[at], at, most);
    assert forall|i: int| 0 <= i < lines.len() implies all[17 + i] == lines[i] by {}
    assert(all[17 + 4 * at] == line[0]);
    assert(all[18 + 4 * at] == line[1]);
    assert(all[19 + 4 * at] == line[2]);
    assert(all[20 + 4 * at] == line[3]);
    most_of_runs_is_reached(runs)
}

/// The window has a line for each of the first five categories: its name, how what it
/// reclaimed compares with the most of all categories, what it reclaimed, and how many objects
/// it had. Each line stands twenty-eight points below the one before.
pub proof fn statistics_window_lists_categories(
    snapshot: StatisticsSnapshot,
    at: int,
) -> (top: int)
    requires
        0 <= at < 5,
        at < snapshot.categories@.len(),
    ensures
        ({
            let all = statistics_elements(snapshot);
            let runs = snapshot.recent_runs@.len();
            let start = 18 + 4 * if runs < 6 {
                runs as int
            } else {
                6
            };
            let category = snapshot.categories@[at];
            let most = snapshot.categories@[top].reclaimed_bytes;
            &&& 0 <= top < snapshot.categories@.len()
            &&& forall|i: int|
                0 <= i < snapshot.categories@.len() ==> (
                #[trigger] snapshot.categories@[i]).reclaimed_bytes <= most
            &&& reads(all[start - 1], "ПО КАТЕГОРИЯМ"@)
            &&& reads(all[start + 4 * at], category.category@)
            &&& all[start + 4 * at + 1] matches Seen::Progress { amount, most: whole, .. } && amount
                == category.reclaimed_bytes && (most > 0 ==> whole == most) && (most == 0 ==> whole
                == 1)
            &&& amounts_to(all[start + 4 * at + 2], ""@, category.reclaimed_bytes as int, ""@)
            &&& reads(all[start + 4 * at + 3], decimal(category.objects as nat) + " объектов"@)
            &&& stands_at(all[start - 1], 28, 176, 300, 20)
            &&& is_set(all[start - 1], 120, true, Ink::White)
            &&& stands_at(all[start + 4 * at], 28, 145 - 28 * at, 190, 18)
            &&& is_set(all[start + 4 * at], 105, false, Ink::White)
            &&& stands_at(all[start + 4 * at + 1], 218, 147 - 28 * at, 370, 12)
            &&& stands_at(all[start + 4 * at + 2], 602, 145 - 28 * at, 125, 18)
            &&& is_set(all[start + 4 * at + 2], 105, true, Ink::White)
            &&& stands_at(all[start + 4 * at + 3], 733, 145 - 28 * at, 115, 18)
            &&& is_set(all[start + 4 * at + 3], 95, false, Ink::Muted)
        }),
{
    let all = statistics_elements(snapshot);
    let runs = snapshot.recent_runs@;
    let categories = snapshot.categories@;
    let shown = at_most(runs.len(), SHOWN_RUNS);
    let count = at_most(categories.len(), SHOWN_CATEGORIES);
    let most = most_of_categories(categories);
    let lines = category_lines(categories, count, most);
    assert(statistics_heading().len() == 3);
    assert(statistics_cards(snapshot).len() == 10);
    assert(space_lines(snapshot).len() == 4);
    lemma_size_of_runs(runs, shown, most_of_runs(runs));
    lemma_category_lines(categories, count, most, at);
    let line = category_line(categories[at], at, most);
    let start = 18 + 4 * shown;
    assert forall|i: int| 0 <= i < lines.len() implies all[start + i] == lines[i] by {}
    assert(all[start + 4 * at] == line[0]);
    assert(all[start + 4 * at + 1] == line[1]);
    assert(all[start + 4 * at + 2] == line[2]);
    assert(all[start + 4 * at + 3] == line[3]);
    most_of_categories_is_reached(categories)
}

/// Six runs and five categories are shown at most, and nothing else stands in the window but
/// its headings, its totals, a remark and a button to the errors of the latest run.
pub proof fn statistics_window_ends_with_its_button(snapshot: StatisticsSnapshot)
    ensures
        ({
            let all = statistics_elements(snapshot);
            let runs = snapshot.recent_runs@.len();
            let categories = snapshot.categories@.len();
            &&& all.len() == 20 + 4 * (if runs < 6 {
                runs as int
            } else {
                6
            }) + 4 * (if categories < 5 {
                categories as int
            } else {
                5
            })
            &&& has_button(all, "Ошибки последней очистки…"@, Press::OpenErrors)
            &&& reads(
                all[all.len() - 2],
                "Данные хранятся локально · SQLite · YETI³ Cleaner"@,
            )
        }),
{
    let all = statistics_elements(snapshot);
    let runs = snapshot.recent_runs@;
    let categories = snapshot.categories@;
    let count = at_most(categories.len(), SHOWN_CATEGORIES);
    assert(statistics_heading().len() == 3);
    assert(statistics_cards(snapshot).len() == 10);
    assert(space_lines(snapshot).len() == 4);
    lemma_size_of_runs(runs, at_most(runs.len(), SHOWN_RUNS), most_of_runs(runs));
    if count > 0 {
        lemma_category_lines(categories, count, most_of_categories(categories), 0);
    }
    let size = all.len() as int;
    assert(all[size - 1] is Button && all[size - 1]->press == Press::OpenErrors
        && all[size - 1]->Button_title == "Ошибки последней очистки…"@);
}

} // verus!
