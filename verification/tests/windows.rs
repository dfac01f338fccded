//! The windows with the result, the statistics and the program.

use yeti3_cleaner::history::rows::{StatisticsCategory, StatisticsRun, StatisticsSnapshot};
use yeti3_cleaner::windows::about::show_about_window;
use yeti3_cleaner::windows::elements::{Element, Frame, Ink, Press, TextStyle, Tone, Wording};
use yeti3_cleaner::windows::result::{
    result_tone, show_result_popup, CleanupResult, CleanupResultCategory,
};
use yeti3_cleaner::windows::statistics::{show_statistics_window, STATISTICS_DAYS};

fn result() -> CleanupResult {
    CleanupResult {
        id: 1,
        free_before: 1 << 30,
        free_after: 3 << 30,
        discovered_bytes: 4 << 30,
        reclaimed_bytes: 2 << 30,
        files_deleted: 12,
        dirs_deleted: 3,
        skipped: 4,
        errors: 0,
        duration_ms: 61_000,
        status: String::from("completed"),
        categories: ["a", "b", "c", "d", "e"]
            .iter()
            .zip([50u64, 0, 200, 100, 70])
            .map(|(category, bytes)| CleanupResultCategory {
                category: String::from(*category),
                bytes,
            })
            .collect(),
    }
}

fn words(elements: &[Element]) -> Vec<&str> {
    elements
        .iter()
        .filter_map(|element| match element {
            Element::Label { text: Wording::Words { text }, .. } => Some(text.as_str()),
            _ => None,
        })
        .collect()
}

fn bars(elements: &[Element]) -> Vec<(u64, u64, Tone, i64)> {
    elements
        .iter()
        .filter_map(|element| match element {
            Element::Bar { part, whole, tone, frame } => Some((*part, *whole, *tone, frame.y)),
            _ => None,
        })
        .collect()
}

#[test]
fn good_result_is_shown() {
    let window = show_result_popup(&result());
    assert_eq!((window.width, window.height), (560, 620));
    assert_eq!(
        words(&window.elements),
        [
            "YETI³ CLEANER",
            "ОЧИСТКА ЗАВЕРШЕНА",
            "Очистка завершена успешно",
            "БЫЛО",
            "1.00 GB",
            "СТАЛО",
            "3.00 GB",
            "ОСВОБОЖДЕНО",
            "2.00 GB",
            "ЭФФЕКТИВНОСТЬ",
            "2.00 GB / 4.00 GB",
            "ФАЙЛЫ",
            "12",
            "КАТАЛОГИ",
            "3",
            "ПРОПУЩЕНО",
            "4",
            "ОШИБКИ",
            "0",
            "ВРЕМЯ",
            "1 мин 1 сек",
            "БОЛЬШЕ ВСЕГО ОЧИЩЕНО",
            "a",
            "50 B",
            "c",
            "200 B",
            "d",
            "100 B",
        ]
    );
    assert_eq!(
        bars(&window.elements),
        vec![
            (2 << 30, 4 << 30, Tone::Success, 347),
            (50, 200, Tone::Success, 193),
            (200, 200, Tone::Success, 148),
            (100, 200, Tone::Success, 103),
        ]
    );
    assert_eq!(
        window.elements.last(),
        Some(&Element::Button {
            title: String::from("Закрыть"),
            frame: Frame { x: 362, y: 24, width: 170, height: 40 },
            press: Press::CloseResult,
        })
    );
    assert!(window.elements.contains(&Element::Card {
        frame: Frame { x: 376, y: 402, width: 156, height: 76 },
        tone: Tone::Success,
    }));
    assert!(window.elements.contains(&Element::Label {
        text: Wording::Words { text: String::from("ОСВОБОЖДЕНО") },
        frame: Frame { x: 390, y: 448, width: 128, height: 16 },
        style: TextStyle { size: 95, bold: true, ink: Ink::Muted },
    }));
    assert!(window.elements.contains(&Element::Label {
        text: Wording::Words { text: String::from("1 мин 1 сек") },
        frame: Frame { x: 436, y: 279, width: 92, height: 23 },
        style: TextStyle { size: 130, bold: true, ink: Ink::White },
    }));
}

#[test]
fn remarks_change_the_tone() {
    let mut with_errors = result();
    with_errors.errors = 1;
    let mut failed = result();
    failed.status = String::from("failed");
    for result in [with_errors, failed] {
        assert_eq!(result_tone(&result), Tone::Warning);
        let window = show_result_popup(&result);
        let shown = words(&window.elements);
        assert_eq!(shown[1], "ЗАВЕРШЕНО С ЗАМЕЧАНИЯМИ");
        assert_eq!(shown[2], "Не всё удалось удалить — детали сохранены в статистике");
        assert!(bars(&window.elements).iter().all(|bar| bar.2 == Tone::Warning));
    }
}

#[test]
fn bars_never_overflow() {
    let mut result = result();
    result.discovered_bytes = 0;
    assert_eq!(bars(&show_result_popup(&result).elements)[0].0, 0);
    assert_eq!(bars(&show_result_popup(&result).elements)[0].1, 1);
    result.discovered_bytes = 7;
    let first = bars(&show_result_popup(&result).elements)[0];
    assert_eq!((first.0, first.1), (7, 7));
}

#[test]
fn result_without_categories_says_so() {
    let mut result = result();
    for category in &mut result.categories {
        category.bytes = 0;
    }
    let window = show_result_popup(&result);
    assert_eq!(words(&window.elements).last(), Some(&"Нет очищенных категорий"));
    assert_eq!(bars(&window.elements).len(), 1);
}

fn snapshot(runs: u64, categories: u64) -> StatisticsSnapshot {
    StatisticsSnapshot {
        runs,
        reclaimed_bytes: 777,
        files_deleted: 8,
        dirs_deleted: 9,
        skipped: 10,
        errors: 11,
        first_free_before: 100,
        latest_free_after: 200,
        recent_runs: (0..runs)
            .map(|n| StatisticsRun {
                started_at: 1000 + n as i64,
                reclaimed_bytes: 10 * n,
                free_before: 50,
                free_after: 45 + 3 * n,
                errors: n % 2,
            })
            .collect(),
        categories: (0..categories)
            .map(|n| StatisticsCategory {
                category: format!("c{n}"),
                reclaimed_bytes: 100 - n,
                objects: n,
            })
            .collect(),
    }
}

#[test]
fn statistics_are_shown() {
    let window = show_statistics_window(&snapshot(8, 6));
    assert_eq!(STATISTICS_DAYS, 30);
    assert_eq!(window.title, "YETI³ Cleaner · Статистика");
    assert_eq!((window.width, window.height), (940, 720));
    let shown = words(&window.elements);
    assert_eq!(
        shown[..15],
        [
            "YETI³ CLEANER",
            "СТАТИСТИКА · 30 ДНЕЙ",
            "CODE. CLEAN. OPTIMIZE. REPEAT.",
            "ВСЕГО ОЧИЩЕНО",
            "ЗАПУСКОВ",
            "8",
            "ФАЙЛОВ",
            "8",
            "КАТАЛОГОВ",
            "9",
            "ОШИБОК",
            "11",
            "СВОБОДНОЕ МЕСТО",
            "Пропущено: 10 · Ошибок: 11",
            "ПОСЛЕДНИЕ ОЧИСТКИ",
        ]
    );
    assert_eq!(shown[15..22], ["1000", "1001", "1002", "1003", "1004", "1005", "ПО КАТЕГОРИЯМ"]);
    assert_eq!(shown[22..26], ["c0", "0 объектов", "c1", "1 объектов"]);
    assert_eq!(shown[30..], ["c4", "4 объектов", "Данные хранятся локально · SQLite · YETI³ Cleaner"]);
    let progress: Vec<(u64, u64, i64)> = window
        .elements
        .iter()
        .filter_map(|element| match element {
            Element::Progress { amount, most, frame } => Some((*amount, *most, frame.y)),
            _ => None,
        })
        .collect();
    assert_eq!(
        progress,
        vec![
            (0, 70, 370),
            (10, 70, 340),
            (20, 70, 310),
            (30, 70, 280),
            (40, 70, 250),
            (50, 70, 220),
            (100, 100, 147),
            (99, 100, 119),
            (98, 100, 91),
            (97, 100, 63),
            (96, 100, 35),
        ]
    );
    let amounts: Vec<&Wording> = window
        .elements
        .iter()
        .filter_map(|element| match element {
            Element::Label { text, .. } if !matches!(text, Wording::Words { .. }) => Some(text),
            _ => None,
        })
        .collect();
    assert_eq!(
        amounts[1],
        &Wording::Amounts { first: 100, between: String::from("  →  "), second: 200 }
    );
    assert_eq!(
        amounts[2],
        &Wording::Amount { before: String::new(), bytes: 0, after: String::from(" · OK") }
    );
    assert_eq!(
        amounts[3],
        &Wording::Amount { before: String::from("+"), bytes: 0, after: String::from(" свободно") }
    );
    assert_eq!(
        amounts[4],
        &Wording::Amount { before: String::new(), bytes: 10, after: String::from(" · с замечаниями") }
    );
    assert_eq!(
        amounts[7],
        &Wording::Amount { before: String::from("+"), bytes: 1, after: String::from(" свободно") }
    );
}

#[test]
fn statistics_of_nothing_have_a_scale() {
    let mut empty = snapshot(1, 1);
    empty.recent_runs[0].reclaimed_bytes = 0;
    empty.categories[0].reclaimed_bytes = 0;
    let window = show_statistics_window(&empty);
    let scales: Vec<u64> = window
        .elements
        .iter()
        .filter_map(|element| match element {
            Element::Progress { most, .. } => Some(*most),
            _ => None,
        })
        .collect();
    assert_eq!(scales, vec![1, 1]);
    assert_eq!(show_statistics_window(&snapshot(0, 0)).elements.len(), 20);
}

#[test]
fn program_is_described() {
    let window = show_about_window("1.2.3");
    assert_eq!(window.title, "YETI³ Cleaner");
    assert_eq!((window.width, window.height), (980, 640));
    assert_eq!(
        words(&window.elements),
        [
            "YETI³ CLEANER",
            "Deep macOS Cleanup",
            "VERSION 1.2.3",
            "RUST · GOLANG · KUBERNETES",
            "SWIFT / OBJC · JAVASCRIPT",
            "CODE. CLEAN. OPTIMIZE. REPEAT.",
            "Local-first · SQLite history",
        ]
    );
    assert_eq!(
        window.elements[0],
        Element::Picture {
            name: String::from("Yeti3-About.png"),
            frame: Frame { x: 20, y: 42, width: 530, height: 530 },
        }
    );
    assert_eq!(
        window.elements[9],
        Element::Button {
            title: String::from("Готово"),
            frame: Frame { x: 770, y: 98, width: 150, height: 42 },
            press: Press::CloseAbout,
        }
    );
}
