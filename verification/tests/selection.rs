//! The question after a scan and its answer.

use yeti3_cleaner::selection::{
    clean_arguments, confirm_cleanup, selection_from, Choice, CleanupSelection, CONFIRMED,
};

fn usual() -> Vec<(Choice, bool)> {
    confirm_cleanup("").boxes.iter().map(|offer| (offer.choice, offer.checked)).collect()
}

#[test]
fn question_quotes_the_report() {
    let report = "header\nKnown direct total:   12 GB  \nMobileSync backups\t0 B\nKnown direct total 9";
    let question = confirm_cleanup(report);
    assert_eq!(question.message, "Сканирование завершено. Очистить найденное?");
    assert_eq!(
        question.information,
        "Найдено: :   12 GB. Копии iPhone/iPad: 0 B (0 Б может означать отсутствие доступа).\nПроверь пути ниже и отметь категории. Изменившиеся после скана каталоги будут пропущены."
    );
    assert!(question.report.starts_with(report));
    assert_eq!(
        &question.report[report.len()..],
        "\nДОПОЛНИТЕЛЬНЫЕ ДЕЙСТВИЯ — ТОЛЬКО ЕСЛИ ОТМЕЧЕНЫ\n\
         • Копии iPhone/iPad: содержимое ~/Library/Application Support/MobileSync/Backup (если доступно).\n\
         • Homebrew: команды, включённые в настройках. Предпросмотр Homebrew выше может измениться.\n\
         • Docker: включённые в настройках виды очистки (volumes сохраняются).\n\
         • Xcode: delete unavailable simulators, если включено в настройках.\n"
    );
    let lines = question.report.lines().count() as u128;
    let longest = question.report.lines().map(str::len).max().unwrap() as u64;
    assert_eq!(question.page.height, lines * 180 + 240);
    assert_eq!(question.page.width, longest * 75 + 240);
    assert_eq!(question.scrolled, question.page.height - 1400);
    assert_eq!((question.cancel.as_str(), question.confirm.as_str()), ("Отмена", "Очистить"));
}

#[test]
fn question_admits_what_it_does_not_know() {
    let question = confirm_cleanup("nothing of interest");
    assert!(question.information.starts_with(
        "Найдено: неизвестно. Копии iPhone/iPad: неизвестно (0 Б"
    ));
}

#[test]
fn choices_stand_two_in_a_row() {
    let question = confirm_cleanup("");
    let shown: Vec<(&str, bool, u64, u64)> = question
        .boxes
        .iter()
        .map(|offer| (offer.title.as_str(), offer.checked, offer.left, offer.bottom))
        .collect();
    assert_eq!(
        shown,
        vec![
            ("Корзина", false, 0, 110),
            ("Кэши приложений", true, 370, 110),
            ("Логи", true, 0, 84),
            ("Кэши разработки", true, 370, 84),
            ("Копии iPhone/iPad", false, 0, 58),
            ("Homebrew", false, 370, 58),
            ("Docker", false, 0, 32),
            ("Симуляторы Xcode", false, 370, 32),
            ("Свои каталоги", false, 0, 6),
        ]
    );
}

#[test]
fn nothing_is_selected_without_confirmation() {
    assert_eq!(selection_from(1000, &usual()), None);
    assert_eq!(selection_from(0, &usual()), None);
    let none: Vec<(Choice, bool)> = usual().into_iter().map(|(choice, _)| (choice, false)).collect();
    assert_eq!(selection_from(CONFIRMED, &none), None);
    assert_eq!(selection_from(CONFIRMED, &Vec::new()), None);
}

#[test]
fn marks_become_the_selection() {
    assert_eq!(
        selection_from(1001, &usual()),
        Some(CleanupSelection {
            groups: vec![Choice::Caches, Choice::Logs, Choice::Development],
            backups: false,
            homebrew: false,
            docker: false,
            xcode: false,
        })
    );
    let all: Vec<(Choice, bool)> = usual().into_iter().map(|(choice, _)| (choice, true)).collect();
    let selection = selection_from(1001, &all).unwrap();
    assert_eq!(
        selection.groups,
        vec![Choice::Trash, Choice::Caches, Choice::Logs, Choice::Development, Choice::Custom]
    );
    assert!(selection.backups && selection.homebrew && selection.docker && selection.xcode);
    let docker = selection_from(1001, &vec![(Choice::Docker, true)]).unwrap();
    assert!(docker.groups.is_empty() && docker.docker);
}

fn words(arguments: Vec<Vec<u8>>) -> Vec<String> {
    arguments.into_iter().map(|argument| String::from_utf8(argument).unwrap()).collect()
}

#[test]
fn selection_becomes_a_command_line() {
    let mut selection = CleanupSelection {
        groups: vec![Choice::Trash, Choice::Custom],
        backups: true,
        homebrew: false,
        docker: false,
        xcode: true,
    };
    assert_eq!(
        words(clean_arguments(b"/tmp/p.json", &selection)),
        [
            "clean",
            "--max",
            "--yes",
            "--plan-in",
            "/tmp/p.json",
            "--selected",
            "trash,custom",
            "--include-backups",
            "--include-xcode",
        ]
    );
    selection.groups.clear();
    selection.backups = false;
    selection.xcode = false;
    selection.docker = true;
    selection.homebrew = true;
    assert_eq!(
        words(clean_arguments(b"p", &selection)),
        ["clean", "--max", "--yes", "--plan-in", "p", "--include-homebrew", "--include-docker"]
    );
}

#[test]
fn keys_and_titles_belong_together() {
    let pairs: Vec<(String, String)> =
        usual().iter().map(|(choice, _)| (choice.title(), choice.key())).collect();
    assert_eq!(pairs[3], (String::from("Кэши разработки"), String::from("development")));
    assert_eq!(pairs[7], (String::from("Симуляторы Xcode"), String::from("xcode")));
    assert_eq!(pairs[4].1, "backups");
}
