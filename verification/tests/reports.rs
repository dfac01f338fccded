//! The report on errors and the pages that reports take.

use yeti3_cleaner::report::{page_for, show_cleanup_errors};

fn error(category: &str, path: &str, reason: &str) -> (String, String, String) {
    (String::from(category), String::from(path), String::from(reason))
}

#[test]
fn errors_are_numbered() {
    let errors = vec![error("logs", "/a", "denied"), error("caches", "/b", "busy")];
    let window = show_cleanup_errors(Ok(errors));
    assert_eq!(window.message, "Ошибки последней очистки");
    assert_eq!(window.report, "1. logs\n/a\nПричина: denied\n\n2. caches\n/b\nПричина: busy\n");
    assert_eq!(window.button, "Закрыть");
    assert_eq!((window.page.width, window.page.height), (7400, 2400));
}

#[test]
fn no_errors_and_unread_errors_are_reported() {
    assert_eq!(show_cleanup_errors(Ok(Vec::new())).report, "Ошибок в последней очистке нет.");
    assert_eq!(
        show_cleanup_errors(Err(String::from("locked"))).report,
        "Не удалось загрузить ошибки: locked"
    );
}

#[test]
fn pages_grow_with_the_report() {
    let page = page_for("", 1400);
    assert_eq!((page.width, page.height), (7400, 1400));
    let wide = "x".repeat(200);
    assert_eq!(page_for(&wide, 0).width, 200 * 75 + 240);
    assert_eq!(page_for(&"x".repeat(95), 0).width, 7400);
    assert_eq!(page_for(&"x".repeat(96), 0).width, 7440);
    assert_eq!(page_for(&"x".repeat(796), 0).width, 59940);
    assert_eq!(page_for(&"x".repeat(797), 0).width, 60000);
    assert_eq!(page_for(&"x".repeat(5000), 0).width, 60000);
    assert_eq!(page_for(&"я".repeat(100), 0).width, 200 * 75 + 240);
    assert_eq!(page_for(&"a\n".repeat(20), 1400).height, 20 * 180 + 240);
    assert_eq!(page_for("a", 0).height, 420);
}
