//! The document for the latest result, read back with serde_json.

use serde_json::Value;
use yeti3_cleaner::history::result::{latest_result_json, result_json};
use yeti3_cleaner::history::rows::{CategoryTotal, CleanupEntry, CleanupRun};
use yeti3_cleaner::history::store::{HistoryDb, HistoryError};

fn run() -> CleanupRun {
    CleanupRun {
        id: 7,
        started_at: -5,
        finished_at: Some(1_700_000_000),
        disk_total: u64::MAX,
        free_before: 10,
        free_after: Some(25),
        discovered_bytes: 100,
        reclaimed_bytes: 15,
        files_deleted: 3,
        dirs_deleted: 1,
        skipped: 2,
        errors: 4,
        duration_ms: 1234,
        status: String::from("a \"b\" \\ \n\u{1}\u{8}\u{c}\r\t\u{1f} ключ \u{7f}"),
    }
}

fn totals(count: u64) -> Vec<CategoryTotal> {
    (0..count)
        .map(|n| CategoryTotal {
            category: format!("c\"{n}"),
            reclaimed_bytes: 1000 - n,
            files: n,
            errors: 2 * n,
        })
        .collect()
}

#[test]
fn document_has_an_exact_text() {
    let mut run = run();
    run.status = String::from("completed");
    run.finished_at = None;
    run.free_after = None;
    assert_eq!(
        result_json(&run, &totals(1)),
        "{\"categories\":[{\"bytes\":1000,\"category\":\"c\\\"0\",\"errors\":0,\"files\":0}],\
         \"dirs_deleted\":1,\"discovered_bytes\":100,\"disk_total\":18446744073709551615,\
         \"duration_ms\":1234,\"errors\":4,\"files_deleted\":3,\"finished_at\":null,\
         \"free_after\":10,\"free_before\":10,\"id\":7,\"reclaimed_bytes\":15,\"skipped\":2,\
         \"started_at\":-5,\"status\":\"completed\"}"
    );
}

#[test]
fn document_reads_back() {
    let run = run();
    let text = result_json(&run, &totals(7));
    let value: Value = serde_json::from_str(&text).unwrap();
    assert_eq!(value["id"], 7);
    assert_eq!(value["started_at"], -5);
    assert_eq!(value["finished_at"], 1_700_000_000i64);
    assert_eq!(value["disk_total"], u64::MAX);
    assert_eq!(value["free_before"], 10);
    assert_eq!(value["free_after"], 25);
    assert_eq!(value["discovered_bytes"], 100);
    assert_eq!(value["reclaimed_bytes"], 15);
    assert_eq!(value["files_deleted"], 3);
    assert_eq!(value["dirs_deleted"], 1);
    assert_eq!(value["skipped"], 2);
    assert_eq!(value["errors"], 4);
    assert_eq!(value["duration_ms"], 1234);
    assert_eq!(value["status"], run.status.as_str());
    assert_eq!(value.as_object().unwrap().len(), 15);
    let categories = value["categories"].as_array().unwrap();
    assert_eq!(categories.len(), 5);
    assert_eq!(categories[4]["category"], "c\"4");
    assert_eq!(categories[4]["bytes"], 996);
    assert_eq!(categories[4]["files"], 4);
    assert_eq!(categories[4]["errors"], 8);
    assert_eq!(value.to_string(), text);
}

#[test]
fn every_character_is_written_as_serde_json_writes_it() {
    let mut run = run();
    for code in (0u32..0x300).chain(0xfff0..0x10010) {
        if let Some(c) = char::from_u32(code) {
            run.status = format!("{c}x{c}");
            let text = result_json(&run, &Vec::new());
            let quoted = serde_json::to_string(&run.status).unwrap();
            assert!(text.ends_with(&format!("\"status\":{quoted}}}")), "{code:x}");
        }
    }
}

fn entry(run_id: i64, category: &str, bytes: u64) -> CleanupEntry {
    CleanupEntry {
        run_id,
        category: String::from(category),
        path: String::from("/p"),
        parent_path: None,
        kind: String::from("file"),
        bytes_before: bytes,
        bytes_reclaimed: bytes,
        action: String::from("delete"),
        rule: String::from("r"),
        result: String::from("deleted"),
        error: None,
    }
}

#[test]
fn latest_run_is_documented() {
    let mut db = HistoryDb::new();
    assert_eq!(latest_result_json(&db), Ok(String::from("{}")));
    let first = db.begin_cleanup_at(1, 1, 1, 1, "max").unwrap();
    let id = db.begin_cleanup_at(100, 1000, 10, 50, "max").unwrap();
    db.add_cleanup_entry(&entry(first, "other", 999)).unwrap();
    db.add_cleanup_entry(&entry(id, "small", 5)).unwrap();
    db.add_cleanup_entry(&entry(id, "large", 30)).unwrap();
    db.finish_cleanup_at(130, id, 45, 35, 2, 0, 0, 0, 30_000, "completed");
    let value: Value = serde_json::from_str(&latest_result_json(&db).unwrap()).unwrap();
    assert_eq!(value["id"], id);
    assert_eq!(value["free_after"], 45);
    assert_eq!(value["categories"][0]["category"], "large");
    assert_eq!(value["categories"][1]["bytes"], 5);
    assert_eq!(value["categories"].as_array().unwrap().len(), 2);
}

#[test]
fn sums_that_do_not_fit_are_refused() {
    let mut db = HistoryDb::new();
    let id = db.begin_cleanup_at(1, 1, 1, 1, "max").unwrap();
    db.add_cleanup_entry(&entry(id, "c", u64::MAX)).unwrap();
    db.add_cleanup_entry(&entry(id, "c", 1)).unwrap();
    assert_eq!(latest_result_json(&db), Err(HistoryError::SumOverflow));
}
