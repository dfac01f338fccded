use std::path::Path;
use yeti3_cleaner::history::store::HistoryError;
use yeti3_cleaner::paths::{
    bundled_engine_path, cleaner_path, database_path, database_path_in, disk_helper_path, join,
    legacy_database_path, legacy_database_path_in, parent_path, resource_path, result_path,
    result_path_in, unfinished_result_path, unfinished_result_path_in,
};

#[test]
fn parents_agree_with_the_standard_library() {
    let pieces = ["", "/", ".", "..", "a", "bc", ".d", "e."];
    for a in pieces {
        for b in pieces {
            for c in pieces {
                for d in pieces {
                    for text in [
                        format!("{a}/{b}/{c}/{d}"),
                        format!("{a}{b}/{c}{d}"),
                        format!("/{a}/{b}{c}/{d}"),
                        format!("{a}{b}{c}{d}"),
                    ] {
                        let expected = Path::new(&text).parent().map(bytes);
                        assert_eq!(parent_path(text.as_bytes()), expected, "{text:?}");
                    }
                }
            }
        }
    }
}

#[test]
fn joins_agree_with_the_standard_library() {
    for base in ["", "/", "a", "a/", "/x/y", "/x/y/"] {
        for rest in ["b", "b/c", "", ".", "/", "/b/c"] {
            let expected = bytes(&Path::new(base).join(rest));
            assert_eq!(join(base.as_bytes(), rest.as_bytes()), expected);
        }
    }
}

fn home(path: &str) -> Option<Vec<u8>> {
    Some(path.as_bytes().to_vec())
}

fn bytes(path: &Path) -> Vec<u8> {
    path.as_os_str().as_encoded_bytes().to_vec()
}

#[test]
fn files_lie_below_the_home_directory() {
    assert_eq!(
        database_path_in(home("/Users/yeti")),
        Ok(b"/Users/yeti/Documents/Yeti3Cleaner/history.sqlite3".to_vec())
    );
    assert_eq!(
        legacy_database_path_in(home("/Users/yeti")),
        Ok(b"/Users/yeti/Library/Application Support/Yeti3-Cleaner/history.sqlite3".to_vec())
    );
    let report = "/Users/yeti/Library/Application Support/Yeti3-Cleaner/latest-result.json";
    assert_eq!(result_path_in(home("/Users/yeti")), Ok(report.as_bytes().to_vec()));
    assert_eq!(
        unfinished_result_path_in(home("/Users/yeti")),
        Ok(bytes(&Path::new(report).with_extension("tmp")))
    );
    for base in ["", "/", "a", "a/", "/x/y//"] {
        assert_eq!(
            database_path_in(home(base)),
            Ok(bytes(&Path::new(base).join("Documents/Yeti3Cleaner/history.sqlite3")))
        );
    }
}

#[test]
fn home_directory_need_not_be_text() {
    let path = database_path_in(Some(vec![b'/', 0xff, 0xfe])).unwrap();
    assert_eq!(path[..4], [b'/', 0xff, 0xfe, b'/']);
    assert_eq!(path[4..], *b"Documents/Yeti3Cleaner/history.sqlite3");
}

#[test]
fn there_is_no_path_without_a_home_directory() {
    assert_eq!(database_path_in(None), Err(HistoryError::NoHome));
    assert_eq!(legacy_database_path_in(None), Err(HistoryError::NoHome));
    assert_eq!(result_path_in(None), Err(HistoryError::NoHome));
    assert_eq!(unfinished_result_path_in(None), Err(HistoryError::NoHome));
}

#[test]
fn home_directory_is_that_of_the_user() {
    let home = dirs::home_dir().map(|home| bytes(&home));
    assert_eq!(database_path(), database_path_in(home.clone()));
    assert_eq!(legacy_database_path(), legacy_database_path_in(home.clone()));
    assert_eq!(result_path(), result_path_in(home.clone()));
    assert_eq!(unfinished_result_path(), unfinished_result_path_in(home));
}

#[test]
fn parent_undoes_join() {
    for (dir, left) in [
        ("", ""),
        ("/", "/"),
        (".", "."),
        ("a", "a"),
        ("a/", "a"),
        ("a/.", "a"),
        ("/x//.//", "/x"),
        ("./.", "."),
        ("..", ".."),
    ] {
        for name in ["b", ".c", "..", "d."] {
            let whole = join(dir.as_bytes(), name.as_bytes());
            assert_eq!(parent_path(&whole), Some(left.as_bytes().to_vec()), "{dir:?} {name:?}");
            assert_eq!(Path::new(left), Path::new(dir));
        }
    }
}

#[test]
fn paths_without_a_component_have_no_parent() {
    for path in ["", "/", "//", "/.", "/./."] {
        assert_eq!(parent_path(path.as_bytes()), None, "{path:?}");
        assert_eq!(Path::new(path).parent(), None, "{path:?}");
    }
    for path in ["a", ".", "./", "..", "a/."] {
        assert_eq!(parent_path(path.as_bytes()), Some(Vec::new()), "{path:?}");
    }
}

#[test]
fn programs_are_found_in_the_bundle() {
    let exe = b"/Applications/Yeti3.app/Contents/MacOS/yeti3-cleaner-tray";
    let engine = b"/Applications/Yeti3.app/Contents/MacOS/yeti3-cleaner-engine".to_vec();
    assert_eq!(bundled_engine_path(exe), Some(engine.clone()));
    assert_eq!(bundled_engine_path(b"/"), None);
    assert_eq!(bundled_engine_path(b"/\xff/tray"), Some(b"/\xff/yeti3-cleaner-engine".to_vec()));
    assert_eq!(cleaner_path(Some(engine.clone()), true), engine);
    assert_eq!(cleaner_path(Some(engine.clone()), false), b"yeti3-cleaner");
    assert_eq!(cleaner_path(None, true), b"yeti3-cleaner");
    assert_eq!(
        resource_path(exe, "frame-00.png"),
        Some(b"/Applications/Yeti3.app/Contents/Resources/frame-00.png".to_vec())
    );
    assert_eq!(resource_path(exe, "/etc/hosts"), Some(b"/etc/hosts".to_vec()));
    assert_eq!(resource_path(b"tray", "frame-00.png"), None);
    assert_eq!(
        disk_helper_path(&engine),
        Some(b"/Applications/Yeti3.app/Contents/Helpers/Yeti3-DiskMap.app".to_vec())
    );
    assert_eq!(disk_helper_path(b"yeti3-cleaner"), None);
}
