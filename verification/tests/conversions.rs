use yeti3_cleaner::convert::{from_i64, to_i64};
use yeti3_cleaner::paths::parent_path;

#[test]
fn unsigned_database_conversion_is_safe() {
    assert_eq!(from_i64(-1), 0);
    assert_eq!(from_i64(42), 42);
    assert_eq!(to_i64(42), 42);
}

#[test]
fn parent_is_calculated() {
    assert_eq!(parent_path(b"/tmp/a/b"), Some(b"/tmp/a".to_vec()));
}
