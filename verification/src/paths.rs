//! File paths, byte by byte as the system has them, with `/` between components.

use crate::history::store::HistoryError;
use vstd::prelude::*;
use vstd::utf8::encode_utf8;

verus! {

/// The byte between the components of a path.
pub const SEPARATOR: u8 = 0x2f;

/// The byte of which the component for the directory itself is made.
pub const DOT: u8 = 0x2e;

/// The bytes of an optional path.
pub open spec fn optional_bytes(path: Option<Vec<u8>>) -> Option<Seq<u8>> {
    match path {
        Some(path) => Some(path@),
        None => None,
    }
}

/// The bytes of a text.
pub fn bytes_of(text: &str) -> (bytes: Vec<u8>)
    ensures
        bytes@ == encode_utf8(text@),
{
    let mut bytes: Vec<u8> = Vec::new();
    bytes.extend_from_slice(text.as_bytes());
    assert(bytes@ =~= encode_utf8(text@));
    bytes
}

/// The length of what stands before the ordinary components of a path: the
/// root, or a leading `.` component.
pub open spec fn head_len(path: Seq<u8>) -> int {
    if path.len() > 0 && path[0] == SEPARATOR {
        1
    } else if path.len() > 0 && path[0] == DOT && (path.len() == 1 || path[1] == SEPARATOR) {
        1
    } else {
        0
    }
}

/// Where the last component of the first `len` bytes begins.
pub open spec fn last_start(path: Seq<u8>, len: int) -> int
    decreases len,
{
    if len <= head_len(path) || path[len - 1] == SEPARATOR {
        len
    } else {
        last_start(path, len - 1)
    }
}

/// What is left of the first `len` bytes without their last component and
/// the separator before it.
pub open spec fn without_last(path: Seq<u8>, len: int) -> int {
    let start = last_start(path, len);
    if start > head_len(path) {
        start - 1
    } else {
        start
    }
}

/// What is left of the first `len` bytes without the empty components and
/// the `.` components at their end.
pub open spec fn trimmed(path: Seq<u8>, len: int) -> int
    decreases len,
{
    let start = last_start(path, len);
    if len > head_len(path) && 0 <= without_last(path, len) < len && (start == len || (start + 1
        == len && path[start] == DOT)) {
        trimmed(path, without_last(path, len))
    } else {
        len
    }
}

/// The path without its last component, where it has one besides the root.
pub open spec fn parent(path: Seq<u8>) -> Option<Seq<u8>> {
    let len = trimmed(path, path.len() as int);
    if len > head_len(path) {
        Some(path.take(trimmed(path, without_last(path, len))))
    } else if len > 0 && path[0] == DOT {
        Some(Seq::<u8>::empty())
    } else {
        None
    }
}

proof fn lemma_last_start(path: Seq<u8>, len: int)
    requires
        head_len(path) <= len <= path.len(),
    ensures
        head_len(path) <= last_start(path, len) <= len,
        last_start(path, len) > head_len(path) ==> path[last_start(path, len) - 1] == SEPARATOR,
        forall|i: int| last_start(path, len) <= i < len ==> path[i] != SEPARATOR,
        len > head_len(path) ==> head_len(path) <= without_last(path, len) < len,
    decreases len,
{
    if len > head_len(path) && path[len - 1] != SEPARATOR {
        lemma_last_start(path, len - 1);
    }
}

proof fn lemma_trimmed(path: Seq<u8>, len: int)
    requires
        head_len(path) <= len <= path.len(),
    ensures
        head_len(path) <= trimmed(path, len) <= len,
    decreases len,
{
    lemma_last_start(path, len);
    if trimmed(path, len) != len {
        lemma_trimmed(path, without_last(path, len));
    }
}

fn head_length(path: &[u8]) -> (len: usize)
    ensures
        len == head_len(path@),
        len <= path.len(),
{
    if path.len() > 0 && path[0] == SEPARATOR {
        1
    } else if path.len() > 0 && path[0] == DOT && (path.len() == 1 || path[1] == SEPARATOR) {
        1
    } else {
        0
    }
}

fn last_component(path: &[u8], head: usize, len: usize) -> (start: usize)
    requires
        head == head_len(path@),
        head <= len <= path.len(),
    ensures
        start == last_start(path@, len as int),
        head <= start <= len,
{
    let mut start: usize = len;
    while start > head && path[start - 1] != SEPARATOR
        invariant
            head == head_len(path@),
            head <= start <= len <= path.len(),
            last_start(path@, start as int) == last_start(path@, len as int),
        decreases start,
    {
        start = start - 1;
    }
    start
}

fn drop_last_component(path: &[u8], head: usize, len: usize) -> (rest: usize)
    requires
        head == head_len(path@),
        head < len <= path.len(),
    ensures
        rest == without_last(path@, len as int),
        head <= rest < len,
{
    proof {
        lemma_last_start(path@, len as int);
    }
    let start = last_component(path, head, len);
    if start > head {
        start - 1
    } else {
        start
    }
}

fn trim_end(path: &[u8], head: usize, from: usize) -> (len: usize)
    requires
        head == head_len(path@),
        head <= from <= path.len(),
    ensures
        len == trimmed(path@, from as int),
        head <= len <= from,
{
    let mut len: usize = from;
    while len > head
        invariant
            head == head_len(path@),
            head <= len <= from <= path.len(),
            trimmed(path@, len as int) == trimmed(path@, from as int),
        ensures
            len == trimmed(path@, from as int),
            head <= len <= from,
        decreases len,
    {
        proof {
            lemma_last_start(path@, len as int);
        }
        let start = last_component(path, head, len);
        if start == len || (start + 1 == len && path[start] == DOT) {
            len = drop_last_component(path, head, len);
        } else {
            break;
        }
    }
    len
}

/// The first `len` bytes of a path.
fn first_bytes(path: &[u8], len: usize) -> (part: Vec<u8>)
    requires
        len <= path.len(),
    ensures
        part@ == path@.take(len as int),
{
    let mut part: Vec<u8> = Vec::new();
    let mut at: usize = 0;
    while at < len
        invariant
            at <= len <= path.len(),
            part@ == path@.take(at as int),
        decreases len - at,
    {
        part.push(path[at]);
        at = at + 1;
    }
    part
}

/// The parent of a path: the path without its last component. The root and the
/// empty path have none.
pub fn parent_path(path: &[u8]) -> (found: Option<Vec<u8>>)
    ensures
        optional_bytes(found) == parent(path@),
{
    let head = head_length(path);
    let len = trim_end(path, head, path.len());
    if len > head {
        let rest = drop_last_component(path, head, len);
        let end = trim_end(path, head, rest);
        Some(first_bytes(path, end))
    } else if len > 0 && path[0] == DOT {
        let none = first_bytes(path, 0);
        assert(none@ =~= Seq::<u8>::empty());
        Some(none)
    } else {
        None
    }
}

/// Whether a path says of itself where it begins.
pub open spec fn is_absolute(path: Seq<u8>) -> bool {
    path.len() > 0 && path[0] == SEPARATOR
}

/// `path` continued by `rest`. One that is absolute takes the place of the path.
pub open spec fn joined(path: Seq<u8>, rest: Seq<u8>) -> Seq<u8> {
    if is_absolute(rest) {
        rest
    } else if path.len() == 0 || path.last() == SEPARATOR {
        path + rest
    } else {
        path.push(SEPARATOR) + rest
    }
}

/// Continues `path` by `rest`.
pub fn join(path: &[u8], rest: &[u8]) -> (whole: Vec<u8>)
    ensures
        whole@ == joined(path@, rest@),
{
    let mut whole: Vec<u8> = Vec::new();
    if !(rest.len() > 0 && rest[0] == SEPARATOR) {
        whole.extend_from_slice(path);
        assert(whole@ =~= path@);
        if path.len() > 0 && path[path.len() - 1] != SEPARATOR {
            whole.push(SEPARATOR);
        }
    }
    let ghost before = whole@;
    whole.extend_from_slice(rest);
    assert(whole@ =~= before + rest@);
    assert(whole@ =~= joined(path@, rest@));
    whole
}

/// Whether `path` is the answer where the home directory is `home` and `rest` leads on from
/// it: that place, or the failure that there is no home directory.
pub open spec fn is_below_home(
    path: Result<Vec<u8>, HistoryError>,
    home: Option<Seq<u8>>,
    rest: Seq<char>,
) -> bool {
    match home {
        Some(home) => path matches Ok(path) && path@ == joined(home, encode_utf8(rest)),
        None => path == Err::<Vec<u8>, HistoryError>(HistoryError::NoHome),
    }
}

/// `dirs::home_dir` gives the home directory of the user, as the environment has it,
/// or none where it cannot be determined. Nothing is promised of it. The path comes as
/// the bytes that `OsString::into_encoded_bytes` gives, which need not be Unicode.
#[verifier::external_body]
fn home_directory() -> (home: Option<Vec<u8>>)
{
    dirs::home_dir().map(|home| home.into_os_string().into_encoded_bytes())
}

/// Continues the home directory by the path `rest`.
fn below_home(home: Option<Vec<u8>>, rest: &str) -> (path: Result<Vec<u8>, HistoryError>)
    ensures
        is_below_home(path, optional_bytes(home), rest@),
{
    match home {
        Some(home) => Ok(join(home.as_slice(), rest.as_bytes())),
        None => Err(HistoryError::NoHome),
    }
}

/// Where the history database lies in a home directory.
pub open spec fn database_place() -> Seq<char> {
    "Documents/Yeti3Cleaner/history.sqlite3"@
}

/// Where earlier versions kept the history database in a home directory.
pub open spec fn legacy_database_place() -> Seq<char> {
    "Library/Application Support/Yeti3-Cleaner/history.sqlite3"@
}

/// Where the report of the latest run lies in a home directory.
pub open spec fn result_place() -> Seq<char> {
    "Library/Application Support/Yeti3-Cleaner/latest-result.json"@
}

/// Where the report of the latest run is written before it takes its place.
pub open spec fn unfinished_result_place() -> Seq<char> {
    "Library/Application Support/Yeti3-Cleaner/latest-result.tmp"@
}

/// The path of the history database where the home directory is `home`. It fails only
/// where there is none.
pub fn database_path_in(home: Option<Vec<u8>>) -> (path: Result<Vec<u8>, HistoryError>)
    ensures
        is_below_home(path, optional_bytes(home), database_place()),
{
    below_home(home, "Documents/Yeti3Cleaner/history.sqlite3")
}

/// The path of the history database of earlier versions where the home directory is `home`.
/// It fails only where there is none.
pub fn legacy_database_path_in(home: Option<Vec<u8>>) -> (path: Result<Vec<u8>, HistoryError>)
    ensures
        is_below_home(path, optional_bytes(home), legacy_database_place()),
{
    below_home(home, "Library/Application Support/Yeti3-Cleaner/history.sqlite3")
}

/// The path of the report of the latest run where the home directory is `home`. It fails
/// only where there is none.
pub fn result_path_in(home: Option<Vec<u8>>) -> (path: Result<Vec<u8>, HistoryError>)
    ensures
        is_below_home(path, optional_bytes(home), result_place()),
{
    below_home(home, "Library/Application Support/Yeti3-Cleaner/latest-result.json")
}

/// The path that the report of the latest run is written to first, where the home directory
/// is `home`. It fails only where there is none.
pub fn unfinished_result_path_in(home: Option<Vec<u8>>) -> (path: Result<Vec<u8>, HistoryError>)
    ensures
        is_below_home(path, optional_bytes(home), unfinished_result_place()),
{
    below_home(home, "Library/Application Support/Yeti3-Cleaner/latest-result.tmp")
}

/// The path of the history database in the home directory of the user. Which directory that
/// is, and whether there is one, is for the environment to say.
pub fn database_path() -> (path: Result<Vec<u8>, HistoryError>)
    ensures
        exists|home: Option<Seq<u8>>| #[trigger] is_below_home(path, home, database_place()),
{
    database_path_in(home_directory())
}

/// The path of the history database of earlier versions in the home directory of the user,
/// which the environment gives.
pub fn legacy_database_path() -> (path: Result<Vec<u8>, HistoryError>)
    ensures
        exists|home: Option<Seq<u8>>| #[trigger]
            is_below_home(path, home, legacy_database_place()),
{
    legacy_database_path_in(home_directory())
}

/// The path of the report of the latest run in the home directory of the user, which the
/// environment gives.
pub fn result_path() -> (path: Result<Vec<u8>, HistoryError>)
    ensures
        exists|home: Option<Seq<u8>>| #[trigger] is_below_home(path, home, result_place()),
{
    result_path_in(home_directory())
}

/// The path that the report of the latest run is written to first, in the home directory of
/// the user, which the environment gives.
pub fn unfinished_result_path() -> (path: Result<Vec<u8>, HistoryError>)
    ensures
        exists|home: Option<Seq<u8>>| #[trigger]
            is_below_home(path, home, unfinished_result_place()),
{
    unfinished_result_path_in(home_directory())
}

/// The cleaner program that is bundled beside the executable `exe`.
pub open spec fn bundled_engine(exe: Seq<u8>) -> Option<Seq<u8>> {
    match parent(exe) {
        Some(dir) => Some(joined(dir, encode_utf8("yeti3-cleaner-engine"@))),
        None => None,
    }
}

/// The path of the cleaner program that is bundled beside the executable `exe`.
pub fn bundled_engine_path(exe: &[u8]) -> (path: Option<Vec<u8>>)
    ensures
        optional_bytes(path) == bundled_engine(exe@),
{
    match parent_path(exe) {
        Some(dir) => Some(join(dir.as_slice(), "yeti3-cleaner-engine".as_bytes())),
        None => None,
    }
}

/// The cleaner program to run: the bundled one where it is a file, and otherwise the
/// one that the search path names.
pub fn cleaner_path(bundled: Option<Vec<u8>>, bundled_is_file: bool) -> (path: Vec<u8>)
    ensures
        path@ == if bundled is Some && bundled_is_file {
            bundled->0@
        } else {
            encode_utf8("yeti3-cleaner"@)
        },
{
    match bundled {
        Some(bundled) => {
            if bundled_is_file {
                bundled
            } else {
                bytes_of("yeti3-cleaner")
            }
        },
        None => bytes_of("yeti3-cleaner"),
    }
}

/// The directory two levels above a path.
pub open spec fn grandparent(path: Seq<u8>) -> Option<Seq<u8>> {
    match parent(path) {
        Some(up) => parent(up),
        None => None,
    }
}

/// The directory two levels above a path.
pub fn grandparent_path(path: &[u8]) -> (found: Option<Vec<u8>>)
    ensures
        optional_bytes(found) == grandparent(path@),
{
    match parent_path(path) {
        Some(up) => parent_path(up.as_slice()),
        None => None,
    }
}

/// A resource of the application whose executable is `exe`.
pub open spec fn resource(exe: Seq<u8>, name: Seq<char>) -> Option<Seq<u8>> {
    match grandparent(exe) {
        Some(contents) => Some(
            joined(joined(contents, encode_utf8("Resources"@)), encode_utf8(name)),
        ),
        None => None,
    }
}

/// The path of a resource of the application whose executable is `exe`.
pub fn resource_path(exe: &[u8], name: &str) -> (path: Option<Vec<u8>>)
    ensures
        optional_bytes(path) == resource(exe@, name@),
{
    match grandparent_path(exe) {
        Some(contents) => {
            let resources = join(contents.as_slice(), "Resources".as_bytes());
            Some(join(resources.as_slice(), name.as_bytes()))
        },
        None => None,
    }
}

/// The disk map application that belongs to the cleaner program `engine`.
pub open spec fn disk_helper(engine: Seq<u8>) -> Option<Seq<u8>> {
    match grandparent(engine) {
        Some(contents) => Some(joined(contents, encode_utf8("Helpers/Yeti3-DiskMap.app"@))),
        None => None,
    }
}

/// The path of the disk map application that belongs to the cleaner program `engine`,
/// where that program stands two directories deep.
pub fn disk_helper_path(engine: &[u8]) -> (path: Option<Vec<u8>>)
    ensures
        optional_bytes(path) == disk_helper(engine@),
{
    match grandparent_path(engine) {
        Some(contents) => Some(
            join(contents.as_slice(), "Helpers/Yeti3-DiskMap.app".as_bytes()),
        ),
        None => None,
    }
}

/// What stands between the separators of a path.
pub open spec fn pieces(path: Seq<u8>) -> Seq<Seq<u8>>
    decreases path.len(),
{
    if path.len() == 0 {
        seq![Seq::empty()]
    } else {
        let before = pieces(path.drop_last());
        if path.last() == SEPARATOR {
            before.push(Seq::empty())
        } else {
            before.drop_last().push(before.last().push(path.last()))
        }
    }
}

/// The test for pieces that name something: neither empty nor a `.`.
pub open spec fn is_named() -> spec_fn(Seq<u8>) -> bool {
    |piece: Seq<u8>| piece.len() > 0 && piece != seq![DOT]
}

/// Whether a path begins with a `.` component.
pub open spec fn begins_here(path: Seq<u8>) -> bool {
    path.len() > 0 && path[0] == DOT && (path.len() == 1 || path[1] == SEPARATOR)
}

/// The components of a path behind its root: its pieces without the empty ones and without
/// every `.` but a leading one. Two paths with the same components that are both absolute, or
/// both not, are the same path.
pub open spec fn components(path: Seq<u8>) -> Seq<Seq<u8>> {
    let named = pieces(path).filter(is_named());
    if begins_here(path) {
        seq![seq![DOT]] + named
    } else {
        named
    }
}

/// Whether two paths are the same, however they are written.
pub open spec fn same_path(one: Seq<u8>, two: Seq<u8>) -> bool {
    is_absolute(one) == is_absolute(two) && components(one) == components(two)
}

/// A path has no parent exactly where it has no component behind its root: where it is empty
/// or the root. Otherwise its parent has the same components but the last.
pub proof fn parent_drops_a_component(path: Seq<u8>)
    ensures
        parent(path) is None <==> components(path).len() == 0,
        parent(path) matches Some(up) ==> components(up) == components(path).drop_last()
            && is_absolute(up) == is_absolute(path),
{
    let whole = path.len() as int;
    let head = head_len(path);
    let len = trimmed(path, whole);
    assert(path.take(whole) =~= path);
    lemma_trimmed(path, whole);
    lemma_trimmed_components(path, whole);
    lemma_head(path);
    if len > head {
        let rest = without_last(path, len);
        lemma_last_start(path, len);
        lemma_trimmed_is_named(path, whole);
        lemma_last_component(path, len);
        lemma_trimmed(path, rest);
        lemma_trimmed_components(path, rest);
        let piece = path.subrange(last_start(path, len), len);
        assert(components(path.take(rest)).push(piece).drop_last() =~= components(
            path.take(rest),
        ));
    } else {
        assert(len == head);
        if len > 0 && path[0] == DOT {
            assert(components(path).drop_last() =~= components(Seq::<u8>::empty())) by {
                lemma_head(Seq::<u8>::empty());
            }
        }
    }
}

/// A path stays the same path without the empty components and the `.` components at its
/// end.
pub proof fn trimming_keeps_the_path(path: Seq<u8>)
    ensures
        same_path(path.take(trimmed(path, path.len() as int)), path),
{
    assert(path.take(path.len() as int) =~= path);
    lemma_trimmed(path, path.len() as int);
    lemma_trimmed_components(path, path.len() as int);
}

/// To continue a path by one ordinary component adds that component, and going up again
/// gives the same path back.
pub proof fn parent_of_joined_is_the_path(path: Seq<u8>, name: Seq<u8>)
    requires
        name.len() > 0,
        name != seq![DOT],
        forall|i: int| 0 <= i < name.len() ==> name[i] != SEPARATOR,
    ensures
        components(joined(path, name)) == components(path).push(name),
        parent(joined(path, name)) matches Some(up) && same_path(up, path),
{
    let whole = joined(path, name);
    let len = whole.len() as int;
    parent_undoes_join(path, name);
    trimming_keeps_the_path(path);
    parent_drops_a_component(whole);
    assert(whole.take(len) =~= whole);
    lemma_joined(path, name);
    lemma_last_component(whole, len);
    let up = components(whole.take(without_last(whole, len)));
    assert(up.push(name).drop_last() =~= up);
}

/// Whether a component ends where the first `len` bytes of a path do.
spec fn ends_component(path: Seq<u8>, len: int) -> bool {
    &&& head_len(path) <= len <= path.len()
    &&& len == path.len() || path[len] == SEPARATOR || len == head_len(path)
    &&& len == 0 ==> head_len(path) == 0
}

proof fn lemma_pieces_nonempty(path: Seq<u8>)
    ensures
        pieces(path).len() > 0,
    decreases path.len(),
{
    if path.len() > 0 {
        lemma_pieces_nonempty(path.drop_last());
    }
}

proof fn lemma_one_piece(path: Seq<u8>)
    requires
        forall|i: int| 0 <= i < path.len() ==> path[i] != SEPARATOR,
    ensures
        pieces(path) == seq![path],
    decreases path.len(),
{
    if path.len() == 0 {
        assert(path =~= Seq::empty());
    } else {
        let rest = path.drop_last();
        lemma_one_piece(rest);
        assert(pieces(rest).drop_last() =~= Seq::<Seq<u8>>::empty());
        assert(rest.push(path.last()) =~= path);
        assert(pieces(path) =~= seq![path]);
    }
}

proof fn lemma_last_piece(path: Seq<u8>, start: int)
    requires
        1 <= start <= path.len(),
        path[start - 1] == SEPARATOR,
        forall|i: int| start <= i < path.len() ==> path[i] != SEPARATOR,
    ensures
        pieces(path) == pieces(path.take(start - 1)).push(path.skip(start)),
    decreases path.len(),
{
    let rest = path.drop_last();
    if start == path.len() {
        assert(rest =~= path.take(start - 1));
        assert(path.skip(start) =~= Seq::<u8>::empty());
    } else {
        lemma_last_piece(rest, start);
        assert(rest.take(start - 1) =~= path.take(start - 1));
        assert(rest.skip(start).push(path.last()) =~= path.skip(start));
        let before = pieces(path.take(start - 1));
        assert(before.push(rest.skip(start)).drop_last() =~= before);
    }
}

/// The components of what stands before the ordinary components.
proof fn lemma_head(path: Seq<u8>)
    ensures
        components(path.take(head_len(path))) == if begins_here(path) {
            seq![seq![DOT]]
        } else {
            Seq::<Seq<u8>>::empty()
        },
{
    let head = path.take(head_len(path));
    reveal_with_fuel(pieces, 3);
    reveal_with_fuel(Seq::filter, 4);
    if head.len() == 0 {
        assert(head =~= Seq::empty());
        assert(pieces(head).filter(is_named()) =~= Seq::empty());
    } else if is_absolute(path) {
        assert(head.drop_last() =~= Seq::empty());
        lemma_last_piece(head, 1);
        assert(head.take(0) =~= Seq::empty());
        assert(head.skip(1) =~= Seq::empty());
        seq![Seq::<u8>::empty()].lemma_filter_push(Seq::empty(), is_named());
        assert(pieces(head).filter(is_named()) =~= Seq::empty());
    } else {
        lemma_one_piece(head);
        assert(head =~= seq![DOT]);
        assert(pieces(head).filter(is_named()) =~= Seq::empty());
        assert(components(head) =~= seq![seq![DOT]]);
    }
}

/// The last component of the first `len` bytes stands behind the components of what is left
/// without it.
proof fn lemma_last_component(path: Seq<u8>, len: int)
    requires
        ends_component(path, len),
        len > head_len(path),
    ensures
        ends_component(path, without_last(path, len)),
        ({
            let piece = path.subrange(last_start(path, len), len);
            let before = components(path.take(without_last(path, len)));
            components(path.take(len)) == if is_named()(piece) {
                before.push(piece)
            } else {
                before
            }
        }),
        is_absolute(path.take(len)) == is_absolute(path),
{
    let head = head_len(path);
    let start = last_start(path, len);
    let rest = without_last(path, len);
    let part = path.take(len);
    let piece = path.subrange(start, len);
    lemma_last_start(path, len);
    if start > head {
        lemma_last_piece(part, start);
        assert(part.take(start - 1) =~= path.take(rest));
        assert(part.skip(start) =~= piece);
        pieces(path.take(rest)).lemma_filter_push(piece, is_named());
        assert(begins_here(part) == begins_here(path.take(rest)));
        let named = pieces(path.take(rest)).filter(is_named());
        assert((seq![seq![DOT]] + named).push(piece) =~= seq![seq![DOT]] + named.push(piece));
    } else if head == 0 {
        assert(part =~= piece);
        lemma_one_piece(part);
        lemma_head(path);
        reveal_with_fuel(Seq::filter, 2);
        assert(!begins_here(part));
        assert(seq![part] =~= Seq::<Seq<u8>>::empty().push(part));
        Seq::<Seq<u8>>::empty().lemma_filter_push(part, is_named());
    } else {
        assert(is_absolute(path));
        lemma_last_piece(part, 1);
        lemma_one_piece(part.take(0));
        lemma_head(path);
        assert(part.skip(1) =~= piece);
        let root = pieces(part.take(0));
        reveal_with_fuel(Seq::filter, 2);
        assert(root.filter(is_named()) =~= Seq::empty());
        root.lemma_filter_push(piece, is_named());
    }
}

proof fn lemma_trimmed_components(path: Seq<u8>, len: int)
    requires
        ends_component(path, len),
    ensures
        ends_component(path, trimmed(path, len)),
        same_path(path.take(trimmed(path, len)), path.take(len)),
    decreases len,
{
    if trimmed(path, len) != len {
        lemma_last_start(path, len);
        lemma_last_component(path, len);
        let start = last_start(path, len);
        let piece = path.subrange(start, len);
        assert(piece.len() == 1 ==> piece =~= seq![path[start]]);
        lemma_trimmed_components(path, without_last(path, len));
    }
}

/// What is left after trimming ends in a component with a name.
proof fn lemma_trimmed_is_named(path: Seq<u8>, len: int)
    requires
        head_len(path) <= len <= path.len(),
        trimmed(path, len) > head_len(path),
    ensures
        is_named()(path.subrange(last_start(path, trimmed(path, len)), trimmed(path, len))),
    decreases len,
{
    lemma_last_start(path, len);
    if trimmed(path, len) != len {
        lemma_trimmed_is_named(path, without_last(path, len));
    } else {
        lemma_trimmed(path, without_last(path, len));
        let piece = path.subrange(last_start(path, len), len);
        if piece =~= seq![DOT] {
            assert(piece[0] == path[last_start(path, len)]);
        }
    }
}

/// The parent of a path is written as the start of the path, without a separator or a `.`
/// component at its end, but for the root and a leading `.` themselves.
pub proof fn parents_are_written_plainly(path: Seq<u8>)
    ensures
        parent(path) matches Some(up) ==> up.is_prefix_of(path) && (up.len() > 1 ==> up.last()
            != 0x2f && !(up.last() == 0x2e && up[up.len() - 2] == 0x2f)),
{
    let whole = path.len() as int;
    lemma_trimmed(path, whole);
    let len = trimmed(path, whole);
    if len > head_len(path) {
        let rest = without_last(path, len);
        lemma_last_start(path, len);
        lemma_trimmed(path, rest);
        let end = trimmed(path, rest);
        let up = path.take(end);
        assert(up =~= path.subrange(0, end));
        if end > head_len(path) {
            lemma_trimmed_is_named(path, rest);
            lemma_last_start(path, end);
            let start = last_start(path, end);
            let piece = path.subrange(start, end);
            assert(piece.len() > 0);
            assert(path[end - 1] != SEPARATOR);
            if end > 1 && path[end - 1] == DOT && path[end - 2] == SEPARATOR {
                assert(start == end - 1);
                assert(piece =~= seq![DOT]);
            }
        }
    } else {
        assert(Seq::<u8>::empty() =~= path.subrange(0, 0));
    }
}

/// The parent of a path is shorter than the path.
pub proof fn parent_is_shorter(path: Seq<u8>)
    ensures
        parent(path) matches Some(up) ==> up.len() < path.len(),
{
    lemma_trimmed(path, path.len() as int);
    let len = trimmed(path, path.len() as int);
    if len > head_len(path) {
        lemma_last_start(path, len);
        lemma_trimmed(path, without_last(path, len));
    }
}

/// Going up from a path that was continued by one ordinary component gives the path
/// back, without the empty components and the `.` components at its end.
pub proof fn parent_undoes_join(path: Seq<u8>, name: Seq<u8>)
    requires
        name.len() > 0,
        name != seq![DOT],
        forall|i: int| 0 <= i < name.len() ==> name[i] != SEPARATOR,
    ensures
        parent(joined(path, name)) == Some(path.take(trimmed(path, path.len() as int))),
{
    let whole = joined(path, name);
    let len = whole.len() as int;
    let start = len - name.len();
    let end = path.len() as int;
    lemma_joined(path, name);
    assert(trimmed(whole, len) == len) by {
        if name.len() == 1 {
            assert(whole[start] == name[0]);
            assert(name =~= seq![name[0]]);
        }
    }
    let rest = without_last(whole, len);
    lemma_trim_of_prefix(path, whole, rest);
    lemma_trimmed(path, rest);
    assert(trimmed(path, rest) == trimmed(path, end));
    assert(whole.take(trimmed(path, end)) =~= path.take(trimmed(path, end)));
}

/// The last component of a path that was continued by one component is that component.
proof fn lemma_joined(path: Seq<u8>, name: Seq<u8>)
    requires
        name.len() > 0,
        name != seq![DOT],
        forall|i: int| 0 <= i < name.len() ==> name[i] != SEPARATOR,
    ensures
        ({
            let whole = joined(path, name);
            &&& head_len(whole) == head_len(path)
            &&& head_len(path) <= whole.len() - name.len()
            &&& last_start(whole, whole.len() as int) == whole.len() - name.len()
            &&& whole.subrange(whole.len() - name.len(), whole.len() as int) == name
            &&& forall|i: int| 0 <= i < path.len() ==> path[i] == whole[i]
        }),
{
    let whole = joined(path, name);
    let len = whole.len() as int;
    let start = len - name.len();
    let end = path.len() as int;
    assert(whole.subrange(start, len) =~= name);
    assert forall|i: int| start <= i < len implies whole[i] != SEPARATOR by {
        assert(whole[i] == name[i - start]);
    }
    assert(head_len(whole) == head_len(path)) by {
        if end > 0 {
            assert(whole[0] == path[0]);
            assert(end > 1 ==> whole[1] == path[1]);
        } else {
            assert(whole =~= name);
            assert(name.len() == 1 ==> name =~= seq![name[0]]);
        }
    }
    lemma_scan_back(whole, start, len);
    assert(start > head_len(whole) ==> whole[start - 1] == SEPARATOR);
    assert(last_start(whole, start) == start);
}

proof fn lemma_scan_back(path: Seq<u8>, from: int, len: int)
    requires
        head_len(path) <= from <= len <= path.len(),
        forall|i: int| from <= i < len ==> path[i] != SEPARATOR,
    ensures
        last_start(path, len) == last_start(path, from),
    decreases len,
{
    if len > from {
        lemma_scan_back(path, from, len - 1);
    }
}

proof fn lemma_trim_of_prefix(path: Seq<u8>, whole: Seq<u8>, len: int)
    requires
        0 <= len <= path.len() <= whole.len(),
        head_len(path) == head_len(whole),
        head_len(path) <= len,
        forall|i: int| 0 <= i < path.len() ==> path[i] == whole[i],
    ensures
        last_start(path, len) == last_start(whole, len),
        trimmed(path, len) == trimmed(whole, len),
    decreases len,
{
    lemma_last_start(path, len);
    lemma_last_start(whole, len);
    if len > head_len(path) {
        lemma_trim_of_prefix(path, whole, len - 1);
        assert(path[len - 1] == whole[len - 1]);
        let start = last_start(path, len);
        assert(start < len ==> path[start] == whole[start]);
        if without_last(path, len) < len {
            lemma_trim_of_prefix(path, whole, without_last(path, len));
        }
    }
}

} // verus!
