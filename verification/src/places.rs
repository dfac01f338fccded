//! Where files stand, told by the components of their paths.

use crate::history::migration::temporary_in;
use crate::history::store::HistoryError;
use crate::paths::{
    bundled_engine, components, database_place, disk_helper, grandparent, is_absolute,
    is_below_home, joined, legacy_database_place, optional_bytes, parent,
    parent_drops_a_component, parent_of_joined_is_the_path, resource, result_place,
    unfinished_result_place, DOT, SEPARATOR,
};
use crate::text::decimal;
use crate::unambiguous::{
    decimals_are_digits, decimals_are_unambiguous, digits_end_where_others_begin,
};
use vstd::prelude::*;
use vstd::utf8::{
    encode_utf8, encode_utf8_decode_utf8, is_ascii_chars, is_ascii_chars_encode_utf8,
};

verus! {

/// A path is continued by putting a slash and the rest behind it, or the rest alone where it is
/// empty or ends with a slash. A rest that starts with a slash takes its place.
pub proof fn joining_keeps_both(path: Seq<u8>, rest: Seq<u8>)
    ensures
        rest.len() > 0 && rest[0] == 0x2f ==> joined(path, rest) == rest,
        !(rest.len() > 0 && rest[0] == 0x2f) ==> {
            let whole = joined(path, rest);
            &&& path.is_prefix_of(whole)
            &&& rest.is_suffix_of(whole)
            &&& path.len() == 0 || path.last() == 0x2f ==> whole.len() == path.len() + rest.len()
            &&& path.len() > 0 && path.last() != 0x2f ==> whole.len() == path.len() + 1 + rest.len()
                && whole[path.len() as int] == 0x2f
        },
{
    let whole = joined(path, rest);
    if !is_absolute(rest) {
        assert(whole.subrange(0, path.len() as int) =~= path);
        assert(whole.subrange(whole.len() - rest.len(), whole.len() as int) =~= rest);
    }
}

/// Whether a text can be the name of a file: plain letters without a slash, and not a dot.
spec fn is_plain(name: Seq<char>) -> bool {
    &&& is_ascii_chars(name)
    &&& name.len() > 0
    &&& name != seq!['.']
    &&& forall|i: int| 0 <= i < name.len() ==> #[trigger] name[i] != '/'
}

proof fn lemma_plain(name: Seq<char>)
    requires
        is_plain(name),
    ensures
        encode_utf8(name).len() == name.len(),
        encode_utf8(name) != seq![DOT],
        forall|i: int| 0 <= i < name.len() ==> encode_utf8(name)[i] == name[i] as u8,
        forall|i: int| 0 <= i < encode_utf8(name).len() ==> #[trigger] encode_utf8(name)[i]
            != SEPARATOR,
{
    is_ascii_chars_encode_utf8(name);
    let bytes = encode_utf8(name);
    assert forall|i: int| 0 <= i < bytes.len() implies #[trigger] bytes[i] != SEPARATOR by {
        assert(name[i] != '/');
        assert((name[i] as u32) < 0x80);
    }
    if bytes == seq![DOT] {
        assert(bytes[0] == DOT);
        assert((name[0] as u32) < 0x80);
        assert(name =~= seq!['.']);
    }
}

proof fn lemma_added(path: Seq<u8>, name: Seq<char>)
    requires
        is_plain(name),
    ensures
        components(joined(path, encode_utf8(name))) == components(path).push(encode_utf8(name)),
        path.len() > 0 ==> is_absolute(joined(path, encode_utf8(name))) == is_absolute(path),
{
    lemma_plain(name);
    parent_of_joined_is_the_path(path, encode_utf8(name));
}

/// A path that is continued by two names at once is continued by one after the other.
proof fn lemma_two_steps(path: Seq<u8>, first: Seq<u8>, second: Seq<u8>)
    requires
        first.len() > 0,
        first[0] != SEPARATOR,
        first.last() != SEPARATOR,
        second.len() > 0,
        second[0] != SEPARATOR,
    ensures
        joined(path, first.push(SEPARATOR) + second) == joined(joined(path, first), second),
{
    let whole = joined(path, first);
    assert((first.push(SEPARATOR) + second)[0] == first[0]);
    assert(whole.last() == first.last());
    assert(joined(path, first.push(SEPARATOR) + second) =~= whole.push(SEPARATOR) + second);
}

/// The cleaner program that belongs to an executable stands beside it, under a name of its own.
pub proof fn engine_stands_beside_the_program(exe: Seq<u8>)
    ensures
        bundled_engine(exe) is None <==> components(exe).len() == 0,
        bundled_engine(exe) matches Some(path) ==> components(path) == components(
            exe,
        ).drop_last().push(encode_utf8("yeti3-cleaner-engine"@)),
{
    reveal_strlit("yeti3-cleaner-engine");
    parent_drops_a_component(exe);
    if let Some(dir) = parent(exe) {
        lemma_added(dir, "yeti3-cleaner-engine"@);
    }
}

/// A resource of an application stands among its resources, beside the directory of its
/// executable. It is to be had exactly where the executable stands in a directory that lies in
/// another.
pub proof fn resources_stand_in_the_bundle(exe: Seq<u8>, name: Seq<char>)
    requires
        is_ascii_chars(name),
        name.len() > 0,
        name != seq!['.'],
        !name.contains('/'),
    ensures
        resource(exe, name) is None <==> components(exe).len() < 2,
        resource(exe, name) matches Some(path) ==> components(path) == components(exe).take(
            components(exe).len() - 2,
        ) + seq![encode_utf8("Resources"@), encode_utf8(name)],
{
    reveal_strlit("Resources");
    assert forall|i: int| 0 <= i < name.len() implies #[trigger] name[i] != '/' by {
        assert(name.contains(name[i]));
    }
    lemma_grandparent(exe);
    if let Some(contents) = grandparent(exe) {
        lemma_added(contents, "Resources"@);
        lemma_added(joined(contents, encode_utf8("Resources"@)), name);
        let up = components(exe).take(components(exe).len() - 2);
        assert(up.push(encode_utf8("Resources"@)).push(encode_utf8(name)) =~= up + seq![
            encode_utf8("Resources"@),
            encode_utf8(name),
        ]);
    }
}

proof fn lemma_grandparent(path: Seq<u8>)
    ensures
        grandparent(path) is None <==> components(path).len() < 2,
        grandparent(path) matches Some(up) ==> components(up) == components(path).take(
            components(path).len() - 2,
        ),
{
    parent_drops_a_component(path);
    if let Some(up) = parent(path) {
        parent_drops_a_component(up);
        assert(components(path).drop_last().len() == components(path).len() - 1);
        if let Some(top) = parent(up) {
            assert(components(path).drop_last().drop_last() =~= components(path).take(
                components(path).len() - 2,
            ));
        }
    }
}

/// The disk map application stands among the helpers of the bundle that the cleaner program
/// lies in.
pub proof fn helper_stands_in_the_bundle(engine: Seq<u8>)
    ensures
        disk_helper(engine) is None <==> components(engine).len() < 2,
        disk_helper(engine) matches Some(path) ==> components(path) == components(engine).take(
            components(engine).len() - 2,
        ) + seq![encode_utf8("Helpers"@), encode_utf8("Yeti3-DiskMap.app"@)],
{
    reveal_strlit("Helpers");
    reveal_strlit("Yeti3-DiskMap.app");
    reveal_strlit("Helpers/Yeti3-DiskMap.app");
    lemma_grandparent(engine);
    let first = encode_utf8("Helpers"@);
    let second = encode_utf8("Yeti3-DiskMap.app"@);
    lemma_plain("Helpers"@);
    lemma_plain("Yeti3-DiskMap.app"@);
    is_ascii_chars_encode_utf8("Helpers/Yeti3-DiskMap.app"@);
    is_ascii_chars_encode_utf8("Helpers"@);
    is_ascii_chars_encode_utf8("Yeti3-DiskMap.app"@);
    assert(encode_utf8("Helpers/Yeti3-DiskMap.app"@) =~= first.push(SEPARATOR) + second);
    if let Some(contents) = grandparent(engine) {
        lemma_two_steps(contents, first, second);
        lemma_added(contents, "Helpers"@);
        lemma_added(joined(contents, first), "Yeti3-DiskMap.app"@);
        let up = components(engine).take(components(engine).len() - 2);
        assert(up.push(first).push(second) =~= up + seq![first, second]);
    }
}

/// Continues a path by three plain names.
proof fn lemma_three_steps(
    path: Seq<u8>,
    whole: Seq<char>,
    first: Seq<char>,
    second: Seq<char>,
    third: Seq<char>,
)
    requires
        is_plain(first),
        is_plain(third),
        is_ascii_chars(second),
        second.len() > 0,
        second != seq!['.'],
        forall|i: int| 0 <= i < second.len() ==> #[trigger] second[i] != '/',
        whole == first + seq!['/'] + second + seq!['/'] + third,
    ensures
        components(joined(path, encode_utf8(whole))) == components(path) + seq![
            encode_utf8(first),
            encode_utf8(second),
            encode_utf8(third),
        ],
{
    let a = encode_utf8(first);
    let b = encode_utf8(second);
    let c = encode_utf8(third);
    lemma_plain(first);
    lemma_plain(second);
    lemma_plain(third);
    assert(is_ascii_chars(whole)) by {
        assert forall|i: int| 0 <= i < whole.len() implies 0 <= (#[trigger] whole[i]) as nat
            <= 127 by {
            if i < first.len() {
                assert(whole[i] == first[i]);
            } else if i == first.len() {
                assert(whole[i] == '/');
            } else if i < first.len() + 1 + second.len() {
                assert(whole[i] == second[i - first.len() - 1]);
            } else if i == first.len() + 1 + second.len() {
                assert(whole[i] == '/');
            } else {
                assert(whole[i] == third[i - first.len() - second.len() - 2]);
            }
        }
    }
    is_ascii_chars_encode_utf8(whole);
    let start = a.push(SEPARATOR) + b;
    assert(encode_utf8(whole) =~= start.push(SEPARATOR) + c);
    assert(start[0] == a[0]);
    assert(start.last() == b.last());
    lemma_two_steps(path, start, c);
    lemma_two_steps(path, a, b);
    lemma_added(path, first);
    lemma_added(joined(path, a), second);
    lemma_added(joined(joined(path, a), b), third);
    assert(components(path).push(a).push(b).push(c) =~= components(path) + seq![a, b, c]);
}

/// The history database lies in a directory of its own among the documents of a home directory.
pub proof fn database_lies_among_the_documents(home: Seq<u8>)
    ensures
        components(joined(home, encode_utf8(database_place()))) == components(home) + seq![
            encode_utf8("Documents"@),
            encode_utf8("Yeti3Cleaner"@),
            encode_utf8("history.sqlite3"@),
        ],
{
    reveal_strlit("Documents");
    reveal_strlit("Yeti3Cleaner");
    reveal_strlit("history.sqlite3");
    reveal_strlit("Documents/Yeti3Cleaner/history.sqlite3");
    assert(database_place() =~= "Documents"@ + seq!['/'] + "Yeti3Cleaner"@ + seq!['/']
        + "history.sqlite3"@);
    lemma_three_steps(
        home,
        database_place(),
        "Documents"@,
        "Yeti3Cleaner"@,
        "history.sqlite3"@,
    );
}

/// Continues a path by four plain names, of which the first three are those of the directory of
/// the application.
proof fn lemma_support(home: Seq<u8>, whole: Seq<char>, name: Seq<char>)
    requires
        is_plain(name),
        whole == "Library/Application Support/Yeti3-Cleaner/"@ + name,
    ensures
        components(joined(home, encode_utf8(whole))) == components(home) + seq![
            encode_utf8("Library"@),
            encode_utf8("Application Support"@),
            encode_utf8("Yeti3-Cleaner"@),
            encode_utf8(name),
        ],
{
    reveal_strlit("Library");
    reveal_strlit("Application Support");
    reveal_strlit("Yeti3-Cleaner");
    reveal_strlit("Library/Application Support/Yeti3-Cleaner");
    reveal_strlit("Library/Application Support/Yeti3-Cleaner/");
    let support = "Library/Application Support/Yeti3-Cleaner"@;
    assert(support =~= "Library"@ + seq!['/'] + "Application Support"@ + seq!['/']
        + "Yeti3-Cleaner"@);
    lemma_three_steps(home, support, "Library"@, "Application Support"@, "Yeti3-Cleaner"@);
    lemma_plain(name);
    let first = encode_utf8(support);
    let second = encode_utf8(name);
    is_ascii_chars_encode_utf8(support);
    assert(whole =~= support + seq!['/'] + name);
    assert(is_ascii_chars(whole)) by {
        assert forall|i: int| 0 <= i < whole.len() implies 0 <= (#[trigger] whole[i]) as nat
            <= 127 by {
            if i < support.len() {
                assert(whole[i] == support[i]);
            } else if i > support.len() {
                assert(whole[i] == name[i - support.len() - 1]);
            }
        }
    }
    is_ascii_chars_encode_utf8(whole);
    assert(encode_utf8(whole) =~= first.push(SEPARATOR) + second);
    lemma_two_steps(home, first, second);
    lemma_added(joined(home, first), name);
    assert(components(joined(home, first)).push(second) =~= components(home) + seq![
        encode_utf8("Library"@),
        encode_utf8("Application Support"@),
        encode_utf8("Yeti3-Cleaner"@),
        encode_utf8(name),
    ]);
}

/// The database of earlier versions, the result of the latest run and the file that it is
/// written to first all lie in the directory of the application, under names of their own. The
/// unfinished result is the result under another extension.
pub proof fn results_lie_with_the_application(home: Seq<u8>)
    ensures
        components(joined(home, encode_utf8(legacy_database_place()))) == components(home) + seq![
            encode_utf8("Library"@),
            encode_utf8("Application Support"@),
            encode_utf8("Yeti3-Cleaner"@),
            encode_utf8("history.sqlite3"@),
        ],
        components(joined(home, encode_utf8(result_place()))) == components(home) + seq![
            encode_utf8("Library"@),
            encode_utf8("Application Support"@),
            encode_utf8("Yeti3-Cleaner"@),
            encode_utf8("latest-result"@ + ".json"@),
        ],
        components(joined(home, encode_utf8(unfinished_result_place()))) == components(home) + seq![
            encode_utf8("Library"@),
            encode_utf8("Application Support"@),
            encode_utf8("Yeti3-Cleaner"@),
            encode_utf8("latest-result"@ + ".tmp"@),
        ],
{
    reveal_strlit("Library/Application Support/Yeti3-Cleaner/");
    reveal_strlit("history.sqlite3");
    reveal_strlit("latest-result");
    reveal_strlit(".json");
    reveal_strlit(".tmp");
    reveal_strlit("Library/Application Support/Yeti3-Cleaner/history.sqlite3");
    reveal_strlit("Library/Application Support/Yeti3-Cleaner/latest-result.json");
    reveal_strlit("Library/Application Support/Yeti3-Cleaner/latest-result.tmp");
    let support = "Library/Application Support/Yeti3-Cleaner/"@;
    assert(legacy_database_place() =~= support + "history.sqlite3"@);
    assert(result_place() =~= support + ("latest-result"@ + ".json"@));
    assert(unfinished_result_place() =~= support + ("latest-result"@ + ".tmp"@));
    lemma_support(home, legacy_database_place(), "history.sqlite3"@);
    lemma_support(home, result_place(), "latest-result"@ + ".json"@);
    lemma_support(home, unfinished_result_place(), "latest-result"@ + ".tmp"@);
}

/// The name of the temporary copy of a migration.
spec fn temporary_name(process: u32, nanos: u128) -> Seq<char> {
    ".history-migration-"@ + decimal(process as nat) + "-"@ + decimal(nanos as nat) + ".sqlite3"@
}

proof fn lemma_temporary_name(process: u32, nanos: u128)
    ensures
        is_plain(temporary_name(process, nanos)),
        temporary_name(process, nanos)[0] == '.',
{
    reveal_strlit(".history-migration-");
    reveal_strlit("-");
    reveal_strlit(".sqlite3");
    let name = temporary_name(process, nanos);
    let a = decimal(process as nat);
    let b = decimal(nanos as nat);
    decimals_are_digits(process as nat);
    decimals_are_digits(nanos as nat);
    let one = ".history-migration-"@.len() as int;
    let two = one + a.len();
    let three = two + 1;
    let four = three + b.len();
    assert forall|i: int| 0 <= i < name.len() implies 0 <= (#[trigger] name[i]) as nat <= 127
        && name[i] != '/' by {
        if i < one {
            assert(name[i] == ".history-migration-"@[i]);
        } else if i < two {
            assert(name[i] == a[i - one]);
        } else if i < three {
            assert(name[i] == '-');
        } else if i < four {
            assert(name[i] == b[i - three]);
        } else {
            assert(name[i] == ".sqlite3"@[i - four]);
        }
    }
}

proof fn lemma_names_differ(process: u32, nanos: u128, other_process: u32, other_nanos: u128)
    requires
        temporary_name(process, nanos) == temporary_name(other_process, other_nanos),
    ensures
        process == other_process,
        nanos == other_nanos,
{
    reveal_strlit(".history-migration-");
    reveal_strlit("-");
    reveal_strlit(".sqlite3");
    let one = temporary_name(process, nanos);
    let two = temporary_name(other_process, other_nanos);
    let size = ".history-migration-"@.len() as int;
    let a = decimal(process as nat);
    let b = decimal(other_process as nat);
    let c = decimal(nanos as nat);
    let d = decimal(other_nanos as nat);
    decimals_are_digits(process as nat);
    decimals_are_digits(other_process as nat);
    decimals_are_digits(nanos as nat);
    decimals_are_digits(other_nanos as nat);
    let rest = "-"@ + c + ".sqlite3"@;
    let more = "-"@ + d + ".sqlite3"@;
    assert(one.skip(size) =~= a + rest);
    assert(two.skip(size) =~= b + more);
    digits_end_where_others_begin(a, b, rest, more);
    assert(rest.skip(1) =~= c + ".sqlite3"@);
    assert(more.skip(1) =~= d + ".sqlite3"@);
    digits_end_where_others_begin(c, d, ".sqlite3"@, ".sqlite3"@);
    decimals_are_unambiguous(process as nat, other_process as nat);
    decimals_are_unambiguous(nanos as nat, other_nanos as nat);
}

/// A path that is continued by two different names leads to two places.
proof fn lemma_joins_differ(dir: Seq<u8>, one: Seq<u8>, two: Seq<u8>)
    requires
        joined(dir, one) == joined(dir, two),
        !is_absolute(one),
        !is_absolute(two),
    ensures
        one == two,
{
    let whole = joined(dir, one);
    let size = if dir.len() == 0 || dir.last() == SEPARATOR {
        dir.len() as int
    } else {
        dir.len() as int + 1
    };
    assert(whole.skip(size) =~= one);
    assert(whole.skip(size) =~= two);
}

/// The temporary copy of a migration stands in the directory of the destination, under a hidden
/// name, and no two processes and no two times give the same one.
pub proof fn temporary_copy_stands_apart(
    dir: Seq<u8>,
    process: u32,
    nanos: u128,
    other_process: u32,
    other_nanos: u128,
) -> (name: Seq<u8>)
    ensures
        components(temporary_in(dir, process, nanos)) == components(dir).push(name),
        name.len() > 1 && name[0] == 0x2e,
        temporary_in(dir, process, nanos) == temporary_in(dir, other_process, other_nanos)
            ==> process == other_process && nanos == other_nanos,
{
    let one = temporary_name(process, nanos);
    let two = temporary_name(other_process, other_nanos);
    lemma_temporary_name(process, nanos);
    lemma_temporary_name(other_process, other_nanos);
    lemma_plain(one);
    lemma_plain(two);
    lemma_added(dir, one);
    assert(one.len() > 1) by {
        if one.len() == 1 {
            assert(one =~= seq!['.']);
        }
    }
    if temporary_in(dir, process, nanos) == temporary_in(dir, other_process, other_nanos) {
        lemma_joins_differ(dir, encode_utf8(one), encode_utf8(two));
        encode_utf8_decode_utf8(one);
        encode_utf8_decode_utf8(two);
        lemma_names_differ(process, nanos, other_process, other_nanos);
    }
    encode_utf8(one)
}

/// A place below the home directory is that directory continued, and there is none, with the
/// failure that says so, exactly where there is no home directory.
pub proof fn home_decides_on_places(
    path: Result<Vec<u8>, HistoryError>,
    home: Option<Vec<u8>>,
    rest: Seq<char>,
)
    requires
        is_below_home(path, optional_bytes(home), rest),
    ensures
        home is None ==> path is Err && path->Err_0 == HistoryError::NoHome,
        home matches Some(home) ==> path is Ok && path->Ok_0@ == joined(home@, encode_utf8(rest)),
{
}

} // verus!
