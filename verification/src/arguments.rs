//! Command lines, byte by byte as the system takes them.

use crate::paths::bytes_of;
use vstd::prelude::*;
use vstd::utf8::encode_utf8;

verus! {

/// The bytes of each argument.
pub open spec fn raw(arguments: Seq<Vec<u8>>) -> Seq<Seq<u8>> {
    arguments.map_values(|argument: Vec<u8>| argument@)
}

/// The bytes of each text.
pub open spec fn encoded(texts: Seq<Seq<char>>) -> Seq<Seq<u8>> {
    texts.map_values(|text: Seq<char>| encode_utf8(text))
}

/// Adds a text as an argument.
pub(crate) fn add_argument(arguments: &mut Vec<Vec<u8>>, argument: &str)
    ensures
        raw(final(arguments)@) == raw(old(arguments)@).push(encode_utf8(argument@)),
{
    let ghost before = arguments@;
    arguments.push(bytes_of(argument));
    assert(raw(arguments@) =~= raw(before).push(encode_utf8(argument@)));
}

/// Adds a path as an argument.
pub(crate) fn add_path(arguments: &mut Vec<Vec<u8>>, path: &[u8])
    ensures
        raw(final(arguments)@) == raw(old(arguments)@).push(path@),
{
    let ghost before = arguments@;
    let mut argument: Vec<u8> = Vec::new();
    argument.extend_from_slice(path);
    assert(argument@ =~= path@);
    arguments.push(argument);
    assert(raw(arguments@) =~= raw(before).push(path@));
}

} // verus!
