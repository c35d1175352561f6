//! Plugin discovery: which entries of a directory are native plugins.
//!
//! A file is taken for a plugin by its extension alone: the one that the
//! platform gives its dynamic libraries, which the caller names. Loading the
//! library and calling its entry point is the caller's business.

use vstd::prelude::*;
use crate::text::{ends_with, same_text, tail_from};

verus! {

/// The file names that are taken for native plugins where dynamic libraries
/// have the extension `native`: a non-empty stem, a dot and that extension.
pub open spec fn is_plugin_name(name: Seq<char>, native: Seq<char>) -> bool {
    name.len() > native.len() + 1 && ends_with(name, seq!['.'] + native)
}

/// Whether a directory entry of this name is a native plugin, given the
/// extension of the platform's dynamic libraries (without the dot).
pub fn is_plugin_file(name: &str, native_extension: &str) -> (yes: bool)
    ensures
        yes == is_plugin_name(name@, native_extension@),
{
    let n = name.unicode_len();
    let e = native_extension.unicode_len();
    if n <= e || n - e < 2 {
        return false;
    }
    let dot = n - e - 1;
    let ghost end = name@.skip(dot as int);
    let ghost wanted = seq!['.'] + native_extension@;
    if name.get_char(dot) != '.' {
        assert(end[0] != wanted[0]);
        return false;
    }
    let same = same_text(tail_from(name, dot + 1), native_extension);
    proof {
        if same {
            assert(end =~= wanted);
        } else if end == wanted {
            assert(name@.skip(dot + 1) =~= end.skip(1));
            assert(native_extension@ =~= wanted.skip(1));
        }
    }
    same
}

/// A file with the native extension is always taken for a plugin.
pub proof fn lemma_native_names_are_plugins(stem: Seq<char>, native: Seq<char>)
    requires
        stem.len() > 0,
    ensures
        is_plugin_name(stem + seq!['.'] + native, native),
{
    let name = stem + seq!['.'] + native;
    assert(name.skip(name.len() - native.len() - 1) =~= seq!['.'] + native);
}

/// A file with any other extension is never taken for a plugin.
pub proof fn lemma_other_names_are_not_plugins(
    stem: Seq<char>,
    extension: Seq<char>,
    native: Seq<char>,
)
    requires
        !extension.contains('.'),
        !native.contains('.'),
        extension != native,
    ensures
        !is_plugin_name(stem + seq!['.'] + extension, native),
{
    let name = stem + seq!['.'] + extension;
    let wanted = seq!['.'] + native;
    if is_plugin_name(name, native) {
        // The name closes with `wanted`; its last dot is the one behind the stem.
        let end = name.skip(name.len() - wanted.len());
        let dot = stem.len() as int;
        if native.len() < extension.len() {
            // the dot of `wanted` falls inside `extension`
            assert(end[0] == name[name.len() - wanted.len()]);
        } else if native.len() > extension.len() {
            // the dot behind the stem falls inside `native`
            assert(end[native.len() - extension.len()] == name[dot]);
        } else {
            assert forall|i: int| 0 <= i < extension.len() implies extension[i] == native[i] by {
                assert(end[i + 1] == name[dot + 1 + i]);
            }
            assert(extension =~= native);
        }
    }
}

/// A file without a dot in its name is never taken for a plugin.
pub proof fn lemma_names_without_dot_are_not_plugins(name: Seq<char>, native: Seq<char>)
    requires
        !name.contains('.'),
    ensures
        !is_plugin_name(name, native),
{
    if is_plugin_name(name, native) {
        let wanted = seq!['.'] + native;
        let end = name.skip(name.len() - wanted.len());
        assert(end[0] == wanted[0]);
    }
}

} // verus!
