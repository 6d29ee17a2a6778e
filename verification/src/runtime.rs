//! Telling the inference runtime's library from other files by its name.

use vstd::prelude::*;
use vstd::string::*;

verus! {

/// `text` begins with `prefix`.
pub open spec fn has_prefix(text: Seq<char>, prefix: Seq<char>) -> bool {
    text.len() >= prefix.len() && text.subrange(0, prefix.len() as int) == prefix
}

/// `text` ends with `suffix`.
pub open spec fn has_suffix(text: Seq<char>, suffix: Seq<char>) -> bool {
    text.len() >= suffix.len() && text.subrange(text.len() - suffix.len(), text.len() as int)
        == suffix
}

/// `name` is a file name that the runtime's library goes by: it begins with
/// `libonnxruntime` and ends with `.dylib`, with or without a version between
/// the two.
pub open spec fn is_runtime_library_name(name: Seq<char>) -> bool {
    has_prefix(name, "libonnxruntime"@) && has_suffix(name, ".dylib"@)
}

/// Whether `part` stands in `text` from position `at` on.
fn matches_at(text: &str, text_len: usize, at: usize, part: &str, part_len: usize) -> (same: bool)
    requires
        text_len == text@.len(),
        part_len == part@.len(),
        at + part_len <= text_len,
    ensures
        same == (text@.subrange(at as int, at + part_len) == part@),
{
    let mut i: usize = 0;
    while i < part_len
        invariant
            i <= part_len,
            text_len == text@.len(),
            part_len == part@.len(),
            at + part_len <= text_len,
            text@.subrange(at as int, at + i) == part@.subrange(0, i as int),
        decreases part_len - i,
    {
        if text.get_char(at + i) != part.get_char(i) {
            proof {
                let found = text@.subrange(at as int, at + part_len);
                assert(found[i as int] == text@[at + i]);
            }
            return false;
        }
        proof {
            let longer = text@.subrange(at as int, at + i + 1);
            let shorter = text@.subrange(at as int, at + i);
            assert(longer =~= shorter.push(text@[at + i]));
            assert(part@.subrange(0, i as int + 1) =~= part@.subrange(0, i as int).push(
                part@[i as int],
            ));
        }
        i = i + 1;
    }
    proof {
        assert(part@.subrange(0, part_len as int) == part@);
    }
    true
}

/// Whether `text` begins with `prefix`.
pub fn starts_with(text: &str, prefix: &str) -> (found: bool)
    ensures
        found == has_prefix(text@, prefix@),
{
    let text_len: usize = text.unicode_len();
    let prefix_len: usize = prefix.unicode_len();
    if text_len < prefix_len {
        return false;
    }
    matches_at(text, text_len, 0, prefix, prefix_len)
}

/// Whether `text` ends with `suffix`.
pub fn ends_with(text: &str, suffix: &str) -> (found: bool)
    ensures
        found == has_suffix(text@, suffix@),
{
    let text_len: usize = text.unicode_len();
    let suffix_len: usize = suffix.unicode_len();
    if text_len < suffix_len {
        return false;
    }
    matches_at(text, text_len, text_len - suffix_len, suffix, suffix_len)
}

/// See [`is_runtime_library_name`].
pub fn runtime_library_name(name: &str) -> (is_runtime: bool)
    ensures
        is_runtime == is_runtime_library_name(name@),
{
    starts_with(name, "libonnxruntime") && ends_with(name, ".dylib")
}

} // verus!
