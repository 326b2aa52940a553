//! Source auto-discovery. When no explicit path is given, the tool scans the
//! search directory's entries (name and content of each regular file, in the
//! order the directory handed them out) and takes the first C++ source file
//! whose text contains the entry-point marker `int main`. First match wins;
//! the iteration order itself comes from the directory listing.

use vstd::prelude::*;

verus! {

/// The entry-point marker, `"int main"` as bytes.
pub open spec fn spec_marker() -> Seq<u8> {
    seq![105u8, 110u8, 116u8, 32u8, 109u8, 97u8, 105u8, 110u8]
}

/// The C++ source extension, `".cpp"` as bytes.
pub open spec fn spec_cpp_suffix() -> Seq<u8> {
    seq![46u8, 99u8, 112u8, 112u8]
}

/// `needle` occurs in `hay` starting at index `i`.
pub open spec fn has_substring_at(hay: Seq<u8>, needle: Seq<u8>, i: int) -> bool {
    0 <= i && i + needle.len() <= hay.len() && hay.subrange(i, i + needle.len()) == needle
}

/// `needle` occurs somewhere in `hay`.
pub open spec fn has_substring(hay: Seq<u8>, needle: Seq<u8>) -> bool {
    exists|i: int| has_substring_at(hay, needle, i)
}

/// A file name that carries the C++ source extension: it ends in `".cpp"`
/// and has at least one byte of stem before it (a bare `".cpp"` is a hidden
/// file, not a source file).
pub open spec fn is_cpp_name(name: Seq<u8>) -> bool {
    name.len() > 4 && name.subrange(name.len() - 4, name.len() as int) == spec_cpp_suffix()
}

/// A directory entry offered to discovery: the entry's file name and the
/// file's content, both as plain bytes.
pub struct SourceEntry {
    pub name: Vec<u8>,
    pub content: Vec<u8>,
}

/// An entry is the target when its name is a C++ source name and its
/// content contains the entry-point marker.
pub open spec fn entry_matches(name: Seq<u8>, content: Seq<u8>) -> bool {
    is_cpp_name(name) && has_substring(content, spec_marker())
}

/// Substring search: whether `needle` occurs in `hay`.
pub fn find_substring(hay: &[u8], needle: &[u8]) -> (r: bool)
    ensures
        r == has_substring(hay@, needle@),
{
    let hlen: usize = hay.len();
    let nlen: usize = needle.len();
    if nlen > hlen {
        proof {
            assert(forall|i: int| !has_substring_at(hay@, needle@, i));
        }
        return false;
    }
    let mut i: usize = 0;
    while i <= hlen - nlen
        invariant
            nlen <= hlen,
            hlen == hay@.len(),
            nlen == needle@.len(),
            i <= hlen - nlen + 1,
            forall|k: int| 0 <= k < i ==> !has_substring_at(hay@, needle@, k),
        decreases hlen - nlen - i + 1,
    {
        let mut j: usize = 0;
        while j < nlen && hay[i + j] == needle[j]
            invariant
                nlen <= hlen,
                hlen == hay@.len(),
                nlen == needle@.len(),
                i + nlen <= hlen,
                j <= nlen,
                forall|k: int| 0 <= k < j ==> hay@[i + k] == needle@[k],
            decreases nlen - j,
        {
            j = j + 1;
        }
        if j == nlen {
            proof {
                assert(hay@.subrange(i as int, i + nlen) =~= needle@);
                assert(has_substring_at(hay@, needle@, i as int));
            }
            return true;
        }
        proof {
            assert(hay@[i + j] != needle@[j as int]);
            assert(!has_substring_at(hay@, needle@, i as int)) by {
                if has_substring_at(hay@, needle@, i as int) {
                    assert(hay@.subrange(i as int, i + nlen)[j as int] == needle@[j as int]);
                }
            }
        }
        i = i + 1;
    }
    proof {
        assert forall|k: int| !has_substring_at(hay@, needle@, k) by {
            if has_substring_at(hay@, needle@, k) {
                assert(0 <= k <= hlen - nlen);
            }
        }
    }
    false
}

/// The entry-point marker as an executable value.
fn marker_bytes() -> (v: Vec<u8>)
    ensures
        v@ == spec_marker(),
{
    let mut v: Vec<u8> = Vec::new();
    v.push(105);
    v.push(110);
    v.push(116);
    v.push(32);
    v.push(109);
    v.push(97);
    v.push(105);
    v.push(110);
    proof {
        assert(v@ =~= spec_marker());
    }
    v
}

/// Tests a file name for the C++ source extension.
pub fn is_cpp_file_name(name: &[u8]) -> (r: bool)
    ensures
        r == is_cpp_name(name@),
{
    let n: usize = name.len();
    if n <= 4 {
        return false;
    }
    let r = name[n - 4] == 46 && name[n - 3] == 99 && name[n - 2] == 112 && name[n - 1] == 112;
    proof {
        if r {
            assert(name@.subrange(n - 4, n as int) =~= spec_cpp_suffix());
        } else {
            assert(name@.subrange(n - 4, n as int) != spec_cpp_suffix()) by {
                if name@.subrange(n - 4, n as int) == spec_cpp_suffix() {
                    assert(name@[n - 4] == spec_cpp_suffix()[0]);
                    assert(name@[n - 3] == spec_cpp_suffix()[1]);
                    assert(name@[n - 2] == spec_cpp_suffix()[2]);
                    assert(name@[n - 1] == spec_cpp_suffix()[3]);
                }
            }
        }
    }
    r
}

/// Whether one directory entry is a usable target.
pub fn entry_is_target(entry: &SourceEntry) -> (r: bool)
    ensures
        r == entry_matches(entry.name@, entry.content@),
{
    if !is_cpp_file_name(entry.name.as_slice()) {
        return false;
    }
    let marker = marker_bytes();
    find_substring(entry.content.as_slice(), marker.as_slice())
}

/// Picks the target among the directory's entries: the first one, in the
/// given order, that is a C++ source file containing the entry-point
/// marker; `None` when no entry qualifies (the caller must then neither
/// create a cache directory nor compile).
pub fn locate_source(entries: &Vec<SourceEntry>) -> (r: Option<usize>)
    ensures
        r matches Some(i) ==> i < entries@.len() && entry_matches(
            entries@[i as int].name@,
            entries@[i as int].content@,
        ) && forall|j: int|
            0 <= j < i ==> !entry_matches(entries@[j].name@, #[trigger] entries@[j].content@),
        r is None ==> forall|j: int|
            0 <= j < entries@.len() ==> !entry_matches(
                entries@[j].name@,
                #[trigger] entries@[j].content@,
            ),
{
    let n: usize = entries.len();
    let mut i: usize = 0;
    while i < n
        invariant
            i <= n,
            n == entries@.len(),
            forall|j: int|
                0 <= j < i ==> !entry_matches(entries@[j].name@, #[trigger] entries@[j].content@),
        decreases n - i,
    {
        if entry_is_target(&entries[i]) {
            return Some(i);
        }
        i = i + 1;
    }
    None
}

} // verus!
