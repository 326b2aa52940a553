//! Path derivation, as pure byte-string functions over `/`-separated paths.
//! The cache directory `.cdo` sits next to the resolved source file (in its
//! parent directory); inside it, a target's artifact is named after the
//! source file's stem and its fingerprint record after the stem plus
//! `".hash"`. No I/O happens here — these functions only name locations.

use vstd::prelude::*;

verus! {

/// The cache directory's name, `".cdo"` as bytes.
pub open spec fn spec_cache_dir_name() -> Seq<u8> {
    seq![46u8, 99u8, 100u8, 111u8]
}

/// The record suffix, `".hash"` as bytes.
pub open spec fn spec_hash_suffix() -> Seq<u8> {
    seq![46u8, 104u8, 97u8, 115u8, 104u8]
}

/// The final path component: everything after the last `/`, or the whole
/// path when it has none.
pub open spec fn spec_base_name(p: Seq<u8>) -> Seq<u8>
    decreases p.len(),
{
    if p.len() == 0 {
        p
    } else if p.last() == 47 {
        Seq::empty()
    } else {
        spec_base_name(p.drop_last()).push(p.last())
    }
}

/// The directory part: everything up to and including the last `/`, empty
/// when the path has none.
pub open spec fn spec_dir_prefix(p: Seq<u8>) -> Seq<u8>
    decreases p.len(),
{
    if p.len() == 0 {
        p
    } else if p.last() == 47 {
        p
    } else {
        spec_dir_prefix(p.drop_last())
    }
}

/// The index just past the last dot of `name` that sits at position one or
/// later, or `-1` when there is no such dot. A dot at position zero marks a
/// hidden file, not an extension.
pub open spec fn last_dot_index(name: Seq<u8>) -> int
    decreases name.len(),
{
    if name.len() <= 1 {
        -1
    } else if name.last() == 46 {
        name.len() - 1
    } else {
        last_dot_index(name.drop_last())
    }
}

/// A file name's stem: the name with its extension (the part from the last
/// non-leading dot on) removed; the whole name when it has no extension.
pub open spec fn spec_stem_of_name(name: Seq<u8>) -> Seq<u8> {
    let d = last_dot_index(name);
    if d >= 1 {
        name.take(d)
    } else {
        name
    }
}

/// The stem of a path: the stem of its final component.
pub open spec fn spec_stem(p: Seq<u8>) -> Seq<u8> {
    spec_stem_of_name(spec_base_name(p))
}

/// `spec_base_name` is the suffix that starts right after the last slash.
proof fn lemma_base_name_at(p: Seq<u8>, start: int)
    requires
        0 <= start <= p.len(),
        forall|k: int| start <= k < p.len() ==> p[k] != 47,
        start == 0 || p[start - 1] == 47,
    ensures
        spec_base_name(p) == p.skip(start),
    decreases p.len(),
{
    if p.len() == 0 {
        assert(p.skip(0) =~= p);
    } else if start == p.len() {
        assert(p.last() == 47);
        assert(spec_base_name(p) =~= p.skip(start));
    } else {
        assert(p.last() != 47);
        let front = p.drop_last();
        assert forall|k: int| start <= k < front.len() implies #[trigger] front[k] != 47 by {
            assert(front[k] == p[k]);
        }
        if start > 0 {
            assert(front[start - 1] == p[start - 1]);
        }
        lemma_base_name_at(front, start);
        assert(front.skip(start).push(p.last()) =~= p.skip(start));
    }
}

/// `spec_dir_prefix` is the prefix that ends at the last slash.
proof fn lemma_dir_prefix_at(p: Seq<u8>, start: int)
    requires
        0 <= start <= p.len(),
        forall|k: int| start <= k < p.len() ==> p[k] != 47,
        start == 0 || p[start - 1] == 47,
    ensures
        spec_dir_prefix(p) == p.take(start),
    decreases p.len(),
{
    if p.len() == 0 {
        assert(p.take(0) =~= p);
    } else if start == p.len() {
        assert(p.last() == 47);
        assert(p.take(start) =~= p);
    } else {
        assert(p.last() != 47);
        let front = p.drop_last();
        assert forall|k: int| start <= k < front.len() implies #[trigger] front[k] != 47 by {
            assert(front[k] == p[k]);
        }
        if start > 0 {
            assert(front[start - 1] == p[start - 1]);
        }
        lemma_dir_prefix_at(front, start);
        assert(front.take(start) =~= p.take(start));
    }
}

/// `last_dot_index` finds exactly the last non-leading dot.
proof fn lemma_last_dot_at(name: Seq<u8>, d: int)
    requires
        1 <= d < name.len(),
        name[d] == 46,
        forall|k: int| d < k < name.len() ==> name[k] != 46,
    ensures
        last_dot_index(name) == d,
    decreases name.len(),
{
    if d == name.len() - 1 {
        assert(name.last() == 46);
    } else {
        assert(name.last() != 46);
        let front = name.drop_last();
        assert(front[d] == name[d]);
        assert forall|k: int| d < k < front.len() implies #[trigger] front[k] != 46 by {
            assert(front[k] == name[k]);
        }
        lemma_last_dot_at(front, d);
    }
}

/// `last_dot_index` reports none when no non-leading dot exists.
proof fn lemma_no_dot(name: Seq<u8>)
    requires
        forall|k: int| 1 <= k < name.len() ==> name[k] != 46,
    ensures
        last_dot_index(name) == -1,
    decreases name.len(),
{
    if name.len() > 1 {
        assert(name.last() != 46);
        let front = name.drop_last();
        assert forall|k: int| 1 <= k < front.len() implies #[trigger] front[k] != 46 by {
            assert(front[k] == name[k]);
        }
        lemma_no_dot(front);
    }
}

/// Computes the stem of a path: the final component with its extension
/// removed. This names the compiled artifact and keys the fingerprint
/// record inside the cache directory.
pub fn file_stem(path: &[u8]) -> (r: Vec<u8>)
    ensures
        r@ == spec_stem(path@),
{
    let n: usize = path.len();
    let mut start: usize = n;
    while start > 0 && path[start - 1] != 47
        invariant
            start <= n,
            n == path@.len(),
            forall|k: int| start <= k < n ==> path@[k] != 47,
        decreases start,
    {
        start = start - 1;
    }
    proof {
        lemma_base_name_at(path@, start as int);
    }
    let ghost base = path@.skip(start as int);
    let blen: usize = n - start;
    let mut dot: usize = blen;
    while dot > 1 && path[start + dot - 1] != 46
        invariant
            dot <= blen,
            blen == n - start,
            n == path@.len(),
            base == path@.skip(start as int),
            forall|k: int| dot <= k < blen ==> base[k] != 46,
        decreases dot,
    {
        proof {
            assert(base[dot - 1] == path@[start + dot - 1]);
        }
        dot = dot - 1;
    }
    let end: usize = if dot > 1 && path[start + dot - 1] == 46 {
        proof {
            assert(base[dot - 1] == path@[start + dot - 1]);
            lemma_last_dot_at(base, dot - 1);
        }
        start + dot - 1
    } else {
        // The scan stopped without finding a dot: either the loop ran dot
        // down to one, or it stopped on a dot the branch test just ruled
        // out, which cannot happen together with the loop's exit condition.
        proof {
            assert(dot <= 1);
            lemma_no_dot(base);
        }
        n
    };
    let mut r: Vec<u8> = Vec::new();
    let mut i: usize = start;
    while i < end
        invariant
            start <= i <= end <= n,
            n == path@.len(),
            r@ == path@.subrange(start as int, i as int),
        decreases end - i,
    {
        r.push(path[i]);
        proof {
            assert(path@.subrange(start as int, i + 1) =~= path@.subrange(start as int, i as int)
                + seq![path@[i as int]]);
        }
        i = i + 1;
    }
    proof {
        let d = last_dot_index(base);
        if d >= 1 {
            assert(base.take(d) =~= path@.subrange(start as int, start + d));
        } else {
            assert(base =~= path@.subrange(start as int, n as int));
        }
    }
    r
}

/// Where the cache directory for a resolved source path lives: inside the
/// source file's own directory, or inside the current working directory
/// when the path names no directory at all (it is empty or all slashes) —
/// the caller then falls back to the directory it runs in.
pub enum CacheDirPlan {
    InDir(Vec<u8>),
    InCurrentDir,
}

/// The path has at least one byte that is not a slash, so it names a file
/// a cache directory can sit next to.
pub open spec fn names_a_file(p: Seq<u8>) -> bool {
    exists|i: int| 0 <= i < p.len() && p[i] != 47
}

/// Derives the cache directory for a source path: its directory part with
/// `".cdo"` appended (so `"dir/x.cpp"` maps to `"dir/.cdo"` and a bare
/// `"x.cpp"` to `".cdo"`). A path that names no file yields the
/// current-directory fallback.
pub fn cache_dir_for(source: &[u8]) -> (r: CacheDirPlan)
    ensures
        names_a_file(source@) ==> (r matches CacheDirPlan::InDir(d) && d@ == spec_dir_prefix(
            source@,
        ) + spec_cache_dir_name()),
        !names_a_file(source@) ==> r is InCurrentDir,
{
    let n: usize = source.len();
    let mut has_file = false;
    let mut i: usize = 0;
    while i < n
        invariant
            i <= n,
            n == source@.len(),
            has_file ==> names_a_file(source@),
            !has_file ==> forall|k: int| 0 <= k < i ==> source@[k] == 47,
        decreases n - i,
    {
        if source[i] != 47 {
            has_file = true;
        }
        i = i + 1;
    }
    if !has_file {
        return CacheDirPlan::InCurrentDir;
    }
    let prefix_end: usize = dir_prefix_end(source);
    let mut d: Vec<u8> = Vec::new();
    let mut j: usize = 0;
    while j < prefix_end
        invariant
            j <= prefix_end <= n,
            n == source@.len(),
            d@ == source@.subrange(0, j as int),
        decreases prefix_end - j,
    {
        d.push(source[j]);
        proof {
            assert(source@.subrange(0, j + 1) =~= source@.subrange(0, j as int) + seq![
                source@[j as int],
            ]);
        }
        j = j + 1;
    }
    d.push(46);
    d.push(99);
    d.push(100);
    d.push(111);
    proof {
        assert(d@ =~= spec_dir_prefix(source@) + spec_cache_dir_name());
    }
    CacheDirPlan::InDir(d)
}

/// Where the directory part of `source` ends: the index just past the last
/// slash, or zero when there is none.
fn dir_prefix_end(source: &[u8]) -> (r: usize)
    ensures
        r <= source@.len(),
        source@.subrange(0, r as int) == spec_dir_prefix(source@),
{
    let n: usize = source.len();
    let mut start: usize = n;
    while start > 0 && source[start - 1] != 47
        invariant
            start <= n,
            n == source@.len(),
            forall|k: int| start <= k < n ==> source@[k] != 47,
        decreases start,
    {
        start = start - 1;
    }
    proof {
        lemma_dir_prefix_at(source@, start as int);
    }
    start
}

/// Appends `stem` to `cache_dir` as one path: `cache_dir/stem`. This is the
/// deterministic location of the compiled artifact for the target.
pub fn artifact_path(cache_dir: &[u8], stem: &[u8]) -> (r: Vec<u8>)
    ensures
        r@ == cache_dir@ + seq![47u8] + stem@,
{
    let mut r: Vec<u8> = Vec::new();
    let mut i: usize = 0;
    while i < cache_dir.len()
        invariant
            i <= cache_dir@.len(),
            r@ == cache_dir@.subrange(0, i as int),
        decreases cache_dir@.len() - i,
    {
        r.push(cache_dir[i]);
        proof {
            assert(cache_dir@.subrange(0, i + 1) =~= cache_dir@.subrange(0, i as int) + seq![
                cache_dir@[i as int],
            ]);
        }
        i = i + 1;
    }
    r.push(47);
    let mut j: usize = 0;
    while j < stem.len()
        invariant
            j <= stem@.len(),
            r@ == cache_dir@.subrange(0, cache_dir@.len() as int) + seq![47u8] + stem@.subrange(
                0,
                j as int,
            ),
        decreases stem@.len() - j,
    {
        r.push(stem[j]);
        proof {
            assert(stem@.subrange(0, j + 1) =~= stem@.subrange(0, j as int) + seq![
                stem@[j as int],
            ]);
        }
        j = j + 1;
    }
    proof {
        assert(r@ =~= cache_dir@ + seq![47u8] + stem@);
    }
    r
}

/// The fingerprint record's location for a target: `cache_dir/stem.hash`.
pub fn hash_record_path(cache_dir: &[u8], stem: &[u8]) -> (r: Vec<u8>)
    ensures
        r@ == cache_dir@ + seq![47u8] + stem@ + spec_hash_suffix(),
{
    let mut r = artifact_path(cache_dir, stem);
    r.push(46);
    r.push(104);
    r.push(97);
    r.push(115);
    r.push(104);
    proof {
        assert(r@ =~= cache_dir@ + seq![47u8] + stem@ + spec_hash_suffix());
    }
    r
}

} // verus!
