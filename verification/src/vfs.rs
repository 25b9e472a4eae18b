//! Virtual filesystem: inputs (read-only) + scratch (quota-limited, ephemeral).
//!
//! The VFS is mounted into the WASI context; no other filesystem access is
//! allowed. Host paths are held as text; the host side resolves them.

use vstd::prelude::*;

verus! {

/// Configuration for the sandbox virtual filesystem.
#[derive(Debug, Clone)]
pub struct VfsConfig {
    /// Host directory to mount as read-only /inputs inside the sandbox.
    pub inputs_host_path: Option<String>,
    /// Host directory for the ephemeral scratch space (/scratch inside sandbox).
    pub scratch_host_path: String,
    /// Maximum bytes allowed in scratch.
    pub scratch_quota_bytes: u64,
}

/// VFS errors.
#[derive(Debug)]
pub enum VfsError {
    Setup(String),
    PathTraversal(String),
    QuotaExceeded { used: u64, quota: u64 },
}

/// The path segments of `p`: the maximal runs of characters other than '/'.
pub open spec fn segments(p: Seq<char>) -> Seq<Seq<char>>
    decreases p.len(),
{
    if p.len() == 0 {
        Seq::empty()
    } else {
        let q = p.drop_last();
        let c = p.last();
        if c == '/' {
            segments(q)
        } else if q.len() == 0 || q.last() == '/' {
            segments(q).push(seq![c])
        } else {
            let s = segments(q);
            s.update(s.len() - 1, s.last().push(c))
        }
    }
}

/// `p` is an absolute path.
pub open spec fn is_absolute(p: Seq<char>) -> bool {
    p.len() > 0 && p[0] == '/'
}

/// `path` lies at or below `base`, compared segment by segment (the rule of
/// `Path::starts_with` on resolved paths).
pub open spec fn path_within(path: Seq<char>, base: Seq<char>) -> bool {
    &&& is_absolute(path) == is_absolute(base)
    &&& segments(base).len() <= segments(path).len()
    &&& segments(path).subrange(0, segments(base).len() as int) == segments(base)
}

/// Appending '/' and then the nonempty slash-free text `s` to a path adds
/// `s` as one more segment.
proof fn lemma_segments_append(p: Seq<char>, s: Seq<char>, k: int)
    requires
        1 <= k <= s.len(),
        forall|j: int| 0 <= j < s.len() ==> s[j] != '/',
    ensures
        segments(p + seq!['/'] + s.take(k)) == segments(p).push(s.take(k)),
    decreases k,
{
    let q = p + seq!['/'] + s.take(k);
    assert(q.drop_last() =~= p + seq!['/'] + s.take(k - 1));
    assert(q.last() == s[k - 1]);
    if k == 1 {
        assert(s.take(0) =~= Seq::<char>::empty());
        assert(p + seq!['/'] + s.take(0) =~= p + seq!['/']);
        assert((p + seq!['/']).drop_last() =~= p);
        assert(segments(p + seq!['/']) == segments(p));
        assert(s.take(1) =~= seq![s[0]]);
    } else {
        lemma_segments_append(p, s, k - 1);
        assert(q.drop_last().last() == s[k - 2]);
        assert(s.take(k - 1).push(s[k - 1]) =~= s.take(k));
        assert(segments(p).push(s.take(k - 1)).update(
            segments(p).len() as int,
            s.take(k - 1).push(s[k - 1]),
        ) =~= segments(p).push(s.take(k)));
    }
}

/// Law: every path lies within itself.
pub proof fn lemma_path_within_itself(path: Seq<char>)
    ensures
        path_within(path, path),
{
    assert(segments(path).subrange(0, segments(path).len() as int) =~= segments(path));
}

/// Law: a path within `base` stays within it when one more segment (any
/// nonempty text without '/') is appended after a '/', so every path whose
/// segments extend the base's, at any depth, lies within the base.
pub proof fn lemma_path_within_extend(path: Seq<char>, base: Seq<char>, seg: Seq<char>)
    requires
        path_within(path, base),
        path.len() > 0,
        seg.len() > 0,
        forall|j: int| 0 <= j < seg.len() ==> seg[j] != '/',
    ensures
        path_within(path + "/"@ + seg, base),
{
    reveal_strlit("/");
    assert("/"@ =~= seq!['/']);
    assert(seg.take(seg.len() as int) =~= seg);
    lemma_segments_append(path, seg, seg.len() as int);
    let longer = path + "/"@ + seg;
    assert(longer[0] == path[0]);
    let n = segments(base).len() as int;
    assert(segments(longer).subrange(0, n) =~= segments(path).subrange(0, n));
}

/// Segments of `p` computed one character at a time.
fn path_segments(p: &str) -> (r: Vec<Vec<char>>)
    ensures
        r@.len() == segments(p@).len(),
        forall|i: int| 0 <= i < r@.len() ==> (#[trigger] r@[i])@ == segments(p@)[i],
{
    let cs = crate::text::chars_of(p);
    let mut r: Vec<Vec<char>> = Vec::new();
    let mut i: usize = 0;
    while i < cs.len()
        invariant
            cs@ == p@,
            i <= cs@.len(),
            r@.len() == segments(cs@.subrange(0, i as int)).len(),
            forall|k: int| 0 <= k < r@.len() ==> (#[trigger] r@[k])@ == segments(
                cs@.subrange(0, i as int),
            )[k],
        decreases cs@.len() - i,
    {
        let c = cs[i];
        let ghost pre = cs@.subrange(0, i as int);
        let ghost next = cs@.subrange(0, i + 1);
        proof {
            assert(next.drop_last() =~= pre);
            assert(next.last() == c);
        }
        if c == '/' {
        } else if i == 0 || cs[i - 1] == '/' {
            let mut seg: Vec<char> = Vec::new();
            seg.push(c);
            r.push(seg);
            proof {
                if i > 0 {
                    assert(pre.last() == cs@[i - 1]);
                }
                assert(seg@ =~= seq![c]);
            }
        } else {
            proof {
                assert(pre.last() == cs@[i - 1]);
                assert(pre.len() > 0);
                assert(r@.len() > 0) by {
                    lemma_segments_nonempty_after_char(pre);
                }
            }
            let last = r.len() - 1;
            let mut seg = r.remove(last);
            seg.push(c);
            r.push(seg);
        }
        proof {
            assert forall|k: int| 0 <= k < r@.len() implies (#[trigger] r@[k])@ == segments(
                next,
            )[k] by {}
        }
        i = i + 1;
    }
    proof {
        assert(cs@.subrange(0, cs@.len() as int) =~= cs@);
    }
    r
}

/// A path that ends in a character other than '/' has at least one segment.
proof fn lemma_segments_nonempty_after_char(p: Seq<char>)
    requires
        p.len() > 0,
        p.last() != '/',
    ensures
        segments(p).len() > 0,
    decreases p.len(),
{
    let q = p.drop_last();
    if !(q.len() == 0 || q.last() == '/') {
        lemma_segments_nonempty_after_char(q);
    }
}

fn seg_eq(a: &Vec<char>, b: &Vec<char>) -> (r: bool)
    ensures
        r == (a@ == b@),
{
    match crate::text::compare_chars(a, b) {
        crate::text::TextOrder::Equal => true,
        _ => false,
    }
}

/// Whether `path` lies at or below `base`, segment by segment.
pub fn is_within(path: &str, base: &str) -> (r: bool)
    ensures
        r == path_within(path@, base@),
{
    let abs_path = crate::text::starts_with_text(path, "/");
    let abs_base = crate::text::starts_with_text(base, "/");
    proof {
        reveal_strlit("/");
        assert("/"@ =~= seq!['/']);
        if path@.len() > 0 {
            assert(path@.subrange(0, 1) =~= seq![path@[0]]);
        }
        if base@.len() > 0 {
            assert(base@.subrange(0, 1) =~= seq![base@[0]]);
        }
        if path@.len() > 0 {
            assert(path@.subrange(0, 1)[0] == path@[0]);
            assert(seq!['/'][0] == '/');
        }
        if base@.len() > 0 {
            assert(base@.subrange(0, 1)[0] == base@[0]);
        }
        assert(abs_path == is_absolute(path@));
        assert(abs_base == is_absolute(base@));
    }
    if abs_path != abs_base {
        return false;
    }
    let sp = path_segments(path);
    let sb = path_segments(base);
    if sb.len() > sp.len() {
        return false;
    }
    let mut i: usize = 0;
    while i < sb.len()
        invariant
            sb@.len() <= sp@.len(),
            sp@.len() == segments(path@).len(),
            sb@.len() == segments(base@).len(),
            forall|k: int| 0 <= k < sp@.len() ==> (#[trigger] sp@[k])@ == segments(path@)[k],
            forall|k: int| 0 <= k < sb@.len() ==> (#[trigger] sb@[k])@ == segments(base@)[k],
            i <= sb@.len(),
            forall|k: int| 0 <= k < i ==> segments(path@)[k] == segments(base@)[k],
        decreases sb@.len() - i,
    {
        if !seg_eq(&sp[i], &sb[i]) {
            proof {
                assert(segments(path@).subrange(0, segments(base@).len() as int)[i as int]
                    != segments(base@)[i as int]);
            }
            return false;
        }
        i = i + 1;
    }
    proof {
        assert(segments(path@).subrange(0, segments(base@).len() as int) =~= segments(base@));
    }
    true
}

/// Law: a resolved base lies within itself, so validating the base itself
/// (or a path that resolves to it) is accepted.
pub proof fn lemma_base_within_itself(base: Seq<char>)
    ensures
        path_within(base, base),
{
    assert(segments(base).subrange(0, segments(base).len() as int) =~= segments(base));
}

/// Law: lying within is transitive: a path within a directory that lies
/// within the base is itself within the base.
pub proof fn lemma_within_transitive(path: Seq<char>, dir: Seq<char>, base: Seq<char>)
    requires
        path_within(path, dir),
        path_within(dir, base),
    ensures
        path_within(path, base),
{
    let sp = segments(path);
    let sd = segments(dir);
    let sb = segments(base);
    assert(sp.subrange(0, sb.len() as int) =~= sd.subrange(0, sb.len() as int)) by {
        assert forall|i: int| 0 <= i < sb.len() implies sp[i] == sd[i] by {
            assert(sp.subrange(0, sd.len() as int)[i] == sd[i]);
        }
    }
}

/// The message of a traversal refusal for `requested` relative to `base`.
pub open spec fn traversal_message(requested: Seq<char>, base: Seq<char>) -> Seq<char> {
    "path traversal detected: "@ + requested + " escapes "@ + base
}

impl VfsConfig {
    /// Create a new VFS config.
    pub fn new(inputs_host_path: Option<String>, scratch_host_path: String, scratch_quota_bytes: u64) -> (r: Self)
        ensures
            r.inputs_host_path == inputs_host_path,
            r.scratch_host_path == scratch_host_path,
            r.scratch_quota_bytes == scratch_quota_bytes,
    {
        Self { inputs_host_path, scratch_host_path, scratch_quota_bytes }
    }

    /// Check that a path doesn't escape via traversal. `base` and `requested`
    /// are the paths as given; `canonical_base` and `canonical` are the host's
    /// resolutions of `base` and of `base` joined with `requested`. The
    /// resolved path is accepted exactly when it lies at or below the
    /// resolved base.
    pub fn validate_path(base: &str, requested: &str, canonical_base: &str, canonical: &str) -> (r:
        Result<String, VfsError>)
        ensures
            path_within(canonical@, canonical_base@) ==> (r matches Ok(p) && p@ == canonical@),
            !path_within(canonical@, canonical_base@) ==> (r matches Err(VfsError::PathTraversal(m))
                && m@ == traversal_message(requested@, base@)),
    {
        if !is_within(canonical, canonical_base) {
            let msg = String::from_str("path traversal detected: ").concat(requested).concat(
                " escapes ",
            ).concat(base);
            return Err(VfsError::PathTraversal(msg));
        }
        Ok(String::from_str(canonical))
    }

    /// Decide whether the inputs directory can be mounted, given what the
    /// host found at `inputs_host_path`: it must exist and be a directory.
    /// Without an inputs directory there is nothing to check.
    pub fn check_inputs_dir(&self, exists: bool, is_dir: bool) -> (r: Result<(), VfsError>)
        ensures
            self.inputs_host_path is None ==> r is Ok,
            self.inputs_host_path matches Some(p) ==> {
                &&& exists && is_dir ==> r is Ok
                &&& !exists ==> (r matches Err(VfsError::Setup(m)) && m@
                    == "inputs directory does not exist: "@ + p@)
                &&& exists && !is_dir ==> (r matches Err(VfsError::Setup(m)) && m@
                    == "inputs path is not a directory: "@ + p@)
            },
    {
        match &self.inputs_host_path {
            None => Ok(()),
            Some(p) => {
                if !exists {
                    Err(
                        VfsError::Setup(
                            String::from_str("inputs directory does not exist: ").concat(p.as_str()),
                        ),
                    )
                } else if !is_dir {
                    Err(
                        VfsError::Setup(
                            String::from_str("inputs path is not a directory: ").concat(p.as_str()),
                        ),
                    )
                } else {
                    Ok(())
                }
            },
        }
    }

    /// Check the measured scratch usage against the quota.
    pub fn check_scratch_quota(&self, usage: u64) -> (r: Result<(), VfsError>)
        ensures
            usage <= self.scratch_quota_bytes ==> r is Ok,
            usage > self.scratch_quota_bytes ==> (r matches Err(VfsError::QuotaExceeded { used, quota })
                && used == usage && quota == self.scratch_quota_bytes),
    {
        if usage > self.scratch_quota_bytes {
            return Err(VfsError::QuotaExceeded { used: usage, quota: self.scratch_quota_bytes });
        }
        Ok(())
    }
}

/// A directory tree as its size is measured: a regular file by its length,
/// a directory by its entries, anything else (a link, a device) by nothing.
#[derive(Debug)]
pub enum DirTree {
    File(u64),
    Dir(Vec<DirTree>),
    Other,
}

/// The size of a tree: the sum of the lengths of all regular files in it,
/// recursively.
pub open spec fn tree_size(t: DirTree) -> nat
    decreases t,
{
    match t {
        DirTree::File(n) => n as nat,
        DirTree::Dir(es) => entries_size(es@),
        DirTree::Other => 0,
    }
}

/// The summed size of a list of trees.
pub open spec fn entries_size(es: Seq<DirTree>) -> nat
    decreases es,
{
    if es.len() == 0 {
        0
    } else {
        entries_size(es.drop_last()) + tree_size(es.last())
    }
}

/// The summed size of a prefix of a list never exceeds that of the list.
proof fn lemma_entries_size_prefix(es: Seq<DirTree>, k: int)
    requires
        0 <= k <= es.len(),
    ensures
        entries_size(es.take(k)) <= entries_size(es),
    decreases es.len(),
{
    if k < es.len() {
        lemma_entries_size_prefix(es.drop_last(), k);
        assert(es.drop_last().take(k) =~= es.take(k));
    } else {
        assert(es.take(k) =~= es);
    }
}

/// The size of a directory tree, as `scratch_usage` measures it: `None`
/// when the sum does not fit in 64 bits.
pub fn dir_tree_size(t: &DirTree) -> (r: Option<u64>)
    ensures
        r == (if tree_size(*t) <= u64::MAX {
            Some(tree_size(*t) as u64)
        } else {
            None::<u64>
        }),
    decreases t,
{
    match t {
        DirTree::File(n) => Some(*n),
        DirTree::Other => Some(0),
        DirTree::Dir(es) => {
            let mut total: u64 = 0;
            let mut i: usize = 0;
            while i < es.len()
                invariant
                    *t == DirTree::Dir(*es),
                    i <= es@.len(),
                    total as nat == entries_size(es@.take(i as int)),
                decreases es@.len() - i,
            {
                proof {
                    assert(decreases_to!(*t => t->Dir_0));
                    assert(decreases_to!(*es => es@));
                    assert(decreases_to!(es@ => es@[i as int]));
                    assert(es@.take(i + 1).drop_last() =~= es@.take(i as int));
                    assert(es@.take(i + 1).last() == es@[i as int]);
                    lemma_entries_size_prefix(es@, i + 1);
                }
                let sub = dir_tree_size(&es[i]);
                match sub {
                    None => {
                        return None;
                    },
                    Some(n) => {
                        if n > u64::MAX - total {
                            return None;
                        }
                        total = total + n;
                    },
                }
                i = i + 1;
            }
            proof {
                assert(es@.take(es@.len() as int) =~= es@);
            }
            Some(total)
        },
    }
}

} // verus!
