//! Path model for the upload root and its descendants.
//!
//! Paths are plain strings with `/` as the separator. The upload root is
//! assumed to be an absolute, canonical directory path (no trailing `/`
//! unless it is the filesystem root itself), as the configuration layer
//! provides it. Canonicalization of a joined path is filesystem work and
//! happens outside this crate; the checks here take the canonical result.

use vstd::prelude::*;

verus! {

/// The path separator.
pub open spec fn is_sep(c: char) -> bool {
    c == '/'
}

/// A pure filename: non-empty, free of separators, and not one of the two
/// traversal segments `.` and `..`. Only such a name may be attached to a
/// resolved directory.
pub open spec fn is_pure_filename(s: Seq<char>) -> bool {
    &&& s.len() > 0
    &&& forall|i: int| 0 <= i < s.len() ==> !is_sep(s[i])
    &&& s != seq!['.']
    &&& s != seq!['.', '.']
}

/// Decides `is_pure_filename` on a string slice.
pub fn check_pure_filename(name: &str) -> (r: bool)
    ensures
        r == is_pure_filename(name@),
{
    let n = name.unicode_len();
    if n == 0 {
        return false;
    }
    let mut i: usize = 0;
    while i < n
        invariant
            0 < n == name@.len(),
            0 <= i <= n,
            forall|j: int| 0 <= j < i ==> !is_sep(name@[j]),
        decreases n - i,
    {
        if name.get_char(i) == '/' {
            return false;
        }
        i += 1;
    }
    if n == 1 && name.get_char(0) == '.' {
        proof {
            assert(name@ =~= seq!['.']);
        }
        return false;
    }
    if n == 2 && name.get_char(0) == '.' && name.get_char(1) == '.' {
        proof {
            assert(name@ =~= seq!['.', '.']);
        }
        return false;
    }
    proof {
        if name@ == seq!['.'] {
            assert(name@[0] == '.');
        }
        if name@ == seq!['.', '.'] {
            assert(name@[0] == '.');
            assert(name@[1] == '.');
        }
    }
    true
}

/// What joining `sub` onto `base` yields, with the semantics of ordinary
/// path concatenation: an absolute `sub` replaces `base` outright, and a
/// separator is inserted only where `base` does not already end in one.
pub open spec fn joined(base: Seq<char>, sub: Seq<char>) -> Seq<char> {
    if sub.len() > 0 && is_sep(sub[0]) {
        sub
    } else if base.len() == 0 {
        sub
    } else if is_sep(base.last()) {
        base + sub
    } else {
        base + seq!['/'] + sub
    }
}

/// `p` lies under `root`: it is `root` itself, or `root` followed by a
/// separator and more. The separator must fall on a segment boundary, so a
/// sibling such as `/data-evil` is not under `/data`. `root` is expected to
/// be canonical; a `root` that itself ends in a separator (the filesystem
/// root) already supplies the boundary.
pub open spec fn contained_in(root: Seq<char>, p: Seq<char>) -> bool {
    ||| root.len() == 0
    ||| p == root
    ||| {
        &&& p.len() > root.len()
        &&& p.subrange(0, root.len() as int) == root
        &&& (is_sep(p[root.len() as int]) || (root.len() > 0 && is_sep(root.last())))
    }
}

/// Joins a client-supplied subpath onto the root, exactly as ordinary path
/// concatenation would; the result is what the filesystem layer must
/// canonicalize before any containment check.
pub fn join_path(base: &str, sub: &str) -> (r: String)
    ensures
        r@ == joined(base@, sub@),
{
    let sub_len = sub.unicode_len();
    if sub_len > 0 && sub.get_char(0) == '/' {
        return String::from_str(sub);
    }
    let base_len = base.unicode_len();
    if base_len == 0 {
        return String::from_str(sub);
    }
    let mut r = String::from_str(base);
    if base.get_char(base_len - 1) != '/' {
        r.append("/");
        proof {
            reveal_strlit("/");
            assert(r@ =~= base@ + seq!['/']);
        }
    }
    r.append(sub);
    proof {
        if base@.last() != '/' {
            assert(r@ =~= base@ + seq!['/'] + sub@);
        }
    }
    r
}

/// Decides `contained_in` on string slices.
pub fn check_contained(root: &str, p: &str) -> (r: bool)
    ensures
        r == contained_in(root@, p@),
{
    let root_len = root.unicode_len();
    if root_len == 0 {
        return true;
    }
    let p_len = p.unicode_len();
    if p_len < root_len {
        proof {
            assert(p@ != root@);
            assert(!(p@.len() > root@.len()));
        }
        return false;
    }
    let mut i: usize = 0;
    while i < root_len
        invariant
            0 <= i <= root_len == root@.len(),
            root@.len() <= p@.len() == p_len,
            forall|j: int| 0 <= j < i ==> p@[j] == root@[j],
        decreases root_len - i,
    {
        if p.get_char(i) != root.get_char(i) {
            proof {
                assert(p@ != root@);
                assert(p@.subrange(0, root@.len() as int)[i as int] != root@[i as int]);
                assert(p@.subrange(0, root@.len() as int) != root@);
            }
            return false;
        }
        i += 1;
    }
    proof {
        assert(p@.subrange(0, root@.len() as int) =~= root@);
    }
    if p_len == root_len {
        proof {
            assert(p@ =~= root@);
        }
        return true;
    }
    if p.get_char(root_len) == '/' {
        return true;
    }
    if root_len > 0 && root.get_char(root_len - 1) == '/' {
        return true;
    }
    proof {
        assert(p@ != root@);
    }
    false
}

/// An absolute destination, proven to lie under the upload root: a canonical
/// directory contained in the root, plus a pure filename. Values exist only
/// through [`resolve_in_root`], so holding one is proof that the containment
/// check passed.
pub struct ResolvedPath {
    root: String,
    dir: String,
    name: String,
}

impl ResolvedPath {
    /// The invariant every value of this type carries.
    pub closed spec fn wf(self) -> bool {
        &&& contained_in(self.root@, self.dir@)
        &&& is_pure_filename(self.name@)
    }

    pub closed spec fn spec_root(self) -> Seq<char> {
        self.root@
    }

    pub closed spec fn spec_dir(self) -> Seq<char> {
        self.dir@
    }

    pub closed spec fn spec_name(self) -> Seq<char> {
        self.name@
    }

    /// The full path of the destination file.
    pub closed spec fn spec_full(self) -> Seq<char> {
        joined(self.dir@, self.name@)
    }

    /// Renders the full path of the destination file.
    pub fn full_path(&self) -> (r: String)
        ensures
            r@ == self.spec_full(),
    {
        join_path(self.dir.as_str(), self.name.as_str())
    }
}

/// Checks that the canonical directory `canonical` lies under `root` and
/// that `name` is a pure filename, and only then builds the destination.
/// Failure means the request escaped the root or smuggled path structure
/// into the filename.
pub fn resolve_in_root(root: &str, canonical: &str, name: &str) -> (r: Option<ResolvedPath>)
    ensures
        r is Some <==> contained_in(root@, canonical@) && is_pure_filename(name@),
        r matches Some(rp) ==> {
            &&& rp.wf()
            &&& rp.spec_root() == root@
            &&& rp.spec_dir() == canonical@
            &&& rp.spec_name() == name@
        },
{
    if !check_pure_filename(name) {
        return None;
    }
    if !check_contained(root, canonical) {
        return None;
    }
    Some(
        ResolvedPath {
            root: String::from_str(root),
            dir: String::from_str(canonical),
            name: String::from_str(name),
        },
    )
}

/// Containment survives attaching a pure filename: the full destination of a
/// well-formed [`ResolvedPath`] still lies under its root. Together with the
/// construction guard this says a destination outside the root can never be
/// produced, whatever the client supplied.
pub proof fn lemma_resolved_full_contained(rp: ResolvedPath)
    requires
        rp.wf(),
    ensures
        contained_in(rp.spec_root(), rp.spec_full()),
{
    let root = rp.spec_root();
    let dir = rp.spec_dir();
    let name = rp.spec_name();
    let full = rp.spec_full();
    assert(name.len() > 0);
    assert(!is_sep(name[0]));
    if root.len() == 0 {
        // an empty root contains every path
    } else if dir.len() == 0 {
        // a non-empty root contains no empty path
        assert(dir != root);
        assert(!(dir.len() > root.len()));
        assert(false);
    } else if is_sep(dir.last()) {
        assert(full == dir + name);
        assert(full.len() > dir.len() >= root.len());
        if dir == root {
            assert(full.subrange(0, root.len() as int) =~= root);
            assert(is_sep(root.last()));
        } else {
            assert(dir.subrange(0, root.len() as int) == root);
            assert(full.subrange(0, root.len() as int) =~= root);
            assert(full[root.len() as int] == dir[root.len() as int]);
        }
    } else {
        assert(full == dir + seq!['/'] + name);
        assert(full.len() > dir.len() >= root.len());
        if dir == root {
            assert(full.subrange(0, root.len() as int) =~= root);
            assert(is_sep(full[root.len() as int]));
        } else {
            assert(dir.subrange(0, root.len() as int) == root);
            assert(full.subrange(0, root.len() as int) =~= root);
            assert(full[root.len() as int] == dir[root.len() as int]);
        }
    }
}

/// Two distinct pure filenames resolved against the same directory give two
/// distinct full paths: parallel uploads into one directory cannot collide
/// unless they name the same file.
pub proof fn lemma_distinct_names_distinct_paths(a: ResolvedPath, b: ResolvedPath)
    requires
        a.wf(),
        b.wf(),
        a.spec_dir() == b.spec_dir(),
        a.spec_name() != b.spec_name(),
    ensures
        a.spec_full() != b.spec_full(),
{
    let dir = a.spec_dir();
    let na = a.spec_name();
    let nb = b.spec_name();
    if dir.len() == 0 {
        assert(a.spec_full() == na && b.spec_full() == nb);
    } else if is_sep(dir.last()) {
        assert(a.spec_full() == dir + na && b.spec_full() == dir + nb);
        if a.spec_full() == b.spec_full() {
            assert(na =~= (dir + na).subrange(dir.len() as int, (dir + na).len() as int));
            assert(nb =~= (dir + nb).subrange(dir.len() as int, (dir + nb).len() as int));
        }
    } else {
        let pa = dir + seq!['/'] + na;
        let pb = dir + seq!['/'] + nb;
        assert(a.spec_full() == pa && b.spec_full() == pb);
        if pa == pb {
            assert(na =~= pa.subrange(dir.len() as int + 1, pa.len() as int));
            assert(nb =~= pb.subrange(dir.len() as int + 1, pb.len() as int));
        }
    }
}


} // verus!
