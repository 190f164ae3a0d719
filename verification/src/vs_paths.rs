//! Paths in an installation tree, modeled as plain strings.
//!
//! A path is a string whose components are separated by `/` or `\`.  The
//! resolver never touches the filesystem itself: whether a path is an
//! existing directory is recorded by the embedding application in a
//! [`DirSnapshot`] that is handed in alongside the paths.
use vstd::prelude::*;

use vstd::string::StringExecFns;

verus! {

/// `c` separates path components.
pub open spec fn is_sep(c: char) -> bool {
    c == '/' || c == '\\'
}

/// The path of `dir` inside `parent`: the concatenation with a separator
/// between them, unless `parent` already ends in one or is empty.
pub open spec fn join_path_spec(parent: Seq<char>, dir: Seq<char>) -> Seq<char> {
    if parent.len() == 0 {
        dir
    } else if is_sep(parent[parent.len() - 1]) {
        parent + dir
    } else {
        parent + seq!['/'] + dir
    }
}

/// `parent` is an ancestor-or-equal of `child`: `parent`'s characters are a
/// prefix of `child`'s and the prefix ends at a component boundary.
pub open spec fn is_path_prefix(parent: Seq<char>, child: Seq<char>) -> bool {
    &&& parent.len() <= child.len()
    &&& child.take(parent.len() as int) == parent
    &&& (child.len() == parent.len() || parent.len() == 0 || is_sep(child[parent.len() as int])
        || is_sep(parent[parent.len() - 1]))
}

/// Appends `dir` to `parent` with a single separator between them.
pub fn join_path(parent: &str, dir: &str) -> (r: String)
    ensures
        r@ == join_path_spec(parent@, dir@),
{
    let n: usize = parent.unicode_len();
    if n == 0 {
        return dir.to_owned();
    }
    let last: char = parent.get_char(n - 1);
    let mut out: String = parent.to_owned();
    if !(last == '/' || last == '\\') {
        out.append("/");
        proof {
            reveal_strlit("/");
            assert("/"@ =~= seq!['/']);
        }
    }
    out.append(dir);
    proof {
        assert(out@ =~= join_path_spec(parent@, dir@));
    }
    out
}

/// Whether the path `child` starts with the path `parent`, component-wise.
pub fn path_starts_with(child: &str, parent: &str) -> (r: bool)
    ensures
        r == is_path_prefix(parent@, child@),
{
    let np: usize = parent.unicode_len();
    let nc: usize = child.unicode_len();
    if np > nc {
        return false;
    }
    let mut i: usize = 0;
    while i < np
        invariant
            i <= np <= nc,
            np == parent@.len(),
            nc == child@.len(),
            forall|k: int| 0 <= k < i ==> child@[k] == parent@[k],
        decreases np - i,
    {
        let cc: char = child.get_char(i);
        let pc: char = parent.get_char(i);
        if cc != pc {
            proof {
                assert(child@.take(np as int)[i as int] != parent@[i as int]);
            }
            return false;
        }
        i = i + 1;
    }
    proof {
        assert(child@.take(np as int) =~= parent@);
    }
    if np == nc {
        return true;
    }
    if np == 0 {
        return true;
    }
    let boundary: char = child.get_char(np);
    if boundary == '/' || boundary == '\\' {
        return true;
    }
    let last: char = parent.get_char(np - 1);
    last == '/' || last == '\\'
}

/// The paths that the embedding application observed to be existing
/// directories at the time of the call.  The resolver makes all of its
/// directory-existence decisions against this snapshot.
pub struct DirSnapshot {
    dirs: Vec<String>,
}

impl View for DirSnapshot {
    type V = Seq<Seq<char>>;

    closed spec fn view(&self) -> Seq<Seq<char>> {
        self.dirs@.map_values(|s: String| s@)
    }
}

impl DirSnapshot {
    /// A snapshot with no observed directories.
    pub fn new() -> (r: DirSnapshot)
        ensures
            r@ == Seq::<Seq<char>>::empty(),
    {
        let r = DirSnapshot { dirs: Vec::new() };
        proof {
            assert(r@ =~= Seq::<Seq<char>>::empty());
        }
        r
    }

    /// Records `path` as an observed directory.
    pub fn record(&mut self, path: String)
        ensures
            final(self)@ == old(self)@.push(path@),
    {
        let ghost p = path@;
        self.dirs.push(path);
        proof {
            assert(self@ =~= old(self)@.push(p));
        }
    }

    /// Whether `path` was observed as a directory.
    pub fn contains(&self, path: &str) -> (r: bool)
        ensures
            r == self@.contains(path@),
    {
        let p: String = path.to_owned();
        let n: usize = self.dirs.len();
        let mut i: usize = 0;
        while i < n
            invariant
                i <= n,
                n == self.dirs@.len(),
                p@ == path@,
                self@.len() == n,
                forall|k: int| 0 <= k < i ==> self@[k] != path@,
            decreases n - i,
        {
            proof {
                assert(self@[i as int] == self.dirs@.map_values(|s: String| s@)[i as int]);
            }
            let hit: bool = self.dirs[i].eq(&p);
            if hit {
                proof {
                    assert(self@[i as int] == path@);
                }
                return true;
            }
            i = i + 1;
        }
        proof {
            if self@.contains(path@) {
                let k = choose|k: int| 0 <= k < self@.len() && self@[k] == path@;
                assert(self@[k] != path@);
            }
        }
        false
    }
}

/// Constructs the path of the sub directory `dir` of `parent`, provided it
/// was observed to exist.
pub fn sub_directory(parent: &str, dir: &str, observed: &DirSnapshot) -> (r: Result<
    String,
    crate::Error,
>)
    ensures
        match r {
            Ok(p) => p@ == join_path_spec(parent@, dir@) && observed@.contains(p@),
            Err(e) => e == crate::Error::NotFound && !observed@.contains(
                join_path_spec(parent@, dir@),
            ),
        },
{
    let sub_dir: String = join_path(parent, dir);
    if observed.contains(sub_dir.as_str()) {
        Ok(sub_dir)
    } else {
        Err(crate::Error::NotFound)
    }
}

} // verus!
