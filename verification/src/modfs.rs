//! Decisions of the directory-injection tool that need no host or
//! volume access: the collected path records, the absolute-path test,
//! and the duplicate-destination check that runs before anything is
//! written.

use vstd::prelude::*;
use vstd::string::{StrSliceExecFns, StringExecFns};

verus! {

/// What to do when a collected path already exists on the volume.
#[derive(Clone, Copy, Debug, PartialEq, Eq, Structural)]
pub enum PathConflict {
    /// Refuse, unless both sides are directories.
    Fail,
    /// Keep the existing entry.
    Ignore,
    /// Remove the existing entry first.
    Unlink,
}

/// Parameters of one injection run.
#[derive(Clone, Copy, Debug)]
pub struct ModfsParam {
    /// The conflict policy.
    pub pc: PathConflict,
}

impl ModfsParam {
    /// Wraps the conflict policy.
    pub fn new(pc: PathConflict) -> (r: Self)
        ensures
            r.pc == pc,
    {
        Self { pc }
    }
}

/// One collected host path: the full source path, the character
/// index where the destination part begins, and whether the path
/// names a directory.
#[derive(Clone, Debug)]
pub struct Path {
    /// Full source path on the host.
    pub f: String,
    /// Character index where the destination suffix begins.
    pub i: usize,
    /// Whether the path names a directory.
    pub is_dir: bool,
}

impl Path {
    /// The prefix split lies within the path.
    pub open spec fn wf(self) -> bool {
        self.i <= self.f@.len()
    }

    /// The destination part: everything after the prefix.
    pub open spec fn dst(self) -> Seq<char> {
        self.f@.subrange(self.i as int, self.f@.len() as int)
    }

    /// Builds a record; the split index must lie within the path.
    pub fn new(f: String, i: usize, is_dir: bool) -> (r: Self)
        requires
            i <= f@.len(),
        ensures
            r == (Path { f: f, i: i, is_dir: is_dir }),
            r.wf(),
    {
        Self { f, i, is_dir }
    }

    /// The full source path.
    pub fn get_src(&self) -> (r: &str)
        ensures
            r@ == self.f@,
    {
        self.f.as_str()
    }

    /// The destination part of the path.
    pub fn get_dst(&self) -> (r: &str)
        requires
            self.wf(),
        ensures
            r@ == self.dst(),
    {
        let n = self.f.as_str().unicode_len();
        self.f.as_str().substring_char(self.i, n)
    }

    /// Whether the path names a directory.
    pub fn is_dir(&self) -> (r: bool)
        ensures
            r == self.is_dir,
    {
        self.is_dir
    }
}

/// Whether a path is absolute: it starts at the root separator.
pub fn is_abspath(f: &str) -> (r: bool)
    ensures
        r == (f@.len() > 0 && f@[0] == '/'),
{
    if f.unicode_len() == 0 {
        false
    } else {
        f.get_char(0) == '/'
    }
}

/// Two records collide when they name the same destination and are
/// not both directories.
pub open spec fn spec_conflict(a: Path, b: Path) -> bool {
    a.dst() == b.dst() && !(a.is_dir && b.is_dir)
}

/// Finds the first pair of records with the same destination where
/// not both are directories; such a pair makes a fail-policy run
/// refuse before it writes anything.
pub fn find_duplicate(v: &Vec<Path>) -> (r: Option<(usize, usize)>)
    requires
        forall|k: int| 0 <= k < v@.len() ==> (#[trigger] v@[k]).wf(),
    ensures
        r matches Some(ab) ==> 0 <= ab.0 < ab.1 < v@.len() && spec_conflict(
            v@[ab.0 as int],
            v@[ab.1 as int],
        ),
        r is None ==> forall|a: int, b: int|
            0 <= a < b < v@.len() ==> !spec_conflict(v@[a], v@[b]),
{
    let n = v.len();
    let mut a: usize = 0;
    while a < n
        invariant
            0 <= a <= n == v@.len(),
            forall|k: int| 0 <= k < v@.len() ==> (#[trigger] v@[k]).wf(),
            forall|x: int, y: int|
                0 <= x < y < v@.len() && x < a ==> !spec_conflict(v@[x], v@[y]),
        decreases n - a,
    {
        let mut b: usize = a + 1;
        while b < n
            invariant
                0 <= a < b <= n == v@.len(),
                forall|k: int| 0 <= k < v@.len() ==> (#[trigger] v@[k]).wf(),
                forall|x: int, y: int|
                    0 <= x < y < v@.len() && x < a ==> !spec_conflict(v@[x], v@[y]),
                forall|y: int| a < y < b ==> !spec_conflict(v@[a as int], v@[y]),
            decreases n - b,
        {
            let same = String::from_str(v[a].get_dst()) == String::from_str(v[b].get_dst());
            if same && !(v[a].is_dir() && v[b].is_dir()) {
                return Some((a, b));
            }
            b = b + 1;
        }
        a = a + 1;
    }
    None
}

} // verus!
