//! The project map: which real directory each virtual root stands for.

use vstd::prelude::*;

verus! {

/// Virtual roots paired with the real directories they map to, in the
/// order in which they were registered.
pub struct Config {
    pub projects: Vec<(String, String)>,
}

/// A virtual root is non-empty and has no `/` at either edge.
pub open spec fn valid_root_name(k: Seq<char>) -> bool {
    k.len() > 0 && k[0] != '/' && k[k.len() - 1] != '/'
}

impl Config {
    /// The virtual root registered at position `i`.
    pub open spec fn key(&self, i: int) -> Seq<char> {
        self.projects@[i].0@
    }

    /// The real directory registered at position `i`.
    pub open spec fn target(&self, i: int) -> Seq<char> {
        self.projects@[i].1@
    }

    /// Whether every virtual root is well formed and registered once.
    pub fn is_valid(&self) -> (r: bool)
        ensures
            r == self.wf(),
    {
        let n = self.projects.len();
        let mut i: usize = 0;
        while i < n
            invariant
                n == self.projects@.len(),
                i <= n,
                forall|a: int| 0 <= a < i ==> valid_root_name(#[trigger] self.key(a)),
                forall|a: int, b: int| 0 <= a < i && 0 <= b < n && a != b
                    ==> #[trigger] self.key(a) != #[trigger] self.key(b),
            decreases n - i,
        {
            let k = self.projects[i].0.as_str();
            let len = k.unicode_len();
            if len == 0 || k.get_char(0) == '/' || k.get_char(len - 1) == '/' {
                assert(!valid_root_name(self.key(i as int)));
                return false;
            }
            let mut j: usize = 0;
            while j < n
                invariant
                    n == self.projects@.len(),
                    i < n,
                    j <= n,
                    forall|b: int| 0 <= b < j && b != i ==> self.key(i as int) != #[trigger] self.key(b),
                decreases n - j,
            {
                if j != i && self.projects[j].0 == self.projects[i].0 {
                    assert(self.key(j as int) == self.key(i as int));
                    return false;
                }
                j = j + 1;
            }
            i = i + 1;
        }
        true
    }

    /// Every virtual root is well formed and registered once.
    pub open spec fn wf(&self) -> bool {
        &&& forall|i: int| 0 <= i < self.projects@.len() ==> valid_root_name(#[trigger] self.key(i))
        &&& forall|i: int, j: int|
            0 <= i < self.projects@.len() && 0 <= j < self.projects@.len() && i != j
                ==> #[trigger] self.key(i) != #[trigger] self.key(j)
    }
}

} // verus!
