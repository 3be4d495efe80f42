//! Maps the remote side's virtual paths onto real paths under the project.

use vstd::prelude::*;
use crate::config::Config;
use crate::text::{has_prefix, push_char, skip_chars, starts_with};

verus! {

/// `\` becomes `/`, and one leading `/` is dropped.
pub open spec fn normalize(p: Seq<char>) -> Seq<char> {
    let q = p.map_values(|c: char| if c == '\\' { '/' } else { c });
    if q.len() > 0 && q[0] == '/' { q.skip(1) } else { q }
}

/// The index of the first `c` in `s` at or after `i`, or `s.len()` if none.
pub open spec fn find_from(s: Seq<char>, c: char, i: int) -> int
    decreases s.len() - i,
{
    if i < 0 || i >= s.len() {
        s.len() as int
    } else if s[i] == c {
        i
    } else {
        find_from(s, c, i + 1)
    }
}

/// What is left of `p` once its first `/`-delimited segment is dropped
/// (empty when `p` has a single segment).
pub open spec fn after_first_segment(p: Seq<char>) -> Seq<char> {
    let k = find_from(p, '/', 0);
    if k < p.len() { p.skip(k + 1) } else { Seq::empty() }
}

/// `path` is the root `k` itself, or lies below it.
pub open spec fn root_matches(path: Seq<char>, k: Seq<char>) -> bool {
    path == k || starts_with(path, k.push('/'))
}

/// What follows the root `k` and its separator in `path`.
pub open spec fn remainder(path: Seq<char>, k: Seq<char>) -> Seq<char> {
    if path == k { Seq::empty() } else { path.skip(k.len() + 1int) }
}

/// Root `i` matches `path`, no matching root is longer, and every earlier
/// matching root is strictly shorter.
pub open spec fn is_best(config: Config, path: Seq<char>, i: int) -> bool {
    &&& 0 <= i < config.projects@.len()
    &&& root_matches(path, config.key(i))
    &&& forall|j: int| 0 <= j < config.projects@.len() && root_matches(path, #[trigger] config.key(j))
        ==> config.key(j).len() <= config.key(i).len()
    &&& forall|j: int| 0 <= j < i && root_matches(path, #[trigger] config.key(j))
        ==> config.key(j).len() < config.key(i).len()
}

/// The most specific root that matches `path`, if any does.
pub open spec fn lookup(config: Config, path: Seq<char>) -> Option<int> {
    if exists|i: int| is_best(config, path, i) {
        Some(choose|i: int| is_best(config, path, i))
    } else {
        None
    }
}

/// `s` without its leading `/` characters.
pub open spec fn strip_slashes(s: Seq<char>) -> Seq<char>
    decreases s.len(),
{
    if s.len() > 0 && s[0] == '/' { strip_slashes(s.skip(1)) } else { s }
}

/// `b` appended to the directory `a`, one `/` between them.
pub open spec fn join(a: Seq<char>, b: Seq<char>) -> Seq<char> {
    if a.len() == 0 || a[a.len() - 1] == '/' {
        a + strip_slashes(b)
    } else {
        a.push('/') + strip_slashes(b)
    }
}

/// The real path for root `i`'s directory and the remainder `rem`.
pub open spec fn real_path(config: Config, project_root: Seq<char>, i: int, rem: Seq<char>) -> Seq<char> {
    let base = join(project_root, config.target(i));
    if rem.len() == 0 { base } else { join(base, rem) }
}

/// Where a virtual path leads: a direct match first, else a match after
/// dropping the sandbox's leading segment.
pub open spec fn resolution(config: Config, virtual_path: Seq<char>, project_root: Seq<char>) -> Option<Seq<char>> {
    let p = normalize(virtual_path);
    match lookup(config, p) {
        Some(i) => Some(real_path(config, project_root, i, remainder(p, config.key(i)))),
        None => {
            let q = after_first_segment(p);
            if q.len() == 0 {
                None
            } else {
                match lookup(config, q) {
                    Some(i) => Some(real_path(config, project_root, i, remainder(q, config.key(i)))),
                    None => None,
                }
            }
        }
    }
}

/// The view of an optional string.
pub open spec fn view_of(r: Option<String>) -> Option<Seq<char>> {
    match r {
        Some(s) => Some(s@),
        None => None,
    }
}

/// At most one root is the best match for a path.
pub proof fn lemma_best_unique(config: Config, path: Seq<char>, i: int, j: int)
    requires
        is_best(config, path, i),
        is_best(config, path, j),
    ensures
        i == j,
{
    if i < j {
        assert(config.key(i).len() < config.key(j).len());
        assert(config.key(i).len() <= config.key(j).len());
        assert(config.key(j).len() <= config.key(i).len());
    } else if j < i {
        assert(config.key(j).len() < config.key(i).len());
        assert(config.key(i).len() <= config.key(j).len());
    }
}

/// Normalizes a virtual path: `\` becomes `/`, one leading `/` is dropped.
pub fn normalize_virtual(p: &str) -> (r: String)
    ensures
        r@ == normalize(p@),
{
    let ghost q = p@.map_values(|c: char| if c == '\\' { '/' } else { c });
    let len = p.unicode_len();
    let mut out = String::new();
    let mut i: usize = 0;
    while i < len
        invariant
            len == p@.len(),
            i <= len,
            out@ == q.take(i as int),
            q == p@.map_values(|c: char| if c == '\\' { '/' } else { c }),
        decreases len - i,
    {
        let c = p.get_char(i);
        let d = if c == '\\' { '/' } else { c };
        assert(q[i as int] == d);
        push_char(&mut out, d);
        i = i + 1;
        assert(out@ =~= q.take(i as int));
    }
    assert(q.take(len as int) =~= q);
    if len > 0 && out.as_str().get_char(0) == '/' {
        skip_chars(out.as_str(), 1)
    } else {
        out
    }
}

/// Does the root `k` match `path`?
fn matches_root(path: &str, k: &str) -> (r: bool)
    ensures
        r == root_matches(path@, k@),
{
    if !has_prefix(path, k) {
        proof {
            if path@ == k@ {
                assert(path@.take(k@.len() as int) =~= k@);
            }
            if starts_with(path@, k@.push('/')) {
                assert(path@.take(k@.len() as int) =~= k@.push('/').take(k@.len() as int));
                assert(k@.push('/').take(k@.len() as int) =~= k@);
            }
        }
        return false;
    }
    let pl = path.unicode_len();
    let kl = k.unicode_len();
    assert(path@.take(kl as int) == k@);
    if pl == kl {
        assert(path@ =~= k@);
        true
    } else {
        let c = path.get_char(kl);
        proof {
            if c == '/' {
                assert(path@.take(kl + 1) =~= k@.push('/'));
            } else {
                assert(path@.take(kl + 1)[kl as int] == path@[kl as int]);
                assert(k@.push('/')[kl as int] == '/');
            }
        }
        c == '/'
    }
}

/// The position of the most specific root that matches `path`: the longest
/// one, and the first registered among equally long ones.
pub fn find_longest_prefix(config: &Config, path: &str) -> (r: Option<usize>)
    ensures
        r is None <==> forall|j: int| 0 <= j < config.projects@.len()
            ==> !root_matches(path@, #[trigger] config.key(j)),
        r matches Some(i) ==> is_best(*config, path@, i as int),
        r matches Some(i) ==> lookup(*config, path@) == Some(i as int),
        r is None ==> lookup(*config, path@) is None,
{
    let n = config.projects.len();
    let mut best: Option<usize> = None;
    let mut best_len: usize = 0;
    let mut i: usize = 0;
    while i < n
        invariant
            n == config.projects@.len(),
            i <= n,
            best is None ==> forall|j: int| 0 <= j < i ==> !root_matches(path@, #[trigger] config.key(j)),
            best matches Some(b) ==> {
                &&& b < i
                &&& best_len == config.key(b as int).len()
                &&& root_matches(path@, config.key(b as int))
                &&& forall|j: int| 0 <= j < i && root_matches(path@, #[trigger] config.key(j))
                    ==> config.key(j).len() <= best_len
                &&& forall|j: int| 0 <= j < b && root_matches(path@, #[trigger] config.key(j))
                    ==> config.key(j).len() < best_len
            },
        decreases n - i,
    {
        let k = config.projects[i].0.as_str();
        let kl = k.unicode_len();
        if matches_root(path, k) {
            let better = match best {
                None => true,
                Some(_) => kl > best_len,
            };
            if better {
                best = Some(i);
                best_len = kl;
            }
        }
        i = i + 1;
    }
    proof {
        match best {
            Some(b) => {
                assert(is_best(*config, path@, b as int));
                assert forall|j: int| is_best(*config, path@, j) implies j == b as int by {
                    lemma_best_unique(*config, path@, j, b as int);
                }
            },
            None => {},
        }
    }
    best
}

/// Appends `b` to the directory `a`, with one `/` between them.
fn join_path(a: &str, b: &str) -> (r: String)
    ensures
        r@ == join(a@, b@),
{
    let bl = b.unicode_len();
    let mut s: usize = 0;
    assert(b@.skip(0) =~= b@);
    while s < bl && b.get_char(s) == '/'
        invariant
            bl == b@.len(),
            s <= bl,
            strip_slashes(b@.skip(s as int)) == strip_slashes(b@),
        decreases bl - s,
    {
        assert(b@.skip(s as int).skip(1) =~= b@.skip(s + 1));
        s = s + 1;
    }
    let mut out = String::from_str(a);
    let al = a.unicode_len();
    if al > 0 && a.get_char(al - 1) != '/' {
        push_char(&mut out, '/');
    }
    out.append(b.substring_char(s, bl));
    assert(b@.subrange(s as int, bl as int) =~= b@.skip(s as int));
    out
}

/// The real path for root `i` and the remainder `rem`.
fn build_path(config: &Config, project_root: &str, i: usize, rem: &str) -> (r: String)
    requires
        i < config.projects@.len(),
    ensures
        r@ == real_path(*config, project_root@, i as int, rem@),
{
    let base = join_path(project_root, config.projects[i].1.as_str());
    if rem.unicode_len() == 0 {
        base
    } else {
        join_path(base.as_str(), rem)
    }
}

/// The position of the first `c` in `s`, or the length of `s` if none.
fn index_of(s: &str, c: char) -> (r: usize)
    ensures
        r == find_from(s@, c, 0),
{
    let len = s.unicode_len();
    let mut i: usize = 0;
    while i < len && s.get_char(i) != c
        invariant
            len == s@.len(),
            i <= len,
            find_from(s@, c, i as int) == find_from(s@, c, 0),
        decreases len - i,
    {
        i = i + 1;
    }
    i
}

/// The real path for root `i` matched against `path`.
fn resolve_match(config: &Config, project_root: &str, path: &str, i: usize) -> (r: String)
    requires
        i < config.projects@.len(),
        root_matches(path@, config.key(i as int)),
    ensures
        r@ == real_path(*config, project_root@, i as int, remainder(path@, config.key(i as int))),
{
    let pl = path.unicode_len();
    let kl = config.projects[i].0.as_str().unicode_len();
    if pl == kl {
        proof {
            if path@ != config.key(i as int) {
                assert(path@.len() >= config.key(i as int).push('/').len());
            }
        }
        proof {
            reveal_strlit("");
        }
        build_path(config, project_root, i, "")
    } else {
        proof {
            assert(path@ != config.key(i as int));
            assert(path@.len() >= config.key(i as int).push('/').len());
        }
        let rem = skip_chars(path, kl + 1);
        build_path(config, project_root, i, rem.as_str())
    }
}

/// Resolves a virtual path reported by the remote side into a real path
/// under `project_root`, or `None` when no root matches it, neither
/// directly nor once its leading sandbox segment is dropped.
pub fn resolve_path(config: &Config, virtual_path: &str, project_root: &str) -> (r: Option<String>)
    ensures
        view_of(r) == resolution(*config, virtual_path@, project_root@),
{
    let p = normalize_virtual(virtual_path);
    match find_longest_prefix(config, p.as_str()) {
        Some(i) => Some(resolve_match(config, project_root, p.as_str(), i)),
        None => {
            let pl = p.as_str().unicode_len();
            let k = index_of(p.as_str(), '/');
            if k >= pl {
                return None;
            }
            let rest = skip_chars(p.as_str(), k + 1);
            if rest.as_str().unicode_len() == 0 {
                return None;
            }
            match find_longest_prefix(config, rest.as_str()) {
                Some(i) => Some(resolve_match(config, project_root, rest.as_str(), i)),
                None => None,
            }
        }
    }
}

/// Backslashes resolve as forward slashes do: a virtual path and the same
/// path with every `\` written `/` lead to the same place.
pub proof fn lemma_backslashes_resolve_as_slashes(config: Config, virtual_path: Seq<char>, project_root: Seq<char>)
    ensures
        resolution(config, virtual_path, project_root) == resolution(
            config,
            virtual_path.map_values(|c: char| if c == '\\' { '/' } else { c }),
            project_root,
        ),
{
    let f = |c: char| if c == '\\' { '/' } else { c };
    assert(virtual_path.map_values(f).map_values(f) =~= virtual_path.map_values(f));
    assert(normalize(virtual_path) =~= normalize(virtual_path.map_values(f)));
}

/// Some root matches `path`.
pub open spec fn any_root_matches(config: Config, path: Seq<char>) -> bool {
    exists|j: int| 0 <= j < config.projects@.len() && root_matches(path, #[trigger] config.key(j))
}

/// The best root among the first `n`: the longest matching one, the
/// earliest among equally long ones.
spec fn best_upto(config: Config, path: Seq<char>, n: int) -> Option<int>
    decreases n,
{
    if n <= 0 {
        None
    } else {
        let prev = best_upto(config, path, n - 1);
        if root_matches(path, config.key(n - 1)) && (prev is None || config.key(n - 1).len() > config.key(
            prev->0,
        ).len()) {
            Some(n - 1)
        } else {
            prev
        }
    }
}

/// What `best_upto` finds is the best among the first `n` roots.
proof fn lemma_best_upto(config: Config, path: Seq<char>, n: int)
    requires
        0 <= n <= config.projects@.len(),
    ensures
        best_upto(config, path, n) is None ==> forall|j: int| 0 <= j < n ==> !root_matches(path, #[trigger] config.key(j)),
        best_upto(config, path, n) matches Some(b) ==> {
            &&& 0 <= b < n
            &&& root_matches(path, config.key(b))
            &&& forall|j: int| 0 <= j < n && root_matches(path, #[trigger] config.key(j))
                ==> config.key(j).len() <= config.key(b).len()
            &&& forall|j: int| 0 <= j < b && root_matches(path, #[trigger] config.key(j))
                ==> config.key(j).len() < config.key(b).len()
        },
    decreases n,
{
    if n > 0 {
        lemma_best_upto(config, path, n - 1);
    }
}

/// A path that some root matches has a most specific root.
proof fn lemma_match_has_best(config: Config, path: Seq<char>)
    requires
        any_root_matches(config, path),
    ensures
        lookup(config, path) is Some,
{
    let n = config.projects@.len() as int;
    lemma_best_upto(config, path, n);
    let b = best_upto(config, path, n)->0;
    assert(is_best(config, path, b));
}

/// A path that no root matches has no most specific root.
proof fn lemma_no_match_no_best(config: Config, path: Seq<char>)
    requires
        !any_root_matches(config, path),
    ensures
        lookup(config, path) is None,
{
    assert(!exists|i: int| is_best(config, path, i));
}

/// A virtual path is not found exactly when no root matches it, neither
/// directly nor once its leading segment is dropped.
pub proof fn lemma_not_found_iff_unmatched(config: Config, virtual_path: Seq<char>, project_root: Seq<char>)
    ensures
        resolution(config, virtual_path, project_root) is None <==> {
            let p = normalize(virtual_path);
            let q = after_first_segment(p);
            !any_root_matches(config, p) && (q.len() == 0 || !any_root_matches(config, q))
        },
{
    let p = normalize(virtual_path);
    let q = after_first_segment(p);
    if any_root_matches(config, p) {
        lemma_match_has_best(config, p);
    } else {
        lemma_no_match_no_best(config, p);
        if q.len() > 0 {
            if any_root_matches(config, q) {
                lemma_match_has_best(config, q);
            } else {
                lemma_no_match_no_best(config, q);
            }
        }
    }
}

/// When two roots match a path, the shorter one is never the one chosen.
pub proof fn lemma_longest_root_wins(config: Config, path: Seq<char>, i: int, j: int)
    requires
        0 <= i < config.projects@.len(),
        0 <= j < config.projects@.len(),
        root_matches(path, config.key(i)),
        root_matches(path, config.key(j)),
        config.key(i).len() < config.key(j).len(),
    ensures
        lookup(config, path) != Some(i),
{
    if lookup(config, path) == Some(i) {
        assert(is_best(config, path, i));
        assert(config.key(j).len() <= config.key(i).len());
    }
}

/// In a well-formed map two different roots never match a path with equal
/// length, so the root chosen does not depend on the order of registration.
pub proof fn lemma_no_ties_in_wf_map(config: Config, path: Seq<char>, i: int, j: int)
    requires
        config.wf(),
        0 <= i < config.projects@.len(),
        0 <= j < config.projects@.len(),
        root_matches(path, config.key(i)),
        root_matches(path, config.key(j)),
        config.key(i).len() == config.key(j).len(),
    ensures
        i == j,
{
    let ki = config.key(i);
    let kj = config.key(j);
    if path == ki {
        if path != kj {
            assert(kj.push('/').len() <= path.len());
        }
    } else if path == kj {
        assert(ki.push('/').len() <= path.len());
    } else {
        assert(path.take(ki.len() + 1int) == ki.push('/'));
        assert(path.take(kj.len() + 1int) == kj.push('/'));
        assert(ki =~= ki.push('/').drop_last());
        assert(kj =~= kj.push('/').drop_last());
    }
    if i != j {
        assert(config.key(i) != config.key(j));
    }
}

} // verus!
