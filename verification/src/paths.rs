//! Paths as text. Components are separated by `/`; a relative path does not
//! start with one.

use crate::text::{push_char, push_chars, to_chars};
use vstd::prelude::*;
use vstd::string::StringExecFns;

verus! {

/// The character that separates the components of a path.
pub const SEPARATOR: char = '/';

/// `s` without the separators it starts with.
pub open spec fn skip_separators(s: Seq<char>) -> Seq<char>
    decreases s.len(),
{
    if s.len() > 0 && s[0] == SEPARATOR {
        skip_separators(s.skip(1))
    } else {
        s
    }
}

/// A path is relative when it does not start with a separator.
pub open spec fn is_relative(path: Seq<char>) -> bool {
    path.len() == 0 || path[0] != SEPARATOR
}

/// The number of characters of `s` before its first separator.
pub open spec fn component_len(s: Seq<char>) -> nat
    decreases s.len(),
{
    if s.len() == 0 || s[0] == SEPARATOR {
        0
    } else {
        1 + component_len(s.skip(1))
    }
}

/// Some component of `path` is `..`, the step to the directory above.
pub open spec fn has_parent_step(path: Seq<char>) -> bool
    decreases path.len(),
{
    if path.len() == 0 {
        false
    } else {
        let n = component_len(path) as int;
        path.take(n) == seq!['.', '.'] || (n < path.len() && has_parent_step(path.skip(n + 1)))
    }
}

/// A path stays below the place it is put at when it is relative and never
/// steps to the directory above.
pub open spec fn stays_below(path: Seq<char>) -> bool {
    is_relative(path) && !has_parent_step(path)
}

/// `path` below `root`: what is left of `path` once `root` and the separators
/// after it are taken off. `None` where `root` is not a leading run of whole
/// components of `path`, and where what is left steps to a directory above.
pub open spec fn relative_to_spec(path: Seq<char>, root: Seq<char>) -> Option<Seq<char>> {
    if !root.is_prefix_of(path) {
        None
    } else {
        let rest = path.skip(root.len() as int);
        if root.len() > 0 && root.last() != SEPARATOR && rest.len() > 0 && rest[0] != SEPARATOR {
            None
        } else if has_parent_step(skip_separators(rest)) {
            None
        } else {
            Some(skip_separators(rest))
        }
    }
}

/// `relative` placed below `root`.
pub open spec fn join_spec(root: Seq<char>, relative: Seq<char>) -> Seq<char> {
    if root.len() == 0 {
        relative
    } else if root.last() == SEPARATOR {
        root + relative
    } else {
        root.push(SEPARATOR) + relative
    }
}

/// Where the last component of `path` starts: after its last separator, or
/// at 0 if it has none.
pub open spec fn name_start(path: Seq<char>) -> int
    decreases path.len(),
{
    if path.len() == 0 || path.last() == SEPARATOR {
        path.len() as int
    } else {
        name_start(path.drop_last())
    }
}

/// The last component of `path`; empty where `path` ends in a separator.
pub open spec fn file_name_spec(path: Seq<char>) -> Seq<char> {
    path.skip(name_start(path))
}

/// `dest` lies under `root`: it is `root` followed by a relative path that
/// never steps to a directory above.
pub open spec fn lies_under(dest: Seq<char>, root: Seq<char>) -> bool {
    exists|relative: Seq<char>| stays_below(relative) && dest == #[trigger] join_spec(root, relative)
}

/// The last component starts inside the path, right after a separator or at
/// the start, and holds no separator.
pub proof fn lemma_name_start(path: Seq<char>)
    ensures
        0 <= name_start(path) <= path.len(),
        name_start(path) > 0 ==> path[name_start(path) - 1] == SEPARATOR,
        forall|i: int| name_start(path) <= i < path.len() ==> path[i] != SEPARATOR,
    decreases path.len(),
{
    if path.len() == 0 || path.last() == SEPARATOR {
    } else {
        let front = path.drop_last();
        lemma_name_start(front);
        assert forall|i: int| name_start(path) <= i < path.len() implies path[i] != SEPARATOR by {
            if i < front.len() {
                assert(path[i] == front[i]);
            }
        }
        if name_start(path) > 0 {
            assert(path[name_start(path) - 1] == front[name_start(front) - 1]);
        }
    }
}

/// Taking a joined path apart again gives back the relative part.
pub proof fn lemma_join_then_relative(root: Seq<char>, relative: Seq<char>)
    requires
        stays_below(relative),
    ensures
        relative_to_spec(join_spec(root, relative), root) == Some(relative),
        lies_under(join_spec(root, relative), root),
{
    let joined = join_spec(root, relative);
    assert(skip_separators(relative) == relative);
    assert(joined.subrange(0, root.len() as int) =~= root);
    if root.len() == 0 {
        assert(joined.skip(0) =~= relative);
    } else if root.last() == SEPARATOR {
        assert(joined.skip(root.len() as int) =~= relative);
    } else {
        let rest = joined.skip(root.len() as int);
        assert(rest =~= seq![SEPARATOR] + relative);
        assert(rest.skip(1) =~= relative);
    }
}

/// What `relative_to_spec` gives stays below the place it is put at.
pub proof fn lemma_relative_is_relative(path: Seq<char>, root: Seq<char>)
    requires
        relative_to_spec(path, root) is Some,
    ensures
        stays_below(relative_to_spec(path, root)->0),
{
    lemma_skip_separators(path.skip(root.len() as int));
}

/// `skip_separators` gives a relative path that is the end of its argument.
pub proof fn lemma_skip_separators(s: Seq<char>)
    ensures
        is_relative(skip_separators(s)),
        skip_separators(s).len() <= s.len(),
        skip_separators(s) == s.skip(s.len() - skip_separators(s).len()),
        forall|i: int| 0 <= i < s.len() - skip_separators(s).len() ==> s[i] == SEPARATOR,
    decreases s.len(),
{
    if s.len() > 0 && s[0] == SEPARATOR {
        let t = s.skip(1);
        lemma_skip_separators(t);
        let r = skip_separators(t);
        assert(t.skip(t.len() - r.len()) =~= s.skip(s.len() - r.len()));
        assert forall|i: int| 0 <= i < s.len() - r.len() implies s[i] == SEPARATOR by {
            if i > 0 {
                assert(s[i] == t[i - 1]);
            }
        }
    } else {
        assert(s.skip(0) =~= s);
    }
}

/// A stretch without separator that ends at a separator or at the end of
/// the text is the first component.
pub proof fn lemma_component_len(s: Seq<char>, n: int)
    requires
        0 <= n <= s.len(),
        forall|j: int| 0 <= j < n ==> s[j] != SEPARATOR,
        n == s.len() || s[n] == SEPARATOR,
    ensures
        component_len(s) == n,
    decreases n,
{
    if n > 0 {
        lemma_component_len(s.skip(1), n - 1);
    }
}

/// Whether some component of `v[from..]` is `..`.
fn steps_above(v: &Vec<char>, from: usize) -> (r: bool)
    requires
        from <= v.len(),
    ensures
        r == has_parent_step(v@.skip(from as int)),
{
    let mut pos: usize = from;
    while pos < v.len()
        invariant
            from <= pos <= v.len(),
            has_parent_step(v@.skip(from as int)) == has_parent_step(v@.skip(pos as int)),
        decreases v.len() - pos,
    {
        let ghost rest = v@.skip(pos as int);
        let mut end: usize = pos;
        while end < v.len() && v[end] != SEPARATOR
            invariant
                pos <= end <= v.len(),
                forall|j: int| pos <= j < end ==> v@[j] != SEPARATOR,
            decreases v.len() - end,
        {
            end = end + 1;
        }
        proof {
            lemma_component_len(rest, end - pos);
            assert(rest.take(end - pos) =~= v@.subrange(pos as int, end as int));
        }
        if end - pos == 2 && v[pos] == '.' && v[pos + 1] == '.' {
            proof {
                assert(v@.subrange(pos as int, end as int) =~= seq!['.', '.']);
            }
            return true;
        }
        proof {
            let part = v@.subrange(pos as int, end as int);
            if part == seq!['.', '.'] {
                assert(part.len() == 2);
                assert(part[0] == '.' && part[1] == '.');
            }
        }
        if end < v.len() {
            proof {
                assert(rest.skip(end - pos + 1) =~= v@.skip(end + 1));
            }
            pos = end + 1;
        } else {
            proof {
                assert(v@.skip(v@.len() as int) =~= Seq::<char>::empty());
            }
            pos = end;
        }
    }
    proof {
        assert(v@.skip(pos as int) =~= Seq::<char>::empty());
    }
    false
}

/// Whether `v` starts with `prefix`.
fn starts_with(v: &Vec<char>, prefix: &Vec<char>) -> (r: bool)
    ensures
        r == prefix@.is_prefix_of(v@),
{
    if prefix.len() > v.len() {
        return false;
    }
    let mut i: usize = 0;
    while i < prefix.len()
        invariant
            i <= prefix.len() <= v.len(),
            forall|j: int| 0 <= j < i ==> prefix@[j] == v@[j],
        decreases prefix.len() - i,
    {
        if prefix[i] != v[i] {
            return false;
        }
        i = i + 1;
    }
    proof {
        assert(prefix@ =~= v@.subrange(0, prefix@.len() as int));
    }
    true
}

/// The path of `path` relative to `root`, or `None` if `path` does not lie
/// under `root` or steps out of it.
pub fn relative_to(path: &str, root: &str) -> (r: Option<String>)
    ensures
        match r {
            Some(rel) => relative_to_spec(path@, root@) == Some(rel@),
            None => relative_to_spec(path@, root@) is None,
        },
{
    let p = to_chars(path);
    let b = to_chars(root);
    if !starts_with(&p, &b) {
        return None;
    }
    let n: usize = b.len();
    if n > 0 && b[n - 1] != SEPARATOR && p.len() > n && p[n] != SEPARATOR {
        return None;
    }
    let ghost rest = p@.skip(n as int);
    let mut i: usize = n;
    while i < p.len() && p[i] == SEPARATOR
        invariant
            n <= i <= p.len(),
            rest == p@.skip(n as int),
            skip_separators(rest) == skip_separators(p@.skip(i as int)),
        decreases p.len() - i,
    {
        proof {
            assert(p@.skip(i as int).skip(1) =~= p@.skip(i + 1));
        }
        i = i + 1;
    }
    if steps_above(&p, i) {
        return None;
    }
    let mut s = String::new();
    push_chars(&mut s, &p, i, p.len());
    proof {
        assert(p@.subrange(i as int, p.len() as int) =~= p@.skip(i as int));
        assert(s@ =~= p@.skip(i as int));
    }
    Some(s)
}

/// `relative` placed below `root`.
pub fn join(root: &str, relative: &str) -> (s: String)
    ensures
        s@ == join_spec(root@, relative@),
{
    let b = to_chars(root);
    let mut s = String::from_str(root);
    if b.len() > 0 && b[b.len() - 1] != SEPARATOR {
        push_char(&mut s, SEPARATOR);
    }
    s.append(relative);
    s
}

/// The last component of `path`, or `None` where there is none.
pub fn file_name(path: &str) -> (r: Option<String>)
    ensures
        match r {
            Some(name) => name@ == file_name_spec(path@) && name@.len() > 0,
            None => file_name_spec(path@).len() == 0,
        },
{
    let p = to_chars(path);
    let mut i: usize = p.len();
    proof {
        assert(p@.take(p.len() as int) =~= p@);
    }
    while i > 0 && p[i - 1] != SEPARATOR
        invariant
            i <= p.len(),
            p@ == path@,
            name_start(p@) == name_start(p@.take(i as int)),
        decreases i,
    {
        proof {
            assert(p@.take(i as int).drop_last() =~= p@.take(i - 1));
        }
        i = i - 1;
    }
    if i == p.len() {
        return None;
    }
    let mut s = String::new();
    push_chars(&mut s, &p, i, p.len());
    proof {
        assert(p@.subrange(i as int, p.len() as int) =~= p@.skip(i as int));
        assert(s@ =~= p@.skip(i as int));
    }
    Some(s)
}

} // verus!
