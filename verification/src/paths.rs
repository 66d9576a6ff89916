//! Paths as texts, with `/` between their components.

use vstd::prelude::*;

use crate::text::chars_of;

verus! {

/// The path `name` under the directory `directory`; an absolute `name` stands alone.
pub open spec fn joined(directory: Seq<char>, name: Seq<char>) -> Seq<char> {
    if name.len() > 0 && name[0] == '/' {
        name
    } else if directory.len() == 0 || directory.last() == '/' {
        directory + name
    } else {
        directory.push('/') + name
    }
}

/// The path `name` under the directory `directory`.
pub fn join(directory: &str, name: &str) -> (r: String)
    ensures
        r@ == joined(directory@, name@),
{
    let d: Vec<char> = chars_of(directory);
    let n: Vec<char> = chars_of(name);
    if n.len() > 0 && n[0] == '/' {
        return name.to_string();
    }
    let mut r: String = directory.to_string();
    if d.len() > 0 && d[d.len() - 1] != '/' {
        r.push('/');
    }
    r.append(name);
    r
}

/// The greatest index below `end` at which `s` has a slash.
pub open spec fn last_slash(s: Seq<char>, end: int) -> Option<int>
    decreases end,
{
    if end <= 0 || end > s.len() {
        None
    } else if s[end - 1] == '/' {
        Some(end - 1)
    } else {
        last_slash(s, end - 1)
    }
}

/// `last_slash` gives the last slash before `end`, and none only where there is none.
pub proof fn lemma_last_slash(s: Seq<char>, end: int)
    requires
        0 <= end <= s.len(),
    ensures
        match last_slash(s, end) {
            Some(i) => 0 <= i < end && s[i] == '/' && forall|j: int| i < j < end ==> s[j] != '/',
            None => forall|j: int| 0 <= j < end ==> s[j] != '/',
        },
    decreases end,
{
    if end > 0 && s[end - 1] != '/' {
        lemma_last_slash(s, end - 1);
    }
}

/// The last slash in `s` before `end`.
pub fn find_last_slash(s: &Vec<char>, end: usize) -> (r: Option<usize>)
    requires
        end <= s@.len(),
    ensures
        match r {
            Some(i) => last_slash(s@, end as int) == Some(i as int),
            None => last_slash(s@, end as int) is None,
        },
{
    let mut i: usize = end;
    while i > 0
        invariant
            i <= end <= s@.len(),
            last_slash(s@, end as int) == last_slash(s@, i as int),
        decreases i,
    {
        if s[i - 1] == '/' {
            return Some(i - 1);
        }
        i = i - 1;
    }
    None
}

/// `path` without the slashes and the `.` components at its end.
pub open spec fn trim_path(path: Seq<char>) -> Seq<char>
    decreases path.len(),
{
    if path.len() > 0 && path.last() == '/' {
        trim_path(path.drop_last())
    } else if path.len() > 1 && path.last() == '.' && path[path.len() - 2] == '/' {
        trim_path(path.drop_last())
    } else {
        path
    }
}

/// An absolute path without its last component; the root has no parent.
pub open spec fn parent(path: Seq<char>) -> Option<Seq<char>> {
    let trimmed = trim_path(path);
    match last_slash(trimmed, trimmed.len() as int) {
        None => None,
        Some(i) => {
            let directory = trim_path(trimmed.take(i));
            Some(
                if directory.len() == 0 {
                    seq!['/']
                } else {
                    directory
                },
            )
        },
    }
}

/// How many of the first `end` characters of `path` are left when the slashes and
/// the `.` components at their end are gone.
fn trimmed_end(path: &Vec<char>, end: usize) -> (r: usize)
    requires
        end <= path@.len(),
    ensures
        r <= end,
        trim_path(path@.take(end as int)) == path@.take(r as int),
{
    let mut n: usize = end;
    while n > 0 && (path[n - 1] == '/' || (n > 1 && path[n - 1] == '.' && path[n - 2] == '/'))
        invariant
            n <= end <= path@.len(),
            trim_path(path@.take(end as int)) == trim_path(path@.take(n as int)),
        decreases n,
    {
        proof {
            assert(path@.take(n as int).drop_last() =~= path@.take(n - 1));
        }
        n = n - 1;
    }
    n
}

/// The parent of an absolute path.
pub fn parent_of(path: &str) -> (r: Option<String>)
    ensures
        match r {
            Some(p) => parent(path@) == Some(p@),
            None => parent(path@) is None,
        },
{
    let cs: Vec<char> = chars_of(path);
    proof {
        assert(path@.take(path@.len() as int) =~= path@);
    }
    let end: usize = trimmed_end(&cs, cs.len());
    let ghost t = path@.take(end as int);
    proof {
        lemma_last_slash(t, end as int);
        lemma_last_slash(path@, end as int);
        lemma_same_slash(path@, end as int, end as int);
    }
    match find_last_slash(&cs, end) {
        None => None,
        Some(i) => {
            let d: usize = trimmed_end(&cs, i);
            proof {
                assert(t.take(i as int) =~= path@.take(i as int));
            }
            if d == 0 {
                proof {
                    reveal_strlit("/");
                    assert("/"@ =~= seq!['/']);
                }
                Some("/".to_string())
            } else {
                proof {
                    assert(path@.take(d as int) =~= path@.subrange(0, d as int));
                }
                Some(path.substring_char(0, d).to_string())
            }
        },
    }
}

/// What stands behind `end` does not matter to the last slash before it.
proof fn lemma_same_slash(s: Seq<char>, n: int, end: int)
    requires
        0 <= end <= n <= s.len(),
    ensures
        last_slash(s.take(n), end) == last_slash(s, end),
    decreases end,
{
    if end > 0 && s[end - 1] != '/' {
        lemma_same_slash(s, n, end - 1);
    }
}

} // verus!
