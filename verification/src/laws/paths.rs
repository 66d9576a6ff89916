//! Laws of paths.

use vstd::prelude::*;

use crate::paths::{joined, last_slash, lemma_last_slash, parent, trim_path};

verus! {

/// A name is put under a directory with one slash between them, unless the directory ends
/// in one or is empty; an absolute name stands alone.
pub proof fn law_joined(directory: Seq<char>, name: Seq<char>)
    ensures
        "/"@.is_prefix_of(name) ==> joined(directory, name) == name,
        !"/"@.is_prefix_of(name) && (directory.len() == 0 || directory.last() == '/') ==> joined(
            directory,
            name,
        ) == directory + name,
        !"/"@.is_prefix_of(name) && directory.len() > 0 && directory.last() != '/' ==> joined(
            directory,
            name,
        ) == directory + "/"@ + name,
{
    reveal_strlit("/");
    if name.len() > 0 && name[0] == '/' {
        assert(name.subrange(0, 1) =~= "/"@);
    }
    if "/"@.is_prefix_of(name) {
        assert(name.subrange(0, 1)[0] == name[0]);
    }
    assert(directory.push('/') + name =~= directory + "/"@ + name);
}

/// `directory` has neither a slash nor a `.` component at its end.
pub open spec fn ends_in_a_name(directory: Seq<char>) -> bool {
    &&& directory.len() > 0 ==> directory.last() != '/'
    &&& directory.len() > 1 ==> !(directory.last() == '.' && directory[directory.len() - 2] == '/')
}

/// `name` is a component of a path: not empty, without a slash, and no single dot.
pub open spec fn is_component(name: Seq<char>) -> bool {
    &&& name.len() > 0
    &&& forall|i: int| 0 <= i < name.len() ==> (#[trigger] name[i]) != '/'
    &&& !(name.len() == 1 && name[0] == '.')
}

proof fn lemma_parent(directory: Seq<char>, name: Seq<char>)
    requires
        is_component(name),
    ensures
        parent(directory + seq!['/'] + name) == Some(
            if trim_path(directory).len() == 0 {
                seq!['/']
            } else {
                trim_path(directory)
            },
        ),
{
    let path = directory + seq!['/'] + name;
    let n = path.len() as int;
    assert(path.last() == name.last());
    if name.len() > 1 {
        assert(path[n - 2] == name[name.len() - 2]);
    }
    assert(trim_path(path) == path);
    lemma_last_slash(path, n);
    assert(path[directory.len() as int] == '/');
    assert forall|j: int| directory.len() < j < n implies path[j] != '/' by {
        assert(path[j] == name[j - directory.len() - 1]);
    }
    assert(last_slash(path, n) == Some(directory.len() as int));
    assert(path.take(directory.len() as int) =~= directory);
}

/// The parent of a path is what stands before its last component, and the root before the
/// first.
pub proof fn law_parent(directory: Seq<char>, name: Seq<char>)
    requires
        is_component(name),
        ends_in_a_name(directory),
    ensures
        parent(directory + seq!['/'] + name) == Some(
            if directory.len() == 0 {
                seq!['/']
            } else {
                directory
            },
        ),
{
    lemma_parent(directory, name);
}

/// Slashes and single dots at the end of a path, or before its last component, do not
/// matter to its parent.
pub proof fn law_parent_ignores_dots(path: Seq<char>, name: Seq<char>)
    requires
        is_component(name),
    ensures
        parent(path.push('/')) == parent(path),
        parent(path + seq!['/', '.']) == parent(path),
        parent(path.push('/') + seq!['/'] + name) == parent(path + seq!['/'] + name),
        parent(path + seq!['/', '.'] + seq!['/'] + name) == parent(path + seq!['/'] + name),
{
    let slash = path.push('/');
    let dot = path + seq!['/', '.'];
    assert(slash.drop_last() =~= path);
    assert(trim_path(slash) == trim_path(path));
    assert(dot.drop_last() =~= slash);
    assert(trim_path(dot) == trim_path(path));
    lemma_parent(path, name);
    lemma_parent(slash, name);
    lemma_parent(dot, name);
}

/// The root has no parent, however often its slash is written; neither has what is empty.
pub proof fn law_root_has_no_parent(path: Seq<char>)
    requires
        forall|i: int| 0 <= i < path.len() ==> (#[trigger] path[i]) == '/',
    ensures
        parent(path) is None,
    decreases path.len(),
{
    if path.len() > 0 {
        let rest = path.drop_last();
        assert(path[path.len() - 1] == '/');
        assert forall|i: int| 0 <= i < rest.len() implies (#[trigger] rest[i]) == '/' by {
            assert(rest[i] == path[i]);
        }
        law_root_has_no_parent(rest);
    }
}

} // verus!
