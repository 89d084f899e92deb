//! The workspace roots of a session, and the root that a file belongs to.

use crate::path::{is_path_prefix, starts_with, PathStyle};
use crate::text::string_texts;
use vstd::prelude::*;

verus! {

/// The workspace roots that the editor declared, in the order in which it
/// declared them. Roots are added when the session starts and never removed.
#[derive(Debug)]
pub struct WorkspaceRegistry {
    roots: Vec<String>,
}

impl View for WorkspaceRegistry {
    type V = Seq<Seq<char>>;

    closed spec fn view(&self) -> Seq<Seq<char>> {
        string_texts(self.roots@)
    }
}

/// The roots that a session declares: its workspace folders where it names
/// any list of them, even an empty one; else its single root, if it names
/// one; else none.
pub open spec fn declared_roots(folders: Option<Seq<Seq<char>>>, root: Option<Seq<char>>) -> Seq<
    Seq<char>,
> {
    match folders {
        Some(list) => list,
        None => match root {
            Some(r) => seq![r],
            None => Seq::empty(),
        },
    }
}

/// The workspace root of the file at `path`: the first of `roots` that the
/// path lies at or below, if there is one.
pub open spec fn workspace_root(roots: Seq<Seq<char>>, path: Seq<char>, style: PathStyle) -> Option<
    Seq<char>,
>
    decreases roots.len(),
{
    if roots.len() == 0 {
        None
    } else if is_path_prefix(roots[0], path, style) {
        Some(roots[0])
    } else {
        workspace_root(roots.skip(1), path, style)
    }
}

/// Whether `i` is the first root that `path` lies at or below.
pub open spec fn is_first_root(
    roots: Seq<Seq<char>>,
    path: Seq<char>,
    style: PathStyle,
    i: int,
) -> bool {
    &&& 0 <= i < roots.len()
    &&& is_path_prefix(roots[i], path, style)
    &&& forall|j: int| 0 <= j < i ==> !is_path_prefix(#[trigger] roots[j], path, style)
}

/// Whether `path` lies at or below none of the roots.
pub open spec fn no_root(roots: Seq<Seq<char>>, path: Seq<char>, style: PathStyle) -> bool {
    forall|j: int| 0 <= j < roots.len() ==> !is_path_prefix(#[trigger] roots[j], path, style)
}

/// The texts of a list of strings that may be missing.
pub open spec fn list_texts(list: Option<Vec<String>>) -> Option<Seq<Seq<char>>> {
    match list {
        Some(v) => Some(string_texts(v@)),
        None => None,
    }
}

/// The text of a string that may be missing.
pub open spec fn string_text(s: Option<String>) -> Option<Seq<char>> {
    match s {
        Some(t) => Some(t@),
        None => None,
    }
}

/// The text of a string that may be missing, behind a reference.
pub open spec fn ref_text(s: Option<&String>) -> Option<Seq<char>> {
    match s {
        Some(t) => Some(t@),
        None => None,
    }
}

/// The first match decides, in the order of declaration: the workspace root
/// of a file is the first root that its path lies at or below, also where a
/// root declared later lies deeper; a path below no root has none.
pub proof fn lemma_workspace_root(roots: Seq<Seq<char>>, path: Seq<char>, style: PathStyle)
    ensures
        forall|i: int| #[trigger]
            is_first_root(roots, path, style, i) ==> workspace_root(roots, path, style) == Some(
                roots[i],
            ),
        no_root(roots, path, style) <==> workspace_root(roots, path, style) is None,
    decreases roots.len(),
{
    if roots.len() > 0 {
        let rest = roots.skip(1);
        lemma_workspace_root(rest, path, style);
        assert forall|i: int| #[trigger]
            is_first_root(roots, path, style, i) implies workspace_root(roots, path, style)
            == Some(roots[i]) by {
            if i > 0 {
                assert(is_first_root(rest, path, style, i - 1));
            }
        }
        if workspace_root(roots, path, style) is None {
            assert forall|j: int| 0 <= j < roots.len() implies !is_path_prefix(
                #[trigger] roots[j],
                path,
                style,
            ) by {
                if j > 0 {
                    assert(roots[j] == rest[j - 1]);
                }
            }
        }
    }
}

impl WorkspaceRegistry {
    /// A registry without roots.
    pub fn new() -> (registry: WorkspaceRegistry)
        ensures
            registry@ == Seq::<Seq<char>>::empty(),
    {
        WorkspaceRegistry { roots: Vec::new() }
    }

    /// Adds the roots that a session declares, behind those that are there:
    /// the roots that were there stay, in their places.
    pub fn initialize(&mut self, folders: Option<Vec<String>>, root: Option<String>)
        ensures
            final(self)@ == old(self)@ + declared_roots(list_texts(folders), string_text(root)),
            old(self)@.is_prefix_of(final(self)@),
    {
        match folders {
            Some(list) => {
                let mut list = list;
                self.roots.append(&mut list);
            },
            None => {
                if let Some(r) = root {
                    self.roots.push(r);
                }
            },
        }
    }

    /// The roots, in the order of their declaration.
    pub fn roots(&self) -> (roots: &Vec<String>)
        ensures
            string_texts(roots@) == self@,
    {
        &self.roots
    }

    /// The workspace root of the file at `path`: the first root, in the order
    /// of their declaration, that the path lies at or below. A root declared
    /// earlier wins over one that lies deeper.
    pub fn root_for(&self, path: &str, style: PathStyle) -> (root: Option<&String>)
        ensures
            ref_text(root) == workspace_root(self@, path@, style),
            match root {
                Some(r) => exists|i: int|
                    #[trigger] is_first_root(self@, path@, style, i) && r@ == self@[i],
                None => no_root(self@, path@, style),
            },
    {
        let mut i: usize = 0;
        while i < self.roots.len()
            invariant
                i <= self.roots.len(),
                forall|j: int| 0 <= j < i ==> !is_path_prefix(#[trigger] self@[j], path@, style),
            decreases self.roots.len() - i,
        {
            if starts_with(path, self.roots[i].as_str(), style) {
                proof {
                    lemma_workspace_root(self@, path@, style);
                    assert(is_first_root(self@, path@, style, i as int));
                }
                return Some(&self.roots[i]);
            }
            i += 1;
        }
        proof {
            lemma_workspace_root(self@, path@, style);
        }
        None
    }
}

} // verus!
