//! The documentation tree: where the org, initiative, project, component
//! and governance documents live under the docs root, and which directory
//! entries count as documents.

use vstd::prelude::*;
use crate::text::{cat, sorted_distinct, strictly_ascending, views};

verus! {

/// The documentation tree rooted at `root` (a filesystem path).
pub struct DocsTree {
    pub root: String,
}

/// Path `p` is absolute.
pub open spec fn is_absolute(p: Seq<char>) -> bool {
    p.len() > 0 && p[0] == '/'
}

/// `base` joined with `part`, as `Path::join` does on Unix: an absolute
/// `part` replaces `base`; otherwise a separator goes between them unless
/// `base` is empty or already ends with one.
pub open spec fn path_join(base: Seq<char>, part: Seq<char>) -> Seq<char> {
    if is_absolute(part) {
        part
    } else if base.len() == 0 {
        part
    } else if base.last() == '/' {
        base + part
    } else {
        base + seq!['/'] + part
    }
}

/// See `path_join`.
pub fn join_path(base: &str, part: &str) -> (r: String)
    ensures
        r@ == path_join(base@, part@),
{
    let pv = crate::text::chars_of(part);
    if pv.len() > 0 && pv[0] == '/' {
        return String::from_str(part);
    }
    let bv = crate::text::chars_of(base);
    if bv.len() == 0 {
        String::from_str(part)
    } else if bv[bv.len() - 1] == '/' {
        cat(base, part)
    } else {
        let with_sep = cat(base, "/");
        proof {
            reveal_strlit("/");
        }
        cat(with_sep.as_str(), part)
    }
}

impl DocsTree {
    /// A tree rooted at `root`.
    pub fn new(root: String) -> (t: Self)
        ensures
            t.root == root,
    {
        DocsTree { root }
    }

    /// The org document: `org.md` under the root.
    pub fn org_path(&self) -> (p: String)
        ensures
            p@ == path_join(self.root@, "org.md"@),
    {
        join_path(self.root.as_str(), "org.md")
    }

    /// The directory of the initiative documents.
    pub fn initiatives_dir(&self) -> (p: String)
        ensures
            p@ == path_join(self.root@, "initiatives"@),
    {
        join_path(self.root.as_str(), "initiatives")
    }

    /// The directory of a project's documents.
    pub fn project_dir(&self, project: &str) -> (p: String)
        ensures
            p@ == path_join(path_join(self.root@, "projects"@), project@),
    {
        let projects = join_path(self.root.as_str(), "projects");
        join_path(projects.as_str(), project)
    }

    /// A project's document: `project.md` in its directory.
    pub fn project_path(&self, project: &str) -> (p: String)
        ensures
            p@ == path_join(path_join(path_join(self.root@, "projects"@), project@), "project.md"@),
    {
        let dir = self.project_dir(project);
        join_path(dir.as_str(), "project.md")
    }

    /// A component's document: `component.md` in the component's directory
    /// under its project.
    pub fn component_path(&self, project: &str, component_path: &str) -> (p: String)
        ensures
            p@ == path_join(
                path_join(path_join(path_join(self.root@, "projects"@), project@), component_path@),
                "component.md"@,
            ),
    {
        let dir = self.project_dir(project);
        let comp = join_path(dir.as_str(), component_path);
        join_path(comp.as_str(), "component.md")
    }

    /// The governance configuration: `governance.yaml` under the root.
    pub fn governance_config_path(&self) -> (p: String)
        ensures
            p@ == path_join(self.root@, "governance.yaml"@),
    {
        join_path(self.root.as_str(), "governance.yaml")
    }
}

/// The file name `name` has the extension `md`, as `Path::extension`
/// reads it: the text after the last dot, where that dot is not the
/// first character.
pub open spec fn is_markdown_name(name: Seq<char>) -> bool {
    exists|i: int|
        0 < i < name.len() && name[i] == '.' && (forall|j: int| i < j < name.len() ==> name[j] != '.')
            && #[trigger] name.subrange(i + 1, name.len() as int) == "md"@
}

/// Whether the file name `name` has the extension `md`.
pub fn is_markdown(name: &str) -> (r: bool)
    ensures
        r == is_markdown_name(name@),
{
    proof {
        reveal_strlit("md");
    }
    let v = crate::text::chars_of(name);
    let n = v.len();
    if n < 4 {
        proof {
            assert forall|i: int|
                0 < i < name@.len() && name@[i] == '.' && (forall|j: int| i < j < name@.len() ==> name@[j] != '.')
                    implies name@.subrange(i + 1, name@.len() as int) != "md"@ by {
                if name@.subrange(i + 1, name@.len() as int) == "md"@ {
                    assert(name@.subrange(i + 1, name@.len() as int).len() == 2);
                }
            }
        }
        return false;
    }
    let ok = v[n - 3] == '.' && v[n - 2] == 'm' && v[n - 1] == 'd';
    proof {
        if ok {
            let i = n - 3;
            assert(name@.subrange(i + 1, n as int) =~= "md"@);
        } else {
            assert forall|i: int|
                0 < i < name@.len() && name@[i] == '.' && (forall|j: int| i < j < name@.len() ==> name@[j] != '.')
                    implies name@.subrange(i + 1, name@.len() as int) != "md"@ by {
                if name@.subrange(i + 1, name@.len() as int) == "md"@ {
                    assert(name@.subrange(i + 1, name@.len() as int).len() == 2);
                    assert(i == n - 3);
                    assert(name@[n - 2] == name@.subrange(i + 1, name@.len() as int)[0]);
                    assert(name@[n - 1] == name@.subrange(i + 1, name@.len() as int)[1]);
                }
            }
        }
    }
    ok
}

/// The components of a project, given its subdirectories each with
/// whether it holds a `component.md`: the names of those that do, in
/// ascending order, each once.
pub fn component_names(entries: &Vec<(String, bool)>) -> (r: Vec<String>)
    ensures
        strictly_ascending(views(r@)),
        forall|x: Seq<char>|
            views(r@).contains(x) <==> exists|i: int|
                0 <= i < entries@.len() && (#[trigger] entries@[i]).1 && entries@[i].0@ == x,
{
    let mut names: Vec<String> = Vec::new();
    for i in 0..entries.len()
        invariant
            forall|x: Seq<char>|
                #[trigger] views(names@).contains(x) <==> exists|m: int|
                    0 <= m < i && (#[trigger] entries@[m]).1 && entries@[m].0@ == x,
    {
        let ghost before = names@;
        if entries[i].1 {
            names.push(entries[i].0.clone());
            proof {
                assert(views(names@) =~= views(before).push(entries@[i as int].0@));
                crate::text::lemma_contains_push(views(before), entries@[i as int].0@);
            }
        }
        proof {
            assert forall|x: Seq<char>|
                #[trigger] views(names@).contains(x) <==> exists|m: int|
                    0 <= m < i + 1 && (#[trigger] entries@[m]).1 && entries@[m].0@ == x by {
                if exists|m: int| 0 <= m < i + 1 && (#[trigger] entries@[m]).1 && entries@[m].0@ == x {
                    let m = choose|m: int| 0 <= m < i + 1 && (#[trigger] entries@[m]).1 && entries@[m].0@ == x;
                    if m < i {
                        assert(views(before).contains(x));
                    }
                }
                if views(before).contains(x) {
                    let m = choose|m: int| 0 <= m < i && (#[trigger] entries@[m]).1 && entries@[m].0@ == x;
                    assert(0 <= m < i + 1 && entries@[m].1 && entries@[m].0@ == x);
                }
            }
        }
    }
    sorted_distinct(&names)
}

} // verus!
