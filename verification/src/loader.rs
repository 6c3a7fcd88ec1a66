//! Where the agent instructions of a repository are, and how they are put
//! together.

use vstd::prelude::*;

use std::path::Path;

use crate::text::{append_str, copy_str, trim_end_spec, trim_end_string};

verus! {

/// The directories `Path::ancestors` yields for a path: the path itself,
/// then each parent in turn.
pub uninterp spec fn ancestors_of(path: Seq<char>) -> Seq<Seq<char>>;

/// Whether a path starts with a base, component by component
/// (`Path::starts_with`).
pub uninterp spec fn path_starts_with(path: Seq<char>, base: Seq<char>) -> bool;

/// A path with a name added below it (`Path::join`).
pub uninterp spec fn joined_path(base: Seq<char>, name: Seq<char>) -> Seq<char>;

/// The ancestors of a path (`Path::ancestors`).  As its documentation
/// says, there is always at least one, the path itself first, and each
/// further one is the one before without its final component, so the path
/// starts with every one of them.
#[verifier::external_body]
fn path_ancestors(path: &str) -> (r: Vec<String>)
    ensures
        r@.map_values(|a: String| a@) == ancestors_of(path@),
        r@.len() > 0,
        r@[0]@ == path@,
        forall|i: int| 0 <= i < r@.len() ==> path_starts_with(path@, #[trigger] r@[i]@),
{
    Path::new(path).ancestors().map(|a| a.display().to_string()).collect()
}

/// Whether `path` starts with `base`, component by component
/// (`Path::starts_with`).
#[verifier::external_body]
fn starts_with_path(path: &str, base: &str) -> (r: bool)
    ensures
        r == path_starts_with(path@, base@),
{
    Path::new(path).starts_with(base)
}

/// `name` below `base` (`Path::join`).
#[verifier::external_body]
pub(crate) fn join_path(base: &str, name: &str) -> (r: String)
    ensures
        r@ == joined_path(base@, name@),
{
    Path::new(base).join(name).display().to_string()
}

/// The name of an agent instructions file.
pub open spec fn agents_file() -> Seq<char> {
    "AGENTS.md"@
}

/// The first of `directories` from position `i` on that is marked as holding
/// a repository (a directory without a mark is taken not to), or `fallback`.
pub open spec fn first_marked_from(
    directories: Seq<Seq<char>>,
    marks: Seq<bool>,
    fallback: Seq<char>,
    i: int,
) -> Seq<char>
    decreases directories.len() - i,
{
    if i < 0 || i >= directories.len() {
        fallback
    } else if i < marks.len() && marks[i] {
        directories[i]
    } else {
        first_marked_from(directories, marks, fallback, i + 1)
    }
}

/// The first of `directories` that is marked as holding a repository, or
/// `fallback`.
pub open spec fn first_marked(
    directories: Seq<Seq<char>>,
    marks: Seq<bool>,
    fallback: Seq<char>,
) -> Seq<char> {
    first_marked_from(directories, marks, fallback, 0)
}

/// How many directories from position `i` on lie under `root`, before the
/// first that does not.
pub open spec fn leading_under_from(directories: Seq<Seq<char>>, root: Seq<char>, i: int) -> nat
    decreases directories.len() - i,
{
    if 0 <= i < directories.len() && path_starts_with(directories[i], root) {
        1 + leading_under_from(directories, root, i + 1)
    } else {
        0
    }
}

/// How many of the first directories lie under `root`.
pub open spec fn leading_under(directories: Seq<Seq<char>>, root: Seq<char>) -> nat {
    leading_under_from(directories, root, 0)
}

/// Where agent instructions may be found: in each directory from `root`
/// down to `cwd`, outermost first.
pub open spec fn agent_candidates(cwd: Seq<char>, root: Seq<char>) -> Seq<Seq<char>> {
    let ancestors = ancestors_of(cwd);
    let k = leading_under(ancestors, root);
    Seq::new(k, |i: int| joined_path(ancestors[k - 1 - i], agents_file()))
}

/// One instructions file as it is shown: its path, a colon, and its text
/// without trailing whitespace.
pub open spec fn agent_section(path: Seq<char>, contents: Seq<char>) -> Seq<char> {
    path + ":\n"@ + trim_end_spec(contents)
}

/// The instructions files shown one after another, separated by blank
/// lines.
pub open spec fn agents_text(files: Seq<(Seq<char>, Seq<char>)>) -> Seq<char>
    decreases files.len(),
{
    if files.len() == 0 {
        Seq::<char>::empty()
    } else if files.len() == 1 {
        agent_section(files[0].0, files[0].1)
    } else {
        agents_text(files.drop_last()) + "\n\n"@ + agent_section(files.last().0, files.last().1)
    }
}

/// Finds a repository's agent instructions from a working directory.
#[derive(Clone, Debug)]
pub struct Loader {
    cwd: String,
}

impl Loader {
    /// The working directory.
    pub closed spec fn directory(&self) -> Seq<char> {
        self.cwd@
    }

    /// A loader working from `cwd`.
    pub fn with_cwd(cwd: &str) -> (r: Loader)
        ensures
            r.directory() == cwd@,
    {
        Loader { cwd: copy_str(cwd) }
    }

    /// The working directory.
    pub fn cwd(&self) -> (r: &str)
        ensures
            r@ == self.directory(),
    {
        self.cwd.as_str()
    }

    /// The working directory and its parents, innermost first: the
    /// working directory itself first, and each one a directory that the
    /// working directory lies under.
    pub fn ancestors(&self) -> (r: Vec<String>)
        ensures
            r@.map_values(|a: String| a@) == ancestors_of(self.directory()),
            ancestors_of(self.directory()).len() > 0,
            ancestors_of(self.directory())[0] == self.directory(),
            forall|i: int|
                0 <= i < ancestors_of(self.directory()).len() ==> path_starts_with(
                    self.directory(),
                    #[trigger] ancestors_of(self.directory())[i],
                ),
    {
        let r = path_ancestors(self.cwd.as_str());
        proof {
            let all = r@.map_values(|a: String| a@);
            assert forall|i: int| 0 <= i < all.len() implies path_starts_with(
                self.directory(),
                #[trigger] all[i],
            ) by {
                assert(all[i] == r@[i]@);
            }
            assert(all[0] == r@[0]@);
        }
        r
    }

    /// The repository root: the innermost of the working directory and its
    /// parents that `git_marks` (one per ancestor, innermost first) says
    /// holds a `.git`, or the working directory when none does.
    pub fn repository_root(&self, git_marks: &[bool]) -> (r: String)
        ensures
            r@ == first_marked(ancestors_of(self.directory()), git_marks@, self.directory()),
            path_starts_with(self.directory(), r@),
    {
        let ancestors = self.ancestors();
        let ghost all = ancestors@.map_values(|a: String| a@);
        let n = ancestors.len();
        let mut i: usize = 0;
        while i < n
            invariant
                n == all.len(),
                all == ancestors@.map_values(|a: String| a@),
                i <= n,
                all == ancestors_of(self.cwd@),
                all.len() > 0 && all[0] == self.cwd@,
                forall|j: int| 0 <= j < all.len() ==> path_starts_with(self.cwd@, #[trigger] all[j]),
                first_marked(all, git_marks@, self.cwd@) == first_marked_from(
                    all,
                    git_marks@,
                    self.cwd@,
                    i as int,
                ),
            decreases n - i,
        {
            assert(all[i as int] == ancestors@[i as int]@);
            if i < git_marks.len() && git_marks[i] {
                let r = copy_str(ancestors[i].as_str());
                assert(first_marked_from(all, git_marks@, self.cwd@, i as int) == all[i as int]);
                return r;
            }
            i = i + 1;
        }
        assert(path_starts_with(self.cwd@, all[0]));
        copy_str(self.cwd.as_str())
    }

    /// Where agent instructions may be, from `root` down to the working
    /// directory, outermost first; the ones that are files are read.
    pub fn agent_paths(&self, root: &str) -> (r: Vec<String>)
        ensures
            r@.map_values(|p: String| p@) == agent_candidates(self.directory(), root@),
    {
        let ancestors = self.ancestors();
        let ghost all = ancestors@.map_values(|a: String| a@);
        let n = ancestors.len();
        let mut k: usize = 0;
        while k < n && starts_with_path(ancestors[k].as_str(), root)
            invariant
                n == all.len(),
                all == ancestors@.map_values(|a: String| a@),
                k <= n,
                leading_under(all, root@) == k + leading_under_from(all, root@, k as int),
            decreases n - k,
        {
            assert(all[k as int] == ancestors@[k as int]@);
            k = k + 1;
        }
        proof {
            if k < n {
                assert(all[k as int] == ancestors@[k as int]@);
            }
        }
        proof {
            reveal_strlit("AGENTS.md");
        }
        let ghost want = Seq::new(k as nat, |i: int| joined_path(all[k - 1 - i], agents_file()));
        let mut r: Vec<String> = Vec::new();
        let mut j: usize = 0;
        while j < k
            invariant
                n == all.len(),
                all == ancestors@.map_values(|a: String| a@),
                k <= n,
                j <= k,
                want == Seq::new(k as nat, |i: int| joined_path(all[k - 1 - i], agents_file())),
                r@.map_values(|p: String| p@) == want.take(j as int),
            decreases k - j,
        {
            let path = join_path(ancestors[k - 1 - j].as_str(), "AGENTS.md");
            let ghost before = r@;
            r.push(path);
            proof {
                assert(r@.map_values(|p: String| p@) =~= before.map_values(|p: String| p@).push(
                    path@,
                ));
                assert(want.take(j + 1) =~= want.take(j as int).push(want[j as int]));
            }
            j = j + 1;
        }
        assert(want.take(k as int) =~= want);
        r
    }

    /// The instructions files that were found, given as paths and their
    /// text, put together outermost first.
    pub fn load(files: &[(String, String)]) -> (r: String)
        ensures
            r@ == agents_text(files@.map_values(|f: (String, String)| (f.0@, f.1@))),
    {
        let ghost all = files@.map_values(|f: (String, String)| (f.0@, f.1@));
        let n = files.len();
        let mut r = String::new();
        proof {
            reveal_strlit(":\n");
            reveal_strlit("\n\n");
        }
        for i in 0..n
            invariant
                n == all.len(),
                all == files@.map_values(|f: (String, String)| (f.0@, f.1@)),
                r@ == agents_text(all.take(i as int)),
        {
            if i > 0 {
                append_str(&mut r, "\n\n");
            }
            let ghost before = r@;
            append_str(&mut r, files[i].0.as_str());
            append_str(&mut r, ":\n");
            let trimmed = trim_end_string(files[i].1.as_str());
            append_str(&mut r, trimmed.as_str());
            proof {
                let t = all.take(i + 1);
                assert(t.drop_last() =~= all.take(i as int));
                assert(t.last() == (files@[i as int].0@, files@[i as int].1@));
                if i == 0 {
                    assert(t.len() == 1);
                    assert(before =~= Seq::<char>::empty());
                    assert(r@ =~= agent_section(t[0].0, t[0].1));
                } else {
                    assert(r@ =~= agents_text(t.drop_last()) + "\n\n"@ + agent_section(
                        t.last().0,
                        t.last().1,
                    ));
                }
            }
        }
        assert(all.take(n as int) =~= all);
        r
    }
}

} // verus!
