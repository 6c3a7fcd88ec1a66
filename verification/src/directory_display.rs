//! A working directory as the footer shows it: cleaned lexically, and
//! written from `~` when it lies under the home directory.

use vstd::prelude::*;

use lexiclean::Lexiclean;
use std::path::Path;

use crate::loader::{join_path, joined_path};
use crate::text::copy_str;

verus! {

/// The path `lexiclean` makes of a path: `.` and `..` components resolved
/// without looking at the file system.
pub uninterp spec fn lexiclean_of(path: Seq<char>) -> Seq<char>;

/// What `Path::strip_prefix` leaves of a path once a base is taken off the
/// front, component by component; nothing when the base is not a prefix.
pub uninterp spec fn path_without_prefix(path: Seq<char>, base: Seq<char>) -> Option<Seq<char>>;

/// Cleans a path lexically (`Lexiclean::lexiclean` on a `Path`).  The result
/// holds only components of the input, so it is valid text as the input is.
#[verifier::external_body]
pub(crate) fn lexiclean_path(path: &str) -> (r: String)
    ensures
        r@ == lexiclean_of(path@),
{
    Path::new(path).lexiclean().display().to_string()
}

/// What is left of `path` once `base` is taken off its front
/// (`Path::strip_prefix`); `None` when `base` is not a prefix of it.  A path
/// taken off itself leaves the empty path, as the method compares the two
/// component by component.
#[verifier::external_body]
pub(crate) fn strip_path_prefix(path: &str, base: &str) -> (r: Option<String>)
    ensures
        match r {
            Option::Some(rest) => path_without_prefix(path@, base@) == Option::Some(rest@),
            Option::None => path_without_prefix(path@, base@) == Option::<Seq<char>>::None,
        },
        path@ == base@ ==> (r is Some && r.unwrap()@.len() == 0),
{
    match Path::new(path).strip_prefix(base) {
        Ok(rest) => Some(rest.display().to_string()),
        Err(_) => None,
    }
}

/// The current user's home directory (`home::home_dir`), as text.  It comes
/// from the environment, so nothing is claimed of it; a home that is not
/// valid text is written lossily.
#[verifier::external_body]
pub(crate) fn home_directory() -> (r: Option<String>) {
    match home::home_dir() {
        Some(home) => Some(home.to_string_lossy().into_owned()),
        None => None,
    }
}

/// A path below home, written from `~`: `~` itself for the empty path, and
/// otherwise the path joined onto `~` (which an absolute path replaces).
pub open spec fn relative_display(relative: Seq<char>) -> Seq<char> {
    if relative.len() == 0 {
        "~"@
    } else {
        joined_path("~"@, relative)
    }
}

/// How a path is shown when the home directory is `home`: cleaned, and
/// written from `~` when the cleaned home is a prefix of it.
pub open spec fn display_with_home(path: Seq<char>, home: Seq<char>) -> Seq<char> {
    let cleaned = lexiclean_of(path);
    match path_without_prefix(cleaned, lexiclean_of(home)) {
        Option::Some(relative) => relative_display(relative),
        Option::None => cleaned,
    }
}

/// Whether `shown` is how the path may be shown: cleaned when there is no
/// home directory, and relative to some home directory otherwise.
pub open spec fn shows_directory(path: Seq<char>, shown: Seq<char>) -> bool {
    ||| shown == lexiclean_of(path)
    ||| exists|home: Seq<char>| shown == #[trigger] display_with_home(path, home)
}

/// How a path is shown when the home directory is `home`, if one is known:
/// relative to it as `display_with_home` says, and cleaned otherwise.
pub open spec fn shown_for(path: Seq<char>, home: Option<Seq<char>>) -> Seq<char> {
    match home {
        Option::Some(h) => display_with_home(path, h),
        Option::None => lexiclean_of(path),
    }
}

/// A path under the home directory is written from `~`: when the cleaned
/// path lies under the cleaned home, with `rest` left below it, the path is
/// shown as `rest` joined onto `~`, and as `~` alone when it is the home.
/// A path that does not lie under the home is shown cleaned, as it is when
/// no home is known.
pub proof fn law_home_written_as_tilde(path: Seq<char>, home: Seq<char>, rest: Seq<char>)
    requires
        path_without_prefix(lexiclean_of(path), lexiclean_of(home)) == Option::Some(rest),
    ensures
        shown_for(path, Option::Some(home)) == relative_display(rest),
        rest.len() == 0 ==> shown_for(path, Option::Some(home)) == "~"@,
        rest.len() > 0 ==> shown_for(path, Option::Some(home)) == joined_path("~"@, rest),
{
}

/// A path outside the home directory, or shown with no home known, is the
/// path cleaned.
pub proof fn law_outside_home_shown_cleaned(path: Seq<char>, home: Option<Seq<char>>)
    requires
        home matches Option::Some(h) ==> path_without_prefix(lexiclean_of(path), lexiclean_of(h))
            is None,
    ensures
        shown_for(path, home) == lexiclean_of(path),
{
}

/// A working directory to show, with the home directory it is shown
/// against.
pub struct DirectoryDisplay<'a> {
    pub path: &'a str,
    pub home: Option<String>,
}

impl<'a> DirectoryDisplay<'a> {
    /// A path below home, written from `~`: `~` itself, or the path joined
    /// onto `~`.
    pub fn format_relative(relative: &str) -> (r: String)
        ensures
            r@ == relative_display(relative@),
    {
        if relative.is_empty() {
            proof {
                reveal_strlit("~");
            }
            copy_str("~")
        } else {
            join_path("~", relative)
        }
    }

    /// The home directory the path is shown against: the current user's,
    /// as it was when the display was made, if there is one.
    pub open spec fn home(&self) -> Option<Seq<char>> {
        match self.home {
            Option::Some(h) => Option::Some(h@),
            Option::None => Option::None,
        }
    }

    /// Shows the given path against the current user's home directory.
    pub fn new(path: &'a str) -> (r: DirectoryDisplay<'a>)
        ensures
            r.path@ == path@,
    {
        DirectoryDisplay { path, home: home_directory() }
    }

    /// How `path` is shown when the home directory is `home`; the home
    /// directory itself is shown as `~`.
    pub fn with_home(path: &str, home: &str) -> (r: String)
        ensures
            r@ == display_with_home(path@, home@),
            path@ == home@ ==> r@ == "~"@,
            lexiclean_of(path@) == lexiclean_of(home@) ==> r@ == "~"@,
    {
        let cleaned = lexiclean_path(path);
        let clean_home = lexiclean_path(home);
        match strip_path_prefix(cleaned.as_str(), clean_home.as_str()) {
            Some(relative) => Self::format_relative(relative.as_str()),
            None => cleaned,
        }
    }

    /// How the path is shown: from `~` when it lies under the home directory,
    /// cleaned otherwise or when no home is known.
    pub fn to_display_string(&self) -> (r: String)
        ensures
            r@ == shown_for(self.path@, self.home()),
            shows_directory(self.path@, r@),
            self.home() matches Option::Some(h) && lexiclean_of(self.path@) == lexiclean_of(h)
                ==> r@ == "~"@,
    {
        match &self.home {
            Some(home) => {
                let r = Self::with_home(self.path, home.as_str());
                assert(r@ == display_with_home(self.path@, home@));
                r
            },
            None => lexiclean_path(self.path),
        }
    }
}

} // verus!
