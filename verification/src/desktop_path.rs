//! Where the current user's desktop folder is.

use vstd::prelude::*;
use crate::std_path::{std_path_join, path_join};
use crate::text::opt_view;
use vstd::string::StrSliceExecFns;

verus! {

/// The folder name of the desktop inside a user profile.
pub const PROFILE_DESKTOP_FOLDER: &'static str = "Desktop";

/// The folder used when nothing else is known.
pub const FALLBACK_FOLDER: &'static str = ".";

/// The desktop folder: the `Desktop` known folder as Windows reports it (it follows
/// OneDrive and policy redirection), unless empty; else `Desktop` inside the user
/// profile; else the current folder, or `.` when even that is unknown.
pub open spec fn desktop_path(
    known_folder: Option<Seq<char>>,
    user_profile: Option<Seq<char>>,
    current_dir: Option<Seq<char>>,
) -> Seq<char> {
    match known_folder {
        Some(k) if k.len() > 0 => k,
        _ => match user_profile {
            Some(p) => std_path_join(p, PROFILE_DESKTOP_FOLDER@),
            None => match current_dir {
                Some(d) => d,
                None => FALLBACK_FOLDER@,
            },
        },
    }
}

/// Resolves the current user's desktop folder from the known folder, the
/// `USERPROFILE` variable and the current folder, whichever are available.
pub fn resolve_desktop_path(
    known_folder: Option<String>,
    user_profile: Option<String>,
    current_dir: Option<String>,
) -> (path: String)
    ensures
        path@ == desktop_path(opt_view(known_folder), opt_view(user_profile), opt_view(current_dir)),
{
    match known_folder {
        Some(k) => {
            if k.unicode_len() > 0 {
                return k;
            }
        },
        None => {},
    }
    match user_profile {
        Some(p) => path_join(p.as_str(), PROFILE_DESKTOP_FOLDER),
        None => match current_dir {
            Some(d) => d,
            None => FALLBACK_FOLDER.to_owned(),
        },
    }
}

} // verus!
