//! Keeps requested paths inside a base directory.
//!
//! A request names a path that begins with `/` and is meant relative to the
//! base directory. The caller asks the file system for the canonical form of
//! the candidate; here it is decided whether the request is served.

use crate::models::response::ApiResponse;
use crate::utils::paths::{joins, portable, within};
use crate::utils::text::{chars_of, starts_with_char, string_of};
use vstd::prelude::*;

verus! {

/// The guard of a base directory.
#[derive(Debug)]
pub struct PathValidator {
    base_path: String,
}

/// What the file system says of a candidate path.
#[derive(Debug)]
pub struct Resolution {
    /// The canonical form of the path.
    pub canonical: String,
    /// Whether something is there.
    pub exists: bool,
}

/// What is done with a request for a path. `rooted` says whether the path
/// begins with `/`; `resolution` holds the canonical form of the candidate,
/// where it has one; `inside` says whether that form lies in the base
/// directory.
pub open spec fn judged(rooted: bool, resolution: Option<Resolution>, inside: bool) -> Result<
    Seq<char>,
    Seq<char>,
> {
    if !rooted {
        Err("Path must start with '/'"@)
    } else {
        match resolution {
            None => Err("Path not found"@),
            Some(found) => if !inside {
                Err("Access forbidden"@)
            } else if !found.exists {
                Err("File not found"@)
            } else {
                Ok(found.canonical@)
            },
        }
    }
}

/// A result of [`PathValidator::validate_path`] as plain values: the path
/// that is served, or the message of the refusal.
pub open spec fn outcome(result: Result<String, ApiResponse<()>>) -> Result<Seq<char>, Seq<char>> {
    match result {
        Ok(path) => Ok(path@),
        Err(response) => Err(response.message@),
    }
}

/// `std::path::Path::join`, for paths that are text. For paths that every
/// host reads alike, `rest` is put behind `base` as [`joins`] says; how any
/// other two paths are put together follows the host's path syntax, and
/// nothing is claimed of it.
#[verifier::external_body]
fn join_path(base: &str, rest: &str) -> (joined: String)
    ensures
        portable(base@) && portable(rest@) ==> joins(base@, rest@, joined@),
{
    std::path::Path::new(base).join(rest).to_string_lossy().into_owned()
}

/// `std::path::Path::starts_with`, for paths that are text: whether `base`
/// is `path` or one of the directories above it. A path begins with itself.
/// For paths that every host reads alike the answer is [`within`]; for any
/// other, where one part of a path ends follows the host's path syntax, and no
/// more is claimed.
#[verifier::external_body]
fn path_starts_with(path: &str, base: &str) -> (inside: bool)
    ensures
        path@ == base@ ==> inside,
        portable(path@) && portable(base@) ==> inside == within(path@, base@),
{
    std::path::Path::new(path).starts_with(base)
}

impl PathValidator {
    /// The base directory.
    pub closed spec fn base(&self) -> Seq<char> {
        self.base_path@
    }

    /// The guard of the directory `base_path`.
    pub fn new(base_path: &str) -> (validator: Self)
        ensures
            validator.base() == base_path@,
    {
        PathValidator { base_path: base_path.to_owned() }
    }

    /// The path in the file system that a request for `path` is about: what
    /// follows the leading `/`, put behind the base directory as [`joins`]
    /// says, where every host reads the two alike. A path without leading `/`
    /// has none.
    pub fn candidate(&self, path: &str) -> (joined: Option<String>)
        ensures
            joined is Some == (path@.len() > 0 && path@[0] == '/'),
            joined is Some && portable(self.base()) && portable(path@.skip(1)) ==> joins(
                self.base(),
                path@.skip(1),
                joined->0@,
            ),
    {
        if !starts_with_char(path, '/') {
            return None;
        }
        let chars = chars_of(path);
        let rest = string_of(&chars, 1, chars.len());
        assert(rest@ =~= path@.skip(1));
        Some(join_path(self.base_path.as_str(), rest.as_str()))
    }

    /// Decides on a request from what is known of it: [`judged`].
    pub fn judge(rooted: bool, resolution: Option<&Resolution>, inside: bool) -> (result: Result<
        String,
        ApiResponse<()>,
    >)
        ensures
            outcome(result) == judged(
                rooted,
                match resolution {
                    Some(found) => Some(*found),
                    None => None,
                },
                inside,
            ),
            result is Err ==> result->Err_0.data is None,
    {
        if !rooted {
            return Err(ApiResponse::error("Path must start with '/'".to_owned()));
        }
        match resolution {
            None => Err(ApiResponse::error("Path not found".to_owned())),
            Some(found) => {
                if !inside {
                    Err(ApiResponse::error("Access forbidden".to_owned()))
                } else if !found.exists {
                    Err(ApiResponse::error("File not found".to_owned()))
                } else {
                    Ok(found.canonical.clone())
                }
            },
        }
    }

    /// Decides on a request for `path`, given what the file system says of
    /// its candidate: `None` where the candidate has no canonical form. The
    /// request is served with the canonical path where `path` begins with `/`,
    /// the canonical path lies in the base directory, and something is there:
    /// [`judged`]. A path lies in the base directory where it is [`within`]
    /// it, if every host reads the two alike; for any other path that is for
    /// the path syntax of the host to say. The base directory lies in itself.
    pub fn validate_path(&self, path: &str, resolution: Option<&Resolution>) -> (result: Result<
        String,
        ApiResponse<()>,
    >)
        ensures
            outcome(result) == judged(
                path@.len() > 0 && path@[0] == '/',
                match resolution {
                    Some(found) => Some(*found),
                    None => None,
                },
                true,
            ) || outcome(result) == judged(
                path@.len() > 0 && path@[0] == '/',
                match resolution {
                    Some(found) => Some(*found),
                    None => None,
                },
                false,
            ),
            resolution is Some && portable(resolution->0.canonical@) && portable(self.base())
                ==> outcome(result) == judged(
                path@.len() > 0 && path@[0] == '/',
                Some(*resolution->0),
                within(resolution->0.canonical@, self.base()),
            ),
            resolution is Some && resolution->0.canonical@ == self.base() ==> outcome(result)
                == judged(path@.len() > 0 && path@[0] == '/', Some(*resolution->0), true),
            resolution is None ==> outcome(result) == judged(
                path@.len() > 0 && path@[0] == '/',
                None,
                false,
            ),
            result is Err ==> result->Err_0.data is None,
    {
        let rooted = starts_with_char(path, '/');
        let inside = match resolution {
            Some(found) => path_starts_with(found.canonical.as_str(), self.base_path.as_str()),
            None => false,
        };
        let result = Self::judge(rooted, resolution, inside);
        proof {
            let given = match resolution {
                Some(found) => Some(*found),
                None => None,
            };
            assert(outcome(result) == judged(rooted, given, inside));
        }
        result
    }
}

} // verus!
