//! Which file to read and which profile to take from it: overrides first,
//! fixed defaults after them.

use crate::error::ChainError;
use std::path::PathBuf;
use vstd::prelude::*;

verus! {

/// The variable that overrides the profile's name.
pub const AWS_PROFILE: &'static str = "AWS_PROFILE";

/// The variable that overrides the file's path.
pub const AWS_SHARED_CREDENTIALS_FILE: &'static str = "AWS_SHARED_CREDENTIALS_FILE";

/// The profile that is taken where nothing names another.
pub const DEFAULT: &'static str = "default";

/// `std::path::PathBuf`, which the library hands on without looking into it.
#[verifier::external_type_specification]
#[verifier::external_body]
pub struct ExPathBuf(std::path::PathBuf);

/// Where the configuration file is.
#[derive(Debug, PartialEq, Eq)]
pub enum ProfileLocation {
    /// At the path that the override gave, taken as it stands.
    Explicit(String),
    /// Under the home directory: in `directory`, the file `file`.
    UnderHome { home: PathBuf, directory: String, file: String },
}

/// A [`ProfileLocation`] over sequences of characters.
pub enum LocationView {
    Explicit(Seq<char>),
    UnderHome { home: PathBuf, directory: Seq<char>, file: Seq<char> },
}

impl View for ProfileLocation {
    type V = LocationView;

    open spec fn view(&self) -> LocationView {
        match self {
            ProfileLocation::Explicit(path) => LocationView::Explicit(path@),
            ProfileLocation::UnderHome { home, directory, file } => LocationView::UnderHome {
                home: *home,
                directory: directory@,
                file: file@,
            },
        }
    }
}

/// The value of an override that counts: one that is set and not empty.
pub open spec fn effective(value: Option<String>) -> Option<Seq<char>> {
    match value {
        Some(text) => if text@.len() > 0 {
            Some(text@)
        } else {
            None
        },
        None => None,
    }
}

/// The name of the profile to use: the override where it counts, else
/// `default`.
pub open spec fn profile_name_for(value: Option<String>) -> Seq<char> {
    match effective(value) {
        Some(name) => name,
        None => "default"@,
    }
}

/// The file under the home directory `home`: `.aws/config`. It is the file
/// of settings, not the file `credentials` beside it.
pub open spec fn location_under(home: PathBuf) -> LocationView {
    LocationView::UnderHome { home, directory: ".aws"@, file: "config"@ }
}

/// Where the file is for the override `value` and the home directory
/// `home`: at the override where it counts, else under the home directory,
/// which must then be known.
pub open spec fn location_for(value: Option<String>, home: Option<PathBuf>) -> Result<
    LocationView,
    ChainError,
> {
    match effective(value) {
        Some(path) => Ok(LocationView::Explicit(path)),
        None => match home {
            Some(home) => Ok(location_under(home)),
            None => Err(ChainError::HomeDirectoryUnknown),
        },
    }
}

/// Whether `result` is what `expected` says: the same location, or the same
/// failure.
pub open spec fn resolves_to(
    result: Result<ProfileLocation, ChainError>,
    expected: Result<LocationView, ChainError>,
) -> bool {
    match expected {
        Ok(view) => result matches Ok(location) && location@ == view,
        Err(error) => result matches Err(e) && e == error,
    }
}

/// Without an override that counts, the file is `.aws/config` under the
/// home directory, and not the file `credentials` in that place.
pub proof fn lemma_default_location_is_config(value: Option<String>, home: PathBuf)
    requires
        effective(value) is None,
    ensures
        location_for(value, Some(home)) == Ok::<LocationView, ChainError>(
            LocationView::UnderHome { home, directory: ".aws"@, file: "config"@ },
        ),
        location_for(value, Some(home)) != Ok::<LocationView, ChainError>(
            LocationView::UnderHome { home, directory: ".aws"@, file: "credentials"@ },
        ),
{
    reveal_strlit("config");
    reveal_strlit("credentials");
    assert("config"@.len() != "credentials"@.len());
}

/// The home directory as `dirs::home_dir` reports it. It depends on the
/// environment and on the user database, so nothing is claimed of it.
#[verifier::external_body]
fn home_directory() -> (home: Option<PathBuf>) {
    dirs::home_dir()
}

/// Keeps a value that is set and not empty.
pub fn non_empty(value: Option<String>) -> (kept: Option<String>)
    ensures
        match kept {
            Some(text) => value == Some(text) && text@.len() > 0,
            None => effective(value) is None,
        },
{
    match value {
        Some(text) => {
            if text.as_str().is_empty() {
                None
            } else {
                Some(text)
            }
        },
        None => None,
    }
}

/// The name of the profile to use, given the value of the variable
/// [`AWS_PROFILE`].
pub fn default_profile_name(value: Option<String>) -> (name: String)
    ensures
        name@ == profile_name_for(value),
{
    match non_empty(value) {
        Some(name) => name,
        None => DEFAULT.to_owned(),
    }
}

/// The file under the home directory `home`, which must be known.
pub fn hardcoded_location_under(home: Option<PathBuf>) -> (result: Result<
    ProfileLocation,
    ChainError,
>)
    ensures
        resolves_to(result, location_for(None, home)),
{
    match home {
        Some(home) => Ok(
            ProfileLocation::UnderHome {
                home,
                directory: ".aws".to_owned(),
                file: "config".to_owned(),
            },
        ),
        None => Err(ChainError::HomeDirectoryUnknown),
    }
}

/// The file under the user's home directory. Which directory that is, and
/// whether it is known, is for the system to say.
pub fn hardcoded_profile_location() -> (result: Result<ProfileLocation, ChainError>)
    ensures
        exists|home: Option<PathBuf>| resolves_to(result, #[trigger] location_for(None, home)),
{
    let home = home_directory();
    let result = hardcoded_location_under(home);
    assert(resolves_to(result, location_for(None, home)));
    result
}

/// Where the configuration file is, given the value of the variable
/// [`AWS_SHARED_CREDENTIALS_FILE`].
pub fn default_profile_location(value: Option<String>) -> (result: Result<
    ProfileLocation,
    ChainError,
>)
    ensures
        exists|home: Option<PathBuf>| resolves_to(result, #[trigger] location_for(value, home)),
        effective(value) is Some ==> resolves_to(result, location_for(value, None)),
{
    match non_empty(value) {
        Some(path) => {
            let result = Ok(ProfileLocation::Explicit(path));
            assert(resolves_to(result, location_for(value, None)));
            result
        },
        None => {
            let result = hardcoded_profile_location();
            proof {
                let home = choose|home: Option<PathBuf>|
                    resolves_to(result, #[trigger] location_for(None, home));
                assert(location_for(value, home) == location_for(None, home));
            }
            result
        },
    }
}

} // verus!
