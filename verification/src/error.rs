//! The ways in which resolving the assume-role settings can fail.

use vstd::prelude::*;

verus! {

/// Why no chain of credential providers could be built.
#[derive(Debug, Clone, Copy, PartialEq, Eq, Structural)]
pub enum ChainError {
    /// The configuration file exists but could not be opened.
    ConfigUnreadable,
    /// There is no configuration file to take a profile from.
    ConfigNotParsable,
    /// The configuration file does not hold the profile asked for.
    ProfileNotFound,
    /// The profile has no `source_profile`.
    SourceProfileMissing,
    /// The profile has no `role_arn`.
    RoleArnMissing,
    /// The user's home directory is not known.
    HomeDirectoryUnknown,
}

impl ChainError {
    /// The text that reports the failure. A profile that is not there is
    /// reported as a profile without `source_profile` is.
    pub open spec fn message_text(self) -> Seq<char> {
        match self {
            ChainError::ConfigUnreadable => "Failed to open config file"@,
            ChainError::ConfigNotParsable => "Failed to parse config file"@,
            ChainError::ProfileNotFound => "Failed to find source_profile in config file"@,
            ChainError::SourceProfileMissing => "Failed to find source_profile in config file"@,
            ChainError::RoleArnMissing => "Failed to find role_arn in config file"@,
            ChainError::HomeDirectoryUnknown => "Failed to determine home directory."@,
        }
    }

    /// The text that reports the failure.
    pub fn message(&self) -> (text: String)
        ensures
            text@ == self.message_text(),
    {
        match self {
            ChainError::ConfigUnreadable => "Failed to open config file".to_owned(),
            ChainError::ConfigNotParsable => "Failed to parse config file".to_owned(),
            ChainError::ProfileNotFound => {
                "Failed to find source_profile in config file".to_owned()
            },
            ChainError::SourceProfileMissing => {
                "Failed to find source_profile in config file".to_owned()
            },
            ChainError::RoleArnMissing => "Failed to find role_arn in config file".to_owned(),
            ChainError::HomeDirectoryUnknown => "Failed to determine home directory.".to_owned(),
        }
    }
}

} // verus!
