//! The fatal conditions of a run. Each one ends the run at once with
//! exit code 1 and a diagnostic naming the cause.

use vstd::prelude::*;

verus! {

/// A condition that terminates the run with a non-zero exit code.
pub enum FatalError {
    /// A profile was named but the configuration defines no profiles.
    NoProfiles,
    /// The named profile is not among the configuration's profiles.
    ProfileNotFound(String),
    /// Neither the configuration nor the directory walk yielded a file.
    NoFilesResolved,
    /// Nothing was assembled: no tree section and no readable file.
    EmptyOutput,
}

impl FatalError {
    /// The diagnostic reported for this condition.
    pub open spec fn message_view(self) -> Seq<char> {
        match self {
            FatalError::NoProfiles => "No profiles defined in config"@,
            FatalError::ProfileNotFound(n) => "Profile '"@ + n@ + "' not found in config"@,
            FatalError::NoFilesResolved => "No files provided via config or directories"@,
            FatalError::EmptyOutput => "No valid files or project tree found to copy"@,
        }
    }

    /// Renders the diagnostic.
    pub fn message(&self) -> (r: String)
        ensures
            r@ == self.message_view(),
    {
        match self {
            FatalError::NoProfiles => String::from_str("No profiles defined in config"),
            FatalError::ProfileNotFound(n) => {
                let mut s = String::from_str("Profile '");
                s.append(n.as_str());
                s.append("' not found in config");
                s
            },
            FatalError::NoFilesResolved => String::from_str(
                "No files provided via config or directories",
            ),
            FatalError::EmptyOutput => String::from_str(
                "No valid files or project tree found to copy",
            ),
        }
    }

    /// Every fatal condition exits with the same code.
    pub fn exit_code(&self) -> (c: i32)
        ensures
            c == 1,
    {
        1
    }
}

} // verus!
