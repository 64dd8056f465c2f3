use vstd::prelude::*;

verus! {

/// A fatal configuration fault: the run never starts when one arises.
#[derive(Clone, Debug, PartialEq, Eq)]
pub enum ConfigError {
    /// No base directory was given and the platform home directory could not
    /// be determined.
    HomeDirectoryUnresolved,
    /// A worker count of zero was requested.
    ZeroWorkerCount,
    /// A recognized flag was not followed by a value; carries the flag's name.
    MissingFlagValue(String),
    /// A flag that expects a number was given something else; carries the
    /// flag's name.
    NonNumericFlagValue(String),
    /// An unrecognized argument; carries that argument.
    UnknownFlag(String),
}

/// The spec-level shape of a `ConfigError`, with strings as character
/// sequences.
pub ghost enum ConfigErrorV {
    HomeDirectoryUnresolved,
    ZeroWorkerCount,
    MissingFlagValue(Seq<char>),
    NonNumericFlagValue(Seq<char>),
    UnknownFlag(Seq<char>),
}

impl ConfigError {
    /// The spec-level value of this error.
    pub open spec fn view(&self) -> ConfigErrorV {
        match self {
            ConfigError::HomeDirectoryUnresolved => ConfigErrorV::HomeDirectoryUnresolved,
            ConfigError::ZeroWorkerCount => ConfigErrorV::ZeroWorkerCount,
            ConfigError::MissingFlagValue(f) => ConfigErrorV::MissingFlagValue(f@),
            ConfigError::NonNumericFlagValue(f) => ConfigErrorV::NonNumericFlagValue(f@),
            ConfigError::UnknownFlag(a) => ConfigErrorV::UnknownFlag(a@),
        }
    }

    /// The user-facing message for this error.
    pub open spec fn message_spec(&self) -> Seq<char> {
        match self {
            ConfigError::HomeDirectoryUnresolved => {
                "Could not resolve home directory. Please pass --dir flag with appropriate value for save location"@
            },
            ConfigError::ZeroWorkerCount => "Please pass a non-zero value after --threads flag"@,
            ConfigError::MissingFlagValue(f) => {
                "Please pass a valid "@ + f@ + " after --"@ + f@ + " flag"@
            },
            ConfigError::NonNumericFlagValue(f) => {
                "Could not parse "@ + f@ + ". Please make sure it's a numeric value"@
            },
            ConfigError::UnknownFlag(a) => "Invalid argument "@ + a@,
        }
    }

    /// Renders the user-facing message.
    pub fn message(&self) -> (s: String)
        ensures
            s@ == self.message_spec(),
    {
        match self {
            ConfigError::HomeDirectoryUnresolved => {
                String::from_str(
                    "Could not resolve home directory. Please pass --dir flag with appropriate value for save location",
                )
            },
            ConfigError::ZeroWorkerCount => {
                String::from_str("Please pass a non-zero value after --threads flag")
            },
            ConfigError::MissingFlagValue(f) => {
                let mut s = String::from_str("Please pass a valid ");
                s.append(f.as_str());
                s.append(" after --");
                s.append(f.as_str());
                s.append(" flag");
                s
            },
            ConfigError::NonNumericFlagValue(f) => {
                let mut s = String::from_str("Could not parse ");
                s.append(f.as_str());
                s.append(". Please make sure it's a numeric value");
                s
            },
            ConfigError::UnknownFlag(a) => {
                let mut s = String::from_str("Invalid argument ");
                s.append(a.as_str());
                s
            },
        }
    }
}

} // verus!
