use vstd::prelude::*;
use vstd::string::StringExecFns;

verus! {

/// Why the configuration could not be loaded.
#[derive(Debug, Clone, PartialEq, Eq)]
pub enum ConfigError {
    /// The file at this path could not be read.
    UnableToReadConfig(String),
    /// The file is no valid configuration; the text says what is wrong.
    TomlSyntaxError(String),
    /// The home directory is not known.
    HomeNotDefined,
}

/// What the user configured.
#[derive(Debug, Clone, PartialEq, Eq)]
pub struct Config {
    /// The commands to run when the window manager starts, in order.
    pub startup: Vec<String>,
}

impl ConfigError {
    /// The text that describes the error.
    pub open spec fn text(self) -> Seq<char> {
        match self {
            ConfigError::UnableToReadConfig(path) => "unable to read config: "@ + path@,
            ConfigError::TomlSyntaxError(reason) => "invalid toml file: "@ + reason@,
            ConfigError::HomeNotDefined => "$HOME is not defined"@,
        }
    }

    /// The text that describes the error.
    pub fn message(&self) -> (text: String)
        ensures
            text@ == self.text(),
    {
        match self {
            ConfigError::UnableToReadConfig(path) => {
                let mut text = "unable to read config: ".to_owned();
                text.append(path.as_str());
                text
            },
            ConfigError::TomlSyntaxError(reason) => {
                let mut text = "invalid toml file: ".to_owned();
                text.append(reason.as_str());
                text
            },
            ConfigError::HomeNotDefined => "$HOME is not defined".to_owned(),
        }
    }
}

} // verus!
