use vstd::prelude::*;
use vstd::string::StringExecFns;

verus! {

/// Why an invocation is refused. Every kind is fatal.
#[derive(Clone, Copy, Debug, PartialEq, Eq, Structural)]
pub enum DauError {
    /// The effective identity of the process is not the super-user.
    NotSetUIDRoot,
    /// There is no configuration and no default policy either.
    InvalidConfiguration,
    /// The configuration file cannot be read as a policy, for this reason.
    UnreadableConfiguration(ParseError),
    /// The configuration file exists but is not to be trusted.
    InvalidConfigfilePermissions,
    /// The caller's credential was not accepted.
    AuthenticationFailed,
    /// The policy grants the caller no right to run the command.
    CommandNotPermitted,
}

/// Why a document is not a policy.
#[derive(Clone, Copy, Debug, PartialEq, Eq, Structural)]
pub enum ParseError {
    /// At some point of the text the open arrays and inline tables, the
    /// dots of the keys that lead to them and twice the parts of the table
    /// header above them come to more than the limit of nesting. Such a
    /// text is not handed to the TOML parser.
    TooNested,
    /// The text is not a TOML document.
    Syntax,
    /// A permission table has a field other than `all`, `type` (or its
    /// alias `ptype`) and `commands`.
    UnknownField,
    /// A key occurs twice in one table, or `type` stands beside `ptype`.
    DuplicateKey,
    /// A value has the wrong shape: a `timeout` that is no string, a
    /// principal that is no table, an `all` that is no boolean, a `type`
    /// that is neither `user` nor `group`, or `commands` that is no array
    /// of strings.
    InvalidValue,
}

impl DauError {
    /// The text shown to the user for this error.
    pub open spec fn message_text(self) -> Seq<char> {
        match self {
            DauError::NotSetUIDRoot => "The dau binary is not setuid root. See the dau documentation for installation instructions."@,
            DauError::InvalidConfiguration => "The config file is not present and no valid defaults exist."@,
            DauError::UnreadableConfiguration(cause) => "The config file cannot be read: "@
                + cause.message_text(),
            DauError::InvalidConfigfilePermissions => "The config file has incorrect permissions; should be owned by root and not world readable or writable."@,
            DauError::AuthenticationFailed => "Authentication failed."@,
            DauError::CommandNotPermitted => "The command is not permitted for this user."@,
        }
    }

    /// The text shown to the user for this error.
    pub fn message(&self) -> (r: String)
        ensures
            r@ == self.message_text(),
    {
        match self {
            DauError::NotSetUIDRoot => "The dau binary is not setuid root. See the dau documentation for installation instructions.".to_owned(),
            DauError::InvalidConfiguration => "The config file is not present and no valid defaults exist.".to_owned(),
            DauError::UnreadableConfiguration(cause) => {
                let cause = cause.message();
                "The config file cannot be read: ".to_owned().concat(cause.as_str())
            },
            DauError::InvalidConfigfilePermissions => "The config file has incorrect permissions; should be owned by root and not world readable or writable.".to_owned(),
            DauError::AuthenticationFailed => "Authentication failed.".to_owned(),
            DauError::CommandNotPermitted => "The command is not permitted for this user.".to_owned(),
        }
    }
}

impl ParseError {
    /// The text shown to the user for this error.
    pub open spec fn message_text(self) -> Seq<char> {
        match self {
            ParseError::TooNested => "The configuration is nested too deeply."@,
            ParseError::Syntax => "The configuration is not a valid TOML document."@,
            ParseError::UnknownField => "A permission entry has an unknown field."@,
            ParseError::DuplicateKey => "A key is given more than once."@,
            ParseError::InvalidValue => "A value has the wrong type."@,
        }
    }

    /// The text shown to the user for this error.
    pub fn message(&self) -> (r: String)
        ensures
            r@ == self.message_text(),
    {
        match self {
            ParseError::TooNested => "The configuration is nested too deeply.".to_owned(),
            ParseError::Syntax => "The configuration is not a valid TOML document.".to_owned(),
            ParseError::UnknownField => "A permission entry has an unknown field.".to_owned(),
            ParseError::DuplicateKey => "A key is given more than once.".to_owned(),
            ParseError::InvalidValue => "A value has the wrong type.".to_owned(),
        }
    }
}

} // verus!
