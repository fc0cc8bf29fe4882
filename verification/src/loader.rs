use vstd::prelude::*;

use crate::config::{Config, ConfigView};
use crate::defaults::{default_policy, default_priv_groups};
use crate::errors::DauError;
use crate::parser::config_of_text;
use crate::text::split;

verus! {

/// The configuration that the content of the file stands for. `None` is a
/// file that does not exist, which is no error. A content that stands for
/// no configuration is an error that keeps the reason.
pub open spec fn loaded(content: Option<Seq<char>>) -> Result<Option<ConfigView>, DauError> {
    match content {
        None => Ok(None),
        Some(text) => match config_of_text(text) {
            Ok(config) => Ok(Some(config)),
            Err(e) => Err(DauError::UnreadableConfiguration(e)),
        },
    }
}

/// The policy in force: that of the file where it exists, else the default
/// policy for the group list, else none.
pub open spec fn policy_in_force(content: Option<Seq<char>>, groups: Option<Seq<char>>) -> Result<
    ConfigView,
    DauError,
> {
    match loaded(content) {
        Err(e) => Err(e),
        Ok(Some(config)) => Ok(config),
        Ok(None) => match groups {
            Some(list) => Ok(default_policy(split(list, ':'))),
            None => Err(DauError::InvalidConfiguration),
        },
    }
}

/// Reads the configuration from the content of its file, if the file exists.
pub fn load_config(content: Option<&str>) -> (r: Result<Option<Config>, DauError>)
    ensures
        match r {
            Ok(Some(config)) => loaded(content_view(content)) == Ok::<
                Option<ConfigView>,
                DauError,
            >(Some(config@)),
            Ok(None) => loaded(content_view(content)) == Ok::<Option<ConfigView>, DauError>(None),
            Err(e) => loaded(content_view(content)) == Err::<Option<ConfigView>, DauError>(e),
        },
{
    match content {
        None => Ok(None),
        Some(text) => match Config::parse(text) {
            Ok(config) => Ok(Some(config)),
            Err(e) => Err(DauError::UnreadableConfiguration(e)),
        },
    }
}

/// The view of a text that may be missing.
pub open spec fn content_view(content: Option<&str>) -> Option<Seq<char>> {
    match content {
        Some(text) => Some(text@),
        None => None,
    }
}

/// The policy in force: the configuration where its file exists, else the
/// default policy for the group list.
pub fn load_or_defaults(content: Option<&str>, groups: Option<&str>) -> (r: Result<Config, DauError>)
    ensures
        match r {
            Ok(config) => policy_in_force(content_view(content), content_view(groups)) == Ok::<
                ConfigView,
                DauError,
            >(config@),
            Err(e) => policy_in_force(content_view(content), content_view(groups)) == Err::<
                ConfigView,
                DauError,
            >(e),
        },
{
    match load_config(content) {
        Err(e) => Err(e),
        Ok(Some(config)) => Ok(config),
        Ok(None) => match default_priv_groups(groups) {
            Some(config) => Ok(config),
            None => Err(DauError::InvalidConfiguration),
        },
    }
}

} // verus!
