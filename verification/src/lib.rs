pub mod config;
pub mod defaults;
pub mod document;
pub mod engine;
pub mod errors;
pub mod loader;
pub mod nesting;
pub mod options;
pub mod parser;
pub mod session;
pub mod text;
pub mod trust;

pub use config::{Config, Perm, Type};
pub use defaults::{default_priv_groups, os_priv_groups, os_release_id, resolve_priv_groups};
pub use document::{parse_document, Item};
pub use engine::{decide, Decision, Identity, Request};
pub use errors::{DauError, ParseError};
pub use loader::{load_config, load_or_defaults};
pub use options::{LogLevel, Opts};
pub use session::{Action, Event, Phase};
pub use trust::{check_perms, validate_privilege, verify_trust, FileStat, Trust};
