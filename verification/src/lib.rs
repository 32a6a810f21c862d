//! Host-environment resolution: lexical path canonicalization with a
//! home-directory shorthand, configuration-file lookup, and detection of the
//! user's preferred shell.

pub mod config;
pub mod host;
pub mod paths;
pub mod shell;
pub mod text;

pub use config::{find_config, select_config, system_config_path};
pub use host::HostFamily;
pub use paths::{absolutize_path, absolutize_with, PathError};
pub use shell::{select_shell, shell_from_directory_service, shell_from_user_database,
    CommandOutcome};
