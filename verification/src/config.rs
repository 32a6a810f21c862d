//! Locating the configuration file among an ordered set of candidates.
//!
//! Two candidates are consulted, in fixed priority order: a user-scoped
//! configuration directory (per the host's base-directory convention, with
//! the application's own subdirectory) and a single system-wide fallback
//! whose location depends on the host family. A candidate qualifies only as
//! an existing regular file; finding none is a normal outcome.

use vstd::prelude::*;

use crate::host::HostFamily;
use crate::text::opt_view;

verus! {

/// `xdg::BaseDirectories`, declared so that values of it can pass between
/// the trusted lookups below; opaque to the verifier.
#[verifier::external_type_specification]
#[verifier::external_body]
pub struct ExBaseDirectories(xdg::BaseDirectories);

/// Relies on `xdg::BaseDirectories::with_prefix`: it reads the process
/// environment and determines the host's base directories, with `prefix`
/// prepended to every later lookup. The result depends on the environment,
/// so nothing is promised of it.
#[verifier::external_body]
fn xdg_base_directories(prefix: &str) -> (r: xdg::BaseDirectories) {
    xdg::BaseDirectories::with_prefix(prefix)
}

/// Relies on `xdg::BaseDirectories::find_config_file`: it returns an
/// absolute path to an existing configuration file under the configured
/// directories, or `None`. The result depends on what is on disk, so
/// nothing is promised of it.
#[verifier::external_body]
fn xdg_find_config_file(dirs: &xdg::BaseDirectories, name: &str) -> (r: Option<String>) {
    dirs.find_config_file(name).map(|p| p.to_string_lossy().into_owned())
}

/// The system-wide fallback location of the configuration file: under
/// `/etc` on Linux- and macOS-family hosts, under `/usr/local/etc` on the
/// BSDs.
pub open spec fn system_config_spec(family: HostFamily) -> Seq<char> {
    if family == HostFamily::Bsd {
        "/usr/local/etc/spotifyd.conf"@
    } else {
        "/etc/spotifyd.conf"@
    }
}

/// Returns the system-wide fallback candidate for the host family.
pub fn system_config_path(family: HostFamily) -> (r: String)
    ensures
        r@ == system_config_spec(family),
{
    if family == HostFamily::Bsd {
        String::from_str("/usr/local/etc/spotifyd.conf")
    } else {
        String::from_str("/etc/spotifyd.conf")
    }
}

/// Chooses between the candidates: the user-scoped one wins whenever it was
/// found; the system-wide fallback stands only when it is a regular file;
/// otherwise nothing is found.
pub fn select_config(user: &Option<String>, system_is_file: bool, family: HostFamily) -> (r:
    Option<String>)
    ensures
        user is Some ==> opt_view(r) == opt_view(*user),
        user is None && system_is_file ==> opt_view(r) == Option::Some(system_config_spec(family)),
        user is None && !system_is_file ==> r is None,
{
    match user.as_ref() {
        Option::Some(p) => Option::Some(p.clone()),
        Option::None => {
            if system_is_file {
                Option::Some(system_config_path(family))
            } else {
                Option::None
            }
        },
    }
}

/// Looks the configuration file up: first under the user-scoped
/// configuration directories, then at the system-wide fallback, whose
/// metadata the embedding program has checked (`system_is_file`). Whatever
/// the user-scoped lookup found, a fallback that is a regular file
/// guarantees an answer.
pub fn find_config(system_is_file: bool, family: HostFamily) -> (r: Option<String>)
    ensures
        system_is_file ==> r is Some,
{
    let dirs = xdg_base_directories("spotifyd");
    let user = xdg_find_config_file(&dirs, "spotifyd.conf");
    select_config(&user, system_is_file, family)
}

} // verus!
