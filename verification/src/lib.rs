//! ipak: a lightweight package manager. This library holds its logic:
//! versions and version ranges, package metadata, the dependency graph of
//! installed packages, installation paths and the options of project commands.
pub mod archive;
pub mod args;
pub mod color;
pub mod depend;
pub mod index;
pub mod init;
pub mod list;
pub mod lock;
pub mod messages;
pub mod paths;
pub mod pkg;
pub mod project;
pub mod question;
pub mod shell;
pub mod templates;
pub mod text;
pub mod version;

use vstd::prelude::*;

verus! {

/// The version of ipak itself, read from the version text `pkg_version` of
/// this build.
pub fn version(pkg_version: &str) -> (r: version::Version)
    requires
        version::is_version_text(pkg_version@),
    ensures
        r@ == pkg_version@,
{
    match version::Version::from_str(pkg_version) {
        Ok(v) => v,
        Err(_) => {
            assert(false);
            version::Version::default()
        },
    }
}

/// The local email address of a user on a host: `username@hostname.local`.
pub open spec fn email_address_of(username: Seq<char>, hostname: Seq<char>) -> Seq<char> {
    username + "@"@ + hostname + ".local"@
}

/// Generates the local email address of the user `username` on the host
/// `hostname`: `username@hostname.local`.
pub fn generate_email_address(username: &str, hostname: &str) -> (r: String)
    ensures
        r@ == email_address_of(username@, hostname@),
{
    let mut r = text::string_of(username);
    r.append("@");
    r.append(hostname);
    r.append(".local");
    r
}

} // verus!
