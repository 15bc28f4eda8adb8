//! Package metadata: author and package information, supported
//! architectures, installation mode and the relations of a package to others.
pub mod render;

use crate::text::string_of;
use crate::version::{RangeView, Version, VersionRange};
use vstd::prelude::*;

verus! {

/// Defines the installation mode for packages.
#[derive(Debug, Clone, Copy, PartialEq, Eq, Structural)]
pub enum Mode {
    /// Local installation mode, scoped to the current user.
    Local,
    /// Global installation mode, system-wide installation.
    Global,
    /// Considering both local and global installations.
    Any,
}

impl Default for Mode {
    fn default() -> (r: Mode)
        ensures
            r == Mode::Any,
    {
        Mode::Any
    }
}

impl Mode {
    /// `local`, `global` or `any (local & global)`.
    pub fn to_string(&self) -> (r: String)
        ensures
            r@ == match *self {
                Mode::Local => "local"@,
                Mode::Global => "global"@,
                Mode::Any => "any (local & global)"@,
            },
    {
        match self {
            Mode::Local => string_of("local"),
            Mode::Global => string_of("global"),
            Mode::Any => string_of("any (local & global)"),
        }
    }
}

/// A dependency: a package name and the versions of it that are accepted.
#[derive(Debug)]
pub struct PackageRange {
    /// Package name
    pub name: String,
    /// Version constraints
    pub range: VersionRange,
}

/// The view of a [`PackageRange`].
pub struct PackageRangeView {
    pub name: Seq<char>,
    pub range: Option<RangeView>,
}

impl DeepView for PackageRange {
    type V = PackageRangeView;

    open spec fn deep_view(&self) -> PackageRangeView {
        PackageRangeView { name: self.name@, range: self.range@ }
    }
}

impl Clone for PackageRange {
    fn clone(&self) -> (r: PackageRange)
        ensures
            r.deep_view() == self.deep_view(),
    {
        PackageRange { name: self.name.clone(), range: self.range.clone() }
    }
}

impl Default for PackageRange {
    fn default() -> (r: PackageRange)
        ensures
            r.name@ == "default-dependency"@,
            r.range@ is None,
    {
        PackageRange { name: string_of("default-dependency"), range: VersionRange::default() }
    }
}

/// A package with a specific version.
#[derive(Debug)]
pub struct PackageVersion {
    /// Package name
    pub name: String,
    /// Specific package version
    pub version: Version,
}

/// The view of a [`PackageVersion`].
pub struct PackageVersionView {
    pub name: Seq<char>,
    pub version: Seq<char>,
}

impl DeepView for PackageVersion {
    type V = PackageVersionView;

    open spec fn deep_view(&self) -> PackageVersionView {
        PackageVersionView { name: self.name@, version: self.version@ }
    }
}

impl Clone for PackageVersion {
    fn clone(&self) -> (r: PackageVersion)
        ensures
            r.deep_view() == self.deep_view(),
    {
        PackageVersion { name: self.name.clone(), version: self.version.clone() }
    }
}

impl Default for PackageVersion {
    fn default() -> (r: PackageVersion)
        ensures
            r.name@ == "default-version"@,
            r.version@ == "1.0.0"@,
    {
        PackageVersion { name: string_of("default-version"), version: Version::default() }
    }
}

/// Author details: name and email.
#[derive(Debug)]
pub struct AuthorAboutData {
    /// Author's name
    pub name: String,
    /// Author's email address
    pub email: String,
}

/// The view of an [`AuthorAboutData`].
pub struct AuthorView {
    pub name: Seq<char>,
    pub email: Seq<char>,
}

impl DeepView for AuthorAboutData {
    type V = AuthorView;

    open spec fn deep_view(&self) -> AuthorView {
        AuthorView { name: self.name@, email: self.email@ }
    }
}

impl Clone for AuthorAboutData {
    fn clone(&self) -> (r: AuthorAboutData)
        ensures
            r.deep_view() == self.deep_view(),
    {
        AuthorAboutData { name: self.name.clone(), email: self.email.clone() }
    }
}

/// Package details: name, version and an optional description.
#[derive(Debug)]
pub struct PackageAboutData {
    /// Package name
    pub name: String,
    /// Package version
    pub version: Version,
    /// Package description (may be empty)
    pub description: String,
}

/// The view of a [`PackageAboutData`].
pub struct PackageAboutView {
    pub name: Seq<char>,
    pub version: Seq<char>,
    pub description: Seq<char>,
}

impl DeepView for PackageAboutData {
    type V = PackageAboutView;

    open spec fn deep_view(&self) -> PackageAboutView {
        PackageAboutView {
            name: self.name@,
            version: self.version@,
            description: self.description@,
        }
    }
}

impl Clone for PackageAboutData {
    fn clone(&self) -> (r: PackageAboutData)
        ensures
            r.deep_view() == self.deep_view(),
    {
        PackageAboutData {
            name: self.name.clone(),
            version: self.version.clone(),
            description: self.description.clone(),
        }
    }
}

impl Default for PackageAboutData {
    fn default() -> (r: PackageAboutData)
        ensures
            r.name@ == "default-package"@,
            r.version@ == "1.0.0"@,
            r.description@ == Seq::<char>::empty(),
    {
        PackageAboutData {
            name: string_of("default-package"),
            version: Version::default(),
            description: String::new(),
        }
    }
}

/// Author and package information.
#[derive(Debug)]
pub struct AboutData {
    /// Author details
    pub author: AuthorAboutData,
    /// Package details
    pub package: PackageAboutData,
}

/// The view of an [`AboutData`].
pub struct AboutView {
    pub author: AuthorView,
    pub package: PackageAboutView,
}

impl DeepView for AboutData {
    type V = AboutView;

    open spec fn deep_view(&self) -> AboutView {
        AboutView { author: self.author.deep_view(), package: self.package.deep_view() }
    }
}

impl Clone for AboutData {
    fn clone(&self) -> (r: AboutData)
        ensures
            r.deep_view() == self.deep_view(),
    {
        AboutData { author: self.author.clone(), package: self.package.clone() }
    }
}

/// The relations of a package to others.
#[derive(Debug)]
pub struct RelationData {
    /// Required dependencies: every group must be met by one of its alternatives
    pub depend: Vec<Vec<PackageRange>>,
    /// Required command-line tools
    pub depend_cmds: Vec<String>,
    /// Suggested optional dependencies
    pub suggests: Vec<Vec<PackageRange>>,
    /// Recommended dependencies
    pub recommends: Vec<Vec<PackageRange>>,
    /// Conflicting packages
    pub conflicts: Vec<PackageRange>,
    /// Virtual packages that this package provides
    pub virtuals: Vec<PackageVersion>,
    /// Commands provided by this package
    pub provide_cmds: Vec<String>,
}

/// The view of a [`RelationData`].
pub struct RelationView {
    pub depend: Seq<Seq<PackageRangeView>>,
    pub depend_cmds: Seq<Seq<char>>,
    pub suggests: Seq<Seq<PackageRangeView>>,
    pub recommends: Seq<Seq<PackageRangeView>>,
    pub conflicts: Seq<PackageRangeView>,
    pub virtuals: Seq<PackageVersionView>,
    pub provide_cmds: Seq<Seq<char>>,
}

impl DeepView for RelationData {
    type V = RelationView;

    open spec fn deep_view(&self) -> RelationView {
        RelationView {
            depend: self.depend.deep_view(),
            depend_cmds: self.depend_cmds.deep_view(),
            suggests: self.suggests.deep_view(),
            recommends: self.recommends.deep_view(),
            conflicts: self.conflicts.deep_view(),
            virtuals: self.virtuals.deep_view(),
            provide_cmds: self.provide_cmds.deep_view(),
        }
    }
}

pub fn clone_ranges(v: &Vec<PackageRange>) -> (r: Vec<PackageRange>)
    ensures
        r.deep_view() == v.deep_view(),
{
    let mut r: Vec<PackageRange> = Vec::new();
    let mut i: usize = 0;
    while i < v.len()
        invariant
            i <= v.len(),
            r.deep_view() == v.deep_view().take(i as int),
        decreases v.len() - i,
    {
        let x = v[i].clone();
        let ghost before = r.deep_view();
        r.push(x);
        assert(r.deep_view() =~= before.push(v@[i as int].deep_view()));
        assert(v.deep_view().take(i + 1) =~= v.deep_view().take(i as int).push(
            v@[i as int].deep_view(),
        ));
        i = i + 1;
    }
    assert(v.deep_view().take(v.len() as int) =~= v.deep_view());
    r
}

fn clone_groups(v: &Vec<Vec<PackageRange>>) -> (r: Vec<Vec<PackageRange>>)
    ensures
        r.deep_view() == v.deep_view(),
{
    let mut r: Vec<Vec<PackageRange>> = Vec::new();
    let mut i: usize = 0;
    while i < v.len()
        invariant
            i <= v.len(),
            r.deep_view() == v.deep_view().take(i as int),
        decreases v.len() - i,
    {
        let x = clone_ranges(&v[i]);
        let ghost before = r.deep_view();
        r.push(x);
        assert(r.deep_view() =~= before.push(v@[i as int].deep_view()));
        assert(v.deep_view().take(i + 1) =~= v.deep_view().take(i as int).push(
            v@[i as int].deep_view(),
        ));
        i = i + 1;
    }
    assert(v.deep_view().take(v.len() as int) =~= v.deep_view());
    r
}

fn clone_versions(v: &Vec<PackageVersion>) -> (r: Vec<PackageVersion>)
    ensures
        r.deep_view() == v.deep_view(),
{
    let mut r: Vec<PackageVersion> = Vec::new();
    let mut i: usize = 0;
    while i < v.len()
        invariant
            i <= v.len(),
            r.deep_view() == v.deep_view().take(i as int),
        decreases v.len() - i,
    {
        let x = v[i].clone();
        let ghost before = r.deep_view();
        r.push(x);
        assert(r.deep_view() =~= before.push(v@[i as int].deep_view()));
        assert(v.deep_view().take(i + 1) =~= v.deep_view().take(i as int).push(
            v@[i as int].deep_view(),
        ));
        i = i + 1;
    }
    assert(v.deep_view().take(v.len() as int) =~= v.deep_view());
    r
}

/// A copy of a list of texts.
pub fn clone_strings(v: &Vec<String>) -> (r: Vec<String>)
    ensures
        r.deep_view() == v.deep_view(),
{
    let mut r: Vec<String> = Vec::new();
    let mut i: usize = 0;
    while i < v.len()
        invariant
            i <= v.len(),
            r.deep_view() == v.deep_view().take(i as int),
        decreases v.len() - i,
    {
        let x = v[i].clone();
        let ghost before = r.deep_view();
        r.push(x);
        assert(r.deep_view() =~= before.push(v@[i as int].deep_view()));
        assert(v.deep_view().take(i + 1) =~= v.deep_view().take(i as int).push(
            v@[i as int].deep_view(),
        ));
        i = i + 1;
    }
    assert(v.deep_view().take(v.len() as int) =~= v.deep_view());
    r
}

impl Clone for RelationData {
    fn clone(&self) -> (r: RelationData)
        ensures
            r.deep_view() == self.deep_view(),
    {
        RelationData {
            depend: clone_groups(&self.depend),
            depend_cmds: clone_strings(&self.depend_cmds),
            suggests: clone_groups(&self.suggests),
            recommends: clone_groups(&self.recommends),
            conflicts: clone_ranges(&self.conflicts),
            virtuals: clone_versions(&self.virtuals),
            provide_cmds: clone_strings(&self.provide_cmds),
        }
    }
}

impl Default for RelationData {
    fn default() -> (r: RelationData)
        ensures
            r.is_empty_spec(),
    {
        RelationData {
            depend: Vec::new(),
            depend_cmds: Vec::new(),
            suggests: Vec::new(),
            recommends: Vec::new(),
            conflicts: Vec::new(),
            virtuals: Vec::new(),
            provide_cmds: Vec::new(),
        }
    }
}

impl RelationData {
    /// Whether every relation list is empty.
    pub open spec fn is_empty_spec(&self) -> bool {
        &&& self.depend@.len() == 0
        &&& self.depend_cmds@.len() == 0
        &&& self.suggests@.len() == 0
        &&& self.recommends@.len() == 0
        &&& self.conflicts@.len() == 0
        &&& self.virtuals@.len() == 0
        &&& self.provide_cmds@.len() == 0
    }

    /// Checks if all relation fields are empty.
    pub fn is_empty(&self) -> (r: bool)
        ensures
            r == self.is_empty_spec(),
    {
        self.depend.len() == 0 && self.depend_cmds.len() == 0 && self.suggests.len() == 0
            && self.recommends.len() == 0 && self.conflicts.len() == 0 && self.virtuals.len()
            == 0 && self.provide_cmds.len() == 0
    }
}

/// Complete package metadata: author, package, architectures, mode, relations.
#[derive(Debug)]
pub struct PackageData {
    /// Package and author information
    pub about: AboutData,
    /// Supported architectures (empty: every architecture)
    pub architecture: Vec<String>,
    /// Installation mode
    pub mode: Mode,
    /// Dependency and relationship information
    pub relation: RelationData,
}

/// The view of a [`PackageData`].
pub struct PackageView {
    pub about: AboutView,
    pub architecture: Seq<Seq<char>>,
    pub mode: Mode,
    pub relation: RelationView,
}

impl DeepView for PackageData {
    type V = PackageView;

    open spec fn deep_view(&self) -> PackageView {
        PackageView {
            about: self.about.deep_view(),
            architecture: self.architecture.deep_view(),
            mode: self.mode,
            relation: self.relation.deep_view(),
        }
    }
}

impl Clone for PackageData {
    fn clone(&self) -> (r: PackageData)
        ensures
            r.deep_view() == self.deep_view(),
    {
        PackageData {
            about: self.about.clone(),
            architecture: clone_strings(&self.architecture),
            mode: self.mode,
            relation: self.relation.clone(),
        }
    }
}

impl AuthorAboutData {
    /// The author data of the user `username` on the host `hostname`:
    /// the user's name and the local address `username@hostname.local`.
    pub fn for_user(username: &str, hostname: &str) -> (r: AuthorAboutData)
        ensures
            r.name@ == username@,
            r.email@ == crate::email_address_of(username@, hostname@),
    {
        AuthorAboutData {
            name: string_of(username),
            email: crate::generate_email_address(username, hostname),
        }
    }
}

impl AboutData {
    /// The given author and the default package details.
    pub fn with_author(author: AuthorAboutData) -> (r: AboutData)
        ensures
            r.author.deep_view() == author.deep_view(),
            r.package.name@ == "default-package"@,
            r.package.version@ == "1.0.0"@,
            r.package.description@ == Seq::<char>::empty(),
    {
        AboutData { author, package: PackageAboutData::default() }
    }
}

impl PackageData {
    /// The given author with the default package details, every architecture,
    /// mode `Any` and no relations.
    pub fn with_author(author: AuthorAboutData) -> (r: PackageData)
        ensures
            r.about.author.deep_view() == author.deep_view(),
            r.about.package.name@ == "default-package"@,
            r.about.package.version@ == "1.0.0"@,
            r.about.package.description@ == Seq::<char>::empty(),
            r.architecture@.len() == 0,
            r.mode == Mode::Any,
            r.relation.is_empty_spec(),
    {
        PackageData {
            about: AboutData::with_author(author),
            architecture: Vec::new(),
            mode: Mode::Any,
            relation: RelationData::default(),
        }
    }
}

} // verus!
