//! Packages of a dependency graph: a name, a version and an origin.

use vstd::prelude::*;
use crate::origin::{
    origin_wf,
    render_origin,
    same_source,
    Origin,
    OriginView,
};
use crate::text::{chars_of, contains_char};
use crate::version::{render_version, version_wf, Version, VersionView};

verus! {

/// A concrete package of a dependency graph.
#[derive(Debug, PartialEq, Eq)]
pub struct PackageIdentity {
    pub name: String,
    pub version: Version,
    pub origin: Origin,
}

/// The mathematical value of a [`PackageIdentity`].
pub struct PackageView {
    pub name: Seq<char>,
    pub version: VersionView,
    pub origin: OriginView,
}

impl View for PackageIdentity {
    type V = PackageView;

    open spec fn view(&self) -> PackageView {
        PackageView { name: self.name@, version: self.version@, origin: self.origin@ }
    }
}

/// Validity of a package name: not empty, and free of the separators `#` and `:`.
pub open spec fn name_wf(name: Seq<char>) -> bool {
    &&& name.len() > 0
    &&& !name.contains('#')
    &&& !name.contains(':')
}

/// Validity of a package: its name, its version and its origin are valid.
pub open spec fn package_wf(p: PackageView) -> bool {
    &&& name_wf(p.name)
    &&& version_wf(p.version)
    &&& origin_wf(p.origin)
}

/// Tells whether two packages are one: the same name, the same version and
/// the same source.
pub open spec fn same_package(a: PackageView, b: PackageView) -> bool {
    &&& a.name == b.name
    &&& a.version == b.version
    &&& same_source(a.origin, b.origin)
}

/// The canonical text of a package: `origin#name:version`.
pub open spec fn render_package(p: PackageView) -> Seq<char> {
    render_origin(p.origin) + seq!['#'] + p.name + seq![':'] + render_version(p.version)
}

impl PackageIdentity {
    /// Validity: the name, the version and the origin are valid.
    pub open spec fn wf(&self) -> bool {
        package_wf(self@)
    }

    /// Tells whether the package is valid.
    pub fn is_valid(&self) -> (r: bool)
        ensures
            r == self.wf(),
    {
        let name = chars_of(self.name.as_str());
        name.len() > 0 && !contains_char(&name, '#') && !contains_char(&name, ':')
            && self.version.is_valid() && self.origin.is_valid()
    }

    /// Tells whether this package and another are one.
    pub fn same(&self, other: &PackageIdentity) -> (r: bool)
        ensures
            r == same_package(self@, other@),
    {
        self.name == other.name && self.version.same(&other.version) && self.origin.same_source(
            &other.origin,
        )
    }

    /// The canonical text of the package: `origin#name:version`.
    pub fn to_spec_string(&self) -> (r: String)
        ensures
            r@ == render_package(self@),
    {
        let mut out = self.origin.to_text();
        out.append("#");
        out.append(self.name.as_str());
        out.append(":");
        let version = self.version.to_text();
        out.append(version.as_str());
        proof {
            reveal_strlit("#");
            reveal_strlit(":");
            assert("#"@ =~= seq!['#']);
            assert(":"@ =~= seq![':']);
        }
        out
    }
}

impl Clone for PackageIdentity {
    fn clone(&self) -> (r: Self)
        ensures
            r == *self,
    {
        PackageIdentity {
            name: self.name.clone(),
            version: self.version.clone(),
            origin: self.origin.clone(),
        }
    }
}

} // verus!
