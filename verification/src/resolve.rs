//! Choosing the version range of a resolved package, and the decisions of the
//! driver that runs the lookups: how many run at once, and what the first
//! failure does to the rest.

use crate::entries::{SelectedPackage, SelectedPackageView};
use crate::requirement::{name_of, AddPackageReq, AddPackageReqView};
use crate::text::starts_with;
use vstd::prelude::*;
use vstd::string::*;

verus! {

/// What a lookup of one requirement came to.
#[derive(Debug, Clone)]
pub enum PackageAndVersion {
    /// The registry holds no version that matches; the package's name with
    /// its registry scheme.
    NotFound(String),
    Selected(SelectedPackage),
}

pub enum PackageAndVersionView {
    NotFound(Seq<char>),
    Selected(SelectedPackageView),
}

impl View for PackageAndVersion {
    type V = PackageAndVersionView;

    open spec fn view(&self) -> PackageAndVersionView {
        match self {
            PackageAndVersion::NotFound(name) => PackageAndVersionView::NotFound(name@),
            PackageAndVersion::Selected(selected) => PackageAndVersionView::Selected(selected@),
        }
    }
}

/// The text of a requirement's version constraint.
pub open spec fn version_text(req: AddPackageReqView) -> Seq<char> {
    match req {
        AddPackageReqView::Jsr { version_text, .. } => version_text,
        AddPackageReqView::Npm { version_text, .. } => version_text,
    }
}

/// The name of a requirement's package with its registry scheme in front.
pub open spec fn prefixed_name(req: AddPackageReqView) -> Seq<char> {
    match req {
        AddPackageReqView::Jsr { name, .. } => "jsr:"@ + name,
        AddPackageReqView::Npm { name, .. } => "npm:"@ + name,
    }
}

/// The range operator for a constraint: `~` where the constraint begins with
/// it, `^` for every other one.
pub open spec fn range_symbol(version_text: Seq<char>) -> Seq<char> {
    if "~"@.is_prefix_of(version_text) {
        "~"@
    } else {
        "^"@
    }
}

/// What a lookup of `req` comes to, given the version that the registry
/// resolved it to, if any.
pub open spec fn selection(req: AddPackageReqView, resolved: Option<Seq<char>>) -> PackageAndVersionView {
    match resolved {
        None => PackageAndVersionView::NotFound(prefixed_name(req)),
        Some(version) => PackageAndVersionView::Selected(
            SelectedPackageView {
                import_name: name_of(req),
                package_name: prefixed_name(req),
                version_req: range_symbol(version_text(req)) + version,
            },
        ),
    }
}

/// The package's name with its registry scheme in front.
pub fn prefixed_package_name(add_package_req: &AddPackageReq) -> (r: String)
    ensures
        r@ == prefixed_name(add_package_req@),
{
    match add_package_req {
        AddPackageReq::Jsr(req) => {
            let mut name = String::from_str("jsr:");
            name.append(req.name.as_str());
            name
        },
        AddPackageReq::Npm(req) => {
            let mut name = String::from_str("npm:");
            name.append(req.name.as_str());
            name
        },
    }
}

/// Makes the entry for a requirement out of what its registry's lookup
/// returned: the resolved version, or `None` where no version matches.
///
/// The version range is the resolved version behind `~` where the
/// requirement's constraint begins with `~`, and behind `^` otherwise.
pub fn find_package_and_select_version_for_req(
    add_package_req: &AddPackageReq,
    resolved_version: Option<String>,
) -> (r: PackageAndVersion)
    ensures
        r@ == selection(add_package_req@, resolved_version.deep_view()),
        r matches PackageAndVersion::Selected(selected) ==> selected.version_req@.len() > 0 && (
        selected.version_req@[0] == '~' || selected.version_req@[0] == '^'),
{
    let prefixed = prefixed_package_name(add_package_req);
    let version = match resolved_version {
        None => {
            return PackageAndVersion::NotFound(prefixed);
        },
        Some(version) => version,
    };
    let req = match add_package_req {
        AddPackageReq::Jsr(req) => req,
        AddPackageReq::Npm(req) => req,
    };
    let mut version_req = if starts_with(req.version_text.as_str(), "~") {
        String::from_str("~")
    } else {
        String::from_str("^")
    };
    proof {
        reveal_strlit("~");
        reveal_strlit("^");
    }
    version_req.append(version.as_str());
    PackageAndVersion::Selected(
        SelectedPackage { import_name: req.name.clone(), package_name: prefixed, version_req },
    )
}

} // verus!
