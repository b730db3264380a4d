//! The unit of work: a package whose upstream repository a target can star.
use vstd::prelude::*;

verus! {

/// A discovered package, bound to the target that will star it.
#[derive(Debug, Clone)]
pub struct Package {
    /// Human-readable name of the package (not unique).
    pub name: String,
    /// Target-specific key of the upstream repository (e.g. `owner/repo`).
    pub identifier: String,
    /// Name of the target responsible for this package.
    pub target: String,
}

/// Mathematical model of a [`Package`].
pub ghost struct PackageView {
    pub name: Seq<char>,
    pub identifier: Seq<char>,
    pub target: Seq<char>,
}

impl View for Package {
    type V = PackageView;

    open spec fn view(&self) -> PackageView {
        PackageView { name: self.name@, identifier: self.identifier@, target: self.target@ }
    }
}

pub open spec fn packages_view(v: Seq<Package>) -> Seq<PackageView> {
    v.map_values(|p: Package| p@)
}

pub open spec fn package_option_view(p: Option<Package>) -> Option<PackageView> {
    match p {
        Some(p) => Some(p@),
        None => None,
    }
}

impl Package {
    pub fn new(name: String, identifier: String, target: String) -> (r: Package)
        ensures
            r.name == name,
            r.identifier == identifier,
            r.target == target,
    {
        Package { name, identifier, target }
    }

    /// The text shown for this package in messages: its name.
    pub fn display(&self) -> (r: String)
        ensures
            r@ == self.name@,
    {
        self.name.clone()
    }
}

} // verus!
