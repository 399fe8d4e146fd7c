//! The description of a runtime under test, as its manifest file gives it.
use vstd::prelude::*;
use crate::text::views;

verus! {

/// The description of one runtime under test.
pub struct Manifest {
    pub display_name: String,
    pub runtime: String,
    pub handler: String,
    pub path: String,
    pub architectures: Vec<String>,
}

pub struct ManifestView {
    pub display_name: Seq<char>,
    pub runtime: Seq<char>,
    pub handler: Seq<char>,
    pub path: Seq<char>,
    pub architectures: Seq<Seq<char>>,
}

impl View for Manifest {
    type V = ManifestView;

    open spec fn view(&self) -> ManifestView {
        ManifestView {
            display_name: self.display_name@,
            runtime: self.runtime@,
            handler: self.handler@,
            path: self.path@,
            architectures: views(self.architectures@),
        }
    }
}

pub open spec fn manifest_views(rs: Seq<Manifest>) -> Seq<ManifestView> {
    rs.map_values(|m: Manifest| m@)
}

} // verus!
