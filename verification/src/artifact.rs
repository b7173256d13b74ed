//! References to externally managed artifacts.
//!
//! A reference names an artifact and one of its versions; it never resolves
//! or loads the artifact. A reference is valid when its version is not blank.

use vstd::prelude::*;
use crate::identity::ArtifactId;
use crate::text::{is_blank, str_is_blank};

verus! {

/// Abstract value of an artifact reference.
pub struct ArtifactReferenceView {
    pub artifact_id: Seq<char>,
    pub version: Seq<char>,
}

/// A reference to one version of an externally managed artifact.
#[derive(Debug, PartialEq, Eq)]
pub struct ArtifactReference {
    artifact_id: ArtifactId,
    version: String,
}

impl View for ArtifactReference {
    type V = ArtifactReferenceView;

    closed spec fn view(&self) -> ArtifactReferenceView {
        ArtifactReferenceView { artifact_id: self.artifact_id@, version: self.version@ }
    }
}

impl Clone for ArtifactReference {
    fn clone(&self) -> (r: Self)
        ensures
            r@ == self@,
    {
        ArtifactReference { artifact_id: self.artifact_id.clone(), version: self.version.clone() }
    }
}

/// A reference is valid when its version is not blank.
pub open spec fn artifact_reference_valid(r: ArtifactReferenceView) -> bool {
    !is_blank(r.version)
}

impl ArtifactReference {
    /// Creates a reference to one artifact version.
    pub fn new(artifact_id: ArtifactId, version: &str) -> (r: ArtifactReference)
        ensures
            r@ == (ArtifactReferenceView { artifact_id: artifact_id@, version: version@ }),
    {
        ArtifactReference { artifact_id, version: version.to_owned() }
    }

    /// Returns the referenced artifact.
    pub fn artifact_id(&self) -> (r: &ArtifactId)
        ensures
            r@ == self@.artifact_id,
    {
        &self.artifact_id
    }

    /// Returns the referenced version.
    pub fn version(&self) -> (r: &str)
        ensures
            r@ == self@.version,
    {
        self.version.as_str()
    }

    /// Whether the reference names a version.
    pub fn is_valid(&self) -> (r: bool)
        ensures
            r == artifact_reference_valid(self@),
    {
        !str_is_blank(self.version.as_str())
    }
}

} // verus!
