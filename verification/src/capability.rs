//! Declarative capability advertisements.

use vstd::prelude::*;
use crate::contracts::Version;
use crate::identity::{CapabilityId, EngineId};
use crate::text::{is_blank, str_is_blank};

verus! {

/// Error returned when a capability name is blank.
#[derive(Clone, Copy, Debug, PartialEq, Eq, Structural)]
pub struct InvalidCapabilityDefinition;

/// A capability advertised by its owning engine.
#[derive(Debug, PartialEq, Eq)]
pub struct CapabilityDefinition {
    capability_id: CapabilityId,
    owning_engine: EngineId,
    name: String,
    description: Option<String>,
    version: Option<Version>,
}

/// Abstract value of a capability definition.
pub struct CapabilityView {
    pub capability_id: Seq<char>,
    pub owning_engine: Seq<char>,
    pub name: Seq<char>,
    pub description: Option<Seq<char>>,
    pub version: Option<Version>,
}

impl View for CapabilityDefinition {
    type V = CapabilityView;

    closed spec fn view(&self) -> CapabilityView {
        CapabilityView {
            capability_id: self.capability_id@,
            owning_engine: self.owning_engine@,
            name: self.name@,
            description: match self.description {
                Some(d) => Some(d@),
                None => None,
            },
            version: self.version,
        }
    }
}

impl Clone for CapabilityDefinition {
    fn clone(&self) -> (r: Self)
        ensures
            r@ == self@,
    {
        let description = match &self.description {
            Some(d) => Some(d.clone()),
            None => None,
        };
        CapabilityDefinition {
            capability_id: self.capability_id.clone(),
            owning_engine: self.owning_engine.clone(),
            name: self.name.clone(),
            description,
            version: self.version,
        }
    }
}

impl CapabilityDefinition {
    /// Creates a capability advertisement with a non-blank name.
    pub fn new(capability_id: CapabilityId, owning_engine: EngineId, name: &str) -> (r: Result<
        CapabilityDefinition,
        InvalidCapabilityDefinition,
    >)
        ensures
            r is Ok <==> !is_blank(name@),
            r matches Ok(c) ==> c@ == (CapabilityView {
                capability_id: capability_id@,
                owning_engine: owning_engine@,
                name: name@,
                description: None,
                version: None,
            }),
    {
        if str_is_blank(name) {
            Err(InvalidCapabilityDefinition)
        } else {
            Ok(
                CapabilityDefinition {
                    capability_id,
                    owning_engine,
                    name: name.to_owned(),
                    description: None,
                    version: None,
                },
            )
        }
    }

    /// Returns the definition with a non-blank description.
    pub fn with_description(self, description: &str) -> (r: Result<
        CapabilityDefinition,
        InvalidCapabilityDefinition,
    >)
        ensures
            r is Ok <==> !is_blank(description@),
            r matches Ok(c) ==> c@ == (CapabilityView { description: Some(description@), ..self@ }),
    {
        if str_is_blank(description) {
            Err(InvalidCapabilityDefinition)
        } else {
            Ok(CapabilityDefinition { description: Some(description.to_owned()), ..self })
        }
    }

    /// Returns the definition with a definition version.
    pub fn with_version(self, version: Version) -> (r: CapabilityDefinition)
        ensures
            r@ == (CapabilityView { version: Some(version), ..self@ }),
    {
        CapabilityDefinition { version: Some(version), ..self }
    }

    /// Returns the optional description.
    pub fn description(&self) -> (r: Option<&str>)
        ensures
            match r {
                Some(d) => self@.description == Some(d@),
                None => self@.description is None,
            },
    {
        match &self.description {
            Some(d) => Some(d.as_str()),
            None => None,
        }
    }

    /// Returns the optional definition version.
    pub fn version(&self) -> (r: Option<Version>)
        ensures
            r == self@.version,
    {
        self.version
    }

    /// Returns the advertised capability identity.
    pub fn capability_id(&self) -> (r: &CapabilityId)
        ensures
            r@ == self@.capability_id,
    {
        &self.capability_id
    }

    /// Returns the engine that owns the capability.
    pub fn owning_engine(&self) -> (r: &EngineId)
        ensures
            r@ == self@.owning_engine,
    {
        &self.owning_engine
    }

    /// Returns the capability name.
    pub fn name(&self) -> (r: &str)
        ensures
            r@ == self@.name,
    {
        self.name.as_str()
    }
}

} // verus!
