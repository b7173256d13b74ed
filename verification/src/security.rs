//! Trusted security identities and the authorization vocabulary shared by
//! Core subsystems.

use vstd::prelude::*;
use crate::identity::{CapabilityId, EngineId, Identifier};

verus! {

/// The kind of principal an identity describes.
#[derive(Clone, Copy, Debug, PartialEq, Eq, Structural)]
pub enum PrincipalType {
    Engine,
    Service,
    User,
}

/// The identity of a principal.
pub type PrincipalId = Identifier;

/// Abstract value of a principal identity.
pub struct PrincipalView {
    pub principal_type: PrincipalType,
    pub principal_id: Seq<char>,
}

/// A trusted principal: its kind and identity.
#[derive(Debug, PartialEq, Eq)]
pub struct PrincipalIdentity {
    principal_type: PrincipalType,
    principal_id: PrincipalId,
}

impl View for PrincipalIdentity {
    type V = PrincipalView;

    closed spec fn view(&self) -> PrincipalView {
        PrincipalView { principal_type: self.principal_type, principal_id: self.principal_id@ }
    }
}

impl Clone for PrincipalIdentity {
    fn clone(&self) -> (r: Self)
        ensures
            r@ == self@,
    {
        PrincipalIdentity {
            principal_type: self.principal_type,
            principal_id: self.principal_id.clone(),
        }
    }
}

impl PrincipalIdentity {
    /// Creates a principal identity.
    pub fn new(principal_type: PrincipalType, principal_id: PrincipalId) -> (r: PrincipalIdentity)
        ensures
            r@ == (PrincipalView { principal_type, principal_id: principal_id@ }),
    {
        PrincipalIdentity { principal_type, principal_id }
    }

    /// Returns the kind of principal.
    pub fn principal_type(&self) -> (r: PrincipalType)
        ensures
            r == self@.principal_type,
    {
        self.principal_type
    }

    /// Returns the principal's identity.
    pub fn principal_id(&self) -> (r: &PrincipalId)
        ensures
            r@ == self@.principal_id,
    {
        &self.principal_id
    }
}

/// Abstract value of a security context.
pub struct SecurityContextView {
    pub principal: PrincipalView,
    pub calling_service: Option<Seq<char>>,
}

/// The trusted identity on whose behalf work is performed.
#[derive(Debug, PartialEq, Eq)]
pub struct SecurityContext {
    principal: PrincipalIdentity,
    calling_service: Option<EngineId>,
}

impl View for SecurityContext {
    type V = SecurityContextView;

    closed spec fn view(&self) -> SecurityContextView {
        SecurityContextView {
            principal: self.principal@,
            calling_service: match self.calling_service {
                Some(s) => Some(s@),
                None => None,
            },
        }
    }
}

impl Clone for SecurityContext {
    fn clone(&self) -> (r: Self)
        ensures
            r@ == self@,
    {
        let calling_service = match &self.calling_service {
            Some(s) => Some(s.clone()),
            None => None,
        };
        SecurityContext { principal: self.principal.clone(), calling_service }
    }
}

impl SecurityContext {
    /// Creates a security context for a principal, optionally acting through
    /// a calling service.
    pub fn new(principal: PrincipalIdentity, calling_service: Option<EngineId>) -> (r:
        SecurityContext)
        ensures
            r@ == (SecurityContextView {
                principal: principal@,
                calling_service: match calling_service {
                    Some(s) => Some(s@),
                    None => None,
                },
            }),
    {
        SecurityContext { principal, calling_service }
    }

    /// Returns the principal.
    pub fn principal(&self) -> (r: &PrincipalIdentity)
        ensures
            r@ == self@.principal,
    {
        &self.principal
    }

    /// Returns the calling service, when present.
    pub fn calling_service(&self) -> (r: Option<&EngineId>)
        ensures
            match r {
                Some(s) => self@.calling_service == Some(s@),
                None => self@.calling_service is None,
            },
    {
        self.calling_service.as_ref()
    }
}

/// The verdict of an authorization check.
#[derive(Clone, Copy, Debug, PartialEq, Eq, Structural)]
pub enum AuthorizationDecision {
    Allow,
    Deny,
}

/// Failure of an authorization check itself.
#[derive(Clone, Copy, Debug, PartialEq, Eq, Structural)]
pub enum AuthorizationError {
    /// The authority could not evaluate the request.
    Failed,
}

impl AuthorizationError {
    /// Human-readable description of the error.
    pub fn to_string(&self) -> (r: String)
        ensures
            r@ == "authorization evaluation failed"@,
    {
        "authorization evaluation failed".to_string()
    }
}

/// Abstract value of an authorization request.
pub struct AuthorizationRequestView {
    pub principal: PrincipalView,
    pub calling_service: Option<Seq<char>>,
    pub capability: Seq<char>,
}

/// A request to authorize a principal for one capability.
#[derive(Debug, PartialEq, Eq)]
pub struct AuthorizationRequest {
    principal: PrincipalIdentity,
    calling_service: Option<EngineId>,
    capability: CapabilityId,
}

impl View for AuthorizationRequest {
    type V = AuthorizationRequestView;

    closed spec fn view(&self) -> AuthorizationRequestView {
        AuthorizationRequestView {
            principal: self.principal@,
            calling_service: match self.calling_service {
                Some(s) => Some(s@),
                None => None,
            },
            capability: self.capability@,
        }
    }
}

impl AuthorizationRequest {
    /// Creates a request for the principal and calling service of a security
    /// context and one capability.
    pub fn new(context: &SecurityContext, capability: &CapabilityId) -> (r: AuthorizationRequest)
        ensures
            r@ == (AuthorizationRequestView {
                principal: context@.principal,
                calling_service: context@.calling_service,
                capability: capability@,
            }),
    {
        let calling_service = match context.calling_service() {
            Some(s) => Some(s.clone()),
            None => None,
        };
        AuthorizationRequest {
            principal: context.principal().clone(),
            calling_service,
            capability: capability.clone(),
        }
    }

    /// Returns the principal to authorize.
    pub fn principal(&self) -> (r: &PrincipalIdentity)
        ensures
            r@ == self@.principal,
    {
        &self.principal
    }

    /// Returns the calling service, when present.
    pub fn calling_service(&self) -> (r: Option<&EngineId>)
        ensures
            match r {
                Some(s) => self@.calling_service == Some(s@),
                None => self@.calling_service is None,
            },
    {
        self.calling_service.as_ref()
    }

    /// Returns the protected capability.
    pub fn capability(&self) -> (r: &CapabilityId)
        ensures
            r@ == self@.capability,
    {
        &self.capability
    }
}

} // verus!
