//! Who an attempt is made by: the Party an identity resolved to, the identity
//! on record, and the identities of one attempt together.

use vstd::prelude::*;
use vstd::string::StringExecFns;

verus! {

/// The identifier of a Party, in its written form. Two identifiers are the same
/// where they are written the same.
#[derive(Clone, Debug, Eq)]
pub struct PartyId {
    written: String,
}

impl View for PartyId {
    type V = Seq<char>;

    closed spec fn view(&self) -> Seq<char> {
        self.written@
    }
}

impl PartialEq for PartyId {
    fn eq(&self, other: &Self) -> (r: bool) {
        self.written == other.written
    }
}

impl vstd::std_specs::cmp::PartialEqSpecImpl for PartyId {
    open spec fn obeys_eq_spec() -> bool {
        true
    }

    open spec fn eq_spec(&self, other: &Self) -> bool {
        self@ == other@
    }
}

impl PartyId {
    /// The Party whose identifier is written so.
    #[must_use]
    pub fn new(written: &str) -> (r: Self)
        ensures
            r@ == written@,
    {
        PartyId { written: String::from_str(written) }
    }

    /// The identifier in its written form.
    #[must_use]
    pub fn as_str(&self) -> (r: &str)
        ensures
            r@ == self@,
    {
        self.written.as_str()
    }
}

/// What an authenticated identity stands for.
pub struct AuthenticatedIdentityView {
    pub mechanism: Seq<char>,
    pub value: Seq<char>,
    pub party_id: Option<Seq<char>>,
}

/// An identity as it was recorded: the mechanism that proved it, the value
/// it proved, and the Party it resolved to, where it resolved to one.
#[derive(Clone, Debug, PartialEq, Eq)]
pub struct AuthenticatedIdentity {
    pub mechanism: String,
    pub value: String,
    pub party_id: Option<PartyId>,
}

impl View for AuthenticatedIdentity {
    type V = AuthenticatedIdentityView;

    open spec fn view(&self) -> AuthenticatedIdentityView {
        AuthenticatedIdentityView {
            mechanism: self.mechanism@,
            value: self.value@,
            party_id: match self.party_id {
                Some(party) => Some(party@),
                None => None,
            },
        }
    }
}

impl AuthenticatedIdentity {
    /// An identity that resolved to no Party.
    #[must_use]
    pub fn new(mechanism: &str, value: &str) -> (r: Self)
        ensures
            r@ == (AuthenticatedIdentityView {
                mechanism: mechanism@,
                value: value@,
                party_id: None,
            }),
    {
        AuthenticatedIdentity {
            mechanism: String::from_str(mechanism),
            value: String::from_str(value),
            party_id: None,
        }
    }

    /// The same identity, resolved to a Party.
    #[must_use]
    pub fn resolving_to(self, party: PartyId) -> (r: Self)
        ensures
            r@ == (AuthenticatedIdentityView { party_id: Some(party@), ..self@ }),
    {
        AuthenticatedIdentity {
            mechanism: self.mechanism,
            value: self.value,
            party_id: Some(party),
        }
    }
}

/// What the identities of an attempt stand for.
pub struct IdentityFactsView {
    pub transport: AuthenticatedIdentityView,
    pub message: Option<AuthenticatedIdentityView>,
}

/// The identities of one attempt: the one the connection proved, and the one
/// the message carries, where it carries one.
#[derive(Clone, Debug, PartialEq, Eq)]
pub struct IdentityFacts {
    transport: AuthenticatedIdentity,
    message: Option<AuthenticatedIdentity>,
}

impl View for IdentityFacts {
    type V = IdentityFactsView;

    closed spec fn view(&self) -> IdentityFactsView {
        IdentityFactsView {
            transport: self.transport@,
            message: match self.message {
                Some(message) => Some(message@),
                None => None,
            },
        }
    }
}

impl IdentityFacts {
    /// The identities of an attempt.
    #[must_use]
    pub fn new(
        transport: AuthenticatedIdentity,
        message: Option<AuthenticatedIdentity>,
    ) -> (r: Self)
        ensures
            r@.transport == transport@,
            match message {
                Some(identity) => r@.message == Some(identity@),
                None => r@.message is None,
            },
    {
        IdentityFacts { transport, message }
    }

    /// The identity that answers for the attempt: the transport identity.
    #[must_use]
    pub fn accountable(&self) -> (r: &AuthenticatedIdentity)
        ensures
            r@ == self@.transport,
    {
        &self.transport
    }
}

} // verus!
