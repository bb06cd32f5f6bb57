//! The policy: the Locations a deployment has declared, and what it says to an
//! attempt on one of them.

use vstd::prelude::*;
use vstd::string::StringExecFns;

use crate::admission::{self, Admission, AdmissionView, Direction};
use crate::attempt::{self, Attempt, AttemptView, Decision, DecisionView, Layer};
use crate::identity::{
    AuthenticatedIdentity, AuthenticatedIdentityView, IdentityFacts, IdentityFactsView,
};

verus! {

/// The manifest leaf, and the name a denial carries.
pub const NAME: &'static str = "location";

/// The declaration that is consulted for a name and a direction: the first one
/// made, where there is any.
pub open spec fn consulted(
    admissions: Seq<AdmissionView>,
    artifact: Seq<char>,
    direction: Direction,
) -> Option<AdmissionView>
    decreases admissions.len(),
{
    if admissions.len() == 0 {
        None
    } else if admissions.first().covers(artifact, direction) {
        Some(admissions.first())
    } else {
        consulted(admissions.drop_first(), artifact, direction)
    }
}

/// Why a Location that is open refuses an identity it does not admit.
pub open spec fn not_admitted_reason(
    location: Seq<char>,
    identity: AuthenticatedIdentityView,
) -> Seq<char> {
    "'"@ + location + "' does not admit "@ + identity.mechanism + "="@ + identity.value + (
    match identity.party_id {
        Some(party) => ", resolved to Party "@ + party,
        None => Seq::empty(),
    })
}

/// What a Location says to an identity at an instant. The hours come first.
pub open spec fn answer(
    admission: AdmissionView,
    identity: AuthenticatedIdentityView,
    at: int,
) -> DecisionView {
    match admission.closed_reason(at) {
        Some(reason) => DecisionView::Denied { by: NAME@, reason },
        None => if admission.admits(identity) {
            DecisionView::Allowed
        } else {
            DecisionView::Denied {
                by: NAME@,
                reason: not_admitted_reason(admission.location, identity),
            }
        },
    }
}

/// What the declared Locations say to an attempt: the answer of the one the
/// attempt is on, to the transport identity, and no opinion on anything else.
pub open spec fn decision(
    admissions: Seq<AdmissionView>,
    identity: IdentityFactsView,
    attempt: AttemptView,
) -> Option<DecisionView> {
    match admission::direction_of(attempt.action) {
        None => None,
        Some(direction) => match consulted(admissions, attempt.artifact, direction) {
            None => None,
            Some(admission) => Some(answer(admission, identity.transport, attempt.at)),
        },
    }
}

/// The Locations this deployment has declared, one [`Admission`] each.
#[derive(Clone, Debug, PartialEq, Eq)]
pub struct LocationPolicy {
    admissions: Vec<Admission>,
}

impl View for LocationPolicy {
    type V = Seq<AdmissionView>;

    closed spec fn view(&self) -> Seq<AdmissionView> {
        self.admissions@.map_values(|admission: Admission| admission@)
    }
}

impl Default for LocationPolicy {
    /// A policy that declares no Location.
    fn default() -> (r: Self)
        ensures
            r@ == Seq::<AdmissionView>::empty(),
    {
        let policy = LocationPolicy { admissions: Vec::new() };
        assert(policy@ =~= Seq::empty());
        policy
    }
}

impl LocationPolicy {
    /// A policy that declares no Location.
    #[must_use]
    pub fn new() -> (r: Self)
        ensures
            r@ == Seq::<AdmissionView>::empty(),
    {
        Self::default()
    }

    /// Declare one Location. The first declaration for a name and direction
    /// is the one consulted.
    #[must_use]
    pub fn declare(self, admission: Admission) -> (r: Self)
        ensures
            r@ == self@.push(admission@),
    {
        let mut policy = self;
        policy.admissions.push(admission);
        assert(policy@ =~= self@.push(admission@));
        policy
    }

    /// The name a denial carries.
    #[must_use]
    pub fn name(&self) -> (r: &str)
        ensures
            r@ == NAME@,
    {
        NAME
    }

    /// The layer the policy answers at.
    #[must_use]
    pub fn layer(&self) -> (r: Layer)
        ensures
            r == Layer::Transport,
    {
        Layer::Transport
    }

    /// The declaration that is consulted for a name and a direction.
    fn find(&self, artifact: &String, direction: Direction) -> (r: Option<&Admission>)
        ensures
            match r {
                Some(admission) => consulted(self@, artifact@, direction) == Some(admission@),
                None => consulted(self@, artifact@, direction) is None,
            },
    {
        let mut i: usize = 0;
        assert(self@.skip(0) =~= self@);
        while i < self.admissions.len()
            invariant
                i <= self.admissions@.len() == self@.len(),
                consulted(self@, artifact@, direction) == consulted(
                    self@.skip(i as int),
                    artifact@,
                    direction,
                ),
            decreases self.admissions@.len() - i,
        {
            let ghost rest = self@.skip(i as int);
            assert(rest.first() == self.admissions@[i as int]@);
            assert(rest.drop_first() =~= self@.skip(i + 1));
            if self.admissions[i].covers(artifact, direction) {
                return Some(&self.admissions[i]);
            }
            i = i + 1;
        }
        None
    }

    /// What the policy says to an attempt by these identities; `None` is no
    /// opinion.
    #[must_use]
    pub fn decide(&self, identity: &IdentityFacts, attempt: &Attempt) -> (r: Option<Decision>)
        ensures
            attempt::opinion(r) == decision(self@, identity@, attempt@),
    {
        let direction: Direction = match Direction::of(attempt.action) {
            Some(direction) => direction,
            None => {
                return None;
            },
        };
        let admission: &Admission = match self.find(&attempt.artifact, direction) {
            Some(admission) => admission,
            None => {
                return None;
            },
        };
        if let Some(reason) = admission.closed_at(attempt.at) {
            return Some(Decision::denied(NAME, reason));
        }
        let accountable: &AuthenticatedIdentity = identity.accountable();
        if admission.admits(accountable) {
            return Some(Decision::Allowed);
        }
        let mut reason: String = String::from_str("'");
        reason.append(admission.location());
        reason.append("' does not admit ");
        reason.append(accountable.mechanism.as_str());
        reason.append("=");
        reason.append(accountable.value.as_str());
        let mut party: String = String::new();
        if let Some(id) = &accountable.party_id {
            party.append(", resolved to Party ");
            party.append(id.as_str());
            assert(party@ =~= ", resolved to Party "@ + id@);
        }
        reason.append(party.as_str());
        Some(Decision::denied(NAME, reason))
    }
}

} // verus!
