//! What one Location admits, and when.

use vstd::prelude::*;
use vstd::string::StringExecFns;

use crate::attempt::Action;
use crate::identity::{AuthenticatedIdentity, AuthenticatedIdentityView, PartyId};
use crate::text;
use crate::window::{self, Moment, Window, WindowView};

verus! {

/// Which way a Location works. An Xmip Process is not a Location, so
/// [`Action::Process`] has no direction here.
#[derive(Clone, Copy, Debug, PartialEq, Eq, Structural)]
pub enum Direction {
    Receive,
    Send,
}

/// The direction an action works in, where it is a Location's.
pub open spec fn direction_of(action: Action) -> Option<Direction> {
    match action {
        Action::Receive => Some(Direction::Receive),
        Action::Send => Some(Direction::Send),
        Action::Process => None,
    }
}

impl Direction {
    /// The direction an action works in, where it is a Location's.
    #[must_use]
    pub fn of(action: Action) -> (r: Option<Self>)
        ensures
            r == direction_of(action),
    {
        match action {
            Action::Receive => Some(Self::Receive),
            Action::Send => Some(Self::Send),
            Action::Process => None,
        }
    }
}

/// What an admission stands for: the Location it speaks for, whom it admits and
/// the hours it keeps, in the order they were declared.
pub struct AdmissionView {
    pub location: Seq<char>,
    pub direction: Direction,
    pub parties: Seq<Seq<char>>,
    pub identities: Seq<Seq<char>>,
    pub anyone: bool,
    pub hours: Seq<WindowView>,
}

impl AdmissionView {
    /// A Location that admits nobody and is open always.
    pub open spec fn at(location: Seq<char>, direction: Direction) -> AdmissionView {
        AdmissionView {
            location,
            direction,
            parties: Seq::empty(),
            identities: Seq::empty(),
            anyone: false,
            hours: Seq::empty(),
        }
    }

    /// Whether this is the Location of that name and direction.
    pub open spec fn covers(self, artifact: Seq<char>, direction: Direction) -> bool {
        self.location == artifact && self.direction == direction
    }

    /// Whether the Location admits an identity: it admits anyone, or the Party
    /// the identity resolved to, or the value on record.
    pub open spec fn admits(self, identity: AuthenticatedIdentityView) -> bool {
        ||| self.anyone
        ||| (identity.party_id matches Some(party) && self.parties.contains(party))
        ||| self.identities.contains(identity.value)
    }

    /// Whether an instant is inside one of the windows.
    pub open spec fn inside_hours(self, at: int) -> bool {
        exists|i: int| 0 <= i < self.hours.len() && (#[trigger] self.hours[i]).holds(at)
    }

    /// Whether the Location is open to an attempt: it keeps no hours, or the
    /// attempt says when it is made and that is inside them.
    pub open spec fn open_at(self, at: int) -> bool {
        self.hours.len() == 0 || (at != 0 && self.inside_hours(at))
    }

    /// The windows in hours and minutes, in the order they were declared.
    pub open spec fn hours_text(self) -> Seq<char> {
        text::join(self.hours.map_values(|w: WindowView| w.written()), ", "@)
    }

    /// Why the hours refuse an attempt, where they do.
    pub open spec fn closed_reason(self, at: int) -> Option<Seq<char>> {
        if self.open_at(at) {
            None
        } else if at == 0 {
            Some(
                "the attempt does not record when it is made, and '"@ + self.location
                    + "' keeps hours"@,
            )
        } else {
            Some(
                "'"@ + self.location + "' is closed at "@ + window::hours_and_minutes(
                    window::second_of_day(at) as nat,
                ) + "; open "@ + self.hours_text(),
            )
        }
    }
}

/// What one Location admits, and when.
#[derive(Clone, Debug, PartialEq, Eq)]
pub struct Admission {
    location: String,
    direction: Direction,
    parties: Vec<PartyId>,
    identities: Vec<String>,
    anyone: bool,
    hours: Vec<Window>,
}

impl View for Admission {
    type V = AdmissionView;

    closed spec fn view(&self) -> AdmissionView {
        AdmissionView {
            location: self.location@,
            direction: self.direction,
            parties: self.parties@.map_values(|party: PartyId| party@),
            identities: self.identities@.map_values(|value: String| value@),
            anyone: self.anyone,
            hours: self.hours@.map_values(|window: Window| window@),
        }
    }
}

impl Admission {
    /// A Receive Location, by the artifact name attempts carry.
    #[must_use]
    pub fn receive(location: &str) -> (r: Self)
        ensures
            r@ == AdmissionView::at(location@, Direction::Receive),
    {
        Self::at(location, Direction::Receive)
    }

    /// A Send Location, by the artifact name attempts carry.
    #[must_use]
    pub fn send(location: &str) -> (r: Self)
        ensures
            r@ == AdmissionView::at(location@, Direction::Send),
    {
        Self::at(location, Direction::Send)
    }

    fn at(location: &str, direction: Direction) -> (r: Self)
        ensures
            r@ == AdmissionView::at(location@, direction),
    {
        let admission = Admission {
            location: String::from_str(location),
            direction,
            parties: Vec::new(),
            identities: Vec::new(),
            anyone: false,
            hours: Vec::new(),
        };
        assert(admission@.parties =~= Seq::empty());
        assert(admission@.identities =~= Seq::empty());
        assert(admission@.hours =~= Seq::empty());
        admission
    }

    /// Admit a Party, by the identifier it was resolved to.
    #[must_use]
    pub fn party(self, party: PartyId) -> (r: Self)
        ensures
            r@ == (AdmissionView { parties: self@.parties.push(party@), ..self@ }),
    {
        let mut admission = self;
        admission.parties.push(party);
        assert(admission@.parties =~= self@.parties.push(party@));
        admission
    }

    /// Admit an identity by the value on record — `CN=partner-x.example`,
    /// a username — whether or not it resolved to a Party.
    #[must_use]
    pub fn identity(self, value: &str) -> (r: Self)
        ensures
            r@ == (AdmissionView { identities: self@.identities.push(value@), ..self@ }),
    {
        let mut admission = self;
        admission.identities.push(String::from_str(value));
        assert(admission@.identities =~= self@.identities.push(value@));
        admission
    }

    /// Admit anyone who was authenticated, anonymous included. The hours
    /// still apply.
    #[must_use]
    pub fn anyone(self) -> (r: Self)
        ensures
            r@ == (AdmissionView { anyone: true, ..self@ }),
    {
        let mut admission = self;
        admission.anyone = true;
        admission
    }

    /// Keep hours. A Location with no window is open always; with one or more,
    /// it is open inside any of them.
    #[must_use]
    pub fn open(self, window: Window) -> (r: Self)
        ensures
            r@ == (AdmissionView { hours: self@.hours.push(window@), ..self@ }),
    {
        let mut admission = self;
        admission.hours.push(window);
        assert(admission@.hours =~= self@.hours.push(window@));
        admission
    }

    /// The name of the Location.
    pub(crate) fn location(&self) -> (r: &str)
        ensures
            r@ == self@.location,
    {
        self.location.as_str()
    }

    /// Whether this is the Location of that name and direction.
    pub(crate) fn covers(&self, artifact: &String, direction: Direction) -> (r: bool)
        ensures
            r == self@.covers(artifact@, direction),
    {
        self.location == *artifact && self.direction == direction
    }

    /// Whether a Party is among those admitted.
    fn names_party(&self, party: &PartyId) -> (r: bool)
        ensures
            r == self@.parties.contains(party@),
    {
        let mut i: usize = 0;
        while i < self.parties.len()
            invariant
                i <= self.parties@.len(),
                forall|k: int| 0 <= k < i ==> (#[trigger] self.parties@[k])@ != party@,
            decreases self.parties@.len() - i,
        {
            if self.parties[i] == *party {
                assert(self@.parties[i as int] == party@);
                return true;
            }
            i = i + 1;
        }
        false
    }

    /// Whether a value is among those admitted.
    fn names_value(&self, value: &String) -> (r: bool)
        ensures
            r == self@.identities.contains(value@),
    {
        let mut i: usize = 0;
        while i < self.identities.len()
            invariant
                i <= self.identities@.len(),
                forall|k: int| 0 <= k < i ==> (#[trigger] self.identities@[k])@ != value@,
            decreases self.identities@.len() - i,
        {
            if self.identities[i] == *value {
                assert(self@.identities[i as int] == value@);
                return true;
            }
            i = i + 1;
        }
        false
    }

    /// Whether the Location admits an identity.
    pub(crate) fn admits(&self, identity: &AuthenticatedIdentity) -> (r: bool)
        ensures
            r == self@.admits(identity@),
    {
        if self.anyone {
            return true;
        }
        if let Some(party) = &identity.party_id {
            if self.names_party(party) {
                return true;
            }
        }
        self.names_value(&identity.value)
    }

    /// The windows in hours and minutes.
    fn hours_text(&self) -> (r: String)
        ensures
            r@ == self@.hours_text(),
    {
        let ghost list = self@.hours.map_values(|w: WindowView| w.written());
        let mut out: String = String::new();
        let mut i: usize = 0;
        assert(list.take(0) =~= Seq::empty());
        while i < self.hours.len()
            invariant
                i <= self.hours@.len() == list.len(),
                forall|k: int| 0 <= k < list.len() ==> list[k] == (#[trigger] self.hours@[k])@.written(),
                out@ == text::join(list.take(i as int), ", "@),
            decreases self.hours@.len() - i,
        {
            let ghost before = list.take(i as int);
            let ghost after = list.take(i + 1);
            assert(after.drop_last() =~= before);
            if i > 0 {
                out.append(", ");
            }
            let written: String = self.hours[i].to_string();
            out.append(written.as_str());
            assert(after.last() == written@);
            assert(out@ =~= text::join(after, ", "@));
            i = i + 1;
        }
        assert(list.take(list.len() as int) =~= list);
        out
    }

    /// `Some(reason)` where the hours refuse the attempt.
    pub(crate) fn closed_at(&self, at: i128) -> (r: Option<String>)
        ensures
            match r {
                Some(reason) => self@.closed_reason(at as int) == Some(reason@),
                None => self@.closed_reason(at as int) is None,
            },
    {
        let mut open: bool = false;
        let mut i: usize = 0;
        while i < self.hours.len()
            invariant
                i <= self.hours@.len(),
                self@.hours.len() == self.hours@.len(),
                i > 0 ==> at != 0,
                open <==> exists|k: int|
                    0 <= k < i && (#[trigger] self@.hours[k]).holds(at as int),
            decreases self.hours@.len() - i,
        {
            assert(self@.hours[i as int] == self.hours@[i as int]@);
            match self.hours[i].admits(at) {
                None => {
                    let mut reason: String = String::from_str(
                        "the attempt does not record when it is made, and '",
                    );
                    reason.append(self.location.as_str());
                    reason.append("' keeps hours");
                    return Some(reason);
                },
                Some(inside) => {
                    open = open || inside;
                },
            }
            i = i + 1;
        }
        if self.hours.len() == 0 || open {
            return None;
        }
        let mut reason: String = String::from_str("'");
        reason.append(self.location.as_str());
        reason.append("' is closed at ");
        if let Some(now) = Moment::of(at) {
            let now: String = now.to_string();
            reason.append(now.as_str());
        }
        reason.append("; open ");
        let hours: String = self.hours_text();
        reason.append(hours.as_str());
        Some(reason)
    }
}

} // verus!
