//! The policy: what it says to an attempt on a Location.

use location::{
    Action, Admission, Attempt, AuthenticatedIdentity, Decision, Direction, IdentityFacts, Layer,
    LocationPolicy, Moment, PartyId, Weekday, Window, NAME,
};

const HOUR: i128 = 3_600 * 1_000_000_000;

/// The Party with a number, in its written form.
fn party(number: u128) -> PartyId {
    let digits = format!("{number:032x}");
    PartyId::new(&format!(
        "{}-{}-{}-{}-{}",
        &digits[..8],
        &digits[8..12],
        &digits[12..16],
        &digits[16..20],
        &digits[20..]
    ))
}

fn tls(party: Option<PartyId>) -> IdentityFacts {
    let identity = AuthenticatedIdentity::new("mutual-tls", "CN=partner-x.example");
    let identity = match party {
        Some(party) => identity.resolving_to(party),
        None => identity,
    };

    IdentityFacts::new(identity, None)
}

fn policy() -> LocationPolicy {
    LocationPolicy::new()
        .declare(Admission::receive("partner-x").party(party(1)))
        .declare(Admission::send("Billing").identity("CN=partner-x.example"))
}

fn between(from: &str, to: &str) -> Window {
    Window::between(
        Moment::parse(from).expect("time"),
        Moment::parse(to).expect("time"),
    )
}

fn refusal(decision: Option<Decision>) -> String {
    decision
        .expect("an opinion")
        .refusal()
        .expect("a denial")
}

#[test]
fn a_party_the_location_names_is_admitted() {
    let decision = policy().decide(
        &tls(Some(party(1))),
        &Attempt::new(Action::Receive, "partner-x"),
    );

    assert_eq!(decision, Some(Decision::Allowed));
    assert_eq!(policy().name(), "location");
    assert_eq!(policy().layer(), Layer::Transport);
}

#[test]
fn an_identity_the_location_does_not_name_is_refused_by_name() {
    let decision = policy()
        .decide(
            &tls(Some(party(2))),
            &Attempt::new(Action::Receive, "partner-x"),
        )
        .expect("an opinion");

    assert_eq!(
        decision.refusal().expect("a denial"),
        "denied by location: 'partner-x' does not admit \
         mutual-tls=CN=partner-x.example, resolved to Party \
         00000000-0000-0000-0000-000000000002"
    );
}

#[test]
fn a_location_the_policy_does_not_name_is_no_opinion() {
    // The policy speaks only for the Locations it declares; a Process is
    // not a Location at all.
    let facts = tls(Some(party(1)));

    assert_eq!(
        policy().decide(&facts, &Attempt::new(Action::Receive, "partner-y")),
        None
    );
    assert_eq!(
        policy().decide(&facts, &Attempt::new(Action::Process, "partner-x")),
        None
    );
}

#[test]
fn a_send_location_admits_by_recorded_value_where_no_party_resolved() {
    // The same identity, admitted on the Send Location by its value, is
    // not admitted on the Receive Location that names a Party it never
    // resolved to.
    let facts = tls(None);

    assert_eq!(
        policy().decide(&facts, &Attempt::new(Action::Send, "Billing")),
        Some(Decision::Allowed)
    );
    assert_eq!(
        policy()
            .decide(&facts, &Attempt::new(Action::Receive, "partner-x"))
            .expect("an opinion")
            .refusal()
            .expect("a denial"),
        "denied by location: 'partner-x' does not admit mutual-tls=CN=partner-x.example"
    );
}

#[test]
fn a_location_with_hours_refuses_outside_them_and_an_attempt_with_no_clock() {
    let office = Window::between(
        Moment::parse("08:00").expect("time"),
        Moment::parse("17:00").expect("time"),
    );
    let policy =
        LocationPolicy::new().declare(Admission::receive("orders").anyone().open(office));
    let facts = tls(None);
    let attempt = |at: i128| Attempt::new(Action::Receive, "orders").at(at);

    assert_eq!(
        policy.decide(&facts, &attempt(10 * HOUR)),
        Some(Decision::Allowed)
    );
    assert_eq!(
        policy
            .decide(&facts, &attempt(19 * HOUR))
            .expect("an opinion")
            .refusal()
            .expect("a denial"),
        "denied by location: 'orders' is closed at 19:00; open 08:00-17:00"
    );
    assert_eq!(
        policy
            .decide(&facts, &attempt(0))
            .expect("an opinion")
            .refusal()
            .expect("a denial"),
        "denied by location: the attempt does not record when it is made, \
         and 'orders' keeps hours"
    );
}

#[test]
fn an_action_works_in_a_direction_where_it_is_a_locations() {
    assert_eq!(Direction::of(Action::Receive), Some(Direction::Receive));
    assert_eq!(Direction::of(Action::Send), Some(Direction::Send));
    assert_eq!(Direction::of(Action::Process), None);
}

#[test]
fn a_declaration_speaks_for_its_direction_only() {
    let facts = tls(Some(party(1)));
    assert_eq!(
        policy().decide(&facts, &Attempt::new(Action::Send, "partner-x")),
        None
    );
    let both = policy().declare(Admission::send("partner-x").anyone());
    assert_eq!(
        both.decide(&facts, &Attempt::new(Action::Send, "partner-x")),
        Some(Decision::Allowed)
    );
}

#[test]
fn the_first_declaration_is_consulted() {
    let twice = policy().declare(Admission::receive("partner-x").anyone());
    let facts = tls(Some(party(2)));
    let attempt = Attempt::new(Action::Receive, "partner-x");
    assert_eq!(
        twice.decide(&facts, &attempt),
        policy().decide(&facts, &attempt)
    );
    assert!(matches!(
        twice.decide(&facts, &attempt),
        Some(Decision::Denied { .. })
    ));
}

#[test]
fn an_empty_policy_has_no_opinion() {
    let facts = tls(None);
    for action in [Action::Receive, Action::Send, Action::Process] {
        assert_eq!(
            LocationPolicy::new().decide(&facts, &Attempt::new(action, "orders")),
            None
        );
    }
    assert_eq!(LocationPolicy::new(), LocationPolicy::default());
}

#[test]
fn a_location_admits_nobody_at_first() {
    let policy = LocationPolicy::new().declare(Admission::receive("orders"));
    assert_eq!(
        policy.decide(
            &tls(Some(party(1))),
            &Attempt::new(Action::Receive, "orders").at(5)
        ),
        Some(Decision::Denied {
            by: NAME.to_string(),
            reason: "'orders' does not admit mutual-tls=CN=partner-x.example, resolved to Party \
                     00000000-0000-0000-0000-000000000001"
                .to_string(),
        })
    );
}

#[test]
fn a_value_is_admitted_whether_or_not_it_resolved() {
    let attempt = Attempt::new(Action::Send, "Billing");
    for resolved in [None, Some(party(9))] {
        assert_eq!(
            policy().decide(&tls(resolved), &attempt),
            Some(Decision::Allowed)
        );
    }
    let other = IdentityFacts::new(AuthenticatedIdentity::new("basic", "clerk"), None);
    assert_eq!(
        refusal(policy().decide(&other, &attempt)),
        "denied by location: 'Billing' does not admit basic=clerk"
    );
}

#[test]
fn each_party_named_is_admitted() {
    let policy = LocationPolicy::new().declare(
        Admission::receive("orders")
            .party(party(3))
            .party(party(4)),
    );
    let attempt = Attempt::new(Action::Receive, "orders");
    for (id, admitted) in [(2, false), (3, true), (4, true), (5, false)] {
        assert_eq!(
            policy.decide(&tls(Some(party(id))), &attempt) == Some(Decision::Allowed),
            admitted
        );
    }
}

#[test]
fn only_the_accountable_identity_is_judged() {
    let transport = AuthenticatedIdentity::new("mutual-tls", "CN=partner-x.example");
    let message = AuthenticatedIdentity::new("signature", "someone").resolving_to(party(1));
    let facts = IdentityFacts::new(transport.clone(), Some(message));
    assert_eq!(facts.accountable(), &transport);

    let attempt = Attempt::new(Action::Receive, "partner-x");
    assert_eq!(
        policy().decide(&facts, &attempt),
        policy().decide(&tls(None), &attempt)
    );
}

#[test]
fn a_location_is_open_inside_any_of_its_windows() {
    let admission = Admission::receive("orders")
        .anyone()
        .open(between("08:00", "12:00"))
        .open(between("22:00", "02:00"))
        .open(between("00:00", "23:59").on(&[Weekday::Saturday]));
    let policy = LocationPolicy::new().declare(admission);
    let facts = tls(None);
    let decide = |at: i128| policy.decide(&facts, &Attempt::new(Action::Receive, "orders").at(at));

    assert_eq!(decide(9 * HOUR), Some(Decision::Allowed));
    assert_eq!(decide(23 * HOUR), Some(Decision::Allowed));
    assert_eq!(decide(2 * 24 * HOUR + 15 * HOUR), Some(Decision::Allowed));
    assert_eq!(
        refusal(decide(15 * HOUR + 5 * 60 * 1_000_000_000)),
        "denied by location: 'orders' is closed at 15:05; \
         open 08:00-12:00, 22:00-02:00, 00:00-23:59"
    );
}

#[test]
fn the_hours_come_before_the_identity() {
    let policy = LocationPolicy::new()
        .declare(Admission::receive("orders").open(between("08:00", "17:00")));
    let facts = tls(None);
    assert_eq!(
        refusal(policy.decide(&facts, &Attempt::new(Action::Receive, "orders").at(18 * HOUR))),
        "denied by location: 'orders' is closed at 18:00; open 08:00-17:00"
    );
    assert_eq!(
        refusal(policy.decide(&facts, &Attempt::new(Action::Receive, "orders").at(9 * HOUR))),
        "denied by location: 'orders' does not admit mutual-tls=CN=partner-x.example"
    );
}

#[test]
fn without_hours_time_makes_no_difference() {
    let facts = tls(Some(party(1)));
    for at in [0, 1, -1, i128::MAX, i128::MIN] {
        assert_eq!(
            policy().decide(&facts, &Attempt::new(Action::Receive, "partner-x").at(at)),
            Some(Decision::Allowed)
        );
    }
}

#[test]
fn a_party_is_known_by_its_written_form() {
    assert_eq!(
        party(7).as_str(),
        "00000000-0000-0000-0000-000000000007"
    );
    assert_eq!(party(7), PartyId::new("00000000-0000-0000-0000-000000000007"));
    assert_ne!(party(7), party(8));
}

#[test]
fn nothing_is_refused_where_it_is_allowed() {
    assert_eq!(Decision::Allowed.refusal(), None);
    assert_eq!(
        Decision::denied("quota", "too many".to_string()).refusal(),
        Some("denied by quota: too many".to_string())
    );
}
