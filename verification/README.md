# location

A verified authorization policy for Locations: whether a Receive or Send
Location admits an identity, and when.

- `src/window.rs`: times of day, days of the week and daily windows.
- `src/admission.rs`: what one Location admits, and the hours it keeps.
- `src/policy.rs`: the declared Locations and the decision on an attempt.
- `src/identity.rs`, `src/attempt.rs`: who attempts what, and the answer.
- `src/text.rs`, `src/civil.rs`: reading and writing text; the calendar.
- `src/laws.rs`: what holds of the policy as a whole.
- `app/`: the policy as one of a service's authorizers, and printing.

Every function of `src/` is verified by Verus. `LocationPolicy::decide` is
specified by `policy::decision`, `Moment::parse` by `window::time_of_day`,
`Window::admits` by `WindowView::answer`.
