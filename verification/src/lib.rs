//! The location policy: whether a Location admits an identity at all.
//!
//! One policy at the transport layer. A Receive Location declares a closed set
//! of Parties it accepts and a Send Location names the Party whose identity it
//! presents; this is the rule that reads those declarations at the door. An
//! [`Admission`] names one Location by the artifact name the attempt carries
//! and the direction it works in, who it admits — Parties by identifier,
//! identities by the value on record, or anyone who was authenticated — and the
//! hours it keeps.
//!
//! The policy speaks only for the Locations it names. An attempt on any other
//! artifact, or on an Xmip Process, is no opinion and the next policy's
//! question. Where it does speak, the identity it judges is the accountable
//! one — the transport identity — because transport authorization answers
//! whether this connection may post here at all. An identity that resolved to
//! no admitted Party and matches no admitted value is refused by name; a
//! Location with hours refuses outside them, and refuses an attempt that does
//! not say when it is made.
//!
//! [`LocationPolicy::decide`] is specified by [`policy::decision`]; [`laws`]
//! holds what follows for the policy as a whole, [`text_laws`] what holds of the
//! texts it reads and writes.

pub mod admission;
pub mod attempt;
pub mod civil;
pub mod identity;
pub mod laws;
pub mod policy;
pub mod text;
pub mod text_laws;
pub mod window;

pub use admission::{Admission, Direction};
pub use attempt::{Action, Attempt, Decision, Layer};
pub use identity::{AuthenticatedIdentity, IdentityFacts, PartyId};
pub use policy::{LocationPolicy, NAME};
pub use window::{Moment, Weekday, Window, WindowError};
