//! What is attempted, and what a policy says to it.

use vstd::prelude::*;
use vstd::string::StringExecFns;

verus! {

/// What an attempt does with an artifact: a Receive Location receives, a Send
/// Location sends, an Xmip Process processes.
#[derive(Clone, Copy, Debug, PartialEq, Eq, Structural)]
pub enum Action {
    Receive,
    Send,
    Process,
}

/// The layer a policy answers at.
#[derive(Clone, Copy, Debug, PartialEq, Eq, Structural)]
pub enum Layer {
    Transport,
}

/// What an attempt stands for.
pub struct AttemptView {
    pub action: Action,
    pub artifact: Seq<char>,
    pub at: int,
}

/// One attempt on an artifact. `at` is when it is made, in unix nanoseconds;
/// zero is the record's word for "unrecorded".
#[derive(Clone, Debug, PartialEq, Eq)]
pub struct Attempt {
    pub action: Action,
    pub artifact: String,
    pub at: i128,
}

impl View for Attempt {
    type V = AttemptView;

    open spec fn view(&self) -> AttemptView {
        AttemptView { action: self.action, artifact: self.artifact@, at: self.at as int }
    }
}

impl Attempt {
    /// An attempt that does not say when it is made.
    #[must_use]
    pub fn new(action: Action, artifact: &str) -> (r: Self)
        ensures
            r@ == (AttemptView { action, artifact: artifact@, at: 0 }),
    {
        Attempt { action, artifact: String::from_str(artifact), at: 0 }
    }

    /// The same attempt, made at an instant in unix nanoseconds.
    #[must_use]
    pub fn at(self, at: i128) -> (r: Self)
        ensures
            r@ == (AttemptView { at: at as int, ..self@ }),
    {
        Attempt { action: self.action, artifact: self.artifact, at }
    }
}

/// What a decision stands for.
pub enum DecisionView {
    Allowed,
    Denied { by: Seq<char>, reason: Seq<char> },
}

/// A policy's word on an attempt. A denial names the policy and gives its
/// reason.
#[derive(Clone, Debug, PartialEq, Eq)]
pub enum Decision {
    Allowed,
    Denied { by: String, reason: String },
}

impl View for Decision {
    type V = DecisionView;

    open spec fn view(&self) -> DecisionView {
        match *self {
            Decision::Allowed => DecisionView::Allowed,
            Decision::Denied { by, reason } => DecisionView::Denied {
                by: by@,
                reason: reason@,
            },
        }
    }
}

/// A decision that may be missing: `None` is no opinion.
pub open spec fn opinion(decision: Option<Decision>) -> Option<DecisionView> {
    match decision {
        Some(decision) => Some(decision@),
        None => None,
    }
}

/// A denial in words.
pub open spec fn denial_text(by: Seq<char>, reason: Seq<char>) -> Seq<char> {
    "denied by "@ + by + ": "@ + reason
}

impl Decision {
    /// A denial by the policy of this name.
    #[must_use]
    pub fn denied(by: &str, reason: String) -> (r: Self)
        ensures
            r@ == (DecisionView::Denied { by: by@, reason: reason@ }),
    {
        Decision::Denied { by: String::from_str(by), reason }
    }

    /// The denial in words; `None` where nothing is denied.
    #[must_use]
    pub fn refusal(&self) -> (r: Option<String>)
        ensures
            match (r, self@) {
                (Some(said), DecisionView::Denied { by, reason }) => said@ == denial_text(
                    by,
                    reason,
                ),
                (None, DecisionView::Allowed) => true,
                _ => false,
            },
    {
        match self {
            Decision::Allowed => None,
            Decision::Denied { by, reason } => {
                let mut said: String = String::from_str("denied by ");
                said.append(by.as_str());
                said.append(": ");
                said.append(reason.as_str());
                Some(said)
            },
        }
    }
}

} // verus!
