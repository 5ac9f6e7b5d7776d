//! The break-behaviour classifier.
//!
//! A column break marker has no layout behaviour of its own: an external flow
//! sequencer, walking the content stream, queries its behaviour to decide
//! whether the break forces a new region or may be merged away.

use vstd::prelude::*;

verus! {

/// How an external flow sequencer must treat a break marker.
#[derive(Clone, Copy, Debug, PartialEq, Eq, Structural)]
pub enum Behaviour {
    /// The marker may be eliminated when it stands next to an
    /// equal-or-lower-priority break or a region boundary; the exact merge
    /// rule is owned by the sequencer.
    Weak(usize),
    /// The marker is never eliminated.
    Destructive,
}

/// A column break marker.
#[derive(Clone, Copy, Debug, PartialEq, Eq, Structural)]
pub struct ColbreakNode {
    pub weak: bool,
}

impl ColbreakNode {
    /// Builds the marker from marshalled arguments: an optional named `weak`
    /// flag, absent meaning not weak.
    pub fn construct(weak: Option<bool>) -> (r: ColbreakNode)
        ensures
            r.weak == (match weak {
                Some(b) => b,
                None => false,
            }),
    {
        let w = match weak {
            Some(b) => b,
            None => false,
        };
        ColbreakNode { weak: w }
    }

    /// Classifies the marker: a weak break carries this core's single fixed
    /// priority level and may be merged away; any other break is destructive.
    pub fn behaviour(&self) -> (r: Behaviour)
        ensures
            self.weak ==> r == Behaviour::Weak(1),
            !self.weak ==> r == Behaviour::Destructive,
    {
        if self.weak {
            Behaviour::Weak(1)
        } else {
            Behaviour::Destructive
        }
    }
}

} // verus!
