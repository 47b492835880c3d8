//! The request queue in front of the in-process initiator: requests line
//! up as they arrive and leave one per tick, oldest first.

use vstd::prelude::*;

use crate::initiator::SendRequest;

verus! {

/// The pending requests, oldest first.
pub struct Queue {
    pub items: std::collections::VecDeque<SendRequest>,
}

impl Queue {
    pub fn new() -> (r: Queue)
        ensures
            r.items@.len() == 0,
    {
        Queue { items: std::collections::VecDeque::new() }
    }

    /// Lines a newly received request up at the back.
    pub fn push(&mut self, request: SendRequest)
        ensures
            final(self).items@ == old(self).items@.push(request),
    {
        self.items.push_back(request);
    }

    /// Takes the oldest pending request, if one waits: requests leave in
    /// arrival order.
    pub fn pop(&mut self) -> (r: Option<SendRequest>)
        ensures
            match r {
                Some(req) => old(self).items@.len() > 0 && req == old(self).items@[0]
                    && final(self).items@ == old(self).items@.skip(1),
                None => old(self).items@.len() == 0 && final(self).items@ == old(self).items@,
            },
    {
        let r = self.items.pop_front();
        proof {
            if old(self).items@.len() > 0 {
                assert(final(self).items@ =~= old(self).items@.skip(1));
            }
        }
        r
    }
}

} // verus!
