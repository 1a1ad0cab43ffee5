//! What a front line does on socket events.

use vstd::prelude::*;
use super::line_header::{with_status, Line, LineStatus};

verus! {

//process event
impl Line {
    /// The socket became writable: the line counts as connected (a later
    /// status is kept). Its queue is then for the caller to flush.
    pub fn on_writable(&mut self)
        ensures
            final(self)@ == with_status(old(self)@, LineStatus::Connected),
    {
        self.set_status(LineStatus::Connected);
    }
}

} // verus!
