//! How a front line looks when seen as a caller, the outgoing link to the
//! proxy server.

use vstd::prelude::*;
use crate::gate::hub::line_header::{Line, LineStatus, LineType, LineView};

verus! {

/// Caller state code: 0 born, 1 carrying a tunnel, 2 connected and idle,
/// 3 dead; a line that is not a caller has `u8::MAX`. An occupied line
/// carries a tunnel.
pub open spec fn spec_call_status(l: LineView) -> u8 {
    if l.kind != LineType::Caller {
        u8::MAX
    } else {
        match l.status {
            LineStatus::Born => 0,
            LineStatus::Connected => if l.partner_id > 0 { 1 } else { 2 },
            LineStatus::Occupied => if l.partner_id > 0 { 1 } else { 2 },
            LineStatus::Dead => 3,
        }
    }
}

impl Line {
    pub fn call_status(&self) -> (r: u8)
        ensures
            r == spec_call_status(self@),
    {
        if self.kind() != LineType::Caller {
            return u8::MAX;
        }
        match self.status() {
            LineStatus::Born => 0,
            LineStatus::Connected | LineStatus::Occupied => {
                if self.partner_id() > 0 {
                    1
                } else {
                    2
                }
            },
            LineStatus::Dead => 3,
        }
    }

    /// A connected caller without a partner.
    pub fn call_available(&self) -> (r: bool)
        ensures
            r == (self@.kind == LineType::Caller && self@.partner_id == 0 && self@.status
                == LineStatus::Connected),
    {
        if self.kind() != LineType::Caller {
            return false;
        }
        if self.partner_id() > 0 {
            return false;
        }
        if self.status() == LineStatus::Connected {
            return true;
        }
        false
    }
}

} // verus!
