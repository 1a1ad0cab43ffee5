//! The proxy server process: a listening front plus the health status it reports.

use vstd::prelude::*;
use crate::gate::call_hub::{next_ids, with_callers};
use crate::gate::hub::line_header::LineType;
use crate::gate::hub_header::{front_wf, HubView};
use crate::gate::Gate;

verus! {

/// Whether the server is doing its work.
#[derive(Debug, Clone, Copy, PartialEq, Eq, Structural)]
pub enum Status {
    Working,
    Dead,
}

/// A server is dead once something was written to the panic file, or when
/// none of its callers is working.
pub open spec fn spec_status(panic_file_size: u64, working_callers: u8) -> Status {
    if panic_file_size > 0 {
        Status::Dead
    } else if working_callers > 0 {
        Status::Working
    } else {
        Status::Dead
    }
}

pub struct Server {
    pub gate: Gate,
}

impl Server {
    /// A server whose front accepts lines of `kind`.
    pub fn new(kind: LineType) -> (s: Server)
        ensures
            s.gate.front_type == kind,
            s.gate.hub@.m.dom().is_empty(),
            front_wf(s.gate.hub@),
    {
        Server { gate: Gate::new(kind) }
    }

    /// Sets up `n` callers to the proxy server at `addr`, born at `born`;
    /// returns their ids, for the event loop to connect.
    pub fn init(&mut self, n: u8, addr: &str, born: u128) -> (ids: Vec<u64>)
        requires
            n < u8::MAX / 4,
            old(self).gate.hub@.id + n <= u64::MAX,
            front_wf(old(self).gate.hub@),
        ensures
            final(self).gate.front_type == old(self).gate.front_type,
            final(self).gate.hub@ == with_callers(
                HubView { healthy_size: n, proxy_server: Some(addr@), ..old(self).gate.hub@ },
                n as nat,
                born,
            ),
            ids@ == next_ids(old(self).gate.hub@, n as nat),
            front_wf(final(self).gate.hub@),
    {
        self.gate.hub.init_callers(n, addr, born)
    }

    /// The status from the panic file's size (1 when it cannot be read)
    /// and the number of working callers.
    pub fn status(panic_file_size: u64, working_callers: u8) -> (r: Status)
        ensures
            r == spec_status(panic_file_size, working_callers),
    {
        if panic_file_size > 0 {
            return Status::Dead;
        }
        if working_callers > 0 {
            return Status::Working;
        }
        Status::Dead
    }
}

} // verus!
