//! The listening side of the proxy: a listener whose accepted connections
//! become lines of the front's hub. The listening socket itself lives with
//! the event loop.

use vstd::prelude::*;
use self::call_hub::{
    after_health_check, after_old_check, callers_aged, kill_all, lemma_old_check_keeps_wf,
    next_ids, select_age, LineAge,
};
use self::hub::line_header::LineType;
use self::hub_header::{front_wf, Hub, HubView};

pub mod call_hub;
pub mod hub;
pub mod hub_header;

verus! {

/// The event token of the listening socket; line ids start after it.
pub const LISTENER: u64 = 0;

/// Where an event on the front goes.
#[derive(Debug, Clone, Copy, PartialEq, Eq, Structural)]
pub enum GateEvent {
    /// The listener has connections to accept.
    Listener,
    /// An event of the hub's line with this id.
    Line(u64),
}

/// The work a check leaves to the event loop.
#[derive(Debug, PartialEq, Eq)]
pub struct CheckResult {
    /// Lines killed whose sockets must be shut down.
    pub shutdown: Vec<u64>,
    /// Lines removed, whose sockets are dropped.
    pub removed: Vec<u64>,
    /// Callers added, to be connected to the proxy server.
    pub added: Vec<u64>,
}

/// The hub after `dead_check`.
pub open spec fn after_dead_check(v: HubView) -> HubView {
    if (v.dead.len() as u8) > v.healthy_size {
        HubView { m: v.m.remove_keys(v.dead.to_set()), dead: Seq::empty(), ..v }
    } else {
        v
    }
}

/// A hub whose upkeep can run at time `now`: there is room for the
/// healthy number of new ids, and no live waiting caller was born after
/// `now`.
pub open spec fn check_ready(v: HubView, now: u128) -> bool {
    &&& v.id + v.healthy_size <= u64::MAX
    &&& callers_aged(v, now)
}

pub struct Gate {
    pub front_type: LineType,
    pub hub: Hub,
}

impl Gate {
    /// A front for lines of `front_type`, with an empty hub whose ids start
    /// after the listener's token.
    pub fn new(front_type: LineType) -> (g: Gate)
        ensures
            g.front_type == front_type,
            g.hub@ == (HubView {
                id: LISTENER,
                spawning: false,
                healthy_size: 0,
                proxy_server: None,
                m: Map::empty(),
                idle_caller: Seq::empty(),
                dead: Seq::empty(),
            }),
            front_wf(g.hub@),
    {
        Gate { front_type, hub: Hub::new(LISTENER) }
    }

    /// The kind of the lines the front accepts.
    pub fn kind(&self) -> (r: LineType)
        ensures
            r == self.front_type,
    {
        self.front_type
    }

    /// Routes an event by its token.
    pub fn process(&self, token: u64) -> (r: GateEvent)
        ensures
            token == LISTENER ==> r == GateEvent::Listener,
            token != LISTENER ==> r == GateEvent::Line(token),
    {
        if token == LISTENER {
            GateEvent::Listener
        } else {
            GateEvent::Line(token)
        }
    }

    /// Whether `check(now, ..)` can run: only a fox front checks, and its
    /// hub must have room for the healthy number of new ids and no live
    /// waiting caller born after `now`.
    pub fn can_check(&self, now: u128) -> (r: bool)
        ensures
            r == (self.front_type == LineType::Fox ==> check_ready(self.hub@, now)),
    {
        if self.front_type != LineType::Fox {
            return true;
        }
        if self.hub.healthy_size() as u64 > u64::MAX - self.hub.last_id() {
            return false;
        }
        self.hub.callers_aged(now)
    }

    /// The periodic upkeep of a fox front at time `now`: retire old callers,
    /// remove the dead lines once there are too many, and add callers when
    /// too few wait (born at `born`). Other fronts do nothing.
    pub fn check(&mut self, now: u128, born: u128) -> (r: CheckResult)
        requires
            front_wf(old(self).hub@),
            old(self).front_type == LineType::Fox ==> check_ready(old(self).hub@, now),
        ensures
            final(self).front_type == old(self).front_type,
            old(self).front_type != LineType::Fox ==> final(self).hub@ == old(self).hub@
                && r.shutdown@.len() == 0 && r.removed@.len() == 0 && r.added@.len() == 0,
            old(self).front_type == LineType::Fox ==> final(self).hub@ == after_health_check(
                after_dead_check(after_old_check(old(self).hub@, now)),
                born,
            ),
            old(self).front_type == LineType::Fox ==> r.shutdown@ == kill_all(
                old(self).hub@,
                select_age(old(self).hub@.m, old(self).hub@.idle_caller, now, LineAge::Old),
            ).1,
            old(self).front_type == LineType::Fox ==> ({
                let w = after_old_check(old(self).hub@, now);
                &&& (w.dead.len() as u8) > w.healthy_size ==> r.removed@ == w.dead.reverse()
                &&& !((w.dead.len() as u8) > w.healthy_size) ==> r.removed@.len() == 0
            }),
            old(self).front_type == LineType::Fox ==> ({
                let w = after_dead_check(after_old_check(old(self).hub@, now));
                &&& (w.idle_caller.len() as u8) < w.healthy_size ==> r.added@ == next_ids(
                    w,
                    w.healthy_size as nat,
                )
                &&& !((w.idle_caller.len() as u8) < w.healthy_size) ==> r.added@.len() == 0
            }),
            front_wf(final(self).hub@),
    {
        if self.front_type == LineType::Fox {
            let ghost v = self.hub@;
            let shutdown = self.hub.old_check(now);
            proof {
                lemma_old_check_keeps_wf(v, now);
                assert(self.hub@ == after_old_check(v, now));
            }
            let removed = self.hub.dead_check();
            let added = self.hub.health_check(born);
            CheckResult { shutdown, removed, added }
        } else {
            CheckResult { shutdown: Vec::new(), removed: Vec::new(), added: Vec::new() }
        }
    }
}

} // verus!
