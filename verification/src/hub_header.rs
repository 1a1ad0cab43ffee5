//! A plain hub of front lines: lines keyed by id, the proxy server
//! and the healthy number of callers.

use std::collections::HashMap;
use vstd::prelude::*;
use crate::gate::hub::line_header::{Line, LineStatus, LineType, LineView};
use crate::gate::hub_header::lines_view;

verus! {

broadcast use vstd::std_specs::hash::group_hash_axioms;

/// What a hub holds, as mathematical values.
pub struct HubView {
    pub id: u64,
    pub m: Map<u64, LineView>,
    pub proxy_server: Option<Seq<char>>,
    pub healthy_size: u8,
}

/// Every line is stored under its own id, positive and at most the last id
/// handed out.
pub open spec fn ids_fresh(v: HubView) -> bool {
    forall|k: u64| #[trigger] v.m.contains_key(k) ==> v.m[k].id == k && 0 < k <= v.id
}

pub struct Hub {
    id: u64,
    m: HashMap<u64, Line>,
    proxy_server: Option<String>,
    healthy_size: u8,
}

impl View for Hub {
    type V = HubView;

    closed spec fn view(&self) -> HubView {
        HubView {
            id: self.id,
            m: lines_view(self.m@),
            proxy_server: match self.proxy_server {
                Some(s) => Some(s@),
                None => None,
            },
            healthy_size: self.healthy_size,
        }
    }
}

//Get
impl Hub {
    /// The lines, keyed by id.
    pub fn m(&self) -> (r: &HashMap<u64, Line>)
        ensures
            lines_view(r@) == self@.m,
    {
        &self.m
    }

    /// The address of the proxy server callers connect to.
    pub fn proxy_server(&self) -> (r: &String)
        requires
            self@.proxy_server is Some,
        ensures
            r@ == self@.proxy_server->0,
    {
        self.proxy_server.as_ref().unwrap()
    }

    pub fn get_line_by_id(&self, id: u64) -> (r: &Line)
        requires
            id > 0,
            self@.m.contains_key(id),
        ensures
            r@ == self@.m[id],
    {
        self.get_line(id)
    }

    pub fn get_line(&self, token: u64) -> (r: &Line)
        requires
            self@.m.contains_key(token),
        ensures
            r@ == self@.m[token],
    {
        self.m.get(&token).unwrap()
    }
}

//Set
impl Hub {
    pub fn new(id: u64) -> (h: Hub)
        ensures
            h@ == (HubView { id, m: Map::empty(), proxy_server: None, healthy_size: 0 }),
            ids_fresh(h@),
    {
        let h = Hub { id, m: HashMap::new(), proxy_server: None, healthy_size: 0 };
        assert(lines_view(h.m@) =~= Map::empty());
        h
    }

    /// Hands out the next id.
    pub fn next_id(&mut self) -> (r: u64)
        requires
            old(self)@.id < u64::MAX,
        ensures
            r == old(self)@.id + 1,
            final(self)@ == (HubView { id: r, ..old(self)@ }),
            ids_fresh(old(self)@) ==> ids_fresh(final(self)@),
    {
        self.id = self.id + 1;
        self.id
    }

    pub fn set_healthy_size(&mut self, n: u8)
        ensures
            final(self)@ == (HubView { healthy_size: n, ..old(self)@ }),
    {
        self.healthy_size = n;
    }

    /// Records the proxy server's address, which the caller has checked to
    /// be a socket address.
    pub fn set_proxy_server(&mut self, addr: &str)
        ensures
            final(self)@ == (HubView { proxy_server: Some(addr@), ..old(self)@ }),
    {
        self.proxy_server = Some(addr.to_owned());
    }

    /// Removes line `id` unless `id` is 0; the event loop then deregisters
    /// and drops its socket.
    pub fn remove_line_by_id(&mut self, id: u64)
        requires
            id > 0 ==> old(self)@.m.contains_key(id),
        ensures
            id > 0 ==> final(self)@ == (HubView { m: old(self)@.m.remove(id), ..old(self)@ }),
            id == 0 ==> final(self)@ == old(self)@,
            ids_fresh(old(self)@) ==> ids_fresh(final(self)@),
    {
        if id > 0 {
            self.remove_line(id);
        }
    }

    /// Removes line `k`; the event loop then deregisters and drops its
    /// socket.
    pub fn remove_line(&mut self, k: u64)
        requires
            old(self)@.m.contains_key(k),
        ensures
            final(self)@ == (HubView { m: old(self)@.m.remove(k), ..old(self)@ }),
            ids_fresh(old(self)@) ==> ids_fresh(final(self)@),
    {
        self.m.remove(&k);
        assert(lines_view(self.m@) =~= old(self)@.m.remove(k));
    }

    /// Adds a fresh line of `kind`, created at time `born`, under the next
    /// id, and returns that id.
    pub fn new_line(&mut self, kind: LineType, born: u128) -> (id: u64)
        requires
            old(self)@.id < u64::MAX,
            ids_fresh(old(self)@),
        ensures
            id == old(self)@.id + 1,
            !old(self)@.m.contains_key(id),
            final(self)@ == (HubView {
                id,
                m: old(self)@.m.insert(
                    id,
                    LineView {
                        id,
                        partner_id: 0,
                        status: LineStatus::Born,
                        kind,
                        queue: Seq::empty(),
                        stage: 0,
                        host: Seq::empty(),
                        read_close: false,
                        write_close: false,
                        born,
                    },
                ),
                ..old(self)@
            }),
            ids_fresh(final(self)@),
    {
        let id = self.next_id();
        let line = Line::new(id, kind, born);
        self.m.insert(id, line);
        assert(lines_view(self.m@) =~= old(self)@.m.insert(id, line@));
        id
    }
}

} // verus!
