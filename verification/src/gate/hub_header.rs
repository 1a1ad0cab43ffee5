//! The front's hub: every line keyed by its id, the callers waiting for
//! work, and the lines that died and wait to be removed.

use std::collections::hash_map::Entry;
use std::collections::HashMap;
use std::collections::VecDeque;
use vstd::prelude::*;
use super::hub::line_header::{died, Line, LineStatus, LineType, LineView};

verus! {

broadcast use vstd::std_specs::hash::group_hash_axioms;

/// What a hub holds, as mathematical values.
pub struct HubView {
    pub id: u64,
    pub spawning: bool,
    pub healthy_size: u8,
    pub proxy_server: Option<Seq<char>>,
    pub m: Map<u64, LineView>,
    pub idle_caller: Seq<u64>,
    pub dead: Seq<u64>,
}

/// The lines of a map, seen through their views.
pub open spec fn lines_view(m: Map<u64, Line>) -> Map<u64, LineView> {
    m.map_values(|l: Line| l@)
}

proof fn lemma_lines_view_insert()
    ensures
        forall|m: Map<u64, Line>, k: u64, l: Line| #[trigger]
            lines_view(m.insert(k, l)) == lines_view(m).insert(k, l@),
{
    assert forall|m: Map<u64, Line>, k: u64, l: Line| #[trigger]
        lines_view(m.insert(k, l)) == lines_view(m).insert(k, l@) by {
        assert(lines_view(m.insert(k, l)) =~= lines_view(m).insert(k, l@));
    }
}

/// Every line is stored under its own id, and every id was handed out by
/// the counter: it is positive and at most the last id given.
pub open spec fn ids_fresh(v: HubView) -> bool {
    forall|k: u64| #[trigger] v.m.contains_key(k) ==> v.m[k].id == k && 0 < k <= v.id
}

/// Every waiting caller is a positive id of a line in the map.
pub open spec fn idle_known(v: HubView) -> bool {
    forall|i: int| 0 <= i < v.idle_caller.len() ==> #[trigger] v.idle_caller[i] > 0 && v.m.contains_key(v.idle_caller[i])
}

/// The dead list holds distinct dead lines of the map.
pub open spec fn dead_listed(v: HubView) -> bool {
    &&& v.dead.no_duplicates()
    &&& forall|i: int|
        0 <= i < v.dead.len() ==> v.m.contains_key(#[trigger] v.dead[i]) && v.m[v.dead[i]].status
            == LineStatus::Dead
}

/// The standing invariant of the hub: ids are fresh, the waiting callers
/// are distinct lines of the map, and the dead list holds distinct dead
/// lines of the map.
pub open spec fn front_wf(v: HubView) -> bool {
    &&& ids_fresh(v)
    &&& idle_known(v)
    &&& v.idle_caller.no_duplicates()
    &&& dead_listed(v)
}

/// No waiting caller has died.
pub open spec fn idle_live(v: HubView) -> bool {
    forall|i: int| 0 <= i < v.idle_caller.len() ==> #[trigger] v.m[v.idle_caller[i]].status != LineStatus::Dead
}

/// Changing a line in place keeps the invariant when its id stays and a
/// dead line stays dead.
pub proof fn lemma_line_change_keeps_wf(v: HubView, k: u64, l: LineView)
    requires
        front_wf(v),
        v.m.contains_key(k),
        l.id == v.m[k].id,
        v.m[k].status == LineStatus::Dead ==> l.status == LineStatus::Dead,
    ensures
        front_wf(HubView { m: v.m.insert(k, l), ..v }),
{
}

/// The dead lines can all be removed: each is in the map, and none is
/// listed twice.
pub open spec fn dead_removable(v: HubView) -> bool {
    &&& v.dead.no_duplicates()
    &&& forall|i: int| 0 <= i < v.dead.len() ==> v.m.contains_key(#[trigger] v.dead[i])
}

/// Killing a line in this status means shutting its socket down.
pub open spec fn shuts_down(l: LineView) -> bool {
    l.status == LineStatus::Connected || l.status == LineStatus::Occupied
}

/// The hub after `kill_line(k)`: the line dies and is listed as dead.
pub open spec fn killed(v: HubView, k: u64) -> HubView {
    HubView { m: v.m.insert(k, died(v.m[k])), dead: v.dead.push(k), ..v }
}

pub struct Hub {
    id: u64,
    spawning: bool,
    healthy_size: u8,
    proxy_server: Option<String>,
    m: HashMap<u64, Line>,
    idle_caller: VecDeque<u64>,
    dead: Vec<u64>,
}

impl View for Hub {
    type V = HubView;

    closed spec fn view(&self) -> HubView {
        HubView {
            id: self.id,
            spawning: self.spawning,
            healthy_size: self.healthy_size,
            proxy_server: match self.proxy_server {
                Some(s) => Some(s@),
                None => None,
            },
            m: lines_view(self.m@),
            idle_caller: self.idle_caller@,
            dead: self.dead@,
        }
    }
}

//Get
impl Hub {
    /// The lines, keyed by id.
    pub fn m(&self) -> (r: &HashMap<u64, Line>)
        ensures
            lines_view(r@) == self@.m,
    {
        &self.m
    }

    /// The address of the proxy server callers connect to.
    pub fn proxy_server(&self) -> (r: &String)
        requires
            self@.proxy_server is Some,
        ensures
            r@ == self@.proxy_server->0,
    {
        self.proxy_server.as_ref().unwrap()
    }

    /// The last id handed out.
    pub fn last_id(&self) -> (r: u64)
        ensures
            r == self@.id,
    {
        self.id
    }

    pub fn healthy_size(&self) -> (r: u8)
        ensures
            r == self@.healthy_size,
    {
        self.healthy_size
    }

    pub fn spawning(&self) -> (r: bool)
        ensures
            r == self@.spawning,
    {
        self.spawning
    }

    /// Number of waiting callers, as a `u8` (wrapping).
    pub fn idle_caller_count(&self) -> (r: u8)
        ensures
            r == self@.idle_caller.len() as u8,
    {
        self.idle_caller.len() as u8
    }

    /// Takes the caller that has waited longest.
    pub fn idle_caller(&mut self) -> (r: u64)
        requires
            old(self)@.idle_caller.len() > 0,
        ensures
            r == old(self)@.idle_caller[0],
            final(self)@ == (HubView { idle_caller: old(self)@.idle_caller.drop_first(), ..old(self)@ }),
            front_wf(old(self)@) ==> front_wf(final(self)@),
    {
        match self.idle_caller.pop_front() {
            Some(id) => id,
            None => 0,
        }
    }

    pub fn idle_caller_list(&self) -> (r: &VecDeque<u64>)
        ensures
            r@ == self@.idle_caller,
    {
        &self.idle_caller
    }

    /// The waiting callers, to be changed in place.
    pub fn idle_caller_list_mut(&mut self) -> (r: &mut VecDeque<u64>)
        ensures
            r@ == old(self)@.idle_caller,
            final(self)@ == (HubView { idle_caller: final(r)@, ..old(self)@ }),
    {
        &mut self.idle_caller
    }

    /// The dead lines waiting for removal.
    pub fn dead_list(&self) -> (r: &Vec<u64>)
        ensures
            r@ == self@.dead,
    {
        &self.dead
    }

    /// Number of dead lines waiting for removal, as a `u8` (wrapping).
    pub fn dead_count(&self) -> (r: u8)
        ensures
            r == self@.dead.len() as u8,
    {
        self.dead.len() as u8
    }

    pub fn get_line_by_id(&self, id: u64) -> (r: &Line)
        requires
            id > 0,
            self@.m.contains_key(id),
        ensures
            r@ == self@.m[id],
    {
        self.get_line(id)
    }

    pub fn get_line(&self, token: u64) -> (r: &Line)
        requires
            self@.m.contains_key(token),
        ensures
            r@ == self@.m[token],
    {
        self.m.get(&token).unwrap()
    }

    pub fn get_mut_line_by_id(&mut self, id: u64) -> (r: &mut Line)
        requires
            id > 0,
            old(self)@.m.contains_key(id),
        ensures
            r@ == old(self)@.m[id],
            final(self)@ == (HubView { m: old(self)@.m.insert(id, final(r)@), ..old(self)@ }),
    {
        self.get_mut_line(id)
    }

    /// The line `token`, to be changed in place.
    pub fn get_mut_line(&mut self, token: u64) -> (r: &mut Line)
        requires
            old(self)@.m.contains_key(token),
        ensures
            r@ == old(self)@.m[token],
            final(self)@ == (HubView { m: old(self)@.m.insert(token, final(r)@), ..old(self)@ }),
    {
        proof {
            lemma_lines_view_insert();
        }
        match self.m.entry(token) {
            Entry::Occupied(e) => e.into_mut(),
            Entry::Vacant(_) => {
                assert(false);
                loop
                    invariant
                        false,
                    decreases 0nat,
                {
                }
            },
        }
    }

    /// Removes the dead lines once there are more of them than the healthy
    /// number of callers; returns the ids removed.
    pub fn dead_check(&mut self) -> (removed: Vec<u64>)
        requires
            (old(self)@.dead.len() as u8) > old(self)@.healthy_size ==> dead_removable(old(self)@),
        ensures
            (old(self)@.dead.len() as u8) > old(self)@.healthy_size ==> removed@ == old(
                self,
            )@.dead.reverse() && final(self)@ == (HubView {
                m: old(self)@.m.remove_keys(old(self)@.dead.to_set()),
                dead: Seq::empty(),
                ..old(self)@
            }),
            !((old(self)@.dead.len() as u8) > old(self)@.healthy_size) ==> removed@ == Seq::<
                u64,
            >::empty() && final(self)@ == old(self)@,
            ids_fresh(old(self)@) ==> ids_fresh(final(self)@),
            front_wf(old(self)@) && idle_live(old(self)@) ==> front_wf(final(self)@),
    {
        if self.dead_count() > self.healthy_size() {
            self.remove_dead()
        } else {
            Vec::new()
        }
    }
}

//Set
impl Hub {
    pub fn new(id: u64) -> (h: Hub)
        ensures
            h@ == (HubView {
                id,
                spawning: false,
                healthy_size: 0,
                proxy_server: None,
                m: Map::empty(),
                idle_caller: Seq::empty(),
                dead: Seq::empty(),
            }),
            front_wf(h@),
    {
        let h = Hub {
            id,
            spawning: false,
            healthy_size: 0,
            proxy_server: None,
            m: HashMap::new(),
            idle_caller: VecDeque::new(),
            dead: Vec::new(),
        };
        assert(lines_view(h.m@) =~= Map::empty());
        h
    }

    /// Hands out the next id.
    pub fn next_id(&mut self) -> (r: u64)
        requires
            old(self)@.id < u64::MAX,
        ensures
            r == old(self)@.id + 1,
            final(self)@ == (HubView { id: r, ..old(self)@ }),
            front_wf(old(self)@) ==> front_wf(final(self)@),
    {
        self.id = self.id + 1;
        self.id
    }

    pub fn set_healthy_size(&mut self, n: u8)
        ensures
            final(self)@ == (HubView { healthy_size: n, ..old(self)@ }),
    {
        self.healthy_size = n;
    }

    /// Records the proxy server's address, which the caller has checked to
    /// be a socket address.
    pub fn set_proxy_server(&mut self, addr: &str)
        ensures
            final(self)@ == (HubView { proxy_server: Some(addr@), ..old(self)@ }),
    {
        self.proxy_server = Some(addr.to_owned());
    }

    pub fn set_spawning(&mut self, v: bool)
        ensures
            final(self)@ == (HubView { spawning: v, ..old(self)@ }),
    {
        self.spawning = v
    }

    /// Kills a line and its partner (if it has one), partner first; returns
    /// the ids whose sockets must be shut down, in order.
    pub fn dead_pair(&mut self, k: u64) -> (shutdown: Vec<u64>)
        requires
            old(self)@.m.contains_key(k),
            old(self)@.m[k].partner_id > 0 ==> old(self)@.m.contains_key(
                old(self)@.m[k].partner_id,
            ),
        ensures
            ({
                let p = old(self)@.m[k].partner_id;
                let mid = if p > 0 {
                    killed(old(self)@, p)
                } else {
                    old(self)@
                };
                shutdown@ == (if p > 0 && shuts_down(old(self)@.m[p]) {
                    seq![p]
                } else {
                    Seq::empty()
                }) + (if shuts_down(mid.m[k]) {
                    seq![k]
                } else {
                    Seq::empty()
                })
            }),
            ({
                let p = old(self)@.m[k].partner_id;
                let mid = if p > 0 {
                    killed(old(self)@, p)
                } else {
                    old(self)@
                };
                final(self)@ == killed(mid, k)
            }),
            ids_fresh(old(self)@) ==> ids_fresh(final(self)@),
            ({
                let p = old(self)@.m[k].partner_id;
                front_wf(old(self)@) && !old(self)@.dead.contains(k) && p != k && (p > 0
                    ==> !old(self)@.dead.contains(p)) ==> front_wf(final(self)@)
            }),
    {
        let pid = self.get_line(k).partner_id();
        let mut out: Vec<u64> = Vec::new();
        if self.kill_line_by_id(pid) {
            out.push(pid);
        }
        if self.kill_line(k) {
            out.push(k);
        }
        out
    }

    /// Kills the line `id` unless `id` is 0; the result tells whether its
    /// socket must be shut down.
    pub fn kill_line_by_id(&mut self, id: u64) -> (shutdown: bool)
        requires
            id > 0 ==> old(self)@.m.contains_key(id),
        ensures
            id > 0 ==> final(self)@ == killed(old(self)@, id),
            id > 0 ==> shutdown == (old(self)@.m[id].status
                == super::hub::line_header::LineStatus::Connected || old(self)@.m[id].status
                == super::hub::line_header::LineStatus::Occupied),
            id == 0 ==> final(self)@ == old(self)@ && !shutdown,
            ids_fresh(old(self)@) ==> ids_fresh(final(self)@),
            front_wf(old(self)@) && !old(self)@.dead.contains(id) ==> front_wf(final(self)@),
    {
        if id > 0 {
            self.kill_line(id)
        } else {
            false
        }
    }

    /// The line dies and is listed as dead; the result tells whether its
    /// socket must be shut down.
    pub fn kill_line(&mut self, k: u64) -> (shutdown: bool)
        requires
            old(self)@.m.contains_key(k),
        ensures
            final(self)@ == killed(old(self)@, k),
            shutdown == (old(self)@.m[k].status == super::hub::line_header::LineStatus::Connected
                || old(self)@.m[k].status == super::hub::line_header::LineStatus::Occupied),
            ids_fresh(old(self)@) ==> ids_fresh(final(self)@),
            front_wf(old(self)@) && !old(self)@.dead.contains(k) ==> front_wf(final(self)@),
    {
        let shutdown = self.get_mut_line(k).go_die();
        self.add_dead(k);
        shutdown
    }

    /// Removes every dead line from the map, last listed first; returns the
    /// ids in the order removed.
    pub fn remove_dead(&mut self) -> (removed: Vec<u64>)
        requires
            dead_removable(old(self)@),
        ensures
            removed@ == old(self)@.dead.reverse(),
            final(self)@ == (HubView {
                m: old(self)@.m.remove_keys(old(self)@.dead.to_set()),
                dead: Seq::empty(),
                ..old(self)@
            }),
            ids_fresh(old(self)@) ==> ids_fresh(final(self)@),
            front_wf(old(self)@) && idle_live(old(self)@) ==> front_wf(final(self)@),
    {
        let ghost d0 = self.dead@;
        let ghost m0 = lines_view(self.m@);
        let mut removed: Vec<u64> = Vec::new();
        let mut m: HashMap<u64, Line> = HashMap::new();
        std::mem::swap(&mut m, &mut self.m);
        let mut dead: Vec<u64> = Vec::new();
        std::mem::swap(&mut dead, &mut self.dead);
        while dead.len() > 0
            invariant
                dead@ == d0.subrange(0, dead@.len() as int),
                dead@.len() <= d0.len(),
                d0.no_duplicates(),
                forall|i: int| 0 <= i < d0.len() ==> m0.contains_key(#[trigger] d0[i]),
                removed@ == d0.subrange(dead@.len() as int, d0.len() as int).reverse(),
                lines_view(m@) == m0.remove_keys(
                    d0.subrange(dead@.len() as int, d0.len() as int).to_set(),
                ),
            decreases dead@.len(),
        {
            let ghost before = dead@.len() as int;
            let id = dead.pop().unwrap();
            proof {
                assert(d0[before - 1] == id);
                assert(!d0.subrange(before, d0.len() as int).contains(id)) by {
                    if d0.subrange(before, d0.len() as int).contains(id) {
                        let j = choose|j: int|
                            0 <= j < d0.len() - before && d0.subrange(before, d0.len() as int)[j]
                                == id;
                        assert(d0[before + j] == id);
                    }
                }
            }
            let ghost mm = m@;
            m.remove(&id);
            removed.push(id);
            assert(m@ == mm.remove(id));
            assert(lines_view(m@) =~= lines_view(mm).remove(id));
            proof {
                let s_old = d0.subrange(before, d0.len() as int);
                let s_new = d0.subrange(before - 1, d0.len() as int);
                assert(s_new =~= seq![id] + s_old);
                assert(s_new.to_set() =~= s_old.to_set().insert(id)) by {
                    assert forall|x: u64| #[trigger]
                        s_new.to_set().contains(x) <==> s_old.to_set().insert(id).contains(x) by {
                        if s_new.contains(x) {
                            let j = choose|j: int| 0 <= j < s_new.len() && s_new[j] == x;
                            if j > 0 {
                                assert(s_old[j - 1] == x);
                            }
                        }
                        if s_old.contains(x) {
                            let j = choose|j: int| 0 <= j < s_old.len() && s_old[j] == x;
                            assert(s_new[j + 1] == x);
                        }
                        if x == id {
                            assert(s_new[0] == x);
                        }
                    }
                }
                assert(removed@ =~= s_new.reverse());
                assert(lines_view(m@) =~= m0.remove_keys(s_new.to_set()));
                assert(dead@ =~= d0.subrange(0, dead@.len() as int));
            }
        }
        assert(dead@.len() == 0);
        assert(d0.subrange(0, d0.len() as int) =~= d0);
        assert(dead@ =~= Seq::<u64>::empty());
        self.m = m;
        self.dead = dead;
        removed
    }

    /// Adds a fresh line of `kind`, created at time `born`, under the next
    /// id, and returns that id.
    pub fn new_line(&mut self, kind: LineType, born: u128) -> (id: u64)
        requires
            old(self)@.id < u64::MAX,
            ids_fresh(old(self)@),
        ensures
            id == old(self)@.id + 1,
            !old(self)@.m.contains_key(id),
            final(self)@ == (HubView {
                id,
                m: old(self)@.m.insert(
                    id,
                    LineView {
                        id,
                        partner_id: 0,
                        status: super::hub::line_header::LineStatus::Born,
                        kind,
                        queue: Seq::empty(),
                        stage: 0,
                        host: Seq::empty(),
                        read_close: false,
                        write_close: false,
                        born,
                    },
                ),
                ..old(self)@
            }),
            ids_fresh(final(self)@),
            front_wf(old(self)@) ==> front_wf(final(self)@),
    {
        let id = self.next_id();
        let line = Line::new(id, kind, born);
        self.m.insert(id, line);
        assert(lines_view(self.m@) =~= old(self)@.m.insert(id, line@));
        id
    }

    /// Puts `id` at the end of the waiting callers. The invariant holds on
    /// when `id` is a line of the hub that is not waiting yet.
    pub fn add_idle_caller(&mut self, id: u64)
        ensures
            final(self)@ == (HubView { idle_caller: old(self)@.idle_caller.push(id), ..old(self)@ }),
            front_wf(old(self)@) && old(self)@.m.contains_key(id) && !old(self)@.idle_caller.contains(
                id,
            ) ==> front_wf(final(self)@),
    {
        self.idle_caller.push_back(id);
    }

    fn add_dead(&mut self, k: u64)
        ensures
            final(self)@ == (HubView { dead: old(self)@.dead.push(k), ..old(self)@ }),
    {
        self.dead.push(k);
    }
}

} // verus!
