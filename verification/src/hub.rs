//! The first hub of the proxy: every line, keyed by its id, paired into
//! tunnels. A fox (client) line is paired with a caller (link to the proxy
//! server); an operator line (on the server) with the spider it opened to
//! the destination.

use std::collections::HashMap;
use vstd::prelude::*;
use vstd::utf8::*;
use crate::gate::hub::http::{
    has_request_path, http_head, http_reply, is_content_plan, request_path_bytes, ContentSource,
    Mime,
};
use crate::hub::fox::{connect_reply, greeting_reply, host_from_request};
use crate::hub::line::{sni_frame, sni_host_bytes, sni_payload, sni_readable};
use crate::sni::spec_encode;
use crate::text::lossy_text;
use vstd::std_specs::hash::spec_hash_map_iter;
use vstd::std_specs::iter::IteratorSpec;
use self::line::{died, dies_connected, spec_available, Line, LineStatus, LineType, LineView};

pub mod caller;
pub mod fox;
pub mod line;

verus! {

broadcast use vstd::std_specs::hash::group_hash_axioms;

/// Work the event loop performs for the hub, in order.
#[derive(Debug, PartialEq, Eq)]
pub enum Action {
    /// Write the line's queue if the line says it sends.
    Send(usize),
    /// Shut the line's socket down.
    Shutdown(usize),
    /// The line has left the hub: deregister and drop its socket.
    Deregister(usize),
    /// Resolve `host`; on success connect to it and call `create_spider`.
    Resolve { operator: usize, host: String, data: Vec<u8> },
    /// Answer the http line `id` from `source` with `mime`, then send and
    /// let it die.
    Serve { id: usize, source: ContentSource, mime: Mime },
}

/// What a hub holds, as mathematical values.
pub struct HubView {
    pub id: usize,
    pub m: Map<usize, LineView>,
    pub proxy_server: Option<Seq<char>>,
    pub healthy_size: u8,
    pub spawning: bool,
}

/// The lines of a map, seen through their views.
pub open spec fn lines_view(m: Map<usize, Line>) -> Map<usize, LineView> {
    m.map_values(|l: Line| l@)
}

/// The hub's invariant: each line is stored under its own id, handed out
/// by the counter; partners come in pairs of two different lines of the
/// hub that name each other; a dead line has no partner.
pub open spec fn wf(v: HubView) -> bool {
    &&& forall|k: usize| #[trigger] v.m.contains_key(k) ==> v.m[k].id == k && 0 < k <= v.id
    &&& forall|k: usize| #[trigger]
        v.m.contains_key(k) && v.m[k].status == LineStatus::Dead ==> v.m[k].partner_id == 0
    &&& forall|k: usize|
        #[trigger] v.m.contains_key(k) && v.m[k].partner_id > 0 ==> v.m[k].partner_id != k
            && v.m.contains_key(v.m[k].partner_id) && v.m[v.m[k].partner_id].partner_id == k
}

/// A fresh line.
pub open spec fn fresh_line(id: usize, kind: LineType, born: u128) -> LineView {
    LineView {
        id,
        partner_id: 0,
        status: LineStatus::Born,
        kind,
        queue: Seq::empty(),
        stage: 0,
        host: Seq::empty(),
        read_close: false,
        write_close: false,
        born,
    }
}

/// The hub with line `k` replaced.
pub open spec fn with_line(v: HubView, k: usize, l: LineView) -> HubView {
    HubView { m: v.m.insert(k, l), ..v }
}

/// The hub after `remove_pair(k)`: `k` leaves, its partner (if any) dies.
pub open spec fn pair_removed(v: HubView, k: usize) -> HubView {
    let p = v.m[k].partner_id;
    let w = HubView { m: v.m.remove(k), ..v };
    if p > 0 {
        with_line(w, p, died(v.m[p]))
    } else {
        w
    }
}

/// The work `remove_pair(k)` asks of the event loop.
pub open spec fn pair_removal_actions(v: HubView, k: usize) -> Seq<Action> {
    let p = v.m[k].partner_id;
    let a = if dies_connected(v.m[k]) {
        seq![Action::Shutdown(k)]
    } else {
        Seq::empty()
    };
    let b = a.push(Action::Deregister(k));
    if p > 0 && dies_connected(v.m[p]) {
        b.push(Action::Shutdown(p))
    } else {
        b
    }
}

/// Two hubs with the same lines under the same ids, linked the same way.
pub open spec fn same_links(v: HubView, w: HubView) -> bool {
    &&& v.id == w.id
    &&& v.m.dom() == w.m.dom()
    &&& forall|k: usize| #[trigger]
        w.m.contains_key(k) ==> w.m[k].id == v.m[k].id && w.m[k].partner_id == v.m[k].partner_id
            && (w.m[k].status == LineStatus::Dead ==> v.m[k].status == LineStatus::Dead)
}

pub proof fn lemma_same_links_wf(v: HubView, w: HubView)
    requires
        wf(v),
        same_links(v, w),
    ensures
        wf(w),
{
    assert forall|k: usize| #[trigger] w.m.contains_key(k) && w.m[k].partner_id > 0 implies w.m[k].partner_id
        != k && w.m.contains_key(w.m[k].partner_id) && w.m[w.m[k].partner_id].partner_id == k by {
        assert(v.m.contains_key(k));
        assert(v.m.contains_key(v.m[k].partner_id));
    }
}

/// A caller line ready to carry a tunnel.
pub open spec fn is_idle_caller(l: LineView) -> bool {
    l.kind == LineType::Caller && spec_available(l)
}

/// The hub holds an idle caller.
pub open spec fn has_idle_caller(v: HubView) -> bool {
    exists|k: usize| v.m.contains_key(k) && #[trigger] is_idle_caller(v.m[k])
}

/// How `count_caller` classes a line: 0 idle, 1 born, 2 working, 3 dead;
/// anything else is not counted.
pub open spec fn caller_class(l: LineView) -> int {
    if l.kind != LineType::Caller {
        -1
    } else if spec_available(l) {
        0
    } else if l.status == LineStatus::Born {
        1
    } else if l.status == LineStatus::Dead {
        3
    } else if l.partner_id > 0 {
        2
    } else {
        -1
    }
}

/// The ids of the lines of class `c`.
/// How callers are counted: a caller without partner that has not died is
/// idle (class 0), and only such a caller; a caller with a partner is born
/// (class 1) while its socket is not yet connected and working (class 2)
/// once it is; a dead caller is dead (class 3), never idle. Lines of other
/// kinds are not counted.
pub proof fn lemma_caller_classes(l: LineView)
    ensures
        caller_class(l) == 0 <==> (l.kind == LineType::Caller && l.partner_id == 0 && l.status
            != LineStatus::Dead),
        caller_class(l) == 1 <==> (l.kind == LineType::Caller && l.partner_id > 0 && l.status
            == LineStatus::Born),
        caller_class(l) == 2 <==> (l.kind == LineType::Caller && l.partner_id > 0 && l.status
            == LineStatus::Connected),
        caller_class(l) == 3 <==> (l.kind == LineType::Caller && l.status == LineStatus::Dead),
        l.kind != LineType::Caller ==> caller_class(l) < 0,
{
}

pub open spec fn class_ids(v: HubView, c: int) -> Set<usize> {
    v.m.dom().filter(|k: usize| caller_class(v.m[k]) == c)
}

/// A hub none of whose lines is a caller without partner that is still
/// alive has no idle caller to count, however many dead or paired callers
/// it holds; `check_callers` then spawns when its healthy size is not 0.
pub proof fn lemma_no_live_free_caller_no_idle(v: HubView)
    requires
        forall|k: usize|
            #[trigger] v.m.contains_key(k) ==> !(v.m[k].kind == LineType::Caller && v.m[k].partner_id
                == 0 && v.m[k].status != LineStatus::Dead),
    ensures
        class_ids(v, 0).len() == 0,
{
    assert forall|k: usize| !#[trigger] class_ids(v, 0).contains(k) by {
        if v.m.contains_key(k) {
            lemma_caller_classes(v.m[k]);
        }
    }
    assert(class_ids(v, 0) =~= Set::empty());
}

pub struct Hub {
    id: usize,
    m: HashMap<usize, Line>,
    proxy_server: Option<String>,
    healthy_size: u8,
    spawning: bool,
}

impl View for Hub {
    type V = HubView;

    closed spec fn view(&self) -> HubView {
        HubView {
            id: self.id,
            m: lines_view(self.m@),
            proxy_server: match self.proxy_server {
                Some(s) => Some(s@),
                None => None,
            },
            healthy_size: self.healthy_size,
            spawning: self.spawning,
        }
    }
}

impl Hub {
    pub fn new(id: usize) -> (h: Hub)
        ensures
            h@ == (HubView {
                id,
                m: Map::empty(),
                proxy_server: None,
                healthy_size: 0,
                spawning: false,
            }),
            wf(h@),
    {
        let h = Hub { id, m: HashMap::new(), proxy_server: None, healthy_size: 0, spawning: false };
        assert(lines_view(h.m@) =~= Map::empty());
        h
    }

    /// Whether the hub holds a line with this id.
    pub fn has_line(&self, k: usize) -> (r: bool)
        ensures
            r == self@.m.contains_key(k),
    {
        self.m.contains_key(&k)
    }

    /// The last id handed out.
    pub fn last_id(&self) -> (r: usize)
        ensures
            r == self@.id,
    {
        self.id
    }

    /// Adds a fresh line of `kind`, created at time `born`, under the next
    /// id, and returns that id.
    pub fn new_line(&mut self, kind: LineType, born: u128) -> (id: usize)
        requires
            wf(old(self)@),
            old(self)@.id < usize::MAX,
        ensures
            id == old(self)@.id + 1,
            !old(self)@.m.contains_key(id),
            final(self)@ == (HubView {
                id,
                m: old(self)@.m.insert(id, fresh_line(id, kind, born)),
                ..old(self)@
            }),
            wf(final(self)@),
    {
        let id = self.next_id();
        let line = Line::new(id, kind, born);
        self.m.insert(id, line);
        assert(lines_view(self.m@) =~= old(self)@.m.insert(id, fresh_line(id, kind, born)));
        id
    }

    /// Removes line `id` unless `id` is 0; the event loop then drops its
    /// socket.
    pub fn remove_line_by_id(&mut self, id: usize) -> (actions: Vec<Action>)
        requires
            id > 0 ==> old(self)@.m.contains_key(id),
        ensures
            id > 0 ==> final(self)@ == (HubView { m: old(self)@.m.remove(id), ..old(self)@ })
                && actions@ == seq![Action::Deregister(id)],
            id == 0 ==> final(self)@ == old(self)@ && actions@.len() == 0,
            wf(old(self)@) && (id > 0 ==> old(self)@.m[id].partner_id == 0) ==> wf(final(self)@),
    {
        let mut actions: Vec<Action> = Vec::new();
        if id > 0 {
            actions.push(self.remove_line(id));
            assert(actions@ =~= seq![Action::Deregister(id)]);
        }
        actions
    }

    pub fn get_line_by_id(&self, id: usize) -> (r: &Line)
        requires
            id > 0,
            self@.m.contains_key(id),
        ensures
            r@ == self@.m[id],
    {
        self.get_line(id)
    }

    pub fn get_line(&self, token: usize) -> (r: &Line)
        requires
            self@.m.contains_key(token),
        ensures
            r@ == self@.m[token],
    {
        self.m.get(&token).unwrap()
    }

    fn next_id(&mut self) -> (r: usize)
        requires
            old(self)@.id < usize::MAX,
        ensures
            r == old(self)@.id + 1,
            final(self)@ == (HubView { id: r, ..old(self)@ }),
    {
        self.id = self.id + 1;
        self.id
    }

    fn remove_line(&mut self, k: usize) -> (a: Action)
        requires
            old(self)@.m.contains_key(k),
        ensures
            a == Action::Deregister(k),
            final(self)@ == (HubView { m: old(self)@.m.remove(k), ..old(self)@ }),
    {
        self.m.remove(&k);
        assert(lines_view(self.m@) =~= old(self)@.m.remove(k));
        Action::Deregister(k)
    }

    /// Takes line `k` out of the map, to be put back with `put_line`.
    fn take_line(&mut self, k: usize) -> (l: Line)
        requires
            old(self)@.m.contains_key(k),
        ensures
            l@ == old(self)@.m[k],
            final(self)@ == (HubView { m: old(self)@.m.remove(k), ..old(self)@ }),
    {
        let l = self.m.remove(&k).unwrap();
        assert(lines_view(self.m@) =~= old(self)@.m.remove(k));
        l
    }

    fn put_line(&mut self, k: usize, l: Line)
        ensures
            final(self)@ == (HubView { m: old(self)@.m.insert(k, l@), ..old(self)@ }),
    {
        self.m.insert(k, l);
        assert(lines_view(self.m@) =~= old(self)@.m.insert(k, l@));
    }

    /// Line `k` dies; the result tells whether its socket must be shut down.
    fn line_go_die(&mut self, k: usize) -> (shutdown: bool)
        requires
            old(self)@.m.contains_key(k),
        ensures
            final(self)@ == with_line(old(self)@, k, died(old(self)@.m[k])),
            shutdown == dies_connected(old(self)@.m[k]),
    {
        let mut l = self.take_line(k);
        let s = l.go_die();
        self.put_line(k, l);
        assert(final(self)@.m =~= old(self)@.m.insert(k, died(old(self)@.m[k])));
        s
    }

    fn line_set_partner(&mut self, k: usize, p: usize)
        requires
            old(self)@.m.contains_key(k),
        ensures
            final(self)@ == with_line(old(self)@, k, LineView { partner_id: p, ..old(self)@.m[k] }),
    {
        let mut l = self.take_line(k);
        l.set_partner_id(p);
        self.put_line(k, l);
        assert(final(self)@.m =~= old(self)@.m.insert(k, LineView { partner_id: p, ..old(self)@.m[k] }));
    }

    fn line_add_queue(&mut self, k: usize, data: Vec<u8>)
        requires
            old(self)@.m.contains_key(k),
        ensures
            final(self)@ == with_line(
                old(self)@,
                k,
                LineView { queue: old(self)@.m[k].queue + data@, ..old(self)@.m[k] },
            ),
    {
        let mut l = self.take_line(k);
        l.add_queue(data);
        self.put_line(k, l);
        assert(final(self)@.m =~= old(self)@.m.insert(
            k,
            LineView { queue: old(self)@.m[k].queue + data@, ..old(self)@.m[k] },
        ));
    }

    /// Removes line `k` and kills its partner: `k` dies and leaves the hub,
    /// its partner dies. Returns the work for the event loop.
    pub fn remove_pair(&mut self, k: usize) -> (actions: Vec<Action>)
        requires
            wf(old(self)@),
            old(self)@.m.contains_key(k),
        ensures
            final(self)@ == pair_removed(old(self)@, k),
            actions@ == pair_removal_actions(old(self)@, k),
            wf(final(self)@),
    {
        let ghost v = self@;
        let pid = self.get_line(k).partner_id();
        let mut actions: Vec<Action> = Vec::new();
        if self.line_go_die(k) {
            actions.push(Action::Shutdown(k));
        }
        actions.push(self.remove_line(k));
        if pid > 0 {
            if self.line_go_die(pid) {
                actions.push(Action::Shutdown(pid));
            }
        }
        proof {
            let w = HubView { m: v.m.remove(k), ..v };
            assert(final(self)@.m =~= pair_removed(v, k).m);
            assert(actions@ =~= pair_removal_actions(v, k));
            let f = final(self)@;
            assert forall|j: usize| #[trigger]
                f.m.contains_key(j) && f.m[j].partner_id > 0 implies f.m[j].partner_id != j
                && f.m.contains_key(f.m[j].partner_id) && f.m[f.m[j].partner_id].partner_id
                == j by {
                assert(v.m.contains_key(j));
                assert(j != k);
                if pid > 0 && j == pid {
                    assert(v.m[pid].partner_id == k);
                    assert(v.m[pid].status != LineStatus::Dead);
                    assert(f.m[j].partner_id == 0);
                }
                assert(j != pid || pid == 0);
                assert(f.m[j] == v.m[j]);
                let q = v.m[j].partner_id;
                assert(q > 0);
                assert(v.m.contains_key(q));
                assert(v.m[q].partner_id == j);
                assert(q != k);
                if pid > 0 && q == pid {
                    assert(v.m[pid].partner_id == k);
                }
                assert(f.m[q] == v.m[q]);
            }
            assert forall|j: usize| #[trigger]
                f.m.contains_key(j) && f.m[j].status == LineStatus::Dead implies f.m[j].partner_id
                == 0 by {
                if pid > 0 && j == pid {
                } else {
                    assert(f.m[j] == v.m[j]);
                }
            }
        }
        actions
    }

    /// Queues `data` on line `pid`, which then sends.
    fn tunnel(&mut self, pid: usize, data: Vec<u8>) -> (a: Action)
        requires
            pid > 0,
            old(self)@.m.contains_key(pid),
        ensures
            a == Action::Send(pid),
            final(self)@ == with_line(
                old(self)@,
                pid,
                LineView { queue: old(self)@.m[pid].queue + data@, ..old(self)@.m[pid] },
            ),
    {
        self.line_add_queue(pid, data);
        Action::Send(pid)
    }
}


///Caller Hub
impl Hub {
    /// Some caller line ready to carry a tunnel; which one, when there are
    /// several, depends on how the map is walked.
    pub fn get_idle_caller(&self) -> (r: usize)
        requires
            has_idle_caller(self@),
        ensures
            self@.m.contains_key(r),
            is_idle_caller(self@.m[r]),
    {
        let iter = self.m.iter();
        let ghost s = spec_hash_map_iter(&self.m).remaining();
        assert(iter == spec_hash_map_iter(&self.m));
        for (key, v) in it: iter
            invariant
                s == spec_hash_map_iter(&self.m).remaining(),
                it.seq() == s,
                forall|j: int| 0 <= j < it.index() ==> !is_idle_caller((#[trigger] s[j]).1@),
        {
            match v.kind() {
                LineType::Caller => {
                    if v.available() {
                        proof {
                            assert(s[it.index()] == (key, v));
                            assert(self.m@.contains_key(*key) && self.m@[*key] == *v);
                        }
                        return *key;
                    }
                },
                _ => {},
            }
        }
        proof {
            let k = choose|k: usize| self@.m.contains_key(k) && #[trigger] is_idle_caller(self@.m[k]);
            assert(self.m@.contains_key(k));
            assert(s.contains((&k, &self.m@[k])));
            let j = choose|j: int| 0 <= j < s.len() && s[j] == (&k, &self.m@[k]);
            assert(!is_idle_caller(s[j].1@));
        }
        0
    }

    /// Sets the healthy number of callers and the proxy server's address
    /// (which the caller has checked to be a socket address), then adds that
    /// many callers born at `born`; returns their ids, for the event loop to
    /// connect.
    pub fn init_callers(&mut self, n: u8, addr: &str, born: u128) -> (ids: Vec<usize>)
        requires
            wf(old(self)@),
            n < 64,
            old(self)@.id + n <= usize::MAX,
        ensures
            ids@ == next_ids(old(self)@, n as nat),
            final(self)@ == with_callers(
                HubView { healthy_size: n, proxy_server: Some(addr@), ..old(self)@ },
                n as nat,
                born,
            ),
            wf(final(self)@),
    {
        self.healthy_size = n;
        self.proxy_server = Some(addr.to_owned());
        self.add_caller(n, born)
    }

    /// Keeps enough callers: with at least the healthy number idle, stops
    /// spawning; otherwise, unless a spawn is under way, starts one that adds
    /// the healthy number of callers. Returns the ids added.
    pub fn check_callers(&mut self, born: u128) -> (ids: Vec<usize>)
        requires
            wf(old(self)@),
            class_ids(old(self)@, 0).len() <= u8::MAX,
            class_ids(old(self)@, 1).len() <= u8::MAX,
            class_ids(old(self)@, 2).len() <= u8::MAX,
            class_ids(old(self)@, 3).len() <= u8::MAX,
            old(self)@.proxy_server is Some,
            old(self)@.id + old(self)@.healthy_size <= usize::MAX,
        ensures
            wf(final(self)@),
            class_ids(old(self)@, 0).len() >= old(self)@.healthy_size ==> ids@.len() == 0
                && final(self)@ == (HubView { spawning: false, ..old(self)@ }),
            class_ids(old(self)@, 0).len() < old(self)@.healthy_size && old(self)@.spawning
                ==> ids@.len() == 0 && final(self)@ == old(self)@,
            class_ids(old(self)@, 0).len() < old(self)@.healthy_size && !old(self)@.spawning
                ==> ids@ == next_ids(old(self)@, old(self)@.healthy_size as nat) && final(self)@
                == with_callers(
                HubView { spawning: true, ..old(self)@ },
                old(self)@.healthy_size as nat,
                born,
            ),
    {
        let (idle, _born, _working, _dead) = self.count_caller();
        if idle >= self.healthy_size as u16 {
            self.spawning = false;
            return Vec::new();
        }
        if self.spawning {
            return Vec::new();
        }
        self.spawning = true;
        let n = self.healthy_size;
        self.add_caller(n, born)
    }

    /// Whether `check_callers` may run: each class of callers fits a `u8`
    /// count, the proxy server's address is known and the ids have room
    /// for a full set of new callers.
    pub fn can_check_callers(&self) -> (r: bool)
        ensures
            r == (class_ids(self@, 0).len() <= u8::MAX && class_ids(self@, 1).len() <= u8::MAX
                && class_ids(self@, 2).len() <= u8::MAX && class_ids(self@, 3).len() <= u8::MAX
                && self@.proxy_server is Some && self@.id + self@.healthy_size <= usize::MAX),
    {
        let (idle, born, working, dead) = self.count_caller();
        idle <= 255 && born <= 255 && working <= 255 && dead <= 255 && self.proxy_server.is_some()
            && self.id <= usize::MAX - self.healthy_size as usize
    }

    /// Whether `add_one_caller` may run: the proxy server's address is
    /// known and the ids have room for one more line.
    pub fn can_add_caller(&self) -> (r: bool)
        ensures
            r == (self@.proxy_server is Some && self@.id < usize::MAX),
    {
        self.proxy_server.is_some() && self.id < usize::MAX
    }

    fn add_caller(&mut self, n: u8, born: u128) -> (ids: Vec<usize>)
        requires
            wf(old(self)@),
            old(self)@.id + n <= usize::MAX,
        ensures
            ids@ == next_ids(old(self)@, n as nat),
            final(self)@ == with_callers(old(self)@, n as nat, born),
            wf(final(self)@),
    {
        let ghost v = self@;
        let mut ids: Vec<usize> = Vec::new();
        let mut i: u8 = 0;
        assert(with_callers(v, 0, born) == v) by {
            assert(with_callers(v, 0, born).m =~= v.m);
        }
        while i < n
            invariant
                v.id + n <= usize::MAX,
                wf(v),
                i <= n,
                self@ == with_callers(v, i as nat, born),
                ids@ == next_ids(v, i as nat),
                wf(self@),
            decreases n - i,
        {
            let id = self.new_line(LineType::Caller, born);
            ids.push(id);
            proof {
                let a = with_callers(v, i as nat, born);
                let b = with_callers(v, (i + 1) as nat, born);
                assert(b.m =~= a.m.insert(id, fresh_line(id, LineType::Caller, born)));
                assert(ids@ =~= next_ids(v, (i + 1) as nat));
            }
            i = i + 1;
        }
        ids
    }

    /// Adds one caller, born at `born`, for the proxy server; returns its id,
    /// for the event loop to connect.
    pub fn add_one_caller(&mut self, born: u128) -> (id: usize)
        requires
            wf(old(self)@),
            old(self)@.id < usize::MAX,
            old(self)@.proxy_server is Some,
        ensures
            id == old(self)@.id + 1,
            !old(self)@.m.contains_key(id),
            final(self)@ == (HubView {
                id,
                m: old(self)@.m.insert(id, fresh_line(id, LineType::Caller, born)),
                ..old(self)@
            }),
            wf(final(self)@),
    {
        self.new_line(LineType::Caller, born)
    }

    /// The address of the proxy server callers connect to.
    pub fn proxy_server(&self) -> (r: &String)
        requires
            self@.proxy_server is Some,
        ensures
            r@ == self@.proxy_server->0,
    {
        self.proxy_server.as_ref().unwrap()
    }

    /// Counts the caller lines by class: (idle, born, working, dead), each
    /// count stopping at 256.
    fn count_caller(&self) -> (r: (u16, u16, u16, u16))
        ensures
            r.0 == capped(class_ids(self@, 0).len()),
            r.1 == capped(class_ids(self@, 1).len()),
            r.2 == capped(class_ids(self@, 2).len()),
            r.3 == capped(class_ids(self@, 3).len()),
    {
        let mut idle: u16 = 0;
        let mut born: u16 = 0;
        let mut working: u16 = 0;
        let mut dead: u16 = 0;
        let iter = self.m.iter();
        let ghost s = spec_hash_map_iter(&self.m).remaining();
        assert(iter == spec_hash_map_iter(&self.m));
        proof {
            lemma_iter_keys_distinct(self.m@, s);
            lemma_prefix_empty(s, 0);
            lemma_prefix_empty(s, 1);
            lemma_prefix_empty(s, 2);
            lemma_prefix_empty(s, 3);
        }
        for (_key, v) in it: iter
            invariant
                s == spec_hash_map_iter(&self.m).remaining(),
                it.seq() == s,
                forall|i: int, j: int|
                    0 <= i < s.len() && 0 <= j < s.len() && i != j ==> *(#[trigger] s[i]).0
                        != *(#[trigger] s[j]).0,
                forall|c: int| 0 <= c < 4 ==> (#[trigger] prefix_keys(s, it.index(), c)).finite(),
                idle == capped(prefix_keys(s, it.index(), 0).len()),
                born == capped(prefix_keys(s, it.index(), 1).len()),
                working == capped(prefix_keys(s, it.index(), 2).len()),
                dead == capped(prefix_keys(s, it.index(), 3).len()),
        {
            let ghost n = it.index();
            proof {
                assert(s[n] == (_key, v));
                lemma_prefix_step(s, n, 0);
                lemma_prefix_step(s, n, 1);
                lemma_prefix_step(s, n, 2);
                lemma_prefix_step(s, n, 3);
            }
            match v.kind() {
                LineType::Caller => {
                    if v.available() {
                        idle = count_up(idle);
                    } else if v.just_born() {
                        born = count_up(born);
                    } else if v.is_dead() {
                        dead = count_up(dead);
                    } else if v.partner_id() > 0 {
                        working = count_up(working);
                    }
                },
                _ => {},
            }
        }
        proof {
            lemma_prefix_all(self@, self.m@, s, 0);
            lemma_prefix_all(self@, self.m@, s, 1);
            lemma_prefix_all(self@, self.m@, s, 2);
            lemma_prefix_all(self@, self.m@, s, 3);
        }
        (idle, born, working, dead)
    }
}

/// What happened on a line's socket.
#[derive(Debug, Clone, Copy)]
pub struct EventFlags {
    pub is_error: bool,
    pub is_writable: bool,
    pub is_readable: bool,
    pub is_read_closed: bool,
}

/// What the event loop does next for an event on a line.
#[derive(Debug, PartialEq, Eq)]
pub enum EventPlan {
    /// The socket failed and the pair was removed: report the socket's
    /// error, then perform these actions.
    Failed(Vec<Action>),
    /// If `send`, write the line's queue; if `read`, read the socket and
    /// hand the bytes to `process_read`; if `close`, write the queue and
    /// then `remove_pair`.
    Ready { send: bool, read: bool, close: bool },
}

/// When `process_read` can handle `buf` from line `k`: a fox must bring a
/// full connect request at stage 1, a host that fits a length byte at stage
/// 2, and find an idle caller when it has no partner; an http request must
/// have a path; an operator without partner needs a readable first
/// payload; other lines need a partner.
pub open spec fn read_ok(v: HubView, k: usize, buf: Seq<u8>) -> bool {
    let l = v.m[k];
    buf.len() == 0 || match l.kind {
        LineType::Fox => {
            &&& l.stage == 1 ==> buf.len() >= 7
            &&& l.stage == 2 ==> encode_utf8(l.host).len() <= 255
            &&& l.stage >= 2 && l.partner_id == 0 ==> has_idle_caller(v)
        },
        LineType::Log => has_request_path(buf),
        LineType::Operator => l.partner_id == 0 ==> sni_readable(buf),
        _ => l.partner_id > 0,
    }
}

/// What a fox line sends on to its caller for `buf` at stage `stage`
/// (from stage 2 on).
pub open spec fn fox_forward(l: LineView, buf: Seq<u8>) -> Seq<u8> {
    if l.stage == 2 {
        spec_encode(sni_frame(l.host, buf))
    } else {
        buf
    }
}

/// How `process_read` treats bytes from a fox line (nonempty `buf`):
/// stages 0 and 1 answer the SOCKS5 client; later stages forward to the
/// partner caller, first pairing the fox with an idle caller `c` when it
/// has none.
pub open spec fn fox_step(v: HubView, k: usize, buf: Seq<u8>, w: HubView, a: Seq<Action>) -> bool {
    let l = v.m[k];
    if l.stage == 0 {
        &&& w == with_line(v, k, LineView { stage: 1, queue: l.queue + greeting_reply(), ..l })
        &&& a == seq![Action::Send(k)]
    } else if l.stage == 1 {
        &&& w == with_line(
            v,
            k,
            LineView { stage: 2, queue: l.queue + connect_reply(), host: w.m[k].host, ..l },
        )
        &&& host_from_request(w.m[k].host, buf)
        &&& a == seq![Action::Send(k)]
    } else {
        let l2 = LineView { stage: if l.stage == 2 { 3 } else { l.stage }, ..l };
        let data = fox_forward(l, buf);
        &&& a.len() == 1
        &&& a[0] matches Action::Send(c) && {
            if l.partner_id == 0 {
                &&& v.m.contains_key(c)
                &&& is_idle_caller(v.m[c])
                &&& w == HubView {
                    m: v.m.insert(k, LineView { partner_id: c, ..l2 }).insert(
                        c,
                        LineView { partner_id: k, queue: v.m[c].queue + data, ..v.m[c] },
                    ),
                    ..v
                }
            } else {
                &&& c == l.partner_id
                &&& w == HubView {
                    m: v.m.insert(k, l2).insert(
                        c,
                        LineView { queue: v.m[c].queue + data, ..v.m[c] },
                    ),
                    ..v
                }
            }
        }
    }
}

/// How `process_read` treats bytes from an operator line (nonempty
/// `buf`): with a spider partner they go to it; otherwise the line reads
/// the destination from the first payload and asks for it to be resolved.
pub open spec fn operator_step(v: HubView, k: usize, buf: Seq<u8>, w: HubView, a: Seq<Action>) -> bool {
    let l = v.m[k];
    if l.partner_id > 0 {
        &&& w == with_line(
            v,
            l.partner_id,
            LineView { queue: v.m[l.partner_id].queue + buf, ..v.m[l.partner_id] },
        )
        &&& a == seq![Action::Send(l.partner_id)]
    } else {
        &&& w == with_line(v, k, LineView { host: w.m[k].host, ..l })
        &&& w.m[k].host == lossy_text(sni_host_bytes(buf))
        &&& valid_utf8(sni_host_bytes(buf)) ==> w.m[k].host == decode_utf8(sni_host_bytes(buf))
        &&& a.len() == 1
        &&& a[0] matches Action::Resolve { operator, host, data } && operator == k && host@
            == w.m[k].host && data@ == sni_payload(buf)
    }
}

/// How `process_read` treats bytes from an http line (nonempty `buf`):
/// nothing changes; the line is to be served from the path's plan.
pub open spec fn log_step(v: HubView, k: usize, buf: Seq<u8>, w: HubView, a: Seq<Action>) -> bool {
    &&& w == v
    &&& a.len() == 1
    &&& a[0] matches Action::Serve { id, source, mime } && id == k && is_content_plan(
        lossy_text(request_path_bytes(buf)),
        false,
        source,
        mime,
    ) && (valid_utf8(request_path_bytes(buf)) ==> is_content_plan(
        decode_utf8(request_path_bytes(buf)),
        false,
        source,
        mime,
    ))
}

/// The hub after `n` new callers, born at `born`, were added.
pub open spec fn with_callers(v: HubView, n: nat, born: u128) -> HubView {
    HubView {
        id: (v.id + n) as usize,
        m: Map::new(
            |k: usize| v.m.contains_key(k) || (v.id < k <= v.id + n),
            |k: usize|
                if v.m.contains_key(k) {
                    v.m[k]
                } else {
                    fresh_line(k, LineType::Caller, born)
                },
        ),
        ..v
    }
}

/// The ids that `n` new lines get after `v`.
pub open spec fn next_ids(v: HubView, n: nat) -> Seq<usize> {
    Seq::new(n, |i: int| (v.id + 1 + i) as usize)
}

impl Hub {
    /// Decides what an event on line `k` calls for. On a failed socket the
    /// pair is removed and its actions returned, for the caller to report
    /// the error and perform them; a dead line only closes; otherwise a
    /// writable socket makes the line connected and sends, a readable one
    /// is read, and a closed read side closes the pair.
    pub fn process(&mut self, k: usize, ev: EventFlags) -> (plan: EventPlan)
        requires
            wf(old(self)@),
            old(self)@.m.contains_key(k),
        ensures
            ev.is_error ==> (plan matches EventPlan::Failed(actions) && actions@
                == pair_removal_actions(old(self)@, k)) && final(self)@ == pair_removed(
                old(self)@,
                k,
            ),
            !ev.is_error && old(self)@.m[k].status == LineStatus::Dead ==> plan == (EventPlan::Ready {
                send: false,
                read: false,
                close: ev.is_read_closed,
            }) && final(self)@ == old(self)@,
            !ev.is_error && old(self)@.m[k].status != LineStatus::Dead ==> plan == (EventPlan::Ready {
                send: ev.is_writable,
                read: ev.is_readable,
                close: ev.is_read_closed,
            }) && final(self)@ == if ev.is_writable {
                with_line(
                    old(self)@,
                    k,
                    LineView { status: LineStatus::Connected, ..old(self)@.m[k] },
                )
            } else {
                old(self)@
            },
            wf(final(self)@),
    {
        if ev.is_error {
            let actions = self.remove_pair(k);
            return EventPlan::Failed(actions);
        }
        if self.get_line(k).is_dead() {
            return EventPlan::Ready { send: false, read: false, close: ev.is_read_closed };
        }
        if ev.is_writable {
            let ghost v = self@;
            let mut l = self.take_line(k);
            l.on_writable();
            self.put_line(k, l);
            proof {
                assert(self@.m =~= v.m.insert(k, LineView { status: LineStatus::Connected, ..v.m[k] }));
                if wf(v) {
                    lemma_same_links_wf(v, self@);
                }
            }
        }
        EventPlan::Ready { send: ev.is_writable, read: ev.is_readable, close: ev.is_read_closed }
    }

    /// Whether `process_read` can handle `buf` from line `k`.
    pub fn can_process_read(&self, k: usize, buf: &Vec<u8>) -> (r: bool)
        requires
            wf(self@),
            self@.m.contains_key(k),
        ensures
            r == read_ok(self@, k, buf@),
    {
        if buf.len() == 0 {
            return true;
        }
        let l = self.get_line(k);
        match l.kind() {
            LineType::Fox => {
                if l.stage() == 1 && buf.len() < 7 {
                    return false;
                }
                if l.stage() == 2 && l.host().as_str().as_bytes().len() > 255 {
                    return false;
                }
                if l.stage() >= 2 && l.partner_id() == 0 {
                    return self.has_idle_caller();
                }
                true
            },
            LineType::Log => crate::gate::hub::http::request_path(buf.as_slice()).is_some(),
            LineType::Operator => {
                if l.partner_id() > 0 {
                    return true;
                }
                buf.len() >= 1 && (buf[0] as usize) + 1 <= buf.len()
            },
            _ => l.partner_id() > 0,
        }
    }

    /// Whether some caller line is ready to carry a tunnel.
    pub fn has_idle_caller(&self) -> (r: bool)
        ensures
            r == has_idle_caller(self@),
    {
        let iter = self.m.iter();
        let ghost s = spec_hash_map_iter(&self.m).remaining();
        assert(iter == spec_hash_map_iter(&self.m));
        for (_key, v) in it: iter
            invariant
                s == spec_hash_map_iter(&self.m).remaining(),
                it.seq() == s,
                forall|j: int| 0 <= j < it.index() ==> !is_idle_caller((#[trigger] s[j]).1@),
        {
            proof {
                assert(s[it.index()] == (_key, v));
            }
            match v.kind() {
                LineType::Caller => {
                    if v.available() {
                        proof {
                            assert(self.m@.contains_key(*_key) && self.m@[*_key] == *v);
                            assert(is_idle_caller(self@.m[*_key]));
                        }
                        return true;
                    }
                },
                _ => {},
            }
        }
        proof {
            if has_idle_caller(self@) {
                let k = choose|k: usize| self@.m.contains_key(k) && #[trigger] is_idle_caller(self@.m[k]);
                assert(self.m@.contains_key(k));
                assert(s.contains((&k, &self.m@[k])));
                let j = choose|j: int| 0 <= j < s.len() && s[j] == (&k, &self.m@[k]);
                assert(!is_idle_caller(s[j].1@));
            }
        }
        false
    }

    /// Handles the bytes `buf` read from line `k`, by the line's kind: a fox
    /// speaks SOCKS5 and forwards to its caller, an http line is served, an
    /// operator forwards to its spider or asks for its destination to be
    /// resolved, any other line forwards to its partner. Returns the work
    /// for the event loop.
    pub fn process_read(&mut self, k: usize, buf: Vec<u8>) -> (actions: Vec<Action>)
        requires
            wf(old(self)@),
            old(self)@.m.contains_key(k),
            old(self)@.m[k].status != LineStatus::Dead,
            read_ok(old(self)@, k, buf@),
        ensures
            wf(final(self)@),
            buf@.len() == 0 ==> final(self)@ == old(self)@ && actions@.len() == 0,
            buf@.len() > 0 && old(self)@.m[k].kind == LineType::Fox ==> fox_step(
                old(self)@,
                k,
                buf@,
                final(self)@,
                actions@,
            ),
            buf@.len() > 0 && old(self)@.m[k].kind == LineType::Log ==> log_step(
                old(self)@,
                k,
                buf@,
                final(self)@,
                actions@,
            ),
            buf@.len() > 0 && old(self)@.m[k].kind == LineType::Operator ==> operator_step(
                old(self)@,
                k,
                buf@,
                final(self)@,
                actions@,
            ),
            buf@.len() > 0 && (old(self)@.m[k].kind == LineType::Caller || old(self)@.m[k].kind
                == LineType::Spider) ==> final(self)@ == with_line(
                old(self)@,
                old(self)@.m[k].partner_id,
                LineView {
                    queue: old(self)@.m[old(self)@.m[k].partner_id].queue + buf@,
                    ..old(self)@.m[old(self)@.m[k].partner_id]
                },
            ) && actions@ == seq![Action::Send(old(self)@.m[k].partner_id)],
    {
        let pid = self.get_line(k).partner_id();
        let mut actions: Vec<Action> = Vec::new();
        if buf.len() == 0 {
            return actions;
        }
        match self.get_line(k).kind() {
            LineType::Fox => {
                actions = self.process_fox(k, buf);
            },
            LineType::Log => {
                actions = self.process_log(k, buf);
            },
            LineType::Operator => {
                actions = self.process_operator(k, buf);
            },
            _ => {
                let ghost v = self@;
                actions.push(self.tunnel(pid, buf));
                proof {
                    assert(actions@ =~= seq![Action::Send(pid)]);
                    lemma_queue_keeps_wf(v, pid, self@);
                }
            },
        }
        actions
    }

    fn process_fox(&mut self, k: usize, buf: Vec<u8>) -> (actions: Vec<Action>)
        requires
            wf(old(self)@),
            old(self)@.m.contains_key(k),
            old(self)@.m[k].kind == LineType::Fox,
            old(self)@.m[k].status != LineStatus::Dead,
            buf@.len() > 0,
            read_ok(old(self)@, k, buf@),
        ensures
            wf(final(self)@),
            fox_step(old(self)@, k, buf@, final(self)@, actions@),
    {
        let ghost v = self@;
        let fox_id = k;
        let mut caller_id = self.get_line(k).partner_id();
        let mut l = self.take_line(k);
        let ghost l0 = l@;
        let data = l.fox_data(buf);
        self.put_line(k, l);
        let mut actions: Vec<Action> = Vec::new();
        match data {
            Some(data) => {
                let ghost v1 = self@;
                proof {
                    assert(v1.m =~= v.m.insert(k, v1.m[k]));
                    lemma_same_links_wf(v, v1);
                    if l0.partner_id == 0 {
                        let c = choose|c: usize| v.m.contains_key(c) && #[trigger] is_idle_caller(v.m[c]);
                        assert(c != k);
                        assert(v1.m[c] == v.m[c]);
                        assert(is_idle_caller(v1.m[c]));
                    }
                }
                if caller_id == 0 {
                    caller_id = self.get_idle_caller();
                    proof {
                        assert(caller_id != k);
                        assert(v1.m[caller_id] == v.m[caller_id]);
                    }
                    self.line_set_partner(caller_id, fox_id);
                    self.line_set_partner(k, caller_id);
                }
                let ghost v2 = self@;
                actions.push(self.tunnel(caller_id, data));
                proof {
                    assert(actions@ =~= seq![Action::Send(caller_id)]);
                    let f = self@;
                    if l0.partner_id == 0 {
                        assert(f.m =~= v.m.insert(k, LineView { partner_id: caller_id, ..v1.m[k] }).insert(
                            caller_id,
                            LineView { partner_id: k, queue: v.m[caller_id].queue + fox_forward(l0, buf@), ..v.m[caller_id] },
                        ));
                        lemma_pairing_keeps_wf(v1, k, caller_id, v2);
                    } else {
                        assert(caller_id == l0.partner_id);
                        assert(caller_id != k);
                        assert(f.m =~= v.m.insert(k, v1.m[k]).insert(
                            caller_id,
                            LineView { queue: v.m[caller_id].queue + fox_forward(l0, buf@), ..v.m[caller_id] },
                        ));
                    }
                    lemma_queue_keeps_wf(v2, caller_id, f);
                }
            },
            None => {
                actions.push(Action::Send(k));
                proof {
                    assert(actions@ =~= seq![Action::Send(k)]);
                    assert(self@.m =~= v.m.insert(k, self@.m[k]));
                    lemma_same_links_wf(v, self@);
                }
            },
        }
        actions
    }

    fn process_log(&mut self, k: usize, buf: Vec<u8>) -> (actions: Vec<Action>)
        requires
            wf(old(self)@),
            old(self)@.m.contains_key(k),
            old(self)@.m[k].kind == LineType::Log,
            has_request_path(buf@),
        ensures
            wf(final(self)@),
            log_step(old(self)@, k, buf@, final(self)@, actions@),
    {
        let ghost v = self@;
        let mut l = self.take_line(k);
        let (source, mime) = l.http(buf);
        self.put_line(k, l);
        let mut actions: Vec<Action> = Vec::new();
        actions.push(Action::Serve { id: k, source, mime });
        assert(self@.m =~= v.m);
        actions
    }

    fn process_operator(&mut self, k: usize, buf: Vec<u8>) -> (actions: Vec<Action>)
        requires
            wf(old(self)@),
            old(self)@.m.contains_key(k),
            old(self)@.m[k].kind == LineType::Operator,
            buf@.len() > 0,
            read_ok(old(self)@, k, buf@),
        ensures
            wf(final(self)@),
            operator_step(old(self)@, k, buf@, final(self)@, actions@),
    {
        let ghost v = self@;
        let spider_id = self.get_line(k).partner_id();
        let mut actions: Vec<Action> = Vec::new();
        if spider_id > 0 {
            actions.push(self.tunnel(spider_id, buf));
            proof {
                assert(actions@ =~= seq![Action::Send(spider_id)]);
                lemma_queue_keeps_wf(v, spider_id, self@);
            }
            return actions;
        }
        let mut l = self.take_line(k);
        let data = l.decrypt_sni(&buf).unwrap();
        let host = l.host().clone();
        self.put_line(k, l);
        proof {
            assert(self@.m =~= v.m.insert(k, self@.m[k]));
            lemma_same_links_wf(v, self@);
        }
        actions.push(Action::Resolve { operator: k, host, data });
        actions
    }

    /// Opens the spider line for an operator once its destination `host`
    /// resolved and a connection was made: the spider (created at time
    /// `born`) and the operator become partners, the spider takes the host
    /// and queues `data`. Returns the spider's id.
    pub fn create_spider(&mut self, host: String, operator_id: usize, data: Vec<u8>, born: u128) -> (id: usize)
        requires
            wf(old(self)@),
            old(self)@.id < usize::MAX,
            old(self)@.m.contains_key(operator_id),
            old(self)@.m[operator_id].partner_id == 0,
            old(self)@.m[operator_id].status != LineStatus::Dead,
        ensures
            id == old(self)@.id + 1,
            final(self)@ == (HubView {
                id,
                m: old(self)@.m.insert(
                    id,
                    LineView {
                        partner_id: operator_id,
                        host: host@,
                        queue: data@,
                        ..fresh_line(id, LineType::Spider, born)
                    },
                ).insert(operator_id, LineView { partner_id: id, ..old(self)@.m[operator_id] }),
                ..old(self)@
            }),
            wf(final(self)@),
    {
        let ghost v = self@;
        let id = self.new_line(LineType::Spider, born);
        let ghost v1 = self@;
        let mut spider = self.take_line(id);
        spider.set_partner_id(operator_id);
        spider.set_host(host);
        self.put_line(id, spider);
        self.line_set_partner(operator_id, id);
        let ghost v2 = self@;
        self.line_add_queue(id, data);
        proof {
            assert(self@.m =~= v.m.insert(
                id,
                LineView {
                    partner_id: operator_id,
                    host: host@,
                    queue: data@,
                    ..fresh_line(id, LineType::Spider, born)
                },
            ).insert(operator_id, LineView { partner_id: id, ..v.m[operator_id] }));
            let f = self@;
            assert forall|j: usize| #[trigger]
                f.m.contains_key(j) && f.m[j].partner_id > 0 implies f.m[j].partner_id != j
                && f.m.contains_key(f.m[j].partner_id) && f.m[f.m[j].partner_id].partner_id
                == j by {
                if j != id && j != operator_id {
                    assert(v.m.contains_key(j));
                    let q = v.m[j].partner_id;
                    assert(v.m.contains_key(q));
                    assert(q != operator_id);
                }
            }
        }
        id
    }

    /// Queues the answer of http line `k`: the reply for `source` given
    /// what reading its file gave. The event loop then sends and closes
    /// the line.
    pub fn answer_http(&mut self, k: usize, source: &ContentSource, mime: Mime, body: Option<Vec<u8>>)
        requires
            old(self)@.m.contains_key(k),
        ensures
            ({
                let code: u16 = if source is Forbidden {
                    403
                } else if body is Some {
                    200
                } else {
                    404
                };
                let content = if source is File && body is Some {
                    body->0@
                } else {
                    Seq::empty()
                };
                final(self)@ == with_line(
                    old(self)@,
                    k,
                    LineView {
                        queue: old(self)@.m[k].queue + encode_utf8(http_head(code, mime)) + content,
                        ..old(self)@.m[k]
                    },
                )
            }),
            wf(old(self)@) ==> wf(final(self)@),
    {
        let ghost v = self@;
        let (code, content) = http_reply(source, body);
        let mut l = self.take_line(k);
        l.respond(code, mime, content);
        self.put_line(k, l);
        proof {
            assert(self@.m =~= v.m.insert(k, self@.m[k]));
            if wf(v) {
                lemma_same_links_wf(v, self@);
            }
        }
    }

    /// Drops the first `n` bytes queued on line `k`, which its socket took.
    pub fn shrink_queue(&mut self, k: usize, n: usize)
        requires
            old(self)@.m.contains_key(k),
            n <= old(self)@.m[k].queue.len(),
        ensures
            final(self)@ == with_line(
                old(self)@,
                k,
                LineView { queue: old(self)@.m[k].queue.skip(n as int), ..old(self)@.m[k] },
            ),
            wf(old(self)@) ==> wf(final(self)@),
    {
        let ghost v = self@;
        let mut l = self.take_line(k);
        l.shrink_queue(n);
        self.put_line(k, l);
        proof {
            assert(self@.m =~= v.m.insert(k, self@.m[k]));
            if wf(v) {
                lemma_same_links_wf(v, self@);
            }
        }
    }

    /// Line `k` dies; returns the work for the event loop.
    pub fn close_line(&mut self, k: usize) -> (actions: Vec<Action>)
        requires
            old(self)@.m.contains_key(k),
        ensures
            final(self)@ == with_line(old(self)@, k, died(old(self)@.m[k])),
            actions@ == if dies_connected(old(self)@.m[k]) {
                seq![Action::Shutdown(k)]
            } else {
                Seq::empty()
            },
            wf(old(self)@) && old(self)@.m[k].partner_id == 0 ==> wf(final(self)@),
    {
        let ghost v = self@;
        let mut actions: Vec<Action> = Vec::new();
        if self.line_go_die(k) {
            actions.push(Action::Shutdown(k));
        }
        proof {
            assert(actions@ =~= if dies_connected(v.m[k]) {
                seq![Action::Shutdown(k)]
            } else {
                Seq::empty()
            });
            if wf(v) && v.m[k].partner_id == 0 {
                let f = self@;
                assert forall|j: usize| #[trigger]
                    f.m.contains_key(j) && f.m[j].partner_id > 0 implies f.m[j].partner_id != j
                    && f.m.contains_key(f.m[j].partner_id) && f.m[f.m[j].partner_id].partner_id
                    == j by {
                    if j != k {
                        assert(v.m[j].partner_id != k);
                    }
                }
            }
        }
        actions
    }
}

/// Once a pair is removed, its line is gone and no line of the hub names
/// it as partner any more; its partner, if it had one, is dead.
pub proof fn lemma_pair_removed_unreferenced(v: HubView, k: usize)
    requires
        wf(v),
        v.m.contains_key(k),
    ensures
        !pair_removed(v, k).m.contains_key(k),
        forall|j: usize| #[trigger]
            pair_removed(v, k).m.contains_key(j) ==> pair_removed(v, k).m[j].partner_id != k,
        v.m[k].partner_id > 0 ==> pair_removed(v, k).m[v.m[k].partner_id].status
            == LineStatus::Dead,
{
    let w = pair_removed(v, k);
    assert forall|j: usize| #[trigger] w.m.contains_key(j) implies w.m[j].partner_id != k by {
        if v.m[k].partner_id > 0 && j == v.m[k].partner_id {
            assert(v.m[j].partner_id == k);
            assert(v.m[j].status != LineStatus::Dead);
        } else {
            if v.m[j].partner_id == k {
                assert(v.m[k].partner_id == j);
            }
        }
    }
}

/// Queuing bytes on a line keeps the hub's invariant.
proof fn lemma_queue_keeps_wf(v: HubView, p: usize, w: HubView)
    requires
        wf(v),
        v.m.contains_key(p),
        w.id == v.id,
        w.m == v.m.insert(p, LineView { queue: w.m[p].queue, ..v.m[p] }),
    ensures
        wf(w),
{
    assert(w.m.dom() =~= v.m.dom());
    lemma_same_links_wf(v, w);
}

/// Pairing two unpaired live lines keeps the hub's invariant.
proof fn lemma_pairing_keeps_wf(v: HubView, a: usize, b: usize, w: HubView)
    requires
        wf(v),
        v.m.contains_key(a),
        v.m.contains_key(b),
        a != b,
        v.m[a].partner_id == 0,
        v.m[b].partner_id == 0,
        v.m[a].status != LineStatus::Dead,
        v.m[b].status != LineStatus::Dead,
        w.id == v.id,
        w.m == v.m.insert(b, LineView { partner_id: a, ..v.m[b] }).insert(
            a,
            LineView { partner_id: b, ..v.m[a] },
        ),
    ensures
        wf(w),
{
    assert forall|j: usize| #[trigger]
        w.m.contains_key(j) && w.m[j].partner_id > 0 implies w.m[j].partner_id != j
        && w.m.contains_key(w.m[j].partner_id) && w.m[w.m[j].partner_id].partner_id == j by {
        if j != a && j != b {
            let q = v.m[j].partner_id;
            assert(v.m.contains_key(q));
            assert(q != a && q != b);
        }
    }
}

/// The keys among the first `n` entries of a walk whose line has class `c`.
/// A count that stops at 256.
pub open spec fn capped(n: nat) -> nat {
    if n <= 255 {
        n
    } else {
        256
    }
}

/// One more, stopping at 256.
fn count_up(c: u16) -> (r: u16)
    requires
        c <= 256,
    ensures
        r == if c < 256 {
            c + 1
        } else {
            256
        },
{
    if c < 256 {
        c + 1
    } else {
        c
    }
}

pub open spec fn prefix_keys(s: Seq<(&usize, &Line)>, n: int, c: int) -> Set<usize> {
    Set::new(|k: usize| exists|j: int| 0 <= j < n && *s[j].0 == k && caller_class(s[j].1@) == c)
}

proof fn lemma_iter_keys_distinct(m: Map<usize, Line>, s: Seq<(&usize, &Line)>)
    requires
        s.no_duplicates(),
        forall|i: int| 0 <= i < s.len() ==> m.contains_key(*s[i].0) && m[*s[i].0] == *s[i].1,
    ensures
        forall|i: int, j: int|
            0 <= i < s.len() && 0 <= j < s.len() && i != j ==> *(#[trigger] s[i]).0
                != *(#[trigger] s[j]).0,
{
    assert forall|i: int, j: int|
        0 <= i < s.len() && 0 <= j < s.len() && i != j implies *(#[trigger] s[i]).0
        != *(#[trigger] s[j]).0 by {
        if *s[i].0 == *s[j].0 {
            assert(*s[i].1 == m[*s[i].0]);
            assert(*s[j].1 == m[*s[j].0]);
            assert(s[i] == s[j]);
        }
    }
}

proof fn lemma_prefix_empty(s: Seq<(&usize, &Line)>, c: int)
    ensures
        prefix_keys(s, 0, c) == Set::<usize>::empty(),
        prefix_keys(s, 0, c).finite(),
        prefix_keys(s, 0, c).len() == 0,
{
    assert(prefix_keys(s, 0, c) =~= Set::<usize>::empty());
}

proof fn lemma_prefix_step(s: Seq<(&usize, &Line)>, n: int, c: int)
    requires
        0 <= n < s.len(),
        forall|i: int, j: int|
            0 <= i < s.len() && 0 <= j < s.len() && i != j ==> *(#[trigger] s[i]).0
                != *(#[trigger] s[j]).0,
        prefix_keys(s, n, c).finite(),
    ensures
        prefix_keys(s, n + 1, c).finite(),
        caller_class(s[n].1@) == c ==> prefix_keys(s, n + 1, c).len() == prefix_keys(s, n, c).len()
            + 1,
        caller_class(s[n].1@) != c ==> prefix_keys(s, n + 1, c).len() == prefix_keys(
            s,
            n,
            c,
        ).len(),
{
    let k = *s[n].0;
    if caller_class(s[n].1@) == c {
        assert(prefix_keys(s, n + 1, c) =~= prefix_keys(s, n, c).insert(k));
        assert(!prefix_keys(s, n, c).contains(k)) by {
            if prefix_keys(s, n, c).contains(k) {
                let j = choose|j: int| 0 <= j < n && *s[j].0 == k && caller_class(s[j].1@) == c;
                assert(*s[j].0 != *s[n].0);
            }
        }
    } else {
        assert(prefix_keys(s, n + 1, c) =~= prefix_keys(s, n, c));
    }
}

proof fn lemma_prefix_sub(v: HubView, m: Map<usize, Line>, s: Seq<(&usize, &Line)>, n: int, c: int)
    requires
        v.m == lines_view(m),
        0 <= n <= s.len(),
        forall|i: int| 0 <= i < s.len() ==> m.contains_key(*s[i].0) && m[*s[i].0] == *s[i].1,
    ensures
        prefix_keys(s, n, c).subset_of(class_ids(v, c)),
{
    assert forall|k: usize| prefix_keys(s, n, c).contains(k) implies class_ids(v, c).contains(k) by {
        let j = choose|j: int| 0 <= j < n && *s[j].0 == k && caller_class(s[j].1@) == c;
        assert(m.contains_key(*s[j].0) && m[*s[j].0] == *s[j].1);
    }
}

proof fn lemma_prefix_all(v: HubView, m: Map<usize, Line>, s: Seq<(&usize, &Line)>, c: int)
    requires
        v.m == lines_view(m),
        forall|i: int| 0 <= i < s.len() ==> m.contains_key(*s[i].0) && m[*s[i].0] == *s[i].1,
        forall|k: usize| #[trigger] m.contains_key(k) ==> s.contains((&k, &m[k])),
    ensures
        prefix_keys(s, s.len() as int, c) == class_ids(v, c),
{
    lemma_prefix_sub(v, m, s, s.len() as int, c);
    assert forall|k: usize| class_ids(v, c).contains(k) implies prefix_keys(s, s.len() as int, c).contains(k) by {
        assert(m.contains_key(k));
        assert(s.contains((&k, &m[k])));
        let j = choose|j: int| 0 <= j < s.len() && s[j] == (&k, &m[k]);
        assert(*s[j].0 == k);
    }
    assert(prefix_keys(s, s.len() as int, c) =~= class_ids(v, c));
}

} // verus!
