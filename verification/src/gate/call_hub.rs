//! The front hub's callers: spawning them, counting the busy ones, retiring
//! the old ones and keeping enough of them waiting.

use vstd::prelude::*;
use super::hub::line_header::{LineStatus, LineType, LineView};
use super::hub_header::{dead_listed, front_wf, idle_known, idle_live, ids_fresh, killed, Hub, HubView};

verus! {

/// How long a waiting caller has been around.
#[derive(Debug, Clone, Copy, PartialEq, Eq, Structural)]
pub enum LineAge {
    Young,
    Old,
    /// Not a live caller: it has no age.
    Default,
}

/// Callers younger than this many milliseconds are young.
pub open spec fn young_limit() -> int {
    180000int
}

/// The age of a line at time `now` (milliseconds).
pub open spec fn spec_age(l: LineView, now: u128) -> LineAge {
    if l.kind != LineType::Caller {
        LineAge::Default
    } else if l.status == LineStatus::Dead {
        LineAge::Default
    } else if now - l.born < young_limit() {
        LineAge::Young
    } else {
        LineAge::Old
    }
}

/// A fresh caller line.
pub open spec fn fresh_caller(id: u64, born: u128) -> LineView {
    LineView {
        id,
        partner_id: 0,
        status: LineStatus::Born,
        kind: LineType::Caller,
        queue: Seq::empty(),
        stage: 0,
        host: Seq::empty(),
        read_close: false,
        write_close: false,
        born,
    }
}

/// The ids that `n` new lines get after `v`.
pub open spec fn next_ids(v: HubView, n: nat) -> Seq<u64> {
    Seq::new(n, |i: int| (v.id + 1 + i) as u64)
}

/// The hub after `n` new callers, born at `born`, joined the waiting list.
pub open spec fn with_callers(v: HubView, n: nat, born: u128) -> HubView {
    HubView {
        id: (v.id + n) as u64,
        m: Map::new(
            |k: u64| v.m.contains_key(k) || (v.id < k <= v.id + n),
            |k: u64|
                if v.m.contains_key(k) {
                    v.m[k]
                } else {
                    fresh_caller(k, born)
                },
        ),
        idle_caller: v.idle_caller + next_ids(v, n),
        ..v
    }
}

/// The waiting callers (in order) whose age is `age`.
pub open spec fn select_age(m: Map<u64, LineView>, ids: Seq<u64>, now: u128, age: LineAge) -> Seq<
    u64,
>
    decreases ids.len(),
{
    if ids.len() == 0 {
        Seq::empty()
    } else {
        let rest = select_age(m, ids.drop_last(), now, age);
        if spec_age(m[ids.last()], now) == age {
            rest.push(ids.last())
        } else {
            rest
        }
    }
}

/// Number of the given callers that are occupied by a tunnel.
pub open spec fn count_occupied(m: Map<u64, LineView>, ids: Seq<u64>) -> nat
    decreases ids.len(),
{
    if ids.len() == 0 {
        0
    } else {
        count_occupied(m, ids.drop_last()) + if m[ids.last()].status == LineStatus::Occupied {
            1nat
        } else {
            0nat
        }
    }
}

/// The working count of a list of callers is the number of them whose line
/// is occupied by a tunnel; a connected, born or dead line counts nothing.
pub proof fn lemma_count_occupied_counts(m: Map<u64, LineView>, ids: Seq<u64>)
    ensures
        count_occupied(m, ids) == ids.filter(|k: u64| m[k].status == LineStatus::Occupied).len(),
    decreases ids.len(),
{
    reveal(Seq::filter);
    let p = |k: u64| m[k].status == LineStatus::Occupied;
    if ids.len() > 0 {
        lemma_count_occupied_counts(m, ids.drop_last());
        assert(ids.filter(p) == if p(ids.last()) {
            ids.drop_last().filter(p).push(ids.last())
        } else {
            ids.drop_last().filter(p)
        });
    } else {
        assert(ids.filter(p).len() == 0);
    }
}

/// The age of a live caller depends on its birth time alone, whatever its
/// status: it is young while less than three minutes (180000 ms) old and
/// old from then on. A line that is not a live caller has no age.
pub proof fn lemma_age_by_time(l: LineView, now: u128)
    ensures
        l.kind == LineType::Caller && l.status != LineStatus::Dead ==> (spec_age(l, now)
            == LineAge::Young <==> now - l.born < 180000),
        l.kind == LineType::Caller && l.status != LineStatus::Dead ==> (spec_age(l, now)
            == LineAge::Old <==> now - l.born >= 180000),
        !(l.kind == LineType::Caller && l.status != LineStatus::Dead) ==> spec_age(l, now)
            == LineAge::Default,
{
}

/// Kills the given lines in order; also gives the ids whose sockets must
/// be shut down.
pub open spec fn kill_all(v: HubView, ids: Seq<u64>) -> (HubView, Seq<u64>)
    decreases ids.len(),
{
    if ids.len() == 0 {
        (v, Seq::empty())
    } else {
        let (w, s) = kill_all(v, ids.drop_last());
        let k = ids.last();
        let st = w.m[k].status;
        let s2 = if st == LineStatus::Connected || st == LineStatus::Occupied {
            s.push(k)
        } else {
            s
        };
        (killed(w, k), s2)
    }
}

/// The number of working callers: the waiting callers occupied by a tunnel
/// (none where the waiting count, as a `u8`, is 0).
pub open spec fn spec_working_caller_count(v: HubView) -> int {
    if v.idle_caller.len() as u8 == 0 {
        0
    } else {
        count_occupied(v.m, v.idle_caller) as int
    }
}

/// The hub after `old_check(now)`.
pub open spec fn after_old_check(v: HubView, now: u128) -> HubView {
    HubView {
        idle_caller: select_age(v.m, v.idle_caller, now, LineAge::Young),
        ..kill_all(v, select_age(v.m, v.idle_caller, now, LineAge::Old)).0
    }
}

/// The hub after `health_check(born)`.
pub open spec fn after_health_check(v: HubView, born: u128) -> HubView {
    if (v.idle_caller.len() as u8) < v.healthy_size {
        with_callers(v, v.healthy_size as nat, born)
    } else {
        v
    }
}

/// A caller line that has not died: the only lines that have an age.
pub open spec fn live_caller(l: LineView) -> bool {
    l.kind == LineType::Caller && l.status != LineStatus::Dead
}

/// No waiting caller that is a live caller of the map was born after
/// `now`.
pub open spec fn callers_aged(v: HubView, now: u128) -> bool {
    forall|i: int|
        0 <= i < v.idle_caller.len() && v.m.contains_key(#[trigger] v.idle_caller[i])
            && live_caller(v.m[v.idle_caller[i]]) ==> v.m[v.idle_caller[i]].born <= now
}

proof fn lemma_kill_all_others(v: HubView, ids: Seq<u64>, j: u64)
    requires
        !ids.contains(j),
    ensures
        kill_all(v, ids).0.m.contains_key(j) == v.m.contains_key(j),
        v.m.contains_key(j) ==> kill_all(v, ids).0.m[j] == v.m[j],
    decreases ids.len(),
{
    if ids.len() > 0 {
        assert(!ids.drop_last().contains(j)) by {
            if ids.drop_last().contains(j) {
                let t = choose|t: int| 0 <= t < ids.drop_last().len() && ids.drop_last()[t] == j;
                assert(ids[t] == j);
            }
        }
        lemma_kill_all_others(v, ids.drop_last(), j);
        assert(ids.last() != j) by {
            assert(ids[ids.len() - 1] == ids.last());
        }
    }
}

/// Killing distinct live lines appends them to a well-kept dead list.
proof fn lemma_kill_all_dead(v: HubView, ids: Seq<u64>)
    requires
        dead_listed(v),
        ids.no_duplicates(),
        forall|i: int|
            0 <= i < ids.len() ==> v.m.contains_key(#[trigger] ids[i]) && v.m[ids[i]].status
                != LineStatus::Dead,
    ensures
        dead_listed(kill_all(v, ids).0),
        kill_all(v, ids).0.dead == v.dead + ids,
    decreases ids.len(),
{
    if ids.len() > 0 {
        let d = ids.drop_last();
        let k = ids.last();
        assert(k == ids[ids.len() - 1]);
        assert(d.no_duplicates());
        lemma_kill_all_dead(v, d);
        let w = kill_all(v, d).0;
        assert(!d.contains(k)) by {
            if d.contains(k) {
                let t = choose|t: int| 0 <= t < d.len() && d[t] == k;
                assert(ids[t] == k);
            }
        }
        lemma_kill_all_others(v, d, k);
        assert(w.m[k] == v.m[k]);
        assert(!w.dead.contains(k)) by {
            if w.dead.contains(k) {
                let t = choose|t: int| 0 <= t < w.dead.len() && w.dead[t] == k;
                if t < v.dead.len() {
                    assert(v.dead[t] == k);
                } else {
                    assert(d[t - v.dead.len()] == k);
                }
            }
        }
        let f = killed(w, k);
        assert(f.dead =~= v.dead + ids);
        assert forall|i: int| 0 <= i < f.dead.len() implies f.m.contains_key(#[trigger] f.dead[i])
            && f.m[f.dead[i]].status == LineStatus::Dead by {
            if i < w.dead.len() {
                assert(w.m.contains_key(w.dead[i]));
            }
        }
    }
}

proof fn lemma_select_props(m: Map<u64, LineView>, ids: Seq<u64>, now: u128, age: LineAge)
    requires
        ids.no_duplicates(),
    ensures
        select_age(m, ids, now, age).no_duplicates(),
        forall|t: int|
            0 <= t < select_age(m, ids, now, age).len() ==> ids.contains(
                #[trigger] select_age(m, ids, now, age)[t],
            ) && spec_age(m[select_age(m, ids, now, age)[t]], now) == age,
    decreases ids.len(),
{
    if ids.len() > 0 {
        let d = ids.drop_last();
        assert(d.no_duplicates());
        lemma_select_props(m, d, now, age);
        let rest = select_age(m, d, now, age);
        let x = ids.last();
        assert(x == ids[ids.len() - 1]);
        assert(!d.contains(x)) by {
            if d.contains(x) {
                let t = choose|t: int| 0 <= t < d.len() && d[t] == x;
                assert(ids[t] == x);
            }
        }
        assert forall|t: int| 0 <= t < rest.len() implies ids.contains(#[trigger] rest[t]) by {
            let j = choose|j: int| 0 <= j < d.len() && d[j] == rest[t];
            assert(ids[j] == rest[t]);
        }
        assert(!rest.contains(x)) by {
            if rest.contains(x) {
                let t = choose|t: int| 0 <= t < rest.len() && rest[t] == x;
                assert(d.contains(rest[t]));
            }
        }
    }
}

/// `old_check` keeps the hub's invariant, and afterwards no waiting caller
/// has died.
pub proof fn lemma_old_check_keeps_wf(v: HubView, now: u128)
    requires
        front_wf(v),
    ensures
        front_wf(after_old_check(v, now)),
        idle_live(after_old_check(v, now)),
        after_old_check(v, now).id == v.id,
        after_old_check(v, now).healthy_size == v.healthy_size,
{
    let olds = select_age(v.m, v.idle_caller, now, LineAge::Old);
    let youngs = select_age(v.m, v.idle_caller, now, LineAge::Young);
    lemma_select_props(v.m, v.idle_caller, now, LineAge::Old);
    lemma_select_props(v.m, v.idle_caller, now, LineAge::Young);
    let w = after_old_check(v, now);
    assert forall|i: int| 0 <= i < youngs.len() implies #[trigger] youngs[i] > 0 && w.m.contains_key(
        youngs[i],
    ) && w.m[youngs[i]].status != LineStatus::Dead by {
        let y = youngs[i];
        let j = choose|j: int| 0 <= j < v.idle_caller.len() && v.idle_caller[j] == y;
        assert(v.idle_caller[j] > 0 && v.m.contains_key(v.idle_caller[j]));
        assert(!olds.contains(y)) by {
            if olds.contains(y) {
                let t = choose|t: int| 0 <= t < olds.len() && olds[t] == y;
                assert(spec_age(v.m[olds[t]], now) == LineAge::Old);
            }
        }
        lemma_kill_all_others(v, olds, y);
    }
    assert forall|i: int| 0 <= i < olds.len() implies v.m.contains_key(#[trigger] olds[i])
        && v.m[olds[i]].status != LineStatus::Dead by {
        let j = choose|j: int| 0 <= j < v.idle_caller.len() && v.idle_caller[j] == olds[i];
        assert(v.m.contains_key(v.idle_caller[j]));
    }
    lemma_kill_all_dead(v, olds);
    lemma_kill_all_keeps(v, olds);
}

proof fn lemma_kill_all_keeps(v: HubView, ids: Seq<u64>)
    requires
        forall|i: int| 0 <= i < ids.len() ==> v.m.contains_key(#[trigger] ids[i]),
    ensures
        kill_all(v, ids).0.m.dom() == v.m.dom(),
        kill_all(v, ids).0.idle_caller == v.idle_caller,
        kill_all(v, ids).0.id == v.id,
        kill_all(v, ids).0.healthy_size == v.healthy_size,
        ids_fresh(v) ==> ids_fresh(kill_all(v, ids).0),
    decreases ids.len(),
{
    if ids.len() > 0 {
        lemma_kill_all_keeps(v, ids.drop_last());
        let w = kill_all(v, ids.drop_last()).0;
        assert(ids.drop_last().len() < ids.len());
        assert(w.m.contains_key(ids.last())) by {
            assert(v.m.contains_key(ids[ids.len() - 1]));
        }
        assert(killed(w, ids.last()).m.dom() =~= w.m.dom());
    }
}

///Caller Hub
impl Hub {
    /// Sets the healthy number of callers and the proxy server's address,
    /// then adds that many callers; returns their ids, for the caller to
    /// connect.
    pub fn init_callers(&mut self, n: u8, addr: &str, born: u128) -> (ids: Vec<u64>)
        requires
            n < u8::MAX / 4,
            old(self)@.id + n <= u64::MAX,
            ids_fresh(old(self)@),
        ensures
            ids@ == next_ids(old(self)@, n as nat),
            final(self)@ == with_callers(
                HubView { healthy_size: n, proxy_server: Some(addr@), ..old(self)@ },
                n as nat,
                born,
            ),
            ids_fresh(final(self)@),
            front_wf(old(self)@) ==> front_wf(final(self)@),
    {
        self.set_healthy_size(n);
        self.set_proxy_server(addr);
        self.add_caller(n, born)
    }

    /// Counts the waiting callers whose line is occupied by a tunnel.
    pub fn working_caller_count(&self) -> (r: u8)
        requires
            idle_known(self@),
            self@.idle_caller.len() as u8 != 0 ==> count_occupied(self@.m, self@.idle_caller)
                <= u8::MAX,
        ensures
            r == spec_working_caller_count(self@),
    {
        let mut ret: u8 = 0;
        if self.idle_caller_count() == 0 {
            return ret;
        }
        let list = self.idle_caller_list();
        let mut i: usize = 0;
        while i < list.len()
            invariant
                list@ == self@.idle_caller,
                idle_known(self@),
                count_occupied(self@.m, self@.idle_caller) <= u8::MAX,
                i <= list@.len(),
                ret == count_occupied(self@.m, list@.subrange(0, i as int)),
            decreases list@.len() - i,
        {
            proof {
                lemma_count_prefix(self@.m, list@, i as int);
                lemma_count_monotone(self@.m, list@, i as int + 1);
            }
            let id = list[i];
            let v = self.get_line_by_id(id);
            if v.status() == LineStatus::Occupied {
                ret += 1;
            }
            i = i + 1;
        }
        assert(list@.subrange(0, list@.len() as int) =~= list@);
        ret
    }

    /// Retires old callers at time `now`: of the waiting callers, the young
    /// ones stay waiting, the old ones are killed (in order), the rest are
    /// dropped from the list. Returns the ids whose sockets must be shut
    /// down.
    pub fn old_check(&mut self, now: u128) -> (shutdown: Vec<u64>)
        requires
            idle_known(old(self)@),
            callers_aged(old(self)@, now),
        ensures
            ({
                let v = old(self)@;
                let olds = select_age(v.m, v.idle_caller, now, LineAge::Old);
                let (w, s) = kill_all(v, olds);
                &&& shutdown@ == s
                &&& final(self)@ == (HubView {
                    idle_caller: select_age(v.m, v.idle_caller, now, LineAge::Young),
                    ..w
                })
            }),
            ids_fresh(old(self)@) ==> ids_fresh(final(self)@),
            front_wf(old(self)@) ==> front_wf(final(self)@) && idle_live(final(self)@),
    {
        let ghost v = self@;
        let mut old: Vec<u64> = Vec::new();
        let mut young: std::collections::VecDeque<u64> = std::collections::VecDeque::new();
        let n = self.idle_caller_list().len();
        let mut i: usize = 0;
        while i < n
            invariant
                self@ == v,
                idle_known(v),
                callers_aged(v, now),
                n == v.idle_caller.len(),
                i <= n,
                old@ == select_age(v.m, v.idle_caller.subrange(0, i as int), now, LineAge::Old),
                young@ == select_age(v.m, v.idle_caller.subrange(0, i as int), now, LineAge::Young),
            decreases n - i,
        {
            let id = self.idle_caller_list()[i];
            proof {
                let pre = v.idle_caller.subrange(0, i as int + 1);
                assert(pre.drop_last() =~= v.idle_caller.subrange(0, i as int));
                assert(pre.last() == id);
            }
            match self.age(id, now) {
                LineAge::Young => {
                    young.push_back(id);
                },
                LineAge::Old => {
                    old.push(id);
                },
                _ => {},
            }
            i = i + 1;
        }
        assert(v.idle_caller.subrange(0, n as int) =~= v.idle_caller);
        proof {
            lemma_select_in(v.m, v.idle_caller, now, LineAge::Old);
            assert forall|t: int| 0 <= t < old@.len() implies v.m.contains_key(#[trigger] old@[t])
                && old@[t] > 0 by {
                assert(v.idle_caller.contains(old@[t]));
                let k = choose|k: int| 0 <= k < v.idle_caller.len() && v.idle_caller[k] == old@[t];
                assert(v.idle_caller[k] > 0);
            }
            assert(kill_all(v, old@.subrange(0, 0)) == (v, Seq::<u64>::empty())) by {
                assert(old@.subrange(0, 0).len() == 0);
            }
        }
        let mut shutdown: Vec<u64> = Vec::new();
        let mut j: usize = 0;
        while j < old.len()
            invariant
                idle_known(v),
                forall|t: int| 0 <= t < old@.len() ==> v.m.contains_key(#[trigger] old@[t]) && old@[t] > 0,
                j <= old@.len(),
                (self@, shutdown@) == kill_all(v, old@.subrange(0, j as int)),
                ids_fresh(v) ==> ids_fresh(self@),
            decreases old@.len() - j,
        {
            let id = old[j];
            proof {
                lemma_kill_all_keeps(v, old@.subrange(0, j as int));
                let pre = old@.subrange(0, j as int + 1);
                assert(pre.drop_last() =~= old@.subrange(0, j as int));
                assert(pre.last() == id);
                assert(self@.m.contains_key(id));
            }
            let ghost prev = self@;
            let ghost prev_s = shutdown@;
            if self.kill_line_by_id(id) {
                shutdown.push(id);
            }
            proof {
                let pre = old@.subrange(0, j as int + 1);
                assert(pre.len() > 0);
                assert(kill_all(v, pre) == {
                    let (w, s) = kill_all(v, pre.drop_last());
                    let k = pre.last();
                    let st = w.m[k].status;
                    let s2 = if st == LineStatus::Connected || st == LineStatus::Occupied {
                        s.push(k)
                    } else {
                        s
                    };
                    (killed(w, k), s2)
                });
            }
            j = j + 1;
        }
        assert(old@.subrange(0, old@.len() as int) =~= old@);
        *self.idle_caller_list_mut() = young;
        proof {
            if front_wf(v) {
                lemma_old_check_keeps_wf(v, now);
            }
        }
        shutdown
    }

    /// Adds the healthy number of callers when fewer than that are waiting;
    /// returns the ids added, for the caller to connect.
    pub fn health_check(&mut self, born: u128) -> (ids: Vec<u64>)
        requires
            old(self)@.id + old(self)@.healthy_size <= u64::MAX,
            ids_fresh(old(self)@),
        ensures
            (old(self)@.idle_caller.len() as u8) < old(self)@.healthy_size ==> ids@ == next_ids(
                old(self)@,
                old(self)@.healthy_size as nat,
            ) && final(self)@ == with_callers(old(self)@, old(self)@.healthy_size as nat, born),
            !((old(self)@.idle_caller.len() as u8) < old(self)@.healthy_size) ==> ids@.len() == 0
                && final(self)@ == old(self)@,
            ids_fresh(final(self)@),
            front_wf(old(self)@) ==> front_wf(final(self)@),
    {
        let need = self.healthy_size();
        let have: u8 = self.idle_caller_count();
        if have < need {
            self.add_caller(need, born)
        } else {
            Vec::new()
        }
    }

    fn add_caller(&mut self, n: u8, born: u128) -> (ids: Vec<u64>)
        requires
            old(self)@.id + n <= u64::MAX,
            ids_fresh(old(self)@),
        ensures
            ids@ == next_ids(old(self)@, n as nat),
            final(self)@ == with_callers(old(self)@, n as nat, born),
            ids_fresh(final(self)@),
            front_wf(old(self)@) ==> front_wf(final(self)@),
    {
        let ghost v = self@;
        let mut ids: Vec<u64> = Vec::new();
        let mut i: u8 = 0;
        assert(with_callers(v, 0, born) == v) by {
            assert(with_callers(v, 0, born).m =~= v.m);
            assert(with_callers(v, 0, born).idle_caller =~= v.idle_caller);
        }
        while i < n
            invariant
                v.id + n <= u64::MAX,
                ids_fresh(v),
                i <= n,
                self@ == with_callers(v, i as nat, born),
                ids@ == next_ids(v, i as nat),
                ids_fresh(self@),
                front_wf(v) ==> front_wf(self@),
            decreases n - i,
        {
            let id = self.add_one_caller(born);
            ids.push(id);
            proof {
                let a = with_callers(v, i as nat, born);
                let b = with_callers(v, (i + 1) as nat, born);
                assert(b.m =~= a.m.insert(id, fresh_caller(id, born)));
                assert(b.idle_caller =~= a.idle_caller.push(id));
                assert(ids@ =~= next_ids(v, (i + 1) as nat));
            }
            i = i + 1;
        }
        ids
    }

    fn add_one_caller(&mut self, born: u128) -> (id: u64)
        requires
            old(self)@.id < u64::MAX,
            ids_fresh(old(self)@),
        ensures
            id == old(self)@.id + 1,
            !old(self)@.m.contains_key(id),
            final(self)@ == (HubView {
                id,
                m: old(self)@.m.insert(id, fresh_caller(id, born)),
                idle_caller: old(self)@.idle_caller.push(id),
                ..old(self)@
            }),
            ids_fresh(final(self)@),
            front_wf(old(self)@) ==> front_wf(final(self)@),
    {
        let id = self.new_line(LineType::Caller, born);
        proof {
            if front_wf(old(self)@) {
                assert(!old(self)@.idle_caller.contains(id)) by {
                    if old(self)@.idle_caller.contains(id) {
                        let t = choose|t: int|
                            0 <= t < old(self)@.idle_caller.len() && old(self)@.idle_caller[t] == id;
                        assert(old(self)@.m.contains_key(old(self)@.idle_caller[t]));
                    }
                }
            }
        }
        self.add_idle_caller(id);
        id
    }

    /// Whether no live waiting caller was born after `now`.
    pub fn callers_aged(&self, now: u128) -> (r: bool)
        ensures
            r == callers_aged(self@, now),
    {
        let list = self.idle_caller_list();
        let n = list.len();
        let mut i: usize = 0;
        while i < n
            invariant
                list@ == self@.idle_caller,
                n == list@.len(),
                i <= n,
                forall|t: int|
                    0 <= t < i && self@.m.contains_key(#[trigger] list@[t]) && live_caller(
                        self@.m[list@[t]],
                    ) ==> self@.m[list@[t]].born <= now,
            decreases n - i,
        {
            let id = list[i];
            if self.m().contains_key(&id) {
                let l = self.get_line(id);
                if l.kind() == LineType::Caller && !l.is_dead() && l.born_time() > now {
                    return false;
                }
            }
            i = i + 1;
        }
        true
    }

    fn age(&self, id: u64, now: u128) -> (r: LineAge)
        requires
            id > 0,
            self@.m.contains_key(id),
            live_caller(self@.m[id]) ==> self@.m[id].born <= now,
        ensures
            r == spec_age(self@.m[id], now),
    {
        let v = self.get_line_by_id(id);
        if v.kind() != LineType::Caller {
            return LineAge::Default;
        }
        let s = v.status();
        if s == LineStatus::Dead {
            return LineAge::Default;
        }
        let age = now - v.born_time();
        if age < 3 * 60 * 1000 {
            return LineAge::Young;
        }
        LineAge::Old
    }
}

proof fn lemma_count_prefix(m: Map<u64, LineView>, s: Seq<u64>, i: int)
    requires
        0 <= i < s.len(),
    ensures
        s.subrange(0, i + 1).drop_last() == s.subrange(0, i),
        s.subrange(0, i + 1).last() == s[i],
{
    assert(s.subrange(0, i + 1).drop_last() =~= s.subrange(0, i));
}

proof fn lemma_count_monotone(m: Map<u64, LineView>, s: Seq<u64>, i: int)
    requires
        0 <= i <= s.len(),
    ensures
        count_occupied(m, s.subrange(0, i)) <= count_occupied(m, s),
    decreases s.len() - i,
{
    if i < s.len() {
        lemma_count_monotone(m, s, i + 1);
        assert(s.subrange(0, i + 1).drop_last() =~= s.subrange(0, i));
    } else {
        assert(s.subrange(0, i) =~= s);
    }
}

proof fn lemma_select_in(m: Map<u64, LineView>, ids: Seq<u64>, now: u128, age: LineAge)
    ensures
        forall|t: int|
            0 <= t < select_age(m, ids, now, age).len() ==> #[trigger] ids.contains(
                select_age(m, ids, now, age)[t],
            ),
    decreases ids.len(),
{
    if ids.len() > 0 {
        lemma_select_in(m, ids.drop_last(), now, age);
        let rest = select_age(m, ids.drop_last(), now, age);
        assert forall|t: int| 0 <= t < rest.len() implies ids.contains(rest[t]) by {
            let x = rest[t];
            assert(ids.drop_last().contains(x));
            let j = choose|j: int| 0 <= j < ids.drop_last().len() && ids.drop_last()[j] == x;
            assert(ids[j] == x);
        }
        assert(ids[ids.len() - 1] == ids.last());
    }
}

} // verus!
