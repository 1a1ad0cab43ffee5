//! A connection line of the listening front: its identity, partner, status, kind,
//! outgoing queue and handshake stage. The socket itself lives with the
//! event loop; this type keeps what the proxy decides on.

use vstd::prelude::*;

verus! {

/// Life cycle of a line; a line only ever moves forward in this order.
#[derive(Debug, Clone, Copy, PartialEq, Eq, Structural)]
pub enum LineStatus {
    Born,
    Connected,
    Occupied,
    Dead,
}

/// The role a line plays in the proxy.
#[derive(Debug, Clone, Copy, PartialEq, Eq, Structural)]
pub enum LineType {
    Fox,
    Caller,
    Operator,
    Spider,
    Http,
}

/// Position of a status in the forward order `Born < Connected < Occupied < Dead`.
pub open spec fn status_rank(s: LineStatus) -> int {
    match s {
        LineStatus::Born => 0,
        LineStatus::Connected => 1,
        LineStatus::Occupied => 2,
        LineStatus::Dead => 3,
    }
}

/// The later of two statuses in the forward order.
pub open spec fn status_max(a: LineStatus, b: LineStatus) -> LineStatus {
    if status_rank(b) <= status_rank(a) {
        a
    } else {
        b
    }
}

impl LineStatus {
    /// The status's position in the forward order.
    pub fn rank(&self) -> (r: u8)
        ensures
            r == status_rank(*self),
    {
        match self {
            LineStatus::Born => 0,
            LineStatus::Connected => 1,
            LineStatus::Occupied => 2,
            LineStatus::Dead => 3,
        }
    }
}

/// What a line holds, as mathematical values.
pub struct LineView {
    pub id: u64,
    pub partner_id: u64,
    pub status: LineStatus,
    pub kind: LineType,
    pub queue: Seq<u8>,
    pub stage: u8,
    pub host: Seq<char>,
    pub read_close: bool,
    pub write_close: bool,
    pub born: u128,
}

/// One connection of the listening front.
pub struct Line {
    id: u64,
    partner_id: u64,
    status: LineStatus,
    kind: LineType,
    queue: Vec<u8>,
    stage: u8,
    host: String,
    read_close: bool,
    write_close: bool,
    born: u128,
}

impl View for Line {
    type V = LineView;

    closed spec fn view(&self) -> LineView {
        LineView {
            id: self.id,
            partner_id: self.partner_id,
            status: self.status,
            kind: self.kind,
            queue: self.queue@,
            stage: self.stage,
            host: self.host@,
            read_close: self.read_close,
            write_close: self.write_close,
            born: self.born,
        }
    }
}

/// The line after `set_partner_id(id)`: a nonzero partner occupies it.
pub open spec fn with_partner(l: LineView, id: u64) -> LineView {
    if l.partner_id == id {
        l
    } else if id > 0 {
        LineView { partner_id: id, status: status_max(l.status, LineStatus::Occupied), ..l }
    } else {
        LineView { partner_id: id, ..l }
    }
}

/// The line after `set_status(v)`: the status never moves backwards.
pub open spec fn with_status(l: LineView, v: LineStatus) -> LineView {
    LineView { status: status_max(l.status, v), ..l }
}

/// The line after `go_die`: a live line drops its queue and partner and dies.
pub open spec fn died(l: LineView) -> LineView {
    if l.status == LineStatus::Dead {
        l
    } else {
        LineView { queue: Seq::empty(), partner_id: 0, status: LineStatus::Dead, ..l }
    }
}

/// A caller that is connected and waiting for work.
pub open spec fn spec_available(l: LineView) -> bool {
    l.kind == LineType::Caller && l.status == LineStatus::Connected
}

/// A line's status only moves forward: setting a status, taking or
/// dropping a partner, and dying never bring it back to an earlier one.
pub proof fn lemma_status_moves_forward(l: LineView, v: LineStatus, id: u64)
    ensures
        status_rank(with_status(l, v).status) >= status_rank(l.status),
        status_rank(with_partner(l, id).status) >= status_rank(l.status),
        status_rank(died(l).status) >= status_rank(l.status),
{
}

/// Dying twice is dying once.
pub proof fn lemma_die_twice(l: LineView)
    ensures
        died(died(l)) == died(l),
{
}

//get
impl Line {
    pub fn id(&self) -> (r: u64)
        ensures
            r == self@.id,
    {
        self.id
    }

    pub fn partner_id(&self) -> (r: u64)
        ensures
            r == self@.partner_id,
    {
        self.partner_id
    }

    pub fn status(&self) -> (r: LineStatus)
        ensures
            r == self@.status,
    {
        self.status
    }

    pub fn kind(&self) -> (r: LineType)
        ensures
            r == self@.kind,
    {
        self.kind
    }

    /// The bytes waiting to be written to the socket, to be changed in
    /// place.
    pub fn queue(&mut self) -> (r: &mut Vec<u8>)
        ensures
            r@ == old(self)@.queue,
            final(self)@ == (LineView { queue: final(r)@, ..old(self)@ }),
    {
        &mut self.queue
    }

    pub fn stage(&self) -> (r: u8)
        ensures
            r == self@.stage,
    {
        self.stage
    }

    pub fn host(&self) -> (r: &String)
        ensures
            r@ == self@.host,
    {
        &self.host
    }

    pub fn is_dead(&self) -> (r: bool)
        ensures
            r == (self@.status == LineStatus::Dead),
    {
        match self.status {
            LineStatus::Dead => true,
            _ => false,
        }
    }

    pub fn born_time(&self) -> (r: u128)
        ensures
            r == self@.born,
    {
        self.born
    }

    pub fn is_read_closed(&self) -> (r: bool)
        ensures
            r == self@.read_close,
    {
        self.read_close
    }

    pub fn is_write_closed(&self) -> (r: bool)
        ensures
            r == self@.write_close,
    {
        self.write_close
    }

    /// A connected caller line is ready to carry a tunnel.
    pub fn available(&self) -> (r: bool)
        ensures
            r == spec_available(self@),
    {
        match self.kind {
            LineType::Caller => {},
            _ => {
                return false;
            },
        }
        match self.status {
            LineStatus::Connected => true,
            _ => false,
        }
    }
}

//set
impl Line {
    /// A fresh line: born, unpaired, with nothing queued; `born` is the
    /// creation time in milliseconds.
    pub fn new(id: u64, kind: LineType, born: u128) -> (l: Line)
        ensures
            l@ == (LineView {
                id,
                partner_id: 0,
                status: LineStatus::Born,
                kind,
                queue: Seq::empty(),
                stage: 0,
                host: Seq::empty(),
                read_close: false,
                write_close: false,
                born,
            }),
    {
        Line {
            id,
            partner_id: 0,
            status: LineStatus::Born,
            kind,
            queue: Vec::new(),
            stage: 0,
            host: String::new(),
            read_close: false,
            write_close: false,
            born,
        }
    }

    pub fn set_partner_id(&mut self, id: u64)
        ensures
            final(self)@ == with_partner(old(self)@, id),
    {
        if self.partner_id == id {
            return ;
        }
        if id > 0 {
            self.set_status(LineStatus::Occupied);
        }
        self.partner_id = id;
    }

    /// Moves the status forward to `v`; an earlier or equal status is ignored.
    pub fn set_status(&mut self, v: LineStatus)
        ensures
            final(self)@ == with_status(old(self)@, v),
    {
        if v.rank() <= self.status.rank() {
            return ;
        }
        self.status = v;
    }

    /// Sets the destination `host:port`; `tag` only marks the entry in the log.
    pub fn set_host(&mut self, str: String, tag: u64)
        ensures
            final(self)@ == (LineView { host: str@, ..old(self)@ }),
    {
        self.host = str;
    }

    pub fn read_closed(&mut self)
        ensures
            final(self)@ == (LineView { read_close: true, ..old(self)@ }),
    {
        self.read_close = true;
    }

    pub fn write_closed(&mut self)
        ensures
            final(self)@ == (LineView { write_close: true, ..old(self)@ }),
    {
        self.write_close = true;
    }

    pub fn next_stage(&mut self)
        requires
            old(self)@.stage < u8::MAX,
        ensures
            final(self)@ == (LineView { stage: (old(self)@.stage + 1) as u8, ..old(self)@ }),
    {
        self.stage = self.stage + 1;
    }

    /// Closes the line: unless it is already dead, the queue is dropped,
    /// the partner forgotten and the status set to dead. The result tells
    /// whether the socket was in use and must be shut down (a connected or
    /// occupied line).
    pub fn go_die(&mut self) -> (shutdown: bool)
        ensures
            final(self)@ == died(old(self)@),
            shutdown == (old(self)@.status == LineStatus::Connected || old(self)@.status
                == LineStatus::Occupied),
    {
        let shutdown = match self.status {
            LineStatus::Dead => {
                return false;
            },
            LineStatus::Connected => true,
            LineStatus::Occupied => true,
            LineStatus::Born => false,
        };
        self.queue.clear();
        self.set_partner_id(0);
        self.set_status(LineStatus::Dead);
        shutdown
    }
}

//queue
impl Line {
    /// Appends bytes to the outgoing queue.
    pub fn add_queue(&mut self, v: Vec<u8>)
        ensures
            final(self)@ == (LineView { queue: old(self)@.queue + v@, ..old(self)@ }),
    {
        if v.len() > 0 {
            let mut v = v;
            self.queue.append(&mut v);
        } else {
            assert(old(self)@.queue + v@ =~= old(self)@.queue);
        }
    }

    /// Drops the first `n` queued bytes, which the socket has taken.
    pub fn shrink_queue(&mut self, n: usize)
        requires
            n <= old(self)@.queue.len(),
        ensures
            final(self)@ == (LineView { queue: old(self)@.queue.skip(n as int), ..old(self)@ }),
    {
        let mut rest: Vec<u8> = Vec::new();
        let mut i: usize = n;
        while i < self.queue.len()
            invariant
                n <= i <= self.queue.len(),
                rest@ == self.queue@.subrange(n as int, i as int),
            decreases self.queue.len() - i,
        {
            rest.push(self.queue[i]);
            i = i + 1;
        }
        self.queue = rest;
    }

    pub fn clear_queue(&mut self)
        ensures
            final(self)@ == (LineView { queue: Seq::empty(), ..old(self)@ }),
    {
        self.queue.clear();
    }
}

} // verus!
