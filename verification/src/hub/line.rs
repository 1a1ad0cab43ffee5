//! A connection line of the first hub: identity, partner, status, kind,
//! outgoing queue and handshake stage. The socket lives with the event loop.

use vstd::prelude::*;
use vstd::utf8::*;
use crate::gate::hub::http::{content_plan, is_content_plan, request_path, response_head};
use crate::gate::hub::http::{
    has_request_path, http_head, request_path_bytes, ContentSource, Mime,
};
use crate::hub::fox::{connect_reply, greeting_reply, host_from_request, port_suffix};
use crate::sni::{lemma_decode_encode, shuffle_decode, shuffle_encode, spec_decode, spec_encode};
use crate::text::{lossy_text, push_char, push_decimal, utf8_lossy};

verus! {

#[derive(Debug, Clone, Copy, PartialEq, Eq, Structural)]
pub enum LineStatus {
    Born,
    Connected,
    Dead,
}

#[derive(Debug, Clone, Copy, PartialEq, Eq, Structural)]
pub enum LineType {
    Fox,
    Caller,
    Operator,
    Spider,
    Log,
}

/// What a line holds, as mathematical values.
pub struct LineView {
    pub id: usize,
    pub partner_id: usize,
    pub status: LineStatus,
    pub kind: LineType,
    pub queue: Seq<u8>,
    pub stage: u8,
    pub host: Seq<char>,
    pub read_close: bool,
    pub write_close: bool,
    pub born: u128,
}

pub struct Line {
    id: usize,
    partner_id: usize,
    status: LineStatus,
    kind: LineType,
    queue: Vec<u8>,
    stage: u8,
    host: String,
    read_close: bool,
    write_close: bool,
    born: u128,
}

impl View for Line {
    type V = LineView;

    closed spec fn view(&self) -> LineView {
        LineView {
            id: self.id,
            partner_id: self.partner_id,
            status: self.status,
            kind: self.kind,
            queue: self.queue@,
            stage: self.stage,
            host: self.host@,
            read_close: self.read_close,
            write_close: self.write_close,
            born: self.born,
        }
    }
}

/// The line after `go_die`: a live line drops its queue and partner and dies.
pub open spec fn died(l: LineView) -> LineView {
    if l.status == LineStatus::Dead {
        l
    } else {
        LineView { queue: Seq::empty(), partner_id: 0, status: LineStatus::Dead, ..l }
    }
}

/// `go_die` shuts the socket down when the line was connected.
pub open spec fn dies_connected(l: LineView) -> bool {
    l.status == LineStatus::Connected
}

/// A line without a partner that is not dead.
pub open spec fn spec_available(l: LineView) -> bool {
    l.partner_id == 0 && l.status != LineStatus::Dead
}

/// A connected line with bytes waiting is written to.
pub open spec fn wants_send(l: LineView) -> bool {
    l.status == LineStatus::Connected && l.queue.len() > 0
}

/// The first payload of a tunnel before shuffling: the host's length in
/// bytes, the host, then the payload.
pub open spec fn sni_frame(host: Seq<char>, buf: Seq<u8>) -> Seq<u8> {
    seq![encode_utf8(host).len() as u8] + encode_utf8(host) + buf
}

/// A shuffled first payload can be read when it is not empty and its
/// leading length fits in it.
pub open spec fn sni_readable(buf: Seq<u8>) -> bool {
    buf.len() >= 1 && buf[0] + 1 <= buf.len()
}

/// The host bytes carried by a shuffled first payload.
pub open spec fn sni_host_bytes(buf: Seq<u8>) -> Seq<u8> {
    let data = spec_decode(buf);
    data.subrange(1, data[0] + 1)
}

/// The payload carried by a shuffled first payload.
pub open spec fn sni_payload(buf: Seq<u8>) -> Seq<u8> {
    let data = spec_decode(buf);
    data.subrange(data[0] + 1, data.len() as int)
}

/// Dying twice is dying once.
pub proof fn lemma_die_twice(l: LineView)
    ensures
        died(died(l)) == died(l),
{
}

/// What a fox line sends as the first payload of a tunnel is what an
/// operator line reads back: the shuffled frame is readable, and it carries
/// exactly the fox's host (in bytes that decode to the same host) and
/// exactly the payload.
pub proof fn lemma_sni_roundtrip(host: Seq<char>, buf: Seq<u8>)
    requires
        encode_utf8(host).len() <= 255,
    ensures
        sni_readable(spec_encode(sni_frame(host, buf))),
        sni_host_bytes(spec_encode(sni_frame(host, buf))) == encode_utf8(host),
        valid_utf8(sni_host_bytes(spec_encode(sni_frame(host, buf)))),
        decode_utf8(sni_host_bytes(spec_encode(sni_frame(host, buf)))) == host,
        sni_payload(spec_encode(sni_frame(host, buf))) == buf,
{
    broadcast use encode_utf8_valid_utf8, encode_utf8_decode_utf8;

    let f = sni_frame(host, buf);
    let e = spec_encode(f);
    lemma_decode_encode(f);
    let n: int = encode_utf8(host).len() as int;
    assert(e[0] == f[0]);
    assert(f[0] == n as u8);
    assert(f.subrange(1, n + 1) =~= encode_utf8(host));
    assert(f.subrange(n + 1, f.len() as int) =~= buf);
}

//process event
impl Line {
    pub fn on_read_closed(&mut self)
        ensures
            final(self)@ == (LineView { read_close: true, ..old(self)@ }),
    {
        self.read_close = true;
    }

    pub fn on_write_closed(&mut self)
        ensures
            final(self)@ == (LineView { write_close: true, ..old(self)@ }),
    {
        self.write_close = true;
    }

    /// The socket became writable: the line is connected; the result tells
    /// whether its queue is now to be written.
    pub fn on_writable(&mut self) -> (send: bool)
        ensures
            final(self)@ == (LineView { status: LineStatus::Connected, ..old(self)@ }),
            send == wants_send(final(self)@),
    {
        self.set_status(LineStatus::Connected);
        self.send()
    }
}

impl Line {
    /// A fresh line: born, unpaired, with nothing queued; `born` is the
    /// creation time in milliseconds.
    pub fn new(id: usize, kind: LineType, born: u128) -> (l: Line)
        ensures
            l@ == (LineView {
                id,
                partner_id: 0,
                status: LineStatus::Born,
                kind,
                queue: Seq::empty(),
                stage: 0,
                host: Seq::empty(),
                read_close: false,
                write_close: false,
                born,
            }),
    {
        Line {
            id,
            kind,
            partner_id: 0,
            status: LineStatus::Born,
            queue: Vec::new(),
            stage: 0,
            host: String::new(),
            read_close: false,
            write_close: false,
            born,
        }
    }

    /// Closes the line: unless it is already dead, the queue is dropped,
    /// the partner forgotten and the status set to dead. The result tells
    /// whether the socket was connected and must be shut down.
    pub fn go_die(&mut self) -> (shutdown: bool)
        ensures
            final(self)@ == died(old(self)@),
            shutdown == dies_connected(old(self)@),
    {
        if self.is_dead() {
            return false;
        }
        self.queue.clear();
        let shutdown = match self.status {
            LineStatus::Connected => true,
            _ => false,
        };
        self.set_partner_id(0);
        self.set_status(LineStatus::Dead);
        shutdown
    }

    /// Whether the queue is to be written now: only a connected line with
    /// bytes waiting sends. After a write, `shrink_queue` drops what the
    /// socket took.
    pub fn send(&self) -> (r: bool)
        ensures
            r == wants_send(self@),
    {
        match self.status {
            LineStatus::Connected => self.queue.len() > 0,
            _ => false,
        }
    }

    /// Drops the first `n` queued bytes, which the socket has taken.
    pub fn shrink_queue(&mut self, n: usize)
        requires
            n <= old(self)@.queue.len(),
        ensures
            final(self)@ == (LineView { queue: old(self)@.queue.skip(n as int), ..old(self)@ }),
    {
        let mut rest: Vec<u8> = Vec::new();
        let mut i: usize = n;
        while i < self.queue.len()
            invariant
                n <= i <= self.queue.len(),
                rest@ == self.queue@.subrange(n as int, i as int),
            decreases self.queue.len() - i,
        {
            rest.push(self.queue[i]);
            i = i + 1;
        }
        self.queue = rest;
    }
}

//getter and setter
impl Line {
    pub fn id(&self) -> (r: usize)
        ensures
            r == self@.id,
    {
        self.id
    }

    pub fn kind(&self) -> (r: LineType)
        ensures
            r == self@.kind,
    {
        self.kind
    }

    pub fn partner_id(&self) -> (r: usize)
        ensures
            r == self@.partner_id,
    {
        self.partner_id
    }

    pub fn set_partner_id(&mut self, id: usize)
        ensures
            final(self)@ == (LineView { partner_id: id, ..old(self)@ }),
    {
        if self.partner_id == id {
            return ;
        }
        self.partner_id = id
    }

    fn set_status(&mut self, v: LineStatus)
        ensures
            final(self)@ == (LineView { status: v, ..old(self)@ }),
    {
        if self.status == v {
            return ;
        }
        self.status = v;
    }

    pub fn status(&self) -> (r: LineStatus)
        ensures
            r == self@.status,
    {
        self.status
    }

    pub fn stage(&self) -> (r: u8)
        ensures
            r == self@.stage,
    {
        self.stage
    }

    /// The bytes waiting to be written to the socket.
    pub fn queue(&self) -> (r: &Vec<u8>)
        ensures
            r@ == self@.queue,
    {
        &self.queue
    }

    pub fn host(&self) -> (r: &String)
        ensures
            r@ == self@.host,
    {
        &self.host
    }

    pub fn set_host(&mut self, str: String)
        ensures
            final(self)@ == (LineView { host: str@, ..old(self)@ }),
    {
        self.host = str;
    }

    /// Appends bytes to the outgoing queue.
    pub fn add_queue(&mut self, v: Vec<u8>)
        ensures
            final(self)@ == (LineView { queue: old(self)@.queue + v@, ..old(self)@ }),
    {
        if v.len() > 0 {
            let mut v = v;
            self.queue.append(&mut v);
        } else {
            assert(old(self)@.queue + v@ =~= old(self)@.queue);
        }
    }

    pub fn is_dead(&self) -> (r: bool)
        ensures
            r == (self@.status == LineStatus::Dead),
    {
        match self.status {
            LineStatus::Dead => true,
            _ => false,
        }
    }

    pub fn just_born(&self) -> (r: bool)
        ensures
            r == (self@.status == LineStatus::Born),
    {
        match self.status {
            LineStatus::Born => true,
            _ => false,
        }
    }

    pub fn is_read_closed(&self) -> (r: bool)
        ensures
            r == self@.read_close,
    {
        self.read_close
    }

    pub fn is_write_closed(&self) -> (r: bool)
        ensures
            r == self@.write_close,
    {
        self.write_close
    }

    /// A line without a partner that is not dead.
    pub fn available(&self) -> (r: bool)
        ensures
            r == spec_available(self@),
    {
        if self.partner_id > 0 {
            return false;
        }
        match self.status {
            LineStatus::Born => true,
            LineStatus::Connected => true,
            _ => false,
        }
    }
}

//Fox
impl Line {
    /// Handles bytes from a SOCKS5 client by handshake stage: stage 0 queues
    /// the greeting reply; stage 1 reads the connect request into `host` and
    /// queues the connect reply; stage 2 returns the shuffled first payload
    /// carrying the host; later stages pass the bytes through. Queued
    /// replies are for the caller to send.
    pub fn fox_data(&mut self, buf: Vec<u8>) -> (r: Option<Vec<u8>>)
        requires
            old(self)@.stage == 1 ==> buf@.len() >= 7,
            old(self)@.stage == 2 ==> encode_utf8(old(self)@.host).len() <= 255,
        ensures
            old(self)@.stage == 0 ==> r is None && final(self)@ == (LineView {
                stage: 1,
                queue: old(self)@.queue + greeting_reply(),
                ..old(self)@
            }),
            old(self)@.stage == 1 ==> r is None && final(self)@ == (LineView {
                stage: 2,
                queue: old(self)@.queue + connect_reply(),
                host: final(self)@.host,
                ..old(self)@
            }) && host_from_request(final(self)@.host, buf@),
            old(self)@.stage == 2 ==> r is Some && r->0@ == spec_encode(
                sni_frame(old(self)@.host, buf@),
            ) && final(self)@ == (LineView { stage: 3, ..old(self)@ }),
            old(self)@.stage > 2 ==> r is Some && r->0@ == buf@ && final(self)@ == old(self)@,
    {
        match self.stage {
            0 => {
                self.hand_shake();
            },
            1 => {
                self.decode_socks5_cmd(buf);
            },
            2 => {
                return Some(self.sni_encrypt(buf));
            },
            _ => {
                return Some(buf);
            },
        }
        None
    }

    fn hand_shake(&mut self)
        requires
            old(self)@.stage == 0,
        ensures
            final(self)@ == (LineView {
                stage: 1,
                queue: old(self)@.queue + greeting_reply(),
                ..old(self)@
            }),
    {
        self.stage = self.stage + 1;
        let mut reply: Vec<u8> = Vec::new();
        reply.push(5u8);
        reply.push(0u8);
        assert(reply@ =~= greeting_reply());
        self.add_queue(reply);
    }

    fn decode_socks5_cmd(&mut self, buf: Vec<u8>)
        requires
            old(self)@.stage == 1,
            buf@.len() >= 7,
        ensures
            final(self)@ == (LineView {
                stage: 2,
                queue: old(self)@.queue + connect_reply(),
                host: final(self)@.host,
                ..old(self)@
            }),
            host_from_request(final(self)@.host, buf@),
    {
        self.stage = self.stage + 1;
        let n = buf.len();
        let mut domain_bytes: Vec<u8> = Vec::new();
        let mut i: usize = 5;
        while i < n - 2
            invariant
                n == buf@.len(),
                n >= 7,
                5 <= i <= n - 2,
                domain_bytes@ == buf@.subrange(5, i as int),
            decreases n - 2 - i,
        {
            domain_bytes.push(buf[i]);
            i = i + 1;
        }
        let mut host = utf8_lossy(domain_bytes.as_slice());
        let ghost before = host@;
        let port: u16 = (buf[n - 2] as u16) * 256 + buf[n - 1] as u16;
        push_char(&mut host, ':');
        push_decimal(&mut host, port as u64);
        proof {
            let suffix = port_suffix(buf@);
            assert(host@ =~= before + suffix);
            assert(host@.subrange(host@.len() - suffix.len(), host@.len() as int) =~= suffix);
        }
        self.host = host;
        let mut reply: Vec<u8> = Vec::new();
        reply.push(5u8);
        reply.push(0u8);
        reply.push(0u8);
        reply.push(1u8);
        reply.push(0u8);
        reply.push(0u8);
        reply.push(0u8);
        reply.push(0u8);
        reply.push(0u8);
        reply.push(0u8);
        assert(reply@ =~= connect_reply());
        self.add_queue(reply);
    }

    fn sni_encrypt(&mut self, buf: Vec<u8>) -> (r: Vec<u8>)
        requires
            old(self)@.stage == 2,
            encode_utf8(old(self)@.host).len() <= 255,
        ensures
            r@ == spec_encode(sni_frame(old(self)@.host, buf@)),
            final(self)@ == (LineView { stage: 3, ..old(self)@ }),
    {
        self.stage = self.stage + 1;
        let host_bytes = self.host.as_str().as_bytes();
        let len: u8 = host_bytes.len() as u8;
        let mut input: Vec<u8> = Vec::new();
        input.push(len);
        input.extend_from_slice(host_bytes);
        input.extend_from_slice(buf.as_slice());
        assert(input@ =~= sni_frame(old(self)@.host, buf@));
        shuffle_encode(input.as_slice())
    }
}

//Operator
impl Line {
    /// Reads the first payload of a tunnel: unshuffles it, takes the host
    /// from its leading length-prefixed part and returns the rest.
    pub fn decrypt_sni(&mut self, buf: &Vec<u8>) -> (r: Option<Vec<u8>>)
        requires
            sni_readable(buf@),
        ensures
            r is Some && r->0@ == sni_payload(buf@),
            final(self)@ == (LineView { host: final(self)@.host, ..old(self)@ }),
            final(self)@.host == lossy_text(sni_host_bytes(buf@)),
            valid_utf8(sni_host_bytes(buf@)) ==> final(self)@.host == decode_utf8(
                sni_host_bytes(buf@),
            ),
    {
        let data = shuffle_decode(buf.as_slice());
        assert(data@[0] == buf@[0]);
        let len: usize = data[0] as usize;
        let mut host_bytes: Vec<u8> = Vec::new();
        let mut i: usize = 1;
        while i < len + 1
            invariant
                len <= 255,
                len + 1 <= data@.len(),
                1 <= i <= len + 1,
                host_bytes@ == data@.subrange(1, i as int),
            decreases len + 1 - i,
        {
            host_bytes.push(data[i]);
            i = i + 1;
        }
        self.host = utf8_lossy(host_bytes.as_slice());
        let mut rest: Vec<u8> = Vec::new();
        let mut j: usize = len + 1;
        while j < data.len()
            invariant
                len + 1 <= j <= data@.len(),
                rest@ == data@.subrange(len + 1, j as int),
            decreases data@.len() - j,
        {
            rest.push(data[j]);
            j = j + 1;
        }
        Some(rest)
    }
}

//Log
impl Line {
    /// Reads an HTTP request and chooses the answer's body source and
    /// content type from its path. The caller then fetches the body,
    /// queues it with `respond`, sends, and lets the line die.
    pub fn http(&mut self, buf: Vec<u8>) -> (r: (ContentSource, Mime))
        requires
            has_request_path(buf@),
        ensures
            final(self)@ == old(self)@,
            is_content_plan(lossy_text(request_path_bytes(buf@)), false, r.0, r.1),
            valid_utf8(request_path_bytes(buf@)) ==> is_content_plan(
                decode_utf8(request_path_bytes(buf@)),
                false,
                r.0,
                r.1,
            ),
    {
        let path = request_path(buf.as_slice());
        match path {
            Some(p) => self.get_content(p.as_str()),
            None => (ContentSource::Forbidden, Mime::Html),
        }
    }

    fn get_content(&self, path: &str) -> (r: (ContentSource, Mime))
        ensures
            is_content_plan(path@, false, r.0, r.1),
    {
        content_plan(path, false)
    }

    /// Queues the answer: the head for `code` and `mime`, then the body.
    pub fn respond(&mut self, code: u16, mime: Mime, content: Vec<u8>)
        ensures
            final(self)@ == (LineView {
                queue: old(self)@.queue + encode_utf8(http_head(code, mime)) + content@,
                ..old(self)@
            }),
    {
        let head = response_head(code, mime);
        let mut bytes: Vec<u8> = Vec::new();
        bytes.extend_from_slice(head.as_str().as_bytes());
        self.add_queue(bytes);
        self.add_queue(content);
        assert(final(self)@.queue =~= old(self)@.queue + encode_utf8(http_head(code, mime))
            + content@);
    }
}

} // verus!
