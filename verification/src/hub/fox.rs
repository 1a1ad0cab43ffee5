//! The client-facing SOCKS5 side of a front line: greeting, connect request,
//! and the shuffled first payload that carries the destination.

use vstd::prelude::*;
use vstd::utf8::*;
use crate::gate::hub::line_header::{Line, LineView};
use crate::sni::{shuffle_encode, spec_encode};
use crate::text::{
    be_bytes, lossy_text, push_be_bytes, push_char, push_decimal, spec_decimal, utf8_lossy,
};

verus! {

/// Reply to the SOCKS5 greeting: version 5, no authentication.
pub open spec fn greeting_reply() -> Seq<u8> {
    seq![5u8, 0u8]
}

/// Reply to the SOCKS5 connect request: success, bound to 0.0.0.0:0.
pub open spec fn connect_reply() -> Seq<u8> {
    seq![5u8, 0u8, 0u8, 1u8, 0u8, 0u8, 0u8, 0u8, 0u8, 0u8]
}

/// The domain bytes of a SOCKS5 connect request: after the five header
/// bytes, before the two port bytes.
pub open spec fn socks5_domain(b: Seq<u8>) -> Seq<u8> {
    b.subrange(5, b.len() - 2)
}

/// The port of a SOCKS5 connect request: its last two bytes, big-endian.
pub open spec fn socks5_port(b: Seq<u8>) -> int {
    b[b.len() - 2] * 256 + b[b.len() - 1]
}

/// `:` followed by the decimal port of a connect request.
pub open spec fn port_suffix(b: Seq<u8>) -> Seq<char> {
    seq![':'] + spec_decimal(socks5_port(b) as nat)
}

/// The `host` the line takes from a connect request: the domain decoded
/// as `String::from_utf8_lossy` does, then `:` and the port.
pub open spec fn socks5_host(b: Seq<u8>) -> Seq<char> {
    lossy_text(socks5_domain(b)) + port_suffix(b)
}

/// The first payload of a tunnel before shuffling: the host's length in
/// bytes, the host, the line id (8 bytes, big-endian), then the payload.
pub open spec fn fox_frame(host: Seq<char>, id: u64, buf: Seq<u8>) -> Seq<u8> {
    seq![encode_utf8(host).len() as u8] + encode_utf8(host) + be_bytes(id) + buf
}

/// The host of a line built from a connect request: the decoded domain,
/// `:` and the port; where the domain is valid UTF-8 it is exactly the
/// domain's text, `:` and the port.
pub open spec fn host_from_request(host: Seq<char>, b: Seq<u8>) -> bool {
    &&& host == socks5_host(b)
    &&& valid_utf8(socks5_domain(b)) ==> host == decode_utf8(socks5_domain(b)) + port_suffix(b)
}

//Fox
impl Line {
    /// Handles bytes from a SOCKS5 client by handshake stage: stage 0 queues
    /// the greeting reply; stage 1 reads the connect request into `host` and
    /// queues the connect reply; stage 2 returns the shuffled first payload
    /// carrying host and id; later stages pass the bytes through. The stage
    /// advances through 0, 1, 2 and 3. Queued replies are for the caller to
    /// flush.
    pub fn fox_data(&mut self, buf: Vec<u8>) -> (r: Option<Vec<u8>>)
        requires
            old(self)@.stage == 1 ==> buf@.len() >= 7,
            old(self)@.stage == 2 ==> encode_utf8(old(self)@.host).len() <= 255,
        ensures
            old(self)@.stage == 0 ==> r is None && final(self)@ == (LineView {
                stage: 1,
                queue: old(self)@.queue + greeting_reply(),
                ..old(self)@
            }),
            old(self)@.stage == 1 ==> r is None && final(self)@ == (LineView {
                stage: 2,
                queue: old(self)@.queue + connect_reply(),
                host: final(self)@.host,
                ..old(self)@
            }) && host_from_request(final(self)@.host, buf@),
            old(self)@.stage == 2 ==> r is Some && r->0@ == spec_encode(
                fox_frame(old(self)@.host, old(self)@.id, buf@),
            ) && final(self)@ == (LineView { stage: 3, ..old(self)@ }),
            old(self)@.stage > 2 ==> r is Some && r->0@ == buf@ && final(self)@ == old(self)@,
    {
        match self.stage() {
            0 => {
                self.hand_shake();
            },
            1 => {
                self.decode_socks5_cmd(buf);
            },
            2 => {
                return Some(self.sni_encrypt(buf));
            },
            _ => {
                return Some(buf);
            },
        }
        None
    }

    fn hand_shake(&mut self)
        requires
            old(self)@.stage == 0,
        ensures
            final(self)@ == (LineView {
                stage: 1,
                queue: old(self)@.queue + greeting_reply(),
                ..old(self)@
            }),
    {
        self.next_stage();
        let mut reply: Vec<u8> = Vec::new();
        reply.push(5u8);
        reply.push(0u8);
        assert(reply@ =~= greeting_reply());
        self.add_queue(reply);
    }

    fn decode_socks5_cmd(&mut self, buf: Vec<u8>)
        requires
            old(self)@.stage == 1,
            buf@.len() >= 7,
        ensures
            final(self)@ == (LineView {
                stage: 2,
                queue: old(self)@.queue + connect_reply(),
                host: final(self)@.host,
                ..old(self)@
            }),
            host_from_request(final(self)@.host, buf@),
    {
        self.next_stage();
        let n = buf.len();
        let mut domain_bytes: Vec<u8> = Vec::new();
        let mut i: usize = 5;
        while i < n - 2
            invariant
                n == buf@.len(),
                n >= 7,
                5 <= i <= n - 2,
                domain_bytes@ == buf@.subrange(5, i as int),
            decreases n - 2 - i,
        {
            domain_bytes.push(buf[i]);
            i = i + 1;
        }
        let mut host = utf8_lossy(domain_bytes.as_slice());
        let ghost before = host@;
        let port: u16 = (buf[n - 2] as u16) * 256 + buf[n - 1] as u16;
        push_char(&mut host, ':');
        push_decimal(&mut host, port as u64);
        proof {
            let suffix = port_suffix(buf@);
            assert(host@ =~= before + suffix);
            assert(host@.subrange(host@.len() - suffix.len(), host@.len() as int) =~= suffix);
        }
        self.set_host(host, 0);
        let mut reply: Vec<u8> = Vec::new();
        reply.push(5u8);
        reply.push(0u8);
        reply.push(0u8);
        reply.push(1u8);
        reply.push(0u8);
        reply.push(0u8);
        reply.push(0u8);
        reply.push(0u8);
        reply.push(0u8);
        reply.push(0u8);
        assert(reply@ =~= connect_reply());
        self.add_queue(reply);
    }

    fn sni_encrypt(&mut self, buf: Vec<u8>) -> (r: Vec<u8>)
        requires
            old(self)@.stage == 2,
            encode_utf8(old(self)@.host).len() <= 255,
        ensures
            r@ == spec_encode(fox_frame(old(self)@.host, old(self)@.id, buf@)),
            final(self)@ == (LineView { stage: 3, ..old(self)@ }),
    {
        self.next_stage();
        let host_bytes = self.host().as_str().as_bytes();
        let len: u8 = host_bytes.len() as u8;
        let mut input: Vec<u8> = Vec::new();
        input.push(len);
        input.extend_from_slice(host_bytes);
        push_be_bytes(&mut input, self.id());
        input.extend_from_slice(buf.as_slice());
        assert(input@ =~= fox_frame(old(self)@.host, old(self)@.id, buf@));
        shuffle_encode(input.as_slice())
    }
}

} // verus!
