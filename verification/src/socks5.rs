//! The server side of the SOCKS5 handshake, as dynamic forwarding speaks
//! it to each accepted connection: a greeting that must offer the
//! no-authentication method, a connect-only request, one of three address
//! encodings, and the byte-exact replies. The surrounding loop reads the
//! number of bytes the machine asks for, feeds them in, performs the
//! connect it resolves, and relays bytes once the reply is out.

use vstd::prelude::*;

use crate::text::{bytes_to_string_lossy, hex_digits, lossy_decoded, push_char, push_dec, push_hex};

verus! {

/// Where the handshake stands; the states up to `Connecting` read from the
/// client, the rest do not.
pub enum HandshakeState {
    /// Awaiting the two greeting bytes.
    AwaitGreeting,
    /// Awaiting this many method bytes.
    AwaitMethods(u8),
    /// Awaiting the four request-header bytes.
    AwaitRequest,
    /// Awaiting four address octets and the two port bytes.
    AwaitIpv4,
    /// Awaiting the name-length byte.
    AwaitDomainLen,
    /// Awaiting this many name bytes and the two port bytes.
    AwaitDomain(u8),
    /// Awaiting sixteen address octets and the two port bytes.
    AwaitIpv6,
    /// The destination is resolved; the caller connects and reports back.
    Connecting,
    /// The reply is out; bytes relay in both directions.
    Relaying,
    /// The connection is finished; nothing more is read.
    Closed,
}

/// What the machine asks of its caller after one feeding.
pub enum HandshakeAction {
    /// Read the next chunk; nothing to send.
    Continue,
    /// Send these bytes, then read the next chunk.
    Send(Vec<u8>),
    /// Send these bytes and drop the connection.
    SendAndClose(Vec<u8>),
    /// Drop the connection without a reply.
    Close,
    /// Open a connection to this destination, then report the outcome.
    Connect(String, u16),
}

/// The server side of one handshake.
pub struct Socks5Server {
    pub state: HandshakeState,
}

/// How many bytes the machine wants to read in a state.
pub open spec fn needed_spec(s: HandshakeState) -> int {
    match s {
        HandshakeState::AwaitGreeting => 2,
        HandshakeState::AwaitMethods(n) => n as int,
        HandshakeState::AwaitRequest => 4,
        HandshakeState::AwaitIpv4 => 6,
        HandshakeState::AwaitDomainLen => 1,
        HandshakeState::AwaitDomain(n) => n as int + 2,
        HandshakeState::AwaitIpv6 => 18,
        _ => 0,
    }
}

/// Whether the machine still reads from the client.
pub open spec fn is_reading(s: HandshakeState) -> bool {
    !(s is Connecting || s is Relaying || s is Closed)
}

/// The failure reply for an unsupported command.
pub open spec fn reply_bad_command() -> Seq<u8> {
    seq![0x05u8, 0x07u8, 0x00u8, 0x01u8, 0u8, 0u8, 0u8, 0u8, 0u8, 0u8]
}

/// The failure reply for an unknown address type.
pub open spec fn reply_bad_atyp() -> Seq<u8> {
    seq![0x05u8, 0x08u8, 0x00u8, 0x01u8, 0u8, 0u8, 0u8, 0u8, 0u8, 0u8]
}

/// The failure reply when the destination cannot be reached.
pub open spec fn reply_refused() -> Seq<u8> {
    seq![0x05u8, 0x05u8, 0x00u8, 0x01u8, 0u8, 0u8, 0u8, 0u8, 0u8, 0u8]
}

/// The success reply, with the canonical all-zero bound address.
pub open spec fn reply_success() -> Seq<u8> {
    seq![0x05u8, 0x00u8, 0x00u8, 0x01u8, 0u8, 0u8, 0u8, 0u8, 0u8, 0u8]
}

/// The dotted-decimal text of four address octets.
pub open spec fn ipv4_text(a: u8, b: u8, c: u8, d: u8) -> Seq<char> {
    crate::text::dec_digits(a as int) + seq!['.'] + crate::text::dec_digits(b as int) + seq!['.']
        + crate::text::dec_digits(c as int) + seq!['.'] + crate::text::dec_digits(d as int)
}

/// One group of an address in colon-separated hexadecimal: the big-endian
/// pair value in lowercase hex.
pub open spec fn group_val(bytes: Seq<u8>, i: int) -> int {
    bytes[2 * i] * 256 + bytes[2 * i + 1]
}

/// The colon-separated hexadecimal text of the first `n` groups.
pub open spec fn ipv6_text_prefix(bytes: Seq<u8>, n: int) -> Seq<char>
    decreases n,
{
    if n <= 0 {
        Seq::empty()
    } else if n == 1 {
        hex_digits(group_val(bytes, 0))
    } else {
        ipv6_text_prefix(bytes, n - 1) + seq![':'] + hex_digits(group_val(bytes, n - 1))
    }
}

/// The two-byte big-endian port at position `i`.
pub open spec fn port_at(bytes: Seq<u8>, i: int) -> int {
    bytes[i] * 256 + bytes[i + 1]
}

impl Socks5Server {
    /// A fresh handshake, waiting for the greeting.
    pub fn new() -> (r: Self)
        ensures
            r.state is AwaitGreeting,
    {
        Socks5Server { state: HandshakeState::AwaitGreeting }
    }

    /// How many bytes to read next.
    pub fn needed(&self) -> (n: usize)
        ensures
            n as int == needed_spec(self.state),
    {
        match self.state {
            HandshakeState::AwaitGreeting => 2,
            HandshakeState::AwaitMethods(n) => n as usize,
            HandshakeState::AwaitRequest => 4,
            HandshakeState::AwaitIpv4 => 6,
            HandshakeState::AwaitDomainLen => 1,
            HandshakeState::AwaitDomain(n) => n as usize + 2,
            HandshakeState::AwaitIpv6 => 18,
            _ => 0,
        }
    }

    /// Feed exactly the requested bytes.
    ///
    /// The contract is the protocol: a greeting of another version drops
    /// the connection; a method list without the no-authentication method
    /// is always answered `05 FF` and the connection closes without a
    /// request ever being read; an accepted greeting is answered `05 00`;
    /// a request with a command other than connect is refused with code
    /// `07`, an unknown address type with code `08`; and each address
    /// encoding resolves to its destination text and big-endian port.
    pub fn feed(&mut self, chunk: &Vec<u8>) -> (act: HandshakeAction)
        requires
            is_reading(old(self).state),
            chunk@.len() == needed_spec(old(self).state),
        ensures
            match old(self).state {
                HandshakeState::AwaitGreeting => {
                    if chunk@[0] != 0x05 {
                        final(self).state is Closed && act is Close
                    } else {
                        final(self).state == HandshakeState::AwaitMethods(chunk@[1]) && act
                            is Continue
                    }
                },
                HandshakeState::AwaitMethods(_) => {
                    if chunk@.contains(0x00u8) {
                        final(self).state is AwaitRequest && (act
                            matches HandshakeAction::Send(v) && v@ == seq![0x05u8, 0x00u8])
                    } else {
                        final(self).state is Closed && (act
                            matches HandshakeAction::SendAndClose(v) && v@ == seq![
                            0x05u8,
                            0xFFu8,
                        ])
                    }
                },
                HandshakeState::AwaitRequest => {
                    if chunk@[0] != 0x05 || chunk@[1] != 0x01 {
                        final(self).state is Closed && (act
                            matches HandshakeAction::SendAndClose(v) && v@ == reply_bad_command())
                    } else if chunk@[3] == 0x01 {
                        final(self).state is AwaitIpv4 && act is Continue
                    } else if chunk@[3] == 0x03 {
                        final(self).state is AwaitDomainLen && act is Continue
                    } else if chunk@[3] == 0x04 {
                        final(self).state is AwaitIpv6 && act is Continue
                    } else {
                        final(self).state is Closed && (act
                            matches HandshakeAction::SendAndClose(v) && v@ == reply_bad_atyp())
                    }
                },
                HandshakeState::AwaitIpv4 => final(self).state is Connecting && (act
                    matches HandshakeAction::Connect(h, p) && h@ == ipv4_text(
                    chunk@[0],
                    chunk@[1],
                    chunk@[2],
                    chunk@[3],
                ) && p as int == port_at(chunk@, 4)),
                HandshakeState::AwaitDomainLen => final(self).state == HandshakeState::AwaitDomain(
                    chunk@[0],
                ) && act is Continue,
                HandshakeState::AwaitDomain(n) => final(self).state is Connecting && (act
                    matches HandshakeAction::Connect(h, p) && h@ == lossy_decoded(
                    chunk@.take(n as int),
                ) && p as int == port_at(chunk@, n as int)),
                HandshakeState::AwaitIpv6 => final(self).state is Connecting && (act
                    matches HandshakeAction::Connect(h, p) && h@ == ipv6_text_prefix(chunk@, 8)
                    && p as int == port_at(chunk@, 16)),
                _ => false,
            },
    {
        match self.state {
            HandshakeState::AwaitGreeting => {
                if chunk[0] != 0x05 {
                    self.state = HandshakeState::Closed;
                    HandshakeAction::Close
                } else {
                    self.state = HandshakeState::AwaitMethods(chunk[1]);
                    HandshakeAction::Continue
                }
            },
            HandshakeState::AwaitMethods(_) => {
                let mut has_none = false;
                let n = chunk.len();
                for i in 0..n
                    invariant
                        n == chunk@.len(),
                        has_none == exists|k: int| 0 <= k < i && chunk@[k] == 0x00u8,
                {
                    if chunk[i] == 0x00 {
                        has_none = true;
                    }
                }
                if has_none {
                    self.state = HandshakeState::AwaitRequest;
                    let mut v: Vec<u8> = Vec::new();
                    v.push(0x05);
                    v.push(0x00);
                    proof {
                        assert(v@ =~= seq![0x05u8, 0x00u8]);
                        assert(chunk@.contains(0x00u8));
                    }
                    HandshakeAction::Send(v)
                } else {
                    self.state = HandshakeState::Closed;
                    let mut v: Vec<u8> = Vec::new();
                    v.push(0x05);
                    v.push(0xFF);
                    proof {
                        assert(v@ =~= seq![0x05u8, 0xFFu8]);
                        assert(!chunk@.contains(0x00u8)) by {
                            if chunk@.contains(0x00u8) {
                                let k = choose|k: int| 0 <= k < chunk@.len() && chunk@[k] == 0x00u8;
                                assert(false);
                            }
                        }
                    }
                    HandshakeAction::SendAndClose(v)
                }
            },
            HandshakeState::AwaitRequest => {
                if chunk[0] != 0x05 || chunk[1] != 0x01 {
                    self.state = HandshakeState::Closed;
                    HandshakeAction::SendAndClose(fixed_reply(0x07))
                } else if chunk[3] == 0x01 {
                    self.state = HandshakeState::AwaitIpv4;
                    HandshakeAction::Continue
                } else if chunk[3] == 0x03 {
                    self.state = HandshakeState::AwaitDomainLen;
                    HandshakeAction::Continue
                } else if chunk[3] == 0x04 {
                    self.state = HandshakeState::AwaitIpv6;
                    HandshakeAction::Continue
                } else {
                    self.state = HandshakeState::Closed;
                    HandshakeAction::SendAndClose(fixed_reply(0x08))
                }
            },
            HandshakeState::AwaitIpv4 => {
                let mut host = String::new();
                push_dec(&mut host, chunk[0] as u64);
                push_char(&mut host, '.');
                push_dec(&mut host, chunk[1] as u64);
                push_char(&mut host, '.');
                push_dec(&mut host, chunk[2] as u64);
                push_char(&mut host, '.');
                push_dec(&mut host, chunk[3] as u64);
                let port: u16 = chunk[4] as u16 * 256 + chunk[5] as u16;
                self.state = HandshakeState::Connecting;
                proof {
                    assert(host@ =~= ipv4_text(chunk@[0], chunk@[1], chunk@[2], chunk@[3]));
                }
                HandshakeAction::Connect(host, port)
            },
            HandshakeState::AwaitDomainLen => {
                self.state = HandshakeState::AwaitDomain(chunk[0]);
                HandshakeAction::Continue
            },
            HandshakeState::AwaitDomain(n) => {
                let len = n as usize;
                let mut name: Vec<u8> = Vec::new();
                for i in 0..len
                    invariant
                        len + 2 == chunk@.len(),
                        name@ == chunk@.take(i as int),
                {
                    name.push(chunk[i]);
                    proof {
                        assert(chunk@.take(i + 1) =~= chunk@.take(i as int).push(chunk@[i as int]));
                    }
                }
                let host = bytes_to_string_lossy(&name);
                let port: u16 = chunk[len] as u16 * 256 + chunk[len + 1] as u16;
                self.state = HandshakeState::Connecting;
                HandshakeAction::Connect(host, port)
            },
            HandshakeState::AwaitIpv6 => {
                let mut host = String::new();
                let mut g: usize = 0;
                while g < 8
                    invariant
                        18 == chunk@.len(),
                        g <= 8,
                        host@ == ipv6_text_prefix(chunk@, g as int),
                    decreases 8 - g,
                {
                    if g > 0 {
                        push_char(&mut host, ':');
                    }
                    let val: u16 = chunk[2 * g] as u16 * 256 + chunk[2 * g + 1] as u16;
                    push_hex(&mut host, val);
                    proof {
                        assert(val as int == group_val(chunk@, g as int));
                        if g == 0 {
                            assert(host@ =~= ipv6_text_prefix(chunk@, 1));
                        } else {
                            assert(host@ =~= ipv6_text_prefix(chunk@, g + 1));
                        }
                    }
                    g = g + 1;
                }
                let port: u16 = chunk[16] as u16 * 256 + chunk[17] as u16;
                self.state = HandshakeState::Connecting;
                HandshakeAction::Connect(host, port)
            },
            _ => {
                proof {
                    assert(false);
                }
                HandshakeAction::Close
            },
        }
    }

    /// Report the outcome of the connect: on success the success reply
    /// goes out and bytes relay; on failure the connection-refused reply
    /// goes out and the connection closes.
    pub fn connect_result(&mut self, ok: bool) -> (reply: Vec<u8>)
        requires
            old(self).state is Connecting,
        ensures
            ok ==> final(self).state is Relaying && reply@ == reply_success(),
            !ok ==> final(self).state is Closed && reply@ == reply_refused(),
    {
        if ok {
            self.state = HandshakeState::Relaying;
            fixed_reply(0x00)
        } else {
            self.state = HandshakeState::Closed;
            fixed_reply(0x05)
        }
    }
}

/// A ten-byte reply with the given code and the all-zero bound address.
fn fixed_reply(code: u8) -> (r: Vec<u8>)
    ensures
        r@ == seq![0x05u8, code, 0x00u8, 0x01u8, 0u8, 0u8, 0u8, 0u8, 0u8, 0u8],
{
    let mut v: Vec<u8> = Vec::new();
    v.push(0x05);
    v.push(code);
    v.push(0x00);
    v.push(0x01);
    v.push(0);
    v.push(0);
    v.push(0);
    v.push(0);
    v.push(0);
    v.push(0);
    proof {
        assert(v@ =~= seq![0x05u8, code, 0x00u8, 0x01u8, 0u8, 0u8, 0u8, 0u8, 0u8, 0u8]);
    }
    v
}

} // verus!
