//! Connection descriptors and the decision logic of one shell session: how
//! a connection is routed, which authentication is supported, what the
//! shell pump does with each channel event, and the byte-exact client side
//! of the upstream SOCKS5 handshake.

use vstd::prelude::*;

use crate::sftp::joined_path;
use vstd::string::StringSliceAdditionalSpecFns;

verus! {

/// An upstream SOCKS5 proxy in front of the destination.
pub struct ProxyConfig {
    pub host: String,
    pub port: u16,
}

/// How to authenticate: a password, a private-key file, or the agent,
/// which is not supported and fails fast.
pub enum AuthType {
    Password(String),
    KeyFile(String),
    Agent,
}

/// Everything needed to open one connection. Immutable once an attempt
/// starts; the password lives only as long as the connection.
pub struct SessionConfig {
    pub id: String,
    pub name: String,
    pub host: String,
    pub port: u16,
    pub username: String,
    pub auth_type: AuthType,
    pub proxy: Option<ProxyConfig>,
}

/// One command queued for the shell pump: keystroke bytes or a resize.
pub enum SshCommand {
    Data(Vec<u8>),
    Resize { cols: u32, rows: u32 },
}

impl ProxyConfig {
    /// An exact copy.
    pub fn duplicate(&self) -> (r: Self)
        ensures
            r == *self,
    {
        ProxyConfig { host: self.host.clone(), port: self.port }
    }
}

impl AuthType {
    /// An exact copy.
    pub fn duplicate(&self) -> (r: Self)
        ensures
            r == *self,
    {
        match self {
            AuthType::Password(p) => AuthType::Password(p.clone()),
            AuthType::KeyFile(k) => AuthType::KeyFile(k.clone()),
            AuthType::Agent => AuthType::Agent,
        }
    }

    /// Whether this authentication kind is implemented; the agent is not.
    pub fn is_supported(&self) -> (r: bool)
        ensures
            r == !(self is Agent),
    {
        !matches!(self, AuthType::Agent)
    }
}

impl SessionConfig {
    /// An exact copy.
    pub fn duplicate(&self) -> (r: Self)
        ensures
            r == *self,
    {
        SessionConfig {
            id: self.id.clone(),
            name: self.name.clone(),
            host: self.host.clone(),
            port: self.port,
            username: self.username.clone(),
            auth_type: self.auth_type.duplicate(),
            proxy: match &self.proxy {
                Some(p) => Some(p.duplicate()),
                None => None,
            },
        }
    }
}

/// Where the transport is opened: straight to the destination, or first to
/// an upstream proxy which then connects onward.
pub enum ConnectRoute {
    Direct { host: String, port: u16 },
    ViaProxy { proxy_host: String, proxy_port: u16, target_host: String, target_port: u16 },
}

/// The route a configuration asks for: through its proxy exactly when one
/// is configured.
pub fn connect_route(cfg: &SessionConfig) -> (r: ConnectRoute)
    ensures
        match cfg.proxy {
            Some(ref p) => r matches ConnectRoute::ViaProxy {
                proxy_host,
                proxy_port,
                target_host,
                target_port,
            } && proxy_host@ == p.host@ && proxy_port == p.port && target_host@ == cfg.host@
                && target_port == cfg.port,
            None => r matches ConnectRoute::Direct { host, port } && host@ == cfg.host@ && port
                == cfg.port,
        },
{
    match &cfg.proxy {
        Some(p) => ConnectRoute::ViaProxy {
            proxy_host: p.host.clone(),
            proxy_port: p.port,
            target_host: cfg.host.clone(),
            target_port: cfg.port,
        },
        None => ConnectRoute::Direct { host: cfg.host.clone(), port: cfg.port },
    }
}

/// Expand a leading `~/` to the user's home directory; anything else is
/// returned as it is.
pub fn expand_tilde(path: &str, home: &str) -> (r: String)
    ensures
        path@.len() >= 2 && path@[0] == '~' && path@[1] == '/' ==> r@ == joined_path(
            home@,
            path@.skip(2),
        ),
        !(path@.len() >= 2 && path@[0] == '~' && path@[1] == '/') ==> r@ == path@,
{
    let n = path.unicode_len();
    if n >= 2 && path.get_char(0) == '~' && path.get_char(1) == '/' {
        let rest = path.substring_char(2, n);
        proof {
            assert(rest@ =~= path@.skip(2));
        }
        crate::sftp::entry_path(home, rest)
    } else {
        path.to_owned()
    }
}

// ---- The shell pump's decisions ----

/// One event of the interactive channel, as the pump sees it.
pub enum ShellEvent {
    /// Ordinary output bytes.
    Data(Vec<u8>),
    /// Extended-stream output bytes, forwarded the same way.
    ExtendedData(Vec<u8>),
    /// The peer sent an end of file.
    Eof,
    /// The channel closed.
    Closed,
    /// The channel produced no further messages.
    ChannelEnd,
    /// Anything else, ignored.
    Other,
}

/// What the pump does with one event.
pub enum ShellAction {
    /// Forward bytes to the output queue.
    Output(Vec<u8>),
    /// Leave the loop, close the channel and disconnect.
    Exit,
    /// Nothing.
    Ignore,
}

/// The pump's decision for one event: both output streams are forwarded,
/// the loop exits on end of file, close or channel end, and everything
/// else is ignored.
pub fn shell_event_action(ev: ShellEvent) -> (r: ShellAction)
    ensures
        match ev {
            ShellEvent::Data(d) => r matches ShellAction::Output(o) && o@ == d@,
            ShellEvent::ExtendedData(d) => r matches ShellAction::Output(o) && o@ == d@,
            ShellEvent::Eof => r is Exit,
            ShellEvent::Closed => r is Exit,
            ShellEvent::ChannelEnd => r is Exit,
            ShellEvent::Other => r is Ignore,
        },
{
    match ev {
        ShellEvent::Data(d) => ShellAction::Output(d),
        ShellEvent::ExtendedData(d) => ShellAction::Output(d),
        ShellEvent::Eof => ShellAction::Exit,
        ShellEvent::Closed => ShellAction::Exit,
        ShellEvent::ChannelEnd => ShellAction::Exit,
        ShellEvent::Other => ShellAction::Ignore,
    }
}

/// The single-slot last-error cell: a new failure overwrites the old one,
/// and draining it empties it, so a repeated poll returns nothing.
pub struct ErrorSlot {
    pub last: Option<String>,
}

impl ErrorSlot {
    /// An empty slot.
    pub fn new() -> (r: Self)
        ensures
            r.last is None,
    {
        ErrorSlot { last: None }
    }

    /// Record a failure, replacing whatever was there.
    pub fn record(&mut self, message: String)
        ensures
            final(self).last == Some(message),
    {
        self.last = Some(message);
    }

    /// Drain the slot: the caller gets the last unread failure once.
    pub fn take(&mut self) -> (r: Option<String>)
        ensures
            r == old(self).last,
            final(self).last is None,
    {
        let mut taken: Option<String> = None;
        core::mem::swap(&mut taken, &mut self.last);
        taken
    }
}

// ---- The client side of the SOCKS5 handshake ----

/// Whether a character is a decimal digit.
pub open spec fn is_digit(c: char) -> bool {
    '0' <= c && c <= '9'
}

/// A digit's value.
pub open spec fn digit_val(c: char) -> int {
    c as int - 0x30
}

/// One octet of a dotted-quad address starting at `i`: one to three
/// digits, no leading zero, at most 255; the value and the next position.
pub open spec fn parse_octet(s: Seq<char>, i: int) -> Option<(int, int)> {
    if i < 0 || i >= s.len() || !is_digit(s[i]) {
        None
    } else if s[i] == '0' {
        Some((0, i + 1))
    } else if i + 1 < s.len() && is_digit(s[i + 1]) {
        if i + 2 < s.len() && is_digit(s[i + 2]) {
            let v = digit_val(s[i]) * 100 + digit_val(s[i + 1]) * 10 + digit_val(s[i + 2]);
            if v <= 255 {
                Some((v, i + 3))
            } else {
                None
            }
        } else {
            Some((digit_val(s[i]) * 10 + digit_val(s[i + 1]), i + 2))
        }
    } else {
        Some((digit_val(s[i]), i + 1))
    }
}

/// What parsing a dotted-quad address literal yields: four octets joined
/// by dots, spanning the whole string.
pub open spec fn parse_ipv4_spec(s: Seq<char>) -> Option<(u8, u8, u8, u8)> {
    match parse_octet(s, 0) {
        None => None,
        Some((a, i1)) => {
            if i1 < s.len() && s[i1] == '.' {
                match parse_octet(s, i1 + 1) {
                    None => None,
                    Some((b, i2)) => {
                        if i2 < s.len() && s[i2] == '.' {
                            match parse_octet(s, i2 + 1) {
                                None => None,
                                Some((c, i3)) => {
                                    if i3 < s.len() && s[i3] == '.' {
                                        match parse_octet(s, i3 + 1) {
                                            None => None,
                                            Some((d, i4)) => {
                                                if i4 == s.len() {
                                                    Some((a as u8, b as u8, c as u8, d as u8))
                                                } else {
                                                    None
                                                }
                                            },
                                        }
                                    } else {
                                        None
                                    }
                                },
                            }
                        } else {
                            None
                        }
                    },
                }
            } else {
                None
            }
        },
    }
}

/// Read one octet of a dotted-quad literal.
fn octet_at(s: &str, i: usize) -> (r: Option<(u8, usize)>)
    requires
        i <= s@.len(),
    ensures
        match parse_octet(s@, i as int) {
            Some((v, next)) => r matches Some((rv, rn)) && rv as int == v && rn as int == next
                && next <= s@.len(),
            None => r is None,
        },
{
    let n = s.unicode_len();
    if i >= n {
        return None;
    }
    let c0 = s.get_char(i);
    proof {
        vstd::utf8::char_u32_cast(c0, c0 as u32);
    }
    if c0 < '0' || c0 > '9' {
        return None;
    }
    if c0 == '0' {
        return Some((0, i + 1));
    }
    let d1 = (c0 as u32 - 0x30) as u8;
    if i + 1 < n {
        let c1 = s.get_char(i + 1);
        proof {
            vstd::utf8::char_u32_cast(c1, c1 as u32);
        }
        if c1 >= '0' && c1 <= '9' {
            let d2 = (c1 as u32 - 0x30) as u8;
            if i + 2 < n {
                let c2 = s.get_char(i + 2);
                proof {
                    vstd::utf8::char_u32_cast(c2, c2 as u32);
                }
                if c2 >= '0' && c2 <= '9' {
                    let d3 = (c2 as u32 - 0x30) as u8;
                    let v: u32 = d1 as u32 * 100 + d2 as u32 * 10 + d3 as u32;
                    if v <= 255 {
                        return Some(((v as u8), i + 3));
                    } else {
                        return None;
                    }
                }
            }
            return Some((d1 * 10 + d2, i + 2));
        }
    }
    Some((d1, i + 1))
}

/// Parse a dotted-quad address literal.
pub fn parse_ipv4(s: &str) -> (r: Option<(u8, u8, u8, u8)>)
    ensures
        r == parse_ipv4_spec(s@),
{
    let n = s.unicode_len();
    let o1 = octet_at(s, 0);
    match o1 {
        None => None,
        Some((a, i1)) => {
            if i1 < n && s.get_char(i1) == '.' {
                match octet_at(s, i1 + 1) {
                    None => None,
                    Some((b, i2)) => {
                        if i2 < n && s.get_char(i2) == '.' {
                            match octet_at(s, i2 + 1) {
                                None => None,
                                Some((c, i3)) => {
                                    if i3 < n && s.get_char(i3) == '.' {
                                        match octet_at(s, i3 + 1) {
                                            None => None,
                                            Some((d, i4)) => {
                                                if i4 == n {
                                                    Some((a, b, c, d))
                                                } else {
                                                    None
                                                }
                                            },
                                        }
                                    } else {
                                        None
                                    }
                                },
                            }
                        } else {
                            None
                        }
                    },
                }
            } else {
                None
            }
        },
    }
}

/// The greeting sent to an upstream proxy: protocol five, one method,
/// no authentication.
pub fn client_greeting() -> (r: Vec<u8>)
    ensures
        r@ == seq![0x05u8, 0x01u8, 0x00u8],
{
    let mut v: Vec<u8> = Vec::new();
    v.push(0x05);
    v.push(0x01);
    v.push(0x00);
    proof {
        assert(v@ =~= seq![0x05u8, 0x01u8, 0x00u8]);
    }
    v
}

/// Whether the proxy accepted the no-authentication method.
pub fn method_reply_ok(b0: u8, b1: u8) -> (r: bool)
    ensures
        r == (b0 == 0x05 && b1 == 0x00),
{
    b0 == 0x05 && b1 == 0x00
}

/// The big-endian bytes of a port.
pub open spec fn be_port(port: u16) -> Seq<u8> {
    seq![(port / 256) as u8, (port % 256) as u8]
}

/// The connect request sent to an upstream proxy: an address-literal
/// destination travels as four octets, any other as a length-prefixed
/// name, which must fit one length byte — exactly then is a request made.
pub fn encode_connect_request(host: &str, port: u16) -> (r: Option<Vec<u8>>)
    ensures
        r is Some <==> (parse_ipv4_spec(host@) is Some || host.spec_bytes().len() <= 255),
        parse_ipv4_spec(host@) matches Some((a, b, c, d)) ==> (r matches Some(v) && v@ == seq![
            0x05u8,
            0x01u8,
            0x00u8,
            0x01u8,
            a,
            b,
            c,
            d,
        ] + be_port(port)),
        parse_ipv4_spec(host@) is None && host.spec_bytes().len() <= 255 ==> (r matches Some(v)
            && v@ == seq![0x05u8, 0x01u8, 0x00u8, 0x03u8, host.spec_bytes().len() as u8]
            + host.spec_bytes() + be_port(port)),
{
    let mut v: Vec<u8> = Vec::new();
    v.push(0x05);
    v.push(0x01);
    v.push(0x00);
    match parse_ipv4(host) {
        Some((a, b, c, d)) => {
            v.push(0x01);
            v.push(a);
            v.push(b);
            v.push(c);
            v.push(d);
            v.push((port / 256) as u8);
            v.push((port % 256) as u8);
            proof {
                assert(v@ =~= seq![0x05u8, 0x01u8, 0x00u8, 0x01u8, a, b, c, d] + be_port(port));
            }
            Some(v)
        },
        None => {
            let bytes = host.as_bytes();
            let len = bytes.len();
            if len > 255 {
                return None;
            }
            v.push(0x03);
            v.push(len as u8);
            let ghost mid = v@;
            for i in 0..len
                invariant
                    len == bytes@.len(),
                    len <= 255,
                    v@ == mid + bytes@.take(i as int),
            {
                v.push(bytes[i]);
                proof {
                    assert(mid + bytes@.take(i + 1) =~= (mid + bytes@.take(i as int)).push(
                        bytes@[i as int],
                    ));
                }
            }
            v.push((port / 256) as u8);
            v.push((port % 256) as u8);
            proof {
                assert(bytes@.take(len as int) =~= bytes@);
                assert(v@ =~= seq![0x05u8, 0x01u8, 0x00u8, 0x03u8, host.spec_bytes().len() as u8]
                    + host.spec_bytes() + be_port(port));
            }
            Some(v)
        },
    }
}

/// Whether a connect reply header reports success.
pub fn connect_reply_ok(code: u8) -> (r: bool)
    ensures
        r == (code == 0x00),
{
    code == 0x00
}

/// How the bound-address tail of a connect reply is consumed.
pub enum BoundAddrForm {
    /// This many bytes follow, address and port together.
    Fixed(usize),
    /// One length byte follows, then that many name bytes and the port.
    LengthPrefixed,
}

/// The form of the bound-address field for an address-type byte: four
/// octets plus the port, a length-prefixed name plus the port, or sixteen
/// octets plus the port; an unknown type has nothing more to read.
pub fn bound_addr_form(atyp: u8) -> (r: BoundAddrForm)
    ensures
        atyp == 0x01 ==> (r matches BoundAddrForm::Fixed(n) && n == 6),
        atyp == 0x03 ==> r is LengthPrefixed,
        atyp == 0x04 ==> (r matches BoundAddrForm::Fixed(n) && n == 18),
        atyp != 0x01 && atyp != 0x03 && atyp != 0x04 ==> (r matches BoundAddrForm::Fixed(n) && n
            == 0),
{
    if atyp == 0x01 {
        BoundAddrForm::Fixed(6)
    } else if atyp == 0x03 {
        BoundAddrForm::LengthPrefixed
    } else if atyp == 0x04 {
        BoundAddrForm::Fixed(18)
    } else {
        BoundAddrForm::Fixed(0)
    }
}

/// The bytes that follow a bound-address length byte: the name, then the
/// two port bytes.
pub fn length_prefixed_rest(len_byte: u8) -> (r: usize)
    ensures
        r == len_byte + 2,
{
    len_byte as usize + 2
}

} // verus!
