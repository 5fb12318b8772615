//! Guest socket arguments: address families, socket types, protocols and
//! socket options, decoded from the numbers that guests pass to the socket
//! system calls; and the guest's socket table over a host network stack.

use vstd::prelude::*;
use crate::error::VmError;
use crate::ir::{GuestAddr, GuestArch};
use crate::keyed::{get, has_key, lemma_pos, lemma_put, lemma_remove_key, pos, put, remove_key, unique};
use crate::text::{dec, push_u64, text};

verus! {

/// Address family.
#[derive(Debug, Clone, Copy, PartialEq, Eq, Structural, Hash)]
pub enum SocketDomain {
    Unix,
    Inet,
    Inet6,
    Netlink,
}

/// Socket type.
#[derive(Debug, Clone, Copy, PartialEq, Eq, Structural, Hash)]
pub enum SocketType {
    Stream,
    Datagram,
    Raw,
    Rdm,
    SeqPacket,
    Dccp,
}

/// Protocol.
#[derive(Debug, Clone, Copy, PartialEq, Eq, Structural, Hash)]
pub enum SocketProtocol {
    Ip,
    Tcp,
    Udp,
    Icmp,
    Icmpv6,
}

/// Level of a socket option.
#[derive(Debug, Clone, Copy, PartialEq, Eq, Structural, Hash)]
pub enum SocketOptionLevel {
    Socket,
    Tcp,
    Ip,
    Ipv6,
}

/// Name of a socket option.
#[derive(Debug, Clone, Copy, PartialEq, Eq, Structural, Hash)]
pub enum SocketOption {
    ReuseAddr,
    KeepAlive,
    Broadcast,
    Linger,
    SendBuf,
    RecvBuf,
    Error,
    Type,
    TcpNoDelay,
    TcpKeepIdle,
    TcpKeepIntvl,
    TcpKeepCnt,
}

/// The Linux number of an address family.
pub open spec fn domain_number(d: SocketDomain) -> u32 {
    match d {
        SocketDomain::Unix => 1,
        SocketDomain::Inet => 2,
        SocketDomain::Inet6 => 10,
        SocketDomain::Netlink => 16,
    }
}

/// The Linux number of a socket type.
pub open spec fn type_number(t: SocketType) -> u32 {
    match t {
        SocketType::Stream => 1,
        SocketType::Datagram => 2,
        SocketType::Raw => 3,
        SocketType::Rdm => 4,
        SocketType::SeqPacket => 5,
        SocketType::Dccp => 6,
    }
}

/// The IP protocol number.
pub open spec fn protocol_number(p: SocketProtocol) -> u32 {
    match p {
        SocketProtocol::Ip => 0,
        SocketProtocol::Tcp => 6,
        SocketProtocol::Udp => 17,
        SocketProtocol::Icmp => 1,
        SocketProtocol::Icmpv6 => 58,
    }
}

/// The Linux number of an option level.
pub open spec fn level_number(l: SocketOptionLevel) -> u32 {
    match l {
        SocketOptionLevel::Socket => 1,
        SocketOptionLevel::Tcp => 6,
        SocketOptionLevel::Ip => 0,
        SocketOptionLevel::Ipv6 => 41,
    }
}

/// The Linux number of an option (socket-level and TCP-level options share
/// numbers).
pub open spec fn option_number(o: SocketOption) -> u32 {
    match o {
        SocketOption::ReuseAddr => 2,
        SocketOption::KeepAlive => 9,
        SocketOption::Broadcast => 6,
        SocketOption::Linger => 13,
        SocketOption::SendBuf => 7,
        SocketOption::RecvBuf => 8,
        SocketOption::Error => 4,
        SocketOption::Type => 3,
        SocketOption::TcpNoDelay => 1,
        SocketOption::TcpKeepIdle => 4,
        SocketOption::TcpKeepIntvl => 5,
        SocketOption::TcpKeepCnt => 6,
    }
}

impl SocketDomain {
    pub fn number(&self) -> (n: u32)
        ensures
            n == domain_number(*self),
    {
        match self {
            SocketDomain::Unix => 1,
            SocketDomain::Inet => 2,
            SocketDomain::Inet6 => 10,
            SocketDomain::Netlink => 16,
        }
    }
}

impl SocketType {
    pub fn number(&self) -> (n: u32)
        ensures
            n == type_number(*self),
    {
        match self {
            SocketType::Stream => 1,
            SocketType::Datagram => 2,
            SocketType::Raw => 3,
            SocketType::Rdm => 4,
            SocketType::SeqPacket => 5,
            SocketType::Dccp => 6,
        }
    }
}

impl SocketProtocol {
    pub fn number(&self) -> (n: u32)
        ensures
            n == protocol_number(*self),
    {
        match self {
            SocketProtocol::Ip => 0,
            SocketProtocol::Tcp => 6,
            SocketProtocol::Udp => 17,
            SocketProtocol::Icmp => 1,
            SocketProtocol::Icmpv6 => 58,
        }
    }
}

impl SocketOptionLevel {
    pub fn number(&self) -> (n: u32)
        ensures
            n == level_number(*self),
    {
        match self {
            SocketOptionLevel::Socket => 1,
            SocketOptionLevel::Tcp => 6,
            SocketOptionLevel::Ip => 0,
            SocketOptionLevel::Ipv6 => 41,
        }
    }
}

impl SocketOption {
    pub fn number(&self) -> (n: u32)
        ensures
            n == option_number(*self),
    {
        match self {
            SocketOption::ReuseAddr => 2,
            SocketOption::KeepAlive => 9,
            SocketOption::Broadcast => 6,
            SocketOption::Linger => 13,
            SocketOption::SendBuf => 7,
            SocketOption::RecvBuf => 8,
            SocketOption::Error => 4,
            SocketOption::Type => 3,
            SocketOption::TcpNoDelay => 1,
            SocketOption::TcpKeepIdle => 4,
            SocketOption::TcpKeepIntvl => 5,
            SocketOption::TcpKeepCnt => 6,
        }
    }
}

/// `e` is the `InvalidArgument` error for `argument` with value `v`.
pub open spec fn is_invalid_argument(e: VmError, argument: Seq<char>, v: u32, reason: Seq<char>) -> bool {
    e matches VmError::InvalidArgument { argument: a, value, reason: r } && a@ == argument && value@ == dec(
        v as nat,
    ) && r@ == reason
}

fn invalid_argument(argument: &str, v: u32, reason: &str) -> (e: VmError)
    ensures
        is_invalid_argument(e, argument@, v, reason@),
{
    let mut value = String::new();
    push_u64(&mut value, v as u64);
    assert(value@ =~= dec(v as nat));
    VmError::InvalidArgument { argument: text(argument), value, reason: text(reason) }
}

/// The address family numbered `d`, if any.
pub open spec fn domain_of(d: u32) -> Option<SocketDomain> {
    if d == 1 {
        Some(SocketDomain::Unix)
    } else if d == 2 {
        Some(SocketDomain::Inet)
    } else if d == 10 {
        Some(SocketDomain::Inet6)
    } else if d == 16 {
        Some(SocketDomain::Netlink)
    } else {
        None
    }
}

/// The socket type numbered `t`, if any.
pub open spec fn type_of(t: u32) -> Option<SocketType> {
    if 1 <= t <= 6 {
        Some(
            if t == 1 {
                SocketType::Stream
            } else if t == 2 {
                SocketType::Datagram
            } else if t == 3 {
                SocketType::Raw
            } else if t == 4 {
                SocketType::Rdm
            } else if t == 5 {
                SocketType::SeqPacket
            } else {
                SocketType::Dccp
            },
        )
    } else {
        None
    }
}

/// The protocol numbered `p`; unknown numbers mean IP.
pub open spec fn protocol_of(p: u32) -> SocketProtocol {
    if p == 6 {
        SocketProtocol::Tcp
    } else if p == 17 {
        SocketProtocol::Udp
    } else if p == 1 {
        SocketProtocol::Icmp
    } else if p == 58 {
        SocketProtocol::Icmpv6
    } else {
        SocketProtocol::Ip
    }
}

/// The option level numbered `l`, if any.
pub open spec fn level_of(l: u32) -> Option<SocketOptionLevel> {
    if l == 1 {
        Some(SocketOptionLevel::Socket)
    } else if l == 6 {
        Some(SocketOptionLevel::Tcp)
    } else if l == 0 {
        Some(SocketOptionLevel::Ip)
    } else if l == 41 {
        Some(SocketOptionLevel::Ipv6)
    } else {
        None
    }
}

/// The option numbered `o`, if any. Where two options share a number the
/// socket-level one is taken: 4 is `Error`, 6 is `Broadcast`.
pub open spec fn option_of(o: u32) -> Option<SocketOption> {
    if o == 2 {
        Some(SocketOption::ReuseAddr)
    } else if o == 9 {
        Some(SocketOption::KeepAlive)
    } else if o == 6 {
        Some(SocketOption::Broadcast)
    } else if o == 13 {
        Some(SocketOption::Linger)
    } else if o == 7 {
        Some(SocketOption::SendBuf)
    } else if o == 8 {
        Some(SocketOption::RecvBuf)
    } else if o == 4 {
        Some(SocketOption::Error)
    } else if o == 3 {
        Some(SocketOption::Type)
    } else if o == 1 {
        Some(SocketOption::TcpNoDelay)
    } else if o == 5 {
        Some(SocketOption::TcpKeepIntvl)
    } else {
        None
    }
}

/// A host socket address: IPv4 or IPv6 with a port.
#[derive(Debug, Clone, Copy, PartialEq, Eq, Structural)]
pub enum HostSocketAddr {
    V4 { ip: u32, port: u16 },
    V6 { ip: u128, port: u16 },
}

/// A socket address of the guest.
#[derive(Debug)]
pub enum SocketAddress {
    Unix(String),
    Inet(HostSocketAddr),
    Inet6(HostSocketAddr),
    Netlink(u32),
}

pub enum AddressView {
    Unix(Seq<char>),
    Inet(HostSocketAddr),
    Inet6(HostSocketAddr),
    Netlink(u32),
}

impl View for SocketAddress {
    type V = AddressView;

    open spec fn view(&self) -> AddressView {
        match self {
            SocketAddress::Unix(p) => AddressView::Unix(p@),
            SocketAddress::Inet(a) => AddressView::Inet(*a),
            SocketAddress::Inet6(a) => AddressView::Inet6(*a),
            SocketAddress::Netlink(n) => AddressView::Netlink(*n),
        }
    }
}

pub open spec fn opt_addr_view(a: Option<SocketAddress>) -> Option<AddressView> {
    match a {
        Some(x) => Some(x@),
        None => None,
    }
}

/// The `NotImplemented` error of `feature` of the network layer.
pub open spec fn is_not_implemented(e: VmError, feature: Seq<char>) -> bool {
    e matches VmError::NotImplemented { feature: f, module } && f@ == feature && module@ == "NetworkCompatibilityLayer"@
}

fn not_implemented(feature: &str) -> (e: VmError)
    ensures
        is_not_implemented(e, feature@),
{
    VmError::NotImplemented { feature: text(feature), module: text("NetworkCompatibilityLayer") }
}

impl SocketAddress {
    /// Reading a `sockaddr` from guest memory is not available: the answer
    /// is always a `NotImplemented` error.
    pub fn from_guest_memory(guest_arch: GuestArch, addr: GuestAddr, addr_len: u32) -> (r: Result<Self, VmError>)
        ensures
            r is Err && is_not_implemented(r->Err_0, "SocketAddress::from_guest_memory"@),
    {
        Err(not_implemented("SocketAddress::from_guest_memory"))
    }

    /// The host address of an IPv4 or IPv6 address.
    pub fn to_host_addr(&self) -> (r: Option<HostSocketAddr>)
        ensures
            r == match self@ {
                AddressView::Inet(a) | AddressView::Inet6(a) => Some(a),
                _ => None,
            },
    {
        match self {
            SocketAddress::Inet(a) | SocketAddress::Inet6(a) => Some(*a),
            _ => None,
        }
    }

    /// An equal copy.
    pub fn copy(&self) -> (c: Self)
        ensures
            c@ == self@,
    {
        match self {
            SocketAddress::Unix(p) => SocketAddress::Unix(p.clone()),
            SocketAddress::Inet(a) => SocketAddress::Inet(*a),
            SocketAddress::Inet6(a) => SocketAddress::Inet6(*a),
            SocketAddress::Netlink(n) => SocketAddress::Netlink(*n),
        }
    }
}

fn copy_opt_addr(a: &Option<SocketAddress>) -> (c: Option<SocketAddress>)
    ensures
        opt_addr_view(c) == opt_addr_view(*a),
{
    match a {
        Some(x) => Some(x.copy()),
        None => None,
    }
}

/// A socket of the guest and the options set on it.
#[derive(Debug)]
pub struct SocketInfo {
    pub fd: i32,
    pub domain: SocketDomain,
    pub socket_type: SocketType,
    pub protocol: SocketProtocol,
    pub local_addr: Option<SocketAddress>,
    pub remote_addr: Option<SocketAddress>,
    /// ((level, option), value), one entry per option.
    pub options: Vec<((SocketOptionLevel, SocketOption), Vec<u8>)>,
}

pub struct SocketView {
    pub fd: i32,
    pub domain: SocketDomain,
    pub socket_type: SocketType,
    pub protocol: SocketProtocol,
    pub local_addr: Option<AddressView>,
    pub remote_addr: Option<AddressView>,
    pub options: Seq<((SocketOptionLevel, SocketOption), Seq<u8>)>,
}

pub open spec fn options_view(o: Seq<((SocketOptionLevel, SocketOption), Vec<u8>)>) -> Seq<((SocketOptionLevel, SocketOption), Seq<u8>)> {
    o.map_values(|e: ((SocketOptionLevel, SocketOption), Vec<u8>)| (e.0, e.1@))
}

impl View for SocketInfo {
    type V = SocketView;

    open spec fn view(&self) -> SocketView {
        SocketView {
            fd: self.fd,
            domain: self.domain,
            socket_type: self.socket_type,
            protocol: self.protocol,
            local_addr: opt_addr_view(self.local_addr),
            remote_addr: opt_addr_view(self.remote_addr),
            options: options_view(self.options@),
        }
    }
}

/// The operations of a host network stack that the layer uses.
pub trait NetworkStackOperations {
    fn socket(&mut self, domain: SocketDomain, socket_type: SocketType, protocol: SocketProtocol) -> Result<i32, VmError>;

    fn bind(&mut self, fd: i32, addr: SocketAddress) -> Result<(), VmError>;

    fn listen(&mut self, fd: i32, backlog: i32) -> Result<(), VmError>;

    fn accept(&mut self, fd: i32) -> Result<(i32, SocketAddress), VmError>;

    fn connect(&mut self, fd: i32, addr: SocketAddress) -> Result<(), VmError>;

    fn send(&mut self, fd: i32, buf: &[u8], flags: i32) -> Result<usize, VmError>;

    fn recv(&mut self, fd: i32, buf: &mut Vec<u8>, flags: i32) -> Result<usize, VmError>;

    fn sendto(&mut self, fd: i32, buf: &[u8], flags: i32, addr: SocketAddress) -> Result<usize, VmError>;

    fn recvfrom(&mut self, fd: i32, buf: &mut Vec<u8>, flags: i32) -> Result<(usize, SocketAddress), VmError>;

    fn close(&mut self, fd: i32) -> Result<(), VmError>;

    fn setsockopt(&mut self, fd: i32, level: SocketOptionLevel, opt: SocketOption, value: &[u8]) -> Result<(), VmError>;

    fn getsockopt(&mut self, fd: i32, level: SocketOptionLevel, opt: SocketOption) -> Result<Vec<u8>, VmError>;
}

/// A network stack that supports nothing but closing.
pub struct DefaultNetworkStackOperations;

impl NetworkStackOperations for DefaultNetworkStackOperations {
    fn socket(&mut self, domain: SocketDomain, socket_type: SocketType, protocol: SocketProtocol) -> (r: Result<i32, VmError>)
        ensures
            r is Err && is_not_implemented(r->Err_0, "DefaultNetworkStackOperations::socket"@),
    {
        Err(not_implemented("DefaultNetworkStackOperations::socket"))
    }

    fn bind(&mut self, fd: i32, addr: SocketAddress) -> (r: Result<(), VmError>)
        ensures
            r is Err && is_not_implemented(r->Err_0, "DefaultNetworkStackOperations::bind"@),
    {
        Err(not_implemented("DefaultNetworkStackOperations::bind"))
    }

    fn listen(&mut self, fd: i32, backlog: i32) -> (r: Result<(), VmError>)
        ensures
            r is Err && is_not_implemented(r->Err_0, "DefaultNetworkStackOperations::listen"@),
    {
        Err(not_implemented("DefaultNetworkStackOperations::listen"))
    }

    fn accept(&mut self, fd: i32) -> (r: Result<(i32, SocketAddress), VmError>)
        ensures
            r is Err && is_not_implemented(r->Err_0, "DefaultNetworkStackOperations::accept"@),
    {
        Err(not_implemented("DefaultNetworkStackOperations::accept"))
    }

    fn connect(&mut self, fd: i32, addr: SocketAddress) -> (r: Result<(), VmError>)
        ensures
            r is Err && is_not_implemented(r->Err_0, "DefaultNetworkStackOperations::connect"@),
    {
        Err(not_implemented("DefaultNetworkStackOperations::connect"))
    }

    fn send(&mut self, fd: i32, buf: &[u8], flags: i32) -> (r: Result<usize, VmError>)
        ensures
            r is Err && is_not_implemented(r->Err_0, "DefaultNetworkStackOperations::send"@),
    {
        Err(not_implemented("DefaultNetworkStackOperations::send"))
    }

    fn recv(&mut self, fd: i32, buf: &mut Vec<u8>, flags: i32) -> (r: Result<usize, VmError>)
        ensures
            r is Err && is_not_implemented(r->Err_0, "DefaultNetworkStackOperations::recv"@),
            *final(buf) == *old(buf),
    {
        Err(not_implemented("DefaultNetworkStackOperations::recv"))
    }

    fn sendto(&mut self, fd: i32, buf: &[u8], flags: i32, addr: SocketAddress) -> (r: Result<usize, VmError>)
        ensures
            r is Err && is_not_implemented(r->Err_0, "DefaultNetworkStackOperations::sendto"@),
    {
        Err(not_implemented("DefaultNetworkStackOperations::sendto"))
    }

    fn recvfrom(&mut self, fd: i32, buf: &mut Vec<u8>, flags: i32) -> (r: Result<(usize, SocketAddress), VmError>)
        ensures
            r is Err && is_not_implemented(r->Err_0, "DefaultNetworkStackOperations::recvfrom"@),
            *final(buf) == *old(buf),
    {
        Err(not_implemented("DefaultNetworkStackOperations::recvfrom"))
    }

    fn close(&mut self, fd: i32) -> (r: Result<(), VmError>)
        ensures
            r is Ok,
    {
        Ok(())
    }

    fn setsockopt(&mut self, fd: i32, level: SocketOptionLevel, opt: SocketOption, value: &[u8]) -> (r: Result<(), VmError>)
        ensures
            r is Err && is_not_implemented(r->Err_0, "DefaultNetworkStackOperations::setsockopt"@),
    {
        Err(not_implemented("DefaultNetworkStackOperations::setsockopt"))
    }

    fn getsockopt(&mut self, fd: i32, level: SocketOptionLevel, opt: SocketOption) -> (r: Result<Vec<u8>, VmError>)
        ensures
            r is Err && is_not_implemented(r->Err_0, "DefaultNetworkStackOperations::getsockopt"@),
    {
        Err(not_implemented("DefaultNetworkStackOperations::getsockopt"))
    }
}

/// The guest's sockets over a host network stack, and the decoders of the
/// socket arguments.
pub struct NetworkCompatibilityLayer {
    guest_arch: GuestArch,
    sockets: Vec<(i32, SocketInfo)>,
    next_fd: i32,
    net_ops: Box<dyn NetworkStackOperations>,
}

pub struct NetView {
    pub guest_arch: GuestArch,
    /// (descriptor, socket) in the order created.
    pub sockets: Seq<(i32, SocketView)>,
    pub next_fd: i32,
}

pub open spec fn sockets_view(v: Seq<(i32, SocketInfo)>) -> Seq<(i32, SocketView)> {
    v.map_values(|e: (i32, SocketInfo)| (e.0, e.1@))
}

impl View for NetworkCompatibilityLayer {
    type V = NetView;

    closed spec fn view(&self) -> NetView {
        NetView { guest_arch: self.guest_arch, sockets: sockets_view(self.sockets@), next_fd: self.next_fd }
    }
}

/// The socket table after a socket of the given kind got descriptor `fd`.
pub open spec fn fresh_socket(fd: i32, domain: SocketDomain, socket_type: SocketType, protocol: SocketProtocol) -> SocketView {
    SocketView { fd, domain, socket_type, protocol, local_addr: None, remote_addr: None, options: Seq::empty() }
}

/// The position of `fd` in the table, where it has one.
fn find_socket(v: &Vec<(i32, SocketInfo)>, fd: i32) -> (r: Option<usize>)
    requires
        unique(sockets_view(v@)),
    ensures
        match r {
            Some(i) => i < v@.len() && has_key(sockets_view(v@), fd) && pos(sockets_view(v@), fd) == i,
            None => !has_key(sockets_view(v@), fd),
        },
{
    let ghost t = sockets_view(v@);
    let mut i: usize = 0;
    while i < v.len()
        invariant
            i <= v@.len(),
            t == sockets_view(v@),
            unique(t),
            forall|j: int| 0 <= j < i ==> (#[trigger] t[j]).0 != fd,
        decreases v.len() - i,
    {
        assert(t[i as int].0 == v@[i as int].0);
        if v[i].0 == fd {
            proof {
                lemma_pos(t, i as int);
            }
            return Some(i);
        }
        i += 1;
    }
    None
}

/// The position of option `key`, where it is set.
fn find_option(v: &Vec<((SocketOptionLevel, SocketOption), Vec<u8>)>, key: (SocketOptionLevel, SocketOption)) -> (r: Option<usize>)
    requires
        unique(options_view(v@)),
    ensures
        match r {
            Some(i) => i < v@.len() && has_key(options_view(v@), key) && pos(options_view(v@), key) == i,
            None => !has_key(options_view(v@), key),
        },
{
    let ghost t = options_view(v@);
    let mut i: usize = 0;
    while i < v.len()
        invariant
            i <= v@.len(),
            t == options_view(v@),
            unique(t),
            forall|j: int| 0 <= j < i ==> (#[trigger] t[j]).0 != key,
        decreases v.len() - i,
    {
        assert(t[i as int].0 == v@[i as int].0);
        if v[i].0.0 == key.0 && v[i].0.1 == key.1 {
            proof {
                lemma_pos(t, i as int);
            }
            return Some(i);
        }
        i += 1;
    }
    None
}

fn copy_bytes(b: &[u8]) -> (v: Vec<u8>)
    ensures
        v@ == b@,
{
    let mut v: Vec<u8> = Vec::new();
    let mut i: usize = 0;
    while i < b.len()
        invariant
            i <= b@.len(),
            v@ == b@.subrange(0, i as int),
        decreases b.len() - i,
    {
        v.push(b[i]);
        i += 1;
    }
    assert(b@.subrange(0, b@.len() as int) =~= b@);
    v
}

fn copy_options(o: &Vec<((SocketOptionLevel, SocketOption), Vec<u8>)>) -> (c: Vec<((SocketOptionLevel, SocketOption), Vec<u8>)>)
    ensures
        options_view(c@) == options_view(o@),
{
    let mut c: Vec<((SocketOptionLevel, SocketOption), Vec<u8>)> = Vec::new();
    let mut i: usize = 0;
    while i < o.len()
        invariant
            i <= o@.len(),
            options_view(c@) == options_view(o@).subrange(0, i as int),
        decreases o.len() - i,
    {
        let v = copy_bytes(o[i].1.as_slice());
        assert(v@ == o@[i as int].1@);
        assert(options_view(o@)[i as int] == (o@[i as int].0, o@[i as int].1@));
        let ghost before = c@;
        let entry = (o[i].0, v);
        c.push(entry);
        assert(c@ == before.push(entry));
        assert(options_view(c@) =~= options_view(before).push((entry.0, entry.1@)));
        assert(options_view(c@) =~= options_view(o@).subrange(0, i + 1));
        i += 1;
    }
    assert(options_view(o@).subrange(0, o@.len() as int) =~= options_view(o@));
    c
}

impl NetworkCompatibilityLayer {
    /// The descriptors and the option keys of each socket are distinct.
    pub closed spec fn wf(&self) -> bool {
        &&& unique(self@.sockets)
        &&& forall|i: int| 0 <= i < self@.sockets.len() ==> unique(#[trigger] self@.sockets[i].1.options)
    }

    /// A layer for `guest_arch` over `net_ops`, with no socket.
    pub fn new(guest_arch: GuestArch, net_ops: Box<dyn NetworkStackOperations>) -> (l: Self)
        ensures
            l.wf(),
            l@ == (NetView { guest_arch, sockets: Seq::empty(), next_fd: 3 }),
    {
        let l = NetworkCompatibilityLayer { guest_arch, sockets: Vec::new(), next_fd: 3, net_ops };
        assert(l@.sockets =~= Seq::<(i32, SocketView)>::empty());
        l
    }

    /// Creates a socket from the guest's numbers; an invalid family or type
    /// is an `InvalidArgument` error (the family is checked first); a socket
    /// that the host creates enters the table.
    pub fn socket(&mut self, domain: u32, socket_type: u32, protocol: u32) -> (r: Result<i32, VmError>)
        requires
            old(self).wf(),
        ensures
            final(self).wf(),
            domain_of(domain) is None ==> r is Err && is_invalid_argument(r->Err_0, "domain"@, domain, "Invalid socket domain"@)
                && final(self)@ == old(self)@,
            domain_of(domain) is Some && type_of(socket_type) is None ==> r is Err && is_invalid_argument(
                r->Err_0,
                "socket_type"@,
                socket_type,
                "Invalid socket type"@,
            ) && final(self)@ == old(self)@,
            r matches Ok(fd) ==> domain_of(domain) is Some && type_of(socket_type) is Some && final(self)@ == (NetView {
                sockets: put(
                    old(self)@.sockets,
                    fd,
                    fresh_socket(fd, domain_of(domain)->0, type_of(socket_type)->0, protocol_of(protocol)),
                ),
                ..old(self)@
            }),
            r is Err ==> final(self)@ == old(self)@,
    {
        let d = Self::parse_domain(domain)?;
        let t = Self::parse_socket_type(socket_type)?;
        let p = Self::parse_protocol(protocol)?;
        let outcome = self.net_ops.socket(d, t, p);
        self.record_socket(d, t, p, outcome)
    }

    /// Takes in the host's answer `outcome` to creating a socket of `d`,
    /// `t` and `p`, and returns it as it is: a descriptor enters the table
    /// (in place of an entry it already had) as a socket with no address
    /// and no option; an error leaves the table as it was.
    pub fn record_socket(
        &mut self,
        d: SocketDomain,
        t: SocketType,
        p: SocketProtocol,
        outcome: Result<i32, VmError>,
    ) -> (r: Result<i32, VmError>)
        requires
            old(self).wf(),
        ensures
            final(self).wf(),
            r == outcome,
            final(self)@ == match outcome {
                Ok(fd) => NetView { sockets: put(old(self)@.sockets, fd, fresh_socket(fd, d, t, p)), ..old(self)@ },
                Err(_) => old(self)@,
            },
    {
        let fd = match outcome {
            Ok(fd) => fd,
            Err(e) => {
                return Err(e);
            },
        };
        let info = SocketInfo {
            fd,
            domain: d,
            socket_type: t,
            protocol: p,
            local_addr: None,
            remote_addr: None,
            options: Vec::new(),
        };
        assert(info@ == fresh_socket(fd, d, t, p)) by {
            assert(info@.options =~= Seq::<((SocketOptionLevel, SocketOption), Seq<u8>)>::empty());
        }
        self.insert_socket(fd, info);
        Ok(fd)
    }

    /// Enters `info` under `fd`.
    fn insert_socket(&mut self, fd: i32, info: SocketInfo)
        requires
            old(self).wf(),
            unique(info@.options),
        ensures
            final(self).wf(),
            final(self)@ == (NetView { sockets: put(old(self)@.sockets, fd, info@), ..old(self)@ }),
    {
        let ghost t = self@.sockets;
        let ghost iv = info@;
        proof {
            lemma_put(t, fd, iv);
        }
        match find_socket(&self.sockets, fd) {
            Some(i) => {
                self.sockets.set(i, (fd, info));
                assert(self@.sockets =~= put(t, fd, iv));
            },
            None => {
                self.sockets.push((fd, info));
                assert(self@.sockets =~= put(t, fd, iv));
            },
        }
        proof {
            let n = self@.sockets;
            assert forall|i: int| 0 <= i < n.len() implies unique(#[trigger] n[i].1.options) by {
                lemma_pos(n, i);
                if n[i].0 != fd {
                    assert(get(n, n[i].0) == get(t, n[i].0));
                    let q = pos(t, n[i].0);
                    assert(unique(t[q].1.options));
                } else {
                    assert(get(n, fd) == Some(iv));
                }
            }
        }
    }

    /// Binds a socket to an address in guest memory; reading it is not
    /// available, so the answer is that `NotImplemented` error.
    pub fn bind(&mut self, fd: i32, addr: GuestAddr, addr_len: u32) -> (r: Result<(), VmError>)
        ensures
            r is Err && is_not_implemented(r->Err_0, "SocketAddress::from_guest_memory"@),
            final(self)@ == old(self)@,
    {
        let a = SocketAddress::from_guest_memory(self.guest_arch, addr, addr_len)?;
        self.net_ops.bind(fd, a)
    }

    /// Listens on a socket of the host.
    pub fn listen(&mut self, fd: i32, backlog: i32) -> (r: Result<(), VmError>)
        ensures
            final(self)@ == old(self)@,
    {
        self.net_ops.listen(fd, backlog)
    }

    /// Accepts a connection on `fd`: the network stack is handed `fd`, and
    /// its answer goes to `record_accept`. Whether the host accepts one is
    /// the stack's to say.
    pub fn accept(&mut self, fd: i32, addr: GuestAddr, addr_len: &mut u32) -> (r: Result<i32, VmError>)
        requires
            old(self).wf(),
        ensures
            final(self).wf(),
            r is Err ==> final(self)@ == old(self)@,
            r matches Ok(new_fd) ==> match get(old(self)@.sockets, fd) {
                Some(parent) => get(final(self)@.sockets, new_fd) matches Some(v) && v.remote_addr is Some && v == (SocketView {
                    fd: new_fd,
                    remote_addr: v.remote_addr,
                    ..parent
                }) && final(self)@ == (NetView { sockets: put(old(self)@.sockets, new_fd, v), ..old(self)@ }),
                None => final(self)@ == old(self)@,
            },
    {
        let outcome = self.net_ops.accept(fd);
        let ghost before = self@.sockets;
        let ghost answer = outcome;
        let r = self.record_accept(fd, outcome);
        proof {
            if let Ok((new_fd, remote)) = answer {
                if let Some(parent) = get(before, fd) {
                    lemma_put(before, new_fd, SocketView { fd: new_fd, remote_addr: Some(remote@), ..parent });
                }
            }
        }
        r
    }

    /// Takes in the host's answer `outcome` to accepting on `fd` and returns
    /// the new descriptor, or the host's error as it is. Where the host
    /// accepted a connection and `fd` is in the table, the new socket enters
    /// it with the listening socket's kind, local address and options and
    /// the peer as remote address; otherwise the table stays.
    pub fn record_accept(&mut self, fd: i32, outcome: Result<(i32, SocketAddress), VmError>) -> (r: Result<i32, VmError>)
        requires
            old(self).wf(),
        ensures
            final(self).wf(),
            match outcome {
                Ok((new_fd, remote)) => r == Ok::<i32, VmError>(new_fd) && final(self)@ == match get(old(self)@.sockets, fd) {
                    Some(parent) => NetView {
                        sockets: put(
                            old(self)@.sockets,
                            new_fd,
                            SocketView { fd: new_fd, remote_addr: Some(remote@), ..parent },
                        ),
                        ..old(self)@
                    },
                    None => old(self)@,
                },
                Err(e) => r == Err::<i32, VmError>(e) && final(self)@ == old(self)@,
            },
    {
        let (new_fd, remote) = match outcome {
            Ok(p) => p,
            Err(e) => {
                return Err(e);
            },
        };
        let ghost rv = remote@;
        match find_socket(&self.sockets, fd) {
            Some(i) => {
                let ghost t = self@.sockets;
                proof {
                    lemma_pos(t, i as int);
                    assert(t[i as int] == (self.sockets@[i as int].0, self.sockets@[i as int].1@));
                    assert(unique(t[i as int].1.options));
                }
                let parent = &self.sockets[i].1;
                let info = SocketInfo {
                    fd: new_fd,
                    domain: parent.domain,
                    socket_type: parent.socket_type,
                    protocol: parent.protocol,
                    local_addr: copy_opt_addr(&parent.local_addr),
                    remote_addr: Some(remote),
                    options: copy_options(&parent.options),
                };
                assert(info@ == SocketView { fd: new_fd, remote_addr: Some(rv), ..t[i as int].1 });
                let ghost iv = info@;
                self.insert_socket(new_fd, info);
                proof {
                    lemma_put(t, new_fd, iv);
                }
            },
            None => {},
        }
        Ok(new_fd)
    }

    /// Connects a socket to an address in guest memory; reading it is not
    /// available, so the answer is that `NotImplemented` error.
    pub fn connect(&mut self, fd: i32, addr: GuestAddr, addr_len: u32) -> (r: Result<(), VmError>)
        ensures
            r is Err && is_not_implemented(r->Err_0, "SocketAddress::from_guest_memory"@),
            final(self)@ == old(self)@,
    {
        let a = SocketAddress::from_guest_memory(self.guest_arch, addr, addr_len)?;
        self.net_ops.connect(fd, a)
    }

    /// Sends on a socket of the host.
    pub fn send(&mut self, fd: i32, buf: &[u8], flags: i32) -> (r: Result<usize, VmError>)
        ensures
            final(self)@ == old(self)@,
    {
        self.net_ops.send(fd, buf, flags)
    }

    /// Receives on a socket of the host.
    pub fn recv(&mut self, fd: i32, buf: &mut Vec<u8>, flags: i32) -> (r: Result<usize, VmError>)
        ensures
            final(self)@ == old(self)@,
    {
        self.net_ops.recv(fd, buf, flags)
    }

    /// Sends to an address in guest memory; reading it is not available,
    /// so the answer is that `NotImplemented` error.
    pub fn sendto(&mut self, fd: i32, buf: &[u8], flags: i32, addr: GuestAddr, addr_len: u32) -> (r: Result<usize, VmError>)
        ensures
            r is Err && is_not_implemented(r->Err_0, "SocketAddress::from_guest_memory"@),
            final(self)@ == old(self)@,
    {
        let a = SocketAddress::from_guest_memory(self.guest_arch, addr, addr_len)?;
        self.net_ops.sendto(fd, buf, flags, a)
    }

    /// Receives on a socket of the host; the sender's address is not
    /// passed on.
    pub fn recvfrom(&mut self, fd: i32, buf: &mut Vec<u8>, flags: i32, addr: GuestAddr, addr_len: &mut u32) -> (r: Result<usize, VmError>)
        ensures
            final(self)@ == old(self)@,
    {
        let (size, _remote) = self.net_ops.recvfrom(fd, buf, flags)?;
        Ok(size)
    }

    /// Closes a socket of the host: the network stack is handed `fd`, and
    /// its answer goes to `record_close`. Whether the host closes it is the
    /// stack's to say.
    pub fn close(&mut self, fd: i32) -> (r: Result<(), VmError>)
        requires
            old(self).wf(),
        ensures
            final(self).wf(),
            r is Ok ==> final(self)@ == (NetView { sockets: remove_key(old(self)@.sockets, fd), ..old(self)@ }),
            r is Err ==> final(self)@ == old(self)@,
    {
        let outcome = self.net_ops.close(fd);
        self.record_close(fd, outcome)
    }

    /// Takes in the host's answer `outcome` to closing `fd`, and returns it
    /// as it is: where the host closed it, `fd` leaves the table; otherwise
    /// the table stays.
    pub fn record_close(&mut self, fd: i32, outcome: Result<(), VmError>) -> (r: Result<(), VmError>)
        requires
            old(self).wf(),
        ensures
            final(self).wf(),
            r == outcome,
            final(self)@ == if outcome is Ok {
                NetView { sockets: remove_key(old(self)@.sockets, fd), ..old(self)@ }
            } else {
                old(self)@
            },
    {
        let done = match outcome {
            Ok(done) => done,
            Err(e) => {
                return Err(e);
            },
        };
        let ghost t = self@.sockets;
        proof {
            lemma_remove_key(t, fd);
        }
        match find_socket(&self.sockets, fd) {
            Some(i) => {
                self.sockets.remove(i);
                assert(self@.sockets =~= t.remove(i as int));
                proof {
                    let n = self@.sockets;
                    assert forall|j: int| 0 <= j < n.len() implies unique(#[trigger] n[j].1.options) by {
                        if j < i {
                            assert(n[j] == t[j]);
                        } else {
                            assert(n[j] == t[j + 1]);
                        }
                    }
                }
            },
            None => {},
        }
        Ok(done)
    }

    /// Sets an option from the guest's numbers; an invalid level or option
    /// is an `InvalidArgument` error (the level is checked first); where the
    /// host sets it and `fd` is in the table, the socket records the value.
    pub fn setsockopt(&mut self, fd: i32, level: u32, opt: u32, value: &[u8]) -> (r: Result<(), VmError>)
        requires
            old(self).wf(),
        ensures
            final(self).wf(),
            level_of(level) is None ==> r is Err && is_invalid_argument(r->Err_0, "level"@, level, "Invalid socket option level"@),
            level_of(level) is Some && option_of(opt) is None ==> r is Err && is_invalid_argument(
                r->Err_0,
                "opt"@,
                opt,
                "Invalid socket option"@,
            ),
            r is Err ==> final(self)@ == old(self)@,
            r is Ok ==> level_of(level) is Some && option_of(opt) is Some && final(self)@ == match get(old(self)@.sockets, fd) {
                Some(s) => NetView {
                    sockets: put(
                        old(self)@.sockets,
                        fd,
                        SocketView { options: put(s.options, (level_of(level)->0, option_of(opt)->0), value@), ..s },
                    ),
                    ..old(self)@
                },
                None => old(self)@,
            },
    {
        let l = Self::parse_option_level(level)?;
        let o = Self::parse_option(opt)?;
        let outcome = self.net_ops.setsockopt(fd, l, o, value);
        self.record_setsockopt(fd, l, o, value, outcome)
    }

    /// Takes in the host's answer `outcome` to setting option `(l, o)` of
    /// `fd` to `value`, and returns it as it is: where the host set it and
    /// `fd` is in the table, the socket records the value (in place of one
    /// it had); otherwise the table stays.
    pub fn record_setsockopt(
        &mut self,
        fd: i32,
        l: SocketOptionLevel,
        o: SocketOption,
        value: &[u8],
        outcome: Result<(), VmError>,
    ) -> (r: Result<(), VmError>)
        requires
            old(self).wf(),
        ensures
            final(self).wf(),
            r == outcome,
            final(self)@ == if outcome is Ok {
                match get(old(self)@.sockets, fd) {
                    Some(s) => NetView {
                        sockets: put(old(self)@.sockets, fd, SocketView { options: put(s.options, (l, o), value@), ..s }),
                        ..old(self)@
                    },
                    None => old(self)@,
                }
            } else {
                old(self)@
            },
    {
        let done = match outcome {
            Ok(done) => done,
            Err(e) => {
                return Err(e);
            },
        };
        let ghost t = self@.sockets;
        match find_socket(&self.sockets, fd) {
            Some(i) => {
                proof {
                    lemma_pos(t, i as int);
                    assert(t[i as int] == (self.sockets@[i as int].0, self.sockets@[i as int].1@));
                    assert(unique(t[i as int].1.options));
                }
                let (k, mut info) = self.sockets.remove(i);
                let ghost before = info@;
                let v = copy_bytes(value);
                let ghost ov = options_view(info.options@);
                proof {
                    lemma_put(ov, (l, o), value@);
                }
                match find_option(&info.options, (l, o)) {
                    Some(j) => {
                        info.options.set(j, ((l, o), v));
                    },
                    None => {
                        info.options.push(((l, o), v));
                    },
                }
                assert(options_view(info.options@) =~= put(ov, (l, o), value@));
                let ghost iv = info@;
                self.sockets.insert(i, (k, info));
                proof {
                    assert(self@.sockets =~= t.update(i as int, (fd, iv)));
                    lemma_put(t, fd, iv);
                    let n = self@.sockets;
                    assert forall|j: int| 0 <= j < n.len() implies unique(#[trigger] n[j].1.options) by {
                        if j != i {
                            assert(n[j] == t[j]);
                        }
                    }
                }
            },
            None => {},
        }
        Ok(done)
    }

    /// Reads an option from the guest's numbers; an invalid level or option
    /// is an `InvalidArgument` error (the level is checked first).
    pub fn getsockopt(&mut self, fd: i32, level: u32, opt: u32) -> (r: Result<Vec<u8>, VmError>)
        ensures
            final(self)@ == old(self)@,
            level_of(level) is None ==> r is Err && is_invalid_argument(r->Err_0, "level"@, level, "Invalid socket option level"@),
            level_of(level) is Some && option_of(opt) is None ==> r is Err && is_invalid_argument(
                r->Err_0,
                "opt"@,
                opt,
                "Invalid socket option"@,
            ),
    {
        let l = Self::parse_option_level(level)?;
        let o = Self::parse_option(opt)?;
        self.net_ops.getsockopt(fd, l, o)
    }

    /// The table entry of `fd`.
    pub fn socket_info(&self, fd: i32) -> (r: Option<SocketInfo>)
        requires
            self.wf(),
        ensures
            match r {
                Some(s) => get(self@.sockets, fd) == Some(s@),
                None => get(self@.sockets, fd) is None,
            },
    {
        match find_socket(&self.sockets, fd) {
            Some(i) => {
                assert(self@.sockets[i as int] == (self.sockets@[i as int].0, self.sockets@[i as int].1@));
                let s = &self.sockets[i].1;
                Some(SocketInfo {
                    fd: s.fd,
                    domain: s.domain,
                    socket_type: s.socket_type,
                    protocol: s.protocol,
                    local_addr: copy_opt_addr(&s.local_addr),
                    remote_addr: copy_opt_addr(&s.remote_addr),
                    options: copy_options(&s.options),
                })
            },
            None => None,
        }
    }

    /// The address family numbered `domain`, or an `InvalidArgument` error.
    pub fn parse_domain(domain: u32) -> (r: Result<SocketDomain, VmError>)
        ensures
            match domain_of(domain) {
                Some(d) => r == Ok::<SocketDomain, VmError>(d),
                None => r is Err && is_invalid_argument(r->Err_0, "domain"@, domain, "Invalid socket domain"@),
            },
    {
        if domain == 1 {
            Ok(SocketDomain::Unix)
        } else if domain == 2 {
            Ok(SocketDomain::Inet)
        } else if domain == 10 {
            Ok(SocketDomain::Inet6)
        } else if domain == 16 {
            Ok(SocketDomain::Netlink)
        } else {
            Err(invalid_argument("domain", domain, "Invalid socket domain"))
        }
    }

    /// The socket type numbered `socket_type`, or an `InvalidArgument` error.
    pub fn parse_socket_type(socket_type: u32) -> (r: Result<SocketType, VmError>)
        ensures
            match type_of(socket_type) {
                Some(t) => r == Ok::<SocketType, VmError>(t),
                None => r is Err && is_invalid_argument(r->Err_0, "socket_type"@, socket_type, "Invalid socket type"@),
            },
    {
        if socket_type == 1 {
            Ok(SocketType::Stream)
        } else if socket_type == 2 {
            Ok(SocketType::Datagram)
        } else if socket_type == 3 {
            Ok(SocketType::Raw)
        } else if socket_type == 4 {
            Ok(SocketType::Rdm)
        } else if socket_type == 5 {
            Ok(SocketType::SeqPacket)
        } else if socket_type == 6 {
            Ok(SocketType::Dccp)
        } else {
            Err(invalid_argument("socket_type", socket_type, "Invalid socket type"))
        }
    }

    /// The protocol numbered `protocol`; never fails, unknown numbers mean
    /// IP.
    pub fn parse_protocol(protocol: u32) -> (r: Result<SocketProtocol, VmError>)
        ensures
            r == Ok::<SocketProtocol, VmError>(protocol_of(protocol)),
    {
        if protocol == 6 {
            Ok(SocketProtocol::Tcp)
        } else if protocol == 17 {
            Ok(SocketProtocol::Udp)
        } else if protocol == 1 {
            Ok(SocketProtocol::Icmp)
        } else if protocol == 58 {
            Ok(SocketProtocol::Icmpv6)
        } else {
            Ok(SocketProtocol::Ip)
        }
    }

    /// The option level numbered `level`, or an `InvalidArgument` error.
    pub fn parse_option_level(level: u32) -> (r: Result<SocketOptionLevel, VmError>)
        ensures
            match level_of(level) {
                Some(l) => r == Ok::<SocketOptionLevel, VmError>(l),
                None => r is Err && is_invalid_argument(r->Err_0, "level"@, level, "Invalid socket option level"@),
            },
    {
        if level == 1 {
            Ok(SocketOptionLevel::Socket)
        } else if level == 6 {
            Ok(SocketOptionLevel::Tcp)
        } else if level == 0 {
            Ok(SocketOptionLevel::Ip)
        } else if level == 41 {
            Ok(SocketOptionLevel::Ipv6)
        } else {
            Err(invalid_argument("level", level, "Invalid socket option level"))
        }
    }

    /// The option numbered `opt` (see `option_of`), or an `InvalidArgument`
    /// error.
    pub fn parse_option(opt: u32) -> (r: Result<SocketOption, VmError>)
        ensures
            match option_of(opt) {
                Some(o) => r == Ok::<SocketOption, VmError>(o),
                None => r is Err && is_invalid_argument(r->Err_0, "opt"@, opt, "Invalid socket option"@),
            },
    {
        if opt == 2 {
            Ok(SocketOption::ReuseAddr)
        } else if opt == 9 {
            Ok(SocketOption::KeepAlive)
        } else if opt == 6 {
            Ok(SocketOption::Broadcast)
        } else if opt == 13 {
            Ok(SocketOption::Linger)
        } else if opt == 7 {
            Ok(SocketOption::SendBuf)
        } else if opt == 8 {
            Ok(SocketOption::RecvBuf)
        } else if opt == 4 {
            Ok(SocketOption::Error)
        } else if opt == 3 {
            Ok(SocketOption::Type)
        } else if opt == 1 {
            Ok(SocketOption::TcpNoDelay)
        } else if opt == 5 {
            Ok(SocketOption::TcpKeepIntvl)
        } else {
            Err(invalid_argument("opt", opt, "Invalid socket option"))
        }
    }
}

/// Decoding a family's number gives the family back.
pub proof fn lemma_domain_round_trip(d: SocketDomain)
    ensures
        domain_of(domain_number(d)) == Some(d),
{
}

/// Decoding a type's number gives the type back.
pub proof fn lemma_type_round_trip(t: SocketType)
    ensures
        type_of(type_number(t)) == Some(t),
{
}

/// Decoding a protocol's number gives the protocol back.
pub proof fn lemma_protocol_round_trip(p: SocketProtocol)
    ensures
        protocol_of(protocol_number(p)) == p,
{
}

/// Decoding a level's number gives the level back.
pub proof fn lemma_level_round_trip(l: SocketOptionLevel)
    ensures
        level_of(level_number(l)) == Some(l),
{
}

/// Decoding an option's number gives the option back, except for the
/// TCP options whose numbers a socket-level option also has
/// (`TcpKeepIdle` reads as `Error`, `TcpKeepCnt` as `Broadcast`).
pub proof fn lemma_option_round_trip(o: SocketOption)
    requires
        o != SocketOption::TcpKeepIdle,
        o != SocketOption::TcpKeepCnt,
    ensures
        option_of(option_number(o)) == Some(o),
{
}

} // verus!
