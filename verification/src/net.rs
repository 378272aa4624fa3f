//! The sockets as the system calls see them, IPv4 socket addresses in
//! their wire layout, and the ephemeral port counter.

use vstd::prelude::*;
use crate::errno::{EAFNOSUPPORT, EINVAL};

verus! {

pub const AF_UNIX: i32 = 1;
pub const AF_INET: i32 = 2;
pub const SOCK_STREAM: i32 = 1;
pub const SOCK_DGRAM: i32 = 2;
pub const SOCK_SEQPACKET: i32 = 5;
pub const SOCK_TYPE_MASK: i32 = 0xf;
pub const SOCK_NONBLOCK: i32 = 0x800;
pub const SOCK_CLOEXEC: i32 = 0x80000;

/// The size of a `sockaddr_in`.
pub const SOCKADDR_IN_LEN: u32 = 16;

pub const EPHEMERAL_PORT_START: u16 = 49152;
pub const EPHEMERAL_PORT_END: u16 = 65535;

/// An IPv4 address and port; `addr` holds the four octets, the first one
/// in the high byte.
#[derive(Clone, Copy, Debug, PartialEq, Eq, Structural)]
pub struct Endpoint {
    pub addr: u32,
    pub port: u16,
}

pub const INADDR_ANY: u32 = 0;
pub const INADDR_LOOPBACK: u32 = 0x7f00_0001;
/// The address of the first network interface (10.0.2.15).
pub const DEFAULT_LOCAL_ADDR: u32 = 0x0a00_020f;

/// 127.0.0.0/8.
pub open spec fn is_loopback(addr: u32) -> bool {
    addr / 0x100_0000 == 127
}

#[derive(Clone, Copy, Debug, PartialEq, Eq, Structural)]
pub enum SockProto {
    Tcp,
    Udp,
    Unix,
}

/// The states of a TCP socket that the system calls tell apart.
#[derive(Clone, Copy, Debug, PartialEq, Eq, Structural)]
pub enum TcpState {
    Closed,
    Listen,
    SynSent,
    SynReceived,
    Established,
    CloseWait,
    Closing,
}

/// Socket options.
#[derive(Clone, Copy, Debug, PartialEq, Eq, Structural)]
pub struct SockOpts {
    pub reuse_addr: bool,
    pub reuse_port: bool,
    pub keepalive: bool,
    pub send_buffer_size: usize,
    pub recv_buffer_size: usize,
    pub tcp_nodelay: bool,
    pub tcp_maxseg: usize,
    pub ipv6_v6only: bool,
}

pub const DEFAULT_BUFFER_SIZE: usize = 65536;
pub const DEFAULT_MAXSEG: usize = 1460;

impl SockOpts {
    pub open spec fn spec_default() -> SockOpts {
        SockOpts {
            reuse_addr: false,
            reuse_port: false,
            keepalive: false,
            send_buffer_size: DEFAULT_BUFFER_SIZE,
            recv_buffer_size: DEFAULT_BUFFER_SIZE,
            tcp_nodelay: false,
            tcp_maxseg: DEFAULT_MAXSEG,
            ipv6_v6only: false,
        }
    }

    pub fn default_opts() -> (o: SockOpts)
        ensures
            o == SockOpts::spec_default(),
    {
        SockOpts {
            reuse_addr: false,
            reuse_port: false,
            keepalive: false,
            send_buffer_size: DEFAULT_BUFFER_SIZE,
            recv_buffer_size: DEFAULT_BUFFER_SIZE,
            tcp_nodelay: false,
            tcp_maxseg: DEFAULT_MAXSEG,
            ipv6_v6only: false,
        }
    }
}

/// One socket: what its file records (the endpoints it was bound or
/// connected to, whether it listens, its backlog, shutdown and options)
/// and what the network stack reports of it (its TCP state and the
/// endpoints of the connection), kept up to date by the caller.
#[derive(Clone, Copy, Debug, PartialEq, Eq, Structural)]
pub struct Socket {
    pub proto: SockProto,
    pub local: Option<Endpoint>,
    pub remote: Option<Endpoint>,
    pub stack_local: Option<Endpoint>,
    pub stack_remote: Option<Endpoint>,
    pub tcp: TcpState,
    pub listener: bool,
    pub backlog: usize,
    pub shut_rd: bool,
    pub shut_wr: bool,
    pub opts: SockOpts,
}

impl Socket {
    pub open spec fn spec_new(proto: SockProto) -> Socket {
        Socket {
            proto,
            local: None,
            remote: None,
            stack_local: None,
            stack_remote: None,
            tcp: TcpState::Closed,
            listener: false,
            backlog: 0,
            shut_rd: false,
            shut_wr: false,
            opts: SockOpts::spec_default(),
        }
    }

    pub fn new(proto: SockProto) -> (s: Socket)
        ensures
            s == Socket::spec_new(proto),
    {
        Socket {
            proto,
            local: None,
            remote: None,
            stack_local: None,
            stack_remote: None,
            tcp: TcpState::Closed,
            listener: false,
            backlog: 0,
            shut_rd: false,
            shut_wr: false,
            opts: SockOpts::default_opts(),
        }
    }
}

/// All sockets, by id; for each listening socket the connections that
/// completed or are completing their handshake, oldest first; the next
/// ephemeral port; and the IPv4 addresses of the network interfaces.
pub struct NetState {
    pub sockets: Vec<Socket>,
    pub accept_queue: Vec<Vec<u64>>,
    pub next_port: u16,
    pub local_addrs: Vec<u32>,
}

impl NetState {
    pub open spec fn wf(&self) -> bool {
        &&& EPHEMERAL_PORT_START <= self.next_port
        &&& self.accept_queue@.len() == self.sockets@.len()
        &&& self.sockets@.len() < u64::MAX
    }

    pub open spec fn socket(&self, id: u64) -> Option<Socket> {
        if id < self.sockets@.len() { Some(self.sockets@[id as int]) } else { None }
    }

    /// No sockets; interfaces with addresses `local_addrs`.
    pub fn new(local_addrs: Vec<u32>) -> (n: NetState)
        ensures
            n.wf(),
            n.sockets@.len() == 0,
            n.next_port == EPHEMERAL_PORT_START,
            n.local_addrs@ == local_addrs@,
    {
        NetState { sockets: Vec::new(), accept_queue: Vec::new(), next_port: EPHEMERAL_PORT_START, local_addrs }
    }

    /// The next ephemeral port: the counter moves through 49152..=65535
    /// and wraps back to 49152.
    pub fn alloc_ephemeral_port(&mut self) -> (p: u16)
        requires
            old(self).wf(),
        ensures
            final(self).wf(),
            p == old(self).next_port,
            final(self).next_port == next_ephemeral(old(self).next_port),
            final(self).sockets == old(self).sockets,
            final(self).accept_queue == old(self).accept_queue,
            final(self).local_addrs == old(self).local_addrs,
    {
        let p = self.next_port;
        self.next_port = if p == EPHEMERAL_PORT_END { EPHEMERAL_PORT_START } else { p + 1 };
        p
    }

    /// Files a new socket and returns its id.
    pub fn add_socket(&mut self, s: Socket) -> (id: u64)
        requires
            old(self).wf(),
            old(self).sockets@.len() + 1 < u64::MAX,
        ensures
            final(self).wf(),
            id == old(self).sockets@.len(),
            final(self).sockets@ == old(self).sockets@.push(s),
            final(self).accept_queue@.len() == old(self).accept_queue@.len() + 1,
            forall|i: int| 0 <= i < old(self).accept_queue@.len() ==> #[trigger] final(self).accept_queue@[i] == old(self).accept_queue@[i],
            final(self).accept_queue@[id as int]@ == Seq::<u64>::empty(),
            final(self).next_port == old(self).next_port,
            final(self).local_addrs == old(self).local_addrs,
    {
        let id = self.sockets.len() as u64;
        self.sockets.push(s);
        self.accept_queue.push(Vec::new());
        id
    }

    /// Replaces socket `id`.
    pub fn set_socket(&mut self, id: u64, s: Socket)
        requires
            old(self).wf(),
            id < old(self).sockets@.len(),
        ensures
            final(self).wf(),
            final(self).sockets@ == old(self).sockets@.update(id as int, s),
            final(self).accept_queue == old(self).accept_queue,
            final(self).next_port == old(self).next_port,
            final(self).local_addrs == old(self).local_addrs,
    {
        let _n = self.sockets.len();
        self.sockets.set(id as usize, s);
    }

    pub fn get_socket(&self, id: u64) -> (r: Option<Socket>)
        ensures
            r == self.socket(id),
    {
        if id < self.sockets.len() as u64 { Some(self.sockets[id as usize]) } else { None }
    }
}

/// The port after `p` in the ephemeral range.
pub open spec fn next_ephemeral(p: u16) -> u16 {
    if p == EPHEMERAL_PORT_END { EPHEMERAL_PORT_START } else { (p + 1) as u16 }
}

/// Every port the counter hands out lies in the ephemeral range, and so
/// does the next one.
pub proof fn lemma_ephemeral_in_range(p: u16)
    requires
        EPHEMERAL_PORT_START <= p,
    ensures
        EPHEMERAL_PORT_START <= p <= EPHEMERAL_PORT_END,
        EPHEMERAL_PORT_START <= next_ephemeral(p) <= EPHEMERAL_PORT_END,
{
}

/// The endpoint in a `sockaddr_in`: a length below 16 bytes is invalid, a
/// family other than `AF_INET` unsupported; the port and address are in
/// network byte order.
pub open spec fn sockaddr_in_of(b: Seq<u8>, addrlen: u32) -> Result<Endpoint, i32> {
    if addrlen < SOCKADDR_IN_LEN || b.len() < SOCKADDR_IN_LEN {
        Err(EINVAL)
    } else if b[0] as int + b[1] as int * 256 != AF_INET {
        Err(EAFNOSUPPORT)
    } else {
        Ok(Endpoint {
            addr: (b[4] as int * 0x100_0000 + b[5] as int * 0x1_0000 + b[6] as int * 0x100 + b[7] as int) as u32,
            port: (b[2] as int * 256 + b[3] as int) as u16,
        })
    }
}

pub fn parse_sockaddr_in(b: &Vec<u8>, addrlen: u32) -> (r: Result<Endpoint, i32>)
    ensures
        r == sockaddr_in_of(b@, addrlen),
{
    if addrlen < SOCKADDR_IN_LEN || b.len() < 16 {
        return Err(EINVAL);
    }
    if b[0] as u32 + b[1] as u32 * 256 != AF_INET as u32 {
        return Err(EAFNOSUPPORT);
    }
    let addr: u32 = b[4] as u32 * 0x100_0000 + b[5] as u32 * 0x1_0000 + b[6] as u32 * 0x100 + b[7] as u32;
    let port: u16 = b[2] as u16 * 256 + b[3] as u16;
    Ok(Endpoint { addr, port })
}

/// The family in the first two bytes of a socket address; `EINVAL` for
/// fewer than two bytes.
pub open spec fn sockaddr_family_of(b: Seq<u8>, addrlen: u32) -> Result<u16, i32> {
    if addrlen < 2 || b.len() < 2 {
        Err(EINVAL)
    } else {
        Ok((b[0] as int + b[1] as int * 256) as u16)
    }
}

pub fn read_sockaddr_family(b: &Vec<u8>, addrlen: u32) -> (r: Result<u16, i32>)
    ensures
        r == sockaddr_family_of(b@, addrlen),
{
    if addrlen < 2 || b.len() < 2 {
        return Err(EINVAL);
    }
    Ok(b[0] as u16 + b[1] as u16 * 256)
}

/// The 16 bytes of a `sockaddr_in` for `ep`.
pub open spec fn sockaddr_in_bytes(ep: Endpoint) -> Seq<u8> {
    seq![AF_INET as u8, 0u8,
        (ep.port / 256) as u8, (ep.port % 256) as u8,
        (ep.addr / 0x100_0000) as u8, ((ep.addr / 0x1_0000) % 256) as u8,
        ((ep.addr / 0x100) % 256) as u8, (ep.addr % 256) as u8,
        0u8, 0u8, 0u8, 0u8, 0u8, 0u8, 0u8, 0u8]
}

pub fn make_sockaddr_in(ep: Endpoint) -> (b: Vec<u8>)
    ensures
        b@ == sockaddr_in_bytes(ep),
{
    let a = ep.addr;
    let p = ep.port;
    let v: Vec<u8> = vec![AF_INET as u8, 0u8,
        (p / 256) as u8, (p % 256) as u8,
        (a / 0x100_0000) as u8, ((a / 0x1_0000) % 256) as u8,
        ((a / 0x100) % 256) as u8, (a % 256) as u8,
        0u8, 0u8, 0u8, 0u8, 0u8, 0u8, 0u8, 0u8];
    proof {
        assert(v@ =~= sockaddr_in_bytes(ep));
    }
    v
}

/// What writing `ep` to a caller buffer of `user_len` bytes copies: the
/// address truncated to the buffer; the length word becomes the bytes
/// copied.
pub fn write_sockaddr_in(ep: Endpoint, user_len: u32) -> (r: (Vec<u8>, u32))
    ensures
        r.0@ == sockaddr_in_bytes(ep).take(if user_len < 16 { user_len as int } else { 16 }),
        r.1 == if user_len < 16 { user_len } else { 16 },
{
    let full = make_sockaddr_in(ep);
    let n: usize = if user_len < 16 { user_len as usize } else { 16 };
    let mut out: Vec<u8> = Vec::new();
    let mut i: usize = 0;
    while i < n
        invariant
            n <= 16,
            full@ == sockaddr_in_bytes(ep),
            i <= n,
            out@ == full@.take(i as int),
        decreases n - i,
    {
        out.push(full[i]);
        i = i + 1;
        proof {
            assert(out@ =~= full@.take(i as int));
        }
    }
    (out, n as u32)
}

/// An address a socket may be bound to: any, loopback, or one of the
/// interfaces' addresses.
pub open spec fn local_bind_address(addr: u32, local_addrs: Seq<u32>) -> bool {
    addr == INADDR_ANY || is_loopback(addr) || local_addrs.contains(addr)
}

pub fn is_local_bind_address(addr: u32, local_addrs: &Vec<u32>) -> (r: bool)
    ensures
        r == local_bind_address(addr, local_addrs@),
{
    if addr == INADDR_ANY || addr / 0x100_0000 == 127 {
        return true;
    }
    let mut i: usize = 0;
    while i < local_addrs.len()
        invariant
            i <= local_addrs@.len(),
            forall|j: int| 0 <= j < i ==> local_addrs@[j] != addr,
        decreases local_addrs@.len() - i,
    {
        if local_addrs[i] == addr {
            return true;
        }
        i = i + 1;
    }
    false
}

} // verus!
