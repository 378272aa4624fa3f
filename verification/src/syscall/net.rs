//! The socket system calls on the socket model of `crate::net`.

use vstd::prelude::*;
use crate::errno::{EAFNOSUPPORT, EAGAIN, EBADF, EINVAL, EMFILE, ENOTSOCK, ESOCKTNOSUPPORT, EOPNOTSUPP,
    EADDRNOTAVAIL, EISCONN, EINPROGRESS, ECONNREFUSED, EINTR, ENOTCONN, FsError};
use crate::fd_table::{FdTable, FdEntry, MAX_FDS, entry, lowest_free, with_entry};
use crate::file::{FileKind, FileSystem, OpenFile, O_NONBLOCK, O_RDWR};
use crate::net::{is_loopback, INADDR_LOOPBACK, DEFAULT_LOCAL_ADDR, sockaddr_in_bytes, write_sockaddr_in, sockaddr_family_of, sockaddr_in_of, local_bind_address, next_ephemeral, read_sockaddr_family,
    parse_sockaddr_in, is_local_bind_address, INADDR_ANY, NetState, Socket, SockProto, TcpState, Endpoint, SockOpts, AF_UNIX, AF_INET, SOCK_STREAM, SOCK_DGRAM, SOCK_SEQPACKET, SOCK_TYPE_MASK, SOCK_NONBLOCK, SOCK_CLOEXEC};

verus! {

/// The errno for descriptor-table errors.
pub open spec fn fs_errno(e: FsError) -> i32 {
    e.errno()
}

/// What allocating a descriptor for `file` did to the table.
pub open spec fn fd_alloc_post(old_t: Seq<Option<FdEntry>>, new_t: Seq<Option<FdEntry>>, file: u64, cloexec: bool,
    r: Result<usize, FsError>) -> bool {
    match r {
        Ok(fd) => lowest_free(old_t, 0, fd as int) && fd < MAX_FDS
            && new_t == with_entry(old_t, fd as int, Some(FdEntry { file, cloexec })),
        Err(e) => e == FsError::TooManyOpenFiles && new_t == old_t
            && forall|fd: int| lowest_free(old_t, 0, fd) ==> fd >= MAX_FDS,
    }
}

/// The open file for a new socket.
pub open spec fn socket_file(id: u64, nonblock: bool) -> OpenFile {
    OpenFile {
        kind: FileKind::Socket(id),
        ino: 0,
        flags: if nonblock { O_RDWR | O_NONBLOCK } else { O_RDWR },
        offset: 0,
        owner: 0,
        pipe_size: 0,
    }
}

fn new_socket_file(id: u64, nonblock: bool) -> (f: OpenFile)
    ensures
        f == socket_file(id, nonblock),
{
    OpenFile {
        kind: FileKind::Socket(id),
        ino: 0,
        flags: if nonblock { O_RDWR | O_NONBLOCK } else { O_RDWR },
        offset: 0,
        owner: 0,
        pipe_size: 0,
    }
}

/// The socket behind `fd`, by id, with its open file.
pub open spec fn fd_socket(fs: &FileSystem, t: Seq<Option<FdEntry>>, net: &NetState, fd: i32) -> Option<(u64, OpenFile)> {
    if fd < 0 {
        None
    } else {
        match entry(t, fd as int) {
            Some(e) => match fs.file(e.file) {
                Some(f) => match f.kind {
                    FileKind::Socket(id) => if net.socket(id) is Some { Some((id, f)) } else { None },
                    _ => None,
                },
                None => None,
            },
            None => None,
        }
    }
}

/// The TCP or UDP socket registered for `fd`: the sockets that the network
/// stack serves (a Unix-domain socket is not one of them).
pub open spec fn inet_socket(fs: &FileSystem, t: Seq<Option<FdEntry>>, net: &NetState, fd: i32) -> Option<u64> {
    match fd_socket(fs, t, net, fd) {
        Some((id, _f)) => if net.sockets@[id as int].proto != SockProto::Unix { Some(id) } else { None },
        None => None,
    }
}

/// Whether `fd` is an open descriptor.
pub open spec fn fd_open(fs: &FileSystem, t: Seq<Option<FdEntry>>, fd: i32) -> bool {
    fd >= 0 && (entry(t, fd as int) matches Some(e) && fs.file(e.file) is Some)
}

pub fn lookup_socket(fs: &FileSystem, fdt: &FdTable, net: &NetState, fd: i32) -> (r: Option<(u64, OpenFile)>)
    requires
        fs.wf(),
    ensures
        r == fd_socket(fs, fdt@, net, fd),
{
    if fd < 0 {
        return None;
    }
    match fdt.get(fd as usize) {
        Err(_) => None,
        Ok(e) => match fs.get_file(e.file) {
            Some(f) => match f.kind {
                FileKind::Socket(id) => {
                    if id < net.sockets.len() as u64 { Some((id, f)) } else { None }
                },
                _ => None,
            },
            None => None,
        },
    }
}

pub fn lookup_inet_socket(fs: &FileSystem, fdt: &FdTable, net: &NetState, fd: i32) -> (r: Option<u64>)
    requires
        fs.wf(),
    ensures
        r == inet_socket(fs, fdt@, net, fd),
{
    match lookup_socket(fs, fdt, net, fd) {
        Some((id, _f)) => {
            let _n = net.sockets.len();
            if net.sockets[id as usize].proto != SockProto::Unix { Some(id) } else { None }
        },
        None => None,
    }
}

pub fn is_fd_open(fs: &FileSystem, fdt: &FdTable, fd: i32) -> (r: bool)
    requires
        fs.wf(),
    ensures
        r == fd_open(fs, fdt@, fd),
{
    if fd < 0 {
        return false;
    }
    match fdt.get(fd as usize) {
        Err(_) => false,
        Ok(e) => fs.get_file(e.file).is_some(),
    }
}

/// The flag bits of a socket type other than the type itself must be
/// `SOCK_NONBLOCK` or `SOCK_CLOEXEC`.
pub open spec fn sock_flags_ok(socket_type: i32) -> bool {
    (socket_type & !SOCK_TYPE_MASK) & !(SOCK_NONBLOCK | SOCK_CLOEXEC) == 0
}

pub open spec fn unix_type_ok(base: i32) -> bool {
    base == SOCK_STREAM || base == SOCK_DGRAM || base == SOCK_SEQPACKET
}

/// Why `socket` refuses its arguments, if it does.
pub open spec fn socket_error(domain: i32, socket_type: i32) -> Option<i32> {
    let base = socket_type & SOCK_TYPE_MASK;
    if !sock_flags_ok(socket_type) {
        Some(EINVAL)
    } else if domain == AF_UNIX {
        if unix_type_ok(base) { None } else { Some(ESOCKTNOSUPPORT) }
    } else if domain != AF_INET {
        Some(EAFNOSUPPORT)
    } else if base == SOCK_STREAM || base == SOCK_DGRAM {
        None
    } else {
        Some(ESOCKTNOSUPPORT)
    }
}

/// The protocol of a socket `socket` creates.
pub open spec fn socket_proto(domain: i32, socket_type: i32) -> SockProto {
    if domain == AF_UNIX {
        SockProto::Unix
    } else if socket_type & SOCK_TYPE_MASK == SOCK_STREAM {
        SockProto::Tcp
    } else {
        SockProto::Udp
    }
}

/// `socket`: a TCP, UDP or Unix-domain socket with the non-blocking and
/// close-on-exec flags the type asks for, in the lowest free descriptor.
pub fn socket(fs: &mut FileSystem, fdt: &mut FdTable, net: &mut NetState, domain: i32, socket_type: i32,
    protocol: i32) -> (r: isize)
    requires
        old(fs).wf(),
        old(fdt).wf(),
        old(net).wf(),
        old(fs).files@.len() + 1 < u64::MAX,
        old(net).sockets@.len() + 1 < u64::MAX,
    ensures
        final(fs).wf(),
        final(fdt).wf(),
        final(net).wf(),
        socket_error(domain, socket_type) matches Some(e) ==> r == -e as isize
            && *final(fs) == *old(fs) && final(fdt)@ == old(fdt)@ && *final(net) == *old(net),
        socket_error(domain, socket_type) is None ==> ({
            let id = old(net).sockets@.len() as u64;
            let nonblock = socket_type & SOCK_NONBLOCK != 0;
            let cloexec = socket_type & SOCK_CLOEXEC != 0;
            let file = old(fs).files@.len() as u64;
            &&& final(net).sockets@ == old(net).sockets@.push(Socket::spec_new(socket_proto(domain, socket_type)))
            &&& final(net).next_port == old(net).next_port
            &&& final(fs).files@ == old(fs).files@.push(socket_file(id, nonblock))
            &&& final(fs).vfs == old(fs).vfs
            &&& r >= 0 ==> fd_alloc_post(old(fdt)@, final(fdt)@, file, cloexec, Ok(r as usize))
            &&& r < 0 ==> r == -EMFILE as isize && fd_alloc_post(old(fdt)@, final(fdt)@, file, cloexec, Err(FsError::TooManyOpenFiles))
        }),
{
    let base = socket_type & SOCK_TYPE_MASK;
    let extra = socket_type & !SOCK_TYPE_MASK;
    if extra & !(SOCK_NONBLOCK | SOCK_CLOEXEC) != 0 {
        return -(EINVAL as isize);
    }
    let nonblock = extra & SOCK_NONBLOCK != 0;
    let cloexec = extra & SOCK_CLOEXEC != 0;
    proof {
        assert((socket_type & !SOCK_TYPE_MASK) & SOCK_NONBLOCK == socket_type & SOCK_NONBLOCK) by (bit_vector);
        assert((socket_type & !SOCK_TYPE_MASK) & SOCK_CLOEXEC == socket_type & SOCK_CLOEXEC) by (bit_vector);
    }
    let proto = if domain == AF_UNIX {
        if base != SOCK_STREAM && base != SOCK_DGRAM && base != SOCK_SEQPACKET {
            return -(ESOCKTNOSUPPORT as isize);
        }
        SockProto::Unix
    } else if domain != AF_INET {
        return -(EAFNOSUPPORT as isize);
    } else if base == SOCK_STREAM {
        SockProto::Tcp
    } else if base == SOCK_DGRAM {
        SockProto::Udp
    } else {
        return -(ESOCKTNOSUPPORT as isize);
    };
    let id = net.add_socket(Socket::new(proto));
    let file = fs.add_file(new_socket_file(id, nonblock));
    let ghost t0 = fdt@;
    let a = fdt.alloc_with_flags(file, cloexec);
    proof {
        assert(fd_alloc_post(t0, fdt@, file, cloexec, a));
        assert(socket_proto(domain, socket_type) == proto);
        assert(net.sockets@ == old(net).sockets@.push(Socket::spec_new(proto)));
        assert(fs.files@ == old(fs).files@.push(socket_file(id, nonblock)));
        assert(nonblock == (socket_type & SOCK_NONBLOCK != 0));
        assert(cloexec == (socket_type & SOCK_CLOEXEC != 0));
        assert(file == old(fs).files@.len() as u64);
        assert(id == old(net).sockets@.len() as u64);
    }
    let r = match a {
        Ok(fd) => fd as isize,
        Err(_) => -(EMFILE as isize),
    };
    proof {
        assert(fd_alloc_post(t0, fdt@, file, cloexec, a));
    }
    r
}

/// `socketpair`: two connected Unix-domain sockets in the two lowest free
/// descriptors; only `AF_UNIX` is supported. When the second descriptor
/// cannot be had the first is closed again.
pub fn socketpair(fs: &mut FileSystem, fdt: &mut FdTable, net: &mut NetState, domain: i32, socket_type: i32,
    protocol: i32) -> (r: Result<(usize, usize), isize>)
    requires
        old(fs).wf(),
        old(fdt).wf(),
        old(net).wf(),
        old(fs).files@.len() + 2 < u64::MAX,
        old(net).sockets@.len() + 2 < u64::MAX,
    ensures
        final(fs).wf(),
        final(fdt).wf(),
        final(net).wf(),
        domain != AF_UNIX ==> r == Err::<(usize, usize), isize>(-EAFNOSUPPORT as isize) && final(fdt)@ == old(fdt)@,
        domain == AF_UNIX ==> (socket_error(domain, socket_type) matches Some(e) ==>
            r == Err::<(usize, usize), isize>(-e as isize) && final(fdt)@ == old(fdt)@),
        domain == AF_UNIX && socket_error(domain, socket_type) is None ==> ({
            let id = old(net).sockets@.len() as u64;
            let nonblock = socket_type & SOCK_NONBLOCK != 0;
            let cloexec = socket_type & SOCK_CLOEXEC != 0;
            let file = old(fs).files@.len() as u64;
            let s = Socket::spec_new(SockProto::Unix);
            &&& final(net).sockets@ == old(net).sockets@.push(s).push(s)
            &&& final(fs).files@ == old(fs).files@.push(socket_file(id, nonblock)).push(socket_file((id + 1) as u64, nonblock))
            &&& match r {
                Ok((a, b)) => {
                    &&& lowest_free(old(fdt)@, 0, a as int)
                    &&& lowest_free(with_entry(old(fdt)@, a as int, Some(FdEntry { file, cloexec })), 0, b as int)
                    &&& a < MAX_FDS && b < MAX_FDS
                    &&& final(fdt)@ == with_entry(with_entry(old(fdt)@, a as int, Some(FdEntry { file, cloexec })),
                            b as int, Some(FdEntry { file: (file + 1) as u64, cloexec }))
                },
                Err(e) => e == -EMFILE as isize && crate::fd_table::same_entries(final(fdt)@, old(fdt)@),
            }
        }),
{
    if domain != AF_UNIX {
        return Err(-(EAFNOSUPPORT as isize));
    }
    let base = socket_type & SOCK_TYPE_MASK;
    let extra = socket_type & !SOCK_TYPE_MASK;
    if extra & !(SOCK_NONBLOCK | SOCK_CLOEXEC) != 0 {
        return Err(-(EINVAL as isize));
    }
    let nonblock = extra & SOCK_NONBLOCK != 0;
    let cloexec = extra & SOCK_CLOEXEC != 0;
    proof {
        assert((socket_type & !SOCK_TYPE_MASK) & SOCK_NONBLOCK == socket_type & SOCK_NONBLOCK) by (bit_vector);
        assert((socket_type & !SOCK_TYPE_MASK) & SOCK_CLOEXEC == socket_type & SOCK_CLOEXEC) by (bit_vector);
    }
    if base != SOCK_STREAM && base != SOCK_DGRAM && base != SOCK_SEQPACKET {
        return Err(-(ESOCKTNOSUPPORT as isize));
    }
    let left_id = net.add_socket(Socket::new(SockProto::Unix));
    let right_id = net.add_socket(Socket::new(SockProto::Unix));
    let left = fs.add_file(new_socket_file(left_id, nonblock));
    let right = fs.add_file(new_socket_file(right_id, nonblock));
    let ghost t0 = fdt@;
    let a = match fdt.alloc_with_flags(left, cloexec) {
        Ok(fd) => fd,
        Err(_) => {
            proof { crate::fd_table::lemma_same_entries_refl(fdt@); }
            return Err(-(EMFILE as isize));
        },
    };
    let b = match fdt.alloc_with_flags(right, cloexec) {
        Ok(fd) => fd,
        Err(_) => {
            let _ = fdt.close(a);
            proof { crate::fd_table::lemma_close_after_alloc(t0, a as int, FdEntry { file: left, cloexec }, fdt@); }
            return Err(-(EMFILE as isize));
        },
    };
    Ok((a, b))
}

/// `close` of a socket descriptor: 0, or `-EBADF` when `fd` is not open.
pub fn close_sock(fdt: &mut FdTable, sockfd: i32) -> (r: isize)
    requires
        old(fdt).wf(),
    ensures
        final(fdt).wf(),
        sockfd >= 0 && entry(old(fdt)@, sockfd as int) is Some ==> r == 0 && final(fdt)@ == old(fdt)@.update(sockfd as int, None),
        !(sockfd >= 0 && entry(old(fdt)@, sockfd as int) is Some) ==> r == -EBADF as isize && final(fdt)@ == old(fdt)@,
{
    if sockfd < 0 {
        return -(EBADF as isize);
    }
    match fdt.close(sockfd as usize) {
        Ok(_) => 0,
        Err(_) => -(EBADF as isize),
    }
}

/// What a socket call that may not finish by itself asks of its caller.
#[derive(Clone, Copy, Debug, PartialEq, Eq, Structural)]
pub enum NetStep {
    /// The call returns this value.
    Done(isize),
    /// The descriptor is a Unix-domain socket: the call goes to the
    /// Unix-domain socket layer.
    Unix(u64),
    /// The UDP socket is to be attached to the stack's socket for this
    /// port (and address); the call returns 0 when that works.
    AttachUdp(u64, u16, Option<u32>),
    /// The call waits for the network and asks again.
    Wait,
}

/// The socket `fd` refers to, for calls that accept a Unix-domain socket.
pub open spec fn socket_proto_of(net: &NetState, id: u64) -> SockProto {
    net.sockets@[id as int].proto
}

/// Why `bind` refuses to bind an Internet socket, if it does, and else the
/// socket and the endpoint asked for.
pub open spec fn bind_target(fs: &FileSystem, t: Seq<Option<FdEntry>>, net: &NetState, fd: i32,
    b: Seq<u8>, addrlen: u32) -> Result<(u64, Endpoint), i32> {
    match sockaddr_family_of(b, addrlen) {
        Err(e) => Err(e),
        Ok(family) => if family != AF_INET as u16 {
            Err(EAFNOSUPPORT)
        } else {
            match sockaddr_in_of(b, addrlen) {
                Err(e) => Err(e),
                Ok(ep) => if !local_bind_address(ep.addr, net.local_addrs@) {
                    Err(EADDRNOTAVAIL)
                } else {
                    match inet_socket(fs, t, net, fd) {
                        None => Err(ENOTSOCK),
                        Some(id) => Ok((id, ep)),
                    }
                }
            }
        }
    }
}

/// A socket is bound once it has a local endpoint with a port.
pub open spec fn is_bound(s: Socket) -> bool {
    s.local matches Some(ep) && ep.port != 0
}

/// `bind`. A descriptor that is not open gives `EBADF`; a Unix-domain
/// socket goes to its own layer. For an Internet socket the address must
/// be an `AF_INET` address of this host; binding twice is invalid; port 0
/// takes the next ephemeral port (for TCP the port is taken before the
/// check for a second bind). A TCP socket keeps the endpoint for `listen`;
/// a UDP socket is then attached to the stack's socket for the port.
pub fn bind(fs: &FileSystem, fdt: &FdTable, net: &mut NetState, sockfd: i32, addr: &Vec<u8>, addrlen: u32)
    -> (r: NetStep)
    requires
        fs.wf(),
        old(net).wf(),
    ensures
        final(net).wf(),
        final(net).sockets@.len() == old(net).sockets@.len(),
        final(net).accept_queue == old(net).accept_queue,
        !fd_open(fs, fdt@, sockfd) ==> r == NetStep::Done(-EBADF as isize) && *final(net) == *old(net),
        fd_open(fs, fdt@, sockfd) ==> (fd_socket(fs, fdt@, old(net), sockfd) matches Some((id, _f)) ==> (socket_proto_of(old(net), id) == SockProto::Unix
            ==> r == NetStep::Unix(id) && *final(net) == *old(net))),
        fd_open(fs, fdt@, sockfd) && !(fd_socket(fs, fdt@, old(net), sockfd) matches Some((id, _f)) && socket_proto_of(old(net), id) == SockProto::Unix)
            ==> match bind_target(fs, fdt@, old(net), sockfd, addr@, addrlen) {
                Err(e) => r == NetStep::Done(-e as isize) && *final(net) == *old(net),
                Ok((id, ep)) => {
                    let s = old(net).sockets@[id as int];
                    let port = if ep.port == 0 { old(net).next_port } else { ep.port };
                    let bound = Endpoint { addr: ep.addr, port };
                    if s.proto == SockProto::Tcp {
                        &&& final(net).next_port == if ep.port == 0 { next_ephemeral(old(net).next_port) } else { old(net).next_port }
                        &&& if is_bound(s) {
                                r == NetStep::Done(-EINVAL as isize) && final(net).sockets == old(net).sockets
                            } else {
                                r == NetStep::Done(0) && final(net).sockets@ == old(net).sockets@.update(id as int, Socket { local: Some(bound), ..s })
                            }
                    } else if is_bound(s) {
                        r == NetStep::Done(-EINVAL as isize) && *final(net) == *old(net)
                    } else {
                        &&& final(net).next_port == if ep.port == 0 { next_ephemeral(old(net).next_port) } else { old(net).next_port }
                        &&& final(net).sockets@ == old(net).sockets@.update(id as int, Socket { local: Some(bound), ..s })
                        &&& r == NetStep::AttachUdp(id, port, if ep.addr == INADDR_ANY { None } else { Some(ep.addr) })
                    }
                },
            },
{
    if !is_fd_open(fs, fdt, sockfd) {
        return NetStep::Done(-(EBADF as isize));
    }
    let _len = net.sockets.len();
    match lookup_socket(fs, fdt, net, sockfd) {
        Some((id, _f)) => {
            if net.sockets[id as usize].proto == SockProto::Unix {
                return NetStep::Unix(id);
            }
        },
        None => {},
    }
    let family = match read_sockaddr_family(addr, addrlen) {
        Ok(f) => f,
        Err(e) => return NetStep::Done(-(e as isize)),
    };
    if family != AF_INET as u16 {
        return NetStep::Done(-(EAFNOSUPPORT as isize));
    }
    let ep = match parse_sockaddr_in(addr, addrlen) {
        Ok(ep) => ep,
        Err(e) => return NetStep::Done(-(e as isize)),
    };
    if !is_local_bind_address(ep.addr, &net.local_addrs) {
        return NetStep::Done(-(EADDRNOTAVAIL as isize));
    }
    let id = match lookup_inet_socket(fs, fdt, net, sockfd) {
        Some(id) => id,
        None => return NetStep::Done(-(ENOTSOCK as isize)),
    };
    let _n = net.sockets.len();
    let s = net.sockets[id as usize];
    let already = match s.local {
        Some(old_ep) => old_ep.port != 0,
        None => false,
    };
    if s.proto == SockProto::Tcp {
        let port = if ep.port == 0 { net.alloc_ephemeral_port() } else { ep.port };
        if already {
            return NetStep::Done(-(EINVAL as isize));
        }
        net.set_socket(id, Socket { local: Some(Endpoint { addr: ep.addr, port }), ..s });
        NetStep::Done(0)
    } else {
        if already {
            return NetStep::Done(-(EINVAL as isize));
        }
        let port = if ep.port == 0 { net.alloc_ephemeral_port() } else { ep.port };
        net.set_socket(id, Socket { local: Some(Endpoint { addr: ep.addr, port }), ..s });
        NetStep::AttachUdp(id, port, if ep.addr == INADDR_ANY { None } else { Some(ep.addr) })
    }
}

/// The port counter after handing out `n` ports from `p`.
pub open spec fn ports_after(p: u16, n: nat) -> u16
    decreases n,
{
    if n == 0 { p } else { ports_after(next_ephemeral(p), (n - 1) as nat) }
}

/// How many ports `listen` tries on an unbound socket.
pub const LISTEN_ATTEMPTS: usize = 32;
/// The largest backlog `listen` records.
pub const LISTEN_BACKLOG_MAX: usize = 128;

/// The network stack starts listening on a TCP socket that is closed, and
/// refuses (`EINVAL`) one that is open.
pub open spec fn stack_listen_ok(s: Socket) -> bool {
    s.tcp == TcpState::Closed
}

pub open spec fn clamp_backlog(backlog: i32) -> usize {
    if backlog < 1 { 1 } else if backlog > 128 { 128 } else { backlog as usize }
}

pub open spec fn listen_endpoint(s: Socket) -> Endpoint {
    match s.local { Some(ep) => ep, None => Endpoint { addr: INADDR_ANY, port: 0 } }
}

/// `listen`. A negative backlog is invalid; a descriptor that is not open
/// gives `EBADF`; Unix-domain sockets go to their own layer; UDP sockets
/// cannot listen. A TCP socket listens on its bound endpoint, or on an
/// ephemeral port of any address when it has none, trying up to 32
/// ephemeral ports (one port when bound); it then records a backlog
/// between 1 and 128 and starts with an empty accept queue.
pub fn listen(fs: &FileSystem, fdt: &FdTable, net: &mut NetState, sockfd: i32, backlog: i32) -> (r: NetStep)
    requires
        fs.wf(),
        old(net).wf(),
    ensures
        final(net).wf(),
        final(net).sockets@.len() == old(net).sockets@.len(),
        final(net).accept_queue@.len() == old(net).accept_queue@.len(),
        backlog < 0 ==> r == NetStep::Done(-EINVAL as isize) && *final(net) == *old(net),
        backlog >= 0 && !fd_open(fs, fdt@, sockfd) ==> r == NetStep::Done(-EBADF as isize) && *final(net) == *old(net),
        backlog >= 0 && fd_open(fs, fdt@, sockfd) ==> match fd_socket(fs, fdt@, old(net), sockfd) {
            None => r == NetStep::Done(-ENOTSOCK as isize) && *final(net) == *old(net),
            Some((id, _f)) => {
                let s = old(net).sockets@[id as int];
                let ep0 = listen_endpoint(s);
                if s.proto == SockProto::Unix {
                    r == NetStep::Unix(id) && *final(net) == *old(net)
                } else if s.proto == SockProto::Udp {
                    r == NetStep::Done(-EOPNOTSUPP as isize) && *final(net) == *old(net)
                } else if stack_listen_ok(s) {
                    let ep = Endpoint { addr: ep0.addr, port: if ep0.port == 0 { old(net).next_port } else { ep0.port } };
                    &&& r == NetStep::Done(0)
                    &&& final(net).next_port == if ep0.port == 0 { next_ephemeral(old(net).next_port) } else { old(net).next_port }
                    &&& final(net).sockets@ == old(net).sockets@.update(id as int, Socket {
                            local: Some(ep), stack_local: Some(ep), tcp: TcpState::Listen, listener: true,
                            backlog: clamp_backlog(backlog), ..s })
                    &&& final(net).accept_queue@[id as int]@ == Seq::<u64>::empty()
                    &&& forall|j: int| 0 <= j < old(net).accept_queue@.len() && j != id ==> #[trigger] final(net).accept_queue@[j] == old(net).accept_queue@[j]
                } else {
                    &&& r == NetStep::Done(-EINVAL as isize)
                    &&& final(net).accept_queue == old(net).accept_queue
                    &&& if ep0.port == 0 {
                            &&& final(net).next_port == ports_after(old(net).next_port, 32)
                            &&& final(net).sockets@ == old(net).sockets@.update(id as int, Socket {
                                    local: Some(Endpoint { addr: ep0.addr, port: ports_after(old(net).next_port, 31) }), ..s })
                        } else {
                            &&& final(net).next_port == old(net).next_port
                            &&& final(net).sockets@ == old(net).sockets@.update(id as int, Socket { local: Some(ep0), ..s })
                        }
                }
            },
        },
{
    if backlog < 0 {
        return NetStep::Done(-(EINVAL as isize));
    }
    if !is_fd_open(fs, fdt, sockfd) {
        return NetStep::Done(-(EBADF as isize));
    }
    let _len = net.sockets.len();
    let id = match lookup_socket(fs, fdt, net, sockfd) {
        Some((id, _f)) => id,
        None => return NetStep::Done(-(ENOTSOCK as isize)),
    };
    let s = net.sockets[id as usize];
    if s.proto == SockProto::Unix {
        return NetStep::Unix(id);
    }
    if s.proto == SockProto::Udp {
        return NetStep::Done(-(EOPNOTSUPP as isize));
    }
    let mut ep = match s.local {
        Some(e) => e,
        None => Endpoint { addr: INADDR_ANY, port: 0 },
    };
    let ghost ep0 = ep;
    let ghost p0 = net.next_port;
    let mut attempts: usize = if ep.port == 0 { LISTEN_ATTEMPTS } else { 1 };
    let ghost net0 = *net;
    loop
        invariant_except_break
            net.wf(),
            net0 == *old(net),
            backlog >= 0,
            fs.wf(),
            fd_open(fs, fdt@, sockfd),
            fd_socket(fs, fdt@, &net0, sockfd) matches Some((i, _f)) && i == id,
            s.proto == SockProto::Tcp,
            listen_endpoint(s) == ep0,
            p0 == net0.next_port,
            net.sockets@.len() == net0.sockets@.len(),
            net.accept_queue == net0.accept_queue,
            net.local_addrs == net0.local_addrs,
            id < net.sockets@.len(),
            1 <= attempts <= 32,
            !stack_listen_ok(s) ==> ep.port == 0 || ep == ep0,
            ep.addr == ep0.addr,
            ep0.port == 0 ==> ep.port == 0 && net.next_port == ports_after(p0, (32 - attempts) as nat)
                && (attempts < 32 ==> net.sockets@ == net0.sockets@.update(id as int, Socket {
                        local: Some(Endpoint { addr: ep0.addr, port: ports_after(p0, (31 - attempts) as nat) }), ..s })),
            ep0.port == 0 && attempts == 32 ==> net.sockets == net0.sockets,
            ep0.port != 0 ==> attempts == 1 && ep == ep0 && net.next_port == p0 && net.sockets == net0.sockets,
            s == net0.sockets@[id as int],
            stack_listen_ok(s) ==> ep == ep0 && net.next_port == p0 && net.sockets == net0.sockets,
        ensures
            net.wf(),
            net.sockets@.len() == net0.sockets@.len(),
            net.accept_queue == net0.accept_queue,
            net.local_addrs == net0.local_addrs,
            stack_listen_ok(s),
            ep.addr == ep0.addr,
            ep.port == if ep0.port == 0 { p0 } else { ep0.port },
            net.next_port == if ep0.port == 0 { next_ephemeral(p0) } else { p0 },
            net.sockets@ == net0.sockets@.update(id as int, Socket { local: Some(ep), ..s }),
        decreases attempts,
    {
        if ep.port == 0 {
            ep.port = net.alloc_ephemeral_port();
        }
        let ghost before = *net;
        net.set_socket(id, Socket { local: Some(ep), ..s });
        proof {
            assert(net.sockets@ =~= net0.sockets@.update(id as int, Socket { local: Some(ep), ..s }));
        }
        if s.tcp == TcpState::Closed {
            break;
        }
        attempts = attempts - 1;
        if attempts == 0 {
            proof {
                assert(!stack_listen_ok(s));
                assert(s == old(net).sockets@[id as int]);
                assert(listen_endpoint(s) == ep0);
                if ep0.port == 0 {
                    assert(ports_after(p0, 32) == next_ephemeral(ports_after(p0, 31))) by {
                        lemma_ports_after_step(p0, 31);
                    }
                    assert(net.next_port == ports_after(p0, 32));
                    assert(ep.port == ports_after(p0, 31));
                    assert(ep == Endpoint { addr: ep0.addr, port: ports_after(p0, 31) });
                    assert(net.sockets@ == old(net).sockets@.update(id as int, Socket {
                        local: Some(Endpoint { addr: ep0.addr, port: ports_after(p0, 31) }), ..s }));
                } else {
                    assert(net.next_port == p0);
                    assert(ep == ep0);
                }
                assert(net.accept_queue == old(net).accept_queue);
                assert(fd_socket(fs, fdt@, old(net), sockfd) matches Some((i, _f)) && i == id);
                assert(s.proto != SockProto::Unix && s.proto != SockProto::Udp);
                assert(if ep0.port == 0 {
                            &&& net.next_port == ports_after(old(net).next_port, 32)
                            &&& net.sockets@ == old(net).sockets@.update(id as int, Socket {
                                    local: Some(Endpoint { addr: ep0.addr, port: ports_after(old(net).next_port, 31) }), ..s })
                        } else {
                            &&& net.next_port == old(net).next_port
                            &&& net.sockets@ == old(net).sockets@.update(id as int, Socket { local: Some(ep0), ..s })
                        });
            }
            return NetStep::Done(-(EINVAL as isize));
        }
        proof {
            if ep0.port == 0 {
                lemma_ports_after_step(p0, (31 - attempts) as nat);
            }
        }
        ep.port = 0;
    }
    let b: usize = if backlog > 128 { LISTEN_BACKLOG_MAX } else if backlog < 1 { 1 } else { backlog as usize };
    net.set_socket(id, Socket { local: Some(ep), stack_local: Some(ep), tcp: TcpState::Listen, listener: true, backlog: b, ..s });
    net.accept_queue.set(id as usize, Vec::new());
    proof {
        assert(net.sockets@ =~= old(net).sockets@.update(id as int, Socket {
            local: Some(ep), stack_local: Some(ep), tcp: TcpState::Listen, listener: true, backlog: b, ..s }));
    }
    NetStep::Done(0)
}

/// Handing out one more port.
pub proof fn lemma_ports_after_step(p: u16, n: nat)
    ensures
        ports_after(p, n + 1) == next_ephemeral(ports_after(p, n)),
    decreases n,
{
    assert(ports_after(p, n + 1) == ports_after(next_ephemeral(p), n));
    if n > 0 {
        assert(ports_after(p, n) == ports_after(next_ephemeral(p), (n - 1) as nat));
        lemma_ports_after_step(next_ephemeral(p), (n - 1) as nat);
    } else {
        assert(ports_after(next_ephemeral(p), 0) == next_ephemeral(p));
    }
}

/// A connection in an accept queue that finished its handshake.
pub open spec fn conn_ready(net: &NetState, c: u64) -> bool {
    net.socket(c) matches Some(s) && (s.tcp == TcpState::Established || s.tcp == TcpState::CloseWait)
}

/// `i` is the position of the oldest ready connection in `q`.
pub open spec fn first_ready_conn(net: &NetState, q: Seq<u64>, i: int) -> bool {
    &&& 0 <= i < q.len()
    &&& conn_ready(net, q[i])
    &&& forall|j: int| 0 <= j < i ==> !conn_ready(net, #[trigger] q[j])
}

pub open spec fn no_ready_conn(net: &NetState, q: Seq<u64>) -> bool {
    forall|j: int| 0 <= j < q.len() ==> !conn_ready(net, #[trigger] q[j])
}

fn find_ready_conn(net: &NetState, q: &Vec<u64>) -> (r: Option<usize>)
    ensures
        r matches Some(i) ==> first_ready_conn(net, q@, i as int),
        r is None ==> no_ready_conn(net, q@),
{
    let mut i: usize = 0;
    while i < q.len()
        invariant
            i <= q@.len(),
            forall|j: int| 0 <= j < i ==> !conn_ready(net, #[trigger] q@[j]),
        decreases q@.len() - i,
    {
        match net.get_socket(q[i]) {
            Some(s) => {
                if s.tcp == TcpState::Established || s.tcp == TcpState::CloseWait {
                    return Some(i);
                }
            },
            None => {},
        }
        i = i + 1;
    }
    None
}

/// The accepted socket: its endpoints as the stack reports them.
pub open spec fn accepted_socket(c: Socket) -> Socket {
    Socket {
        local: if c.stack_local is Some { c.stack_local } else { c.local },
        remote: c.stack_remote,
        ..c
    }
}

/// What `accept` does, with the new descriptor's close-on-exec flag and the
/// new file's non-blocking flag as given.
pub open spec fn accept_post(old_fs: &FileSystem, new_fs: &FileSystem, old_t: Seq<Option<FdEntry>>,
    new_t: Seq<Option<FdEntry>>, old_net: &NetState, new_net: &NetState, sockfd: i32, addrlen: Option<u32>,
    cloexec: bool, nonblock: bool, r: (NetStep, Option<(Vec<u8>, u32)>)) -> bool {
    &&& new_net.sockets@.len() == old_net.sockets@.len()
    &&& !fd_open(old_fs, old_t, sockfd) ==> r.0 == NetStep::Done(-EBADF as isize) && r.1 is None
            && new_net == old_net && new_t == old_t
    &&& fd_open(old_fs, old_t, sockfd) ==> match fd_socket(old_fs, old_t, old_net, sockfd) {
            None => r.0 == NetStep::Done(-ENOTSOCK as isize) && r.1 is None && new_net == old_net && new_t == old_t,
            Some((id, f)) => {
                let s = old_net.sockets@[id as int];
                let q = old_net.accept_queue@[id as int]@;
                if s.proto == SockProto::Unix {
                    r.0 == NetStep::Unix(id) && r.1 is None && new_net == old_net && new_t == old_t
                } else if !s.listener {
                    r.0 == NetStep::Done(-EINVAL as isize) && r.1 is None && new_net == old_net && new_t == old_t
                } else if no_ready_conn(old_net, q) {
                    &&& r.0 == if f.flags & O_NONBLOCK != 0 { NetStep::Done(-EAGAIN as isize) } else { NetStep::Wait }
                    &&& r.1 is None && new_net == old_net && new_t == old_t
                } else {
                    exists|i: int| #[trigger] first_ready_conn(old_net, q, i) && ({
                        let c = q[i];
                        let cs = old_net.sockets@[c as int];
                        &&& new_net.accept_queue@[id as int]@ == q.remove(i)
                        &&& match cs.stack_remote {
                            None => r.0 == NetStep::Done(-EAGAIN as isize) && r.1 is None
                                && new_net.sockets == old_net.sockets && new_t == old_t,
                            Some(peer) => {
                                let file = old_fs.files@.len() as u64;
                                &&& new_net.sockets@ == old_net.sockets@.update(c as int, accepted_socket(cs))
                                &&& new_fs.files@ == old_fs.files@.push(socket_file(c, nonblock))
                                &&& match addrlen {
                                    None => r.1 is None,
                                    Some(l) => r.1 matches Some((b, n)) && b@ == sockaddr_in_bytes(peer).take(if l < 16 { l as int } else { 16 })
                                        && n == if l < 16 { l } else { 16 },
                                }
                                &&& match r.0 {
                                    NetStep::Done(v) => if v >= 0 {
                                        fd_alloc_post(old_t, new_t, file, cloexec, Ok(v as usize))
                                    } else {
                                        v == -EMFILE as isize && fd_alloc_post(old_t, new_t, file, cloexec, Err(FsError::TooManyOpenFiles))
                                    },
                                    _ => false,
                                }
                            },
                        }
                    })
                }
            },
        }
}

fn accept_with(fs: &mut FileSystem, fdt: &mut FdTable, net: &mut NetState, sockfd: i32, addrlen: Option<u32>,
    cloexec: bool, nonblock: bool) -> (r: (NetStep, Option<(Vec<u8>, u32)>))
    requires
        old(fs).wf(),
        old(fdt).wf(),
        old(net).wf(),
        old(fs).files@.len() + 1 < u64::MAX,
    ensures
        final(fs).wf(),
        final(fdt).wf(),
        final(net).wf(),
        accept_post(old(fs), final(fs), old(fdt)@, final(fdt)@, old(net), final(net), sockfd, addrlen, cloexec, nonblock, r),
{
    if !is_fd_open(fs, fdt, sockfd) {
        return (NetStep::Done(-(EBADF as isize)), None);
    }
    let _len = net.sockets.len();
    let (id, f) = match lookup_socket(fs, fdt, net, sockfd) {
        Some(x) => x,
        None => return (NetStep::Done(-(ENOTSOCK as isize)), None),
    };
    let s = net.sockets[id as usize];
    if s.proto == SockProto::Unix {
        return (NetStep::Unix(id), None);
    }
    if !s.listener {
        return (NetStep::Done(-(EINVAL as isize)), None);
    }
    let i = match find_ready_conn(net, &net.accept_queue[id as usize]) {
        Some(i) => i,
        None => {
            if f.flags & O_NONBLOCK != 0 {
                return (NetStep::Done(-(EAGAIN as isize)), None);
            }
            return (NetStep::Wait, None);
        },
    };
    let ghost q = net.accept_queue@[id as int]@;
    let mut queue = net.accept_queue[id as usize].clone();
    let c = queue.remove(i);
    net.accept_queue.set(id as usize, queue);
    proof {
        assert(net.accept_queue@[id as int]@ =~= q.remove(i as int));
    }
    let cs = net.sockets[c as usize];
    let peer = match cs.stack_remote {
        Some(p) => p,
        None => {
            proof { assert(first_ready_conn(old(net), q, i as int)); }
            return (NetStep::Done(-(EAGAIN as isize)), None);
        },
    };
    let addr = match addrlen {
        Some(l) => Some(write_sockaddr_in(peer, l)),
        None => None,
    };
    let local = if cs.stack_local.is_some() { cs.stack_local } else { cs.local };
    net.set_socket(c, Socket { local, remote: Some(peer), ..cs });
    let file = fs.add_file(new_socket_file(c, nonblock));
    let ghost t0 = fdt@;
    let a = fdt.alloc_with_flags(file, cloexec);
    proof {
        assert(fd_alloc_post(t0, fdt@, file, cloexec, a));
        assert(first_ready_conn(old(net), q, i as int));
    }
    match a {
        Ok(fd) => (NetStep::Done(fd as isize), addr),
        Err(_) => (NetStep::Done(-(EMFILE as isize)), addr),
    }
}

/// One pass of `accept` on `sockfd`. A descriptor that is not open gives
/// `EBADF`, one that is no socket `ENOTSOCK`; Unix-domain sockets go to
/// their own layer; a socket that does not listen gives `EINVAL`. The
/// oldest connection of the accept queue that finished its handshake is
/// taken off the queue and gets the lowest free descriptor (`EAGAIN` when
/// the stack no longer knows its peer, `EMFILE` when no descriptor is
/// free); its peer address is returned for the caller's buffer of
/// `addrlen` bytes. With none, a non-blocking socket gives `EAGAIN` and a
/// blocking one waits.
pub fn accept(fs: &mut FileSystem, fdt: &mut FdTable, net: &mut NetState, sockfd: i32, addrlen: Option<u32>)
    -> (r: (NetStep, Option<(Vec<u8>, u32)>))
    requires
        old(fs).wf(),
        old(fdt).wf(),
        old(net).wf(),
        old(fs).files@.len() + 1 < u64::MAX,
    ensures
        final(fs).wf(),
        final(fdt).wf(),
        final(net).wf(),
        accept_post(old(fs), final(fs), old(fdt)@, final(fdt)@, old(net), final(net), sockfd, addrlen, false, false, r),
{
    accept_with(fs, fdt, net, sockfd, addrlen, false, false)
}

/// `accept4`: `accept` whose new descriptor is close-on-exec and whose new
/// file is non-blocking as `flags` ask; other flag bits are invalid.
pub fn accept4(fs: &mut FileSystem, fdt: &mut FdTable, net: &mut NetState, sockfd: i32, addrlen: Option<u32>,
    flags: i32) -> (r: (NetStep, Option<(Vec<u8>, u32)>))
    requires
        old(fs).wf(),
        old(fdt).wf(),
        old(net).wf(),
        old(fs).files@.len() + 1 < u64::MAX,
    ensures
        final(fs).wf(),
        final(fdt).wf(),
        final(net).wf(),
        flags & !(SOCK_NONBLOCK | SOCK_CLOEXEC) != 0 ==> r.0 == NetStep::Done(-EINVAL as isize) && r.1 is None
            && *final(fs) == *old(fs) && final(fdt)@ == old(fdt)@ && *final(net) == *old(net),
        flags & !(SOCK_NONBLOCK | SOCK_CLOEXEC) == 0 ==> accept_post(old(fs), final(fs), old(fdt)@, final(fdt)@,
            old(net), final(net), sockfd, addrlen, flags & SOCK_CLOEXEC != 0, flags & SOCK_NONBLOCK != 0, r),
{
    if flags & !(SOCK_NONBLOCK | SOCK_CLOEXEC) != 0 {
        return (NetStep::Done(-(EINVAL as isize)), None);
    }
    accept_with(fs, fdt, net, sockfd, addrlen, flags & SOCK_CLOEXEC != 0, flags & SOCK_NONBLOCK != 0)
}

/// The status flags of the open file of socket descriptor `fd`.
pub open spec fn socket_file_flags(fs: &FileSystem, t: Seq<Option<FdEntry>>, net: &NetState, fd: i32) -> u32 {
    match fd_socket(fs, t, net, fd) {
        Some((_id, f)) => f.flags,
        None => 0,
    }
}

/// The network stack starts connecting a TCP socket to an endpoint with an
/// address and a port; it refuses (`EINVAL`) an unspecified one.
pub open spec fn stack_connect_ok(remote: Endpoint) -> bool {
    remote.addr != INADDR_ANY && remote.port != 0
}

/// The local address a TCP connection to `remote` starts from when the
/// stack has none: loopback for a loopback peer, else the first
/// interface's address.
pub open spec fn tcp_source_addr(remote: Endpoint) -> u32 {
    if is_loopback(remote.addr) { INADDR_LOOPBACK } else { DEFAULT_LOCAL_ADDR }
}

/// `connect`. The address must be a valid `sockaddr_in`; `sockfd` must be
/// a TCP or UDP socket (`ENOTSOCK`). The peer is recorded first. A TCP
/// socket that is already open gives `EISCONN`; otherwise it takes the
/// stack's local endpoint, or a source address chosen by the peer with an
/// ephemeral port, and starts the handshake: a non-blocking socket then
/// gives `EINPROGRESS`, a blocking one waits for the outcome. A UDP socket
/// keeps its bound port or takes an ephemeral one, with the loopback
/// address for a loopback peer and any address otherwise, and is attached
/// to the stack's socket for that port.
pub fn connect(fs: &FileSystem, fdt: &FdTable, net: &mut NetState, sockfd: i32, addr: &Vec<u8>, addrlen: u32)
    -> (r: NetStep)
    requires
        fs.wf(),
        old(net).wf(),
    ensures
        final(net).wf(),
        final(net).sockets@.len() == old(net).sockets@.len(),
        final(net).accept_queue == old(net).accept_queue,
        match sockaddr_in_of(addr@, addrlen) {
            Err(e) => r == NetStep::Done(-e as isize) && *final(net) == *old(net),
            Ok(ep) => match inet_socket(fs, fdt@, old(net), sockfd) {
                None => r == NetStep::Done(-ENOTSOCK as isize) && *final(net) == *old(net),
                Some(id) => {
                    let s = old(net).sockets@[id as int];
                    let s1 = Socket { remote: Some(ep), ..s };
                    let nonblock = socket_file_flags(fs, fdt@, old(net), sockfd) & O_NONBLOCK != 0;
                    if s.proto == SockProto::Tcp {
                        if s.tcp != TcpState::Closed {
                            r == NetStep::Done(-EISCONN as isize) && final(net).sockets@ == old(net).sockets@.update(id as int, s1)
                                && final(net).next_port == old(net).next_port
                        } else {
                            let l0 = match s.stack_local { Some(l) => l, None => Endpoint { addr: tcp_source_addr(ep), port: 0 } };
                            let local = Endpoint { addr: l0.addr, port: if l0.port == 0 { old(net).next_port } else { l0.port } };
                            &&& final(net).next_port == if l0.port == 0 { next_ephemeral(old(net).next_port) } else { old(net).next_port }
                            &&& if stack_connect_ok(ep) {
                                    &&& final(net).sockets@ == old(net).sockets@.update(id as int, Socket {
                                            local: Some(local), stack_local: Some(local), stack_remote: Some(ep),
                                            tcp: TcpState::SynSent, ..s1 })
                                    &&& r == if nonblock { NetStep::Done(-EINPROGRESS as isize) } else { NetStep::Wait }
                                } else {
                                    &&& final(net).sockets@ == old(net).sockets@.update(id as int, Socket { local: Some(local), ..s1 })
                                    &&& r == NetStep::Done(-EINVAL as isize)
                                }
                        }
                    } else {
                        let port = match s.local { Some(l) => if l.port != 0 { l.port } else { old(net).next_port }, None => old(net).next_port };
                        let fresh = !(s.local matches Some(l) && l.port != 0);
                        let laddr = if is_loopback(ep.addr) { INADDR_LOOPBACK } else { INADDR_ANY };
                        &&& final(net).next_port == if fresh { next_ephemeral(old(net).next_port) } else { old(net).next_port }
                        &&& final(net).sockets@ == old(net).sockets@.update(id as int, Socket {
                                local: Some(Endpoint { addr: laddr, port }), ..s1 })
                        &&& r == NetStep::AttachUdp(id, port, if is_loopback(ep.addr) { Some(INADDR_LOOPBACK) } else { None })
                    }
                },
            },
        },
{
    let ep = match parse_sockaddr_in(addr, addrlen) {
        Ok(e) => e,
        Err(e) => return NetStep::Done(-(e as isize)),
    };
    let id = match lookup_inet_socket(fs, fdt, net, sockfd) {
        Some(id) => id,
        None => return NetStep::Done(-(ENOTSOCK as isize)),
    };
    let f = lookup_socket(fs, fdt, net, sockfd).unwrap().1;
    let _len = net.sockets.len();
    let s = net.sockets[id as usize];
    let s1 = Socket { remote: Some(ep), ..s };
    net.set_socket(id, s1);
    let nonblock = f.flags & O_NONBLOCK != 0;
    let loopback = ep.addr / 0x100_0000 == 127;
    if s.proto == SockProto::Tcp {
        if s.tcp != TcpState::Closed {
            return NetStep::Done(-(EISCONN as isize));
        }
        let l0 = match s.stack_local {
            Some(l) => l,
            None => Endpoint { addr: if loopback { INADDR_LOOPBACK } else { DEFAULT_LOCAL_ADDR }, port: 0 },
        };
        let port = if l0.port == 0 { net.alloc_ephemeral_port() } else { l0.port };
        let local = Endpoint { addr: l0.addr, port };
        if ep.addr != INADDR_ANY && ep.port != 0 {
            net.set_socket(id, Socket { local: Some(local), stack_local: Some(local), stack_remote: Some(ep),
                tcp: TcpState::SynSent, ..s1 });
            proof {
                assert(net.sockets@ =~= old(net).sockets@.update(id as int, Socket {
                    local: Some(local), stack_local: Some(local), stack_remote: Some(ep), tcp: TcpState::SynSent, ..s1 }));
            }
            if nonblock { NetStep::Done(-(EINPROGRESS as isize)) } else { NetStep::Wait }
        } else {
            net.set_socket(id, Socket { local: Some(local), ..s1 });
            proof {
                assert(net.sockets@ =~= old(net).sockets@.update(id as int, Socket { local: Some(local), ..s1 }));
            }
            NetStep::Done(-(EINVAL as isize))
        }
    } else {
        let port = match s.local {
            Some(l) => if l.port != 0 { l.port } else { net.alloc_ephemeral_port() },
            None => net.alloc_ephemeral_port(),
        };
        let laddr = if loopback { INADDR_LOOPBACK } else { INADDR_ANY };
        net.set_socket(id, Socket { local: Some(Endpoint { addr: laddr, port }), ..s1 });
        proof {
            assert(net.sockets@ =~= old(net).sockets@.update(id as int, Socket { local: Some(Endpoint { addr: laddr, port }), ..s1 }));
        }
        NetStep::AttachUdp(id, port, if loopback { Some(INADDR_LOOPBACK) } else { None })
    }
}

/// What a blocking `connect` decides each time it looks at the connection:
/// established gives 0, closed `ECONNREFUSED`; otherwise it waits on.
pub fn connect_wait(net: &NetState, id: u64) -> (r: Option<isize>)
    requires
        id < net.sockets@.len(),
    ensures
        net.sockets@[id as int].tcp == TcpState::Established ==> r == Some(0isize),
        net.sockets@[id as int].tcp == TcpState::Closed ==> r == Some(-ECONNREFUSED as isize),
        net.sockets@[id as int].tcp != TcpState::Established && net.sockets@[id as int].tcp != TcpState::Closed ==> r is None,
{
    let _len = net.sockets.len();
    match net.sockets[id as usize].tcp {
        TcpState::Established => Some(0),
        TcpState::Closed => Some(-(ECONNREFUSED as isize)),
        _ => None,
    }
}

/// After a blocking socket call yields: a signal for the caller ends the
/// call with `EINTR`, else the call looks again.
pub fn interrupted(signal_pending: bool) -> (r: Option<isize>)
    ensures
        signal_pending ==> r == Some(-EINTR as isize),
        !signal_pending ==> r is None,
{
    if signal_pending { Some(-(EINTR as isize)) } else { None }
}

/// What `send` or `recv` returns after the file's read or write gave
/// `result`: the byte count; on `EAGAIN` a blocking Internet socket
/// waits (`None`) and tries again; other errors are returned.
pub fn socket_io_outcome(f: OpenFile, is_inet_socket: bool, result: Result<usize, FsError>) -> (r: Option<isize>)
    requires
        result matches Ok(n) ==> n <= isize::MAX,
    ensures
        result matches Ok(n) ==> r == Some(n as isize),
        result matches Err(e) ==> if e == FsError::WouldBlock && is_inet_socket && f.flags & O_NONBLOCK == 0 {
            r is None
        } else {
            r == Some(-e.errno() as isize)
        },
{
    match result {
        Ok(n) => Some(n as isize),
        Err(e) => {
            if e == FsError::WouldBlock && is_inet_socket && f.flags & O_NONBLOCK == 0 {
                None
            } else {
                Some(e.to_errno())
            }
        },
    }
}

/// The open file `send` or `recv` works on: `EBADF` for a negative or
/// closed descriptor.
pub fn socket_io_target(fs: &FileSystem, fdt: &FdTable, net: &NetState, sockfd: i32) -> (r: Result<(OpenFile, bool), isize>)
    requires
        fs.wf(),
    ensures
        !fd_open(fs, fdt@, sockfd) ==> r == Err::<(OpenFile, bool), isize>(-EBADF as isize),
        fd_open(fs, fdt@, sockfd) ==> (r matches Ok((f, inet)) && Some(f) == fs.file(entry(fdt@, sockfd as int)->0.file)
            && inet == (inet_socket(fs, fdt@, net, sockfd) is Some)),
{
    if !is_fd_open(fs, fdt, sockfd) {
        return Err(-(EBADF as isize));
    }
    let e = fdt.get(sockfd as usize).unwrap();
    let f = fs.get_file(e.file).unwrap();
    Ok((f, lookup_inet_socket(fs, fdt, net, sockfd).is_some()))
}

/// One attempt of `send`: `EBADF` for a descriptor that is not open;
/// otherwise what `socket_io_outcome` makes of `written`, the answer of
/// the socket's write (`None`: wait for the network and try again).
pub fn send(fs: &FileSystem, fdt: &FdTable, net: &NetState, sockfd: i32, written: Result<usize, FsError>) -> (r: Option<isize>)
    requires
        fs.wf(),
        written matches Ok(n) ==> n <= isize::MAX,
    ensures
        !fd_open(fs, fdt@, sockfd) ==> r == Some(-EBADF as isize),
        fd_open(fs, fdt@, sockfd) ==> ({
            let f = fs.file(entry(fdt@, sockfd as int)->0.file)->0;
            let blocking_retry = inet_socket(fs, fdt@, net, sockfd) is Some && f.flags & O_NONBLOCK == 0;
            match written {
                Ok(n) => r == Some(n as isize),
                Err(e) => if e == FsError::WouldBlock && blocking_retry { r is None } else { r == Some(-e.errno() as isize) },
            }
        }),
{
    match socket_io_target(fs, fdt, net, sockfd) {
        Err(e) => Some(e),
        Ok((f, inet)) => socket_io_outcome(f, inet, written),
    }
}

/// One attempt of `recv`, as `send` does it for the socket's read
/// (`received`); the bytes read go to the caller's buffer.
pub fn recv(fs: &FileSystem, fdt: &FdTable, net: &NetState, sockfd: i32, received: Result<usize, FsError>) -> (r: Option<isize>)
    requires
        fs.wf(),
        received matches Ok(n) ==> n <= isize::MAX,
    ensures
        !fd_open(fs, fdt@, sockfd) ==> r == Some(-EBADF as isize),
        fd_open(fs, fdt@, sockfd) ==> ({
            let f = fs.file(entry(fdt@, sockfd as int)->0.file)->0;
            let blocking_retry = inet_socket(fs, fdt@, net, sockfd) is Some && f.flags & O_NONBLOCK == 0;
            match received {
                Ok(n) => r == Some(n as isize),
                Err(e) => if e == FsError::WouldBlock && blocking_retry { r is None } else { r == Some(-e.errno() as isize) },
            }
        }),
{
    send(fs, fdt, net, sockfd, received)
}

/// Listing the network interfaces through this call is not supported: it
/// returns 0 and lists nothing.
pub fn get_network_interfaces() -> (r: isize)
    ensures
        r == 0,
{
    0
}

pub const SHUT_RD: i32 = 0;
pub const SHUT_WR: i32 = 1;
pub const SHUT_RDWR: i32 = 2;

/// A TCP connection after the stack closes it: a listening or connecting
/// socket becomes closed, an open connection starts closing.
pub open spec fn tcp_after_close(t: TcpState) -> TcpState {
    match t {
        TcpState::Closed | TcpState::Listen | TcpState::SynSent => TcpState::Closed,
        _ => TcpState::Closing,
    }
}

/// `shutdown`: `how` must be `SHUT_RD`, `SHUT_WR` or `SHUT_RDWR`, `sockfd`
/// a TCP or UDP socket. The directions are shut; shutting the write side
/// of a TCP socket also closes the connection.
pub fn shutdown(fs: &FileSystem, fdt: &FdTable, net: &mut NetState, sockfd: i32, how: i32) -> (r: isize)
    requires
        fs.wf(),
        old(net).wf(),
    ensures
        final(net).wf(),
        final(net).next_port == old(net).next_port,
        final(net).accept_queue == old(net).accept_queue,
        !(0 <= how <= 2) ==> r == -EINVAL as isize && *final(net) == *old(net),
        0 <= how <= 2 ==> match inet_socket(fs, fdt@, old(net), sockfd) {
            None => r == -ENOTSOCK as isize && *final(net) == *old(net),
            Some(id) => {
                let s = old(net).sockets@[id as int];
                let rd = how == SHUT_RD || how == SHUT_RDWR;
                let wr = how == SHUT_WR || how == SHUT_RDWR;
                &&& r == 0
                &&& final(net).sockets@ == old(net).sockets@.update(id as int, Socket {
                        shut_rd: s.shut_rd || rd,
                        shut_wr: s.shut_wr || wr,
                        tcp: if wr && s.proto == SockProto::Tcp { tcp_after_close(s.tcp) } else { s.tcp },
                        ..s })
            },
        },
{
    if how < 0 || how > 2 {
        return -(EINVAL as isize);
    }
    let id = match lookup_inet_socket(fs, fdt, net, sockfd) {
        Some(id) => id,
        None => return -(ENOTSOCK as isize),
    };
    let _len = net.sockets.len();
    let s = net.sockets[id as usize];
    let rd = how == SHUT_RD || how == SHUT_RDWR;
    let wr = how == SHUT_WR || how == SHUT_RDWR;
    let tcp = if wr && s.proto == SockProto::Tcp {
        match s.tcp {
            TcpState::Closed | TcpState::Listen | TcpState::SynSent => TcpState::Closed,
            _ => TcpState::Closing,
        }
    } else {
        s.tcp
    };
    net.set_socket(id, Socket { shut_rd: s.shut_rd || rd, shut_wr: s.shut_wr || wr, tcp, ..s });
    0
}

/// The local endpoint `getsockname` reports: the stack's, else the one the
/// socket recorded, else any address with port 0.
pub open spec fn sock_name(s: Socket) -> Endpoint {
    match s.stack_local {
        Some(ep) => ep,
        None => match s.local {
            Some(ep) => ep,
            None => Endpoint { addr: INADDR_ANY, port: 0 },
        },
    }
}

/// `getsockname`: the local address of a TCP or UDP socket, truncated to
/// the caller's `user_len` bytes, and the length to store.
pub fn getsockname(fs: &FileSystem, fdt: &FdTable, net: &NetState, sockfd: i32, user_len: u32)
    -> (r: Result<(Vec<u8>, u32), isize>)
    requires
        fs.wf(),
    ensures
        match inet_socket(fs, fdt@, net, sockfd) {
            None => r == Err::<(Vec<u8>, u32), isize>(-ENOTSOCK as isize),
            Some(id) => r matches Ok((b, n)) && n == (if user_len < 16 { user_len } else { 16 })
                && b@ == sockaddr_in_bytes(sock_name(net.sockets@[id as int])).take(n as int),
        },
{
    let id = match lookup_inet_socket(fs, fdt, net, sockfd) {
        Some(id) => id,
        None => return Err(-(ENOTSOCK as isize)),
    };
    let _len = net.sockets.len();
    let s = net.sockets[id as usize];
    let ep = match s.stack_local {
        Some(ep) => ep,
        None => match s.local {
            Some(ep) => ep,
            None => Endpoint { addr: INADDR_ANY, port: 0 },
        },
    };
    Ok(write_sockaddr_in(ep, user_len))
}

/// The peer `getpeername` reports: the stack's for TCP, the recorded one
/// for UDP.
pub open spec fn peer_name(s: Socket) -> Option<Endpoint> {
    if s.proto == SockProto::Tcp { s.stack_remote } else { s.remote }
}

/// `getpeername`: the peer address of a TCP or UDP socket, truncated to
/// the caller's `user_len` bytes; `ENOTCONN` without a peer.
pub fn getpeername(fs: &FileSystem, fdt: &FdTable, net: &NetState, sockfd: i32, user_len: u32)
    -> (r: Result<(Vec<u8>, u32), isize>)
    requires
        fs.wf(),
    ensures
        match inet_socket(fs, fdt@, net, sockfd) {
            None => r == Err::<(Vec<u8>, u32), isize>(-ENOTSOCK as isize),
            Some(id) => match peer_name(net.sockets@[id as int]) {
                None => r == Err::<(Vec<u8>, u32), isize>(-ENOTCONN as isize),
                Some(ep) => r matches Ok((b, n)) && n == (if user_len < 16 { user_len } else { 16 })
                    && b@ == sockaddr_in_bytes(ep).take(n as int),
            },
        },
{
    let id = match lookup_inet_socket(fs, fdt, net, sockfd) {
        Some(id) => id,
        None => return Err(-(ENOTSOCK as isize)),
    };
    let _len = net.sockets.len();
    let s = net.sockets[id as usize];
    let peer = if s.proto == SockProto::Tcp { s.stack_remote } else { s.remote };
    match peer {
        Some(ep) => Ok(write_sockaddr_in(ep, user_len)),
        None => Err(-(ENOTCONN as isize)),
    }
}


/// After a bind records endpoint `bound` on a socket the stack has given no
/// address, `getsockname` reports `bound`: its bytes read back as that
/// address and port.
pub proof fn law_getsockname_after_bind(net0: NetState, net1: NetState, id: u64, bound: Endpoint)
    requires
        id < net0.sockets@.len(),
        net0.sockets@[id as int].stack_local is None,
        net1.sockets@ == net0.sockets@.update(id as int, Socket { local: Some(bound), ..net0.sockets@[id as int] }),
    ensures
        sockaddr_in_of(sockaddr_in_bytes(sock_name(net1.sockets@[id as int])), crate::net::SOCKADDR_IN_LEN)
            == Ok::<Endpoint, i32>(bound),
{
    let b = sockaddr_in_bytes(bound);
    let a = bound.addr as int;
    let p = bound.port as int;
    assert(sock_name(net1.sockets@[id as int]) == bound);
    assert((p / 256) * 256 + p % 256 == p);
    assert((a / 0x100_0000) * 0x100_0000 + ((a / 0x1_0000) % 256) * 0x1_0000 + ((a / 0x100) % 256) * 0x100 + a % 256 == a);
    assert(b[2] as int == p / 256 && b[3] as int == p % 256);
    assert(b[4] as int == a / 0x100_0000 && b[5] as int == (a / 0x1_0000) % 256);
    assert(b[6] as int == (a / 0x100) % 256 && b[7] as int == a % 256);
}

} // verus!
