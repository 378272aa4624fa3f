//! `setsockopt` and `getsockopt`.

use vstd::prelude::*;
use crate::errno::{EBADF, EINVAL, ENOPROTOOPT, ENOTSOCK};
use crate::fd_table::FdTable;
use crate::file::FileSystem;
use crate::net::{NetState, SockOpts, SockProto, Socket};
use crate::syscall::net::{fd_open, fd_socket, is_fd_open, lookup_socket};

verus! {

pub const SOL_SOCKET: i32 = 1;
pub const SO_REUSEADDR: i32 = 2;
pub const SO_DONTROUTE: i32 = 5;
pub const SO_BROADCAST: i32 = 6;
pub const SO_SNDBUF: i32 = 7;
pub const SO_RCVBUF: i32 = 8;
pub const SO_KEEPALIVE: i32 = 9;
pub const SO_OOBINLINE: i32 = 10;
pub const SO_REUSEPORT: i32 = 15;
pub const SO_RCVLOWAT: i32 = 18;
pub const SO_SNDLOWAT: i32 = 19;
pub const SO_RCVTIMEO_OLD: i32 = 20;
pub const SO_SNDTIMEO_OLD: i32 = 21;
pub const IPPROTO_IP: i32 = 0;
pub const IP_TOS: i32 = 1;
pub const IP_TTL: i32 = 2;
pub const IP_PKTINFO: i32 = 8;
pub const IP_MTU_DISCOVER: i32 = 10;
pub const IP_RECVERR: i32 = 11;
pub const IPPROTO_TCP: i32 = 6;
pub const TCP_NODELAY: i32 = 1;
pub const TCP_MAXSEG: i32 = 2;
pub const TCP_INFO: i32 = 11;
pub const TCP_CONGESTION: i32 = 13;
pub const IPPROTO_IPV6: i32 = 41;
pub const IPV6_V6ONLY: i32 = 26;

/// Buffer sizes are kept between 4 KiB and 16 MiB.
pub const MIN_SOCK_BUF: usize = 4096;
pub const MAX_SOCK_BUF: usize = 16 * 1024 * 1024;
/// The size of the `tcp_info` record `getsockopt(TCP_INFO)` fills.
pub const TCP_INFO_LEN: usize = 104;

pub open spec fn clamp_buf(v: i32) -> usize {
    if v < 4096 { MIN_SOCK_BUF } else if v > 16 * 1024 * 1024 { MAX_SOCK_BUF } else { v as usize }
}

/// The options after setting `optname` at `level` to `val` (read only when
/// `optlen` is at least 4): flags become `val != 0`, buffer sizes a
/// non-negative `val` kept between 4 KiB and 16 MiB (a negative one is
/// `EINVAL`); some options are accepted and ignored; the rest, and any
/// level but `SOL_SOCKET` on a Unix-domain socket, give `ENOPROTOOPT`.
pub open spec fn set_opt(o: SockOpts, unix: bool, level: i32, optname: i32, optlen: u32, val: i32) -> Result<SockOpts, i32> {
    let set = optlen >= 4;
    if level == SOL_SOCKET {
        if optname == SO_REUSEADDR {
            Ok(if set { SockOpts { reuse_addr: val != 0, ..o } } else { o })
        } else if optname == SO_REUSEPORT {
            Ok(if set { SockOpts { reuse_port: val != 0, ..o } } else { o })
        } else if optname == SO_KEEPALIVE {
            Ok(if set { SockOpts { keepalive: val != 0, ..o } } else { o })
        } else if optname == SO_DONTROUTE || optname == SO_BROADCAST || optname == SO_OOBINLINE
            || optname == SO_RCVLOWAT || optname == SO_SNDLOWAT || optname == SO_RCVTIMEO_OLD || optname == SO_SNDTIMEO_OLD {
            Ok(o)
        } else if optname == SO_SNDBUF {
            if !set { Ok(o) } else if val < 0 { Err(EINVAL) } else { Ok(SockOpts { send_buffer_size: clamp_buf(val), ..o }) }
        } else if optname == SO_RCVBUF {
            if !set { Ok(o) } else if val < 0 { Err(EINVAL) } else { Ok(SockOpts { recv_buffer_size: clamp_buf(val), ..o }) }
        } else {
            Err(ENOPROTOOPT)
        }
    } else if unix {
        Err(ENOPROTOOPT)
    } else if level == IPPROTO_IP {
        if optname == IP_TOS || optname == IP_TTL || optname == IP_PKTINFO || optname == IP_MTU_DISCOVER || optname == IP_RECVERR {
            Ok(o)
        } else {
            Err(ENOPROTOOPT)
        }
    } else if level == IPPROTO_TCP {
        if optname == TCP_NODELAY { Ok(if set { SockOpts { tcp_nodelay: val != 0, ..o } } else { o }) } else { Err(ENOPROTOOPT) }
    } else if level == IPPROTO_IPV6 {
        if optname == IPV6_V6ONLY { Ok(if set { SockOpts { ipv6_v6only: val != 0, ..o } } else { o }) } else { Err(ENOPROTOOPT) }
    } else {
        Err(ENOPROTOOPT)
    }
}

fn clamp_buf_exec(v: i32) -> (r: usize)
    requires
        v >= 0,
    ensures
        r == clamp_buf(v),
{
    if v < 4096 { MIN_SOCK_BUF } else if v > 16 * 1024 * 1024 { MAX_SOCK_BUF } else { v as usize }
}

fn apply_opt(o: SockOpts, unix: bool, level: i32, optname: i32, optlen: u32, val: i32) -> (r: Result<SockOpts, i32>)
    ensures
        r == set_opt(o, unix, level, optname, optlen, val),
{
    let set = optlen >= 4;
    if level == SOL_SOCKET {
        if optname == SO_REUSEADDR {
            Ok(if set { SockOpts { reuse_addr: val != 0, ..o } } else { o })
        } else if optname == SO_REUSEPORT {
            Ok(if set { SockOpts { reuse_port: val != 0, ..o } } else { o })
        } else if optname == SO_KEEPALIVE {
            Ok(if set { SockOpts { keepalive: val != 0, ..o } } else { o })
        } else if optname == SO_DONTROUTE || optname == SO_BROADCAST || optname == SO_OOBINLINE
            || optname == SO_RCVLOWAT || optname == SO_SNDLOWAT || optname == SO_RCVTIMEO_OLD || optname == SO_SNDTIMEO_OLD {
            Ok(o)
        } else if optname == SO_SNDBUF {
            if !set { Ok(o) } else if val < 0 { Err(EINVAL) } else { Ok(SockOpts { send_buffer_size: clamp_buf_exec(val), ..o }) }
        } else if optname == SO_RCVBUF {
            if !set { Ok(o) } else if val < 0 { Err(EINVAL) } else { Ok(SockOpts { recv_buffer_size: clamp_buf_exec(val), ..o }) }
        } else {
            Err(ENOPROTOOPT)
        }
    } else if unix {
        Err(ENOPROTOOPT)
    } else if level == IPPROTO_IP {
        if optname == IP_TOS || optname == IP_TTL || optname == IP_PKTINFO || optname == IP_MTU_DISCOVER || optname == IP_RECVERR {
            Ok(o)
        } else {
            Err(ENOPROTOOPT)
        }
    } else if level == IPPROTO_TCP {
        if optname == TCP_NODELAY { Ok(if set { SockOpts { tcp_nodelay: val != 0, ..o } } else { o }) } else { Err(ENOPROTOOPT) }
    } else if level == IPPROTO_IPV6 {
        if optname == IPV6_V6ONLY { Ok(if set { SockOpts { ipv6_v6only: val != 0, ..o } } else { o }) } else { Err(ENOPROTOOPT) }
    } else {
        Err(ENOPROTOOPT)
    }
}

/// `setsockopt`. A negative descriptor or a missing value is invalid; the
/// descriptor must be open (`EBADF`) and a socket (`ENOTSOCK`). `val` is
/// the `int` at `optval`, read when `optlen` is at least 4.
pub fn setsockopt(fs: &FileSystem, fdt: &FdTable, net: &mut NetState, sockfd: i32, level: i32, optname: i32,
    has_optval: bool, optlen: u32, val: i32) -> (r: isize)
    requires
        fs.wf(),
        old(net).wf(),
    ensures
        final(net).wf(),
        final(net).next_port == old(net).next_port,
        final(net).accept_queue == old(net).accept_queue,
        sockfd < 0 || !has_optval ==> r == -EINVAL as isize && *final(net) == *old(net),
        sockfd >= 0 && has_optval && !fd_open(fs, fdt@, sockfd) ==> r == -EBADF as isize && *final(net) == *old(net),
        sockfd >= 0 && has_optval && fd_open(fs, fdt@, sockfd) ==> match fd_socket(fs, fdt@, old(net), sockfd) {
            None => r == -ENOTSOCK as isize && *final(net) == *old(net),
            Some((id, _f)) => {
                let s = old(net).sockets@[id as int];
                match set_opt(s.opts, s.proto == SockProto::Unix, level, optname, optlen, val) {
                    Err(e) => r == -e as isize && *final(net) == *old(net),
                    Ok(o) => r == 0 && final(net).sockets@ == old(net).sockets@.update(id as int, Socket { opts: o, ..s }),
                }
            },
        },
{
    if sockfd < 0 || !has_optval {
        return -(EINVAL as isize);
    }
    if !is_fd_open(fs, fdt, sockfd) {
        return -(EBADF as isize);
    }
    let id = match lookup_socket(fs, fdt, net, sockfd) {
        Some((id, _f)) => id,
        None => return -(ENOTSOCK as isize),
    };
    let _len = net.sockets.len();
    let s = net.sockets[id as usize];
    match apply_opt(s.opts, s.proto == SockProto::Unix, level, optname, optlen, val) {
        Err(e) => -(e as isize),
        Ok(o) => {
            net.set_socket(id, Socket { opts: o, ..s });
            0
        },
    }
}

/// The four bytes of `v`, least significant first.
pub open spec fn int_bytes(v: i32) -> Seq<u8> {
    let u = v as u32;
    seq![(u % 256) as u8, ((u / 256) % 256) as u8, ((u / 0x1_0000) % 256) as u8, (u / 0x100_0000) as u8]
}

fn int_bytes_exec(v: i32) -> (b: Vec<u8>)
    ensures
        b@ == int_bytes(v),
{
    #[verifier::truncate]
    let u = v as u32;
    let b: Vec<u8> = vec![(u % 256) as u8, ((u / 256) % 256) as u8, ((u / 0x1_0000) % 256) as u8, (u / 0x100_0000) as u8];
    proof {
        assert(b@ =~= int_bytes(v));
    }
    b
}

/// The name of the congestion control algorithm, NUL-terminated.
pub open spec fn congestion_name() -> Seq<u8> {
    seq![99u8, 117u8, 98u8, 105u8, 99u8, 0u8]
}

/// The `tcp_info` record reported: an established connection, nothing else known.
pub open spec fn tcp_info_bytes() -> Seq<u8> {
    Seq::new(TCP_INFO_LEN as nat, |i: int| if i == 0 { 1u8 } else { 0u8 })
}

/// The bytes `getsockopt` stores for an option, before truncation to the
/// caller's length: `None` for an unknown option (`ENOPROTOOPT`). Flags
/// and numbers are `int`s and are stored only when the buffer holds one.
pub open spec fn get_opt(o: SockOpts, level: i32, optname: i32) -> Option<(Seq<u8>, bool)> {
    let b = |x: bool| if x { int_bytes(1) } else { int_bytes(0) };
    if level == SOL_SOCKET {
        if optname == SO_REUSEADDR { Some((b(o.reuse_addr), true)) }
        else if optname == SO_REUSEPORT { Some((b(o.reuse_port), true)) }
        else if optname == SO_KEEPALIVE { Some((b(o.keepalive), true)) }
        else if optname == SO_SNDBUF { Some((int_bytes(o.send_buffer_size as i32), true)) }
        else if optname == SO_RCVBUF { Some((int_bytes(o.recv_buffer_size as i32), true)) }
        else { None }
    } else if level == IPPROTO_TCP {
        if optname == TCP_NODELAY { Some((b(o.tcp_nodelay), true)) }
        else if optname == TCP_MAXSEG { Some((int_bytes(o.tcp_maxseg as i32), true)) }
        else if optname == TCP_CONGESTION { Some((congestion_name(), false)) }
        else if optname == TCP_INFO { Some((tcp_info_bytes(), false)) }
        else { None }
    } else if level == IPPROTO_IPV6 {
        if optname == IPV6_V6ONLY { Some((b(o.ipv6_v6only), true)) } else { None }
    } else {
        None
    }
}

/// What is stored for an option value `v` in `avail` bytes: an `int` whole
/// or not at all, other values truncated.
pub open spec fn stored(v: Seq<u8>, whole: bool, avail: u32) -> Seq<u8> {
    if whole {
        if avail >= 4 { v } else { Seq::empty() }
    } else if avail < v.len() {
        v.take(avail as int)
    } else {
        v
    }
}

fn get_opt_exec(o: SockOpts, level: i32, optname: i32) -> (r: Option<(Vec<u8>, bool)>)
    ensures
        match get_opt(o, level, optname) {
            None => r is None,
            Some((v, w)) => r matches Some((b, w2)) && b@ == v && w2 == w,
        },
{
    let flag = |x: bool| -> (r: Vec<u8>)
        ensures r@ == (if x { int_bytes(1) } else { int_bytes(0) }),
    { if x { int_bytes_exec(1) } else { int_bytes_exec(0) } };
    if level == SOL_SOCKET {
        if optname == SO_REUSEADDR { Some((flag(o.reuse_addr), true)) }
        else if optname == SO_REUSEPORT { Some((flag(o.reuse_port), true)) }
        else if optname == SO_KEEPALIVE { Some((flag(o.keepalive), true)) }
        else if optname == SO_SNDBUF {
            #[verifier::truncate]
            let v = o.send_buffer_size as i32;
            Some((int_bytes_exec(v), true))
        }
        else if optname == SO_RCVBUF {
            #[verifier::truncate]
            let v = o.recv_buffer_size as i32;
            Some((int_bytes_exec(v), true))
        }
        else { None }
    } else if level == IPPROTO_TCP {
        if optname == TCP_NODELAY { Some((flag(o.tcp_nodelay), true)) }
        else if optname == TCP_MAXSEG {
            #[verifier::truncate]
            let v = o.tcp_maxseg as i32;
            Some((int_bytes_exec(v), true))
        }
        else if optname == TCP_CONGESTION {
            let v: Vec<u8> = vec![99u8, 117u8, 98u8, 105u8, 99u8, 0u8];
            proof { assert(v@ =~= congestion_name()); }
            Some((v, false))
        }
        else if optname == TCP_INFO {
            let mut v: Vec<u8> = Vec::new();
            let mut i: usize = 0;
            while i < TCP_INFO_LEN
                invariant
                    i <= TCP_INFO_LEN,
                    v@ == tcp_info_bytes().take(i as int),
                decreases TCP_INFO_LEN - i,
            {
                v.push(if i == 0 { 1u8 } else { 0u8 });
                i = i + 1;
                proof { assert(v@ =~= tcp_info_bytes().take(i as int)); }
            }
            proof { assert(tcp_info_bytes().take(TCP_INFO_LEN as int) =~= tcp_info_bytes()); }
            Some((v, false))
        }
        else { None }
    } else if level == IPPROTO_IPV6 {
        if optname == IPV6_V6ONLY { Some((flag(o.ipv6_v6only), true)) } else { None }
    } else {
        None
    }
}

/// `getsockopt`: the bytes to store at `optval` and the length to store at
/// `optlen`, for a caller buffer of `avail` bytes. A negative descriptor or
/// a missing pointer is invalid; the descriptor must be open (`EBADF`) and
/// a socket (`ENOTSOCK`); a Unix-domain socket has only `SOL_SOCKET`
/// options; unknown options give `ENOPROTOOPT`.
pub fn getsockopt(fs: &FileSystem, fdt: &FdTable, net: &NetState, sockfd: i32, level: i32, optname: i32,
    has_optval: bool, has_optlen: bool, avail: u32) -> (r: Result<(Vec<u8>, u32), isize>)
    requires
        fs.wf(),
    ensures
        sockfd < 0 || !has_optval || !has_optlen ==> r == Err::<(Vec<u8>, u32), isize>(-EINVAL as isize),
        sockfd >= 0 && has_optval && has_optlen && !fd_open(fs, fdt@, sockfd) ==> r == Err::<(Vec<u8>, u32), isize>(-EBADF as isize),
        sockfd >= 0 && has_optval && has_optlen && fd_open(fs, fdt@, sockfd) ==> match fd_socket(fs, fdt@, net, sockfd) {
            None => r == Err::<(Vec<u8>, u32), isize>(-ENOTSOCK as isize),
            Some((id, _f)) => {
                let s = net.sockets@[id as int];
                if s.proto == SockProto::Unix && level != SOL_SOCKET {
                    r == Err::<(Vec<u8>, u32), isize>(-ENOPROTOOPT as isize)
                } else {
                    match get_opt(s.opts, level, optname) {
                        None => r == Err::<(Vec<u8>, u32), isize>(-ENOPROTOOPT as isize),
                        Some((v, whole)) => r matches Ok((b, n)) && b@ == stored(v, whole, avail) && n == b@.len(),
                    }
                }
            },
        },
{
    if sockfd < 0 || !has_optval || !has_optlen {
        return Err(-(EINVAL as isize));
    }
    if !is_fd_open(fs, fdt, sockfd) {
        return Err(-(EBADF as isize));
    }
    let id = match lookup_socket(fs, fdt, net, sockfd) {
        Some((id, _f)) => id,
        None => return Err(-(ENOTSOCK as isize)),
    };
    let _len = net.sockets.len();
    let s = net.sockets[id as usize];
    if s.proto == SockProto::Unix && level != SOL_SOCKET {
        return Err(-(ENOPROTOOPT as isize));
    }
    let (v, whole) = match get_opt_exec(s.opts, level, optname) {
        Some(x) => x,
        None => return Err(-(ENOPROTOOPT as isize)),
    };
    let out: Vec<u8> = if whole {
        if avail >= 4 { v } else { Vec::new() }
    } else if (avail as usize) < v.len() {
        let mut t: Vec<u8> = Vec::new();
        let mut i: usize = 0;
        while i < avail as usize
            invariant
                avail as usize <= v@.len(),
                i <= avail as usize,
                t@ == v@.take(i as int),
            decreases avail as usize - i,
        {
            t.push(v[i]);
            i = i + 1;
            proof { assert(t@ =~= v@.take(i as int)); }
        }
        t
    } else {
        v
    };
    let n = out.len() as u32;
    Ok((out, n))
}

} // verus!
