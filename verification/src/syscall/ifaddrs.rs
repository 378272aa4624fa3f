//! `getifaddrs` and `freeifaddrs`: the list of interface addresses laid out
//! in one block of user memory, in the C library's `struct ifaddrs` form.

use vstd::prelude::*;
use crate::errno::{EFAULT, EINVAL, ENOMEM};

verus! {

/// One network interface: its name and its IPv4 addresses with their
/// prefix lengths.
pub struct IfaceInfo {
    pub name: Vec<u8>,
    pub addrs: Vec<(u32, u8)>,
}

/// One `ifaddrs` record: the interface name and one of its addresses (none
/// for an interface without one).
pub struct IfRecord {
    pub name: Vec<u8>,
    pub addr: Option<(u32, u8)>,
}

pub type RecView = (Seq<u8>, Option<(u32, u8)>);

pub const IFADDRS_SIZE: u64 = 56;
pub const SOCKADDR_SIZE: u64 = 16;
/// The header before the list: a magic number and the length of the mapping.
pub const IFADDRS_HEADER_SIZE: u64 = 16;
pub const IFADDRS_ALLOC_MAGIC: u64 = 0x434f_4d49_585f_4946;
pub const PAGE_SIZE: u64 = 4096;

pub const IFF_UP: u32 = 0x1;
pub const IFF_BROADCAST: u32 = 0x2;
pub const IFF_LOOPBACK: u32 = 0x8;
pub const IFF_RUNNING: u32 = 0x40;
pub const IFF_MULTICAST: u32 = 0x1000;

/// A loopback interface's name begins with "lo".
pub open spec fn is_lo(name: Seq<u8>) -> bool {
    name.len() >= 2 && name[0] == 108u8 && name[1] == 111u8
}

pub open spec fn iface_flags(name: Seq<u8>) -> u32 {
    if is_lo(name) { IFF_UP | IFF_RUNNING | IFF_MULTICAST | IFF_LOOPBACK } else { IFF_UP | IFF_RUNNING | IFF_MULTICAST | IFF_BROADCAST }
}

pub open spec fn iface_view(i: IfaceInfo) -> (Seq<u8>, Seq<(u32, u8)>) {
    (i.name@, i.addrs@)
}

/// The records of one interface: one per address, or one without an address.
pub open spec fn iface_recs(name: Seq<u8>, addrs: Seq<(u32, u8)>) -> Seq<RecView> {
    if addrs.len() == 0 {
        seq![(name, None::<(u32, u8)>)]
    } else {
        addrs.map_values(|a: (u32, u8)| (name, Some(a)))
    }
}

/// The records of all interfaces, in order.
pub open spec fn all_recs(ifs: Seq<(Seq<u8>, Seq<(u32, u8)>)>) -> Seq<RecView>
    decreases ifs.len(),
{
    if ifs.len() == 0 {
        Seq::empty()
    } else {
        all_recs(ifs.drop_last()) + iface_recs(ifs.last().0, ifs.last().1)
    }
}

pub open spec fn round8(n: int) -> int {
    ((n + 7) / 8) * 8
}

/// The bytes a record takes: the record, three socket addresses and the
/// name with its NUL, padded to 8 bytes.
pub open spec fn rec_size(r: RecView) -> int {
    104 + round8(r.0.len() + 1int)
}

/// Where record `k` starts.
pub open spec fn rec_off(rs: Seq<RecView>, k: int) -> int
    decreases k,
{
    if k <= 0 { 0 } else { rec_off(rs, k - 1) + rec_size(rs[k - 1]) }
}

/// The bytes of a `u64`, least significant first.
pub open spec fn le64(x: u64) -> Seq<u8> {
    seq![(x % 0x100) as u8, ((x / 0x100) % 0x100) as u8, ((x / 0x1_0000) % 0x100) as u8,
        ((x / 0x100_0000) % 0x100) as u8, ((x / 0x1_0000_0000) % 0x100) as u8,
        ((x / 0x100_0000_0000) % 0x100) as u8, ((x / 0x1_0000_0000_0000) % 0x100) as u8,
        ((x / 0x100_0000_0000_0000) % 0x100) as u8]
}

pub open spec fn le32(x: u32) -> Seq<u8> {
    seq![(x % 0x100) as u8, ((x / 0x100) % 0x100) as u8, ((x / 0x1_0000) % 0x100) as u8, (x / 0x100_0000) as u8]
}

/// The four octets of an IPv4 address, in network order.
pub open spec fn octets(a: u32) -> Seq<u8> {
    seq![(a / 0x100_0000) as u8, ((a / 0x1_0000) % 0x100) as u8, ((a / 0x100) % 0x100) as u8, (a % 0x100) as u8]
}

/// The netmask of a prefix length from 1 to 32.
pub open spec fn prefix_mask(p: u8) -> u32 {
    if p >= 32 { 0xffff_ffffu32 } else { !(((1u32 << ((32 - p) as u32)) - 1) as u32) }
}

/// A `sockaddr_in` with port 0 holding `a`.
pub open spec fn sockaddr_of(a: u32) -> Seq<u8> {
    seq![2u8, 0u8, 0u8, 0u8] + octets(a) + Seq::new(8, |i: int| 0u8)
}

pub open spec fn zeros(n: nat) -> Seq<u8> {
    Seq::new(n, |i: int| 0u8)
}

/// The three socket addresses of a record: address, netmask, and the
/// broadcast address (none for a loopback interface).
pub open spec fn rec_sockaddrs(r: RecView) -> Seq<u8> {
    match r.1 {
        None => zeros(48),
        Some((a, p)) => sockaddr_of(a) + sockaddr_of(prefix_mask(p))
            + if is_lo(r.0) { zeros(16) } else { sockaddr_of(a | !prefix_mask(p)) },
    }
}

/// One record laid out at user address `at`, followed by the record at `next`.
pub open spec fn rec_bytes_at(r: RecView, at: int, next: u64) -> Seq<u8> {
    rec_head(r.0, at, next) + rec_sockaddrs(r) + rec_name(r.0)
}

/// The `struct ifaddrs` itself: next, name, flags, address, netmask,
/// broadcast address and data pointers.
pub open spec fn rec_head(name: Seq<u8>, at: int, next: u64) -> Seq<u8> {
    le64(next) + le64((at + 104) as u64) + le32(iface_flags(name)) + zeros(4)
        + le64((at + 56) as u64) + le64((at + 72) as u64) + le64((at + 88) as u64) + zeros(8)
}

/// The name, its NUL and the padding to 8 bytes.
pub open spec fn rec_name(name: Seq<u8>) -> Seq<u8> {
    name + zeros((round8(name.len() + 1int) - name.len()) as nat)
}

/// Record `k` of `rs` laid out at user address `base`.
pub open spec fn rec_bytes(rs: Seq<RecView>, base: u64, k: int) -> Seq<u8> {
    let next = if k + 1 < rs.len() { (base + rec_off(rs, k + 1)) as u64 } else { 0u64 };
    rec_bytes_at(rs[k], base + rec_off(rs, k), next)
}

/// The first `n` records laid out.
pub open spec fn layout(rs: Seq<RecView>, base: u64, n: int) -> Seq<u8>
    decreases n,
{
    if n <= 0 { Seq::empty() } else { layout(rs, base, n - 1) + rec_bytes(rs, base, n - 1) }
}

pub open spec fn prefixes_ok(ifs: Seq<(Seq<u8>, Seq<(u32, u8)>)>) -> bool {
    forall|i: int, j: int| 0 <= i < ifs.len() && 0 <= j < ifs[i].1.len() ==> 1 <= (#[trigger] ifs[i].1[j]).1 <= 32
}

pub fn le64_exec(x: u64, out: &mut Vec<u8>)
    ensures
        final(out)@ == old(out)@ + le64(x),
{
    out.push((x % 0x100) as u8);
    out.push(((x / 0x100) % 0x100) as u8);
    out.push(((x / 0x1_0000) % 0x100) as u8);
    out.push(((x / 0x100_0000) % 0x100) as u8);
    out.push(((x / 0x1_0000_0000) % 0x100) as u8);
    out.push(((x / 0x100_0000_0000) % 0x100) as u8);
    out.push(((x / 0x1_0000_0000_0000) % 0x100) as u8);
    out.push(((x / 0x100_0000_0000_0000) % 0x100) as u8);
    proof { assert(out@ =~= old(out)@ + le64(x)); }
}

pub fn zeros_exec(n: usize, out: &mut Vec<u8>)
    ensures
        final(out)@ == old(out)@ + zeros(n as nat),
{
    let mut i: usize = 0;
    while i < n
        invariant
            i <= n,
            out@ == old(out)@ + zeros(i as nat),
        decreases n - i,
    {
        out.push(0u8);
        i = i + 1;
        proof { assert(out@ =~= old(out)@ + zeros(i as nat)); }
    }
}

fn sockaddr_exec(a: u32, out: &mut Vec<u8>)
    ensures
        final(out)@ == old(out)@ + sockaddr_of(a),
{
    out.push(2u8);
    out.push(0u8);
    out.push(0u8);
    out.push(0u8);
    out.push((a / 0x100_0000) as u8);
    out.push(((a / 0x1_0000) % 0x100) as u8);
    out.push(((a / 0x100) % 0x100) as u8);
    out.push((a % 0x100) as u8);
    let ghost mid = out@;
    zeros_exec(8, out);
    proof { assert(out@ =~= old(out)@ + sockaddr_of(a)); }
}

fn mask_exec(p: u8) -> (m: u32)
    requires
        1 <= p <= 32,
    ensures
        m == prefix_mask(p),
{
    if p >= 32 {
        0xffff_ffffu32
    } else {
        let s: u32 = (32 - p) as u32;
        assert((1u32 << s) >= 1) by (bit_vector)
            requires s < 32;
        !((1u32 << s) - 1)
    }
}

/// The records of all interfaces, in order.
pub fn flatten_records(ifs: &Vec<IfaceInfo>) -> (rs: Vec<IfRecord>)
    ensures
        rs@.map_values(|r: IfRecord| (r.name@, r.addr)) == all_recs(ifs@.map_values(|i: IfaceInfo| iface_view(i))),
{
    let ghost v = ifs@.map_values(|i: IfaceInfo| iface_view(i));
    let mut rs: Vec<IfRecord> = Vec::new();
    let mut i: usize = 0;
    while i < ifs.len()
        invariant
            i <= ifs@.len(),
            v == ifs@.map_values(|i: IfaceInfo| iface_view(i)),
            rs@.map_values(|r: IfRecord| (r.name@, r.addr)) == all_recs(v.take(i as int)),
        decreases ifs@.len() - i,
    {
        let ghost before = rs@.map_values(|r: IfRecord| (r.name@, r.addr));
        let iface = &ifs[i];
        if iface.addrs.len() == 0 {
            rs.push(IfRecord { name: iface.name.clone(), addr: None });
            proof {
                assert(rs@.map_values(|r: IfRecord| (r.name@, r.addr)) =~= before + iface_recs(iface.name@, iface.addrs@));
            }
        } else {
            let mut j: usize = 0;
            while j < iface.addrs.len()
                invariant
                    j <= iface.addrs@.len(),
                    rs@.map_values(|r: IfRecord| (r.name@, r.addr)) == before + iface_recs(iface.name@, iface.addrs@).take(j as int),
                    iface.addrs@.len() > 0,
                decreases iface.addrs@.len() - j,
            {
                let nm = iface.name.clone();
                proof { assert(nm@ =~= iface.name@); }
                let ghost prev = rs@;
                rs.push(IfRecord { name: nm, addr: Some(iface.addrs[j]) });
                proof {
                    assert(iface_recs(iface.name@, iface.addrs@)[j as int] == (iface.name@, Some(iface.addrs@[j as int])));
                    assert(rs@ == prev.push(IfRecord { name: nm, addr: Some(iface.addrs@[j as int]) }));
                    assert(rs@.map_values(|r: IfRecord| (r.name@, r.addr)) =~= prev.map_values(|r: IfRecord| (r.name@, r.addr)).push((iface.name@, Some(iface.addrs@[j as int]))));
                }
                j = j + 1;
                proof {
                    assert(rs@.map_values(|r: IfRecord| (r.name@, r.addr)) =~= before + iface_recs(iface.name@, iface.addrs@).take(j as int));
                }
            }
            proof {
                assert(iface_recs(iface.name@, iface.addrs@).take(j as int) =~= iface_recs(iface.name@, iface.addrs@));
            }
        }
        proof {
            assert(v.take(i + 1).drop_last() =~= v.take(i as int));
            assert(v.take(i + 1).last() == iface_view(ifs@[i as int]));
        }
        i = i + 1;
    }
    proof {
        assert(v.take(ifs@.len() as int) =~= v);
    }
    rs
}

/// A record's prefix length is from 1 to 32.
pub open spec fn prefix_ok(r: IfRecord) -> bool {
    r.addr matches Some((_a, p)) ==> 1 <= p <= 32
}

pub open spec fn rec_views(rs: Seq<IfRecord>) -> Seq<RecView> {
    rs.map_values(|r: IfRecord| (r.name@, r.addr))
}

/// The bytes the records take in all.
pub open spec fn layout_size(rs: Seq<RecView>) -> int {
    rec_off(rs, rs.len() as int)
}

pub proof fn lemma_rec_off_mono(rs: Seq<RecView>, k: int, n: int)
    requires
        0 <= k <= n,
    ensures
        rec_off(rs, k) <= rec_off(rs, n),
    decreases n - k,
{
    if k < n {
        lemma_rec_off_mono(rs, k, n - 1);
        assert(rec_size(rs[n - 1]) >= 104) by {
            assert(round8(rs[n - 1].0.len() + 1int) >= 0) by (nonlinear_arith)
                requires rs[n - 1].0.len() + 1int >= 1;
        }
    }
}

fn round8_exec(n: u64) -> (r: u64)
    requires
        n <= u64::MAX - 8,
    ensures
        r == round8(n as int),
{
    ((n + 7) / 8) * 8
}

/// The size of the layout of `rs`, or `None` when it does not fit in 64 bits.
pub fn ifaddrs_size(rs: &Vec<IfRecord>) -> (r: Option<u64>)
    ensures
        r matches Some(n) ==> n == layout_size(rec_views(rs@)) && n <= u64::MAX - 8192,
        r is None ==> layout_size(rec_views(rs@)) > u64::MAX - 8192,
{
    let ghost v = rec_views(rs@);
    let mut total: u64 = 0;
    let mut k: usize = 0;
    while k < rs.len()
        invariant
            k <= rs@.len(),
            v == rec_views(rs@),
            total == rec_off(v, k as int),
            total <= u64::MAX - 8192,
        decreases rs@.len() - k,
    {
        let len = rs[k].name.len() as u64;
        proof {
            assert(v[k as int].0.len() == len);
            assert(round8(len + 1) >= len + 1) by (nonlinear_arith);
            assert(round8(len + 1) <= len + 8) by (nonlinear_arith);
            lemma_rec_off_mono(v, k + 1, v.len() as int);
        }
        if len > u64::MAX - 8192 || total > u64::MAX - 8192 - len {
            return None;
        }
        let size = 104 + round8_exec(len + 1);
        total = total + size;
        k = k + 1;
        if total > u64::MAX - 8192 {
            proof { lemma_rec_off_mono(v, k as int, v.len() as int); }
            return None;
        }
    }
    Some(total)
}

fn emit_head(out: &mut Vec<u8>, name: &Vec<u8>, at: u64, next: u64)
    requires
        at + 104 <= u64::MAX,
    ensures
        final(out)@ == old(out)@ + rec_head(name@, at as int, next),
{
    let len = name.len();
    le64_exec(next, out);
    le64_exec(at + 104, out);
    let lo = len >= 2 && name[0] == 108u8 && name[1] == 111u8;
    let flags: u32 = if lo {
        IFF_UP | IFF_RUNNING | IFF_MULTICAST | IFF_LOOPBACK
    } else {
        IFF_UP | IFF_RUNNING | IFF_MULTICAST | IFF_BROADCAST
    };
    out.push((flags % 0x100) as u8);
    out.push(((flags / 0x100) % 0x100) as u8);
    out.push(((flags / 0x1_0000) % 0x100) as u8);
    out.push((flags / 0x100_0000) as u8);
    zeros_exec(4, out);
    le64_exec(at + 56, out);
    le64_exec(at + 72, out);
    le64_exec(at + 88, out);
    zeros_exec(8, out);
    proof {
        assert(flags == iface_flags(name@));
        assert(out@ =~= old(out)@ + rec_head(name@, at as int, next));
    }
}

fn emit_sockaddrs(out: &mut Vec<u8>, r: &IfRecord)
    requires
        prefix_ok(*r),
    ensures
        final(out)@ == old(out)@ + rec_sockaddrs((r.name@, r.addr)),
{
    let lo = r.name.len() >= 2 && r.name[0] == 108u8 && r.name[1] == 111u8;
    match r.addr {
        None => zeros_exec(48, out),
        Some((a, p)) => {
            let m = mask_exec(p);
            sockaddr_exec(a, out);
            sockaddr_exec(m, out);
            if lo {
                zeros_exec(16, out);
            } else {
                sockaddr_exec(a | !m, out);
            }
        },
    }
    proof {
        assert(out@ =~= old(out)@ + rec_sockaddrs((r.name@, r.addr)));
    }
}

fn emit_name(out: &mut Vec<u8>, name: &Vec<u8>)
    requires
        name@.len() <= u64::MAX - 16,
    ensures
        final(out)@ == old(out)@ + rec_name(name@),
{
    let len = name.len() as u64;
    proof {
        assert(round8(len + 1) >= len + 1) by (nonlinear_arith);
        assert(round8(len + 1) <= len + 8) by (nonlinear_arith);
    }
    let padded = round8_exec(len + 1);
    let mut j: usize = 0;
    while j < name.len()
        invariant
            j <= name@.len(),
            out@ == old(out)@ + name@.take(j as int),
        decreases name@.len() - j,
    {
        out.push(name[j]);
        j = j + 1;
        proof { assert(out@ =~= old(out)@ + name@.take(j as int)); }
    }
    proof { assert(name@.take(name@.len() as int) =~= name@); }
    let ghost mid = out@;
    zeros_exec((padded - len) as usize, out);
    proof {
        assert(out@ =~= old(out)@ + rec_name(name@));
    }
}

/// Appends record `r` laid out at user address `at`, pointing to `next`.
fn emit_record(out: &mut Vec<u8>, r: &IfRecord, at: u64, next: u64)
    requires
        prefix_ok(*r),
        at + 104 + round8(r.name@.len() + 1int) <= u64::MAX - 8,
    ensures
        final(out)@ == old(out)@ + rec_bytes_at((r.name@, r.addr), at as int, next),
{
    proof {
        assert(round8(r.name@.len() + 1int) >= r.name@.len() + 1) by (nonlinear_arith);
    }
    let ghost start = out@;
    emit_head(out, &r.name, at, next);
    let ghost a1 = out@;
    emit_sockaddrs(out, r);
    let ghost a2 = out@;
    emit_name(out, &r.name);
    proof {
        assert(out@ =~= start + rec_bytes_at((r.name@, r.addr), at as int, next));
    }
}

/// The records laid out at user address `base`.
pub fn build_ifaddrs(rs: &Vec<IfRecord>, base: u64) -> (b: Vec<u8>)
    requires
        base + layout_size(rec_views(rs@)) <= u64::MAX - 8,
        forall|k: int| 0 <= k < rs@.len() ==> prefix_ok(#[trigger] rs@[k]),
    ensures
        b@ == layout(rec_views(rs@), base, rs@.len() as int),
{
    let ghost v = rec_views(rs@);
    let n = rs.len();
    let mut out: Vec<u8> = Vec::new();
    let mut off: u64 = 0;
    let mut k: usize = 0;
    while k < n
        invariant
            n == rs@.len(),
            k <= n,
            v == rec_views(rs@),
            base + layout_size(v) <= u64::MAX - 8,
            forall|k: int| 0 <= k < rs@.len() ==> prefix_ok(#[trigger] rs@[k]),
            off == rec_off(v, k as int),
            out@ == layout(v, base, k as int),
        decreases n - k,
    {
        proof {
            lemma_rec_off_mono(v, k + 1, n as int);
        }
        let r = &rs[k];
        let len = r.name.len() as u64;
        proof {
            assert(v[k as int] == (r.name@, r.addr));
            assert(round8(len + 1) >= len + 1) by (nonlinear_arith);
            assert(round8(len + 1) <= len + 8) by (nonlinear_arith);
        }
        let padded = round8_exec(len + 1);
        let size = 104 + padded;
        let at = base + off;
        let next: u64 = if k + 1 < n { at + size } else { 0 };
        let ghost start = out@;
        emit_record(&mut out, r, at, next);
        proof {
            assert(next == if k + 1 < v.len() { (base + rec_off(v, k + 1)) as u64 } else { 0u64 });
            assert(out@ =~= start + rec_bytes(v, base, k as int));
        }
        off = off + size;
        k = k + 1;
    }
    out
}

/// What `getifaddrs` asks of the memory manager: nothing when there is no
/// interface (the list is empty), else a mapping of `map_len` bytes for
/// the header and the `total` bytes of records.
pub struct IfaddrsPlan {
    pub records: Vec<IfRecord>,
    pub total: u64,
    pub map_len: u64,
}

pub open spec fn round_page(n: int) -> int {
    ((n + 4095) / 4096) * 4096
}

/// First step of `getifaddrs`: `EFAULT` without a place for the result;
/// `None` (an empty list, returned as a null pointer) without interfaces;
/// `ENOMEM` when the layout does not fit in the address space; else the
/// records and the size of the mapping to ask for.
pub fn getifaddrs_plan(ifs: &Vec<IfaceInfo>, has_ifap: bool) -> (r: Result<Option<IfaddrsPlan>, isize>)
    ensures
        !has_ifap ==> r == Err::<Option<IfaddrsPlan>, isize>(-EFAULT as isize),
        has_ifap && ifs@.len() == 0 ==> r matches Ok(None),
        has_ifap && ifs@.len() > 0 ==> ({
            let rs = all_recs(ifs@.map_values(|i: IfaceInfo| iface_view(i)));
            match r {
                Ok(Some(p)) => rec_views(p.records@) == rs && p.total == layout_size(rs)
                    && p.map_len == round_page(layout_size(rs) + IFADDRS_HEADER_SIZE),
                Err(e) => e == -ENOMEM as isize && layout_size(rs) > u64::MAX - 8192,
                _ => false,
            }
        }),
{
    if !has_ifap {
        return Err(-(EFAULT as isize));
    }
    if ifs.len() == 0 {
        return Ok(None);
    }
    let records = flatten_records(ifs);
    let total = match ifaddrs_size(&records) {
        Some(t) => t,
        None => return Err(-(ENOMEM as isize)),
    };
    let raw = total + IFADDRS_HEADER_SIZE;
    let map_len = ((raw + 4095) / 4096) * 4096;
    proof {
        assert(((raw + 4095) / 4096) * 4096 <= raw + 4095) by (nonlinear_arith);
    }
    Ok(Some(IfaddrsPlan { records, total, map_len }))
}

/// Second step of `getifaddrs`, given the address the mapping got
/// (`mapped <= 0`: none, `ENOMEM`): the bytes to store at the mapping (the
/// header with the magic number and the mapping length, then the records,
/// which start right after it) and the pointer to the first record, which
/// goes to the caller.
pub fn getifaddrs_fill(plan: &IfaddrsPlan, mapped: i64) -> (r: Result<(Vec<u8>, u64), isize>)
    requires
        plan.total == layout_size(rec_views(plan.records@)),
        forall|k: int| 0 <= k < plan.records@.len() ==> prefix_ok(#[trigger] plan.records@[k]),
    ensures
        mapped <= 0 ==> r == Err::<(Vec<u8>, u64), isize>(-ENOMEM as isize),
        mapped > 0 && mapped + IFADDRS_HEADER_SIZE + plan.total <= u64::MAX - 8 ==> (r matches Ok((b, first))
            && first == mapped + IFADDRS_HEADER_SIZE
            && b@ == le64(IFADDRS_ALLOC_MAGIC) + le64(plan.map_len)
                + layout(rec_views(plan.records@), first, plan.records@.len() as int)),
        mapped > 0 && mapped + IFADDRS_HEADER_SIZE + plan.total > u64::MAX - 8 ==> r == Err::<(Vec<u8>, u64), isize>(-ENOMEM as isize),
{
    if mapped <= 0 {
        return Err(-(ENOMEM as isize));
    }
    let addr = mapped as u64;
    if addr > u64::MAX - 8 - IFADDRS_HEADER_SIZE || plan.total > u64::MAX - 8 - IFADDRS_HEADER_SIZE - addr {
        return Err(-(ENOMEM as isize));
    }
    let base = addr + IFADDRS_HEADER_SIZE;
    let mut out: Vec<u8> = Vec::new();
    le64_exec(IFADDRS_ALLOC_MAGIC, &mut out);
    le64_exec(plan.map_len, &mut out);
    let mut body = build_ifaddrs(&plan.records, base);
    out.append(&mut body);
    Ok((out, base))
}

/// First step of `freeifaddrs`: nothing to do for a null list (`Ok(None)`),
/// `EINVAL` for a pointer too low to follow a header, else the address of
/// the header to read.
pub fn freeifaddrs_header(ifa: u64) -> (r: Result<Option<u64>, isize>)
    ensures
        ifa == 0 ==> r == Ok::<Option<u64>, isize>(None),
        0 < ifa < IFADDRS_HEADER_SIZE ==> r == Err::<Option<u64>, isize>(-EINVAL as isize),
        ifa >= IFADDRS_HEADER_SIZE ==> r == Ok::<Option<u64>, isize>(Some((ifa - IFADDRS_HEADER_SIZE) as u64)),
{
    if ifa == 0 {
        return Ok(None);
    }
    if ifa < IFADDRS_HEADER_SIZE {
        return Err(-(EINVAL as isize));
    }
    Ok(Some(ifa - IFADDRS_HEADER_SIZE))
}

/// Second step of `freeifaddrs`, given the header read: the region to
/// unmap, or `EINVAL` when the header is not one `getifaddrs` wrote.
pub fn freeifaddrs_region(header_addr: u64, magic: u64, map_len: u64) -> (r: Result<(u64, u64), isize>)
    ensures
        magic == IFADDRS_ALLOC_MAGIC && map_len >= IFADDRS_HEADER_SIZE ==> r == Ok::<(u64, u64), isize>((header_addr, map_len)),
        !(magic == IFADDRS_ALLOC_MAGIC && map_len >= IFADDRS_HEADER_SIZE) ==> r == Err::<(u64, u64), isize>(-EINVAL as isize),
{
    if magic != IFADDRS_ALLOC_MAGIC || map_len < IFADDRS_HEADER_SIZE {
        return Err(-(EINVAL as isize));
    }
    Ok((header_addr, map_len))
}

/// Last step of `freeifaddrs`: a failed unmapping is `EINVAL`.
pub fn freeifaddrs_done(munmap_result: isize) -> (r: isize)
    ensures
        munmap_result < 0 ==> r == -EINVAL as isize,
        munmap_result >= 0 ==> r == 0,
{
    if munmap_result < 0 { -(EINVAL as isize) } else { 0 }
}

/// `freeifaddrs` of the list at `ifa`: a null list needs nothing (0); a
/// pointer too low to follow a header is `EINVAL`. Otherwise `header` is
/// the magic number and mapping length read just below `ifa`: a header
/// `getifaddrs` did not write is `EINVAL`; else the whole mapping is
/// unmapped, and `unmapped` is what that gave (a failure is `EINVAL`).
pub fn freeifaddrs(ifa: u64, header: (u64, u64), unmapped: isize) -> (r: isize)
    ensures
        ifa == 0 ==> r == 0,
        0 < ifa < IFADDRS_HEADER_SIZE ==> r == -EINVAL as isize,
        ifa >= IFADDRS_HEADER_SIZE ==> r == if header.0 != IFADDRS_ALLOC_MAGIC || header.1 < IFADDRS_HEADER_SIZE {
            -EINVAL as isize
        } else if unmapped < 0 {
            -EINVAL as isize
        } else {
            0
        },
{
    let at = match freeifaddrs_header(ifa) {
        Err(e) => return e,
        Ok(None) => return 0,
        Ok(Some(a)) => a,
    };
    match freeifaddrs_region(at, header.0, header.1) {
        Err(e) => e,
        Ok(_) => freeifaddrs_done(unmapped),
    }
}

} // verus!
