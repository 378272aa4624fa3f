use comix_kernel::net::{Endpoint, NetState, parse_sockaddr_in, make_sockaddr_in, EPHEMERAL_PORT_END, EPHEMERAL_PORT_START};
use comix_kernel::syscall::time::{TimeSpec, into_freq, from_freq};
use comix_kernel::syscall::mm::{brk, mmap, munmap, MAP_ANONYMOUS, MAP_PRIVATE, MAP_FAILED};
use comix_kernel::syscall::rlimit::{Rlimit, RlimitStruct, getrlimit, setrlimit, prlimit, RLIM_NLIMITS};
use comix_kernel::syscall::sys::{reboot, sysinfo, REBOOT_MAGIC1, REBOOT_MAGIC2, REBOOT_CMD_POWER_OFF};
use comix_kernel::syscall::cred::{getresuid, setuid};
use comix_kernel::syscall::wait::{wait4, WaitStep, WNOHANG};
use comix_kernel::syscall::net::get_network_interfaces;
use comix_kernel::syscall::io::{ppoll_decide, ppoll_check};
use comix_kernel::boot::{run_primary_boot, PrimaryBootOps};
use comix_kernel::file::FsType;

fn limits() -> RlimitStruct {
    RlimitStruct::new(vec![Rlimit { rlim_cur: 8, rlim_max: 16 }; RLIM_NLIMITS])
}

#[test]
fn sockaddr_in_round_trip() {
    let ep = Endpoint { addr: 0x0a00_020f, port: 8080 };
    let b = make_sockaddr_in(ep);
    assert_eq!(b.len(), 16);
    assert_eq!(&b[0..8], &[2, 0, 0x1f, 0x90, 10, 0, 2, 15]);
    assert_eq!(parse_sockaddr_in(&b, 16), Ok(ep));
    assert_eq!(parse_sockaddr_in(&b, 8), Err(22));
    let mut other = b.clone();
    other[0] = 10;
    assert_eq!(parse_sockaddr_in(&other, 16), Err(97));
}

#[test]
fn ephemeral_ports_wrap_within_their_range() {
    let mut n = NetState::new(vec![0x7f00_0001]);
    assert_eq!(n.alloc_ephemeral_port(), EPHEMERAL_PORT_START);
    assert_eq!(n.alloc_ephemeral_port(), EPHEMERAL_PORT_START + 1);
    n.next_port = EPHEMERAL_PORT_END;
    assert_eq!(n.alloc_ephemeral_port(), EPHEMERAL_PORT_END);
    assert_eq!(n.alloc_ephemeral_port(), EPHEMERAL_PORT_START);
}

#[test]
fn timespec_tick_conversions() {
    assert_eq!(into_freq(TimeSpec { tv_sec: 2, tv_nsec: 500_000_000 }, 1000), 2500);
    let t = from_freq(2500, 1000);
    assert_eq!((t.tv_sec, t.tv_nsec), (2, 500_000_000));
    assert_eq!(into_freq(TimeSpec { tv_sec: i64::MAX, tv_nsec: 0 }, 10_000_000), u64::MAX);
}

#[test]
fn brk_mmap_munmap_results() {
    assert_eq!(brk(Some(0x1000), 0, None), 0x1000);
    assert_eq!(brk(None, 0, None), 0);
    assert_eq!(brk(Some(0x1000), 0x3000, Some(0x3000)), 0x3000);
    assert_eq!(brk(Some(0x1000), 0x3000, None), 0x1000);
    assert_eq!(mmap(0, 0, 3, MAP_PRIVATE | MAP_ANONYMOUS, Some(0x4000)), -22);
    assert_eq!(mmap(0, 4096, 3, MAP_ANONYMOUS, Some(0x4000)), -22);
    assert_eq!(mmap(0, 4096, 3, MAP_PRIVATE, Some(0x4000)), -95);
    assert_eq!(mmap(0, 4096, 3, MAP_PRIVATE | MAP_ANONYMOUS, Some(0x4000)), 0x4000);
    assert_eq!(mmap(0, 4096, 3, MAP_PRIVATE | MAP_ANONYMOUS, None), MAP_FAILED);
    assert_eq!(munmap(0, false), 0);
    assert_eq!(munmap(4096, true), 0);
    assert_eq!(munmap(4096, false), -22);
}

#[test]
fn rlimits_get_set_and_prlimit() {
    let mut l = limits();
    assert_eq!(getrlimit(&l, 3), Ok(Rlimit { rlim_cur: 8, rlim_max: 16 }));
    assert_eq!(getrlimit(&l, 16), Err(-22));
    assert_eq!(getrlimit(&l, -1), Err(-22));
    assert_eq!(setrlimit(&mut l, 3, Rlimit { rlim_cur: 20, rlim_max: 10 }), -22);
    assert_eq!(setrlimit(&mut l, 3, Rlimit { rlim_cur: 1, rlim_max: 2 }), 0);
    assert_eq!(getrlimit(&l, 3), Ok(Rlimit { rlim_cur: 1, rlim_max: 2 }));
    let (r, old) = prlimit(&mut l, 3, true, Some(Rlimit { rlim_cur: 9, rlim_max: 9 }));
    assert_eq!((r, old), (0, Some(Rlimit { rlim_cur: 1, rlim_max: 2 })));
    let (r, old) = prlimit(&mut l, 3, true, Some(Rlimit { rlim_cur: 10, rlim_max: 9 }));
    assert_eq!((r, old), (-22, Some(Rlimit { rlim_cur: 9, rlim_max: 9 })));
}

#[test]
fn reboot_checks_both_magic_numbers() {
    let m1 = REBOOT_MAGIC1 as i32;
    let m2 = REBOOT_MAGIC2 as i32;
    assert_eq!(reboot(m1, m2, REBOOT_CMD_POWER_OFF as i32), (0, true));
    assert_eq!(reboot(m1, m2, 0x1234_5678), (0, false));
    assert_eq!(reboot(0, m2, REBOOT_CMD_POWER_OFF as i32), (-22, false));
    assert_eq!(reboot(m1, 7, REBOOT_CMD_POWER_OFF as i32), (-22, false));
}

#[test]
fn sysinfo_reports_whole_seconds() {
    assert_eq!(sysinfo(12_345, 1000).uptime, 12);
    assert_eq!(get_network_interfaces(), 0);
}

#[test]
fn poll_decision() {
    assert_eq!(ppoll_decide(2, Some(10), 0), Some(2));
    assert_eq!(ppoll_decide(0, Some(10), 10), Some(0));
    assert_eq!(ppoll_decide(0, Some(10), 9), None);
    assert_eq!(ppoll_decide(0, None, 1_000_000), None);
    assert_eq!(ppoll_check(0, 1), Err(-22));
    assert_eq!(ppoll_check(0x1000, 1), Ok(()));
}

#[test]
fn boot_gives_init_root_credentials_and_no_children() {
    let ops = PrimaryBootOps::new(b"riscv64".to_vec(), b"hart".to_vec());
    let (mut k, _fs, _fdt, _ctx) = run_primary_boot(&ops, 2, 7, FsType::Tmpfs, Vec::new());
    assert_eq!(getresuid(&k, true), Ok((0, 0, 0)));
    assert_eq!(getresuid(&k, false), Err(-14));
    assert_eq!(setuid(0), 0);
    assert_eq!(setuid(1000), -1);
    assert_eq!(wait4(&mut k, -1, WNOHANG), Ok(WaitStep::NoHang));
    assert_eq!(wait4(&mut k, -1, 0x40), Err(22));
}
