//! The kernel log as `syslog` sees it: the unread entries, already
//! formatted, and the console level; and the `syslog` system call.

use vstd::prelude::*;
use crate::errno::EINVAL;

verus! {

/// What `syslog` is asked to do (its first argument, 0 to 10).
#[derive(Clone, Copy, Debug, PartialEq, Eq, Structural)]
pub enum SyslogAction {
    Close,
    Open,
    Read,
    ReadAll,
    ReadClear,
    Clear,
    ConsoleOff,
    ConsoleOn,
    ConsoleLevel,
    SizeUnread,
    SizeBuffer,
}

pub open spec fn action_of(v: i32) -> Option<SyslogAction> {
    if v == 0 { Some(SyslogAction::Close) }
    else if v == 1 { Some(SyslogAction::Open) }
    else if v == 2 { Some(SyslogAction::Read) }
    else if v == 3 { Some(SyslogAction::ReadAll) }
    else if v == 4 { Some(SyslogAction::ReadClear) }
    else if v == 5 { Some(SyslogAction::Clear) }
    else if v == 6 { Some(SyslogAction::ConsoleOff) }
    else if v == 7 { Some(SyslogAction::ConsoleOn) }
    else if v == 8 { Some(SyslogAction::ConsoleLevel) }
    else if v == 9 { Some(SyslogAction::SizeUnread) }
    else if v == 10 { Some(SyslogAction::SizeBuffer) }
    else { None }
}

impl SyslogAction {
    /// The action numbered `v`, or `EINVAL`.
    pub fn from_i32(v: i32) -> (r: Result<SyslogAction, i32>)
        ensures
            action_of(v) matches Some(a) ==> r == Ok::<SyslogAction, i32>(a),
            action_of(v) is None ==> r == Err::<SyslogAction, i32>(EINVAL),
    {
        match v {
            0 => Ok(SyslogAction::Close),
            1 => Ok(SyslogAction::Open),
            2 => Ok(SyslogAction::Read),
            3 => Ok(SyslogAction::ReadAll),
            4 => Ok(SyslogAction::ReadClear),
            5 => Ok(SyslogAction::Clear),
            6 => Ok(SyslogAction::ConsoleOff),
            7 => Ok(SyslogAction::ConsoleOn),
            8 => Ok(SyslogAction::ConsoleLevel),
            9 => Ok(SyslogAction::SizeUnread),
            10 => Ok(SyslogAction::SizeBuffer),
            _ => Err(EINVAL),
        }
    }
}

pub open spec fn is_read(a: SyslogAction) -> bool {
    a == SyslogAction::Read || a == SyslogAction::ReadAll || a == SyslogAction::ReadClear
}

pub open spec fn syslog_args_ok(a: SyslogAction, bufp: usize, len: i32) -> bool {
    if is_read(a) {
        bufp != 0 && len >= 0
    } else if a == SyslogAction::ConsoleLevel {
        1 <= len <= 8
    } else {
        true
    }
}

/// The reading actions need a buffer and a length of at least 0; setting
/// the console level needs a level from 1 to 8.
pub fn validate_syslog_args(action: SyslogAction, bufp: usize, len: i32) -> (r: Result<(), i32>)
    ensures
        r is Ok <==> syslog_args_ok(action, bufp, len),
        r matches Err(e) ==> e == EINVAL,
{
    match action {
        SyslogAction::Read | SyslogAction::ReadAll | SyslogAction::ReadClear => {
            if bufp == 0 || len < 0 {
                return Err(EINVAL);
            }
        },
        SyslogAction::ConsoleLevel => {
            if len < 1 || len > 8 {
                return Err(EINVAL);
            }
        },
        _ => {},
    }
    Ok(())
}

/// The restriction of unprivileged log reads (`dmesg_restrict`); reads are
/// not restricted.
pub const DMESG_RESTRICT: u32 = 0;

/// Every action is allowed to every caller: the log is not restricted and
/// there are no further checks.
pub fn check_syslog_permission(action: SyslogAction) -> (r: Result<(), i32>)
    ensures
        r is Ok,
{
    if (action == SyslogAction::ReadAll || action == SyslogAction::SizeBuffer) && DMESG_RESTRICT == 0 {
        return Ok(());
    }
    Ok(())
}

/// The console shows messages up to this level when it is switched on.
pub const DEFAULT_CONSOLE_LEVEL: u8 = 4;

/// The unread entries of the kernel log, oldest first, as text; the level
/// up to which messages reach the console (0 to 7); and the size of the
/// log buffer.
pub struct LogBuffer {
    pub entries: Vec<Vec<u8>>,
    pub console_level: u8,
    pub capacity: usize,
}

pub open spec fn entries_of(es: Seq<Vec<u8>>) -> Seq<Seq<u8>> {
    es.map_values(|e: Vec<u8>| e@)
}

/// All entries, one after the other.
pub open spec fn joined(es: Seq<Seq<u8>>) -> Seq<u8>
    decreases es.len(),
{
    if es.len() == 0 {
        Seq::empty()
    } else {
        joined(es.drop_last()) + es.last()
    }
}

/// How many entries from position `i` on are read into `room` bytes when
/// `used` bytes are taken: reading stops at the end, when the room is full,
/// or at the first entry that does not fit.
pub open spec fn fit_from(es: Seq<Seq<u8>>, i: nat, used: int, room: int) -> nat
    decreases es.len() - i,
{
    if i >= es.len() || used >= room || used + es[i as int].len() > room {
        i
    } else {
        fit_from(es, i + 1, used + es[i as int].len(), room)
    }
}

/// The number of entries a read of `room` bytes returns.
pub open spec fn read_count(es: Seq<Seq<u8>>, room: int) -> nat {
    fit_from(es, 0, 0, room)
}

/// The entries a destructive read removes: those returned, and the first
/// one that did not fit when there was room left.
pub open spec fn consumed(es: Seq<Seq<u8>>, room: int) -> nat {
    let n = read_count(es, room);
    if n < es.len() && joined(es.take(n as int)).len() < room { n + 1 } else { n }
}

pub open spec fn total_len(es: Seq<Seq<u8>>) -> int {
    joined(es).len() as int
}

proof fn lemma_joined_push(es: Seq<Seq<u8>>, i: int)
    requires
        0 <= i < es.len(),
    ensures
        joined(es.take(i + 1)) == joined(es.take(i)) + es[i],
{
    assert(es.take(i + 1).drop_last() =~= es.take(i));
}

impl LogBuffer {
    /// Reads whole entries into at most `room` bytes, from the oldest on;
    /// with `remove`, takes the read entries (and the first one that did
    /// not fit) off the log.
    fn read_entries(&mut self, room: usize, remove: bool) -> (data: Vec<u8>)
        ensures
            data@ == joined(entries_of(old(self).entries@).take(read_count(entries_of(old(self).entries@), room as int) as int)),
            data@.len() <= room,
            remove ==> final(self).entries@ == old(self).entries@.skip(consumed(entries_of(old(self).entries@), room as int) as int),
            !remove ==> final(self).entries@ == old(self).entries@,
            final(self).console_level == old(self).console_level,
            final(self).capacity == old(self).capacity,
    {
        let ghost es = entries_of(self.entries@);
        let mut data: Vec<u8> = Vec::new();
        let mut i: usize = 0;
        let n = self.entries.len();
        while i < n
            invariant
                n == self.entries@.len(),
                self.entries@ == old(self).entries@,
                es == entries_of(self.entries@),
                i <= n,
                data@ == joined(es.take(i as int)),
                data@.len() <= room,
                fit_from(es, i as nat, data@.len() as int, room as int) == read_count(es, room as int),
            ensures
                self.entries@ == old(self).entries@,
                es == entries_of(self.entries@),
                i <= n,
                data@ == joined(es.take(i as int)),
                data@.len() <= room,
                fit_from(es, i as nat, data@.len() as int, room as int) == read_count(es, room as int),
                i >= n || data@.len() >= room || data@.len() + es[i as int].len() > room,
            decreases n - i,
        {
            if data.len() >= room {
                break;
            }
            let e = &self.entries[i];
            if e.len() > room - data.len() {
                break;
            }
            proof {
                lemma_joined_push(es, i as int);
            }
            let mut j: usize = 0;
            let ghost d0 = data@;
            while j < e.len()
                invariant
                    j <= e@.len(),
                    data@ == d0 + e@.take(j as int),
                decreases e@.len() - j,
            {
                data.push(e[j]);
                j = j + 1;
                proof {
                    assert(e@.take(j as int) =~= e@.take(j - 1).push(e@[j - 1]));
                }
            }
            proof {
                assert(e@.take(e@.len() as int) =~= e@);
                assert(es[i as int] == e@);
            }
            i = i + 1;
        }
        proof {
            assert(fit_from(es, i as nat, data@.len() as int, room as int) == i);
        }
        if remove {
            let mut drop = i;
            if i < n && data.len() < room {
                drop = i + 1;
            }
            let rest = self.entries.split_off(drop);
            self.entries = rest;
            proof {
                assert(self.entries@ =~= old(self).entries@.skip(drop as int));
            }
        }
        data
    }
}

/// The `syslog` system call on `log`: the result and the bytes to copy to
/// the caller's buffer. An unknown action or bad arguments give `EINVAL`.
/// The reads return whole entries that fit in `len` bytes (the
/// destructive ones also drop the first entry that did not fit, and
/// `ReadClear` then empties the log); the console actions set the console
/// level (`ConsoleLevel` takes 1 to 8 for levels 0 to 7 and returns the old
/// level plus one); the size queries return the unread bytes and the buffer
/// size; `Close` and `Open` do nothing.
pub fn syslog(log: &mut LogBuffer, type_: i32, bufp: usize, len: i32) -> (r: (isize, Vec<u8>))
    requires
        old(log).console_level < 8,
        total_len(entries_of(old(log).entries@)) <= isize::MAX,
        old(log).capacity <= isize::MAX,
    ensures
        final(log).capacity == old(log).capacity,
        ({
            let es = entries_of(old(log).entries@);
            match action_of(type_) {
                None => r.0 == -EINVAL as isize && r.1@.len() == 0 && *final(log) == *old(log),
                Some(a) => if !syslog_args_ok(a, bufp, len) {
                    r.0 == -EINVAL as isize && r.1@.len() == 0 && *final(log) == *old(log)
                } else {
                    match a {
                        SyslogAction::Read => {
                            &&& r.1@ == joined(es.take(read_count(es, len as int) as int))
                            &&& r.0 == r.1@.len()
                            &&& final(log).entries@ == old(log).entries@.skip(consumed(es, len as int) as int)
                            &&& final(log).console_level == old(log).console_level
                        },
                        SyslogAction::ReadAll => {
                            &&& r.1@ == joined(es.take(read_count(es, len as int) as int))
                            &&& r.0 == r.1@.len()
                            &&& final(log).entries@ == old(log).entries@
                            &&& final(log).console_level == old(log).console_level
                        },
                        SyslogAction::ReadClear => {
                            &&& r.1@ == joined(es.take(read_count(es, len as int) as int))
                            &&& r.0 == r.1@.len()
                            &&& final(log).entries@.len() == 0
                            &&& final(log).console_level == old(log).console_level
                        },
                        SyslogAction::Clear => r.0 == 0 && r.1@.len() == 0 && final(log).entries@.len() == 0
                            && final(log).console_level == old(log).console_level,
                        SyslogAction::ConsoleOff => r.0 == 0 && r.1@.len() == 0 && final(log).entries@ == old(log).entries@
                            && final(log).console_level == 0,
                        SyslogAction::ConsoleOn => r.0 == 0 && r.1@.len() == 0 && final(log).entries@ == old(log).entries@
                            && final(log).console_level == DEFAULT_CONSOLE_LEVEL,
                        SyslogAction::ConsoleLevel => r.0 == old(log).console_level + 1 && r.1@.len() == 0
                            && final(log).entries@ == old(log).entries@ && final(log).console_level == len - 1,
                        SyslogAction::SizeUnread => r.0 == total_len(es) && r.1@.len() == 0 && *final(log) == *old(log),
                        SyslogAction::SizeBuffer => r.0 == old(log).capacity && r.1@.len() == 0 && *final(log) == *old(log),
                        _ => r.0 == 0 && r.1@.len() == 0 && *final(log) == *old(log),
                    }
                }
            }
        }),
{
    let action = match SyslogAction::from_i32(type_) {
        Ok(a) => a,
        Err(e) => return (-(e as isize), Vec::new()),
    };
    if let Err(e) = validate_syslog_args(action, bufp, len) {
        return (-(e as isize), Vec::new());
    }
    if let Err(e) = check_syslog_permission(action) {
        return (-(e as isize), Vec::new());
    }
    match action {
        SyslogAction::Read => {
            let data = log.read_entries(len as usize, true);
            (data.len() as isize, data)
        },
        SyslogAction::ReadAll => {
            let data = log.read_entries(len as usize, false);
            (data.len() as isize, data)
        },
        SyslogAction::ReadClear => {
            let data = log.read_entries(len as usize, true);
            log.entries = Vec::new();
            (data.len() as isize, data)
        },
        SyslogAction::Clear => {
            log.entries = Vec::new();
            (0, Vec::new())
        },
        SyslogAction::ConsoleOff => {
            log.console_level = 0;
            (0, Vec::new())
        },
        SyslogAction::ConsoleOn => {
            log.console_level = DEFAULT_CONSOLE_LEVEL;
            (0, Vec::new())
        },
        SyslogAction::ConsoleLevel => {
            let old_level = log.console_level;
            log.console_level = (len - 1) as u8;
            ((old_level + 1) as isize, Vec::new())
        },
        SyslogAction::SizeUnread => {
            (unread_bytes(&log.entries) as isize, Vec::new())
        },
        SyslogAction::SizeBuffer => (log.capacity as isize, Vec::new()),
        SyslogAction::Close | SyslogAction::Open => (0, Vec::new()),
    }
}

/// The number of unread bytes in the log.
fn unread_bytes(es: &Vec<Vec<u8>>) -> (n: usize)
    requires
        total_len(entries_of(es@)) <= isize::MAX,
    ensures
        n == total_len(entries_of(es@)),
{
    let mut n: usize = 0;
    let mut i: usize = 0;
    while i < es.len()
        invariant
            i <= es@.len(),
            n == joined(entries_of(es@).take(i as int)).len(),
            total_len(entries_of(es@)) <= isize::MAX,
        decreases es@.len() - i,
    {
        proof {
            lemma_joined_push(entries_of(es@), i as int);
            lemma_joined_prefix_len(entries_of(es@), i as int + 1);
        }
        n = n + es[i].len();
        i = i + 1;
    }
    proof {
        assert(entries_of(es@).take(i as int) =~= entries_of(es@));
    }
    n
}

/// A prefix of the entries is no longer than all of them.
proof fn lemma_joined_prefix_len(es: Seq<Seq<u8>>, i: int)
    requires
        0 <= i <= es.len(),
    ensures
        joined(es.take(i)).len() <= joined(es).len(),
    decreases es.len(),
{
    if i < es.len() {
        assert(es.drop_last().take(i) =~= es.take(i));
        lemma_joined_prefix_len(es.drop_last(), i);
    } else {
        assert(es.take(i) =~= es);
    }
}

} // verus!
