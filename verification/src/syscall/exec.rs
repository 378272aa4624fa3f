//! `execve`: the interpreter line of a script, and the choice of the file
//! and arguments the new program image is made from.

use vstd::prelude::*;
use crate::errno::{FsError, ENOENT, EISDIR, EIO, ENOEXEC, EINVAL, ENOMEM};
use crate::exec_loader::{ExecImageError, PagingError, PreparedExecImage, prepare_exec_image_from_path, prepare_outcome,
    utf8_valid, exec_file};
use crate::file::{FileSystem, FsStruct};
use crate::fd_table::FdTable;
use crate::vfs::InodeType;
use crate::syscall::path::{ctx_ok, resolve_at_flags, resolve_at_path_with_flags, AT_FDCWD};

verus! {

pub const HASH: u8 = 0x23;
pub const BANG: u8 = 0x21;
pub const NEWLINE: u8 = 0x0a;
pub const SPACE: u8 = 0x20;
pub const TAB: u8 = 0x09;
/// How much of a file `execve` reads to look for `#!`.
pub const PREFIX_MAX: u64 = 256;

/// A separator between the words of a `#!` line.
pub open spec fn is_blank(b: u8) -> bool {
    b == SPACE || b == TAB
}

/// The words of `s` read so far, and the word being read.
pub open spec fn words_acc(s: Seq<u8>) -> (Seq<Seq<u8>>, Seq<u8>)
    decreases s.len(),
{
    if s.len() == 0 {
        (Seq::empty(), Seq::empty())
    } else {
        let (done, cur) = words_acc(s.drop_last());
        if is_blank(s.last()) {
            if cur.len() == 0 { (done, cur) } else { (done.push(cur), Seq::empty()) }
        } else {
            (done, cur.push(s.last()))
        }
    }
}

/// The blank-separated words of `s`.
pub open spec fn words(s: Seq<u8>) -> Seq<Seq<u8>> {
    let (done, cur) = words_acc(s);
    if cur.len() == 0 { done } else { done.push(cur) }
}

/// The end of the first line of `d`: its first newline, or its length.
pub open spec fn line_end(d: Seq<u8>, e: int) -> bool {
    &&& 0 <= e <= d.len()
    &&& e < d.len() ==> d[e] == NEWLINE
    &&& forall|j: int| 0 <= j < e ==> d[j] != NEWLINE
}

/// The interpreter and optional argument of a `#!` line: the first two
/// words after `#!` on the first line, each of which must be UTF-8.
pub open spec fn hashbang(d: Seq<u8>, e: int) -> Result<(Seq<u8>, Option<Seq<u8>>), ()> {
    let w = words(d.subrange(2, e));
    if w.len() == 0 || !utf8_valid(w[0]) || (w.len() > 1 && !utf8_valid(w[1])) {
        Err(())
    } else {
        Ok((w[0], if w.len() > 1 { Some(w[1]) } else { None }))
    }
}

/// The interpreter line of `d` (see `hashbang`), read on its first line.
pub open spec fn hashbang_of(d: Seq<u8>) -> Result<(Seq<u8>, Option<Seq<u8>>), ()> {
    hashbang(d, choose|e: int| line_end(d, e))
}

/// Reads the interpreter line of a script that starts with `#!`.
pub fn parse_hashbang(data: &[u8]) -> (r: Result<(Vec<u8>, Option<Vec<u8>>), ()>)
    requires
        data@.len() >= 2,
        data@[0] == HASH,
        data@[1] == BANG,
    ensures
        match hashbang_of(data@) {
            Ok((p, a)) => r matches Ok((rp, ra)) && rp@ == p && match a {
                Some(x) => ra matches Some(y) && y@ == x,
                None => ra is None,
            },
            Err(()) => r is Err,
        },
{
    let mut e: usize = 0;
    while e < data.len() && data[e] != NEWLINE
        invariant
            0 <= e <= data@.len(),
            forall|j: int| 0 <= j < e ==> data@[j] != NEWLINE,
        decreases data@.len() - e,
    {
        e = e + 1;
    }
    assert(line_end(data@, e as int));
    assert(e >= 2);
    proof {
        let e1 = choose|e1: int| line_end(data@, e1);
        lemma_line_end_unique(data@, e as int, e1);
    }
    let line = vstd::slice::slice_subrange(data, 2, e);
    let mut words_v: Vec<Vec<u8>> = Vec::new();
    let ghost mut done: Seq<Seq<u8>> = Seq::empty();
    let mut cur: Vec<u8> = Vec::new();
    let mut i: usize = 0;
    assert(line@.take(0) =~= Seq::<u8>::empty());
    while i < line.len()
        invariant
            0 <= i <= line@.len(),
            words_acc(line@.take(i as int)) == (done, cur@),
            words_v@.len() == done.len(),
            forall|j: int| 0 <= j < done.len() ==> #[trigger] words_v@[j]@ == done[j],
        decreases line@.len() - i,
    {
        let b = line[i];
        assert(line@.take(i + 1).drop_last() =~= line@.take(i as int));
        if b == SPACE || b == TAB {
            if cur.len() > 0 {
                proof { done = done.push(cur@); }
                words_v.push(cur);
                cur = Vec::new();
                assert(cur@ =~= Seq::<u8>::empty());
            }
        } else {
            cur.push(b);
        }
        i = i + 1;
    }
    assert(line@.take(i as int) =~= line@);
    if cur.len() > 0 {
        proof { done = done.push(cur@); }
        words_v.push(cur);
    }
    assert(done == words(line@));
    if words_v.len() == 0 {
        return Err(());
    }
    if !crate::exec_loader::is_utf8(words_v[0].as_slice()) {
        return Err(());
    }
    if words_v.len() > 1 && !crate::exec_loader::is_utf8(words_v[1].as_slice()) {
        return Err(());
    }
    let arg = if words_v.len() > 1 { Some(clone_bytes(&words_v[1])) } else { None };
    let interp = clone_bytes(&words_v[0]);
    assert(interp@ == done[0]);
    Ok((interp, arg))
}

/// The negated errno `e`, as `execve` returns it.
pub open spec fn neg(e: i32) -> i32 {
    (-(e as int)) as i32
}

/// The errno `execve` returns for a file system error while it reads the file.
pub open spec fn read_errno(e: FsError) -> i32 {
    match e {
        FsError::NotFound => ENOENT,
        FsError::IsDirectory => EISDIR,
        _ => EIO,
    }
}

/// The errno `execve` returns when the image cannot be prepared.
pub open spec fn prepare_errno(e: ExecImageError) -> i32 {
    match e {
        ExecImageError::Fs(FsError::NotFound) => ENOENT,
        ExecImageError::Fs(FsError::IsDirectory) => EISDIR,
        ExecImageError::Fs(_) => EIO,
        ExecImageError::Paging(PagingError::OutOfMemory) => ENOMEM,
        _ => ENOEXEC,
    }
}

fn prepare_error_code(e: ExecImageError) -> (r: i32)
    ensures
        r == neg(prepare_errno(e)),
{
    match e {
        ExecImageError::Fs(FsError::NotFound) => -ENOENT,
        ExecImageError::Fs(FsError::IsDirectory) => -EISDIR,
        ExecImageError::Fs(_) => -EIO,
        ExecImageError::Paging(PagingError::OutOfMemory) => -ENOMEM,
        _ => -ENOEXEC,
    }
}

/// What `execve` sets up: the image, the file it came from and the
/// arguments and environment of the new program.
#[derive(Debug)]
pub struct ExecPlan {
    pub image: PreparedExecImage,
    pub exec_path: Vec<u8>,
    pub argv: Vec<Vec<u8>>,
    pub envp: Vec<Vec<u8>>,
}

/// The arguments after a `#!` line: the interpreter, its argument if any,
/// the script's path, then the original arguments but the first.
pub open spec fn script_argv(interp: Seq<u8>, arg: Option<Seq<u8>>, path: Seq<u8>, argv: Seq<Seq<u8>>) -> Seq<Seq<u8>> {
    let head = match arg { Some(a) => seq![interp, a, path], None => seq![interp, path] };
    head + (if argv.len() > 0 { argv.drop_first() } else { argv })
}

/// The file `execve` runs and the arguments it passes, or the errno: a
/// script starting with `#!` runs its interpreter instead.
pub open spec fn exec_target(fs: &FileSystem, ctx: FsStruct, path: Seq<u8>, argv: Seq<Seq<u8>>)
    -> Result<(Seq<u8>, Seq<Seq<u8>>), i32> {
    match resolve_at_flags(fs, ctx, Seq::empty(), AT_FDCWD, path, true) {
        Err(e) => Err(neg(read_errno(e))),
        Ok(n) => if fs.itype(n) != InodeType::File {
            Err(neg(EISDIR))
        } else {
            let data = fs.vfs.link(n);
            let len = if data.len() < PREFIX_MAX { data.len() } else { PREFIX_MAX as nat };
            let prefix = data.take(len as int);
            if len == 0 {
                Err(neg(ENOEXEC))
            } else if prefix.len() >= 2 && prefix[0] == HASH && prefix[1] == BANG {
                match hashbang_of(prefix) {
                    Ok((interp, arg)) => Ok((interp, script_argv(interp, arg, path, argv))),
                    Err(()) => Err(neg(EINVAL)),
                }
            } else {
                Ok((path, argv))
            }
        },
    }
}

proof fn lemma_line_end_unique(d: Seq<u8>, a: int, b: int)
    requires
        line_end(d, a),
        line_end(d, b),
    ensures
        a == b,
{
    if a < b { assert(d[a] == NEWLINE); }
    if b < a { assert(d[b] == NEWLINE); }
}

/// A copy of the bytes of `v`.
pub fn clone_bytes(v: &Vec<u8>) -> (r: Vec<u8>)
    ensures
        r@ == v@,
{
    let r = v.clone();
    assert(r@ =~= v@);
    r
}

/// The byte strings of `v`.
pub open spec fn strs(v: Seq<Vec<u8>>) -> Seq<Seq<u8>> {
    Seq::new(v.len(), |j: int| v[j]@)
}

/// `execve`: picks the file to run (following a `#!` line) and its
/// arguments, then prepares the image (`interp_region` is where the
/// address space has room for a dynamic linker). Gives the plan the
/// caller switches to, or the negated errno.
pub fn execve(fs: &FileSystem, ctx: &FsStruct, path: &[u8], argv: Vec<Vec<u8>>, envp: Vec<Vec<u8>>,
    interp_region: Option<u64>) -> (r: Result<ExecPlan, i32>)
    requires
        fs.wf(),
        ctx_ok(fs, *ctx),
    ensures
        match exec_target(fs, *ctx, path@, strs(argv@)) {
            Err(e) => r == Err::<ExecPlan, i32>(e),
            Ok((p, args)) => match prepare_outcome(fs, *ctx, p, interp_region) {
                Err(e) => r == Err::<ExecPlan, i32>(neg(prepare_errno(e))),
                Ok(_) => r matches Ok(plan) && plan.exec_path@ == p && strs(plan.argv@) == args
                    && plan.envp@ == envp@,
            },
        },
{
    let n = match resolve_at_path_with_flags(fs, ctx, &FdTable::new(), AT_FDCWD, path, true) {
        Err(FsError::NotFound) => return Err(-ENOENT),
        Err(FsError::IsDirectory) => return Err(-EISDIR),
        Err(_) => return Err(-EIO),
        Ok(n) => n,
    };
    if fs.vfs.inode_type(n) != InodeType::File {
        return Err(-EISDIR);
    }
    let data = fs.vfs.content(n);
    let len: usize = if data.len() < 256 { data.len() } else { 256 };
    if len == 0 {
        return Err(-ENOEXEC);
    }
    let prefix = vstd::slice::slice_subrange(data, 0, len);
    assert(prefix@ =~= data@.take(len as int));
    let (exec_path, new_argv) = if prefix.len() >= 2 && prefix[0] == HASH && prefix[1] == BANG {
        match parse_hashbang(prefix) {
            Err(()) => {
                return Err(-EINVAL);
            },
            Ok((interp, arg)) => {
                let ghost arg_v: Option<Seq<u8>> = match arg { Some(ref a) => Some(a@), None => None };
                assert(hashbang_of(prefix@) == Ok::<(Seq<u8>, Option<Seq<u8>>), ()>((interp@, arg_v)));
                let mut v: Vec<Vec<u8>> = Vec::new();
                v.push(clone_bytes(&interp));
                if let Some(a) = arg {
                    v.push(a);
                }
                v.push(vstd::slice::slice_to_vec(path));
                let ghost head = strs(v@);
                assert(head =~= match arg_v { Some(a) => seq![interp@, a, path@], None => seq![interp@, path@] });
                let start: usize = if argv.len() > 0 { 1 } else { 0 };
                let mut k: usize = start;
                assert(strs(v@) =~= head + strs(argv@).subrange(start as int, k as int));
                while k < argv.len()
                    invariant
                        start <= k <= argv@.len(),
                        start == (if argv@.len() > 0 { 1int } else { 0int }),
                        strs(v@) == head + strs(argv@).subrange(start as int, k as int),
                    decreases argv@.len() - k,
                {
                    let ghost before = v@;
                    let c = clone_bytes(&argv[k]);
                    v.push(c);
                    assert(strs(v@) =~= strs(before).push(c@));
                    assert(strs(argv@).subrange(start as int, k + 1) =~= strs(argv@).subrange(start as int, k as int).push(argv@[k as int]@));
                    assert(strs(v@) =~= head + strs(argv@).subrange(start as int, k + 1));
                    k = k + 1;
                }
                proof {
                    if argv@.len() > 0 {
                        assert(strs(argv@).subrange(1, argv@.len() as int) =~= strs(argv@).drop_first());
                    } else {
                        assert(strs(argv@).subrange(0, 0) =~= strs(argv@));
                    }
                    assert(strs(v@) == script_argv(interp@, arg_v, path@, strs(argv@)));
                    assert(resolve_at_flags(fs, *ctx, Seq::empty(), AT_FDCWD, path@, true) == Ok::<u64, FsError>(n));
                    assert(fs.vfs.link(n).take(len as int) == prefix@);
                    assert(exec_target(fs, *ctx, path@, strs(argv@))
                        == Ok::<(Seq<u8>, Seq<Seq<u8>>), i32>((interp@, strs(v@))));
                }
                (interp, v)
            },
        }
    } else {
        assert(!(prefix@.len() >= 2 && prefix@[0] == HASH && prefix@[1] == BANG));
        (vstd::slice::slice_to_vec(path), argv)
    };
    assert(resolve_at_flags(fs, *ctx, Seq::empty(), AT_FDCWD, path@, true) == Ok::<u64, FsError>(n));
    assert(fs.vfs.link(n) == data@);
    assert(exec_target(fs, *ctx, path@, strs(argv@))
        == Ok::<(Seq<u8>, Seq<Seq<u8>>), i32>((exec_path@, strs(new_argv@))));
    let image = match prepare_exec_image_from_path(fs, ctx, exec_path.as_slice(), interp_region) {
        Err(e) => return Err(prepare_error_code(e)),
        Ok(i) => i,
    };
    Ok(ExecPlan { image, exec_path, argv: new_argv, envp })
}


/// For a script whose first line names interpreter `interp` (and perhaps
/// one argument `arg`), `execve` runs the interpreter with the arguments:
/// the interpreter, its argument if any, the script's path, then the
/// caller's arguments without the first one.
pub proof fn law_execve_script_arguments(fs: &FileSystem, ctx: FsStruct, path: Seq<u8>, argv: Seq<Seq<u8>>,
    n: u64, interp: Seq<u8>, arg: Option<Seq<u8>>)
    requires
        resolve_at_flags(fs, ctx, Seq::empty(), AT_FDCWD, path, true) == Ok::<u64, FsError>(n),
        fs.itype(n) == InodeType::File,
        fs.vfs.link(n).len() >= 2,
        fs.vfs.link(n)[0] == HASH,
        fs.vfs.link(n)[1] == BANG,
        hashbang_of(fs.vfs.link(n).take(
            if fs.vfs.link(n).len() < PREFIX_MAX { fs.vfs.link(n).len() as int } else { PREFIX_MAX as int }))
            == Ok::<(Seq<u8>, Option<Seq<u8>>), ()>((interp, arg)),
    ensures
        ({
            let h: int = if arg is Some { 3 } else { 2 };
            exec_target(fs, ctx, path, argv) matches Ok((p, args)) && {
                &&& p == interp
                &&& args.len() == h + (if argv.len() > 0 { argv.len() - 1 } else { 0 })
                &&& args[0] == interp
                &&& (arg matches Some(a) ==> args[1] == a)
                &&& args[h - 1] == path
                &&& forall|i: int| 0 <= i < argv.len() - 1 ==> #[trigger] args[h + i] == argv[i + 1]
            }
        }),
{
    let data = fs.vfs.link(n);
    let len: int = if data.len() < PREFIX_MAX { data.len() as int } else { PREFIX_MAX as int };
    let prefix = data.take(len);
    assert(prefix.len() >= 2 && prefix[0] == HASH && prefix[1] == BANG);
    let args = script_argv(interp, arg, path, argv);
    let h: int = if arg is Some { 3 } else { 2 };
    assert forall|i: int| 0 <= i < argv.len() - 1 implies #[trigger] args[h + i] == argv[i + 1] by {
        assert(argv.drop_first()[i] == argv[i + 1]);
    }
}

} // verus!
