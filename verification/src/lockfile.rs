//! Vim-style lock files, as nano writes them for its `locking` option, so
//! that nano and vim notice tico's locks and the other way round: where a
//! lock file goes, the bytes of one, and what an existing one says.

use crate::text::{decimal, push_decimal, push_str, str_chars, string_from_chars};
use vstd::prelude::*;
use vstd::string::StringSliceAdditionalSpecFns;

verus! {

/// The size of a lock file.
pub const LOCK_SIZE: usize = 1024;

/// `std::path::Path::parent` of a path, as text (`None` for a root or an
/// empty path).
pub uninterp spec fn path_parent(path: Seq<char>) -> Option<Seq<char>>;

/// `std::path::Path::file_name` of a path, as text (`None` when it ends in
/// `..` or is a root).
pub uninterp spec fn path_file_name(path: Seq<char>) -> Option<Seq<char>>;

/// `std::path::Path::join` of a directory and a relative name, as text.
pub uninterp spec fn path_join(dir: Seq<char>, name: Seq<char>) -> Seq<char>;

/// `String::from_utf8_lossy` of some bytes.
pub uninterp spec fn utf8_lossy(bytes: Seq<u8>) -> Seq<char>;

/// `Path::new(path).parent()`. The contract claims only that the result is
/// the named parent of the path.
#[verifier::external_body]
fn parent_of(path: &str) -> (r: Option<String>)
    ensures
        match r {
            Some(p) => path_parent(path@) == Some(p@),
            None => path_parent(path@) is None,
        },
{
    std::path::Path::new(path).parent().map(|p| p.to_string_lossy().to_string())
}

/// `Path::new(path).file_name()`. The contract claims only that the result
/// is the named file name of the path.
#[verifier::external_body]
pub(crate) fn file_name_of(path: &str) -> (r: Option<String>)
    ensures
        match r {
            Some(n) => path_file_name(path@) == Some(n@),
            None => path_file_name(path@) is None,
        },
{
    std::path::Path::new(path).file_name().map(|n| n.to_string_lossy().to_string())
}

/// `Path::new(dir).join(name)`. The contract claims only that the result is
/// the named join.
#[verifier::external_body]
fn join_path(dir: &str, name: &str) -> (r: String)
    ensures
        r@ == path_join(dir@, name@),
{
    std::path::Path::new(dir).join(name).to_string_lossy().to_string()
}

/// `String::from_utf8_lossy(bytes)`. The contract claims only that the
/// result is the named decoding of the bytes.
#[verifier::external_body]
fn decode_lossy(bytes: &[u8]) -> (r: String)
    ensures
        r@ == utf8_lossy(bytes@),
{
    String::from_utf8_lossy(bytes).into_owned()
}

/// The lock file for `target`: `.NAME.swp` in the target's directory (the
/// current directory, `.`, for a bare file name).
pub open spec fn lock_path_of(target: Seq<char>) -> Seq<char> {
    let dir = match path_parent(target) {
        Some(p) => if p.len() > 0 { p } else { "."@ },
        None => "."@,
    };
    let name = match path_file_name(target) {
        Some(n) => n,
        None => Seq::empty(),
    };
    path_join(dir, "."@ + name + ".swp"@)
}

/// The lock-file path for `target`: `.basename.swp` next to it (nano's
/// locking prefix and suffix).
pub fn lock_path(target: &str) -> (p: String)
    ensures
        p@ == lock_path_of(target@),
{
    let dir = match parent_of(target) {
        Some(p) => if str_chars(p.as_str()).len() > 0 { p } else { string_from_chars(str_chars(".").as_slice()) },
        None => string_from_chars(str_chars(".").as_slice()),
    };
    let name = match file_name_of(target) {
        Some(n) => n,
        None => String::new(),
    };
    let mut file: Vec<char> = Vec::new();
    push_str(&mut file, ".");
    push_str(&mut file, name.as_str());
    push_str(&mut file, ".swp");
    let file = string_from_chars(file.as_slice());
    join_path(dir.as_str(), file.as_str())
}

/// Who holds a lock: the program, its process id, and its user.
#[derive(Debug, Clone)]
pub struct LockInfo {
    pub program: String,
    pub pid: u32,
    pub user: String,
}

/// What an existing lock file says.
pub enum LockCheck {
    /// No lock file present.
    NoLock,
    /// A lock file too short or without nano/vim's magic bytes; nano ignores
    /// (and overwrites) such a file.
    Bad,
    /// A valid, presumably active lock.
    Held(LockInfo),
}

/// The bytes of `field` up to its first zero byte.
pub open spec fn until_nul(field: Seq<u8>) -> Seq<u8>
    decreases field.len(),
{
    if field.len() == 0 {
        field
    } else if field[0] == 0 {
        Seq::empty()
    } else {
        seq![field[0]] + until_nul(field.drop_first())
    }
}

/// A little-endian 32-bit number.
pub open spec fn le_u32(b0: u8, b1: u8, b2: u8, b3: u8) -> u32 {
    (b0 + 256 * b1 + 65536 * b2 + 16777216 * b3) as u32
}

/// What a lock file's bytes say: bad unless at least 68 bytes starting with
/// the magic `0x62 0x30`; else the program (bytes 2..12), the process id
/// (bytes 24..28, little-endian) and the user (bytes 28..44), each text
/// field up to its first zero byte.
pub open spec fn lock_of(data: Seq<u8>) -> Option<(Seq<char>, u32, Seq<char>)> {
    if data.len() < 68 || data[0] != 0x62 || data[1] != 0x30 {
        None
    } else {
        Some((
            utf8_lossy(until_nul(data.subrange(2, 12))),
            le_u32(data[24], data[25], data[26], data[27]),
            utf8_lossy(until_nul(data.subrange(28, 44))),
        ))
    }
}

fn bytes_to_string(data: &[u8], lo: usize, hi: usize) -> (s: String)
    requires
        lo <= hi <= data@.len(),
    ensures
        s@ == utf8_lossy(until_nul(data@.subrange(lo as int, hi as int))),
{
    let ghost f = data@.subrange(lo as int, hi as int);
    let mut end = lo;
    proof {
        assert(f.skip(0) =~= f);
        assert(data@.subrange(lo as int, lo as int) + until_nul(f) =~= until_nul(f));
    }
    while end < hi && data[end] != 0
        invariant
            lo <= end <= hi,
            hi <= data@.len(),
            f == data@.subrange(lo as int, hi as int),
            until_nul(f) == data@.subrange(lo as int, end as int) + until_nul(f.skip(end - lo)),
        decreases hi - end,
    {
        proof {
            let g = f.skip(end - lo);
            assert(g[0] == data@[end as int]);
            assert(g.drop_first() =~= f.skip(end - lo + 1));
            assert(data@.subrange(lo as int, end as int) + seq![g[0]] =~= data@.subrange(lo as int, end + 1));
        }
        end += 1;
    }
    proof {
        let g = f.skip(end - lo);
        if end < hi {
            assert(g[0] == 0);
        } else {
            assert(g.len() == 0);
        }
        assert(until_nul(f) =~= data@.subrange(lo as int, end as int));
    }
    let mut field: Vec<u8> = Vec::new();
    let mut i = lo;
    while i < end
        invariant
            lo <= i <= end,
            end <= data@.len(),
            field@ == data@.subrange(lo as int, i as int),
        decreases end - i,
    {
        field.push(data[i]);
        proof {
            assert(field@ =~= data@.subrange(lo as int, i + 1));
        }
        i += 1;
    }
    decode_lossy(field.as_slice())
}

/// Read an existing lock file's bytes (see `lock_of`).
pub fn parse_lock(data: &[u8]) -> (r: LockCheck)
    ensures
        match lock_of(data@) {
            None => r is Bad,
            Some((program, pid, user)) => r matches LockCheck::Held(info) && info.program@ == program && info.pid == pid
                && info.user@ == user,
        },
{
    if data.len() < 68 || data[0] != 0x62 || data[1] != 0x30 {
        return LockCheck::Bad;
    }
    let program = bytes_to_string(data, 2, 12);
    let pid = data[24] as u32 + 256 * (data[25] as u32) + 65536 * (data[26] as u32) + 16777216 * (data[27] as u32);
    let user = bytes_to_string(data, 28, 44);
    LockCheck::Held(LockInfo { program, pid, user })
}

/// `buf` with the first (up to `max_len`) bytes of `s` written at `offset`.
pub open spec fn field_written(buf: Seq<u8>, offset: int, max_len: int, s: Seq<u8>) -> Seq<u8> {
    let n = if s.len() < max_len { s.len() as int } else { max_len };
    buf.take(offset) + s.take(n) + buf.skip(offset + n)
}

/// Write the first (up to `max_len`) bytes of `s` into `buf` at `offset`.
pub fn write_field(buf: &mut Vec<u8>, offset: usize, max_len: usize, s: &str)
    requires
        offset + max_len <= old(buf)@.len(),
    ensures
        final(buf)@ == field_written(old(buf)@, offset as int, max_len as int, s.spec_bytes()),
{
    let bytes = s.as_bytes();
    let n = if bytes.len() < max_len { bytes.len() } else { max_len };
    let total = buf.len();
    let mut i: usize = 0;
    while i < n
        invariant
            i <= n,
            n <= bytes@.len(),
            n <= max_len,
            offset + max_len <= buf@.len(),
            offset + max_len <= old(buf)@.len(),
            buf@.len() == old(buf)@.len(),
            total == buf@.len(),
            buf@ == old(buf)@.take(offset as int) + bytes@.take(i as int) + old(buf)@.skip(offset + i),
        decreases n - i,
    {
        buf.set(offset + i, bytes[i]);
        proof {
            assert(buf@ =~= old(buf)@.take(offset as int) + bytes@.take(i + 1) + old(buf)@.skip(offset + i + 1));
        }
        i += 1;
    }
}

/// The bytes of a lock file (nano's layout): the magic `0x62 0x30`, the
/// program name in bytes 2..12, the process id little-endian in bytes
/// 24..28, the user in 28..44, the host in 68..100, the locked file's name
/// in 108..876, `0x55` in byte 1007 when the file is modified, and zeros
/// elsewhere; text fields are cut to their size.
pub open spec fn lock_data(program: Seq<u8>, pid: u32, user: Seq<u8>, host: Seq<u8>, target: Seq<u8>, modified: bool) -> Seq<u8> {
    let z = Seq::new(LOCK_SIZE as nat, |i: int| 0u8);
    let d = z.update(0, 0x62u8).update(1, 0x30u8);
    let d = field_written(d, 2, 10, program);
    let d = d.update(24, (pid % 256) as u8).update(25, ((pid / 256) % 256) as u8).update(26, ((pid / 65536) % 256) as u8).update(
        27,
        (pid / 16777216) as u8,
    );
    let d = field_written(d, 28, 16, user);
    let d = field_written(d, 68, 32, host);
    let d = field_written(d, 108, 768, target);
    d.update(1007, if modified { 0x55u8 } else { 0u8 })
}

/// Build the bytes of a lock file recording that `target_filename` is open,
/// by `program` in process `pid` of `user` on `host` (see `lock_data`).
pub fn lock_bytes(program: &str, pid: u32, user: &str, host: &str, target_filename: &str, modified: bool) -> (data: Vec<u8>)
    ensures
        data@ == lock_data(
            program.spec_bytes(),
            pid,
            user.spec_bytes(),
            host.spec_bytes(),
            target_filename.spec_bytes(),
            modified,
        ),
{
    let mut data: Vec<u8> = Vec::new();
    let mut i: usize = 0;
    while i < LOCK_SIZE
        invariant
            i <= LOCK_SIZE,
            data@ == Seq::new(i as nat, |k: int| 0u8),
        decreases LOCK_SIZE - i,
    {
        data.push(0);
        proof {
            assert(data@ =~= Seq::new((i + 1) as nat, |k: int| 0u8));
        }
        i += 1;
    }
    data.set(0, 0x62);
    data.set(1, 0x30);
    write_field(&mut data, 2, 10, program);
    data.set(24, (pid % 256) as u8);
    data.set(25, ((pid / 256) % 256) as u8);
    data.set(26, ((pid / 65536) % 256) as u8);
    data.set(27, (pid / 16777216) as u8);
    write_field(&mut data, 28, 16, user);
    write_field(&mut data, 68, 32, host);
    write_field(&mut data, 108, 768, target_filename);
    data.set(1007, if modified { 0x55 } else { 0 });
    data
}

/// A lock file's process id reads back as written, and its magic bytes mark
/// it as a lock.
pub proof fn law_lock_pid_reads_back(program: Seq<u8>, pid: u32, user: Seq<u8>, host: Seq<u8>, target: Seq<u8>, modified: bool)
    ensures
        lock_of(lock_data(program, pid, user, host, target, modified)) matches Some((_, p, _)) && p == pid,
{
    let d = lock_data(program, pid, user, host, target, modified);
    assert(d.len() == LOCK_SIZE);
    assert(d[0] == 0x62u8);
    assert(d[1] == 0x30u8);
    assert(d[24] == (pid % 256) as u8);
    assert(d[25] == ((pid / 256) % 256) as u8);
    assert(d[26] == ((pid / 65536) % 256) as u8);
    assert(d[27] == (pid / 16777216) as u8);
    assert(le_u32(d[24], d[25], d[26], d[27]) == pid) by (nonlinear_arith)
        requires
            d[24] == (pid % 256) as u8,
            d[25] == ((pid / 256) % 256) as u8,
            d[26] == ((pid / 65536) % 256) as u8,
            d[27] == (pid / 16777216) as u8,
    {
    }
}

proof fn lemma_until_nul_prefix(p: Seq<u8>, rest: Seq<u8>)
    requires
        forall|i: int| 0 <= i < p.len() ==> p[i] != 0,
        rest.len() == 0 || rest[0] == 0,
    ensures
        until_nul(p + rest) == p,
    decreases p.len(),
{
    if p.len() == 0 {
        assert(p + rest =~= rest);
    } else {
        assert((p + rest).drop_first() =~= p.drop_first() + rest);
        lemma_until_nul_prefix(p.drop_first(), rest);
        assert(seq![p[0]] + p.drop_first() =~= p);
    }
}

/// A lock file reads back as written: the process id exactly, and the
/// program and user names as their bytes decode, when each fits its field
/// and holds no NUL byte.
pub proof fn law_lock_reads_back(program: Seq<u8>, pid: u32, user: Seq<u8>, host: Seq<u8>, target: Seq<u8>, modified: bool)
    requires
        program.len() <= 10,
        user.len() <= 16,
        forall|i: int| 0 <= i < program.len() ==> program[i] != 0,
        forall|i: int| 0 <= i < user.len() ==> user[i] != 0,
    ensures
        lock_of(lock_data(program, pid, user, host, target, modified)) == Some((utf8_lossy(program), pid, utf8_lossy(user))),
{
    law_lock_pid_reads_back(program, pid, user, host, target, modified);
    let d = lock_data(program, pid, user, host, target, modified);
    let pz = Seq::new((10 - program.len()) as nat, |i: int| 0u8);
    let uz = Seq::new((16 - user.len()) as nat, |i: int| 0u8);
    assert(d.subrange(2, 12) =~= program + pz);
    assert(d.subrange(28, 44) =~= user + uz);
    lemma_until_nul_prefix(program, pz);
    lemma_until_nul_prefix(user, uz);
}

/// What to do about locking a file being opened (nano's `do_lockfile()`).
#[derive(Debug, Clone, PartialEq, Eq)]
pub enum LockAction {
    /// Locking is off, the file is only viewed, or it has no path.
    Skip,
    /// Write our own lock (over a lock another holds, when not asking).
    Take,
    /// Leave an unreadable lock file alone, with this warning.
    WarnBad(String),
    /// Ask the user this before opening a file someone else holds.
    Ask(String),
}

/// The question asked about a file `path` someone else is editing.
pub open spec fn conflict_question(path: Seq<char>, info: LockInfo) -> Seq<char> {
    "File "@ + path + " is being edited by "@ + info.user@ + " (with "@ + info.program@ + ", PID "@ + decimal(
        info.pid as nat,
    ) + "); open anyway?"@
}

/// What to do about the lock of `path` (see `LockAction`), given what its
/// lock file at `lock` says and whether the user can be asked.
pub open spec fn lock_action_of(
    locking: bool,
    view: bool,
    path: Option<Seq<char>>,
    lock: Seq<char>,
    check: LockCheck,
    interactive: bool,
) -> (int, Seq<char>) {
    if !locking || view || path is None {
        (0, Seq::empty())
    } else {
        match check {
            LockCheck::NoLock => (1, Seq::empty()),
            LockCheck::Bad => (2, "Bad lock file is ignored: "@ + lock),
            LockCheck::Held(info) => if interactive {
                (3, conflict_question(path.unwrap(), info))
            } else {
                (1, Seq::empty())
            },
        }
    }
}

pub open spec fn lock_action_view(a: LockAction) -> (int, Seq<char>) {
    match a {
        LockAction::Skip => (0, Seq::empty()),
        LockAction::Take => (1, Seq::empty()),
        LockAction::WarnBad(m) => (2, m@),
        LockAction::Ask(q) => (3, q@),
    }
}

/// Decide what to do about the lock of the file at `path` (its lock file
/// being `lock`), from what that lock file says (`check`).
pub fn lock_action(locking: bool, view: bool, path: Option<&str>, lock: &str, check: &LockCheck, interactive: bool) -> (r: LockAction)
    ensures
        lock_action_view(r) == lock_action_of(
            locking,
            view,
            match path { Some(p) => Some(p@), None => None },
            lock@,
            *check,
            interactive,
        ),
{
    if !locking || view {
        return LockAction::Skip;
    }
    let p = match path {
        Some(p) => p,
        None => return LockAction::Skip,
    };
    match check {
        LockCheck::NoLock => LockAction::Take,
        LockCheck::Bad => {
            let mut out: Vec<char> = Vec::new();
            push_str(&mut out, "Bad lock file is ignored: ");
            push_str(&mut out, lock);
            LockAction::WarnBad(string_from_chars(out.as_slice()))
        },
        LockCheck::Held(info) => {
            if interactive {
                let mut out: Vec<char> = Vec::new();
                push_str(&mut out, "File ");
                push_str(&mut out, p);
                push_str(&mut out, " is being edited by ");
                push_str(&mut out, info.user.as_str());
                push_str(&mut out, " (with ");
                push_str(&mut out, info.program.as_str());
                push_str(&mut out, ", PID ");
                push_decimal(&mut out, info.pid as usize);
                push_str(&mut out, "); open anyway?");
                proof {
                    assert(out@ =~= conflict_question(p@, *info));
                }
                LockAction::Ask(string_from_chars(out.as_slice()))
            } else {
                LockAction::Take
            }
        },
    }
}

} // verus!
