//! The guest initramfs: an uncompressed `newc` cpio archive holding BusyBox
//! and the guest `/init` script, written without any host tools.

use vstd::prelude::*;
use vstd::string::*;
use vstd::utf8::{encode_utf8, is_ascii_chars, is_ascii_chars_encode_utf8};

use crate::text::{chars_between, extend_chars, hex, hex_chars, str_chars, string_of, zero_pad, zero_padded};

verus! {

// ---------------------------------------------------------------------------
// Entry names
// ---------------------------------------------------------------------------

/// A path is absolute when it starts at the root.
pub open spec fn is_absolute(p: Seq<char>) -> bool {
    p.len() > 0 && p[0] == '/'
}

/// `p` with every leading `./` removed (as `trim_start_matches("./")`).
pub open spec fn strip_dot_slash(p: Seq<char>) -> Seq<char>
    decreases p.len(),
{
    if p.len() >= 2 && p[0] == '.' && p[1] == '/' {
        strip_dot_slash(p.skip(2))
    } else {
        p
    }
}

/// `p` with every trailing `/` removed (as `trim_end_matches('/')`).
pub open spec fn strip_trailing_slashes(p: Seq<char>) -> Seq<char>
    decreases p.len(),
{
    if p.len() > 0 && p.last() == '/' {
        strip_trailing_slashes(p.drop_last())
    } else {
        p
    }
}

/// `p` holds two consecutive dots somewhere.
pub open spec fn has_dot_dot(p: Seq<char>) -> bool {
    exists|i: int| 0 <= i < p.len() - 1 && p[i] == '.' && #[trigger] p[i + 1] == '.'
}

/// The trimmed form of a relative path: leading `./` and trailing `/` removed,
/// and `.` for what is left empty.
pub open spec fn normalized(p: Seq<char>) -> Seq<char> {
    let t = strip_trailing_slashes(strip_dot_slash(p));
    if t.len() == 0 {
        seq!['.']
    } else {
        t
    }
}

/// `p` can name an archive entry: it is relative and its trimmed form has no `..`.
pub open spec fn entry_name_ok(p: Seq<char>) -> bool {
    !is_absolute(p) && !has_dot_dot(normalized(p))
}

/// Why an archive entry was refused.
#[derive(Clone, Debug)]
pub enum CpioError {
    /// Entries must be relative paths.
    AbsolutePath { path: String },
    /// Entries may not hold `..`.
    ParentReference { path: String },
    /// The name does not fit the 32-bit name-size field.
    NameTooLong { path: String },
}

/// The archive name for `path`: relative, without leading `./` or trailing `/`,
/// `.` for the root, and never holding `..`.
pub fn normalize_cpio_path(path: &str) -> (r: Result<String, CpioError>)
    ensures
        entry_name_ok(path@) <==> r is Ok,
        r matches Ok(s) ==> s@ == normalized(path@),
        is_absolute(path@) ==> (r matches Err(CpioError::AbsolutePath { path: p }) && p@ == path@),
        !is_absolute(path@) && has_dot_dot(normalized(path@)) ==> (r matches Err(
            CpioError::ParentReference { path: p },
        ) && p@ == normalized(path@)),
{
    let cs = str_chars(path);
    let n = cs.len();
    if n > 0 && cs[0] == '/' {
        return Err(CpioError::AbsolutePath { path: String::from_str(path) });
    }
    assert(cs@.subrange(0, n as int) =~= cs@);
    let mut i: usize = 0;
    while n - i >= 2 && cs[i] == '.' && cs[i + 1] == '/'
        invariant
            n == cs@.len(),
            i <= n,
            strip_dot_slash(cs@) == strip_dot_slash(cs@.subrange(i as int, n as int)),
        decreases n - i,
    {
        assert(cs@.subrange(i as int, n as int).skip(2) =~= cs@.subrange(i + 2, n as int));
        i = i + 2;
    }
    let ghost lead = cs@.subrange(i as int, n as int);
    assert(strip_dot_slash(cs@) == lead);
    let mut j: usize = n;
    while j > i && cs[j - 1] == '/'
        invariant
            n == cs@.len(),
            i <= j <= n,
            lead == cs@.subrange(i as int, n as int),
            strip_trailing_slashes(lead) == strip_trailing_slashes(
                cs@.subrange(i as int, j as int),
            ),
        decreases j,
    {
        assert(cs@.subrange(i as int, j as int).drop_last() =~= cs@.subrange(i as int, j - 1));
        j = j - 1;
    }
    let ghost t = cs@.subrange(i as int, j as int);
    assert(strip_trailing_slashes(lead) == t);
    if j == i {
        assert(t.len() == 0);
        assert(!has_dot_dot(seq!['.']));
        return Ok(string_of(&vec!['.']));
    }
    assert(t == normalized(path@));
    let mut k: usize = i;
    while k < j - 1
        invariant
            cs@ == path@,
            !is_absolute(path@),
            t == normalized(path@),
            n == cs@.len(),
            i <= k,
            i < j <= n,
            t == cs@.subrange(i as int, j as int),
            forall|m: int| i <= m < k ==> !(#[trigger] cs@[m] == '.' && cs@[m + 1] == '.'),
        decreases j - k,
    {
        if cs[k] == '.' && cs[k + 1] == '.' {
            let bad = chars_between(&cs, i, j);
            assert(t[k - i] == '.' && t[k - i + 1] == '.');
            return Err(CpioError::ParentReference { path: string_of(&bad) });
        }
        k = k + 1;
    }
    assert(!has_dot_dot(t)) by {
        if has_dot_dot(t) {
            let m = choose|m: int| 0 <= m < t.len() - 1 && t[m] == '.' && #[trigger] t[m + 1] == '.';
            assert(cs@[i + m] == '.' && cs@[i + m + 1] == '.');
        }
    }
    let name = chars_between(&cs, i, j);
    Ok(string_of(&name))
}

// ---------------------------------------------------------------------------
// Archive layout
// ---------------------------------------------------------------------------

/// The bytes of ASCII text.
pub open spec fn ascii_bytes(s: Seq<char>) -> Seq<u8> {
    Seq::new(s.len(), |i: int| s[i] as u8)
}

/// A header field: lower-case hex, at least eight digits (`{:08x}`).
pub open spec fn hex8(n: nat) -> Seq<char> {
    zero_pad(hex(n), 8)
}

/// The `newc` magic that opens every header.
pub open spec fn newc_magic() -> Seq<char> {
    seq!['0', '7', '0', '7', '0', '1']
}

/// A `newc` header: magic, inode, mode, uid 0, gid 0, one link, mtime, file
/// size, device numbers 0, name size (with its NUL) and checksum 0.
pub open spec fn newc_header(ino: nat, mode: nat, mtime: nat, filesize: nat, namesize: nat) -> Seq<
    u8,
> {
    ascii_bytes(
        newc_magic() + hex8(ino) + hex8(mode) + hex8(0) + hex8(0) + hex8(1) + hex8(mtime) + hex8(
            filesize,
        ) + hex8(0) + hex8(0) + hex8(0) + hex8(0) + hex8(namesize) + hex8(0),
    )
}

/// `n` zero bytes.
pub open spec fn zeros(n: nat) -> Seq<u8> {
    Seq::new(n, |i: int| 0u8)
}

/// `s` followed by zero bytes up to the next multiple of four.
pub open spec fn padded(s: Seq<u8>) -> Seq<u8> {
    s + zeros(((4 - s.len() % 4) % 4) as nat)
}

/// `archive` followed by one entry: header, name, NUL, padding, contents, padding.
#[verifier::opaque]
pub open spec fn with_entry(
    archive: Seq<u8>,
    ino: nat,
    mode: nat,
    mtime: nat,
    name: Seq<u8>,
    contents: Seq<u8>,
) -> Seq<u8> {
    padded(
        padded(archive + newc_header(ino, mode, mtime, contents.len(), name.len() + 1) + name
            + seq![0u8]) + contents,
    )
}

/// The name of the synthetic entry that ends every archive.
pub open spec fn trailer_name() -> Seq<char> {
    seq!['T', 'R', 'A', 'I', 'L', 'E', 'R', '!', '!', '!']
}

/// The mode bits of a directory entry (`drwxr-xr-x`).
pub const DIRECTORY_MODE: u32 = 0o040755;

/// The file-type bits of a regular file.
pub const REGULAR_FILE_TYPE: u32 = 0o100000;

/// The largest name size (name plus NUL) the header can hold.
pub const MAX_NAME_SIZE: usize = 0xffff_ffff;

/// Zero-pads `bytes` to a multiple of four.
pub fn pad_to_4(bytes: &mut Vec<u8>)
    ensures
        final(bytes)@ == padded(old(bytes)@),
{
    let ghost start = bytes@;
    let ghost want = ((4 - start.len() % 4) % 4) as nat;
    while bytes.len() % 4 != 0
        invariant
            bytes@.len() <= start.len() + want,
            bytes@ =~= start + zeros((bytes@.len() - start.len()) as nat),
            want == ((4 - start.len() % 4) % 4) as nat,
        decreases start.len() + want - bytes@.len(),
    {
        bytes.push(0);
    }
    assert(bytes@.len() == start.len() + want);
}

fn push_ascii(v: &mut Vec<u8>, cs: &Vec<char>)
    ensures
        final(v)@ == old(v)@ + ascii_bytes(cs@),
{
    let mut i: usize = 0;
    while i < cs.len()
        invariant
            i <= cs.len(),
            v@ =~= old(v)@ + ascii_bytes(cs@.take(i as int)),
        decreases cs.len() - i,
    {
        v.push(cs[i] as u8);
        i = i + 1;
    }
    assert(cs@.take(cs.len() as int) =~= cs@);
}

fn push_bytes(v: &mut Vec<u8>, bytes: &[u8])
    ensures
        final(v)@ == old(v)@ + bytes@,
{
    let mut i: usize = 0;
    while i < bytes.len()
        invariant
            i <= bytes@.len(),
            v@ =~= old(v)@ + bytes@.take(i as int),
        decreases bytes@.len() - i,
    {
        v.push(bytes[i]);
        i = i + 1;
    }
    assert(bytes@.take(bytes@.len() as int) =~= bytes@);
}

fn push_hex8(h: &mut Vec<char>, n: u64)
    ensures
        final(h)@ == old(h)@ + hex8(n as nat),
{
    extend_chars(h, &zero_padded(hex_chars(n), 8));
}

fn header_chars(ino: u32, mode: u32, mtime: u32, filesize: usize, namesize: usize) -> (h: Vec<
    char,
>)
    ensures
        ascii_bytes(h@) == newc_header(
            ino as nat,
            mode as nat,
            mtime as nat,
            filesize as nat,
            namesize as nat,
        ),
{
    let mut h = vec!['0', '7', '0', '7', '0', '1'];
    push_hex8(&mut h, ino as u64);
    push_hex8(&mut h, mode as u64);
    push_hex8(&mut h, 0);
    push_hex8(&mut h, 0);
    push_hex8(&mut h, 1);
    push_hex8(&mut h, mtime as u64);
    push_hex8(&mut h, filesize as u64);
    push_hex8(&mut h, 0);
    push_hex8(&mut h, 0);
    push_hex8(&mut h, 0);
    push_hex8(&mut h, 0);
    push_hex8(&mut h, namesize as u64);
    push_hex8(&mut h, 0);
    assert(h@ =~= newc_magic() + hex8(ino as nat) + hex8(mode as nat) + hex8(0) + hex8(0) + hex8(
        1,
    ) + hex8(mtime as nat) + hex8(filesize as nat) + hex8(0) + hex8(0) + hex8(0) + hex8(0) + hex8(
        namesize as nat,
    ) + hex8(0));
    h
}


// ---------------------------------------------------------------------------
// The writer
// ---------------------------------------------------------------------------

#[verifier::external_type_specification]
#[verifier::external_body]
pub struct ExSystemTime(std::time::SystemTime);

/// `SystemTime::now`: the current wall-clock time. Nothing is claimed of it.
#[verifier::external_body]
fn system_now() -> std::time::SystemTime {
    std::time::SystemTime::now()
}

/// `SystemTime::duration_since(UNIX_EPOCH)`: how long after the Unix epoch
/// `t` lies, `None` when `t` is earlier. `SystemTime` and `Duration` are
/// opaque here, so nothing is claimed of the value.
#[verifier::external_body]
fn time_since_epoch(t: std::time::SystemTime) -> Option<std::time::Duration> {
    t.duration_since(std::time::UNIX_EPOCH).ok()
}

/// `Duration::as_secs`: the whole seconds of `d`. `Duration` is opaque here,
/// so nothing is claimed of the value.
#[verifier::external_body]
fn whole_seconds(d: std::time::Duration) -> u64 {
    d.as_secs()
}

/// The whole seconds since the Unix epoch on the system clock, 0 when the
/// clock reads earlier than the epoch.
fn clock_seconds() -> u64 {
    match time_since_epoch(system_now()) {
        Some(d) => whole_seconds(d),
        None => 0,
    }
}

/// A tiny `newc` cpio writer; the Linux kernel takes such an archive directly
/// as its initramfs.
pub struct InitramfsBuilder {
    archive: Vec<u8>,
    inode: u32,
    mtime: u32,
}

impl InitramfsBuilder {
    /// The bytes written so far.
    pub closed spec fn archive(self) -> Seq<u8> {
        self.archive@
    }

    /// The inode number the next entry gets.
    pub closed spec fn next_inode(self) -> u32 {
        self.inode
    }

    /// The modification time stamped on every entry.
    pub closed spec fn mtime(self) -> u32 {
        self.mtime
    }

    /// An empty archive whose entries carry the current time.
    pub fn new() -> (b: InitramfsBuilder)
        ensures
            b.archive() == Seq::<u8>::empty(),
            b.next_inode() == 1,
    {
        let secs = clock_seconds();
        Self::with_mtime(secs as u32)
    }

    /// An empty archive whose entries carry `mtime`.
    pub fn with_mtime(mtime: u32) -> (b: InitramfsBuilder)
        ensures
            b.archive() == Seq::<u8>::empty(),
            b.next_inode() == 1,
            b.mtime() == mtime,
    {
        InitramfsBuilder { archive: Vec::new(), inode: 1, mtime }
    }

    /// Appends one entry named `path` (taken as it is) with `mode` and `contents`.
    pub fn push_entry(&mut self, path: &str, mode: u32, contents: &[u8]) -> (r: Result<
        (),
        CpioError,
    >)
        ensures
            encode_utf8(path@).len() >= MAX_NAME_SIZE <==> r is Err,
            r is Ok ==> final(self).archive() == with_entry(
                old(self).archive(),
                old(self).next_inode() as nat,
                mode as nat,
                old(self).mtime() as nat,
                encode_utf8(path@),
                contents@,
            ) && final(self).next_inode() == old(self).next_inode().saturating_add(1)
                && final(self).mtime() == old(self).mtime(),
            r matches Err(e) ==> *final(self) == *old(self) && (e matches CpioError::NameTooLong {
                path: p,
            } && p@ == path@),
    {
        let name = path.as_bytes();
        let name_len = name.len();
        if name_len >= MAX_NAME_SIZE {
            return Err(CpioError::NameTooLong { path: String::from_str(path) });
        }
        let namesize = name_len + 1;
        let header = header_chars(self.inode, mode, self.mtime, contents.len(), namesize);
        let ghost before = self.archive@;
        push_ascii(&mut self.archive, &header);
        push_bytes(&mut self.archive, name);
        self.archive.push(0);
        assert(self.archive@ =~= before + newc_header(
            self.inode as nat,
            mode as nat,
            self.mtime as nat,
            contents@.len(),
            name@.len() + 1,
        ) + name@ + seq![0u8]);
        pad_to_4(&mut self.archive);
        push_bytes(&mut self.archive, contents);
        pad_to_4(&mut self.archive);
        self.inode = self.inode.saturating_add(1);
        proof {
            reveal(with_entry);
        }
        Ok(())
    }

    /// Adds a directory entry (`drwxr-xr-x`) for `path`.
    pub fn directory(self, path: &str) -> (r: Result<InitramfsBuilder, CpioError>)
        ensures
            entry_name_ok(path@) && encode_utf8(normalized(path@)).len() < MAX_NAME_SIZE
                <==> r is Ok,
            r matches Ok(b) ==> b.archive() == with_entry(
                self.archive(),
                self.next_inode() as nat,
                DIRECTORY_MODE as nat,
                self.mtime() as nat,
                encode_utf8(normalized(path@)),
                Seq::<u8>::empty(),
            ) && b.next_inode() == self.next_inode().saturating_add(1) && b.mtime()
                == self.mtime(),
            is_absolute(path@) ==> (r matches Err(CpioError::AbsolutePath { path: p }) && p@
                == path@),
            !is_absolute(path@) && has_dot_dot(normalized(path@)) ==> (r matches Err(
                CpioError::ParentReference { path: p },
            ) && p@ == normalized(path@)),
            entry_name_ok(path@) && encode_utf8(normalized(path@)).len() >= MAX_NAME_SIZE ==> (
            r matches Err(CpioError::NameTooLong { path: p }) && p@ == normalized(path@)),
    {
        let mut b = self;
        let name = match normalize_cpio_path(path) {
            Ok(n) => n,
            Err(e) => {
                return Err(e);
            },
        };
        let empty: [u8; 0] = [];
        assert(empty@ =~= Seq::<u8>::empty());
        match b.push_entry(name.as_str(), DIRECTORY_MODE, &empty) {
            Ok(()) => Ok(b),
            Err(e) => Err(e),
        }
    }

    /// Adds a regular file entry for `path` with permission bits `mode`.
    pub fn file(self, path: &str, mode: u32, contents: &[u8]) -> (r: Result<
        InitramfsBuilder,
        CpioError,
    >)
        ensures
            entry_name_ok(path@) && encode_utf8(normalized(path@)).len() < MAX_NAME_SIZE
                <==> r is Ok,
            r matches Ok(b) ==> b.archive() == with_entry(
                self.archive(),
                self.next_inode() as nat,
                (REGULAR_FILE_TYPE | mode) as nat,
                self.mtime() as nat,
                encode_utf8(normalized(path@)),
                contents@,
            ) && b.next_inode() == self.next_inode().saturating_add(1) && b.mtime()
                == self.mtime(),
            is_absolute(path@) ==> (r matches Err(CpioError::AbsolutePath { path: p }) && p@
                == path@),
            !is_absolute(path@) && has_dot_dot(normalized(path@)) ==> (r matches Err(
                CpioError::ParentReference { path: p },
            ) && p@ == normalized(path@)),
            entry_name_ok(path@) && encode_utf8(normalized(path@)).len() >= MAX_NAME_SIZE ==> (
            r matches Err(CpioError::NameTooLong { path: p }) && p@ == normalized(path@)),
    {
        let mut b = self;
        let name = match normalize_cpio_path(path) {
            Ok(n) => n,
            Err(e) => {
                return Err(e);
            },
        };
        match b.push_entry(name.as_str(), REGULAR_FILE_TYPE | mode, contents) {
            Ok(()) => Ok(b),
            Err(e) => Err(e),
        }
    }

    /// Ends the archive with the `TRAILER!!!` entry and hands out its bytes.
    pub fn build(self) -> (out: Vec<u8>)
        ensures
            out@ == with_entry(
                self.archive(),
                self.next_inode() as nat,
                0,
                self.mtime() as nat,
                ascii_bytes(trailer_name()),
                Seq::<u8>::empty(),
            ),
    {
        let mut b = self;
        let trailer = "TRAILER!!!";
        proof {
            reveal_strlit("TRAILER!!!");
            assert(trailer@ =~= trailer_name());
            assert(is_ascii(trailer));
            is_ascii_spec_bytes(trailer);
            assert(encode_utf8(trailer@) =~= ascii_bytes(trailer_name()));
        }
        let empty: [u8; 0] = [];
        assert(empty@ =~= Seq::<u8>::empty());
        let r = b.push_entry(trailer, 0, &empty);
        match r {
            Ok(()) => {},
            Err(_) => {
                assert(false);
            },
        }
        b.archive
    }
}


proof fn lemma_strip_dot_slash_shape(p: Seq<char>)
    ensures
        !(strip_dot_slash(p).len() >= 2 && strip_dot_slash(p)[0] == '.' && strip_dot_slash(p)[1]
            == '/'),
    decreases p.len(),
{
    if p.len() >= 2 && p[0] == '.' && p[1] == '/' {
        lemma_strip_dot_slash_shape(p.skip(2));
    }
}

proof fn lemma_strip_trailing_shape(p: Seq<char>)
    ensures
        strip_trailing_slashes(p).len() <= p.len(),
        strip_trailing_slashes(p) =~= p.subrange(0, strip_trailing_slashes(p).len() as int),
        !(strip_trailing_slashes(p).len() > 0 && strip_trailing_slashes(p).last() == '/'),
    decreases p.len(),
{
    if p.len() > 0 && p.last() == '/' {
        lemma_strip_trailing_shape(p.drop_last());
    }
}

/// Every archive entry leaves the archive a multiple of four bytes long.
pub proof fn law_entries_keep_alignment(
    archive: Seq<u8>,
    ino: nat,
    mode: nat,
    mtime: nat,
    name: Seq<u8>,
    contents: Seq<u8>,
)
    ensures
        with_entry(archive, ino, mode, mtime, name, contents).len() % 4 == 0,
{
    reveal(with_entry);
}

/// Adding an entry never changes what was already written, and the entry
/// opens with the `newc` magic `070701`.
pub proof fn law_entries_append(
    archive: Seq<u8>,
    ino: nat,
    mode: nat,
    mtime: nat,
    name: Seq<u8>,
    contents: Seq<u8>,
)
    ensures
        with_entry(archive, ino, mode, mtime, name, contents).subrange(0, archive.len() as int)
            == archive,
        with_entry(archive, ino, mode, mtime, name, contents).subrange(
            archive.len() as int,
            archive.len() + 6 as int,
        ) == ascii_bytes(newc_magic()),
{
    reveal(with_entry);
    let w = with_entry(archive, ino, mode, mtime, name, contents);
    let h = newc_header(ino, mode, mtime, contents.len(), name.len() + 1);
    assert(w.subrange(0, archive.len() as int) =~= archive);
    assert(h.subrange(0, 6) =~= ascii_bytes(newc_magic()));
    assert(w.subrange(archive.len() as int, archive.len() + 6 as int) =~= ascii_bytes(newc_magic()));
}

/// The first multiple of four at or after `n`.
pub open spec fn align4(n: int) -> int {
    n + (4 - n % 4) % 4
}

/// The layout of a `newc` entry: after what was written come the header, the
/// name and its NUL, zeros up to a multiple of four, the contents (so they
/// start 4-byte aligned, as the kernel reads them), and zeros up to a multiple
/// of four again.
pub proof fn law_entry_layout(
    archive: Seq<u8>,
    ino: nat,
    mode: nat,
    mtime: nat,
    name: Seq<u8>,
    contents: Seq<u8>,
)
    ensures
        ({
            let e = with_entry(archive, ino, mode, mtime, name, contents);
            let h = newc_header(ino, mode, mtime, contents.len(), name.len() + 1);
            let name_at: int = (archive.len() + h.len()) as int;
            let nul_at: int = name_at + name.len();
            let data_at: int = align4(nul_at + 1);
            let end: int = data_at + contents.len();
            &&& e.subrange(0, archive.len() as int) == archive
            &&& e.subrange(archive.len() as int, name_at) == h
            &&& e.subrange(name_at, nul_at) == name
            &&& e[nul_at] == 0u8
            &&& data_at % 4 == 0
            &&& e.subrange(nul_at + 1, data_at) == zeros((data_at - nul_at - 1) as nat)
            &&& e.subrange(data_at, end) == contents
            &&& e.len() == align4(end)
            &&& e.subrange(end, e.len() as int) == zeros((e.len() - end) as nat)
        }),
{
    reveal(with_entry);
    let e = with_entry(archive, ino, mode, mtime, name, contents);
    let h = newc_header(ino, mode, mtime, contents.len(), name.len() + 1);
    let p1 = archive + h + name + seq![0u8];
    let p2 = padded(p1);
    let p3 = p2 + contents;
    assert(e == padded(p3));
    let name_at: int = (archive.len() + h.len()) as int;
    let nul_at: int = name_at + name.len();
    let data_at: int = align4(nul_at + 1);
    let end: int = data_at + contents.len();
    assert(p1.len() == nul_at + 1);
    assert(p2.len() == data_at);
    assert(data_at % 4 == 0);
    assert(e.subrange(0, archive.len() as int) =~= archive);
    assert(e.subrange(archive.len() as int, name_at) =~= h);
    assert(e.subrange(name_at, nul_at) =~= name);
    assert(e[nul_at] == p1[nul_at]);
    assert(e.subrange(nul_at + 1, data_at) =~= zeros((data_at - nul_at - 1) as nat));
    assert(e.subrange(data_at, end) =~= contents);
    assert(e.len() == align4(end));
    assert(e.subrange(end, e.len() as int) =~= zeros((e.len() - end) as nat));
}

/// Trimming a name the archive accepted gives it back unchanged, unless the
/// trimmed name starts at the root (as `.//x` trims to `/x`).
pub proof fn law_normalize_is_idempotent(p: Seq<char>)
    requires
        entry_name_ok(p),
        !is_absolute(normalized(p)),
    ensures
        entry_name_ok(normalized(p)),
        normalized(normalized(p)) == normalized(p),
{
    let s = strip_dot_slash(p);
    let t = strip_trailing_slashes(s);
    lemma_strip_dot_slash_shape(p);
    lemma_strip_trailing_shape(s);
    if t.len() == 0 {
        let dot = seq!['.'];
        assert(strip_dot_slash(dot) == dot);
        assert(strip_trailing_slashes(dot) == dot);
        assert(!has_dot_dot(dot));
    } else {
        if t.len() >= 2 && t[0] == '.' && t[1] == '/' {
            assert(s[0] == t[0] && s[1] == t[1]);
        }
        assert(strip_dot_slash(t) == t);
        assert(strip_trailing_slashes(t) == t);
    }
}


// ---------------------------------------------------------------------------
// The guest image
// ---------------------------------------------------------------------------

/// Permission bits of the executables in the image (`rwxr-xr-x`).
pub const EXECUTABLE_MODE: u32 = 0o755;

/// A plain ASCII relative name is its own archive name and its own bytes.
proof fn lemma_plain_name(p: Seq<char>)
    requires
        is_ascii_chars(p),
        p.len() > 0,
        p[0] != '/',
        !(p.len() >= 2 && p[0] == '.' && p[1] == '/'),
        p.last() != '/',
        !has_dot_dot(p),
        p.len() < 64,
    ensures
        entry_name_ok(p),
        normalized(p) == p,
        encode_utf8(p) == ascii_bytes(p),
        encode_utf8(p).len() < MAX_NAME_SIZE,
{
    assert(strip_dot_slash(p) == p);
    assert(strip_trailing_slashes(p) == p);
    is_ascii_chars_encode_utf8(p);
    assert(encode_utf8(p) =~= ascii_bytes(p));
}

/// A directory entry with an ASCII name.
pub open spec fn dir_entry(archive: Seq<u8>, ino: nat, mtime: nat, name: Seq<char>) -> Seq<u8> {
    with_entry(archive, ino, DIRECTORY_MODE as nat, mtime, ascii_bytes(name), Seq::<u8>::empty())
}

/// The guest image: directories `.`, `bin`, `dev`, `proc`, `sys`, `tmp`, the
/// executable `init` and `bin/busybox`, then the trailer; inodes from 1 up.
pub open spec fn initramfs_layout(mtime: nat, init: Seq<u8>, busybox: Seq<u8>) -> Seq<u8> {
    let a1 = dir_entry(Seq::<u8>::empty(), 1, mtime, seq!['.']);
    let a2 = dir_entry(a1, 2, mtime, seq!['b', 'i', 'n']);
    let a3 = dir_entry(a2, 3, mtime, seq!['d', 'e', 'v']);
    let a4 = dir_entry(a3, 4, mtime, seq!['p', 'r', 'o', 'c']);
    let a5 = dir_entry(a4, 5, mtime, seq!['s', 'y', 's']);
    let a6 = dir_entry(a5, 6, mtime, seq!['t', 'm', 'p']);
    let a7 = with_entry(a6, 7, 0o100755, mtime, ascii_bytes(seq!['i', 'n', 'i', 't']), init);
    let a8 = with_entry(
        a7,
        8,
        0o100755,
        mtime,
        ascii_bytes(seq!['b', 'i', 'n', '/', 'b', 'u', 's', 'y', 'b', 'o', 'x']),
        busybox,
    );
    with_entry(a8, 9, 0, mtime, ascii_bytes(trailer_name()), Seq::<u8>::empty())
}

fn add_directory(b: InitramfsBuilder, name: &str) -> (out: InitramfsBuilder)
    requires
        is_ascii_chars(name@),
        name@.len() > 0,
        name@[0] != '/',
        !(name@.len() >= 2 && name@[0] == '.' && name@[1] == '/'),
        name@.last() != '/',
        !has_dot_dot(name@),
        name@.len() < 64,
    ensures
        out.archive() == dir_entry(
            b.archive(),
            b.next_inode() as nat,
            b.mtime() as nat,
            name@,
        ),
        out.next_inode() == b.next_inode().saturating_add(1),
        out.mtime() == b.mtime(),
{
    proof {
        lemma_plain_name(name@);
    }
    match b.directory(name) {
        Ok(out) => out,
        Err(_) => {
            proof {
                assert(false);
            }
            InitramfsBuilder::with_mtime(0)
        },
    }
}

fn add_executable(b: InitramfsBuilder, name: &str, contents: &[u8]) -> (out: InitramfsBuilder)
    requires
        is_ascii_chars(name@),
        name@.len() > 0,
        name@[0] != '/',
        !(name@.len() >= 2 && name@[0] == '.' && name@[1] == '/'),
        name@.last() != '/',
        !has_dot_dot(name@),
        name@.len() < 64,
    ensures
        out.archive() == with_entry(
            b.archive(),
            b.next_inode() as nat,
            0o100755,
            b.mtime() as nat,
            ascii_bytes(name@),
            contents@,
        ),
        out.next_inode() == b.next_inode().saturating_add(1),
        out.mtime() == b.mtime(),
{
    proof {
        lemma_plain_name(name@);
        assert((REGULAR_FILE_TYPE | EXECUTABLE_MODE) == 0o100755u32) by (bit_vector);
    }
    match b.file(name, EXECUTABLE_MODE, contents) {
        Ok(out) => out,
        Err(_) => {
            proof {
                assert(false);
            }
            InitramfsBuilder::with_mtime(0)
        },
    }
}

/// The guest image with every entry stamped `mtime`: the directory skeleton,
/// `init` holding `init_script` and `bin/busybox` holding `busybox`.
pub fn initramfs_image(mtime: u32, init_script: &str, busybox: &[u8]) -> (out: Vec<u8>)
    ensures
        out@ == initramfs_layout(mtime as nat, encode_utf8(init_script@), busybox@),
{
    let b = InitramfsBuilder::with_mtime(mtime);
    proof {
        reveal_strlit(".");
        reveal_strlit("bin");
        reveal_strlit("dev");
        reveal_strlit("proc");
        reveal_strlit("sys");
        reveal_strlit("tmp");
        reveal_strlit("init");
        reveal_strlit("bin/busybox");
    }
    assert("."@ =~= seq!['.']);
    assert("bin"@ =~= seq!['b', 'i', 'n']);
    assert("dev"@ =~= seq!['d', 'e', 'v']);
    assert("proc"@ =~= seq!['p', 'r', 'o', 'c']);
    assert("sys"@ =~= seq!['s', 'y', 's']);
    assert("tmp"@ =~= seq!['t', 'm', 'p']);
    assert("init"@ =~= seq!['i', 'n', 'i', 't']);
    assert("bin/busybox"@ =~= seq!['b', 'i', 'n', '/', 'b', 'u', 's', 'y', 'b', 'o', 'x']);
    let m = Ghost(mtime as nat);
    let b = add_directory(b, ".");
    assert(b.archive() == dir_entry(Seq::<u8>::empty(), 1, m@, seq!['.']));
    let ghost a1 = b.archive();
    let b = add_directory(b, "bin");
    assert(b.archive() == dir_entry(a1, 2, m@, seq!['b', 'i', 'n']));
    let ghost a2 = b.archive();
    let b = add_directory(b, "dev");
    assert(b.archive() == dir_entry(a2, 3, m@, seq!['d', 'e', 'v']));
    let ghost a3 = b.archive();
    let b = add_directory(b, "proc");
    assert(b.archive() == dir_entry(a3, 4, m@, seq!['p', 'r', 'o', 'c']));
    let ghost a4 = b.archive();
    let b = add_directory(b, "sys");
    assert(b.archive() == dir_entry(a4, 5, m@, seq!['s', 'y', 's']));
    let ghost a5 = b.archive();
    let b = add_directory(b, "tmp");
    assert(b.archive() == dir_entry(a5, 6, m@, seq!['t', 'm', 'p']));
    let ghost a6 = b.archive();
    let init_bytes = init_script.as_bytes();
    let b = add_executable(b, "init", init_bytes);
    assert(b.archive() == with_entry(
        a6,
        7,
        0o100755,
        m@,
        ascii_bytes(seq!['i', 'n', 'i', 't']),
        encode_utf8(init_script@),
    ));
    let ghost a7 = b.archive();
    let b = add_executable(b, "bin/busybox", busybox);
    assert(b.archive() == with_entry(
        a7,
        8,
        0o100755,
        m@,
        ascii_bytes(seq!['b', 'i', 'n', '/', 'b', 'u', 's', 'y', 'b', 'o', 'x']),
        busybox@,
    ));
    assert(b.next_inode() == 9);
    b.build()
}

/// The guest image stamped with the current time (what `build-initramfs` writes).
pub fn build_initramfs_image(init_script: &str, busybox: &[u8]) -> (out: Vec<u8>)
    ensures
        exists|mtime: u32| out@ == initramfs_layout(mtime as nat, encode_utf8(init_script@), busybox@),
{
    let secs = clock_seconds();
    initramfs_image(secs as u32, init_script, busybox)
}


/// What `build-initramfs` packs: the BusyBox binary, where the image goes,
/// and an optional replacement for the built-in `/init` script.
#[derive(Clone, Debug)]
pub struct BuildInitramfsConfig {
    pub busybox: String,
    pub output: String,
    pub init_script: Option<String>,
}

/// The guest `/init`: mounts the pseudo file systems, reads its `minivm.*`
/// kernel arguments, brings up `eth0`, calls the host API once and powers off.
pub const DEFAULT_INIT_SCRIPT: &'static str = "#!/bin/busybox sh
/bin/busybox --install -s /bin
export PATH=/bin

mount -t proc proc /proc
mount -t sysfs sysfs /sys
mount -t devtmpfs devtmpfs /dev

log() {
    echo \"minivm-guest: $*\" > /dev/ttyS0
}

VM_ID=unknown
GUEST_IP=
GATEWAY=
HOST_API=

for arg in $(cat /proc/cmdline); do
    case \"$arg\" in
        minivm.id=*) VM_ID=\"${arg#minivm.id=}\" ;;
        minivm.guest_ip=*) GUEST_IP=\"${arg#minivm.guest_ip=}\" ;;
        minivm.gateway=*) GATEWAY=\"${arg#minivm.gateway=}\" ;;
        minivm.host_api=*) HOST_API=\"${arg#minivm.host_api=}\" ;;
    esac
done

log \"guest $VM_ID booted\"

ip link set lo up
ip link set eth0 up
if [ -n \"$GUEST_IP\" ]; then
    ip addr add \"$GUEST_IP\" dev eth0
fi
if [ -n \"$GATEWAY\" ]; then
    ip route add default via \"$GATEWAY\"
fi

if [ -n \"$HOST_API\" ]; then
    if RESPONSE=$(wget -q -O - \"$HOST_API\"); then
        log \"guest $VM_ID request ok: $RESPONSE\"
    else
        log \"guest $VM_ID request failed\"
    fi
else
    log \"guest $VM_ID has no minivm.host_api\"
fi

sync
poweroff -f
";

/// The built-in guest `/init` script.
pub fn default_init_script() -> (s: &'static str)
    ensures
        s == DEFAULT_INIT_SCRIPT,
{
    DEFAULT_INIT_SCRIPT
}

} // verus!
