//! Files of the disk file system as the kernel sees them: the open decision, and the
//! buffer logic of reading and writing an opened file.

use vstd::prelude::*;
use crate::flags::{OpenFlags, read_write_of};

verus! {

/// User memory that a system call reads into or writes from: a list of byte slices.
pub struct UserBuffer {
    pub buffers: Vec<Vec<u8>>,
}

impl View for UserBuffer {
    type V = Seq<Seq<u8>>;

    open spec fn view(&self) -> Seq<Seq<u8>> {
        Seq::new(self.buffers@.len(), |i: int| self.buffers@[i]@)
    }
}

/// Number of bytes in the slices before slice `i`.
pub open spec fn prefix_len(s: Seq<Seq<u8>>, i: int) -> int
    decreases i,
{
    if i <= 0 {
        0
    } else {
        prefix_len(s, i - 1) + s[i - 1].len()
    }
}

/// Number of bytes in all the slices.
pub open spec fn total_len(s: Seq<Seq<u8>>) -> int {
    prefix_len(s, s.len() as int)
}

/// How many bytes a read delivers: as many as there are, up to the buffer's size.
pub open spec fn read_total(data_len: int, s: Seq<Seq<u8>>) -> int {
    if data_len <= total_len(s) {
        data_len
    } else {
        total_len(s)
    }
}

/// The slices `s` after `data` was copied into them, front to back: byte `j` of slice
/// `i` is byte `prefix_len(s, i) + j` of `data` where there is one, and keeps its old
/// value after the end of `data`.
pub open spec fn filled(s: Seq<Seq<u8>>, data: Seq<u8>) -> Seq<Seq<u8>> {
    Seq::new(
        s.len(),
        |i: int|
            Seq::new(
                s[i].len(),
                |j: int|
                    if prefix_len(s, i) + j < data.len() {
                        data[prefix_len(s, i) + j]
                    } else {
                        s[i][j]
                    },
            ),
    )
}

/// The slices before slice `k` hold no fewer bytes than those before slice `i <= k`.
pub proof fn lemma_prefix_len_monotone(s: Seq<Seq<u8>>, i: int, k: int)
    requires
        0 <= i <= k <= s.len(),
    ensures
        prefix_len(s, i) <= prefix_len(s, k),
    decreases k - i,
{
    if i < k {
        lemma_prefix_len_monotone(s, i, k - 1);
    }
}

/// A directory or a file of the disk file system, as handles of the file system's own types.
pub enum Inode<D, F> {
    Dir(D),
    File(F),
}

/// The state of an opened inode: where the next read starts, and the inode.
pub struct OSInodeInner<D, F> {
    pub offset: usize,
    pub inode: Inode<D, F>,
}

/// An inode opened by a process, with the access it was opened for.
pub struct OSInode<D, F> {
    pub readable: bool,
    pub writable: bool,
    pub inner: OSInodeInner<D, F>,
}

/// Copy of `dst` in which byte `j` is replaced by `data[from + j]` where `data` has it.
fn fill_slice(dst: &Vec<u8>, data: &Vec<u8>, from: usize) -> (r: Vec<u8>)
    requires
        from <= data@.len(),
    ensures
        r@ == Seq::new(
            dst@.len(),
            |j: int| if from + j < data@.len() { data@[from + j] } else { dst@[j] },
        ),
{
    let mut r: Vec<u8> = Vec::new();
    let mut j: usize = 0;
    while j < dst.len()
        invariant
            from <= data@.len(),
            j <= dst@.len(),
            r@ == Seq::new(
                j as nat,
                |k: int| if from + k < data@.len() { data@[from + k] } else { dst@[k] },
            ),
        decreases dst@.len() - j,
    {
        if j < data.len() - from {
            r.push(data[from + j]);
        } else {
            r.push(dst[j]);
        }
        proof {
            assert(r@ =~= Seq::new(
                (j + 1) as nat,
                |k: int| if from + k < data@.len() { data@[from + k] } else { dst@[k] },
            ));
        }
        j = j + 1;
    }
    r
}

/// What a read of `data` into the slices `bufs` does to an opened inode: the offset
/// moves past the bytes delivered, and the inode and its access stay.
pub open spec fn read_post<D, F>(old: OSInode<D, F>, new: OSInode<D, F>, data: Seq<u8>, bufs: Seq<Seq<u8>>) -> bool {
    &&& new.inner.offset == old.inner.offset + read_total(data.len() as int, bufs)
    &&& new.inner.inode == old.inner.inode
    &&& new.readable == old.readable
    &&& new.writable == old.writable
}

/// What a write of the slices `bufs` does to an opened inode: the offset moves past
/// all of them, and the inode and its access stay.
pub open spec fn write_post<D, F>(old: OSInode<D, F>, new: OSInode<D, F>, bufs: Seq<Seq<u8>>) -> bool {
    &&& new.inner.offset == old.inner.offset + total_len(bufs)
    &&& new.inner.inode == old.inner.inode
    &&& new.readable == old.readable
    &&& new.writable == old.writable
}

/// One operation on an opened inode: a read, a write, or one that leaves it as it is
/// (`read_all`, `readable`, `writable`, `file_offset`).
pub open spec fn file_step<D, F>(old: OSInode<D, F>, new: OSInode<D, F>) -> bool {
    ||| new == old
    ||| exists|data: Seq<u8>, bufs: Seq<Seq<u8>>| #[trigger] read_post(old, new, data, bufs)
    ||| exists|bufs: Seq<Seq<u8>>| #[trigger] write_post(old, new, bufs)
}

/// Through any sequence of reads and writes, an opened inode keeps the access it was
/// opened with: `readable` and `writable` answer as on the first state.
pub proof fn lemma_access_kept<D, F>(trace: Seq<OSInode<D, F>>)
    requires
        trace.len() > 0,
        forall|i: int| 0 <= i < trace.len() - 1 ==> #[trigger] file_step(trace[i], trace[i + 1]),
    ensures
        forall|i: int| 0 <= i < trace.len() ==> (#[trigger] trace[i]).readable == trace[0].readable
            && trace[i].writable == trace[0].writable,
    decreases trace.len(),
{
    if trace.len() > 1 {
        let prefix = trace.drop_last();
        assert forall|i: int| 0 <= i < prefix.len() - 1 implies #[trigger] file_step(prefix[i], prefix[i + 1]) by {
            assert(file_step(trace[i], trace[i + 1]));
        }
        lemma_access_kept(prefix);
        let n = trace.len() - 1;
        let j = n - 1;
        assert(file_step(trace[j], trace[j + 1]));
        assert(j + 1 == n);
        assert(prefix[j] == trace[j]);
        assert forall|i: int| 0 <= i < trace.len() implies (#[trigger] trace[i]).readable == trace[0].readable
            && trace[i].writable == trace[0].writable by {
            if i < n {
                assert(trace[i] == prefix[i]);
            }
        }
    }
}

impl<D, F> OSInode<D, F> {
    /// Whether the inode is a file (reads and writes of a directory are refused).
    pub open spec fn is_file(&self) -> bool {
        self.inner.inode is File
    }

    /// An opened inode, positioned at its start.
    pub fn new(readable: bool, writable: bool, inode: Inode<D, F>) -> (r: Self)
        ensures
            r.readable == readable,
            r.writable == writable,
            r.inner.offset == 0,
            r.inner.inode == inode,
    {
        OSInode { readable, writable, inner: OSInodeInner { offset: 0, inode } }
    }

    /// The offset handed to the file system for reads and writes, which takes it as
    /// a `u32`.
    pub fn file_offset(&self) -> (r: u32)
        ensures
            r == self.inner.offset as u32,
    {
        self.inner.offset as u32
    }

    /// Copies `data`, the file's bytes from `file_offset()` on, into the slices of
    /// `buf` front to back until either runs out, and moves the offset past the bytes
    /// copied. Returns how many bytes were copied.
    pub fn read(&mut self, data: &Vec<u8>, buf: &mut UserBuffer) -> (r: Result<usize, isize>)
        requires
            old(self).is_file(),
            old(self).inner.offset + read_total(data@.len() as int, old(buf)@) <= usize::MAX,
        ensures
            r == Ok::<usize, isize>(read_total(data@.len() as int, old(buf)@) as usize),
            final(buf)@ == filled(old(buf)@, data@),
            read_post(*old(self), *final(self), data@, old(buf)@),
    {
        let ghost old_bufs = buf@;
        let n = buf.buffers.len();
        let mut total_read: usize = 0;
        let mut read_size: usize = 0;
        let mut done = false;
        let mut i: usize = 0;
        while i < n && !done
            invariant
                n == buf.buffers@.len(),
                old_bufs.len() == n,
                i <= n,
                read_size <= data@.len(),
                total_read == read_size,
                !done ==> read_size == prefix_len(old_bufs, i as int),
                done ==> read_size == data@.len() && prefix_len(old_bufs, i as int) > data@.len(),
                forall|k: int| 0 <= k < i ==> #[trigger] buf@[k] == filled(old_bufs, data@)[k],
                forall|k: int| i <= k < n ==> #[trigger] buf@[k] == old_bufs[k],
            decreases n - i,
        {
            let slice_size = buf.buffers[i].len();
            assert(buf@[i as int] == old_bufs[i as int]);
            let new_slice = fill_slice(&buf.buffers[i], data, read_size);
            proof {
                assert(new_slice@ =~= filled(old_bufs, data@)[i as int]);
            }
            let ghost prev_view = buf@;
            let ghost prev = buf.buffers@;
            buf.buffers[i] = new_slice;
            proof {
                assert(buf.buffers@ == prev.update(i as int, new_slice));
                assert forall|k: int| 0 <= k < n && k != i implies #[trigger] buf@[k] == prev_view[k] by {
                    assert(buf.buffers@[k] == prev[k]);
                }
                assert(buf@[i as int] == new_slice@);
            }
            if slice_size > data.len() - read_size {
                total_read = total_read + (data.len() - read_size);
                read_size = data.len();
                done = true;
            } else {
                total_read = total_read + slice_size;
                read_size = read_size + slice_size;
            }
            i = i + 1;
            proof {
                assert forall|k: int| 0 <= k < i implies #[trigger] buf@[k] == filled(old_bufs, data@)[k] by {
                    if k < i - 1 {
                        assert(buf@[k] == prev_view[k]);
                    }
                }
                assert forall|k: int| i <= k < n implies #[trigger] buf@[k] == old_bufs[k] by {
                    assert(buf@[k] == prev_view[k]);
                }
            }
        }
        proof {
            if done {
                assert forall|k: int| i <= k < n implies #[trigger] filled(old_bufs, data@)[k] =~= old_bufs[k] by {
                    lemma_prefix_len_monotone(old_bufs, i as int, k);
                }
                lemma_prefix_len_monotone(old_bufs, i as int, n as int);
            }
            assert(buf@ =~= filled(old_bufs, data@));
        }
        self.inner.offset = self.inner.offset + total_read;
        Ok(total_read)
    }

    /// Where each slice of `buf` goes on the file: every slice is written at the
    /// offset the write began at, `file_offset()`.
    pub fn write_offsets(&self, buf: &UserBuffer) -> (r: Vec<u32>)
        ensures
            r@.len() == buf@.len(),
            forall|i: int| 0 <= i < r@.len() ==> #[trigger] r@[i] == self.inner.offset as u32,
    {
        let offset = self.file_offset();
        let mut r: Vec<u32> = Vec::new();
        let mut i: usize = 0;
        while i < buf.buffers.len()
            invariant
                i <= buf@.len(),
                offset == self.inner.offset as u32,
                r@.len() == i,
                forall|k: int| 0 <= k < i ==> #[trigger] r@[k] == offset,
            decreases buf@.len() - i,
        {
            r.push(offset);
            i = i + 1;
        }
        r
    }

    /// Accounts for writing the slices of `buf`, each in full, at `file_offset()` as it
    /// was when the call began: the offset moves past all of them. Returns how many
    /// bytes were written.
    pub fn write(&mut self, buf: &UserBuffer) -> (r: Result<usize, isize>)
        requires
            old(self).is_file(),
            old(self).inner.offset + total_len(buf@) <= usize::MAX,
        ensures
            r == Ok::<usize, isize>(total_len(buf@) as usize),
            write_post(*old(self), *final(self), buf@),
    {
        let n = buf.buffers.len();
        let mut total_write_size: usize = 0;
        let mut i: usize = 0;
        while i < n
            invariant
                n == buf@.len(),
                i <= n,
                total_write_size == prefix_len(buf@, i as int),
                self.inner.offset == old(self).inner.offset + total_write_size,
                self.inner.inode == old(self).inner.inode,
                self.readable == old(self).readable,
                self.writable == old(self).writable,
                old(self).inner.offset + total_len(buf@) <= usize::MAX,
            decreases n - i,
        {
            proof {
                lemma_prefix_len_monotone(buf@, i + 1, n as int);
            }
            let write_size = buf.buffers[i].len();
            assert(write_size == buf@[i as int].len());
            self.inner.offset = self.inner.offset + write_size;
            total_write_size = total_write_size + write_size;
            i = i + 1;
        }
        Ok(total_write_size)
    }
}

/// An open-file operation of a process: `read` fills `buf` from the file, `write`
/// writes `buf` to it; both answer the number of bytes moved or an error code.
pub trait File {
    fn read(&self, buf: &mut UserBuffer) -> Result<usize, isize>;

    fn write(&self, buf: &UserBuffer) -> Result<usize, isize>;
}

/// The access an opened file grants.
pub trait FileExt {
    fn readable(&self) -> bool;

    fn writable(&self) -> bool;
}

impl<D, F> FileExt for OSInode<D, F> {
    fn readable(&self) -> (r: bool)
        ensures
            r == self.readable,
    {
        self.readable
    }

    fn writable(&self) -> (r: bool)
        ensures
            r == self.writable,
    {
        self.writable
    }
}

/// What opening a file takes: whether the file must first be created, whether its
/// contents are cleared, and the access the opened file grants.
pub struct OpenPlan {
    pub create: bool,
    pub clear: bool,
    pub readable: bool,
    pub writable: bool,
}

/// Whether the directory listing `entries` has an entry named `name`.
pub open spec fn has_entry(entries: Seq<String>, name: Seq<char>) -> bool {
    exists|i: int| 0 <= i < entries.len() && #[trigger] entries[i]@ == name
}

/// How `open` proceeds with flags `bits`, `found` saying whether the root directory
/// lists the name: with `CREATE`, an existing file is cleared and a missing one created;
/// without it, an existing file is cleared only with `TRUNC`, and a missing one is not
/// opened.
pub open spec fn open_plan_of(bits: u32, found: bool) -> Option<OpenPlan> {
    let (readable, writable) = read_write_of(bits);
    if bits & 0x200 == 0x200 {
        if found {
            Some(OpenPlan { create: false, clear: true, readable, writable })
        } else {
            Some(OpenPlan { create: true, clear: false, readable, writable })
        }
    } else if found {
        Some(OpenPlan { create: false, clear: bits & 0x400 == 0x400, readable, writable })
    } else {
        None
    }
}

/// Decides how to open `name` in the root directory, whose entries are `entries`, with
/// `flags`; `None` when there is nothing to open.
pub fn open_file(name: &str, flags: OpenFlags, entries: &Vec<String>) -> (r: Option<OpenPlan>)
    ensures
        r == open_plan_of(flags@, has_entry(entries@, name@)),
{
    let (readable, writable) = flags.read_write();
    let target: String = name.to_owned();
    let mut found = false;
    let mut i: usize = 0;
    while i < entries.len()
        invariant
            i <= entries@.len(),
            target@ == name@,
            found <==> exists|k: int| 0 <= k < i && #[trigger] entries@[k]@ == name@,
        decreases entries@.len() - i,
    {
        if entries[i] == target {
            found = true;
        }
        i = i + 1;
    }
    if flags.contains(OpenFlags::CREATE()) {
        if found {
            Some(OpenPlan { create: false, clear: true, readable, writable })
        } else {
            Some(OpenPlan { create: true, clear: false, readable, writable })
        }
    } else {
        if found {
            Some(OpenPlan { create: false, clear: flags.contains(OpenFlags::TRUNC()), readable, writable })
        } else {
            None
        }
    }
}

/// With `CREATE`, opening always yields a file.
pub proof fn lemma_create_always_opens(bits: u32, found: bool)
    requires
        bits & 0x200 == 0x200,
    ensures
        open_plan_of(bits, found) is Some,
{
}

/// Without `CREATE`, opening yields a file exactly when the directory lists it, and
/// never creates one.
pub proof fn lemma_open_without_create(bits: u32, found: bool)
    requires
        bits & 0x200 != 0x200,
    ensures
        open_plan_of(bits, found) is Some <==> found,
        open_plan_of(bits, found) is Some ==> !open_plan_of(bits, found)->0.create,
{
}

/// The opened file grants the access that the flags' `read_write` names.
pub proof fn lemma_open_access(bits: u32, found: bool)
    requires
        open_plan_of(bits, found) is Some,
    ensures
        (open_plan_of(bits, found)->0.readable, open_plan_of(bits, found)->0.writable) == read_write_of(bits),
{
}

/// Copying no data leaves the buffer as it was.
pub proof fn lemma_read_nothing(s: Seq<Seq<u8>>)
    ensures
        filled(s, Seq::<u8>::empty()) == s,
        read_total(0, s) == 0,
{
    assert forall|i: int| 0 <= i < s.len() implies #[trigger] filled(s, Seq::<u8>::empty())[i] == s[i] by {
        lemma_prefix_len_monotone(s, 0, i);
        assert(filled(s, Seq::<u8>::empty())[i] =~= s[i]);
    }
    assert(filled(s, Seq::<u8>::empty()) =~= s);
    lemma_prefix_len_monotone(s, 0, s.len() as int);
}

/// The bytes a read delivers are the first bytes of the data: for every byte position
/// below the number delivered, the slice that holds it got the data's byte there.
pub proof fn lemma_read_delivers_prefix(s: Seq<Seq<u8>>, data: Seq<u8>, i: int, j: int)
    requires
        0 <= i < s.len(),
        0 <= j < s[i].len(),
        prefix_len(s, i) + j < read_total(data.len() as int, s),
    ensures
        filled(s, data)[i][j] == data[prefix_len(s, i) + j],
{
}

/// The bytes of a file of content `content` from `offset` on: what the file system
/// hands back for a read at `offset` of the whole file.
pub open spec fn bytes_from(content: Seq<u8>, offset: int) -> Seq<u8> {
    content.subrange(offset, content.len() as int)
}

/// Two reads in a row on an opened file, each given the file's bytes from the offset
/// handed to the file system, deliver consecutive bytes of the file that do not
/// overlap: the first delivers `k1` bytes from the starting offset `o`, the second the
/// `k2` bytes that follow them, and the offset ends at `o + k1 + k2`.
pub proof fn lemma_two_reads_consecutive<D, F>(
    content: Seq<u8>,
    f0: OSInode<D, F>,
    f1: OSInode<D, F>,
    f2: OSInode<D, F>,
    b1: Seq<Seq<u8>>,
    b2: Seq<Seq<u8>>,
)
    requires
        content.len() <= u32::MAX,
        f0.inner.offset <= content.len(),
        read_post(f0, f1, bytes_from(content, (f0.inner.offset as u32) as int), b1),
        read_post(f1, f2, bytes_from(content, (f1.inner.offset as u32) as int), b2),
    ensures
        ({
            let o = f0.inner.offset as int;
            let k1 = read_total(content.len() - o, b1);
            let k2 = read_total(content.len() - o - k1, b2);
            &&& f1.inner.offset == o + k1
            &&& f2.inner.offset == o + k1 + k2
            &&& o + k1 + k2 <= content.len()
            &&& forall|i: int, j: int|
                0 <= i < b1.len() && 0 <= j < b1[i].len() && prefix_len(b1, i) + j < k1
                    ==> #[trigger] filled(b1, bytes_from(content, o))[i][j] == content[o + prefix_len(b1, i) + j]
            &&& forall|i: int, j: int|
                0 <= i < b2.len() && 0 <= j < b2[i].len() && prefix_len(b2, i) + j < k2
                    ==> #[trigger] filled(b2, bytes_from(content, o + k1))[i][j] == content[o + k1
                    + prefix_len(b2, i) + j]
        }),
{
    let o = f0.inner.offset as int;
    assert((f0.inner.offset as u32) as int == o);
    let d1 = bytes_from(content, o);
    let k1 = read_total(d1.len() as int, b1);
    lemma_prefix_len_monotone(b1, 0, b1.len() as int);
    assert(0 <= k1 <= d1.len());
    assert(f1.inner.offset == o + k1);
    assert((f1.inner.offset as u32) as int == o + k1);
    let d2 = bytes_from(content, o + k1);
    let k2 = read_total(d2.len() as int, b2);
    lemma_prefix_len_monotone(b2, 0, b2.len() as int);
    assert(0 <= k2 <= d2.len());
    assert forall|i: int, j: int|
        0 <= i < b1.len() && 0 <= j < b1[i].len() && prefix_len(b1, i) + j < k1
            implies #[trigger] filled(b1, d1)[i][j] == content[o + prefix_len(b1, i) + j] by {
        lemma_prefix_len_monotone(b1, 0, i);
    }
    assert forall|i: int, j: int|
        0 <= i < b2.len() && 0 <= j < b2[i].len() && prefix_len(b2, i) + j < k2
            implies #[trigger] filled(b2, d2)[i][j] == content[o + k1 + prefix_len(b2, i) + j] by {
        lemma_prefix_len_monotone(b2, 0, i);
    }
}

/// What `open` does, flag by flag: with `CREATE` a missing file is created and an
/// existing one cleared; without it a missing file is not opened and an existing one is
/// cleared exactly when `TRUNC` is set; the file is readable exactly when `WRONLY` is
/// clear and writable exactly when some flag is set.
pub proof fn lemma_open_decision(bits: u32, found: bool)
    ensures
        bits & 0x200 == 0x200 ==> open_plan_of(bits, found) is Some
            && open_plan_of(bits, found)->0.create == !found
            && open_plan_of(bits, found)->0.clear == found,
        bits & 0x200 != 0x200 ==> (open_plan_of(bits, found) is Some <==> found),
        bits & 0x200 != 0x200 && found ==> !open_plan_of(bits, found)->0.create
            && open_plan_of(bits, found)->0.clear == (bits & 0x400 == 0x400),
        open_plan_of(bits, found) is Some ==> open_plan_of(bits, found)->0.readable == (bits & 1 == 0)
            && open_plan_of(bits, found)->0.writable == (bits != 0),
{
    crate::flags::lemma_read_write_access(bits);
}

/// The bytes a read delivers: never more than the data or than the buffer holds, and
/// all of one of them.
pub proof fn lemma_read_total_bounds(data_len: int, s: Seq<Seq<u8>>)
    requires
        0 <= data_len,
    ensures
        0 <= read_total(data_len, s),
        read_total(data_len, s) <= data_len,
        read_total(data_len, s) <= total_len(s),
        read_total(data_len, s) == data_len || read_total(data_len, s) == total_len(s),
{
    lemma_prefix_len_monotone(s, 0, s.len() as int);
}

/// The slices lie end to end: none before the first, and each starts where the one
/// before it ends.
pub proof fn lemma_prefix_len_step(s: Seq<Seq<u8>>, i: int)
    requires
        0 <= i < s.len(),
    ensures
        prefix_len(s, 0) == 0,
        prefix_len(s, i + 1) == prefix_len(s, i) + s[i].len(),
{
}

/// A read leaves alone every byte past the bytes it delivers, and the shape of the buffer.
pub proof fn lemma_read_keeps_rest(s: Seq<Seq<u8>>, data: Seq<u8>, i: int, j: int)
    requires
        0 <= i < s.len(),
        0 <= j < s[i].len(),
        prefix_len(s, i) + j >= read_total(data.len() as int, s),
    ensures
        filled(s, data).len() == s.len(),
        filled(s, data)[i].len() == s[i].len(),
        filled(s, data)[i][j] == s[i][j],
{
    lemma_prefix_len_monotone(s, i + 1, s.len() as int);
}

/// Writes add up: after two writes the offset has moved by every byte of both buffers.
pub proof fn lemma_writes_accumulate<D, F>(
    f0: OSInode<D, F>,
    f1: OSInode<D, F>,
    f2: OSInode<D, F>,
    b1: Seq<Seq<u8>>,
    b2: Seq<Seq<u8>>,
)
    requires
        write_post(f0, f1, b1),
        write_post(f1, f2, b2),
        b1.len() == 1,
        b2.len() == 1,
    ensures
        f2.inner.offset == f0.inner.offset + b1[0].len() + b2[0].len(),
        f2.inner.inode == f0.inner.inode,
{
    assert(prefix_len(b1, 0) == 0);
    assert(prefix_len(b1, 1) == b1[0].len());
    assert(prefix_len(b2, 0) == 0);
    assert(prefix_len(b2, 1) == b2[0].len());
}

} // verus!
