use crate::error::{Error, Result};
use vstd::prelude::*;
use vstd::string::StringExecFns;

verus! {

/// The size of every page, in bytes.
pub const PAGE_SIZE_BYTES: usize = 4096;

/// Addresses a page by its position in the backing file.
pub type PageId = u64;

#[verifier::external_type_specification]
#[verifier::external_body]
pub struct ExBytes(bytes::Bytes);

/// The bytes held by a `Bytes` buffer.
pub uninterp spec fn bytes_content(b: bytes::Bytes) -> Seq<u8>;

/// Relies on `impl From<Vec<u8>> for bytes::Bytes`: the buffer takes over the
/// vector's bytes, in order.
#[verifier::external_body]
fn freeze(v: Vec<u8>) -> (r: bytes::Bytes)
    ensures
        bytes_content(r) == v@,
{
    bytes::Bytes::from(v)
}

/// Byte offset of the start of a page in the backing file.
pub open spec fn page_offset(page_id: int) -> int {
    page_id * PAGE_SIZE_BYTES
}

/// Whether the offset of a page is representable as a `u64`.
pub open spec fn offset_fits(page_id: int) -> bool {
    page_offset(page_id) <= u64::MAX
}

/// A page of zero bytes.
pub open spec fn zero_page() -> Seq<u8> {
    Seq::new(PAGE_SIZE_BYTES as nat, |i: int| 0u8)
}

/// The contents of a file after `data` is written at `offset`. Writing bytes past
/// the end extends the file, and a gap before `offset` reads as zero bytes;
/// writing no bytes leaves the file as it was.
pub open spec fn disk_after_write(disk: Seq<u8>, offset: int, data: Seq<u8>) -> Seq<u8> {
    let end = offset + data.len();
    let len = if data.len() > 0 && end > disk.len() { end } else { disk.len() as int };
    Seq::new(
        len as nat,
        |i: int|
            if offset <= i < end {
                data[i - offset]
            } else if i < disk.len() {
                disk[i]
            } else {
                0u8
            },
    )
}

/// The outcome of reading exactly `len` bytes at `offset`: `None` when the file
/// ends first.
pub open spec fn disk_read(disk: Seq<u8>, offset: int, len: int) -> Option<Seq<u8>> {
    if 0 <= offset && offset + len <= disk.len() {
        Some(disk.subrange(offset, offset + len))
    } else {
        None
    }
}

/// The bytes of a page as stored in a file, `None` when the file holds no full
/// page there.
pub open spec fn page_bytes(disk: Seq<u8>, page_id: int) -> Option<Seq<u8>> {
    disk_read(disk, page_offset(page_id), PAGE_SIZE_BYTES as int)
}

/// A positioned write that the caller performs on the backing file, then flushes.
#[derive(Debug)]
pub struct PageWrite {
    pub offset: u64,
    pub data: Vec<u8>,
}

impl PageWrite {
    /// This write stores `data` at the start of page `page_id`.
    pub open spec fn writes(&self, page_id: int, data: Seq<u8>) -> bool {
        self.offset == page_offset(page_id) && self.data@ == data
    }

    /// The file's contents once this write is done.
    pub open spec fn apply(&self, disk: Seq<u8>) -> Seq<u8> {
        disk_after_write(disk, self.offset as int, self.data@)
    }
}

/// A positioned read of an exact number of bytes that the caller performs on the
/// backing file.
#[derive(Debug)]
pub struct PageRead {
    pub offset: u64,
    pub len: usize,
}

impl PageRead {
    /// This read fetches the whole of page `page_id`.
    pub open spec fn reads_page(&self, page_id: int) -> bool {
        self.offset == page_offset(page_id) && self.len == PAGE_SIZE_BYTES
    }

    /// What this read yields on a file with the given contents.
    pub open spec fn outcome(&self, disk: Seq<u8>) -> Option<Seq<u8>> {
        disk_read(disk, self.offset as int, self.len as int)
    }

    /// Turns the bytes that the caller read into a page. A buffer of another
    /// length than asked for is a short read, an I/O failure.
    pub fn complete(&self, buf: Vec<u8>) -> (r: Result<bytes::Bytes>)
        ensures
            buf.len() == self.len ==> (r matches Ok(b) && bytes_content(b) == buf@),
            buf.len() != self.len ==> r matches Err(Error::IO(_)),
    {
        if buf.len() != self.len {
            return Err(Error::IO(String::from_str("failed to fill whole buffer")));
        }
        Ok(freeze(buf))
    }
}

/// Turns a page id into a byte offset of the backing file, and hands out new page
/// ids. Page 0 always exists; ids are allocated densely upwards from it.
#[derive(Debug)]
pub struct DiskManager {
    last_allocated_pid: u64,
}

impl DiskManager {
    /// The highest page id allocated so far.
    pub closed spec fn last_allocated(&self) -> int {
        self.last_allocated_pid as int
    }

    /// One allocation took the store from `self` to `after` and returned `page_id`.
    pub open spec fn allocation(&self, after: &DiskManager, page_id: int) -> bool {
        page_id == self.last_allocated() + 1 && after.last_allocated() == page_id
    }

    /// Opens a store whose highest page is page 0, with the write that
    /// initializes page 0 to zero bytes, overwriting whatever the file held there.
    pub fn new() -> (r: (DiskManager, PageWrite))
        ensures
            r.0.last_allocated() == 0,
            r.1.writes(0, zero_page()),
    {
        let disk_manager = DiskManager { last_allocated_pid: 0 };
        let zeros: Vec<u8> = vec![0u8; PAGE_SIZE_BYTES];
        assert(zeros@ =~= zero_page());
        (disk_manager, PageWrite { offset: 0, data: zeros })
    }

    /// Allocates the page after the highest one so far, with the write that
    /// initializes it to zero bytes. The new id is taken before its offset is
    /// computed, so an id whose offset overflows is used up by the failed call and
    /// never handed out. Fails, changing nothing, once the id space is exhausted.
    pub fn allocate_page(&mut self) -> (r: Result<(PageId, PageWrite)>)
        ensures
            old(self).last_allocated() < u64::MAX ==> old(self).allocation(
                final(self),
                old(self).last_allocated() + 1,
            ),
            old(self).last_allocated() < u64::MAX && offset_fits(old(self).last_allocated() + 1)
                ==> (r matches Ok((page_id, w)) && page_id == old(self).last_allocated() + 1
                && w.writes(page_id as int, zero_page())),
            !offset_fits(old(self).last_allocated() + 1) ==> r matches Err(Error::ArithmeticOverflow),
            old(self).last_allocated() == u64::MAX ==> final(self).last_allocated() == u64::MAX,
    {
        let page_id = match self.last_allocated_pid.checked_add(1) {
            Some(p) => p,
            None => {
                assert(!offset_fits(self.last_allocated() + 1)) by (nonlinear_arith)
                    requires self.last_allocated() + 1 > u64::MAX;
                return Err(Error::ArithmeticOverflow);
            },
        };
        self.last_allocated_pid = page_id;
        let offset = Self::calculate_offset(&page_id)?;
        let zeros: Vec<u8> = vec![0u8; PAGE_SIZE_BYTES];
        assert(zeros@ =~= zero_page());
        Ok((page_id, PageWrite { offset, data: zeros }))
    }

    /// The highest page id allocated so far.
    pub fn last_allocated_pid(&self) -> (r: PageId)
        ensures
            r == self.last_allocated(),
    {
        self.last_allocated_pid
    }

    /// The byte offset of a page, with an overflow check.
    pub fn calculate_offset(page_id: &PageId) -> (r: Result<u64>)
        ensures
            offset_fits(*page_id as int) ==> r == Ok::<u64, Error>(page_offset(*page_id as int) as u64),
            !offset_fits(*page_id as int) ==> r matches Err(Error::ArithmeticOverflow),
    {
        match (*page_id).checked_mul(PAGE_SIZE_BYTES as u64) {
            Some(value) => Ok(value),
            None => Err(Error::ArithmeticOverflow),
        }
    }

    /// Plans the write of `data` at the start of a page. Data longer than a page
    /// is refused; shorter data leaves the rest of the page as it was.
    pub fn write(&self, page_id: &PageId, data: &[u8]) -> (r: Result<PageWrite>)
        ensures
            data@.len() > PAGE_SIZE_BYTES ==> (r matches Err(Error::InvalidData(m))
                && m@ == "Page data must fit in a page."@),
            data@.len() <= PAGE_SIZE_BYTES && !offset_fits(*page_id as int)
                ==> r matches Err(Error::ArithmeticOverflow),
            data@.len() <= PAGE_SIZE_BYTES && offset_fits(*page_id as int)
                ==> (r matches Ok(w) && w.writes(*page_id as int, data@)),
    {
        if data.len() > PAGE_SIZE_BYTES {
            return Err(Error::InvalidData(String::from_str("Page data must fit in a page.")));
        }
        let offset = Self::calculate_offset(page_id)?;
        Ok(PageWrite { offset, data: vstd::slice::slice_to_vec(data) })
    }

    /// Plans the read of a whole page.
    pub fn read(&self, page_id: &PageId) -> (r: Result<PageRead>)
        ensures
            offset_fits(*page_id as int) ==> (r matches Ok(q) && q.reads_page(*page_id as int)),
            !offset_fits(*page_id as int) ==> r matches Err(Error::ArithmeticOverflow),
    {
        let offset = Self::calculate_offset(page_id)?;
        Ok(PageRead { offset, len: PAGE_SIZE_BYTES })
    }
}

/// Writing a full page of zero bytes, then reading that page back, gives the
/// zero page, whatever the file held before and however short it was.
pub proof fn lemma_zeroed_page_reads_zero(disk: Seq<u8>, page_id: PageId, w: PageWrite, q: PageRead)
    requires
        w.writes(page_id as int, zero_page()),
        q.reads_page(page_id as int),
    ensures
        q.outcome(w.apply(disk)) == Some(zero_page()),
{
    let after = w.apply(disk);
    let off = page_offset(page_id as int);
    assert(off >= 0) by (nonlinear_arith)
        requires off == page_id * PAGE_SIZE_BYTES;
    assert(after.subrange(off, off + PAGE_SIZE_BYTES) =~= zero_page());
}

/// Opening a store on a new, empty file and reading page 0 gives the zero page.
pub proof fn lemma_fresh_file_first_page_is_zero(w: PageWrite, q: PageRead)
    requires
        w.writes(0, zero_page()),
        q.reads_page(0),
    ensures
        q.outcome(w.apply(Seq::empty())) == Some(zero_page()),
{
    lemma_zeroed_page_reads_zero(Seq::empty(), 0, w, q);
}

/// Over successive allocations from a freshly opened store, the ids returned are
/// 1, 2, 3, ...: strictly increasing, with no gaps.
pub proof fn lemma_allocations_are_dense(stores: Seq<DiskManager>, ids: Seq<int>)
    requires
        stores.len() == ids.len() + 1,
        stores[0].last_allocated() == 0,
        forall|i: int| 0 <= i < ids.len() ==> #[trigger] stores[i].allocation(&stores[i + 1], ids[i]),
    ensures
        forall|i: int| 0 <= i < ids.len() ==> #[trigger] ids[i] == i + 1,
        forall|i: int, j: int| 0 <= i < j < ids.len() ==> ids[i] < ids[j],
    decreases ids.len(),
{
    if ids.len() > 0 {
        let n = ids.len() - 1;
        lemma_allocations_are_dense(stores.take(n + 1), ids.take(n));
        assert(stores.take(n + 1)[n] == stores[n]);
        assert(stores[n].allocation(&stores[n + 1], ids[n]));
        assert forall|i: int| 0 <= i < ids.len() implies #[trigger] ids[i] == i + 1 by {
            if i < n {
                assert(ids.take(n)[i] == ids[i]);
            } else {
                if n > 0 {
                    assert(ids.take(n)[n - 1] == ids[n - 1]);
                    assert(stores.take(n + 1)[n - 1].allocation(&stores.take(n + 1)[n], ids.take(n)[n - 1]));
                }
            }
        }
    }
}

/// Writing `data` to a page that the file holds, then reading the page back,
/// gives `data` followed by the page's former bytes beyond `data`'s length.
pub proof fn lemma_write_then_read(
    disk: Seq<u8>,
    page_id: PageId,
    data: Seq<u8>,
    w: PageWrite,
    q: PageRead,
)
    requires
        data.len() <= PAGE_SIZE_BYTES,
        page_bytes(disk, page_id as int) is Some,
        w.writes(page_id as int, data),
        q.reads_page(page_id as int),
    ensures
        q.outcome(w.apply(disk)) == Some(
            data + page_bytes(disk, page_id as int)->Some_0.subrange(data.len() as int, PAGE_SIZE_BYTES as int),
        ),
{
    let off = page_offset(page_id as int);
    assert(off >= 0) by (nonlinear_arith)
        requires off == page_id * PAGE_SIZE_BYTES;
    let old_page = page_bytes(disk, page_id as int)->Some_0;
    let after = w.apply(disk);
    assert(after.subrange(off, off + PAGE_SIZE_BYTES) =~= data + old_page.subrange(
        data.len() as int,
        PAGE_SIZE_BYTES as int,
    ));
}

} // verus!
