use vstd::prelude::*;

verus! {

/// Size of one memory page: the code page and the data page each have this size.
pub const PAGE_SIZE: usize = 4096;

/// Width of one data cell, an address on a 64-bit target.
pub const CELL_SIZE: usize = 8;

/// Number of pointer-sized cells in the data page.
pub const DATA_CELLS: usize = 512;

/// Byte that fills both pages before any code is written: `ret` on x86-64.
pub const RET: u8 = 0xc3;

/// Value of a data cell that holds eight `RET` bytes.
pub const RET_CELL: u64 = 0xc3c3_c3c3_c3c3_c3c3;

/// What the host must grant the code page.
#[derive(Clone, Copy, Debug, PartialEq, Eq, Structural)]
pub enum Protection {
    /// Readable and writable, never executable.
    ReadWrite,
    /// Readable and executable, never writable.
    ReadExec,
}

/// What a page pair holds: its lock state, the address of its code page, and
/// the contents of its two pages.
pub struct PagePairView {
    pub locked: bool,
    pub base: int,
    pub code: Seq<u8>,
    pub data: Seq<u64>,
}

impl PagePairView {
    /// The same pages with the code page locked (`true`) or editable (`false`).
    pub open spec fn with_lock(self, locked: bool) -> PagePairView {
        PagePairView { locked, ..self }
    }

    /// The protection that the code page must have.
    pub open spec fn protection(self) -> Protection {
        if self.locked {
            Protection::ReadExec
        } else {
            Protection::ReadWrite
        }
    }

    /// Address of the first byte of the data page.
    pub open spec fn data_base(self) -> int {
        self.base + PAGE_SIZE
    }

    /// Address of data cell `index`.
    pub open spec fn cell_addr(self, index: int) -> int {
        self.data_base() + CELL_SIZE * index
    }

    /// The value of the data cell at address `addr`.
    pub open spec fn cell_at(self, addr: int) -> u64 {
        self.data[(addr - self.data_base()) / (CELL_SIZE as int)]
    }
}

/// Locking twice leaves the pages as locking once does, and so does unlocking;
/// the protection asked of the host is the same too.
pub proof fn lemma_lock_idempotent(v: PagePairView)
    ensures
        v.with_lock(true).with_lock(true) == v.with_lock(true),
        v.with_lock(false).with_lock(false) == v.with_lock(false),
        v.with_lock(true).with_lock(true).protection() == v.with_lock(true).protection(),
        v.with_lock(false).with_lock(false).protection() == v.with_lock(false).protection(),
{
}

/// A code page followed by a data page, starting at `contents`.
///
/// The struct keeps what the two pages must hold and whether the code page is
/// locked (executable) or editable (writable). The host mirrors it in memory.
pub struct JitCodeDataPagePair {
    locked: bool,
    contents: usize,
    code: Vec<u8>,
    data: Vec<u64>,
}

impl View for JitCodeDataPagePair {
    type V = PagePairView;

    closed spec fn view(&self) -> PagePairView {
        PagePairView { locked: self.locked, base: self.contents as int, code: self.code@, data: self.data@ }
    }
}

impl JitCodeDataPagePair {
    /// The page pair is well formed: page aligned, inside the address space,
    /// and its images have the size of a page.
    pub open spec fn wf(&self) -> bool {
        &&& self@.base % (PAGE_SIZE as int) == 0
        &&& self@.base + 2 * PAGE_SIZE <= usize::MAX
        &&& self@.code.len() == PAGE_SIZE
        &&& self@.data.len() == DATA_CELLS
    }

    /// Takes the page pair allocated at `contents`, both pages filled with `RET`,
    /// and editable.
    pub fn new(contents: usize) -> (r: Self)
        requires
            contents % PAGE_SIZE == 0,
            contents + 2 * PAGE_SIZE <= usize::MAX,
        ensures
            r.wf(),
            r@ == (PagePairView {
                locked: false,
                base: contents as int,
                code: Seq::new(PAGE_SIZE as nat, |k: int| RET),
                data: Seq::new(DATA_CELLS as nat, |k: int| RET_CELL),
            }),
    {
        let mut code: Vec<u8> = Vec::new();
        let mut k: usize = 0;
        while k < PAGE_SIZE
            invariant
                k <= PAGE_SIZE,
                code@ == Seq::new(k as nat, |j: int| RET),
            decreases PAGE_SIZE - k,
        {
            code.push(RET);
            k = k + 1;
            assert(code@ =~= Seq::new(k as nat, |j: int| RET));
        }
        let mut data: Vec<u64> = Vec::new();
        let mut k: usize = 0;
        while k < DATA_CELLS
            invariant
                k <= DATA_CELLS,
                data@ == Seq::new(k as nat, |j: int| RET_CELL),
            decreases DATA_CELLS - k,
        {
            data.push(RET_CELL);
            k = k + 1;
            assert(data@ =~= Seq::new(k as nat, |j: int| RET_CELL));
        }
        JitCodeDataPagePair { locked: false, contents, code, data }
    }

    /// Locks the code page: it becomes executable and read-only.
    pub fn lock(&mut self)
        ensures
            final(self)@ == old(self)@.with_lock(true),
    {
        self.locked = true;
    }

    /// Unlocks the code page: it becomes writable and not executable.
    pub fn unlock(&mut self)
        ensures
            final(self)@ == old(self)@.with_lock(false),
    {
        self.locked = false;
    }

    /// The protection that the code page must have in the current state.
    pub fn protection(&self) -> (r: Protection)
        ensures
            r == self@.protection(),
    {
        if self.locked {
            Protection::ReadExec
        } else {
            Protection::ReadWrite
        }
    }

    /// Address of the first byte of the code page.
    pub fn contents(&self) -> (r: usize)
        ensures
            r == self@.base,
    {
        self.contents
    }

    /// Whether the code page is locked.
    pub fn locked(&self) -> (r: bool)
        ensures
            r == self@.locked,
    {
        self.locked
    }

    /// Address of the byte at `offset` in the locked code page, to be called.
    pub fn get_func_ptr(&self, offset: usize) -> (r: usize)
        requires
            self.wf(),
            self@.locked,
            offset < PAGE_SIZE,
        ensures
            r == self@.base + offset,
    {
        self.contents + offset
    }

    /// The bytes that the code page holds, to be copied into it by the host;
    /// only while it is editable.
    pub fn code_as_slice(&self) -> (r: &[u8])
        requires
            !self@.locked,
        ensures
            r@ == self@.code,
    {
        self.code.as_slice()
    }

    /// Writes `bytes` at the start of the code page; only while it is editable.
    /// Bytes beyond the page are not written.
    pub fn write_code(&mut self, bytes: &Vec<u8>)
        requires
            old(self).wf(),
            !old(self)@.locked,
        ensures
            final(self).wf(),
            final(self)@.locked == old(self)@.locked,
            final(self)@.base == old(self)@.base,
            final(self)@.data == old(self)@.data,
            forall|k: int|
                0 <= k < PAGE_SIZE ==> #[trigger] final(self)@.code[k] == (if k
                    < bytes@.len() {
                    bytes@[k]
                } else {
                    old(self)@.code[k]
                }),
    {
        let n: usize = if bytes.len() < PAGE_SIZE { bytes.len() } else { PAGE_SIZE };
        let mut k: usize = 0;
        while k < n
            invariant
                n <= PAGE_SIZE,
                n <= bytes@.len(),
                n == PAGE_SIZE || n == bytes@.len(),
                k <= n,
                self.code@.len() == PAGE_SIZE,
                self.contents == old(self).contents,
                self.data@ == old(self).data@,
                !self.locked,
                forall|j: int|
                    0 <= j < PAGE_SIZE ==> #[trigger] self.code@[j] == (if j < k {
                        bytes@[j]
                    } else {
                        old(self).code@[j]
                    }),
            decreases n - k,
        {
            self.code.set(k, bytes[k]);
            k = k + 1;
        }
    }

    /// The cells of the data page; always readable.
    pub fn data_as_slice(&self) -> (r: &[u64])
        ensures
            r@ == self@.data,
    {
        self.data.as_slice()
    }

    /// Stores `value` into data cell `index` and returns the cell's address;
    /// always permitted, whatever the lock state.
    pub fn data_as_mut_slice(&mut self, index: usize, value: u64) -> (r: usize)
        requires
            old(self).wf(),
            index < DATA_CELLS,
        ensures
            final(self).wf(),
            final(self)@ == (PagePairView { data: old(self)@.data.update(index as int, value), ..old(self)@ }),
            r == old(self)@.cell_addr(index as int),
    {
        self.data.set(index, value);
        self.contents + PAGE_SIZE + CELL_SIZE * index
    }
}

} // verus!
