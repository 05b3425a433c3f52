use vstd::prelude::*;
use crate::jit::{CELL_SIZE, DATA_CELLS, JitCodeDataPagePair, PAGE_SIZE, PagePairView, RET_CELL};
use crate::machine::{imm64, imm8, lemma_run_compose, rel32, run, step, Machine};
use crate::layout::{capacity_for, lemma_layout_fills_page, padding_for};

verus! {

/// Bytes of the entry point template that the first entry point leaves out.
pub const JMP_SIZE: usize = 8;

/// Length of one entry point template.
pub const ENTRYPOINT_LEN: usize = 10;

/// One entry point: count one more entry, jump over the next entry's reset,
/// and the reset that starts the count.
pub const TRAMPOLINE_ENTRYPOINT: [u8; 10] = [
    0x48, 0xff, 0xc0,  // inc rax
    0xe9, 0x02, 0x00, 0x00, 0x00,  // jmp +2
    0x31, 0xc0,  // xor eax, eax
];

/// Length of the first part of the shared tail.
pub const TRAMPOLINE_END_LEN: usize = 20;

/// The shared tail, up to the dispatcher's address that follows it. It uses
/// only `rax`, `rdi` and `r11`, which the C calling convention leaves to the
/// called function, so the caller's preserved registers stay as they were.
pub const TRAMPOLINE_END: [u8; 20] = [
    0xe8, 0x00, 0x00, 0x00, 0x00,  // call +0
    0x41, 0x5b,  // pop r11
    0x49, 0x83, 0xc3, 0x1a,  // add r11, 26
    0x49, 0x8d, 0x04, 0xc3,  // lea rax, [r11 + rax * 8]
    0x48, 0x89, 0xc7,  // mov rdi, rax
    0x49, 0xbb,  // mov r11, imm64
];

/// Width of the dispatcher's address in the code.
pub const SIZE_OF_PTR: usize = 8;

/// Length of the final jump.
pub const JMP_R11_LEN: usize = 3;

/// The final jump to the dispatcher.
pub const JMP_R11: [u8; 3] = [0x41, 0xff, 0xe3];

/// Length of the whole shared tail.
pub const SIZE_OF_TRAMPOLINE_END: usize = TRAMPOLINE_END_LEN + SIZE_OF_PTR + JMP_R11_LEN;

/// The no-op instruction that pads the front of the code page.
pub const NOP: u8 = 0x90;

/// Number of entry points in one code page.
pub const TRAMPOLINE_CAPACITY: usize = (PAGE_SIZE - SIZE_OF_TRAMPOLINE_END - (ENTRYPOINT_LEN
    - JMP_SIZE)) / ENTRYPOINT_LEN + 1;

/// Bytes of the entry point area.
pub const ENTRY_AREA_LEN: usize = TRAMPOLINE_CAPACITY * ENTRYPOINT_LEN - JMP_SIZE;

/// Number of no-op bytes in front of the entry points.
pub const NOP_COUNT: usize = PAGE_SIZE - (ENTRY_AREA_LEN + SIZE_OF_TRAMPOLINE_END);

/// Offset of the shared tail in the code page.
pub const TAIL_START: usize = NOP_COUNT + ENTRY_AREA_LEN;

/// The constants are those of the general layout, and fill one page.
pub proof fn lemma_constants()
    ensures
        TRAMPOLINE_CAPACITY == capacity_for(
            PAGE_SIZE as int,
            ENTRYPOINT_LEN as int,
            JMP_SIZE as int,
            SIZE_OF_TRAMPOLINE_END as int,
        ),
        NOP_COUNT == padding_for(
            PAGE_SIZE as int,
            ENTRYPOINT_LEN as int,
            JMP_SIZE as int,
            SIZE_OF_TRAMPOLINE_END as int,
        ),
        NOP_COUNT + ENTRY_AREA_LEN + SIZE_OF_TRAMPOLINE_END == PAGE_SIZE,
        TAIL_START + SIZE_OF_TRAMPOLINE_END == PAGE_SIZE,
        TRAMPOLINE_CAPACITY <= DATA_CELLS,
        TRAMPOLINE_CAPACITY == 407,
        NOP_COUNT == 3,
{
    lemma_layout_fills_page(
        PAGE_SIZE as int,
        ENTRYPOINT_LEN as int,
        JMP_SIZE as int,
        SIZE_OF_TRAMPOLINE_END as int,
    );
    assert(TRAMPOLINE_CAPACITY == 407);
    assert(NOP_COUNT == 3);
}

/// Byte `k` of the entry point area: the templates back to back, without the
/// first `JMP_SIZE` bytes of the first.
pub open spec fn entry_area_byte(k: int) -> u8 {
    TRAMPOLINE_ENTRYPOINT@[(k + JMP_SIZE) % (ENTRYPOINT_LEN as int)]
}

/// The entry point area.
pub open spec fn entry_area() -> Seq<u8> {
    Seq::new(ENTRY_AREA_LEN as nat, |k: int| entry_area_byte(k))
}

/// The eight bytes of an address, least significant first.
pub open spec fn address_bytes(a: u64) -> Seq<u8> {
    seq![
        a as u8,
        (a >> 8u64) as u8,
        (a >> 16u64) as u8,
        (a >> 24u64) as u8,
        (a >> 32u64) as u8,
        (a >> 40u64) as u8,
        (a >> 48u64) as u8,
        (a >> 56u64) as u8,
    ]
}

/// The code page for a dispatcher at address `dispatcher`: padding, entry
/// points, and the shared tail with the dispatcher's address built in.
pub open spec fn code_image(dispatcher: u64) -> Seq<u8> {
    Seq::new(NOP_COUNT as nat, |k: int| NOP) + entry_area() + TRAMPOLINE_END@ + address_bytes(
        dispatcher,
    ) + JMP_R11@
}

/// Appends `bytes` to `v`.
fn push_all(v: &mut Vec<u8>, bytes: &[u8])
    ensures
        final(v)@ == old(v)@ + bytes@,
{
    let mut k: usize = 0;
    while k < bytes.len()
        invariant
            k <= bytes@.len(),
            v@ == old(v)@ + bytes@.subrange(0, k as int),
        decreases bytes@.len() - k,
    {
        v.push(bytes[k]);
        k = k + 1;
        assert(v@ =~= old(v)@ + bytes@.subrange(0, k as int));
    }
    assert(bytes@.subrange(0, bytes@.len() as int) =~= bytes@);
}

/// The eight bytes of `a`, least significant first.
fn address_to_bytes(a: u64) -> (r: Vec<u8>)
    ensures
        r@ == address_bytes(a),
{
    let r: Vec<u8> = vec![
        a as u8,
        (a >> 8u64) as u8,
        (a >> 16u64) as u8,
        (a >> 24u64) as u8,
        (a >> 32u64) as u8,
        (a >> 40u64) as u8,
        (a >> 48u64) as u8,
        (a >> 56u64) as u8,
    ];
    assert(r@ =~= address_bytes(a));
    r
}

/// The entry point area: `TRAMPOLINE_CAPACITY` templates back to back, the
/// first without its leading `JMP_SIZE` bytes.
pub fn repeat_entrypoint() -> (r: Vec<u8>)
    ensures
        r@ == entry_area(),
        r@.len() == ENTRY_AREA_LEN,
{
    let mut v: Vec<u8> = Vec::new();
    let mut k: usize = 0;
    let mut j: usize = JMP_SIZE;
    while k < ENTRY_AREA_LEN
        invariant
            k <= ENTRY_AREA_LEN,
            j == (k + JMP_SIZE) % (ENTRYPOINT_LEN as int),
            v@ == entry_area().subrange(0, k as int),
        decreases ENTRY_AREA_LEN - k,
    {
        v.push(TRAMPOLINE_ENTRYPOINT[j]);
        k = k + 1;
        j = if j + 1 == ENTRYPOINT_LEN { 0 } else { j + 1 };
        assert(v@ =~= entry_area().subrange(0, k as int));
    }
    assert(entry_area().subrange(0, ENTRY_AREA_LEN as int) =~= entry_area());
    v
}

/// The bytes of the code page for a dispatcher at address `dispatcher`.
pub fn generate_trampolines(dispatcher: u64) -> (r: Vec<u8>)
    ensures
        r@ == code_image(dispatcher),
        r@.len() == PAGE_SIZE,
{
    proof {
        lemma_constants();
    }
    let mut v: Vec<u8> = Vec::new();
    let mut k: usize = 0;
    while k < NOP_COUNT
        invariant
            k <= NOP_COUNT,
            v@ == Seq::new(k as nat, |j: int| NOP),
        decreases NOP_COUNT - k,
    {
        v.push(NOP);
        k = k + 1;
        assert(v@ =~= Seq::new(k as nat, |j: int| NOP));
    }
    let area = repeat_entrypoint();
    push_all(&mut v, area.as_slice());
    push_all(&mut v, TRAMPOLINE_END.as_slice());
    let address = address_to_bytes(dispatcher);
    push_all(&mut v, address.as_slice());
    push_all(&mut v, JMP_R11.as_slice());
    v
}

/// Offset in the code page of the entry point of slot `index`: later slots
/// enter earlier, so that they count more entries on their way to the tail.
pub open spec fn slot_offset(index: int) -> int {
    NOP_COUNT + (TRAMPOLINE_CAPACITY - 1 - index) * ENTRYPOINT_LEN
}

/// A pool of `TRAMPOLINE_CAPACITY` entry points in one page pair. Each slot has
/// an entry point in the code page and a cell in the data page.
pub struct TrampolineSet {
    jit_mem: JitCodeDataPagePair,
    dispatcher: u64,
}

impl View for TrampolineSet {
    type V = PagePairView;

    closed spec fn view(&self) -> PagePairView {
        self.jit_mem@
    }
}

impl TrampolineSet {
    pub const CAPACITY: usize = TRAMPOLINE_CAPACITY;

    /// Address of the dispatcher that every entry point jumps to.
    pub closed spec fn dispatcher_spec(&self) -> u64 {
        self.dispatcher
    }

    /// The set is well formed: its pages are, the code page is locked and holds
    /// the code for its dispatcher.
    pub open spec fn wf(&self) -> bool {
        &&& self@.base % (PAGE_SIZE as int) == 0
        &&& self@.base + 2 * PAGE_SIZE <= usize::MAX
        &&& self@.locked
        &&& self@.code == code_image(self.dispatcher_spec())
        &&& self@.data.len() == DATA_CELLS
    }

    /// Address of the entry point of slot `index`.
    pub open spec fn entry_point(&self, index: int) -> int {
        self@.base + slot_offset(index)
    }

    /// Builds the set in the page pair at `contents`: writes the code for the
    /// dispatcher at `dispatcher` while the code page is editable, then locks it.
    /// The data page keeps its `RET` fill until slots are installed.
    pub fn new(contents: usize, dispatcher: u64) -> (r: Self)
        requires
            contents % PAGE_SIZE == 0,
            contents + 2 * PAGE_SIZE <= usize::MAX,
        ensures
            r.wf(),
            r@.base == contents,
            r.dispatcher_spec() == dispatcher,
            r@.data == Seq::new(DATA_CELLS as nat, |k: int| RET_CELL),
    {
        let jit_mem = Self::prepare_pages(contents, dispatcher);
        Self::from_pages(jit_mem, dispatcher)
    }

    /// The first half of `new`: the page pair at `contents`, editable, with the
    /// code for the dispatcher at `dispatcher` written, for the host to copy
    /// into the code page before it is locked.
    pub fn prepare_pages(contents: usize, dispatcher: u64) -> (r: JitCodeDataPagePair)
        requires
            contents % PAGE_SIZE == 0,
            contents + 2 * PAGE_SIZE <= usize::MAX,
        ensures
            r.wf(),
            r@ == (PagePairView {
                locked: false,
                base: contents as int,
                code: code_image(dispatcher),
                data: Seq::new(DATA_CELLS as nat, |k: int| RET_CELL),
            }),
    {
        let mut jit_mem = JitCodeDataPagePair::new(contents);
        jit_mem.unlock();
        let code = generate_trampolines(dispatcher);
        jit_mem.write_code(&code);
        assert(jit_mem@.code =~= code_image(dispatcher));
        jit_mem
    }

    /// The second half of `new`: locks pages that hold the code for the
    /// dispatcher at `dispatcher` and makes them a set.
    pub fn from_pages(jit_mem: JitCodeDataPagePair, dispatcher: u64) -> (r: Self)
        requires
            jit_mem.wf(),
            jit_mem@.code == code_image(dispatcher),
        ensures
            r.wf(),
            r@ == jit_mem@.with_lock(true),
            r.dispatcher_spec() == dispatcher,
    {
        let mut jit_mem = jit_mem;
        jit_mem.lock();
        TrampolineSet { jit_mem, dispatcher }
    }

    /// The page pair that holds the set.
    pub fn pages(&self) -> (r: &JitCodeDataPagePair)
        ensures
            r@ == self@,
    {
        &self.jit_mem
    }

    /// The dispatcher's address, as built into the code.
    pub fn dispatcher(&self) -> (r: u64)
        ensures
            r == self.dispatcher_spec(),
    {
        self.dispatcher
    }

    /// Address of the entry point of slot `index`, to be called with no arguments.
    pub fn get_slot_fn(&mut self, index: usize) -> (r: usize)
        requires
            old(self).wf(),
            index < TRAMPOLINE_CAPACITY,
        ensures
            *final(self) == *old(self),
            r == old(self).entry_point(index as int),
            slot_offset(index as int) < TAIL_START,
    {
        let index = index + 1;
        let offset = ((TRAMPOLINE_CAPACITY - index) * ENTRYPOINT_LEN) + NOP_COUNT;
        self.jit_mem.get_func_ptr(offset)
    }

    /// Installs the callable at address `callable` into slot `index`, replacing
    /// the one there; returns the address of the slot's data cell.
    pub fn set_slot_fn(&mut self, index: usize, callable: u64) -> (r: usize)
        requires
            old(self).wf(),
            index < TRAMPOLINE_CAPACITY,
        ensures
            final(self).wf(),
            final(self).dispatcher_spec() == old(self).dispatcher_spec(),
            final(self)@ == (PagePairView {
                data: old(self)@.data.update(index as int, callable),
                ..old(self)@
            }),
            r == old(self)@.cell_addr(index as int),
    {
        proof {
            lemma_constants();
        }
        self.jit_mem.data_as_mut_slice(index, callable)
    }
}

/// Distinct slots have distinct entry points.
pub proof fn lemma_entry_points_distinct(set: TrampolineSet, i: int, j: int)
    requires
        0 <= i < TRAMPOLINE_CAPACITY,
        0 <= j < TRAMPOLINE_CAPACITY,
        i != j,
    ensures
        set.entry_point(i) != set.entry_point(j),
{
    assert((TRAMPOLINE_CAPACITY - 1 - i) * ENTRYPOINT_LEN != (TRAMPOLINE_CAPACITY - 1 - j)
        * ENTRYPOINT_LEN);
}

/// Byte `o` of the code image, part by part.
proof fn lemma_image_byte(d: u64, o: int)
    requires
        0 <= o < PAGE_SIZE,
    ensures
        code_image(d).len() == PAGE_SIZE,
        code_image(d)[o] == (if o < NOP_COUNT {
            NOP
        } else if o < TAIL_START {
            entry_area_byte(o - NOP_COUNT)
        } else if o < TAIL_START + TRAMPOLINE_END_LEN {
            TRAMPOLINE_END@[o - TAIL_START]
        } else if o < TAIL_START + TRAMPOLINE_END_LEN + SIZE_OF_PTR {
            address_bytes(d)[o - TAIL_START - TRAMPOLINE_END_LEN]
        } else {
            JMP_R11@[o - TAIL_START - TRAMPOLINE_END_LEN - SIZE_OF_PTR]
        }),
{
    lemma_constants();
}

proof fn lemma_mod_template(m: int, r: int)
    requires
        0 <= m,
        0 <= r < ENTRYPOINT_LEN,
    ensures
        (ENTRYPOINT_LEN * m + r) % (ENTRYPOINT_LEN as int) == r,
{
    assert((10 * m + r) % 10 == r) by (nonlinear_arith)
        requires
            0 <= m,
            0 <= r < 10,
    ;
}

/// The template of entry `j` (counted from the front, the first without its
/// leading bytes) starts with `inc rax; jmp +2`.
proof fn lemma_counting_bytes(d: u64, j: int)
    requires
        1 <= j < TRAMPOLINE_CAPACITY,
    ensures
        ({
            let c = code_image(d);
            let p = NOP_COUNT + ENTRYPOINT_LEN * j - JMP_SIZE;
            &&& c.len() == PAGE_SIZE
            &&& 0 <= p && p + 8 <= TAIL_START
            &&& c[p] == 0x48 && c[p + 1] == 0xff && c[p + 2] == 0xc0
            &&& c[p + 3] == 0xe9 && c[p + 4] == 0x02 && c[p + 5] == 0x00
            &&& c[p + 6] == 0x00 && c[p + 7] == 0x00
        }),
{
    lemma_constants();
    let p = NOP_COUNT + ENTRYPOINT_LEN * j - JMP_SIZE;
    assert forall|r: int| 0 <= r < 8 implies code_image(d)[p + r] == TRAMPOLINE_ENTRYPOINT@[r] by {
        lemma_image_byte(d, p + r);
        lemma_mod_template(j, r);
        assert(p + r - NOP_COUNT + JMP_SIZE == ENTRYPOINT_LEN * j + r);
    }
    assert(code_image(d)[p + 0] == TRAMPOLINE_ENTRYPOINT@[0]);
    assert(code_image(d)[p + 1] == TRAMPOLINE_ENTRYPOINT@[1]);
    assert(code_image(d)[p + 2] == TRAMPOLINE_ENTRYPOINT@[2]);
    assert(code_image(d)[p + 3] == TRAMPOLINE_ENTRYPOINT@[3]);
    assert(code_image(d)[p + 4] == TRAMPOLINE_ENTRYPOINT@[4]);
    assert(code_image(d)[p + 5] == TRAMPOLINE_ENTRYPOINT@[5]);
    assert(code_image(d)[p + 6] == TRAMPOLINE_ENTRYPOINT@[6]);
    assert(code_image(d)[p + 7] == TRAMPOLINE_ENTRYPOINT@[7]);
}

/// At the entry point of slot `index` stands `xor eax, eax`.
proof fn lemma_reset_bytes(d: u64, index: int)
    requires
        0 <= index < TRAMPOLINE_CAPACITY,
    ensures
        ({
            let c = code_image(d);
            let q = slot_offset(index);
            &&& c.len() == PAGE_SIZE
            &&& 0 <= q && q + 2 <= TAIL_START
            &&& c[q] == 0x31 && c[q + 1] == 0xc0
        }),
{
    lemma_constants();
    let m = TRAMPOLINE_CAPACITY - 1 - index;
    let q = slot_offset(index);
    assert(q == NOP_COUNT + ENTRYPOINT_LEN * m);
    lemma_image_byte(d, q);
    lemma_image_byte(d, q + 1);
    lemma_mod_template(m, 8);
    lemma_mod_template(m, 9);
}

/// The template of entry `j` counts one in `rax` and jumps to the template of
/// entry `j + 1`, over its reset.
proof fn lemma_count_once(d: u64, base: int, j: int, s: Machine)
    requires
        1 <= j < TRAMPOLINE_CAPACITY,
        s.pc == base + NOP_COUNT + ENTRYPOINT_LEN * j - JMP_SIZE,
    ensures
        run(code_image(d), base, s, 2) == Some(
            Machine { pc: s.pc + ENTRYPOINT_LEN, rax: s.rax + 1, ..s },
        ),
{
    let c = code_image(d);
    lemma_counting_bytes(d, j);
    let s1 = Machine { pc: s.pc + 3, rax: s.rax + 1, ..s };
    assert(step(c, base, s) == Some(s1));
    let s2 = Machine { pc: s.pc + 10, ..s1 };
    assert(rel32(2, 0, 0, 0) == 2);
    assert(step(c, base, s1) == Some(s2));
    assert(run(c, base, s2, 0) == Some(s2));
    assert(run(c, base, s1, 1) == Some(s2));
}

/// From the template of entry `j`, the code counts one in `rax` for each entry
/// up to the last and arrives at the shared tail.
proof fn lemma_count_entries(d: u64, base: int, j: int, s: Machine)
    requires
        1 <= j <= TRAMPOLINE_CAPACITY,
        s.pc == base + NOP_COUNT + ENTRYPOINT_LEN * j - JMP_SIZE,
    ensures
        run(code_image(d), base, s, (2 * (TRAMPOLINE_CAPACITY - j)) as nat) == Some(
            Machine { pc: base + TAIL_START, rax: s.rax + TRAMPOLINE_CAPACITY - j, ..s },
        ),
    decreases TRAMPOLINE_CAPACITY - j,
{
    let c = code_image(d);
    if j < TRAMPOLINE_CAPACITY {
        lemma_count_once(d, base, j, s);
        let s2 = Machine { pc: s.pc + ENTRYPOINT_LEN, rax: s.rax + 1, ..s };
        lemma_count_entries(d, base, j + 1, s2);
        lemma_run_compose(c, base, s, 2, (2 * (TRAMPOLINE_CAPACITY - j - 1)) as nat);
        assert((2 + 2 * (TRAMPOLINE_CAPACITY - j - 1)) as nat == (2 * (TRAMPOLINE_CAPACITY
            - j)) as nat);
    } else {
        assert(run(c, base, s, 0) == Some(s));
        assert(s == Machine { pc: base + TAIL_START, rax: s.rax + TRAMPOLINE_CAPACITY - j, ..s });
    }
}

proof fn lemma_address_round_trip(d: u64)
    ensures
        imm64(address_bytes(d), 0) == d,
{
    let b = address_bytes(d);
    assert(d == ((d as u8) as u64) | (((d >> 8u64) as u8) as u64) << 8u64 | (((d >> 16u64) as u8) as u64) << 16u64
        | (((d >> 24u64) as u8) as u64) << 24u64 | (((d >> 32u64) as u8) as u64) << 32u64 | (((d
        >> 40u64) as u8) as u64) << 40u64 | (((d >> 48u64) as u8) as u64) << 48u64 | (((d
        >> 56u64) as u8) as u64) << 56u64) by (bit_vector);
}

/// The shared tail turns the count in `rax` into the address of that data cell,
/// hands it to the dispatcher in `rdi`, and jumps to the dispatcher, leaving
/// `rbx` and the stack as they were.
proof fn lemma_tail(d: u64, base: int, s: Machine)
    requires
        s.pc == base + TAIL_START,
    ensures
        run(code_image(d), base, s, 7) == Some(
            Machine {
                pc: d as int,
                rax: base + PAGE_SIZE + 8 * s.rax,
                rbx: s.rbx,
                rdi: base + PAGE_SIZE + 8 * s.rax,
                r11: d as int,
                stack: s.stack,
            },
        ),
{
    lemma_constants();
    let c = code_image(d);
    let t = TAIL_START as int;
    assert forall|k: int| 0 <= k < SIZE_OF_TRAMPOLINE_END implies #[trigger] c[t + k] == (if k
        < TRAMPOLINE_END_LEN {
        TRAMPOLINE_END@[k]
    } else if k < TRAMPOLINE_END_LEN + SIZE_OF_PTR {
        address_bytes(d)[k - TRAMPOLINE_END_LEN]
    } else {
        JMP_R11@[k - TRAMPOLINE_END_LEN - SIZE_OF_PTR]
    }) by {
        lemma_image_byte(d, t + k);
    }
    assert(c[t + 0] == 0xe8 && c[t + 1] == 0 && c[t + 2] == 0 && c[t + 3] == 0 && c[t + 4] == 0);
    assert(c[t + 5] == 0x41 && c[t + 6] == 0x5b);
    assert(c[t + 7] == 0x49 && c[t + 8] == 0x83 && c[t + 9] == 0xc3 && c[t + 10] == 0x1a);
    assert(c[t + 11] == 0x49 && c[t + 12] == 0x8d && c[t + 13] == 0x04 && c[t + 14] == 0xc3);
    assert(c[t + 15] == 0x48 && c[t + 16] == 0x89 && c[t + 17] == 0xc7);
    assert(c[t + 18] == 0x49 && c[t + 19] == 0xbb);
    assert(c[t + 28] == 0x41 && c[t + 29] == 0xff && c[t + 30] == 0xe3);
    let a = address_bytes(d);
    assert(c[t + 20] == a[0] && c[t + 21] == a[1] && c[t + 22] == a[2] && c[t + 23] == a[3]);
    assert(c[t + 24] == a[4] && c[t + 25] == a[5] && c[t + 26] == a[6] && c[t + 27] == a[7]);
    lemma_address_round_trip(d);
    assert(imm64(c, t + 20) == d);

    let data = base + PAGE_SIZE;
    let s1 = Machine { pc: s.pc + 5, stack: s.stack.push(s.pc + 5), ..s };
    assert(rel32(0, 0, 0, 0) == 0);
    assert(step(c, base, s) == Some(s1));
    let s2 = Machine { pc: s.pc + 7, r11: s.pc + 5, stack: s.stack, ..s };
    assert(s1.stack.drop_last() =~= s.stack);
    assert(step(c, base, s1) == Some(s2));
    let s3 = Machine { pc: s.pc + 11, r11: data, ..s2 };
    assert(imm8(0x1a) == 26);
    assert(step(c, base, s2) == Some(s3));
    let s4 = Machine { pc: s.pc + 15, rax: data + 8 * s.rax, ..s3 };
    assert(step(c, base, s3) == Some(s4));
    let s5 = Machine { pc: s.pc + 18, rdi: data + 8 * s.rax, ..s4 };
    assert(step(c, base, s4) == Some(s5));
    let s6 = Machine { pc: s.pc + 28, r11: d as int, ..s5 };
    assert(step(c, base, s5) == Some(s6));
    let s7 = Machine { pc: d as int, ..s6 };
    assert(step(c, base, s6) == Some(s7));
    assert(run(c, base, s7, 0) == Some(s7));
    assert(run(c, base, s6, 1) == Some(s7));
    assert(run(c, base, s5, 2) == Some(s7));
    assert(run(c, base, s4, 3) == Some(s7));
    assert(run(c, base, s3, 4) == Some(s7));
    assert(run(c, base, s2, 5) == Some(s7));
    assert(run(c, base, s1, 6) == Some(s7));
}

/// Entered at the entry point of slot `index`, whatever the registers and the
/// stack hold, the code of a well-formed set runs `8 + 2 * index` instructions
/// and arrives at the dispatcher, with the address of the slot's own data cell
/// as its argument (`rdi`). Only `rax`, `rdi` and `r11`, which a called C
/// function may change, have changed: `rbx` and the stack are as they were.
/// That cell holds the slot's installed callable.
pub proof fn lemma_entry_reaches_own_cell(set: TrampolineSet, index: int, s: Machine)
    requires
        set.wf(),
        0 <= index < TRAMPOLINE_CAPACITY,
        s.pc == set.entry_point(index),
    ensures
        run(set@.code, set@.base, s, (8 + 2 * index) as nat) == Some(
            Machine {
                pc: set.dispatcher_spec() as int,
                rax: set@.cell_addr(index),
                rbx: s.rbx,
                rdi: set@.cell_addr(index),
                r11: set.dispatcher_spec() as int,
                stack: s.stack,
            },
        ),
        set@.cell_at(set@.cell_addr(index)) == set@.data[index],
{
    lemma_constants();
    let d = set.dispatcher_spec();
    let c = code_image(d);
    let base = set@.base;
    lemma_reset_bytes(d, index);
    let m = TRAMPOLINE_CAPACITY - 1 - index;
    let s1 = Machine { pc: s.pc + 2, rax: 0, ..s };
    assert(step(c, base, s) == Some(s1));
    assert(run(c, base, s1, 0) == Some(s1));
    assert(run(c, base, s, 1) == Some(s1));
    assert(s1.pc == base + NOP_COUNT + ENTRYPOINT_LEN * (m + 1) - JMP_SIZE);
    lemma_count_entries(d, base, m + 1, s1);
    let s2 = Machine { pc: base + TAIL_START, rax: index, ..s1 };
    assert(2 * (TRAMPOLINE_CAPACITY - (m + 1)) == 2 * index);
    lemma_run_compose(c, base, s, 1, (2 * index) as nat);
    lemma_tail(d, base, s2);
    lemma_run_compose(c, base, s, (1 + 2 * index) as nat, 7);
    assert((1 + 2 * index) as nat + 7 == (8 + 2 * index) as nat);
    assert((CELL_SIZE * index) / (CELL_SIZE as int) == index) by (nonlinear_arith);
}

/// After `callable` is installed into slot `index`, entering that slot runs to
/// the dispatcher with the address of a cell that holds `callable`, and every
/// other slot's cell, at another address, holds what it held before.
pub proof fn lemma_install_then_enter(
    before: TrampolineSet,
    after: TrampolineSet,
    index: int,
    callable: u64,
    s: Machine,
)
    requires
        before.wf(),
        after.wf(),
        0 <= index < TRAMPOLINE_CAPACITY,
        after@ == (PagePairView { data: before@.data.update(index, callable), ..before@ }),
        s.pc == after.entry_point(index),
    ensures
        ({
            let r = run(after@.code, after@.base, s, (8 + 2 * index) as nat);
            &&& r is Some
            &&& r.unwrap().pc == after.dispatcher_spec()
            &&& after@.cell_at(r.unwrap().rdi) == callable
            &&& r.unwrap().rbx == s.rbx
            &&& r.unwrap().stack == s.stack
        }),
        forall|other: int|
            0 <= other < TRAMPOLINE_CAPACITY && other != index ==> {
                &&& #[trigger] after@.cell_at(after@.cell_addr(other)) == before@.data[other]
                &&& after@.cell_addr(other) != after@.cell_addr(index)
            },
{
    lemma_entry_reaches_own_cell(after, index, s);
    assert forall|other: int|
        0 <= other < TRAMPOLINE_CAPACITY && other != index implies {
            &&& #[trigger] after@.cell_at(after@.cell_addr(other)) == before@.data[other]
            &&& after@.cell_addr(other) != after@.cell_addr(index)
        } by {
        assert((CELL_SIZE * other) / (CELL_SIZE as int) == other) by (nonlinear_arith);
    }
}

} // verus!
