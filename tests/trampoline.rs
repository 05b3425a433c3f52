use closure_trampoline::jit::{JitCodeDataPagePair, Protection, DATA_CELLS, PAGE_SIZE, RET, RET_CELL};
use closure_trampoline::layout::{padding_len, trampoline_capacity};
use closure_trampoline::trampoline::{
    generate_trampolines, repeat_entrypoint, TrampolineSet, ENTRY_AREA_LEN, NOP_COUNT,
    SIZE_OF_TRAMPOLINE_END, TAIL_START, TRAMPOLINE_CAPACITY,
};

const BASE: usize = 0x7f00_0000_0000;

#[test]
fn test_trampoline_set() {
    let mut tramp_set = TrampolineSet::new(BASE, 0x4000);
    let x: u64 = 10;
    let cell = tramp_set.set_slot_fn(0, x);
    let func = tramp_set.get_slot_fn(0);
    assert_eq!(func, BASE + NOP_COUNT + (TRAMPOLINE_CAPACITY - 1) * 10);
    assert_eq!(cell, BASE + PAGE_SIZE);
    assert_eq!(tramp_set.pages().data_as_slice()[0], 10);
}

#[test]
fn test_build_payload() {
    assert_eq!(generate_trampolines(0).len(), PAGE_SIZE)
}

#[test]
fn capacity_for_a_4096_byte_page() {
    assert_eq!(TRAMPOLINE_CAPACITY, 407);
    assert_eq!(TrampolineSet::CAPACITY, 407);
    assert_eq!(trampoline_capacity(4096, 10, 8, 29), 407);
    assert_eq!(trampoline_capacity(4096, 10, 8, 31), 407);
    assert_eq!(padding_len(4096, 10, 8, 31), 3);
    assert_eq!(NOP_COUNT, 3);
    assert_eq!(SIZE_OF_TRAMPOLINE_END, 31);
}

#[test]
fn layout_fills_other_pages() {
    for page in [64usize, 100, 4096, 8192] {
        let cap = trampoline_capacity(page, 10, 8, 29);
        let pad = padding_len(page, 10, 8, 29);
        assert_eq!(pad + cap * 10 - 8 + 29, page);
        assert!(pad < 10);
    }
    assert_eq!(trampoline_capacity(31, 10, 8, 29), 1);
    assert_eq!(padding_len(31, 10, 8, 29), 0);
    assert_eq!(trampoline_capacity(40, 10, 8, 29), 1);
    assert_eq!(padding_len(40, 10, 8, 29), 9);
    assert_eq!(trampoline_capacity(41, 10, 8, 29), 2);
}

#[test]
fn entry_area_is_templates_back_to_back() {
    let area = repeat_entrypoint();
    assert_eq!(area.len(), ENTRY_AREA_LEN);
    assert_eq!(area.len(), 407 * 10 - 8);
    assert_eq!(&area[0..12], &[0x31, 0xc0, 0x48, 0xff, 0xc0, 0xe9, 0x02, 0, 0, 0, 0x31, 0xc0]);
    assert_eq!(&area[area.len() - 2..], &[0x31, 0xc0]);
}

#[test]
fn code_page_holds_padding_entries_and_tail() {
    let code = generate_trampolines(0x1122_3344_5566_7788);
    assert_eq!(&code[0..3], &[0x90; 3]);
    assert_eq!(&code[3..5], &[0x31, 0xc0]);
    let t = TAIL_START;
    assert_eq!(t, 4065);
    assert_eq!(
        &code[t..t + 20],
        &[
            0xe8, 0, 0, 0, 0, 0x41, 0x5b, 0x49, 0x83, 0xc3, 0x1a, 0x49, 0x8d, 0x04, 0xc3, 0x48,
            0x89, 0xc7, 0x49, 0xbb
        ]
    );
    assert_eq!(&code[t + 20..t + 28], &[0x88, 0x77, 0x66, 0x55, 0x44, 0x33, 0x22, 0x11]);
    assert_eq!(&code[t + 28..], &[0x41, 0xff, 0xe3]);
}

#[test]
fn new_set_is_locked_with_code_and_ret_cells() {
    let pages = TrampolineSet::prepare_pages(BASE, 0xdead_beef);
    assert!(!pages.locked());
    assert_eq!(pages.protection(), Protection::ReadWrite);
    assert_eq!(pages.code_as_slice(), generate_trampolines(0xdead_beef).as_slice());
    let set = TrampolineSet::from_pages(pages, 0xdead_beef);
    assert_eq!(set.dispatcher(), 0xdead_beef);
    assert!(set.pages().locked());
    assert_eq!(set.pages().protection(), Protection::ReadExec);
    let set = TrampolineSet::new(BASE, 0xdead_beef);
    assert!(set.pages().locked());
    let data = set.pages().data_as_slice();
    assert_eq!(data.len(), DATA_CELLS);
    assert!(data.iter().all(|c| *c == RET_CELL));
}

#[test]
fn entry_points_are_distinct_and_in_the_code_page() {
    let mut set = TrampolineSet::new(BASE, 0);
    let mut seen: Vec<usize> = Vec::new();
    for i in 0..TRAMPOLINE_CAPACITY {
        let a = set.get_slot_fn(i);
        assert_eq!(a, BASE + NOP_COUNT + (TRAMPOLINE_CAPACITY - 1 - i) * 10);
        assert!(a < BASE + TAIL_START);
        seen.push(a);
    }
    seen.sort();
    seen.dedup();
    assert_eq!(seen.len(), TRAMPOLINE_CAPACITY);
}

#[test]
fn last_slot_is_in_bounds() {
    let mut set = TrampolineSet::new(BASE, 0);
    let last = TRAMPOLINE_CAPACITY - 1;
    assert_eq!(set.get_slot_fn(last), BASE + NOP_COUNT);
    let cell = set.set_slot_fn(last, 77);
    assert_eq!(cell, BASE + PAGE_SIZE + 8 * last);
    assert_eq!(set.pages().data_as_slice()[last], 77);
}

#[test]
fn two_slots_hold_their_own_callables() {
    let mut set = TrampolineSet::new(BASE, 0);
    let c0 = set.set_slot_fn(0, 1000);
    let c1 = set.set_slot_fn(1, 2000);
    assert_eq!(c0, BASE + PAGE_SIZE);
    assert_eq!(c1, BASE + PAGE_SIZE + 8);
    assert_ne!(set.get_slot_fn(0), set.get_slot_fn(1));
    let data = set.pages().data_as_slice();
    assert_eq!(data[0], 1000);
    assert_eq!(data[1], 2000);
    assert_eq!(data[2], RET_CELL);
}

#[test]
fn install_replaces_the_previous_callable() {
    let mut set = TrampolineSet::new(BASE, 0);
    set.set_slot_fn(3, 1);
    set.set_slot_fn(3, 2);
    assert_eq!(set.pages().data_as_slice()[3], 2);
}

#[test]
fn new_pages_are_editable_and_filled_with_ret() {
    let pages = JitCodeDataPagePair::new(BASE);
    assert!(!pages.locked());
    assert_eq!(pages.protection(), Protection::ReadWrite);
    assert!(pages.code_as_slice().iter().all(|b| *b == RET));
    assert_eq!(pages.code_as_slice().len(), PAGE_SIZE);
    assert_eq!(RET_CELL, 0xc3c3_c3c3_c3c3_c3c3);
}

#[test]
fn lock_and_unlock_twice_act_as_once() {
    let mut pages = JitCodeDataPagePair::new(BASE);
    pages.lock();
    pages.lock();
    assert!(pages.locked());
    assert_eq!(pages.protection(), Protection::ReadExec);
    assert_eq!(pages.get_func_ptr(12), BASE + 12);
    pages.unlock();
    pages.unlock();
    assert!(!pages.locked());
    assert_eq!(pages.protection(), Protection::ReadWrite);
}

#[test]
fn write_code_keeps_bytes_past_the_input() {
    let mut pages = JitCodeDataPagePair::new(BASE);
    pages.write_code(&vec![1, 2, 3]);
    let code = pages.code_as_slice();
    assert_eq!(&code[0..4], &[1, 2, 3, RET]);
    let cell = pages.data_as_mut_slice(5, 9);
    assert_eq!(cell, BASE + PAGE_SIZE + 40);
    assert_eq!(pages.data_as_slice()[5], 9);
}

#[test]
fn pages_give_their_base() {
    let pages = JitCodeDataPagePair::new(BASE);
    assert_eq!(pages.contents(), BASE);
    let set = TrampolineSet::new(BASE + PAGE_SIZE * 4, 0);
    assert_eq!(set.pages().contents(), BASE + PAGE_SIZE * 4);
}
