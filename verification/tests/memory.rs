use tapevm::memory::DEFAULT_MEMORY_CAPACITY;
use tapevm::FatalError;
use tapevm::Memory;

#[test]
fn fresh_tape_is_zeroed() {
    let m = Memory::new();
    assert_eq!(m.pointer_index(), 0);
    assert_eq!(m.len(), DEFAULT_MEMORY_CAPACITY);
    assert_eq!(m.read(), 0);
    assert_eq!(m.get_cell(DEFAULT_MEMORY_CAPACITY - 1), 0);
}

#[test]
fn set_and_read() {
    let mut m = Memory::new();
    m.set(42);
    assert_eq!(m.read(), 42);
}

#[test]
fn incr_wraps_modulo_256() {
    let mut m = Memory::new();
    for _ in 0..255 {
        m.incr();
    }
    assert_eq!(m.read(), 255);
    m.incr();
    assert_eq!(m.read(), 0);
    // 300 more increments land on 300 mod 256
    for _ in 0..300 {
        m.incr();
    }
    assert_eq!(m.read(), 44);
}

#[test]
fn decr_wraps_modulo_256() {
    let mut m = Memory::new();
    m.decr();
    assert_eq!(m.read(), 255);
    m.decr();
    assert_eq!(m.read(), 254);
    for _ in 0..254 {
        m.decr();
    }
    assert_eq!(m.read(), 0);
}

#[test]
fn left_at_zero_underflows_and_never_wraps() {
    let mut m = Memory::new();
    assert_eq!(m.left(), Err(FatalError::PointerUnderflow));
    assert_eq!(m.pointer_index(), 0);
    assert_eq!(m.read(), 0);
}

#[test]
fn left_then_right_move_the_pointer() {
    let mut m = Memory::new();
    m.right();
    assert_eq!(m.pointer_index(), 1);
    assert_eq!(m.left(), Ok(()));
    assert_eq!(m.pointer_index(), 0);
}

#[test]
fn right_past_the_end_grows_one_block() {
    let mut m = Memory::new();
    for _ in 0..DEFAULT_MEMORY_CAPACITY - 1 {
        m.right();
    }
    assert_eq!(m.pointer_index(), DEFAULT_MEMORY_CAPACITY - 1);
    assert_eq!(m.len(), DEFAULT_MEMORY_CAPACITY);
    // the move past the current length appends exactly one block,
    // and the new cell reads 0
    m.right();
    assert_eq!(m.pointer_index(), DEFAULT_MEMORY_CAPACITY);
    assert_eq!(m.len(), 2 * DEFAULT_MEMORY_CAPACITY);
    assert_eq!(m.read(), 0);
}

#[test]
fn window_at_the_start() {
    let m = Memory::new();
    let (start, end) = m.window();
    assert_eq!(start, 0);
    assert_eq!(end, 64);
}

#[test]
fn window_around_a_middle_pointer() {
    let mut m = Memory::new();
    for _ in 0..100 {
        m.right();
    }
    // pointer 100 sits in the chunk starting at 96; two chunks before it
    let (start, end) = m.window();
    assert_eq!(start, 64);
    assert_eq!(end, 128);
}

#[test]
fn window_is_clipped_at_the_tape_end() {
    let mut m = Memory::new();
    for _ in 0..DEFAULT_MEMORY_CAPACITY - 1 {
        m.right();
    }
    let (start, end) = m.window();
    assert_eq!(start, DEFAULT_MEMORY_CAPACITY - 16 - 32);
    assert_eq!(end, DEFAULT_MEMORY_CAPACITY);
    assert!(start <= m.pointer_index() && m.pointer_index() < end);
}
