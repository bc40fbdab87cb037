use green_threads::context::ThreadContext;
use green_threads::frame::{
    align_down, locate_frame, write_frame, write_word, FRAME_SIZE, STACK_ALIGNMENT, WORD_SIZE,
};
use green_threads::state::State;
use green_threads::thread::{Thread, DEFAULT_STACK_SIZE};

#[test]
fn constants_describe_the_frame() {
    assert_eq!(STACK_ALIGNMENT, 16);
    assert_eq!(WORD_SIZE, 8);
    assert_eq!(FRAME_SIZE, 32);
    assert_eq!(DEFAULT_STACK_SIZE, 2_097_152);
}

#[test]
fn align_down_clears_the_low_four_bits() {
    assert_eq!(align_down(0), 0);
    assert_eq!(align_down(15), 0);
    assert_eq!(align_down(16), 16);
    assert_eq!(align_down(0x1043), 0x1040);
    assert_eq!(align_down(0x7fff_ffff_ffff_ffff), 0x7fff_ffff_ffff_fff0);
    assert_eq!(align_down(u64::MAX), u64::MAX - 15);
}

#[test]
fn locate_frame_in_an_aligned_buffer() {
    // top 0x1040 is aligned; the stack pointer starts 32 bytes below it
    assert_eq!(locate_frame(0x1000, 64), Some(32));
    assert_eq!(locate_frame(0x1000, 32), Some(0));
}

#[test]
fn locate_frame_in_an_unaligned_buffer() {
    // top 0x1043 rounds down to 0x1040, which lies 61 bytes above the base
    assert_eq!(locate_frame(0x1003, 64), Some(29));
    // top 0x104f rounds down to 0x1040
    assert_eq!(locate_frame(0x1008, 71), Some(24));
}

#[test]
fn locate_frame_refuses_a_buffer_that_is_too_small() {
    assert_eq!(locate_frame(0x1000, 0), None);
    assert_eq!(locate_frame(0x1000, 31), None);
    // 46 bytes from 0x1001: the aligned top 0x1020 leaves only 31 bytes below it
    assert_eq!(locate_frame(0x1001, 46), None);
    // one byte more moves the aligned top up to 0x1030
    assert_eq!(locate_frame(0x1001, 47), Some(15));
    assert_eq!(locate_frame(0, 16), None);
}

#[test]
fn locate_frame_refuses_a_buffer_beyond_the_address_space() {
    assert_eq!(locate_frame(u64::MAX, 64), None);
    assert_eq!(locate_frame(u64::MAX - 63, 64), None);
    // the buffer ends at the last address: the aligned top lies 15 below it
    assert_eq!(locate_frame(u64::MAX - 64, 64), Some(17));
}

#[test]
fn write_word_stores_the_lowest_byte_first() {
    let mut stack = vec![0xeeu8; 12];
    write_word(&mut stack, 2, 0x0102_0304_0506_0708);
    assert_eq!(stack, vec![0xee, 0xee, 8, 7, 6, 5, 4, 3, 2, 1, 0xee, 0xee]);
    let mut other = vec![0u8; 8];
    write_word(&mut other, 0, 0xdead_beef_0000_0001);
    assert_eq!(other, 0xdead_beef_0000_0001u64.to_le_bytes().to_vec());
}

#[test]
fn write_frame_puts_the_entry_lowest() {
    let mut stack = vec![0u8; 40];
    write_frame(&mut stack, 8, 0x1111, 0x2222, 0x3333);
    let mut expected = vec![0u8; 40];
    expected[8..16].copy_from_slice(&0x3333u64.to_le_bytes());
    expected[16..24].copy_from_slice(&0x2222u64.to_le_bytes());
    expected[24..32].copy_from_slice(&0x1111u64.to_le_bytes());
    assert_eq!(stack, expected);
}

#[test]
fn default_context_is_all_zero() {
    let c = ThreadContext::default();
    assert_eq!(
        c,
        ThreadContext { rsp: 0, r15: 0, r14: 0, r13: 0, r12: 0, rbx: 0, rbp: 0 }
    );
}

#[test]
fn new_thread_is_available_with_a_zeroed_stack() {
    let t = Thread::new();
    assert_eq!(t.state, State::Available);
    assert_eq!(t.stack.len(), DEFAULT_STACK_SIZE);
    assert!(t.stack.iter().all(|b| *b == 0));
    assert_eq!(t.context, ThreadContext::default());
}

#[test]
fn thread_with_stack_size_has_that_size() {
    let t = Thread::with_stack_size(48);
    assert_eq!(t.state, State::Available);
    assert_eq!(t.stack, vec![0u8; 48]);
    let r = Thread::in_state(State::Running, 0);
    assert_eq!(r.state, State::Running);
    assert!(r.stack.is_empty());
}
