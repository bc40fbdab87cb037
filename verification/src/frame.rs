//! The frame that a fresh stack starts from.
//!
//! A stack grows downwards from the end of its buffer. The end is rounded
//! down to a multiple of [`STACK_ALIGNMENT`]; below it lies one unused word
//! and then three return addresses: the completion handler, a routine that
//! only returns, and the entry of the work. The saved stack pointer points
//! at the entry, the lowest of the three, so that the first switch into the
//! stack returns into the work, the work returns into the routine that only
//! returns, and that one returns into the completion handler.

use vstd::prelude::*;
use vstd::bytes::{lemma_auto_spec_u64_to_from_le_bytes, spec_u64_to_le_bytes, u64_to_le_bytes};

verus! {

/// The boundary that the calling convention asks of a stack pointer.
pub const STACK_ALIGNMENT: u64 = 16;

/// The bytes of one return address.
pub const WORD_SIZE: usize = 8;

/// The distance from the aligned end of a stack down to the saved stack pointer.
pub const FRAME_SIZE: u64 = 32;

/// The end of the buffer at `base` of `size` bytes, rounded down to the alignment.
pub open spec fn aligned_top(base: u64, size: nat) -> int {
    let top = base + size;
    top - top % (STACK_ALIGNMENT as int)
}

/// The stack pointer that a fresh stack is entered with.
pub open spec fn initial_rsp(base: u64, size: nat) -> int {
    aligned_top(base, size) - FRAME_SIZE
}

/// Whether the buffer lies in the address space and holds the frame.
pub open spec fn frame_fits(base: u64, size: nat) -> bool {
    &&& base + size <= u64::MAX
    &&& base <= initial_rsp(base, size)
}

/// The index in the buffer of the byte that the initial stack pointer points at.
pub open spec fn frame_offset(base: u64, size: nat) -> int {
    initial_rsp(base, size) - base
}

/// `stack` with the eight bytes from `at` on replaced by `word`, lowest byte first.
pub open spec fn with_word(stack: Seq<u8>, at: int, word: u64) -> Seq<u8> {
    Seq::new(
        stack.len(),
        |i: int|
            if at <= i < at + 8 {
                spec_u64_to_le_bytes(word)[i - at]
            } else {
                stack[i]
            },
    )
}

/// `stack` with the frame written at `at`: the entry lowest, then the routine
/// that only returns, then the completion handler.
pub open spec fn with_frame(stack: Seq<u8>, at: int, guard: u64, skip: u64, entry: u64) -> Seq<u8> {
    with_word(with_word(with_word(stack, at + 16, guard), at + 8, skip), at, entry)
}

/// A frame that fits lies in its buffer as a whole, the unused word above
/// the three return addresses included, and the stack pointer that points
/// at it is aligned.
pub proof fn lemma_frame_lies_in_stack(base: u64, size: nat)
    requires
        frame_fits(base, size),
    ensures
        initial_rsp(base, size) % 16 == 0,
        0 <= frame_offset(base, size),
        frame_offset(base, size) + FRAME_SIZE <= size,
        base + size - initial_rsp(base, size) < FRAME_SIZE + STACK_ALIGNMENT,
{
}

/// The three return addresses of a frame do not overlap: each is read back
/// as it was written, and no byte outside them changes.
pub proof fn lemma_frame_words(stack: Seq<u8>, at: int, guard: u64, skip: u64, entry: u64)
    requires
        0 <= at,
        at + 24 <= stack.len(),
    ensures
        with_frame(stack, at, guard, skip, entry).len() == stack.len(),
        with_frame(stack, at, guard, skip, entry).subrange(at, at + 8) == spec_u64_to_le_bytes(
            entry,
        ),
        with_frame(stack, at, guard, skip, entry).subrange(at + 8, at + 16)
            == spec_u64_to_le_bytes(skip),
        with_frame(stack, at, guard, skip, entry).subrange(at + 16, at + 24)
            == spec_u64_to_le_bytes(guard),
        forall|i: int|
            0 <= i < stack.len() && !(at <= i < at + 24) ==> #[trigger] with_frame(
                stack,
                at,
                guard,
                skip,
                entry,
            )[i] == stack[i],
{
    lemma_auto_spec_u64_to_from_le_bytes();
    let framed = with_frame(stack, at, guard, skip, entry);
    assert(framed.subrange(at, at + 8) =~= spec_u64_to_le_bytes(entry));
    assert(framed.subrange(at + 8, at + 16) =~= spec_u64_to_le_bytes(skip));
    assert(framed.subrange(at + 16, at + 24) =~= spec_u64_to_le_bytes(guard));
}

/// Rounds an address down to a multiple of [`STACK_ALIGNMENT`].
pub fn align_down(addr: u64) -> (aligned: u64)
    ensures
        aligned == addr - addr % STACK_ALIGNMENT,
{
    let mask: u64 = STACK_ALIGNMENT - 1;
    let aligned: u64 = addr & !mask;
    assert(addr & !mask == addr - addr % 16) by (bit_vector)
        requires
            mask == 15,
    ;
    aligned
}

/// Where the frame starts in a buffer of `size` bytes that lies at address
/// `base`, or `None` where the buffer cannot hold it.
pub fn locate_frame(base: u64, size: usize) -> (at: Option<usize>)
    ensures
        at.is_some() == frame_fits(base, size as nat),
        at matches Some(offset) ==> {
            &&& offset == frame_offset(base, size as nat)
            &&& offset + 24 <= size
        },
{
    match base.checked_add(size as u64) {
        None => None,
        Some(top) => {
            let aligned: u64 = align_down(top);
            if aligned < FRAME_SIZE || aligned - FRAME_SIZE < base {
                None
            } else {
                Some((aligned - FRAME_SIZE - base) as usize)
            }
        },
    }
}

/// Writes `word` into `stack` at `at`, lowest byte first.
pub fn write_word(stack: &mut Vec<u8>, at: usize, word: u64)
    requires
        at + 8 <= old(stack).len(),
    ensures
        final(stack)@ == with_word(old(stack)@, at as int, word),
{
    let bytes: Vec<u8> = u64_to_le_bytes(word);
    let mut k: usize = 0;
    while k < WORD_SIZE
        invariant
            k <= 8,
            at + 8 <= stack.len(),
            stack.len() == old(stack).len(),
            bytes@ == spec_u64_to_le_bytes(word),
            bytes@.len() == 8,
            forall|i: int|
                0 <= i < stack.len() ==> stack@[i] == if at <= i < at + k {
                    bytes@[i - at]
                } else {
                    old(stack)@[i]
                },
        decreases 8 - k,
    {
        stack[at + k] = bytes[k];
        k = k + 1;
    }
    assert(stack@ =~= with_word(old(stack)@, at as int, word));
}

/// Writes the frame into `stack` at `at`.
pub fn write_frame(stack: &mut Vec<u8>, at: usize, guard: u64, skip: u64, entry: u64)
    requires
        at + 24 <= old(stack).len(),
    ensures
        final(stack)@ == with_frame(old(stack)@, at as int, guard, skip, entry),
{
    write_word(stack, at + 16, guard);
    write_word(stack, at + 8, skip);
    write_word(stack, at, entry);
}

} // verus!
