//! Hardware-interrupt vectors (after the PIC remap) and the replies the
//! kernel gives to each timer and keyboard interrupt.
use vstd::prelude::*;
use pc_keyboard::{DecodedKey, KeyEvent};
use crate::keyboard::{add_byte, decoded_key, process_keyevent, scancode_event, Keyboard};

verus! {

/// Vector of the first line of the primary PIC, just past the 32 CPU
/// exception vectors.
pub const PIC_1_OFFSET: u8 = 32;

/// Vector of the first line of the secondary PIC.
pub const PIC_2_OFFSET: u8 = PIC_1_OFFSET + 8;

/// The hardware interrupts this kernel handles, in primary-PIC line order.
#[derive(Debug, Clone, Copy)]
pub enum InterruptIndex {
    Timer,
    Keyboard,
}

impl InterruptIndex {
    /// The interrupt vector of this line: the timer is line 0 of the
    /// primary PIC, the keyboard line 1.
    pub open spec fn vector(self) -> u8 {
        match self {
            InterruptIndex::Timer => PIC_1_OFFSET,
            InterruptIndex::Keyboard => (PIC_1_OFFSET + 1) as u8,
        }
    }

    /// The interrupt vector of this line, for the IDT and the PIC.
    pub fn as_u8(self) -> (vector: u8)
        ensures
            vector == self.vector(),
    {
        match self {
            InterruptIndex::Timer => PIC_1_OFFSET,
            InterruptIndex::Keyboard => PIC_1_OFFSET + 1,
        }
    }
}

/// The hardware interrupt vectors are distinct, sit on the primary PIC's
/// lines 0 (timer) and 1 (keyboard), so one end-of-interrupt to it
/// acknowledges them, and lie past the 32
/// CPU exception vectors (so the IDT can hold them as interrupt entries).
pub proof fn lemma_interrupt_vectors(a: InterruptIndex, b: InterruptIndex)
    ensures
        a != b ==> a.vector() != b.vector(),
        InterruptIndex::Timer.vector() == PIC_1_OFFSET + 0,
        InterruptIndex::Keyboard.vector() == PIC_1_OFFSET + 1,
        32 <= a.vector(),
        PIC_1_OFFSET <= a.vector() < PIC_2_OFFSET,
{
}

/// The count of timer interrupts serviced since boot: an exact integer that
/// goes up by one per tick, wrapping at `u64::MAX` as an atomic `fetch_add`
/// does.
pub struct TickCounter {
    count: u64,
}

impl View for TickCounter {
    type V = u64;

    closed spec fn view(&self) -> u64 {
        self.count
    }
}

/// The count after one more tick (wrapping at `u64::MAX`).
pub open spec fn next_tick(count: u64) -> u64 {
    if count == u64::MAX {
        0
    } else {
        (count + 1) as u64
    }
}

/// The count after `n` more ticks.
pub open spec fn ticks_after(count: u64, n: nat) -> u64
    decreases n,
{
    if n == 0 {
        count
    } else {
        next_tick(ticks_after(count, (n - 1) as nat))
    }
}

/// The counter is exact: `n` ticks from `count` give `count + n` while that
/// fits in a `u64`, never an estimate.
pub proof fn lemma_ticks_count_exactly(count: u64, n: nat)
    requires
        count + n <= u64::MAX,
    ensures
        ticks_after(count, n) == count + n,
    decreases n,
{
    if n > 0 {
        lemma_ticks_count_exactly(count, (n - 1) as nat);
    }
}

/// One tick adds one modulo 2^64, as an atomic `fetch_add(1)` does: the
/// count goes up by exactly one, and wraps from `u64::MAX` to zero.
pub proof fn lemma_tick_adds_one(count: u64)
    ensures
        next_tick(count) == (count + 1) % 0x1_0000_0000_0000_0000,
{
}

impl TickCounter {
    /// A counter at zero, as at boot.
    pub fn new() -> (counter: TickCounter)
        ensures
            counter@ == 0,
    {
        TickCounter { count: 0 }
    }
}

/// The exact count of timer interrupts serviced since boot.
pub fn ticks(counter: &TickCounter) -> (count: u64)
    ensures
        count == counter@,
{
    counter.count
}

/// What the kernel prints for an interrupt.
pub enum Echo {
    /// One `.` per timer tick.
    TickMark,
    /// A key decoded from the keyboard: its character, or the raw key name.
    Key(DecodedKey),
}

/// The reply to a hardware interrupt: what to print, and which PIC line to
/// acknowledge with an end-of-interrupt.
pub struct InterruptReply {
    pub echo: Option<Echo>,
    pub end_of_interrupt: InterruptIndex,
}

/// The timer interrupt: counts one tick, prints one `.`, and acknowledges
/// the timer line.
pub fn handle_timer_interrupt(counter: &mut TickCounter) -> (reply: InterruptReply)
    ensures
        final(counter)@ == next_tick(old(counter)@),
        reply.echo == Some(Echo::TickMark),
        reply.end_of_interrupt == InterruptIndex::Timer,
{
    counter.count = counter.count.wrapping_add(1);
    InterruptReply { echo: Some(Echo::TickMark), end_of_interrupt: InterruptIndex::Timer }
}

/// The reply to a keyboard interrupt once the decoder has spoken: print the
/// decoded key, if the scancode completed one, and acknowledge the keyboard
/// line.
pub fn keyboard_reply(decoded: Option<DecodedKey>) -> (reply: InterruptReply)
    ensures
        reply.echo == (match decoded {
            Some(key) => Some(Echo::Key(key)),
            None => None::<Echo>,
        }),
        reply.end_of_interrupt == InterruptIndex::Keyboard,
{
    let echo = match decoded {
        Some(key) => Some(Echo::Key(key)),
        None => None,
    };
    InterruptReply { echo, end_of_interrupt: InterruptIndex::Keyboard }
}

/// The key event a scancode byte completed, from what `add_byte` returned:
/// the event when there is one; nothing for a byte that only started or
/// continued a sequence, and nothing for a byte the decoder rejected (the
/// error is dropped).
pub fn completed_event(added: Result<Option<KeyEvent>, pc_keyboard::Error>) -> (event: Option<KeyEvent>)
    ensures
        event == (match added {
            Ok(Some(e)) => Some(e),
            _ => None::<KeyEvent>,
        }),
{
    match added {
        Ok(Some(e)) => Some(e),
        _ => None,
    }
}

/// The keyboard interrupt, given the scancode read from port 0x60: feeds it
/// to the decoder; if that completes a key event, feeds the event on to turn
/// it into a key. The reply prints that key, or nothing when the byte
/// completed no event (or was rejected), and acknowledges the keyboard
/// line.
pub fn handle_keyboard_scancode(keyboard: &mut Keyboard, scancode: u8) -> (reply: InterruptReply)
    ensures
        final(keyboard).bytes_fed() == old(keyboard).bytes_fed().push(scancode),
        match scancode_event(final(keyboard).bytes_fed()) {
            Ok(Some(event)) => {
                &&& final(keyboard).events_fed() == old(keyboard).events_fed().push(event)
                &&& reply.echo == match decoded_key(final(keyboard).events_fed()) {
                    Some(key) => Some(Echo::Key(key)),
                    None => None::<Echo>,
                }
            },
            _ => {
                &&& final(keyboard).events_fed() == old(keyboard).events_fed()
                &&& reply.echo is None
            },
        },
        reply.end_of_interrupt == InterruptIndex::Keyboard,
{
    let added = add_byte(keyboard, scancode);
    let decoded = match completed_event(added) {
        Some(event) => process_keyevent(keyboard, event),
        None => None,
    };
    keyboard_reply(decoded)
}

} // verus!
