use kernel8::addr::virt_addr_add;
use kernel8::gdt::{double_fault_stack_top, DOUBLE_FAULT_IST_INDEX, DOUBLE_FAULT_STACK_SIZE, INTERRUPT_STACK_TABLE_LEN};
use kernel8::heap_check::{ascending, sum};
use kernel8::interrupts::{
    handle_keyboard_scancode, handle_timer_interrupt, ticks, Echo, InterruptIndex, TickCounter,
    PIC_1_OFFSET, PIC_2_OFFSET,
};
use kernel8::keyboard::Keyboard;
use kernel8::memory::{BootInfoFrameAllocator, MemoryRegion, MemoryRegionKind};
use kernel8::task::{yield_now, PollOutcome};
use pc_keyboard::{DecodedKey, KeyCode, KeyEvent, KeyState};

#[test]
fn interrupt_vectors_follow_the_pic_remap() {
    assert_eq!(PIC_1_OFFSET, 32);
    assert_eq!(PIC_2_OFFSET, 40);
    assert_eq!(InterruptIndex::Timer.as_u8(), 32);
    assert_eq!(InterruptIndex::Keyboard.as_u8(), 33);
}

#[test]
fn twenty_timer_interrupts_count_twenty_ticks() {
    let mut counter = TickCounter::new();
    assert_eq!(ticks(&counter), 0);
    let mut dots = 0;
    for _ in 0..20 {
        let reply = handle_timer_interrupt(&mut counter);
        assert!(matches!(reply.echo, Some(Echo::TickMark)));
        assert!(matches!(reply.end_of_interrupt, InterruptIndex::Timer));
        dots += 1;
    }
    assert_eq!(ticks(&counter), 20);
    assert_eq!(dots, 20);
}

#[test]
fn keyboard_press_of_a_echoes_a_and_acknowledges_the_keyboard_line() {
    let mut keyboard = Keyboard::new();
    let reply = handle_keyboard_scancode(&mut keyboard, 0x1E);
    assert!(matches!(reply.end_of_interrupt, InterruptIndex::Keyboard));
    match reply.echo {
        Some(Echo::Key(key)) => assert_eq!(key, DecodedKey::Unicode('a')),
        _ => panic!("a key press should echo the key"),
    }
}

#[test]
fn keyboard_release_echoes_nothing() {
    let mut keyboard = Keyboard::new();
    let _ = handle_keyboard_scancode(&mut keyboard, 0x1E);
    let reply = handle_keyboard_scancode(&mut keyboard, 0x9E);
    assert!(reply.echo.is_none());
    assert!(matches!(reply.end_of_interrupt, InterruptIndex::Keyboard));
}

#[test]
fn keyboard_shift_changes_the_echo() {
    let mut keyboard = Keyboard::new();
    let shift = handle_keyboard_scancode(&mut keyboard, 0x2A);
    match shift.echo {
        Some(Echo::Key(key)) => assert_eq!(key, DecodedKey::RawKey(KeyCode::LShift)),
        _ => panic!("shift press should echo the raw key"),
    }
    let reply = handle_keyboard_scancode(&mut keyboard, 0x1E);
    match reply.echo {
        Some(Echo::Key(key)) => assert_eq!(key, DecodedKey::Unicode('A')),
        _ => panic!("shifted a should echo A"),
    }
}

#[test]
fn keyboard_extended_prefix_alone_echoes_nothing() {
    let mut keyboard = Keyboard::new();
    let reply = handle_keyboard_scancode(&mut keyboard, 0xE0);
    assert!(reply.echo.is_none());
}

#[test]
fn yield_now_is_pending_once_then_ready() {
    let mut y = yield_now();
    assert_eq!(y.poll(), PollOutcome::Pending);
    assert_eq!(y.poll(), PollOutcome::Ready);
    assert_eq!(y.poll(), PollOutcome::Ready);
}

fn region(start: u64, end: u64, kind: MemoryRegionKind) -> MemoryRegion {
    MemoryRegion { start, end, kind }
}

#[test]
fn frame_allocator_walks_usable_frames_in_order() {
    let regions = [
        region(0x1000, 0x3000, MemoryRegionKind::Usable),
        region(0x3000, 0x5000, MemoryRegionKind::Bootloader),
        region(0x5800, 0x6001, MemoryRegionKind::Usable),
        region(0x8000, 0x9000, MemoryRegionKind::UnknownBios(2)),
        region(0xA000, 0xB000, MemoryRegionKind::Usable),
    ];
    let mut allocator = BootInfoFrameAllocator::init(&regions);
    assert_eq!(allocator.allocate_frame(), Some(0x1000));
    assert_eq!(allocator.allocate_frame(), Some(0x2000));
    // 0x5800 is not page aligned: the frame holding it starts at 0x5000
    assert_eq!(allocator.allocate_frame(), Some(0x5000));
    assert_eq!(allocator.allocate_frame(), Some(0xA000));
    assert_eq!(allocator.allocate_frame(), None);
    assert_eq!(allocator.allocate_frame(), None);
}

#[test]
fn frame_allocator_over_an_empty_map_has_nothing() {
    let regions: [MemoryRegion; 0] = [];
    let mut allocator = BootInfoFrameAllocator::init(&regions);
    assert_eq!(allocator.allocate_frame(), None);
}

#[test]
fn frame_allocator_skips_empty_and_inverted_regions() {
    let regions = [
        region(0x4000, 0x4000, MemoryRegionKind::Usable),
        region(0x9000, 0x8000, MemoryRegionKind::Usable),
        region(0x10_0000, 0x10_2000, MemoryRegionKind::Usable),
    ];
    let mut allocator = BootInfoFrameAllocator::init(&regions);
    assert_eq!(allocator.allocate_frame(), Some(0x10_0000));
    assert_eq!(allocator.allocate_frame(), Some(0x10_1000));
    assert_eq!(allocator.allocate_frame(), None);
}

#[test]
fn virt_addr_add_follows_canonical_form() {
    assert_eq!(virt_addr_add(0xFFFF_8000_0000_0000, 0x1000), Some(0xFFFF_8000_0000_1000));
    assert_eq!(virt_addr_add(0x1000, 0x2000), Some(0x3000));
    // crossing into the non-canonical hole
    assert_eq!(virt_addr_add(0x0000_7FFF_FFFF_F000, 0x2000), None);
    // overflow
    assert_eq!(virt_addr_add(0xFFFF_FFFF_FFFF_F000, 0x2000), None);
}

#[test]
fn double_fault_stack_top_is_stack_end() {
    assert_eq!(DOUBLE_FAULT_STACK_SIZE, 20480);
    assert!(DOUBLE_FAULT_IST_INDEX < INTERRUPT_STACK_TABLE_LEN);
    assert_eq!(double_fault_stack_top(0x20_0000), Some(0x20_5000));
    assert_eq!(double_fault_stack_top(0x0000_7FFF_FFFF_E000), None);
}

#[test]
fn heap_vec_of_500_sums_to_124750() {
    let v = ascending(500);
    assert_eq!(v.len(), 500);
    assert_eq!(sum(&v), 124750);
}

#[test]
fn ascending_of_nonpositive_is_empty() {
    assert!(ascending(0).is_empty());
    assert!(ascending(-3).is_empty());
    assert_eq!(sum(&ascending(0)), 0);
}

#[test]
fn keyboard_reply_echoes_the_decoded_key() {
    let reply = kernel8::interrupts::keyboard_reply(Some(DecodedKey::Unicode('x')));
    assert!(matches!(reply.end_of_interrupt, InterruptIndex::Keyboard));
    match reply.echo {
        Some(Echo::Key(key)) => assert_eq!(key, DecodedKey::Unicode('x')),
        _ => panic!("a decoded key should be echoed"),
    }
    let raw = kernel8::interrupts::keyboard_reply(Some(DecodedKey::RawKey(KeyCode::F1)));
    match raw.echo {
        Some(Echo::Key(key)) => assert_eq!(key, DecodedKey::RawKey(KeyCode::F1)),
        _ => panic!("a raw key should be echoed"),
    }
    let nothing = kernel8::interrupts::keyboard_reply(None);
    assert!(nothing.echo.is_none());
    assert!(matches!(nothing.end_of_interrupt, InterruptIndex::Keyboard));
}

#[test]
fn tick_counter_moves_by_one_per_tick() {
    // the counter starts at zero and moves by exactly one per tick
    let mut counter = TickCounter::new();
    for expected in 1..=1000u64 {
        let _ = handle_timer_interrupt(&mut counter);
        assert_eq!(ticks(&counter), expected);
    }
}

#[test]
fn frame_allocator_reports_its_position_and_usable_addresses() {
    let regions = [
        region(0x1000, 0x2800, MemoryRegionKind::Usable),
        region(0x2800, 0x4000, MemoryRegionKind::UnknownUefi(7)),
        region(0x7000, 0x8000, MemoryRegionKind::Usable),
    ];
    let mut allocator = BootInfoFrameAllocator::init(&regions);
    assert_eq!(allocator.next_frame_index(), 0);
    assert_eq!(allocator.usable_frame(0), Some(0x1000));
    assert_eq!(allocator.usable_frame(1), Some(0x2000));
    assert_eq!(allocator.usable_frame(2), Some(0x7000));
    assert_eq!(allocator.usable_frame(3), None);
    let _ = allocator.allocate_frame();
    let _ = allocator.allocate_frame();
    assert_eq!(allocator.next_frame_index(), 2);
    assert_eq!(allocator.allocate_frame(), Some(0x7000));
    assert_eq!(allocator.allocate_frame(), None);
    assert_eq!(allocator.next_frame_index(), 4);
}

#[test]
fn completed_event_keeps_only_a_finished_event() {
    let event = KeyEvent::new(KeyCode::A, KeyState::Down);
    assert_eq!(kernel8::interrupts::completed_event(Ok(Some(event.clone()))), Some(event));
    assert_eq!(kernel8::interrupts::completed_event(Ok(None)), None);
    assert_eq!(kernel8::interrupts::completed_event(Err(pc_keyboard::Error::UnknownKeyCode)), None);
}

#[test]
fn keyboard_unknown_scancode_echoes_nothing_and_decoding_goes_on() {
    let mut keyboard = Keyboard::new();
    let reply = handle_keyboard_scancode(&mut keyboard, 0x00);
    assert!(reply.echo.is_none());
    assert!(matches!(reply.end_of_interrupt, InterruptIndex::Keyboard));
    let next = handle_keyboard_scancode(&mut keyboard, 0x1E);
    match next.echo {
        Some(Echo::Key(key)) => assert_eq!(key, DecodedKey::Unicode('a')),
        _ => panic!("a key press after a rejected byte should still echo"),
    }
}

#[test]
fn frame_allocator_over_an_unordered_disjoint_map_never_repeats() {
    let regions = [
        region(0x9000, 0xB000, MemoryRegionKind::Usable),
        region(0x1000, 0x3000, MemoryRegionKind::Usable),
        region(0x5000, 0x6000, MemoryRegionKind::Usable),
    ];
    let mut allocator = BootInfoFrameAllocator::init(&regions);
    let mut seen = Vec::new();
    while let Some(frame) = allocator.allocate_frame() {
        assert!(!seen.contains(&frame));
        seen.push(frame);
    }
    assert_eq!(seen, vec![0x9000, 0xA000, 0x1000, 0x2000, 0x5000]);
}
