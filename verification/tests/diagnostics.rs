use ease::font::{render_glyph, row_pixels, DirectConsoleWriter, PANIC_FB_WIDTH};
use ease::irqsoff::{
    permille, CallSite, Growth, HartRecord, LockEvent, Site, TestWatch, TrapKind, SITES_MAX,
};
use ease::profile::{display_start, dump_lines, group_digits, ProfileBuf, ProfileKind, ProfileRecord};
use ease::stack::{check_canary, stack_high_watermark, STACK_CANARY, STACK_PAINT_PATTERN};
use ease::trap::Trap;

fn at(line: u32) -> CallSite {
    CallSite { file: "src/kernel/sync/spinlock.rs", line, column: 9 }
}

#[test]
fn stack_canary_check() {
    assert_eq!(check_canary(STACK_CANARY), Ok(()));
    assert_eq!(check_canary(0x1234), Err(0x1234));
}

#[test]
fn stack_watermark_of_unused_stack_is_top() {
    let words = [STACK_CANARY, STACK_PAINT_PATTERN, STACK_PAINT_PATTERN, STACK_PAINT_PATTERN];
    assert_eq!(stack_high_watermark(0x1000, 0x1010, &words), Some(0x1010));
}

#[test]
fn stack_watermark_is_lowest_overwritten_word() {
    let words = [STACK_CANARY, STACK_PAINT_PATTERN, 7, STACK_PAINT_PATTERN, 9];
    assert_eq!(stack_high_watermark(0x1000, 0x1014, &words), Some(0x1008));
}

#[test]
fn stack_watermark_without_canary_is_none() {
    let words = [0, STACK_PAINT_PATTERN];
    assert_eq!(stack_high_watermark(0x1000, 0x1008, &words), None);
}

#[test]
fn irqsoff_trap_kinds() {
    assert_eq!(TrapKind::from_mcause(Trap::Interrupt(7)), TrapKind::Timer);
    assert_eq!(TrapKind::from_mcause(Trap::Interrupt(3)), TrapKind::Software);
    assert_eq!(TrapKind::from_mcause(Trap::Interrupt(11)), TrapKind::External);
    assert_eq!(TrapKind::from_mcause(Trap::Interrupt(5)), TrapKind::Interrupt(5));
    assert_eq!(TrapKind::from_mcause(Trap::Exception(8)), TrapKind::EcallFromUser);
    assert_eq!(TrapKind::from_mcause(Trap::Exception(2)), TrapKind::Exception(2));
}

#[test]
fn irqsoff_section_is_recorded_under_opening_site() {
    let mut h = HartRecord::new();
    h.open(Site::At(at(10)), 100, 1000, 3);
    h.close(Site::At(at(20)), 150, 1600, 4);
    assert!(h.open.is_none());
    assert_eq!((h.total, h.count, h.overflow), (50, 1, 0));
    assert_eq!((h.longest.start, h.longest.cycles, h.longest.insns), (100, 50, 600));
    assert_eq!((h.longest.open_thread, h.longest.close_thread), (3, 4));
    let s = h.sites[0].unwrap();
    assert!(matches!(s.site, Site::At(c) if c.line == 10));
    assert_eq!((s.count, s.total, s.longest.cycles), (1, 50, 50));
    assert!(h.sites[1].is_none());
    h.open(Site::At(at(10)), 200, 2000, 3);
    h.close(Site::At(at(20)), 220, 2100, 3);
    let s = h.sites[0].unwrap();
    assert_eq!((s.count, s.total, s.longest.cycles), (2, 70, 50));
    assert_eq!((h.total, h.count, h.longest.cycles), (70, 2, 50));
}

#[test]
fn irqsoff_close_without_open_is_ignored() {
    let mut h = HartRecord::new();
    h.close(Site::Wfi, 100, 0, 0);
    assert_eq!((h.total, h.count, h.last_hook), (0, 0, 100));
    assert!(h.sites[0].is_none());
}

#[test]
fn irqsoff_open_overwrites_dangling_open() {
    let mut h = HartRecord::new();
    h.open(Site::Trap(TrapKind::Timer), 100, 0, 1);
    h.open(Site::At(at(30)), 300, 0, 1);
    h.close(Site::At(at(31)), 310, 0, 1);
    assert_eq!((h.total, h.count), (10, 1));
    assert!(matches!(h.sites[0].unwrap().site, Site::At(c) if c.line == 30));
}

#[test]
fn irqsoff_hook_gap_skips_wfi_and_first_call() {
    let mut h = HartRecord::new();
    h.open(Site::At(at(1)), 100, 0, 0);
    assert_eq!(h.max_gap, (0, 0), "no gap before the first hook call");
    h.close(Site::At(at(1)), 130, 0, 0);
    assert_eq!(h.max_gap, (30, 100));
    h.open(Site::Wfi, 1000, 0, 0);
    assert_eq!(h.max_gap, (30, 100), "the wait for an interrupt is idle time");
    h.close(Site::At(at(1)), 1100, 0, 0);
    assert_eq!(h.max_gap, (100, 1000));
}

#[test]
fn irqsoff_full_site_table_counts_unattributed() {
    let mut h = HartRecord::new();
    for i in 0..SITES_MAX as u32 {
        h.open(Site::At(at(i)), 10, 0, 0);
        h.close(Site::Wfi, 11, 0, 0);
    }
    assert_eq!(h.overflow, 0);
    h.open(Site::At(at(999)), 10, 0, 0);
    h.close(Site::Wfi, 15, 0, 0);
    assert_eq!(h.overflow, 1);
    assert_eq!(h.count, SITES_MAX as u32 + 1);
    assert_eq!(h.total, SITES_MAX as u64 + 5);
}

#[test]
fn irqsoff_lock_wait_and_hold() {
    let mut h = HartRecord::new();
    let acquired = h.lock_acquired(at(40), 100, 130, 2);
    assert_eq!(acquired, 130);
    h.lock_released(at(40), acquired, 200, 2);
    let s = h.holds[0].unwrap();
    assert_eq!((s.count, s.total_hold, s.max_hold, s.max_wait), (1, 70, 70, 30));
    assert_eq!(h.longest_wait.cycles, 30);
    assert_eq!(h.longest_hold.cycles, 70);
    assert!(matches!(h.longest_hold, LockEvent { site: Some(c), thread: 2, .. } if c.line == 40));
    let acquired = h.lock_acquired(at(40), 300, 310, 1);
    h.lock_released(at(40), acquired, 320, 1);
    let s = h.holds[0].unwrap();
    assert_eq!((s.count, s.total_hold, s.max_hold, s.max_wait), (2, 80, 70, 30));
    assert!(h.holds[1].is_none());
}

#[test]
fn irqsoff_report_ranks_longest_first_later_slot_on_tie() {
    let mut h = HartRecord::new();
    for (line, len) in [(1u32, 5u64), (2, 9), (3, 5), (4, 1)] {
        h.open(Site::At(at(line)), 100, 0, 0);
        h.close(Site::Wfi, 100 + len, 0, 0);
    }
    assert_eq!(h.ranked_sites(), vec![1, 2, 0, 3]);
    assert_eq!(HartRecord::new().ranked_sites(), Vec::<usize>::new());
}

#[test]
fn irqsoff_permille() {
    assert_eq!(permille(25, 1000), 25);
    assert_eq!(permille(1, 3), 333);
    assert_eq!(permille(5, 0), 0);
    assert_eq!(permille(u64::MAX, u64::MAX), 1);
}

#[test]
fn irqsoff_test_boundary_names_the_test_that_grew() {
    let mut w = TestWatch::new(2, "(before first test)");
    let mut h0 = HartRecord::new();
    let h1 = HartRecord::new();
    h0.open(Site::At(at(1)), 100, 0, 0);
    h0.close(Site::Wfi, 160, 0, 0);
    let r = w.test_boundary(&[h0, h1], "second");
    assert_eq!(r.len(), 2);
    assert_eq!((r[0].hart, r[0].test), (0, "(before first test)"));
    assert!(matches!(r[0].growth, Growth::Section(s) if s.cycles == 60));
    assert!(matches!(r[1].growth, Growth::HookGap(60, 100)));
    assert_eq!(w.prev_test, "second");
    assert_eq!(w.seen[0], (60, 60, 0, 0));
}

fn rec(name: &'static str, kind: ProfileKind, cycle_stamp: u64, sp: usize) -> ProfileRecord {
    ProfileRecord::build(name, kind, cycle_stamp, sp)
}

#[test]
fn profile_drain_returns_last_records_in_order() {
    let mut b: ProfileBuf<4> = ProfileBuf::new(0x100, 0x200);
    assert!(b.drain().is_empty());
    for i in 0..6u64 {
        b.push(rec("f", ProfileKind::Entry, i, 0x1000));
    }
    let stamps: Vec<u64> = b.drain().iter().map(|r| r.cycle_stamp).collect();
    assert_eq!(stamps, vec![2, 3, 4, 5]);
}

#[test]
fn profile_tracks_deepest_per_stack() {
    let mut b: ProfileBuf<8> = ProfileBuf::new(0x100, 0x200);
    assert_eq!(b.deepest_irq(), None);
    assert_eq!(b.deepest_thread(), None);
    b.push(rec("a", ProfileKind::Entry, 0, 0x1f0));
    b.push(rec("b", ProfileKind::Entry, 1, 0x180));
    b.push(rec("c", ProfileKind::Entry, 2, 0x190));
    b.push(rec("t", ProfileKind::Entry, 3, 0x9000));
    assert_eq!(b.deepest_irq(), Some((0x180, "b")));
    assert_eq!(b.deepest_thread(), Some((0x9000, "t")));
    b.init(0x100, 0x200);
    assert_eq!(b.deepest_irq(), None);
    assert!(b.drain().is_empty());
}

#[test]
fn profile_groups_digits() {
    assert_eq!(group_digits(0), b"0".to_vec());
    assert_eq!(group_digits(999), b"999".to_vec());
    assert_eq!(group_digits(1000), b"1_000".to_vec());
    assert_eq!(group_digits(1_234_567), b"1_234_567".to_vec());
    assert_eq!(group_digits(u64::MAX), b"18_446_744_073_709_551_615".to_vec());
}

#[test]
fn profile_dump_indents_calls() {
    let records = vec![
        rec("ease::kernel::sched::schedule", ProfileKind::Entry, 100, 0x1000),
        rec("ease::kernel::sched::pick", ProfileKind::Entry, 150, 0x0fd0),
        rec("ease::kernel::sched::pick", ProfileKind::Exit, 170, 0x1000),
        rec("other", ProfileKind::Exit, 200, 0x1010),
        rec("other", ProfileKind::Exit, 200, 0x1010),
    ];
    let lines = dump_lines(&records);
    let indents: Vec<usize> = lines.iter().map(|l| l.indent).collect();
    assert_eq!(indents, vec![0, 2, 2, 0, 0]);
    assert_eq!(lines[0].delta_us, 0);
    assert_eq!(lines[1].delta_us, 5);
    assert_eq!(lines[1].sp_delta, Some(-48));
    assert_eq!(lines[0].sp_delta, None);
    assert_eq!(lines[1].name_width, 48);
    assert!(lines[0].entry && !lines[2].entry);
    assert_eq!(&lines[1].name[lines[1].name_start..], "kernel::sched::pick");
    assert_eq!(lines[3].name_start, 0);
    assert_eq!(display_start("ease:"), 0);
}

#[test]
fn font_row_pixels_follow_bits() {
    assert_eq!(row_pixels(0b1000_0001, 1, 0), vec![1, 0, 0, 0, 0, 0, 0, 1]);
    assert_eq!(row_pixels(0, 1, 0), vec![0; 8]);
}

#[test]
fn font_glyph_drawn_only_when_it_fits() {
    let mut font = vec![0u8; 256 * 16];
    font[65 * 16] = 0xFF;
    font[65 * 16 + 15] = 0x0F;
    let rows = render_glyph(&font, 640, 480, 8, 32, 65, 9, 0);
    assert_eq!(rows.len(), 16);
    assert_eq!(rows[0], (32, vec![9; 8]));
    assert_eq!(rows[1], (33, vec![0; 8]));
    assert_eq!(rows[15], (47, vec![0, 0, 0, 0, 9, 9, 9, 9]));
    assert!(render_glyph(&font, 640, 480, 633, 0, 65, 9, 0).is_empty());
    assert!(render_glyph(&font, 640, 480, 0, 465, 65, 9, 0).is_empty());
    assert_eq!(render_glyph(&font, 640, 480, 632, 464, 65, 9, 0).len(), 16);
}

#[test]
fn font_panic_writer_wraps_lines() {
    let mut w = DirectConsoleWriter::new();
    let drawn = w.write_str(b"ab\nc");
    assert_eq!(drawn, vec![(0, 0, b'a'), (8, 0, b'b'), (0, 16, b'c')]);
    assert_eq!((w.x, w.y), (8, 16));
    let mut w = DirectConsoleWriter { x: PANIC_FB_WIDTH - 16, y: 0 };
    let drawn = w.write_str(b"xy");
    assert_eq!(drawn, vec![(624, 0, b'x'), (632, 0, b'y')]);
    assert_eq!((w.x, w.y), (0, 16));
}
