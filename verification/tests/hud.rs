use concinnity_engine::hud::debug_hud::{passes_text, sys_text, PassTiming, PASSES_CHIP_TOP_N};
use concinnity_engine::hud::millis::millis_tenths;
use concinnity_engine::hud::stat_hud::{ram_text, vram_text};

#[test]
fn passes_text_blanks_on_all_zero_slots() {
    let slots = vec![("", 0u32); 8];
    assert_eq!(passes_text(&slots), "");
}

#[test]
fn passes_text_lists_top_entries_descending() {
    let slots = vec![
        ("shadow", 380),
        ("", 0),
        ("main", 1400),
        ("ssao_kernel", 120),
        ("composite", 60),
        ("ssr_resolve", 800),
        ("", 0),
    ];
    let out = passes_text(&slots);
    let lines: Vec<&str> = out.lines().collect();
    assert_eq!(lines[0], "PASSES");
    assert_eq!(lines[1], "main 1.4 ms");
    assert_eq!(lines[2], "ssr_resolve 800 us");
    assert_eq!(lines[3], "shadow 380 us");
    assert_eq!(lines[4], "ssao_kernel 120 us");
    assert_eq!(lines[5], "composite 60 us");
    assert_eq!(lines.len(), 6);
}

#[test]
fn passes_text_truncates_to_top_n() {
    let slots: Vec<PassTiming> = vec![
        ("a", 80),
        ("b", 70),
        ("c", 60),
        ("d", 50),
        ("e", 40),
        ("f", 30),
        ("g", 20),
        ("h", 10),
    ];
    let out = passes_text(&slots);
    let lines: Vec<&str> = out.lines().collect();
    assert_eq!(lines.len(), 1 + PASSES_CHIP_TOP_N);
    assert!(!out.contains("g "));
    assert!(!out.contains("h "));
}

#[test]
fn passes_text_formats_microseconds_below_one_ms() {
    let slots = vec![("a", 999u32), ("b", 1000u32), ("c", 1499u32), ("d", 1500u32)];
    let out = passes_text(&slots);
    assert!(out.contains("a 999 us"));
    assert!(out.contains("b 1.0 ms"));
    assert!(out.contains("c 1.5 ms"));
    assert!(out.contains("d 1.5 ms"));
}

#[test]
fn passes_text_keeps_slot_order_among_equal_times() {
    // A stable ranking: equal times list in slot order, and a name without a
    // time or a time without a name is not a recorded pass.
    let slots = vec![("late", 5), ("", 90), ("early", 300), ("other", 5), ("none", 0)];
    assert_eq!(passes_text(&slots), "PASSES\nearly 300 us\nlate 5 us\nother 5 us");
}

#[test]
fn passes_text_rounds_tenths_of_a_millisecond() {
    let slots = vec![("big", 123_449), ("round", 2_960)];
    assert_eq!(passes_text(&slots), "PASSES\nbig 123.4 ms\nround 3.0 ms");
}

#[test]
fn sys_text_reports_threads_and_memory_when_known() {
    assert_eq!(
        sys_text(Some((11, 12)), Some(512 * 1024 * 1024), Some(16384)),
        "threads 11/12 | mem 512/16384 MB"
    );
}

#[test]
fn sys_text_degrades_each_half_independently() {
    assert_eq!(
        sys_text(None, Some(256 * 1024 * 1024), Some(8192)),
        "threads -- | mem 256/8192 MB"
    );
    assert_eq!(
        sys_text(Some((3, 4)), Some(256 * 1024 * 1024), None),
        "threads 3/4 | mem 256 MB"
    );
    assert_eq!(sys_text(Some((3, 4)), None, Some(8192)), "threads 3/4 | mem -- MB");
    assert_eq!(sys_text(None, None, None), "threads -- | mem -- MB");
}

#[test]
fn vram_text_reports_whole_megabytes() {
    assert_eq!(vram_text(0), "VRAM 0 MB");
    assert_eq!(vram_text(512 * 1024 * 1024), "VRAM 512 MB");
    assert_eq!(vram_text(1024 * 1024 + 1), "VRAM 1 MB");
}

#[test]
fn ram_text_reports_rss_with_budget_when_known() {
    assert_eq!(ram_text(Some(512 * 1024 * 1024), Some(16384)), "RAM 512 / 16384 MB");
}

#[test]
fn ram_text_reports_bare_rss_without_a_budget() {
    assert_eq!(ram_text(Some(256 * 1024 * 1024), None), "RAM 256 MB");
}

#[test]
fn ram_text_blanks_when_rss_unavailable() {
    assert_eq!(ram_text(None, Some(16384)), "");
    assert_eq!(ram_text(None, None), "");
}

#[test]
fn memory_chips_truncate_just_below_a_mebibyte() {
    assert_eq!(vram_text(1024 * 1024 - 1), "VRAM 0 MB");
    assert_eq!(ram_text(Some(u64::MAX), Some(0)), "RAM 17592186044415 / 0 MB");
}

#[test]
fn millisecond_times_read_as_the_single_precision_quotient_prints() {
    let mut cases: Vec<u32> = (1000..=40_000).collect();
    cases.extend([1050, 1150, 1250, 1750, 123_449, 16_777_215, 16_777_216, 16_777_217, 123_456_789, u32::MAX]);
    for m in cases {
        let out = passes_text(&[("p", m)]);
        assert_eq!(out, format!("PASSES\np {:.1} ms", m as f32 / 1000.0), "{m}");
    }
}

#[test]
fn halfway_tenths_follow_the_stored_quotient() {
    // 1.05 is stored just below the half, 1.25 exactly on it (ties go even).
    assert_eq!(millis_tenths(1050), 10);
    assert_eq!(millis_tenths(1250), 12);
    assert_eq!(millis_tenths(1750), 18);
    assert_eq!(millis_tenths(u32::MAX), 42_949_675);
    assert_eq!(millis_tenths(0), 0);
}
