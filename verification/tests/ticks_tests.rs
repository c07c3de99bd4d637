use poloto::ticks::{build_ticks, choose_step};

#[test]
fn step_for_unit_span() {
    // The padded axis of data 0 ..= 2 (thousandths: 0 ..= 2000).
    let s = choose_step(-201, 2201);
    assert_eq!(s, 1000);
    let t = build_ticks(-201, 2201, s);
    assert_eq!(t, vec![0, 1000, 2000]);
}

#[test]
fn tick_counts_stay_in_target_range() {
    let boxes: Vec<(i128, i128)> = vec![
        (-201, 2201),
        (-101, 1101),
        (0, 3),
        (-1_000_000, 1_000_000),
        (999, 1_000_000_000),
        (-5_000_000_000_000, -4_000_000_000_000),
        (17, 40),
    ];
    for (lo, hi) in boxes {
        let s = choose_step(lo, hi);
        assert!(s >= 1);
        let t = build_ticks(lo, hi, s);
        assert!(t.len() >= 3, "too few ticks for {lo}..{hi}");
        assert!(t.len() <= 8, "too many ticks for {lo}..{hi}");
        for v in &t {
            assert_eq!(v % s, 0, "tick {v} is not a multiple of {s}");
            assert!(lo <= *v && *v <= hi);
        }
    }
}
