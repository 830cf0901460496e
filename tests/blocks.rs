use tmux_status_bar::battery::BatteryBlock;
use tmux_status_bar::clock::{format_clock, ClockBlock, LocalTime};
use tmux_status_bar::cpufreq::CPUFreqBlock;
use tmux_status_bar::loadavg::LoadAvgBlock;
use tmux_status_bar::memory::MemoryBlock;
use tmux_status_bar::meminfo::{memory_usage, swap_usage};
use tmux_status_bar::network::{format_si_prefix, NetworkBlock, NetworkBytes, NetworkEntry};
use tmux_status_bar::source::{compose_line, Block};
use tmux_status_bar::swap::SwapBlock;
use tmux_status_bar::time::Span;

fn entry(name: &str, rx: u64, tx: u64) -> NetworkEntry {
    NetworkEntry { name: name.as_bytes().to_vec(), bytes: NetworkBytes { rx, tx } }
}

const MEMINFO: &str = "MemTotal:       1000 kB\nMemFree:         100 kB\nMemAvailable:    250 kB\nSwapTotal:      2000 kB\nSwapFree:        500 kB\n";

#[test]
fn format_si_prefix_test() {
    assert!(format_si_prefix(0) == (0, ""));
    assert!(format_si_prefix(1023) == (1023, ""));
    assert!(format_si_prefix(1024) == (1, "Ki"));
    assert!(format_si_prefix(1024 * 1024) == (1, "Mi"));
    assert!(format_si_prefix(1024 * 1024 * 1024) == (1, "Gi"));
    assert!(format_si_prefix(1024 * 1024 * 1024 * 1024) == (1, "Ti"));
    assert!(format_si_prefix(1024 * 1024 * 1024 * 1024 * 1024) == (1024, "Ti"));
}

#[test]
fn si_prefix_truncates_within_a_unit() {
    assert_eq!(format_si_prefix(2047), (1, "Ki"));
    assert_eq!(format_si_prefix(1024 * 1024 - 1), (1023, "Ki"));
    assert_eq!(format_si_prefix(u64::MAX), (16777215, "Ti"));
}

#[test]
fn update_within_interval_keeps_output() {
    let mut m = MemoryBlock::new(Span::new(5, 0));
    m.update(Span::new(100, 0), MEMINFO.as_bytes());
    assert_eq!(m.get_bytes(), b"Mem:75%");
    let other = "MemTotal: 1000 kB\nMemAvailable: 900 kB\n";
    m.update(Span::new(104, 999_999_999), other.as_bytes());
    assert_eq!(m.get_bytes(), b"Mem:75%");
    assert!(!m.is_due(Span::new(104, 999_999_999)));
}

#[test]
fn update_after_interval_resamples() {
    let mut m = MemoryBlock::new(Span::new(5, 0));
    m.update(Span::new(100, 0), MEMINFO.as_bytes());
    let other = "MemTotal: 1000 kB\nMemAvailable: 900 kB\n";
    assert!(m.is_due(Span::new(105, 0)));
    m.update(Span::new(105, 0), other.as_bytes());
    assert_eq!(m.get_bytes(), b"Mem:10%");
}

#[test]
fn nothing_shown_before_first_update() {
    let m = MemoryBlock::new(Span::new(5, 0));
    assert_eq!(m.get_bytes(), b"");
    let n = NetworkBlock::new(Span::new(5, 0));
    assert_eq!(n.get_bytes(), b"");
}

#[test]
fn memory_source_renders_used_percentage() {
    let mut m = MemoryBlock::new(Span::new(5, 0));
    m.update(Span::new(10, 0), "MemTotal: 1000 kB\nMemAvailable: 250 kB\n".as_bytes());
    assert_eq!(m.get_bytes(), b"Mem:75%");
    assert_eq!(memory_usage(MEMINFO.as_bytes()), b"Mem:75%".to_vec());
}

#[test]
fn memory_source_without_fields_is_empty() {
    assert_eq!(memory_usage(b"MemTotal: 1000 kB\n"), Vec::<u8>::new());
    assert_eq!(memory_usage(b""), Vec::<u8>::new());
    assert_eq!(memory_usage(b"MemTotal: 0 kB\nMemAvailable: 0 kB\n"), Vec::<u8>::new());
}

#[test]
fn memory_last_parsable_line_wins() {
    let report = "MemTotal: 1000 kB\nMemTotal: bad kB\nMemAvailable: 500 kB\nMemAvailable: 0 kB\n";
    assert_eq!(memory_usage(report.as_bytes()), b"Mem:100%".to_vec());
}

#[test]
fn memory_available_above_total_is_negative() {
    let report = "MemTotal: 1000 kB\nMemAvailable: 1500 kB\n";
    assert_eq!(memory_usage(report.as_bytes()), b"Mem:-50%".to_vec());
}

#[test]
fn swap_source_renders_used_percentage() {
    let mut s = SwapBlock::new(Span::new(5, 0));
    s.update(Span::new(10, 0), MEMINFO.as_bytes());
    assert_eq!(s.get_bytes(), b"Swp:75%");
    assert_eq!(swap_usage(b"SwapTotal: 0 kB\nSwapFree: 0 kB\n"), Vec::<u8>::new());
}

#[test]
fn loadavg_source_rounds_to_one_decimal() {
    let mut l = LoadAvgBlock::new(Span::new(10, 0));
    l.update(Span::new(10, 0), b"0.52 0.58 0.59 1/123 4567\n");
    assert_eq!(l.get_bytes(), b"LA:0.5");
    let mut l = LoadAvgBlock::new(Span::new(10, 0));
    l.update(Span::new(10, 0), b"12.96 0.58 0.59 1/123 4567\n");
    assert_eq!(l.get_bytes(), b"LA:13.0");
}

#[test]
fn loadavg_source_unparsable_is_empty() {
    let mut l = LoadAvgBlock::new(Span::new(10, 0));
    l.update(Span::new(10, 0), b"abc 0.58");
    assert_eq!(l.get_bytes(), b"");
    l.update(Span::new(20, 0), b"");
    assert_eq!(l.get_bytes(), b"");
}

#[test]
fn cpufreq_source_shows_ghz() {
    let mut c = CPUFreqBlock::new(Span::new(2, 0));
    c.update(Span::new(10, 0), b"1800000\n");
    assert_eq!(c.get_bytes(), b"Freq:1.8GHz");
    c.update(Span::new(12, 0), b"1850000\n");
    assert_eq!(c.get_bytes(), b"Freq:1.9GHz");
}

#[test]
fn cpufreq_source_error_placeholder() {
    let mut c = CPUFreqBlock::new(Span::new(2, 0));
    c.update(Span::new(10, 0), b"fast");
    assert_eq!(c.get_bytes(), b"error      ");
}

#[test]
fn battery_source_pads_charge() {
    let mut b = BatteryBlock::new(Span::new(10, 0));
    b.update(Span::new(10, 0), Some(b"87\n".as_slice()), Some(b"Discharging\n".as_slice()));
    assert_eq!(b.get_bytes(), b"Bat: 87%(D)");
    b.update(Span::new(20, 0), Some(b"100\n".as_slice()), Some(b"Full\n".as_slice()));
    assert_eq!(b.get_bytes(), b"Bat:100%(F)");
}

#[test]
fn battery_source_unreadable_files() {
    let mut b = BatteryBlock::new(Span::new(10, 0));
    b.update(Span::new(10, 0), None, None);
    assert_eq!(b.get_bytes(), b"Bat:err%(E)");
    b.update(Span::new(20, 0), Some(b"5".as_slice()), Some(b"".as_slice()));
    assert_eq!(b.get_bytes(), b"Bat:  5%(E)");
}

#[test]
fn clock_format() {
    let t = LocalTime { month: 10, day: 19, weekday: 0, hour: 6, minute: 31, second: 5 };
    assert_eq!(format_clock(&t), b"10/19(Mon)06:31:05".to_vec());
    let t = LocalTime { month: 1, day: 2, weekday: 6, hour: 23, minute: 59, second: 59 };
    assert_eq!(format_clock(&t), b"01/02(Sun)23:59:59".to_vec());
}

#[test]
fn clock_source_shows_local_time() {
    let mut c = ClockBlock::new(Span::new(1, 0));
    c.update(Span::new(1_700_000_000, 0));
    let shown = c.get_bytes();
    assert_eq!(shown.len(), 18);
    assert_eq!(shown[2], b'/');
    assert_eq!(shown[5], b'(');
    assert_eq!(shown[9], b')');
    assert_eq!(shown[12], b':');
}

#[test]
fn clock_record_is_throttled() {
    let mut c = ClockBlock::new(Span::new(1, 0));
    let t = LocalTime { month: 3, day: 4, weekday: 2, hour: 5, minute: 6, second: 7 };
    c.record(Span::new(10, 0), Some(t));
    assert_eq!(c.get_bytes(), b"03/04(Wed)05:06:07");
    c.record(Span::new(10, 500_000_000), None);
    assert_eq!(c.get_bytes(), b"03/04(Wed)05:06:07");
    c.record(Span::new(11, 0), None);
    assert_eq!(c.get_bytes(), b"");
}

#[test]
fn network_first_sample_is_baseline_only() {
    let mut n = NetworkBlock::new(Span::new(5, 0));
    n.update(Span::new(100, 0), &vec![entry("eth0", 100, 100)]);
    assert_eq!(n.get_bytes(), b"");
}

#[test]
fn network_no_traffic_no_segment() {
    let mut n = NetworkBlock::new(Span::new(5, 0));
    n.update(Span::new(100, 0), &vec![entry("eth0", 100, 100)]);
    n.update(Span::new(110, 0), &vec![entry("eth0", 100, 100)]);
    assert_eq!(n.get_bytes(), b"");
}

#[test]
fn network_rates_per_second() {
    let mut n = NetworkBlock::new(Span::new(5, 0));
    n.update(Span::new(100, 0), &vec![entry("eth0", 0, 0), entry("lo", 0, 0)]);
    n.update(
        Span::new(110, 0),
        &vec![entry("eth0", 10 * 2048, 10 * 5 * 1024 * 1024), entry("lo", 30, 0)],
    );
    assert_eq!(n.get_bytes(), b"[eth0: U   2KiB/s D   5MiB/s] [lo: U   3B/s D   0B/s]");
}

#[test]
fn network_regression_resets_baseline() {
    let mut n = NetworkBlock::new(Span::new(10, 0));
    n.update(Span::new(10, 0), &vec![entry("eth0", 100, 100)]);
    let regressed = n.update(Span::new(20, 0), &vec![entry("eth0", 50, 150)]);
    assert_eq!(n.get_bytes(), b"");
    assert_eq!(regressed.len(), 1);
    assert_eq!(regressed[0].name, b"eth0".to_vec());
    assert_eq!(regressed[0].before, NetworkBytes { rx: 100, tx: 100 });
    assert_eq!(regressed[0].after, NetworkBytes { rx: 50, tx: 150 });
    n.update(Span::new(30, 0), &vec![entry("eth0", 60, 160)]);
    assert_eq!(n.get_bytes(), b"[eth0: U   1B/s D   1B/s]");
}

#[test]
fn network_output_is_capped() {
    let mut n = NetworkBlock::new(Span::new(1, 0));
    let names = ["interface0", "interface1", "interface2", "interface3", "interface4"];
    let first: Vec<NetworkEntry> = names.iter().map(|s| entry(s, 0, 0)).collect();
    let second: Vec<NetworkEntry> = names.iter().map(|s| entry(s, 5000, 5000)).collect();
    n.update(Span::new(1, 0), &first);
    n.update(Span::new(2, 0), &second);
    assert_eq!(n.get_bytes().len(), 128);
    assert!(n.get_bytes().starts_with(b"[interface0: U   4KiB/s D   4KiB/s] [interface1"));
}

#[test]
fn compose_skips_empty_outputs() {
    let outputs = vec![b"A".to_vec(), b"".to_vec(), b"C".to_vec()];
    assert_eq!(compose_line(&outputs), b" A C".to_vec());
    assert_eq!(compose_line(&Vec::new()), Vec::<u8>::new());
}

#[test]
fn compose_registry_of_sources() {
    let mut mem = MemoryBlock::new(Span::new(5, 0));
    let mut load = LoadAvgBlock::new(Span::new(10, 0));
    let now = Span::new(50, 0);
    mem.update(now, MEMINFO.as_bytes());
    load.update(now, b"");
    let outputs = vec![mem.get_bytes().to_vec(), load.get_bytes().to_vec()];
    assert_eq!(compose_line(&outputs), b" Mem:75%".to_vec());
}

#[test]
fn network_entry_from_counter_files() {
    let e = NetworkEntry::from_counters(b"eth0", b"1234\n", b" 99 ").unwrap();
    assert_eq!(e.name, b"eth0".to_vec());
    assert_eq!(e.bytes, NetworkBytes { rx: 1234, tx: 99 });
    assert!(NetworkEntry::from_counters(b"eth0", b"12x", b"99").is_none());
    assert!(NetworkEntry::from_counters(b"eth0", b"12", b"").is_none());
}

#[test]
fn network_subsecond_sample_records_counters_only() {
    let mut n = NetworkBlock::new(Span::new(0, 500_000_000));
    n.update(Span::new(10, 0), &vec![entry("eth0", 0, 0)]);
    n.update(Span::new(10, 600_000_000), &vec![entry("eth0", 1000, 1000)]);
    assert_eq!(n.get_bytes(), b"");
    n.update(Span::new(12, 600_000_000), &vec![entry("eth0", 3000, 1000)]);
    assert_eq!(n.get_bytes(), b"[eth0: U1000B/s D   0B/s]");
}

#[test]
fn network_no_traffic_among_several_interfaces() {
    let mut n = NetworkBlock::new(Span::new(5, 0));
    n.update(Span::new(100, 0), &vec![entry("eth0", 100, 100), entry("wlan0", 0, 0), entry("lo", 7, 7)]);
    let regressed =
        n.update(Span::new(110, 0), &vec![entry("eth0", 100, 100), entry("wlan0", 40, 0), entry("lo", 7, 7)]);
    assert_eq!(n.get_bytes(), b"[wlan0: U   4B/s D   0B/s]");
    assert!(regressed.is_empty());
}

#[test]
fn network_throttled_update_reports_nothing() {
    let mut n = NetworkBlock::new(Span::new(5, 0));
    n.update(Span::new(100, 0), &vec![entry("eth0", 100, 100)]);
    let regressed = n.update(Span::new(101, 0), &vec![entry("eth0", 1, 1)]);
    assert!(regressed.is_empty());
    assert_eq!(n.get_bytes(), b"");
}

#[test]
fn clock_shows_far_future_time() {
    let mut c = ClockBlock::new(Span::new(1, 0));
    c.update(Span::new(8_000_000_000_000, 0));
    assert_eq!(c.get_bytes().len(), 18);
}

#[test]
fn clock_beyond_signed_range_shows_nothing() {
    let mut c = ClockBlock::new(Span::new(1, 0));
    c.update(Span::new(u64::MAX, 0));
    assert_eq!(c.get_bytes(), b"");
}

#[test]
fn counters_accept_plus_sign_and_unicode_space() {
    let e = NetworkEntry::from_counters(b"eth0", b"+5", b"\xc2\xa05\xe3\x80\x80\n").unwrap();
    assert_eq!(e.bytes, NetworkBytes { rx: 5, tx: 5 });
    assert!(NetworkEntry::from_counters(b"eth0", b"+", b"5").is_none());
    assert!(NetworkEntry::from_counters(b"eth0", b"-5", b"5").is_none());
}

#[test]
fn battery_pads_charge_by_characters() {
    let mut b = BatteryBlock::new(Span::new(10, 0));
    let cap = "\u{e9}\u{e9}".as_bytes();
    b.update(Span::new(10, 0), Some(cap), Some(b"Charging".as_slice()));
    assert_eq!(b.get_bytes(), "Bat: \u{e9}\u{e9}%(".as_bytes());
    b.update(Span::new(20, 0), Some(b"1000".as_slice()), Some(b"Charging".as_slice()));
    assert_eq!(b.get_bytes(), b"Bat:1000%(C");
}
