use lcd_dashboard::history::{peak_across, peak_value, HistoryWindow, NetStats, Peak};
use lcd_dashboard::rate::{NetSample, NetSpeed, NetSpeeds, RateError};

const SECOND: u64 = 1_000_000_000;

/// A throughput of whole megabits per second, over one second.
fn speeds(tx_mbps: u64, rx_mbps: u64) -> NetSpeeds {
    NetSpeeds {
        tx: NetSpeed::from_bytes(SECOND, tx_mbps * 125_000, 0).unwrap(),
        rx: NetSpeed::from_bytes(SECOND, rx_mbps * 125_000, 0).unwrap(),
    }
}

fn times(window: &HistoryWindow) -> Vec<u64> {
    (0..window.len()).map(|i| window.get(i).unwrap().time).collect()
}

#[test]
fn window_keeps_the_last_minute() {
    let mut window = HistoryWindow::new();
    assert_eq!(0, window.len());
    window.push(0, speeds(1, 1));
    assert_eq!(vec![0], times(&window));
    window.push(10 * SECOND, speeds(1, 1));
    assert_eq!(vec![0, 10 * SECOND], times(&window));
    window.push(30 * SECOND, speeds(1, 1));
    assert_eq!(vec![0, 10 * SECOND, 30 * SECOND], times(&window));
    window.push(65 * SECOND, speeds(1, 1));
    assert_eq!(vec![10 * SECOND, 30 * SECOND, 65 * SECOND], times(&window));
}

#[test]
fn window_holds_only_what_is_recent_after_each_push() {
    let mut window = HistoryWindow::new();
    let mut now = 0u64;
    for step in 0..400u64 {
        now += (step % 7 + 1) * SECOND / 2;
        window.push(now, speeds(step, step));
        let kept = times(&window);
        assert_eq!(Some(&now), kept.last());
        assert!(kept.iter().all(|&t| now - t < 60 * SECOND));
        assert!(kept.windows(2).all(|w| w[0] <= w[1]));
    }
}

#[test]
fn an_entry_leaves_at_sixty_seconds_sharp() {
    let mut window = HistoryWindow::new();
    window.push(0, speeds(1, 1));
    window.push(60 * SECOND - 1, speeds(1, 1));
    assert_eq!(vec![0, 60 * SECOND - 1], times(&window));
    window.push(60 * SECOND, speeds(1, 1));
    assert_eq!(vec![60 * SECOND - 1, 60 * SECOND], times(&window));
}

#[test]
fn eviction_stops_at_the_first_recent_entry() {
    // An entry from a clock that went back stays behind a recent one.
    let mut window = HistoryWindow::new();
    window.push(100 * SECOND, speeds(1, 1));
    window.push(5 * SECOND, speeds(1, 1));
    window.push(110 * SECOND, speeds(1, 1));
    assert_eq!(vec![100 * SECOND, 5 * SECOND, 110 * SECOND], times(&window));
    // A push from before every entry evicts nothing.
    window.push(0, speeds(1, 1));
    assert_eq!(4, window.len());
}

#[test]
fn a_long_gap_empties_the_window() {
    let mut window = HistoryWindow::new();
    for t in 0..10u64 {
        window.push(t * SECOND, speeds(t, t));
    }
    window.push(1000 * SECOND, speeds(3, 4));
    assert_eq!(vec![1000 * SECOND], times(&window));
    assert_eq!(Some(Peak { tx: 3, rx: 4 }), window.peak());
    assert_eq!(None, window.get(1));
}

#[test]
fn peak_takes_each_direction_by_itself() {
    let mut window = HistoryWindow::new();
    window.push(1 * SECOND, speeds(2, 10));
    window.push(2 * SECOND, speeds(5, 1));
    window.push(3 * SECOND, speeds(3, 4));
    assert_eq!(Some(Peak { tx: 5, rx: 10 }), window.peak());
}

#[test]
fn peak_of_an_empty_window() {
    assert_eq!(None, HistoryWindow::new().peak());
    assert_eq!(None, peak_across(&vec![]));
    let idle = NetStats::new("ether0".to_owned(), NetSample { time: 0, rx_bytes: 0, tx_bytes: 0 });
    assert_eq!(None, peak_across(&vec![idle]));
}

#[test]
fn peak_rounds_up_and_stops_at_the_top() {
    let slow = NetSpeed::from_bytes(SECOND, 1, 0).unwrap();
    assert_eq!(1, peak_value(&slow));
    let none = NetSpeed::from_bytes(SECOND, 0, 0).unwrap();
    assert_eq!(0, peak_value(&none));
    let exact = NetSpeed::from_bytes(SECOND, 65_535 * 125_000, 0).unwrap();
    assert_eq!(65_535, peak_value(&exact));
    let above = NetSpeed::from_bytes(SECOND, 70_000 * 125_000, 0).unwrap();
    assert_eq!(65_535, peak_value(&above));
    let huge = NetSpeed::from_bytes(1, u64::MAX, 0).unwrap();
    assert_eq!(u16::MAX, peak_value(&huge));
}

#[test]
fn peak_max_is_per_direction() {
    let a = Peak { tx: 5, rx: 1 };
    let b = Peak { tx: 2, rx: 9 };
    assert_eq!(Peak { tx: 5, rx: 9 }, a.max(b));
    assert_eq!(Peak { tx: 5, rx: 9 }, b.max(a));
    assert_eq!(a, a.max(a));
}

#[test]
fn stats_follow_an_interface() {
    let first = NetSample { time: 0, rx_bytes: 1_000, tx_bytes: 2_000 };
    let mut stats = NetStats::new("ether0".to_owned(), first);
    assert_eq!("ether0", stats.name());
    assert_eq!(first, stats.last());
    assert_eq!(0, stats.buckets().len());

    let second = NetSample { time: SECOND, rx_bytes: 126_000, tx_bytes: 252_000 };
    let speeds = stats.get_speeds(second).unwrap();
    assert_eq!(125_000, speeds.rx.bytes());
    assert_eq!(250_000, speeds.tx.bytes());
    assert_eq!(SECOND, speeds.rx.nanos());
    assert_eq!(second, stats.last());
    assert_eq!(1, stats.buckets().len());
    let entry = stats.buckets().get(0).unwrap();
    assert_eq!(SECOND, entry.time);
    assert_eq!(speeds, entry.speeds);
    assert_eq!(Some(Peak { tx: 2, rx: 1 }), stats.buckets().peak());
}

#[test]
fn stats_refuse_a_sample_that_is_not_later() {
    let first = NetSample { time: 10 * SECOND, rx_bytes: 0, tx_bytes: 0 };
    let mut stats = NetStats::new("ether1".to_owned(), first);
    let next = NetSample { time: 11 * SECOND, rx_bytes: 500, tx_bytes: 500 };
    stats.get_speeds(next).unwrap();

    let same = NetSample { time: 11 * SECOND, rx_bytes: 900, tx_bytes: 900 };
    assert_eq!(Err(RateError::InvalidInterval), stats.get_speeds(same));
    let earlier = NetSample { time: 3 * SECOND, rx_bytes: 900, tx_bytes: 900 };
    assert_eq!(Err(RateError::InvalidInterval), stats.get_speeds(earlier));
    // Nothing has changed.
    assert_eq!(next, stats.last());
    assert_eq!(1, stats.buckets().len());
    assert_eq!("ether1", stats.name());
}

#[test]
fn stats_keep_a_minute_of_history() {
    let mut stats = NetStats::new("ether2".to_owned(), NetSample { time: 0, rx_bytes: 0, tx_bytes: 0 });
    let mut bytes = 0u64;
    for tick in 1..=300u64 {
        bytes += tick * 1000;
        let sample = NetSample { time: tick * SECOND / 2, rx_bytes: bytes, tx_bytes: bytes / 2 };
        stats.get_speeds(sample).unwrap();
        let window = stats.buckets();
        assert!(window.len() <= 120);
        for i in 0..window.len() {
            assert!(sample.time - window.get(i).unwrap().time < 60 * SECOND);
        }
        assert_eq!(sample.time, window.get(window.len() - 1).unwrap().time);
    }
    assert_eq!(120, stats.buckets().len());
}

#[test]
fn peak_across_all_interfaces() {
    let zero = NetSample { time: 0, rx_bytes: 0, tx_bytes: 0 };
    let mut a = NetStats::new("ether0".to_owned(), zero);
    let mut b = NetStats::new("ether1".to_owned(), zero);
    let c = NetStats::new("ether2".to_owned(), zero);
    // 2 and 10, then 5 and 1 on the first; 3 and 4 on the second.
    a.get_speeds(NetSample { time: SECOND, tx_bytes: 250_000, rx_bytes: 1_250_000 }).unwrap();
    a.get_speeds(NetSample { time: 2 * SECOND, tx_bytes: 875_000, rx_bytes: 1_375_000 }).unwrap();
    b.get_speeds(NetSample { time: SECOND, tx_bytes: 375_000, rx_bytes: 500_000 }).unwrap();
    assert_eq!(Some(Peak { tx: 5, rx: 1 + 9 }), peak_across(&vec![a, b, c]));
}
