use video_qos::delay::UserDelay;
use video_qos::health::{DelayTrend, NetworkHealth};
use video_qos::rtt::RttCalculator;

#[test]
fn rtt_reports_nothing_before_ten_samples() {
    let mut c = RttCalculator::new();
    for i in 0..9 {
        let r = c.update(100 + i);
        assert_eq!(r, None);
        assert_eq!(c.get_rtt(), None);
    }
    let r = c.update(50);
    assert!(r.is_some());
}

#[test]
fn rtt_minima_are_ordered_once_reported() {
    let mut c = RttCalculator::new();
    let samples = [120u32, 80, 95, 110, 70, 130, 85, 90, 75, 100, 105, 99];
    for &s in samples.iter() {
        c.update(s);
    }
    let reported = c.get_rtt().unwrap();
    let min = c.min_rtt.unwrap();
    let wmin = c.window_min_rtt.unwrap();
    assert!(min <= wmin);
    assert!(min <= reported);
    for &s in c.samples.iter() {
        assert!(wmin <= s);
    }
    // before the window is full the report is the lifetime minimum
    assert_eq!(reported, 70);
}

#[test]
fn rtt_window_evicts_oldest_and_blends() {
    let mut c = RttCalculator::new();
    // one early outlier low sample, then a steady 100ms floor
    c.update(40);
    for _ in 0..59 {
        c.update(100);
    }
    assert_eq!(c.samples.len(), 60);
    // window full for the first time: blend of lifetime min 40 and window min 40
    assert_eq!(c.smoothed_rtt, Some(40));
    // pushing one more evicts the 40 sample; window min rises to 100
    c.update(100);
    assert_eq!(c.samples.len(), 60);
    assert_eq!(c.window_min_rtt, Some(100));
    assert_eq!(c.min_rtt, Some(40));
    // equal-weight blend of 40 and 100
    assert_eq!(c.smoothed_rtt, Some(70));
    assert_eq!(c.get_rtt(), Some(70));
}

#[test]
fn health_bands_have_exact_edges() {
    assert_eq!(NetworkHealth::from_delay(0), NetworkHealth::Excellent);
    assert_eq!(NetworkHealth::from_delay(49), NetworkHealth::Excellent);
    assert_eq!(NetworkHealth::from_delay(50), NetworkHealth::Good);
    assert_eq!(NetworkHealth::from_delay(99), NetworkHealth::Good);
    assert_eq!(NetworkHealth::from_delay(100), NetworkHealth::Fair);
    assert_eq!(NetworkHealth::from_delay(149), NetworkHealth::Fair);
    assert_eq!(NetworkHealth::from_delay(150), NetworkHealth::Poor);
    assert_eq!(NetworkHealth::from_delay(299), NetworkHealth::Poor);
    assert_eq!(NetworkHealth::from_delay(300), NetworkHealth::Bad);
    assert_eq!(NetworkHealth::from_delay(599), NetworkHealth::Bad);
    assert_eq!(NetworkHealth::from_delay(600), NetworkHealth::Critical);
    assert_eq!(NetworkHealth::from_delay(u32::MAX), NetworkHealth::Critical);
}

#[test]
fn severity_orders_the_tiers() {
    let tiers = [
        NetworkHealth::Excellent,
        NetworkHealth::Good,
        NetworkHealth::Fair,
        NetworkHealth::Poor,
        NetworkHealth::Bad,
        NetworkHealth::Critical,
    ];
    for (i, t) in tiers.iter().enumerate() {
        assert_eq!(t.severity_level() as usize, i);
    }
}

#[test]
fn tracker_smooths_and_classifies() {
    let mut d = UserDelay::new();
    assert_eq!(d.network_health(), NetworkHealth::Fair);
    d.add_delay(20);
    // a single sample is its own smoothed delay
    assert_eq!(d.smoothed_delay, Some(20));
    assert_eq!(d.delay_trend, DelayTrend::Stable);
    assert_eq!(d.network_health(), NetworkHealth::Excellent);
    d.add_delay(40);
    // rounded mean of 20 and 40
    assert_eq!(d.smoothed_delay, Some(30));
}

#[test]
fn tracker_history_is_bounded() {
    let mut d = UserDelay::new();
    for _ in 0..20 {
        d.add_delay(50);
    }
    assert!(d.delay_history.len() <= 6);
}

#[test]
fn trend_follows_the_recent_average() {
    // rising delays: recent window far above the sample before it
    let mut d = UserDelay::new();
    for x in [10u32, 10, 100, 120, 140, 160] {
        d.add_delay(x);
    }
    // history [10,10,100,120,140,160]: recent = last five, older = [10]
    assert_eq!(d.delay_trend, DelayTrend::Increasing);

    // falling delays
    let mut d2 = UserDelay::new();
    for x in [300u32, 300, 50, 40, 30, 20] {
        d2.add_delay(x);
    }
    assert_eq!(d2.delay_trend, DelayTrend::Decreasing);

    // flat delays stay stable (few enough samples that no baseline is
    // subtracted yet)
    let mut d3 = UserDelay::new();
    for _ in 0..6 {
        d3.add_delay(80);
    }
    assert_eq!(d3.delay_trend, DelayTrend::Stable);
}
