use video_qos::health::NetworkHealth;
use video_qos::qos::VideoQoS;
use video_qos::quality::Quality;

#[test]
fn quality_codes_decode_to_tiers_or_clamped_custom_ratios() {
    assert_eq!(Quality::decode(2), Quality::Low);
    assert_eq!(Quality::decode(3), Quality::Balanced);
    assert_eq!(Quality::decode(4), Quality::Best);
    // bits 8..19 carry a percentage, doubled and scaled to permille
    assert_eq!(Quality::decode(50 << 8), Quality::Custom(1000));
    assert_eq!(Quality::decode(1 << 8), Quality::Custom(200));
    assert_eq!(Quality::decode(0xFFF << 8), Quality::Custom(40000));
    assert_eq!(Quality::decode(0), Quality::Custom(200));
    assert_eq!(Quality::Best.ratio(), 1500);
    assert_eq!(Quality::Balanced.ratio(), 1000);
    assert_eq!(Quality::Low.ratio(), 500);
    assert_eq!(Quality::Custom(777).ratio(), 777);
}

#[test]
fn custom_fps_is_an_upper_bound_and_out_of_range_is_dropped() {
    let mut q = VideoQoS::default();
    q.on_connection_open(1, true, 0);
    assert_eq!(q.highest_fps(), 30);
    q.user_custom_fps(1, 20);
    assert_eq!(q.highest_fps(), 20);
    // out-of-range requests leave the prior state unchanged
    q.user_custom_fps(1, 0);
    assert_eq!(q.highest_fps(), 20);
    q.user_custom_fps(1, 121);
    assert_eq!(q.highest_fps(), 20);
    // the client-suggested bound tightens the cap only when smaller
    q.user_auto_adjust_fps(1, 10);
    assert_eq!(q.highest_fps(), 10);
    q.user_auto_adjust_fps(1, 50);
    assert_eq!(q.highest_fps(), 20);
    // unknown viewers are a no-op
    q.user_custom_fps(2, 5);
    assert_eq!(q.highest_fps(), 20);
}

#[test]
fn getters_stay_in_range_even_with_seeded_state() {
    let mut q = VideoQoS::default();
    assert_eq!(q.fps(), 30);
    assert_eq!(q.ratio(), 1000);
    assert_eq!(q.spf(), 33333);
    q.fps = 0;
    assert_eq!(q.fps(), 30);
    q.fps = 121;
    assert_eq!(q.fps(), 30);
    q.fps = 120;
    assert_eq!(q.fps(), 120);
    assert_eq!(q.spf(), 8333);
    q.ratio = 50;
    assert_eq!(q.ratio(), 1000);
    assert_eq!(q.ratio, 1000);
    q.ratio = 40001;
    assert_eq!(q.ratio(), 1000);
    q.ratio = 40000;
    assert_eq!(q.ratio(), 40000);
}

#[test]
fn rising_delays_degrade_health_monotonically() {
    let mut q = VideoQoS::default();
    q.on_connection_open(1, true, 0);
    let delays = [20u32, 40, 80, 160, 320, 700];
    let expected = [
        NetworkHealth::Excellent,
        NetworkHealth::Excellent,
        NetworkHealth::Excellent,
        NetworkHealth::Good,
        NetworkHealth::Fair,
        NetworkHealth::Poor,
    ];
    let mut last_severity = 0u32;
    let mut prev_suggestion: Option<u32> = None;
    for (i, &d) in delays.iter().enumerate() {
        let now = 2000 + (i as u64) * 1000;
        q.user_network_delay(1, d, now, false);
        let h = q.users[0].1.delay.network_health();
        assert_eq!(h, expected[i]);
        assert!(h.severity_level() >= last_severity);
        last_severity = h.severity_level();
        let suggestion = q.users[0].1.delay.fps.unwrap();
        if h.severity_level() >= 3 {
            if let Some(p) = prev_suggestion {
                assert!(suggestion <= p);
            }
        }
        prev_suggestion = Some(suggestion);
    }
}

#[test]
fn poor_health_slows_proportionally_to_delay() {
    let mut q = VideoQoS::default();
    q.on_connection_open(1, true, 0);
    // one sample of 200ms: smoothed 200, poor tier;
    // suggestion = max(10, ceil(30 * 150 / 200)) = 23
    q.user_network_delay(1, 200, 2000, false);
    assert_eq!(q.users[0].1.delay.fps, Some(23));
    assert_eq!(q.fps(), 23);
}

#[test]
fn critical_health_caps_below_the_tier_floor() {
    let mut q = VideoQoS::default();
    q.on_connection_open(1, true, 0);
    // one sample of 700ms: smoothed 700, critical tier;
    // suggestion = min(10, 150 * 10 / 700) = 2
    q.user_network_delay(1, 700, 2000, false);
    assert_eq!(q.users[0].1.delay.fps, Some(2));
    assert_eq!(q.fps(), 2);
}

#[test]
fn closing_the_last_viewer_resets_to_the_default_configuration() {
    let mut q = VideoQoS::default();
    q.on_connection_open(7, false, 100);
    q.user_custom_fps(7, 10);
    q.user_image_quality(7, 4, 500);
    q.user_record(7, true);
    q.new_display(String::from("d0"));
    q.set_support_changing_quality(&String::from("d0"), true);
    q.user_network_delay(7, 50, 1500, true);
    q.store_bitrate(4000);
    q.on_connection_close(7);
    assert_eq!(q.fps, 30);
    assert_eq!(q.fps(), 30);
    assert_eq!(q.ratio, 1000);
    assert!(q.users.is_empty());
    assert!(q.displays.is_empty());
    assert_eq!(q.bitrate(), 0);
    assert!(q.adjust_ratio_ms.is_none());
    assert!(q.new_user_ms.is_none());
    assert!(q.abr_config);
    assert!(q.ratio_history.is_empty());
    assert!(q.fps_history.is_empty());
    assert!(!q.record());
    assert!(q.in_vbr_state());
}

#[test]
fn closing_one_of_two_viewers_keeps_the_rest() {
    let mut q = VideoQoS::default();
    q.on_connection_open(1, true, 0);
    q.on_connection_open(2, true, 0);
    q.user_custom_fps(2, 12);
    q.on_connection_close(1);
    assert_eq!(q.users.len(), 1);
    assert_eq!(q.users[0].0, 2);
    assert_eq!(q.users[0].1.custom_fps, Some(12));
}

#[test]
fn most_recent_quality_preference_wins_regardless_of_viewer_order() {
    let mut q = VideoQoS::default();
    q.on_connection_open(1, true, 0);
    q.on_connection_open(2, true, 0);
    q.user_image_quality(1, 4, 1000);
    q.user_image_quality(2, 2, 500);
    assert_eq!(q.latest_quality(), Quality::Best);
    assert_eq!(q.ratio, 1500);
    q.user_image_quality(2, 3, 2000);
    assert_eq!(q.latest_quality(), Quality::Balanced);
    assert_eq!(q.ratio, 1000);

    // same preferences, insertion order reversed
    let mut q2 = VideoQoS::default();
    q2.on_connection_open(2, true, 0);
    q2.on_connection_open(1, true, 0);
    q2.user_image_quality(2, 2, 500);
    q2.user_image_quality(1, 4, 1000);
    assert_eq!(q2.latest_quality(), Quality::Best);
}

#[test]
fn one_adjustment_pass_never_overshoots_the_guard() {
    let mut q = VideoQoS::default();
    q.on_connection_open(1, true, 0);
    for i in 0..3 {
        q.user_network_delay(1, 10, 100 + i, false);
    }
    q.new_display(String::from("main"));
    q.set_support_changing_quality(&String::from("main"), true);
    assert!(q.in_vbr_state());
    assert_eq!(q.ratio, 1000);
    // dynamic screen under excellent health: nominal multiplier 1.20,
    // but the balanced tier's nominal ratio caps the result at 1.0
    q.update_display_data(&String::from("main"), 6, 5000);
    assert_eq!(q.ratio, 1000);
    assert!(q.ratio <= 1500);
    assert_eq!(q.adjust_ratio_ms, Some(5000));
    // counters were reset by the adjustment pass
    assert_eq!(q.displays[0].1.send_counter, 0);

    // with the best tier preferred and the ratio seeded to 1.0 the same
    // pass steps to 1.2, still under the 1.5 guard
    let mut q2 = VideoQoS::default();
    q2.on_connection_open(1, true, 0);
    q2.user_image_quality(1, 4, 0);
    for i in 0..3 {
        q2.user_network_delay(1, 10, 100 + i, false);
    }
    q2.new_display(String::from("main"));
    q2.set_support_changing_quality(&String::from("main"), true);
    q2.ratio = 1000;
    q2.update_display_data(&String::from("main"), 6, 5000);
    assert_eq!(q2.ratio, 1200);
    assert!(q2.ratio <= 1500);
}

#[test]
fn degraded_health_cuts_the_ratio_multiplicatively() {
    let mut q = VideoQoS::default();
    q.on_connection_open(1, true, 0);
    // smoothed 700: critical tier
    q.user_network_delay(1, 700, 2000, false);
    q.new_display(String::from("main"));
    q.set_support_changing_quality(&String::from("main"), true);
    // critical multiplier 0.75 from the balanced nominal 1.0
    q.update_display_data(&String::from("main"), 1, 6000);
    assert_eq!(q.ratio, 750);
}

#[test]
fn adjustment_waits_for_the_interval() {
    let mut q = VideoQoS::default();
    q.on_connection_open(1, true, 0);
    q.new_display(String::from("main"));
    q.set_support_changing_quality(&String::from("main"), true);
    q.update_display_data(&String::from("main"), 1, 2000);
    assert_eq!(q.adjust_ratio_ms, Some(2000));
    let ratio_after_first = q.ratio;
    // a second tick under three seconds later leaves the ratio alone
    q.update_display_data(&String::from("main"), 1, 4000);
    assert_eq!(q.adjust_ratio_ms, Some(2000));
    assert_eq!(q.ratio, ratio_after_first);
    // and one past the interval adjusts again
    q.update_display_data(&String::from("main"), 1, 5000);
    assert_eq!(q.adjust_ratio_ms, Some(5000));
}

#[test]
fn without_adaptive_bitrate_the_ratio_snaps_to_the_preference() {
    let mut q = VideoQoS::default();
    q.on_connection_open(1, false, 0);
    q.user_image_quality(1, 2, 100);
    assert!(!q.in_vbr_state());
    q.new_display(String::from("d"));
    q.ratio = 700;
    q.update_display_data(&String::from("d"), 1, 4000);
    assert_eq!(q.ratio, 500);
    assert!(q.adjust_ratio_ms.is_none());
}

#[test]
fn best_tier_with_flat_delays_ramps_up_to_the_shared_cap() {
    let mut q = VideoQoS::default();
    q.on_connection_open(1, true, 0);
    q.user_image_quality(1, 4, 0);
    assert_eq!(q.ratio, 1500);
    // the first sample lands inside the ramp-up window
    q.user_network_delay(1, 10, 500, true);
    assert_eq!(q.users[0].1.delay.network_health(), NetworkHealth::Excellent);
    assert_eq!(q.fps(), 15);
    q.user_network_delay(1, 10, 2000, true);
    assert_eq!(q.fps(), 20);
    q.user_network_delay(1, 10, 3000, true);
    assert_eq!(q.fps(), 25);
    q.user_network_delay(1, 10, 4000, true);
    assert_eq!(q.fps(), 30);
    q.user_network_delay(1, 10, 5000, true);
    assert_eq!(q.fps(), 30);
    // the first-decision adjustment pass stayed within the tier bounds
    assert_eq!(q.ratio, 1500);
}

#[test]
fn slow_responses_mark_the_viewer_and_cap_the_rate() {
    let mut q = VideoQoS::default();
    q.on_connection_open(1, true, 0);
    q.user_network_delay(1, 10, 2000, false);
    assert_eq!(q.fps(), 30);
    q.user_delay_response_elapsed(1, 2500, 3000);
    assert!(q.users[0].1.delay.response_delayed);
    assert_eq!(q.fps(), 3);
    // a timely response clears the mark without recomputing the rate
    q.user_delay_response_elapsed(1, 100, 4000);
    assert!(!q.users[0].1.delay.response_delayed);
    assert_eq!(q.fps(), 3);
    // unknown viewers are a no-op
    q.user_delay_response_elapsed(9, 5000, 5000);
    assert_eq!(q.fps(), 3);
}

#[test]
fn reconnecting_a_viewer_discards_its_old_session() {
    let mut q = VideoQoS::default();
    q.on_connection_open(1, true, 0);
    q.user_custom_fps(1, 10);
    q.on_connection_open(1, true, 5);
    assert_eq!(q.users.len(), 1);
    assert!(q.users[0].1.custom_fps.is_none());
}

#[test]
fn display_support_flags_gate_adaptive_bitrate() {
    let mut q = VideoQoS::default();
    q.new_display(String::from("a"));
    q.new_display(String::from("b"));
    assert_eq!(q.displays.len(), 2);
    assert!(!q.in_vbr_state());
    q.set_support_changing_quality(&String::from("a"), true);
    assert!(!q.in_vbr_state());
    q.set_support_changing_quality(&String::from("b"), true);
    assert!(q.in_vbr_state());
    q.remove_display(&String::from("a"));
    assert_eq!(q.displays.len(), 1);
    assert!(q.in_vbr_state());
    // unknown names are a no-op
    q.set_support_changing_quality(&String::from("zzz"), true);
    q.remove_display(&String::from("zzz"));
    assert_eq!(q.displays.len(), 1);
}

#[test]
fn recording_is_visible_while_any_viewer_records() {
    let mut q = VideoQoS::default();
    q.on_connection_open(1, true, 0);
    q.on_connection_open(2, true, 0);
    assert!(!q.record());
    q.user_record(2, true);
    assert!(q.record());
    q.user_record(2, false);
    assert!(!q.record());
    q.user_record(9, true);
    assert!(!q.record());
}

#[test]
fn diagnostic_histories_stay_bounded() {
    let mut q = VideoQoS::default();
    q.on_connection_open(1, true, 0);
    for i in 0..20u64 {
        q.user_network_delay(1, 10, 2000 + i * 10, false);
    }
    assert!(q.fps_history.len() <= 5);
    q.new_display(String::from("d"));
    q.set_support_changing_quality(&String::from("d"), true);
    for i in 0..20u64 {
        q.update_display_data(&String::from("d"), 1, 10_000 + i * 4000);
    }
    assert!(q.ratio_history.len() <= 5);
    assert!(q.fps_history.len() <= 5);
}

#[test]
fn shared_rate_is_the_minimum_across_viewers() {
    let mut q = VideoQoS::default();
    q.on_connection_open(1, true, 0);
    q.on_connection_open(2, true, 0);
    // viewer 1 on a fair network holds the current rate; viewer 2 on a
    // poor one pulls the shared rate down
    q.user_network_delay(1, 120, 2000, false);
    q.user_network_delay(2, 200, 2100, false);
    let s1 = q.users[0].1.delay.fps.unwrap();
    let s2 = q.users[1].1.delay.fps.unwrap();
    assert_eq!(q.fps(), s1.min(s2));
}
