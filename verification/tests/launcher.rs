use bucatini::launcher::{group_thousands, live_text, tray_icon_rgba, DiscoveryOutcome, Launcher};
use bucatini::ndi::Source;
use bucatini::output::{output_kind, Platform};

#[test]
fn groups_thousands_with_commas() {
    assert_eq!(group_thousands(0), "0");
    assert_eq!(group_thousands(42), "42");
    assert_eq!(group_thousands(100), "100");
    assert_eq!(group_thousands(999), "999");
    assert_eq!(group_thousands(1_000), "1,000");
    assert_eq!(group_thousands(1_240), "1,240");
    assert_eq!(group_thousands(1_234_567), "1,234,567");
}

#[test]
fn groups_the_largest_count() {
    assert_eq!(group_thousands(u64::MAX), "18,446,744,073,709,551,615");
    assert_eq!(group_thousands(100_000), "100,000");
}

fn src(name: &str) -> Source {
    Source { name: name.to_string(), url: String::new() }
}

#[test]
fn discovery_then_run_then_stop() {
    let mut l = Launcher::new();
    l.begin_discovery();
    assert_eq!(l.idle_label(), "Searching\u{2026}");
    assert_eq!(l.status, "Searching for NDI sources\u{2026}");
    assert!(!l.can_refresh());
    l.finish_discovery(DiscoveryOutcome::Found(vec![src("Cam A"), src("Cam B")]));
    assert_eq!(l.idle_label(), "Ready");
    assert!(l.can_start() && l.can_choose() && l.can_refresh());
    assert_eq!(l.source_label(), "Cam A");
    l.selected = 1;
    assert_eq!(l.start(), Some(1));
    assert!(!l.can_choose());
    assert_eq!(l.info_line(1240, Platform::MacOs), "Live \u{00B7} 1,240 frames \u{00B7} Syphon \"Cam B\"");
    assert_eq!(
        l.status_lines(1240, Platform::Windows),
        vec!["Live \u{00B7} 1,240 frames".to_string(), "Publishing as Spout \"Cam B\"".to_string()]
    );
    assert_eq!(l.tray_text(7, Platform::Other), "Bucatini \u{2014} Live \u{00B7} 7 frames \u{00B7} shared-texture \"Cam B\"");
    l.stopped(1_234_567);
    assert_eq!(l.idle_label(), "Stopped \u{00B7} 1,234,567 frames");
    assert_eq!(l.status_lines(0, Platform::MacOs), vec!["\u{25CB} Stopped \u{00B7} 1,234,567 frames".to_string()]);
}

#[test]
fn discovery_failures_are_reported() {
    let mut l = Launcher::new();
    l.begin_discovery();
    l.finish_discovery(DiscoveryOutcome::Found(vec![]));
    assert_eq!(l.status, "No NDI sources found.");
    assert_eq!(l.idle_label(), "No NDI sources found");
    assert_eq!(l.source_label(), "(none)");
    assert_eq!(l.start(), None);
    assert!(!l.running);
    l.finish_discovery(DiscoveryOutcome::Failed("NDIlib_initialize failed".to_string()));
    assert_eq!(l.status, "Discovery failed: NDIlib_initialize failed");
    l.finish_discovery(DiscoveryOutcome::Lost);
    assert_eq!(l.status, "Discovery thread exited unexpectedly.");
}

#[test]
fn worker_exit_is_surfaced() {
    let mut l = Launcher::new();
    l.finish_discovery(DiscoveryOutcome::Found(vec![src("X")]));
    assert_eq!(l.start(), Some(0));
    l.worker_exited(Some("NDIlib_recv_create_v3 returned null".to_string()));
    assert!(!l.running);
    assert_eq!(l.idle_label(), "Error: NDIlib_recv_create_v3 returned null");
    l.start();
    l.worker_exited(None);
    assert_eq!(l.info_line(5, Platform::MacOs), "Stopped.");
}

#[test]
fn live_text_groups_count() {
    assert_eq!(live_text(1000), "Live \u{00B7} 1,000 frames");
}

#[test]
fn protocol_names() {
    assert_eq!(output_kind(Platform::MacOs), "Syphon");
    assert_eq!(output_kind(Platform::Windows), "Spout");
    assert_eq!(output_kind(Platform::Other), "shared-texture");
}

#[test]
fn tray_icon_is_solid_accent() {
    let rgba = tray_icon_rgba();
    assert_eq!(rgba.len(), 32 * 32 * 4);
    for px in rgba.chunks(4) {
        assert_eq!(px, &[0x39, 0x96, 0xFF, 0xFF]);
    }
}

#[test]
fn groups_after_the_first_hold_three_digits() {
    for n in [0u64, 7, 12, 999, 1_000, 65_536, 1_234_567, 10_000_000, u64::MAX] {
        let out = group_thousands(n);
        assert_eq!(out.replace(",", ""), n.to_string());
        let groups: Vec<&str> = out.split(',').collect();
        assert!((1..=3).contains(&groups[0].len()));
        for g in &groups[1..] {
            assert_eq!(g.len(), 3);
        }
    }
}
