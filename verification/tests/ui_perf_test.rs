use fsprompt::perf::{over_budget, FrameTimer, MemoryTracker, PerfOverlay, ScopedTimer};
use fsprompt::ui::{
    button_elevation, ButtonSize, ButtonVariant, Elevation, IconManager, IconSize, IconType,
    SegmentedControl, ShadowSpec, TabView,
};
use std::time::Duration;

#[test]
fn icon_sizes_follow_button_sizes() {
    assert_eq!(ButtonSize::Small.icon_size(), IconSize::Small);
    assert_eq!(ButtonSize::Medium.icon_size(), IconSize::Medium);
    assert_eq!(ButtonSize::Large.icon_size(), IconSize::Large);
}

#[test]
fn emoji_fallbacks() {
    let _m = IconManager::new();
    assert_eq!(IconManager::fallback_emoji(IconType::Folder), "📁");
    assert_eq!(IconManager::fallback_emoji(IconType::Config), "⚙");
    assert_eq!(IconManager::fallback_emoji(IconType::Settings), "⚙");
    assert_eq!(IconManager::fallback_emoji(IconType::Close), "×");
    assert_eq!(IconManager::fallback_emoji(IconType::Filter), "🔽");
}

#[test]
fn shadows_by_elevation() {
    assert_eq!(
        Elevation::Level0.shadow(true),
        ShadowSpec { offset_x: 0, offset_y: 0, blur: 0, spread: 0, alpha: 0 }
    );
    assert_eq!(
        Elevation::Level1.shadow(true),
        ShadowSpec { offset_x: 0, offset_y: 1, blur: 3, spread: 0, alpha: 80 }
    );
    assert_eq!(
        Elevation::Level5.shadow(false),
        ShadowSpec { offset_x: 0, offset_y: 8, blur: 24, spread: 0, alpha: 45 }
    );
}

#[test]
fn button_elevations() {
    assert_eq!(button_elevation(ButtonVariant::Primary, false, true, true), Elevation::Level0);
    assert_eq!(button_elevation(ButtonVariant::GhostStyle, true, true, false), Elevation::Level2);
    assert_eq!(button_elevation(ButtonVariant::Primary, true, false, true), Elevation::Level3);
    assert_eq!(button_elevation(ButtonVariant::Danger, true, false, true), Elevation::Level2);
    assert_eq!(button_elevation(ButtonVariant::Primary, true, false, false), Elevation::Level2);
    assert_eq!(button_elevation(ButtonVariant::Secondary, true, false, false), Elevation::Level1);
}

#[test]
fn segmented_control_builder() {
    let c = SegmentedControl::new(TabView::Files)
        .option(TabView::Files, "Files".to_string(), Some(IconType::Folder))
        .option(TabView::Output, "Output".to_string(), None)
        .size(ButtonSize::Small);
    assert_eq!(*c.selected(), TabView::Files);
    assert_eq!(c.control_size(), ButtonSize::Small);
    assert_eq!(c.options().len(), 2);
    assert_eq!(c.options()[1].1, "Output");
    assert_eq!(SegmentedControl::new(1u8).control_size(), ButtonSize::Medium);
}

#[test]
fn test_frame_timer() {
    let mut timer = FrameTimer::default();
    let mut now = 1_000_000u64;
    for i in 0..30u64 {
        timer.record_frame(now);
        now += 100 + i;
    }
    let stats = timer.stats();
    assert_eq!(stats.count, 29);
    let avg_fps = stats.count as f64 * 1_000_000.0 / stats.total_micros as f64;
    assert!(avg_fps > 0.0);
    assert!(stats.max_micros >= stats.p50_micros);
    assert_eq!(stats.p50_micros, 100 + 14);
    assert_eq!(stats.max_micros, 128);
}

#[test]
fn frame_window_wraps_around() {
    let mut timer = FrameTimer::default();
    timer.record_frame(10);
    for k in 1..=130u64 {
        timer.record_frame(10 + 5 * k);
    }
    let stats = timer.stats();
    assert_eq!(stats.count, 120);
    assert_eq!(stats.total_micros, 600);
    assert_eq!((stats.p50_micros, stats.p95_micros, stats.p99_micros), (5, 5, 5));
}

#[test]
fn frame_timer_ignores_clock_going_back() {
    let mut timer = FrameTimer::default();
    timer.record_frame(100);
    timer.record_frame(50);
    timer.record_frame(70);
    let stats = timer.stats();
    assert_eq!(stats.count, 1);
    assert_eq!(stats.max_micros, 20);
    assert_eq!(FrameTimer::default().stats().count, 0);
}

#[test]
fn test_scoped_timer() {
    let timer = ScopedTimer::with_budget("test", Duration::from_millis(10));
    assert_eq!(timer.name(), "test");
    assert_eq!(timer.budget(), Some(Duration::from_millis(10)));
    let plain = ScopedTimer::new("plain");
    assert_eq!(plain.budget(), None);
}

#[test]
fn memory_growth_saturates() {
    let m = MemoryTracker::new(1000);
    assert_eq!(m.growth_bytes(1500), 500);
    assert_eq!(m.growth_bytes(900), 0);
}

#[test]
fn overlay_toggles() {
    let mut o = PerfOverlay::new(0, false);
    assert!(!o.is_shown());
    o.toggle();
    assert!(o.is_shown());
    o.frame_start();
    o.frame_start();
    assert!(o.frame_timer().stats().count <= 1);
}

#[test]
fn a_budget_is_overrun_only_when_exceeded() {
    assert!(over_budget(16_000_001, 16_000_000));
    assert!(!over_budget(16_000_000, 16_000_000));
    assert!(!over_budget(0, 1));
    let t = ScopedTimer::with_budget("render", Duration::from_millis(16));
    assert!(!over_budget(t.start().elapsed().as_nanos(), Duration::from_secs(3600).as_nanos()));
}
