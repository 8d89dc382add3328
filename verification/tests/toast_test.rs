use fsprompt::toast::{Toast, ToastManager, ToastVariant};

#[test]
fn variants_have_icons_and_lifetimes() {
    assert_eq!(ToastVariant::Success.icon(), "✓");
    assert_eq!(ToastVariant::Warning.icon(), "⚠");
    assert_eq!(ToastVariant::Error.icon(), "✕");
    assert_eq!(ToastVariant::Success.dismiss_millis(), 2000);
    assert_eq!(ToastVariant::Warning.dismiss_millis(), 3000);
    assert_eq!(ToastVariant::Error.dismiss_millis(), 4000);
}

#[test]
fn one_toast_at_a_time() {
    let mut m = ToastManager::new();
    assert!(m.current().is_none());
    m.success("saved".to_string());
    m.info("note".to_string());
    let t = m.current().unwrap();
    assert_eq!(t.message, "note");
    assert_eq!(t.variant, ToastVariant::Warning);
    m.dismiss();
    assert!(m.current().is_none());
}

#[test]
fn toasts_expire_by_variant() {
    let t = Toast::error("e".to_string());
    assert!(!t.expired_after(3999));
    assert!(t.expired_after(4000));
    assert!(!t.should_dismiss());
    let mut m = ToastManager::new();
    m.success("ok".to_string());
    m.update_after(1999);
    assert!(m.current().is_some());
    m.update_after(2000);
    assert!(m.current().is_none());
    m.update();
    assert!(m.current().is_none());
}
