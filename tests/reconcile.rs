use seula::reconcile::{reconcile_presence, refresh_installed};
use seula::report::SampleRow;

#[test]
fn presence_pass_counts_changes() {
    let mut cached = vec![true, false, true, false];
    let observed = vec![true, true, false, false];
    let r = reconcile_presence(&mut cached, &observed);
    assert_eq!(cached, observed);
    assert_eq!(r.total_checked, 4);
    assert_eq!(r.now_present, 1);
    assert_eq!(r.now_missing, 1);
    assert_eq!(r.unchanged, 2);
}

#[test]
fn plugin_refresh_counts_changes() {
    let mut installed = vec![false, false];
    let r = refresh_installed(&mut installed, &vec![true, true]);
    assert_eq!(installed, vec![true, true]);
    assert_eq!(r.total_plugins_checked, 2);
    assert_eq!(r.plugins_now_installed, 2);
    assert_eq!(r.plugins_now_missing, 0);
    assert_eq!(r.plugins_unchanged, 0);
    let r = refresh_installed(&mut Vec::new(), &Vec::new());
    assert_eq!(r.total_plugins_checked, 0);
}

#[test]
fn sample_status_text() {
    assert_eq!(SampleRow::status_of(true), "Present");
    assert_eq!(SampleRow::status_of(false), "Missing");
}
