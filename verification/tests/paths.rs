use pathtrace::path::PathControl;

#[test]
fn background_hit_ends_the_path_at_once() {
    for max_bounces in [1u32, 2, 8, 1000] {
        let mut ctrl = PathControl::new(max_bounces);
        assert!(!ctrl.finished);
        let cont = ctrl.on_hit(0);
        assert!(!cont);
        assert!(ctrl.finished);
        assert_eq!(ctrl.bounces_done, 1);
    }
}

#[test]
fn reflective_hits_spend_the_budget() {
    let mut ctrl = PathControl::new(3);
    assert!(ctrl.on_hit(2));
    assert!(ctrl.on_hit(1));
    assert!(!ctrl.on_hit(2));
    assert!(ctrl.finished);
    assert_eq!(ctrl.bounces_done, 3);
}

#[test]
fn background_after_a_bounce_ends_the_path() {
    let mut ctrl = PathControl::new(8);
    assert!(ctrl.on_hit(2));
    assert!(!ctrl.on_hit(0));
    assert!(ctrl.finished);
    assert_eq!(ctrl.bounces_done, 2);
}

#[test]
fn zero_budget_starts_finished() {
    let ctrl = PathControl::new(0);
    assert!(ctrl.finished);
    assert_eq!(ctrl.bounces_done, 0);
}
