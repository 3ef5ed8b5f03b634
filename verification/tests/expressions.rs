use pax_carbon::api::EasingCurve;
use pax_carbon::expressions::PropertyExpression;

#[test]
fn new_expression_holds_default_and_no_transition() {
    let mut p: PropertyExpression<u32> = PropertyExpression::new(7);
    assert_eq!(p.id, 7);
    assert_eq!(*p.get(), 0);
    assert!(p.transition_manager.value.is_none());
    assert!(p.transition_manager.queue.is_empty());
    assert_eq!(p._get_vtable_id(), Some(7));
    assert!(p._get_transition_manager().is_none());
}

#[test]
fn set_then_get_returns_the_value() {
    let mut p: PropertyExpression<i64> = PropertyExpression::new(1);
    p.set(-42);
    assert_eq!(*p.get(), -42);
    p.set(5);
    assert_eq!(*p.get(), 5);
    assert_eq!(p.id, 1);
}

#[test]
fn get_mut_writes_through() {
    let mut p: PropertyExpression<u8> = PropertyExpression::new(3);
    *p.get_mut() = 9;
    assert_eq!(*p.get(), 9);
}

#[test]
fn ease_to_replaces_the_queue() {
    let mut p: PropertyExpression<u32> = PropertyExpression::new(0);
    p.set(10);
    p.ease_to_later(20, 5, EasingCurve::Linear);
    p.ease_to_later(30, 5, EasingCurve::Linear);
    assert_eq!(p.transition_manager.queue.len(), 2);
    p.ease_to(100, 60, EasingCurve::OutBack);
    assert_eq!(p.transition_manager.queue.len(), 1);
    let e = &p.transition_manager.queue[0];
    assert_eq!(e.starting_value, 10);
    assert_eq!(e.ending_value, 100);
    assert_eq!(e.duration_frames, 60);
    assert_eq!(e.curve, EasingCurve::OutBack);
    assert!(e.global_frame_started.is_none());
    assert_eq!(p.transition_manager.value, Some(10));
    assert_eq!(*p.get(), 10);
}

#[test]
fn ease_to_later_appends_and_keeps_the_transition_value() {
    let mut p: PropertyExpression<u32> = PropertyExpression::new(0);
    p.set(4);
    p.ease_to_later(8, 10, EasingCurve::InQuad);
    assert_eq!(p.transition_manager.value, Some(4));
    p.set(6);
    p.ease_to_later(12, 20, EasingCurve::OutQuad);
    assert_eq!(p.transition_manager.value, Some(4));
    assert_eq!(p.transition_manager.queue.len(), 2);
    assert_eq!(p.transition_manager.queue[0].ending_value, 8);
    assert_eq!(p.transition_manager.queue[1].starting_value, 6);
    assert_eq!(p.transition_manager.queue[1].ending_value, 12);
    assert_eq!(p.transition_manager.queue[1].duration_frames, 20);
}

#[test]
fn transition_manager_is_exposed_while_animating() {
    let mut p: PropertyExpression<u32> = PropertyExpression::new(2);
    p.ease_to(3, 1, EasingCurve::InOutBack);
    let m = p._get_transition_manager().expect("animating");
    assert_eq!(m.queue.len(), 1);
    m.value = None;
    assert!(p._get_transition_manager().is_none());
}
