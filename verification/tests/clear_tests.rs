use nano9::clear::{clear_plan, latest_clear, ClearAction, Clearable, DrawCounter};

#[test]
fn test0() {
    let mut counter = DrawCounter::new(0);
    assert_eq!(counter.increment(), 0);
    assert_eq!(counter.increment(), 1);
    assert_eq!(counter.get(), 2);
}

#[test]
fn counter_notes_wrapping() {
    let mut counter = DrawCounter::new(usize::MAX);
    assert_eq!(counter.increment(), usize::MAX);
    assert!(!counter.overflowed());
    assert_eq!(counter.increment(), 0);
    assert!(counter.overflowed());
    counter.reset_overflowed();
    assert!(!counter.overflowed());
    assert_eq!(DrawCounter::default().get(), 1);
}

#[test]
fn clears_hide_then_despawn() {
    let mut counter = DrawCounter::default();
    let a = Clearable::new(0, &mut counter);
    let b = Clearable::new(2, &mut counter).with_hash(99);
    let ceiling = counter.get();
    let c = Clearable::new(0, &mut counter);
    assert_eq!(b.hash, Some(99));
    let plan = clear_plan(&[a, b, c], ceiling);
    assert_eq!(
        plan,
        vec![ClearAction::Despawn, ClearAction::Hide { time_to_live: 1 }, ClearAction::Keep]
    );
    assert_eq!(latest_clear(&[3, 9, 4]), Some(9));
    assert_eq!(latest_clear(&[]), None);
}
