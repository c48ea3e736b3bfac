use rust_thread_demo::lazy::LazySlot;
use rust_thread_demo::once::OnceSlot;

#[test]
fn once_slot_first_set_succeeds() {
    let mut cell = OnceSlot::new();
    assert_eq!(cell.get(), None);
    assert_eq!(cell.set(42), Ok(()));
    assert_eq!(cell.get(), Some(&42));
}

#[test]
fn once_slot_second_set_is_refused() {
    let mut cell = OnceSlot::new();
    assert_eq!(cell.set(42), Ok(()));
    assert_eq!(cell.set(99), Err(99));
    assert_eq!(cell.get(), Some(&42));
}

#[test]
fn once_slot_exactly_one_of_many_wins() {
    let mut cell = OnceSlot::new();
    let results: Vec<Result<(), usize>> = vec![42, 100, 7].into_iter().map(|v| cell.set(v)).collect();
    assert_eq!(results, vec![Ok(()), Err(100), Err(7)]);
    assert_eq!(cell.get(), Some(&42));
}

#[test]
fn lazy_slot_runs_initialiser_once() {
    let mut lazy = LazySlot::new();
    let mut runs = 0;
    let first = *lazy.get_or_init(|| {
        runs += 1;
        42
    });
    assert_eq!(first, 42);
    let second = *lazy.get_or_init(|| {
        runs += 1;
        7
    });
    assert_eq!(second, 42);
    assert_eq!(runs, 1);
}
