use fosolid::Action;
use std::cell::Cell;

#[test]
fn test_simple_print() {
    let a = Action::new(|| println!("From action"));
    let a = a.then_map(|_| println!("Second print"));
    println!("From regular scope");
    a.unwrap();
}

#[test]
fn construction_defers_execution() {
    let count = Cell::new(0u32);
    let a = Action::new(|| {
        count.set(count.get() + 1);
        41u32
    });
    assert_eq!(count.get(), 0);
    let b = a.then_map(|x| x + 1);
    assert_eq!(count.get(), 0);
    let v = b.unwrap();
    assert_eq!(v, 42);
    assert_eq!(count.get(), 1);
}

#[test]
fn force_returns_thunk_value() {
    let a = Action::new(|| 7u32);
    assert_eq!(a.unwrap(), 7);
}

#[test]
fn then_map_applies_after_force() {
    let g = |x: u32| x * 3;
    let a = Action::new(|| 14u32);
    let b = Action::new(|| 14u32);
    assert_eq!(a.then_map(g).unwrap(), g(b.unwrap()));
}

#[test]
fn chain_forces_inner_action_in_full() {
    let a = Action::new(|| 1u32);
    let b = a.chain(|x: u32| Action::new(move || x + 1));
    let c = b.chain(|y: u32| Action::new(move || y * 10));
    assert_eq!(c.unwrap(), 20);
}

#[test]
fn chain_is_associative() {
    let f = |x: u32| Action::new(move || x + 1);
    let g = |y: u32| Action::new(move || y * 10);
    let left = Action::new(|| 1u32).chain(f).chain(g).unwrap();
    let right = Action::new(|| 1u32).chain(|x: u32| f(x).chain(g)).unwrap();
    assert_eq!(left, right);
    assert_eq!(left, 20);
}

#[test]
fn into_preserves_value() {
    let a = Action::new(|| 5u8);
    let v = a.into::<u32>().unwrap();
    assert_eq!(v, 5u32);
}

#[test]
fn try_into_in_range_succeeds() {
    let a = Action::new(|| 5u32);
    assert_eq!(a.try_into::<u8>().unwrap(), Ok(5u8));
}

#[test]
fn try_into_out_of_range_is_a_failure_value() {
    let a = Action::new(|| 300u32);
    let r = a.try_into::<u8>().unwrap();
    assert!(r.is_err());
}
