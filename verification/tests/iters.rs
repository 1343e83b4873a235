use fungus::errors::IterError;
use fungus::iter::{abs_indices, consume, drop, first, first_result, last_result, single, slice, some};
use fungus::option::OptionExt;
use fungus::path::{components, Component};

fn v() -> Vec<i32> {
    vec![0, 1, 2, 3]
}

#[test]
fn test_slice() {
    // Both negative
    assert!(slice(v(), -1, -5).is_empty()); // right out of bounds negatively consumes all
    assert_eq!(vec![0, 1, 2, 3], slice(v(), -4, -1)); // get all
    assert_eq!(vec![0, 1, 2], slice(v(), -4, -2)); // get all but last
    assert_eq!(vec![0, 1], slice(v(), -4, -3)); // get all but last 2
    assert_eq!(vec![3], slice(v(), -1, -1)); // get last
    assert_eq!(vec![2], slice(v(), -2, -2)); // get index 2
    assert_eq!(vec![1], slice(v(), -3, -3)); // get index 1
    assert_eq!(vec![0], slice(v(), -4, -4)); // get first
    assert_eq!(vec![1, 2, 3], slice(v(), -3, -1)); // get all but first
    assert_eq!(vec![1, 2], slice(v(), -3, -2)); // get middle
    assert!(slice(v(), -1, -2).is_empty()); // mutually exclusive consumes everything

    // Both positive
    assert_eq!(vec![0, 1, 2, 3], slice(v(), 0, 4)); // right out of bounds positively gets moved in
    assert_eq!(vec![0, 1, 2, 3], slice(v(), 0, 3)); // get all
    assert_eq!(vec![0, 1, 2], slice(v(), 0, 2)); // get all but last
    assert_eq!(vec![0, 1], slice(v(), 0, 1)); // get all but last 2
    assert_eq!(vec![3], slice(v(), 3, 3)); // get last
    assert_eq!(vec![2], slice(v(), 2, 2)); // get index 2
    assert_eq!(vec![1], slice(v(), 1, 1)); // get index 1
    assert_eq!(vec![0], slice(v(), 0, 0)); // get first
    assert_eq!(vec![1, 2, 3], slice(v(), 1, 3)); // get all but first
    assert_eq!(vec![1, 2], slice(v(), 1, 2)); // get middle
    assert!(slice(v(), 3, 2).is_empty()); // mutually exclusive consumes everything
    assert!(slice(v(), 4, 3).is_empty()); // left out of bounds consumes everything

    // Left postive and right negative
    assert!(slice(v(), 0, -5).is_empty()); // right out of bounds negatively consumes all
    assert_eq!(vec![0, 1, 2, 3], slice(v(), 0, -1)); // get all
    assert_eq!(vec![0, 1, 2], slice(v(), 0, -2)); // get all but last
    assert_eq!(vec![0, 1], slice(v(), 0, -3)); // get all but last 2
    assert_eq!(vec![3], slice(v(), 3, -1)); // get last
    assert_eq!(vec![2], slice(v(), 2, -2)); // get index 2
    assert_eq!(vec![1], slice(v(), 1, -3)); // get index 1
    assert_eq!(vec![0], slice(v(), 0, -4)); // get first
    assert_eq!(vec![1, 2, 3], slice(v(), 1, -1)); // get all but first
    assert_eq!(vec![1, 2], slice(v(), 1, -2)); // get middle
    assert!(slice(v(), 3, -2).is_empty()); // mutually exclusive consumes everything
    assert!(slice(v(), 4, -1).is_empty()); // left out of bounds consumes everything
}

#[test]
fn slice_with_right_index_zero() {
    // Only the first item lies from index 0 through index 0.
    assert_eq!(vec![5], slice(vec![5, 6], 0, 0));
    assert_eq!(vec![0], slice(v(), -4, 0));
    // Index 2 lies past index 0: the indices are mutually exclusive.
    assert!(slice(v(), 2, 0).is_empty());
    assert!(slice(v(), -5, 0).is_empty());
    assert_eq!(Vec::<i32>::new(), slice(Vec::<i32>::new(), 0, 0));
}

#[test]
fn test_consume() {
    assert_eq!(vec![0].into_iter().nth(0), Some(0));
    assert_eq!(consume(vec![0, 1, 2]).into_iter().nth(0), None);
}

#[test]
fn test_drop() {
    // Start
    assert_eq!(vec![2, 3], drop(vec![1, 2, 3], 1));
    assert_eq!(components("bar"), drop(components("foo/bar"), 1));
    assert_eq!(components("bar"), drop(components("/foo/bar"), 2));

    // End
    assert_eq!(vec![1, 2], drop(vec![1, 2, 3], -1));
    assert_eq!(1, drop(vec![1, 2, 3], -1)[0]);
    assert_eq!(components("foo"), drop(components("foo/bar"), -1));
    assert_eq!(components("/"), drop(components("/foo/bar"), -2));
}

#[test]
fn drop_more_than_all() {
    assert!(drop(vec![1, 2, 3], 5).is_empty());
    assert!(drop(vec![1, 2, 3], -5).is_empty());
    assert_eq!(vec![1, 2, 3], drop(vec![1, 2, 3], 0));
}

#[test]
fn iter_test_first() {
    assert_eq!(Component::Normal("foo".to_string()), first(components("foo/bar")).unwrap());
    assert_ne!(Component::Normal("bar".to_string()), first(components("foo/bar")).unwrap());
    assert_eq!(None, first(Vec::<i32>::new()));
}

#[test]
fn iter_test_first_result() {
    assert_eq!(Component::Normal("foo".to_string()), first_result(components("foo/bar")).unwrap());
    assert_ne!(Component::Normal("bar".to_string()), first_result(components("foo/bar")).unwrap());
    assert_eq!(Err(IterError::ItemNotFound), first_result(Vec::<i32>::new()));
}

#[test]
fn iter_test_last_result() {
    assert_eq!(Component::Normal("bar".to_string()), last_result(components("foo/bar")).unwrap());
    assert_ne!(Component::Normal("foo".to_string()), last_result(components("foo/bar")).unwrap());
    assert_eq!(Err(IterError::ItemNotFound), last_result(Vec::<i32>::new()));
}

#[test]
fn iter_test_single() {
    let twos: Vec<i32> = (0..10).filter(|&x| x == 2).collect();
    assert_eq!(single(twos).unwrap(), 2);
    let many: Vec<i32> = (0..10).filter(|&x| x > 2).collect();
    assert_eq!(single(many).unwrap_err(), IterError::multiple_items_found());
    let some_: Vec<i32> = (0..10).filter(|&x| x > 2 && x < 5).collect();
    assert_eq!(single(some_).unwrap_err(), IterError::multiple_items_found());
    assert_eq!(single(Vec::<i32>::new()).unwrap_err(), IterError::item_not_found());
}

#[test]
fn test_some() {
    let twos: Vec<i32> = (0..10).filter(|&x| x == 2).collect();
    assert_eq!(some(&twos), true);
    let elevens: Vec<i32> = (0..10).filter(|&x| x == 11).collect();
    assert_eq!(some(&elevens), false);
}

#[test]
fn abs_indices_of_positive_and_negative() {
    let r = abs_indices(4, 0, -1).unwrap();
    assert_eq!((r.i, r.j), (0, 4));
    let r = abs_indices(4, -3, -2).unwrap();
    assert_eq!((r.i, r.j), (1, 3));
    let r = abs_indices(4, 1, 9).unwrap();
    assert_eq!((r.i, r.j), (1, 4));
    let r = abs_indices(4, -9, 2).unwrap();
    assert_eq!((r.i, r.j), (0, 3));
    // A start past the end is moved in: the range is empty.
    let r = abs_indices(4, 6, 7).unwrap();
    assert_eq!((r.i, r.j), (4, 4));
    let r = abs_indices(4, -9, -8).unwrap();
    assert_eq!((r.i, r.j), (0, 0));
    assert_eq!(abs_indices(4, 3, 2).unwrap_err(), IterError::MutuallyExclusiveIndicies);
    assert_eq!(abs_indices(4, 0, -5).unwrap_err(), IterError::MutuallyExclusiveIndicies);
}

#[test]
fn test_has() {
    assert!(Some(Component::ParentDir).has(Component::ParentDir));
    assert_eq!(Some(Component::ParentDir).has(Component::ParentDir), true);
    assert_eq!(None.has(Component::ParentDir), false);
    assert_eq!(Some(Component::CurDir).has(Component::ParentDir), false);
}

#[test]
fn option_has_number() {
    let x: Option<u32> = Some(2);
    assert!(x.has(2));
    let x: Option<u32> = Some(3);
    assert!(!x.has(2));
    let x: Option<u32> = None;
    assert!(!x.has(2));
}
