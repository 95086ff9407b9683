use xcm::junction::Junction;
use xcm::multi_location::MultiLocation;

fn j(n: u64) -> Junction {
    Junction::ChildIndex(n)
}

#[test]
fn pushed_with_grows_until_full() {
    let m = MultiLocation::Null;
    let m = m.pushed_with(j(1)).unwrap();
    let m = m.pushed_with(j(2)).unwrap();
    let m = m.pushed_with(j(3)).unwrap();
    let m = m.pushed_with(j(4)).unwrap();
    assert_eq!(m, MultiLocation::X4(j(1), j(2), j(3), j(4)));
}

#[test]
fn pushed_with_on_full_path_returns_input_unchanged() {
    let full = MultiLocation::X4(j(1), j(2), j(3), j(4));
    assert_eq!(full.pushed_with(j(5)), Err(full));
}

#[test]
fn pushed_front_with_grows_at_outer_end() {
    let m = MultiLocation::X2(j(2), j(3));
    assert_eq!(m.pushed_front_with(j(1)).unwrap(), MultiLocation::X3(j(1), j(2), j(3)));
    let full = MultiLocation::X4(j(1), j(2), j(3), j(4));
    assert_eq!(full.pushed_front_with(j(0)), Err(full));
}

#[test]
fn push_and_push_front_mutate_in_place() {
    let mut m = MultiLocation::X1(j(2));
    assert_eq!(m.push(j(3)), Ok(()));
    assert_eq!(m.push_front(j(1)), Ok(()));
    assert_eq!(m, MultiLocation::X3(j(1), j(2), j(3)));
    let mut full = MultiLocation::X4(j(1), j(2), j(3), j(4));
    assert_eq!(full.push(j(5)), Err(()));
    assert_eq!(full.push_front(j(0)), Err(()));
    assert_eq!(full, MultiLocation::X4(j(1), j(2), j(3), j(4)));
}

#[test]
fn push_then_take_last_restores_original() {
    // Pushing onto a path that is not full and then taking the innermost
    // step returns the pushed step and restores the original path.
    let originals = [
        MultiLocation::Null,
        MultiLocation::X1(j(1)),
        MultiLocation::X2(j(1), Junction::Parent),
        MultiLocation::X3(j(1), j(2), j(3)),
    ];
    for original in originals {
        let mut m = original;
        assert_eq!(m.push(j(9)), Ok(()));
        assert_eq!(m.take_last(), Some(j(9)));
        assert_eq!(m, original);
    }
}

#[test]
fn appended_with_joins_paths_in_order() {
    let m = MultiLocation::X2(j(1), j(2));
    let n = MultiLocation::X2(j(3), j(4));
    assert_eq!(m.appended_with(n), Ok(MultiLocation::X4(j(1), j(2), j(3), j(4))));
    let empty = MultiLocation::Null;
    assert_eq!(empty.appended_with(MultiLocation::Null), Ok(MultiLocation::Null));
}

#[test]
fn appended_with_overflow_returns_partial_result() {
    // On overflow the error carries the partial result, filled to length
    // four with the steps written before the failure, not the original path.
    let m = MultiLocation::X3(j(1), j(2), j(3));
    let n = MultiLocation::X2(j(4), j(5));
    let err = m.appended_with(n).unwrap_err();
    assert_eq!(err.len(), 4);
    assert_eq!(err, MultiLocation::X4(j(1), j(2), j(3), j(4)));
    let full = MultiLocation::X4(j(1), j(2), j(3), j(4));
    let err = full.appended_with(MultiLocation::X1(j(5))).unwrap_err();
    assert_eq!(err, full);
}

#[test]
fn prepend_with_collapses_one_pair() {
    // Prefix ending in a non-ascend step against a path beginning with the
    // ascend marker: one step cancels on each side before splicing.
    let a = j(10);
    let b = j(20);
    let c = j(30);
    let mut path = MultiLocation::X2(Junction::Parent, c);
    let prefix = MultiLocation::X2(a, b);
    path.prepend_with(&prefix);
    assert_eq!(path, MultiLocation::X2(a, c));
}

#[test]
fn prepend_with_collapses_repeatedly() {
    let mut path = MultiLocation::X3(Junction::Parent, Junction::Parent, j(9));
    let prefix = MultiLocation::X2(j(1), j(2));
    path.prepend_with(&prefix);
    assert_eq!(path, MultiLocation::X1(j(9)));
}

#[test]
fn prepend_with_does_not_cancel_ascend_against_ascend() {
    let mut path = MultiLocation::X1(Junction::Parent);
    let prefix = MultiLocation::X1(Junction::Parent);
    path.prepend_with(&prefix);
    assert_eq!(path, MultiLocation::X2(Junction::Parent, Junction::Parent));
}

#[test]
fn prepend_with_drops_overflowing_prefix_steps_silently() {
    // Prefix steps that do not fit are dropped outermost-first; the
    // innermost prefix steps survive.
    let mut path = MultiLocation::X3(j(7), j(8), j(9));
    let prefix = MultiLocation::X3(j(1), j(2), j(3));
    path.prepend_with(&prefix);
    assert_eq!(path, MultiLocation::X4(j(3), j(7), j(8), j(9)));
}

#[test]
fn prepend_with_empty_prefix_leaves_path_unchanged() {
    let mut path = MultiLocation::X2(j(1), j(2));
    path.prepend_with(&MultiLocation::Null);
    assert_eq!(path, MultiLocation::X2(j(1), j(2)));
}

#[test]
fn prepend_with_onto_empty_path_copies_prefix() {
    let mut path = MultiLocation::Null;
    let prefix = MultiLocation::X3(j(1), Junction::Parent, j(3));
    path.prepend_with(&prefix);
    assert_eq!(path, MultiLocation::X3(j(1), Junction::Parent, j(3)));
}
