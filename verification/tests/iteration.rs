use xcm::junction::Junction;
use xcm::multi_location::MultiLocation;

fn j(n: u64) -> Junction {
    Junction::ChildIndex(n)
}

fn sample_paths() -> Vec<MultiLocation> {
    vec![
        MultiLocation::Null,
        MultiLocation::X1(j(1)),
        MultiLocation::X2(j(1), Junction::Parent),
        MultiLocation::X3(j(1), j(2), j(3)),
        MultiLocation::X4(j(1), j(2), j(3), j(4)),
    ]
}

#[test]
fn owned_forward_yields_len_items_in_order() {
    for m in sample_paths() {
        let expected: Vec<Junction> = (0..m.len()).map(|i| *m.at(i).unwrap()).collect();
        let mut it = m.into_iter();
        let mut seen = Vec::new();
        while let Some(step) = it.next() {
            seen.push(step);
        }
        assert_eq!(seen.len(), m.len());
        assert_eq!(seen, expected);
        assert_eq!(it.next(), None);
    }
}

#[test]
fn owned_reverse_yields_len_items_in_reverse_order() {
    for m in sample_paths() {
        let mut expected: Vec<Junction> = (0..m.len()).map(|i| *m.at(i).unwrap()).collect();
        expected.reverse();
        let mut it = m.into_iter_rev();
        let mut seen = Vec::new();
        while let Some(step) = it.next() {
            seen.push(step);
        }
        assert_eq!(seen.len(), m.len());
        assert_eq!(seen, expected);
        assert_eq!(it.next(), None);
    }
}

#[test]
fn borrowed_forward_yields_len_items_in_order() {
    for m in sample_paths() {
        let expected: Vec<Junction> = (0..m.len()).map(|i| *m.at(i).unwrap()).collect();
        let mut it = m.iter();
        let mut seen = Vec::new();
        while let Some(step) = it.next() {
            seen.push(*step);
        }
        assert_eq!(seen.len(), m.len());
        assert_eq!(seen, expected);
        assert!(it.next().is_none());
    }
}

#[test]
fn borrowed_reverse_yields_len_items_in_reverse_order() {
    for m in sample_paths() {
        let mut expected: Vec<Junction> = (0..m.len()).map(|i| *m.at(i).unwrap()).collect();
        expected.reverse();
        let mut it = m.iter_rev();
        let mut seen = Vec::new();
        while let Some(step) = it.next() {
            seen.push(*step);
        }
        assert_eq!(seen.len(), m.len());
        assert_eq!(seen, expected);
        assert!(it.next().is_none());
    }
}

#[test]
fn into_vec_drains_each_iterator() {
    let m = MultiLocation::X3(j(1), j(2), j(3));
    assert_eq!(m.into_iter().into_vec(), vec![j(1), j(2), j(3)]);
    assert_eq!(m.into_iter_rev().into_vec(), vec![j(3), j(2), j(1)]);
    assert_eq!(m.iter().into_vec(), vec![j(1), j(2), j(3)]);
    assert_eq!(m.iter_rev().into_vec(), vec![j(3), j(2), j(1)]);
    assert_eq!(MultiLocation::Null.into_iter().into_vec(), Vec::<Junction>::new());
}

#[test]
fn partially_consumed_iterator_drains_the_remainder() {
    let m = MultiLocation::X3(j(1), j(2), j(3));
    let mut it = m.into_iter();
    assert_eq!(it.next(), Some(j(1)));
    assert_eq!(it.into_vec(), vec![j(2), j(3)]);
}
