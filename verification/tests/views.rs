use snap_buf::{Snap, SnapError};

#[test]
fn snap() {
    let snap = Snap::new(vec![0, 1, 2, 3]);
    let (left, right) = snap.snap(2).unwrap();

    assert_eq!(left[..], [0, 1]);
    assert_eq!(right[..], [2, 3]);
}

#[test]
fn double_snap() {
    let snap = Snap::new(vec![0, 1, 2, 3]);
    let (left, right) = snap.snap(2).unwrap();
    let (left, middle) = left.snap(1).unwrap();

    assert_eq!(left[..], [0]);
    assert_eq!(middle[..], [1]);
    assert_eq!(right[..], [2, 3]);
}

#[test]
fn snap_empty_left() {
    let snap = Snap::new(vec![0, 1, 2, 3]);
    let (_, snap) = snap.snap(4).unwrap();
    assert_eq!(snap[..], []);
}

#[test]
fn snap_empty_right() {
    let snap = Snap::new(vec![0, 1, 2, 3]);
    let (snap, _) = snap.snap(0).unwrap();
    assert_eq!(snap[..], []);
}

#[test]
#[should_panic(expected = "`snap`-ing out of range")]
fn snap_out_of_range() {
    let snap = Snap::new(vec![0, 1, 2, 3]);
    snap.snap(8).expect("`snap`-ing out of range");
}

#[test]
fn merge() {
    let snap = Snap::new(vec![0, 1, 2, 3]);
    let (left, right) = snap.snap(2).unwrap();

    let snap = Snap::merge(left, right).unwrap();
    assert_eq!(snap[..], [0, 1, 2, 3]);
}

#[test]
#[should_panic(expected = "merging `Snaps` of different origins")]
fn merge_snaps_different_origins() {
    let snap = Snap::new(vec![0, 1, 2, 3]);
    let snap_prime = Snap::new(vec![0, 1, 2, 3]);

    let (left, _right) = snap.snap(2).unwrap();
    let (_left, right) = snap_prime.snap(2).unwrap();
    match Snap::merge(left, right) {
        Err(SnapError::DifferentOrigins) => panic!("merging `Snaps` of different origins"),
        _ => {}
    }
}

#[test]
#[should_panic]
fn merge_swapped() {
    let snap = Snap::new(vec![0, 1, 2, 3]);
    let (left, right) = snap.snap(2).unwrap();
    let _ = Snap::merge(right, left).unwrap();
}

#[test]
#[should_panic]
fn merge_gap() {
    let snap = Snap::new(vec![0, 1, 2, 3]);
    let (left, right) = snap.snap(2).unwrap();
    let (left, _) = left.snap(1).unwrap();
    let _ = Snap::merge(left, right).unwrap();
}

#[test]
fn len() {
    let snap = Snap::new(vec![0, 1, 2, 3]);
    assert_eq!(snap.len(), 4);

    let (left, right) = snap.snap(2).unwrap();
    assert_eq!(left.len(), 2);
    assert_eq!(right.len(), 2);
}

#[test]
fn is_complete() {
    let snap = Snap::new(vec![0, 1, 2, 3]);
    assert!(snap.is_complete());

    let (left, right) = snap.snap(2).unwrap();
    assert!(!left.is_complete());
    assert!(!right.is_complete());

    let snap = Snap::new(vec![0, 1, 2, 3]);
    let (snap, _) = snap.snap(4).unwrap();
    assert!(snap.is_complete());
}

#[test]
fn range() {
    let snap = Snap::new(vec![0, 1, 2, 3]);
    let (left, right) = snap.snap(2).unwrap();
    assert_eq!(*left.range(), 0..2);
    assert_eq!(*right.range(), 2..4);
}

#[test]
fn get() {
    let snap = Snap::new(vec![0, 1, 2, 3]);

    for i in 0..3 {
        assert_eq!(snap.get(i), Some(&[0, 1, 2, 3][i]));
    }
}

#[test]
fn get_non_existant() {
    let snap = Snap::new(vec![0, 1, 2, 3]);

    for i in 4..9 {
        assert_eq!(snap.get(i), None);
    }
}

#[test]
fn get_mut() {
    let mut snap = Snap::new(vec![0, 1, 2, 3]);

    for i in 0..3 {
        *snap.get_mut(i).unwrap() += 1;
        assert_eq!(snap[i], [1, 2, 3, 4][i]);
    }
}

#[test]
fn unwrap() {
    let snap = Snap::new(vec![0, 1, 2, 3]);
    let vec = snap.try_unwrap();
    assert!(vec.is_ok());
}

#[test]
fn unwrap_snapped() {
    let snap = Snap::new(vec![0, 1, 2, 3]);
    let (left, _right) = snap.snap(2).unwrap();

    let vec = left.try_unwrap();
    assert!(vec.is_err());
}

#[test]
fn iter() {
    let snap = Snap::new(vec![0, 1, 2, 3]);
    assert!(snap.iter().zip([0, 1, 2, 3].iter()).all(|(l, r)| l == r));
}

#[test]
fn iter_mut() {
    let mut snap = Snap::new(vec![0, 1, 2, 3]);

    for i in snap.as_mut_slice().unwrap().iter_mut() {
        *i += 1;
    }

    assert!(snap.iter().zip([1, 2, 3, 4].iter()).all(|(l, r)| l == r));
}

#[test]
fn chunks_balanced() {
    let snap = Snap::new(vec![0, 1, 2, 3, 4, 5, 6, 7, 8, 9, 10, 11, 12, 13, 14, 15]);
    let chunks = snap.chunks(4).unwrap();

    assert_eq!(chunks.len(), 4);

    assert_eq!(*chunks[0].range(), 0..4);
    assert_eq!(*chunks[1].range(), 4..8);
    assert_eq!(*chunks[2].range(), 8..12);
    assert_eq!(*chunks[3].range(), 12..16);
}

#[test]
fn chunks_unbalanced() {
    let snap = Snap::new(vec![0, 1, 2, 3, 4, 5, 6, 7, 8, 9, 10, 11, 12, 13, 14, 15]);
    let chunks = snap.chunks(5).unwrap();

    assert_eq!(chunks.len(), 4);

    assert_eq!(*chunks[0].range(), 0..5);
    assert_eq!(*chunks[1].range(), 5..10);
    assert_eq!(*chunks[2].range(), 10..15);
    assert_eq!(*chunks[3].range(), 15..16);
}
