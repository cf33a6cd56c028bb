use rusty_life::cell_array::CellArray;
use rusty_life::rules::step_cell;

#[test]
fn from_rows_keeps_shape_and_cells() {
    let a = CellArray::from_rows(&vec![vec![1, 2, 3], vec![4, 5, 6]]).unwrap();
    assert_eq!(a.dim(), (2, 3));
    let same = CellArray::from_rows(&vec![vec![1, 2, 3], vec![4, 5, 6]]).unwrap();
    assert_eq!(a, same);
    let other = CellArray::from_rows(&vec![vec![1, 2, 3], vec![4, 5, 7]]).unwrap();
    assert_ne!(a, other);
    let turned = CellArray::from_rows(&vec![vec![1, 2], vec![3, 4], vec![5, 6]]).unwrap();
    assert_eq!(turned.dim(), (3, 2));
    assert_ne!(a, turned);
}

#[test]
fn from_rows_refuses_rows_of_different_lengths() {
    assert!(CellArray::from_rows(&vec![vec![1, 0], vec![1]]).is_none());
    assert!(CellArray::from_rows(&vec![vec![], vec![1]]).is_none());
    assert!(CellArray::from_rows(&vec![vec![1, 0], vec![0, 1], vec![1, 0, 1]]).is_none());
}

#[test]
fn from_rows_takes_no_rows_and_empty_rows() {
    assert_eq!(CellArray::from_rows(&vec![]).unwrap().dim(), (0, 0));
    assert_eq!(CellArray::from_rows(&vec![vec![], vec![], vec![]]).unwrap().dim(), (3, 0));
}

#[test]
fn is_binary_finds_a_cell_that_is_neither_zero_nor_one() {
    assert!(CellArray::from_rows(&vec![vec![0, 1], vec![1, 0]]).unwrap().is_binary());
    assert!(CellArray::from_rows(&vec![]).unwrap().is_binary());
    assert!(CellArray::from_rows(&vec![vec![], vec![]]).unwrap().is_binary());
    assert!(!CellArray::from_rows(&vec![vec![0, 1], vec![1, 2]]).unwrap().is_binary());
    assert!(!CellArray::from_rows(&vec![vec![255, 1], vec![1, 0]]).unwrap().is_binary());
    assert!(!CellArray::from_rows(&vec![vec![0, 0, 0], vec![0, 3, 0]]).unwrap().is_binary());
}

#[test]
fn get_reads_row_then_column() {
    let a = CellArray::from_rows(&vec![vec![1, 2, 3], vec![4, 5, 6]]).unwrap();
    assert_eq!(a.get(0, 0), Some(1));
    assert_eq!(a.get(0, 2), Some(3));
    assert_eq!(a.get(1, 0), Some(4));
    assert_eq!(a.get(1, 2), Some(6));
    assert_eq!(a.get(2, 0), None);
    assert_eq!(a.get(0, 3), None);
    assert_eq!(a.get(usize::MAX, usize::MAX), None);
    assert_eq!(CellArray::from_rows(&vec![]).unwrap().get(0, 0), None);
}

#[test]
fn clone_is_equal_and_apart() {
    let a = CellArray::from_rows(&vec![vec![1, 0, 1], vec![0, 1, 0]]).unwrap();
    let b = a.clone();
    assert_eq!(a, b);
    assert_eq!(b.dim(), (2, 3));
    assert!(b.is_binary());
}

#[test]
fn step_cell_follows_the_rule() {
    for neighbours in 0..=8u8 {
        for start in [0u8, 1u8] {
            let mut cell = start;
            step_cell(&mut cell, &neighbours);
            let alive = neighbours == 3 || (neighbours == 2 && start == 1);
            assert_eq!(cell, if alive { 1 } else { 0 }, "cell {start}, neighbours {neighbours}");
        }
    }
}

#[test]
fn step_cell_exact_values() {
    let mut cell = 0;
    step_cell(&mut cell, &3);
    assert_eq!(cell, 1);
    step_cell(&mut cell, &2);
    assert_eq!(cell, 1);
    step_cell(&mut cell, &4);
    assert_eq!(cell, 0);
    step_cell(&mut cell, &2);
    assert_eq!(cell, 0);
    let mut cell = 1;
    step_cell(&mut cell, &1);
    assert_eq!(cell, 0);
    let mut cell = 1;
    step_cell(&mut cell, &3);
    assert_eq!(cell, 1);
}
