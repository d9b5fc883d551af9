use trivalibs::grid::Grid;

#[derive(Clone, Copy, Debug, PartialEq)]
enum TestData {
    One,
    Two,
    Three,
}

impl Default for TestData {
    fn default() -> Self {
        TestData::One
    }
}

#[test]
fn frame_vals() {
    let mut f = Grid::new(3, 3);

    assert_eq!(f.get(1, 1), TestData::One);
    assert_eq!(f.get(4, 4), TestData::One);
    assert_eq!(f.get(-2, -2), TestData::One);

    f.set(1, 1, TestData::Three);
    assert_eq!(f.get(1, 1), TestData::Three);
    assert_eq!(f.get(4, 4), TestData::Three);
    assert_eq!(f.get(-2, -2), TestData::Three);
}

#[test]
fn wrapping_covers_both_axes() {
    let mut f = Grid::new(4, 2);
    f.set(0, 0, TestData::Two);
    assert_eq!(f.get(4, 2), TestData::Two);
    assert_eq!(f.get(-4, -2), TestData::Two);
    assert_eq!(f.get(8, -4), TestData::Two);
    f.set(-1, -1, TestData::Three);
    assert_eq!(f.get(3, 1), TestData::Three);
}

#[test]
fn quad_tuples_in_declared_windings() {
    let mut f = Grid::new(3, 2);
    // cells hold distinct values so corner order is observable
    f.set(0, 0, TestData::One);
    f.set(1, 0, TestData::Two);
    f.set(2, 0, TestData::Three);
    f.set(0, 1, TestData::Three);
    f.set(1, 1, TestData::One);
    f.set(2, 1, TestData::Two);

    let ccw = f.to_ccw_quads();
    assert_eq!(ccw.len(), 2);
    assert_eq!(
        ccw[0],
        [TestData::One, TestData::Two, TestData::One, TestData::Three]
    );
    assert_eq!(
        ccw[1],
        [TestData::Two, TestData::Three, TestData::Two, TestData::One]
    );

    let cw = f.to_cw_quads();
    assert_eq!(cw.len(), 2);
    assert_eq!(
        cw[0],
        [TestData::One, TestData::Three, TestData::One, TestData::Two]
    );
}
