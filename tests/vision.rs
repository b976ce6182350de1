use evosim::vision::fill_cells;

#[test]
fn empty_cells_stay_zero() {
    assert_eq!(fill_cells(4, &vec![], 0.0f32), vec![0.0, 0.0, 0.0, 0.0]);
}

#[test]
fn reading_lands_in_its_cell() {
    assert_eq!(fill_cells(9, &vec![(4, 0.6f32)], 0.0), vec![0.0, 0.0, 0.0, 0.0, 0.6, 0.0, 0.0, 0.0, 0.0]);
}

#[test]
fn reading_past_the_end_lands_in_last_cell() {
    assert_eq!(fill_cells(3, &vec![(3, 0.5f32)], 0.0), vec![0.0, 0.0, 0.5]);
    assert_eq!(fill_cells(3, &vec![(usize::MAX, 0.25f32)], 0.0), vec![0.0, 0.0, 0.25]);
}

#[test]
fn later_reading_in_a_cell_wins() {
    let readings = vec![(1, 0.9f32), (7, 0.2), (1, 0.1)];
    assert_eq!(fill_cells(3, &readings, 0.0), vec![0.0, 0.1, 0.2]);
}

#[test]
fn single_cell_takes_the_last_reading() {
    assert_eq!(fill_cells(1, &vec![(0, 0.3f32), (5, 0.7)], 0.0), vec![0.7]);
}
