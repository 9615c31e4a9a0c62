use balancebeam::parallel::assemble;

#[test]
fn results_land_at_their_positions() {
    let results = vec![(2usize, 9u32), (0, 1), (3, 16), (1, 4)];
    assert_eq!(assemble(4, results), vec![1, 4, 9, 16]);
}

#[test]
fn positions_without_a_result_hold_the_default() {
    assert_eq!(assemble(3, vec![(1usize, String::from("b"))]), vec!["", "b", ""]);
    assert_eq!(assemble::<u8>(2, Vec::new()), vec![0, 0]);
    assert_eq!(assemble::<u8>(0, Vec::new()), Vec::<u8>::new());
}

#[test]
fn last_result_for_a_position_stays() {
    let results = vec![(0usize, 'a'), (1, 'b'), (0, 'c'), (1, 'd'), (0, 'e')];
    assert_eq!(assemble(2, results), vec!['e', 'd']);
}
