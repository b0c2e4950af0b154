use edge_ascii::search::FirstWorking;

fn search(outcomes: &[bool]) -> (Option<usize>, usize) {
    let mut s = FirstWorking::new(outcomes.len());
    let mut tried = 0;
    while let Some(i) = s.pending() {
        assert_eq!(i, tried);
        tried += 1;
        s.record(outcomes[i]);
    }
    (s.chosen(), tried)
}

#[test]
fn finds_the_first_that_works_and_stops() {
    assert_eq!(search(&[false, true, true]), (Some(1), 2));
    assert_eq!(search(&[true]), (Some(0), 1));
}

#[test]
fn finds_none_where_none_works() {
    assert_eq!(search(&[false, false]), (None, 2));
    assert_eq!(search(&[]), (None, 0));
}
