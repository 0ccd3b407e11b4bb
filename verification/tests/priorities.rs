use novel_words::Priority;

#[test]
fn list_runs_from_highest_to_lowest() {
    assert_eq!(
        Priority::list(),
        [
            Priority::Highest,
            Priority::HighMid,
            Priority::Mid,
            Priority::LowMid,
            Priority::Lowest,
        ]
    );
}

#[test]
fn numbers_fall_along_the_list() {
    let numbers: Vec<u8> = Priority::list().iter().map(|p| p.number()).collect();
    assert_eq!(numbers, vec![5, 4, 3, 2, 1]);
}
