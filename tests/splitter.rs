use pspkit::splitter::splitter;

const TEST_INPUT: &str = "
    0: a.tb1
    1: a.tb2
    2: a.tb3
    ";

#[test]
fn test_splitter() {
    let r = splitter(TEST_INPUT);
    assert_eq!(3, r.len());
    assert_eq!("a.tb1", r[0]);
    assert_eq!("a.tb3", r[2]);
}

#[test]
fn splitter_edge_cases() {
    assert!(splitter("").is_empty());
    assert!(splitter("\n\n  \nno colon here\n").is_empty());
    assert_eq!(splitter("k:v"), vec!["v".to_string()]);
    assert_eq!(splitter("a: b: c\r\nx:\t y \r\n"), vec!["b: c".to_string(), "y".to_string()]);
    assert_eq!(splitter(" key :  \n"), vec!["".to_string()]);
    assert_eq!(splitter("\u{3000}k:\u{a0}ü\u{2003}"), vec!["ü".to_string()]);
}
