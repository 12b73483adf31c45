use tapevm::BracketIndex;
use tapevm::BuildError;
use tapevm::OpList;

#[test]
fn simple_pair_matches() {
    let ol = OpList::new("[]");
    let bi = BracketIndex::build(&ol).unwrap();
    assert_eq!(bi.matching_close(0), 1);
    assert_eq!(bi.matching_open(1), 0);
}

#[test]
fn nested_pairs_match() {
    let ol = OpList::new("[[][]]");
    let bi = BracketIndex::build(&ol).unwrap();
    assert_eq!(bi.matching_close(0), 5);
    assert_eq!(bi.matching_close(1), 2);
    assert_eq!(bi.matching_close(3), 4);
    assert_eq!(bi.matching_open(5), 0);
    assert_eq!(bi.matching_open(2), 1);
    assert_eq!(bi.matching_open(4), 3);
}

#[test]
fn matching_round_trips() {
    let ol = OpList::new("+[>[-]<]+[]");
    let bi = BracketIndex::build(&ol).unwrap();
    for open in [1usize, 3, 9] {
        assert_eq!(bi.matching_open(bi.matching_close(open)), open);
    }
    for close in [5usize, 7, 10] {
        assert_eq!(bi.matching_close(bi.matching_open(close)), close);
    }
}

#[test]
fn brackets_between_other_ops_match() {
    let ol = OpList::new("++[->+<].");
    let bi = BracketIndex::build(&ol).unwrap();
    assert_eq!(bi.matching_close(2), 7);
    assert_eq!(bi.matching_open(7), 2);
}

fn build_error(source: &str) -> BuildError {
    match BracketIndex::build(&OpList::new(source)) {
        Ok(_) => panic!("expected a build error for {:?}", source),
        Err(e) => e,
    }
}

#[test]
fn unmatched_open_is_rejected() {
    assert_eq!(build_error("["), BuildError::UnmatchedOpen);
    assert_eq!(build_error("+[-[]"), BuildError::UnmatchedOpen);
}

#[test]
fn unmatched_close_is_rejected() {
    assert_eq!(build_error("]"), BuildError::UnmatchedClose);
    assert_eq!(build_error("]["), BuildError::UnmatchedClose);
    assert_eq!(build_error("[]]+"), BuildError::UnmatchedClose);
}

#[test]
fn empty_and_bracketless_programs_build() {
    assert!(BracketIndex::build(&OpList::new("")).is_ok());
    assert!(BracketIndex::build(&OpList::new("+-<>.,")).is_ok());
}
