use expectorate::{eq_file, eq_file_or_panic};
use tempfile::TempDir;

const DATA_A: &str = "No one hits like Gaston\nMatches wits like Gaston\nIn a spitting match nobody spits like Gaston\nI'm especially good at expectorating\nTen points for Gaston\n";
const DATA_A2: &str = "No one hits like Gaston\nMatches wits like Gaston\nIn a testing match nobody tests like Gaston\nI'm especially good at expectorating\nTen points for Gaston\n";
const DATA_B: &str = "In a testing match nobody tests like Gaston\nI'm especially good at expectorating\n";

#[test]
fn predicates_good() {
    let dir = TempDir::new().unwrap();
    let path = dir.path().join("data_a.txt");
    fs_err::write(&path, DATA_A).unwrap();
    let actual = DATA_A;
    assert!(eq_file(path.to_str().unwrap()).eval(actual));
}

#[test]
#[should_panic]
fn predicates_bad() {
    let dir = TempDir::new().unwrap();
    let path = dir.path().join("data_b.txt");
    if fs_err::write(&path, DATA_B).is_err() {
        return;
    }
    let actual = DATA_A;
    assert!(eq_file(path.to_str().unwrap()).eval(actual));
}

#[test]
#[should_panic]
fn predicates_one_line_change() {
    let dir = TempDir::new().unwrap();
    let path = dir.path().join("data_a2.txt");
    if fs_err::write(&path, DATA_A2).is_err() {
        return;
    }
    let actual = DATA_A;
    assert!(eq_file(path.to_str().unwrap()).eval(actual));
}

#[test]
fn predicate_carries_path_and_abort_flag() {
    let quiet = eq_file("tests/somewhere.txt");
    assert_eq!(quiet.path().as_str(), "tests/somewhere.txt");
    assert!(!quiet.aborts_on_mismatch());
    let loud = eq_file_or_panic("tests/somewhere.txt");
    assert!(loud.aborts_on_mismatch());
}

#[test]
fn predicate_missing_file_matches_empty_only() {
    let dir = TempDir::new().unwrap();
    let path = dir.path().join("absent.txt");
    let p = eq_file(path.to_str().unwrap());
    assert!(p.eval(""));
    assert!(!p.eval("x"));
}
