use expectorate::assert_contents;
use tempfile::TempDir;

const DATA_A: &str = "No one hits like Gaston\nMatches wits like Gaston\nIn a spitting match nobody spits like Gaston\nI'm especially good at expectorating\nTen points for Gaston\n";
const DATA_A2: &str = "No one hits like Gaston\nMatches wits like Gaston\nIn a testing match nobody tests like Gaston\nI'm especially good at expectorating\nTen points for Gaston\n";
const DATA_B: &str = "In a testing match nobody tests like Gaston\nI'm especially good at expectorating\n";

#[test]
fn good() {
    let dir = TempDir::new().unwrap();
    let path = dir.path().join("data_a.txt");
    fs_err::write(&path, DATA_A).unwrap();
    let actual = DATA_A;
    assert!(assert_contents(path.to_str().unwrap(), actual).is_ok());
}

#[test]
#[should_panic]
fn bad() {
    let dir = TempDir::new().unwrap();
    let path = dir.path().join("data_b.txt");
    if fs_err::write(&path, DATA_B).is_err() {
        return;
    }
    let actual = DATA_A;
    assert_contents(path.to_str().unwrap(), actual).unwrap();
}

#[test]
#[should_panic]
fn one_line_change() {
    let dir = TempDir::new().unwrap();
    let path = dir.path().join("data_a2.txt");
    if fs_err::write(&path, DATA_A2).is_err() {
        return;
    }
    let actual = DATA_A;
    assert_contents(path.to_str().unwrap(), actual).unwrap();
}
