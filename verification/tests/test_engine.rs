use expectorate::{
    assert_contents, assert_contents_impl, compare_with_expected, ComparisonResult, EngineError,
    OverwriteMode,
};
use expectorate::text::normalize;
use filetime::FileTime;
use tempfile::TempDir;

fn mismatch_parts(e: EngineError) -> (String, String) {
    match e {
        EngineError::Mismatch(f) => (f.report, f.message),
        EngineError::Io(m) => panic!("expected a mismatch, got an i/o failure: {}", m),
    }
}

fn io_text(e: EngineError) -> String {
    match e {
        EngineError::Io(m) => m,
        EngineError::Mismatch(f) => panic!("expected an i/o failure, got: {}", f.message),
    }
}

/// If the mode is overwrite and the file is unchanged, ensure that the
/// mtime stays the same.
#[test]
fn overwite_same_mtime_doesnt_change() {
    let contents = "foo";
    // Setting the mtime to 1970-01-01 doesn't appear to work everywhere.
    // Instead, set it to 2000-01-01. The exact time doesn't really matter
    // here as much as having a fixed value that's in the past.
    let mtime = FileTime::from_unix_time(946684800, 0);

    let dir = TempDir::with_prefix("expectorate-").unwrap();
    let path = dir.path().join("my-file.txt");
    fs_err::write(&path, contents).unwrap();

    // Set the mtime to a fixed value.
    filetime::set_file_mtime(&path, mtime).unwrap();

    // Overwrite the contents with the same value.
    assert_contents_impl(path.to_str().unwrap(), contents, OverwriteMode::Overwrite).unwrap();

    let meta = fs_err::metadata(&path).unwrap();
    let mtime2 = FileTime::from_last_modification_time(&meta);

    assert_eq!(mtime2, mtime, "mtime is zero");
}

#[test]
fn overwrite_with_new_content_replaces_and_touches() {
    let mtime = FileTime::from_unix_time(946684800, 0);
    let dir = TempDir::new().unwrap();
    let path = dir.path().join("out.txt");
    let p = path.to_str().unwrap();
    fs_err::write(&path, "foo").unwrap();
    filetime::set_file_mtime(&path, mtime).unwrap();

    assert_contents_impl(p, "bar", OverwriteMode::Overwrite).unwrap();

    assert_eq!(fs_err::read_to_string(&path).unwrap(), "bar");
    let meta = fs_err::metadata(&path).unwrap();
    assert_ne!(FileTime::from_last_modification_time(&meta), mtime);
}

#[test]
fn overwrite_twice_is_idempotent() {
    let dir = TempDir::new().unwrap();
    let path = dir.path().join("out.txt");
    let p = path.to_str().unwrap();
    let actual = "alpha\r\nbeta\rgamma\n";

    assert_contents_impl(p, actual, OverwriteMode::Overwrite).unwrap();
    let first = fs_err::read_to_string(&path).unwrap();
    assert_eq!(first, "alpha\nbeta\ngamma\n");

    let mtime = FileTime::from_unix_time(946684800, 0);
    filetime::set_file_mtime(&path, mtime).unwrap();
    assert_contents_impl(p, actual, OverwriteMode::Overwrite).unwrap();

    assert_eq!(fs_err::read_to_string(&path).unwrap(), first);
    let meta = fs_err::metadata(&path).unwrap();
    assert_eq!(FileTime::from_last_modification_time(&meta), mtime);
}

#[test]
fn overwrite_then_check_round_trips() {
    let dir = TempDir::new().unwrap();
    let path = dir.path().join("out.txt");
    let p = path.to_str().unwrap();
    let actual = "one\r\ntwo\nthree";

    assert_contents_impl(p, actual, OverwriteMode::Overwrite).unwrap();
    assert!(assert_contents_impl(p, actual, OverwriteMode::Check).is_ok());
}

#[test]
fn missing_file_checks_as_empty() {
    let dir = TempDir::new().unwrap();
    let path = dir.path().join("absent.txt");
    let p = path.to_str().unwrap();

    assert!(assert_contents(p, "").is_ok());

    let (report, _) = mismatch_parts(assert_contents(p, "x").unwrap_err());
    assert!(report.contains("@@ -0,0 +1 @@\n+x\n"));
    let deletions = report.lines().filter(|l| l.starts_with('-')).count();
    let additions = report.lines().filter(|l| l.starts_with('+')).count();
    assert_eq!(deletions, 0);
    assert_eq!(additions, 1);
}

#[test]
fn diff_reports_one_changed_line_with_context() {
    let dir = TempDir::new().unwrap();
    let path = dir.path().join("lyrics.txt");
    let p = path.to_str().unwrap();
    fs_err::write(&path, "No one hits like Gaston\nI'm especially good at expectorating\n")
        .unwrap();

    let actual =
        "In a testing match nobody tests like Gaston\nI'm especially good at expectorating\n";
    let (report, message) = mismatch_parts(assert_contents(p, actual).unwrap_err());

    assert!(report.contains(
        "@@ -1,2 +1,2 @@\n-No one hits like Gaston\n+In a testing match nobody tests like Gaston\n I'm especially good at expectorating\n"
    ));
    let deletions = report.lines().filter(|l| l.starts_with('-')).count();
    let additions = report.lines().filter(|l| l.starts_with('+')).count();
    let context = report.lines().filter(|l| l.starts_with(' ')).count();
    assert_eq!(deletions, 1);
    assert_eq!(additions, 1);
    assert_eq!(context, 1);
    assert!(message.contains("see diffset above"));
    assert!(message.contains("set EXPECTORATE=overwrite"));
    assert!(message.contains(p));
}

#[test]
fn distant_changes_render_as_two_hunks() {
    let dir = TempDir::new().unwrap();
    let path = dir.path().join("long.txt");
    let p = path.to_str().unwrap();

    let mut expected = String::from("first old line\n");
    let mut actual = String::from("first new line\n");
    for i in 0..12 {
        let shared = format!("shared line {}\n", i);
        expected.push_str(&shared);
        actual.push_str(&shared);
    }
    expected.push_str("last old line\n");
    actual.push_str("last new line\n");
    fs_err::write(&path, &expected).unwrap();

    let (report, _) = mismatch_parts(assert_contents(p, &actual).unwrap_err());
    assert!(report.contains("@@ -1,6 +1,6 @@\n"));
    assert!(report.contains("@@ -9,6 +9,6 @@\n"));
    let headers = report.lines().filter(|l| l.starts_with("@@")).count();
    assert_eq!(headers, 2);
    let context = report.lines().filter(|l| l.starts_with(' ')).count();
    assert_eq!(context, 10);
}

#[test]
fn final_line_without_terminator_is_flagged() {
    let dir = TempDir::new().unwrap();
    let path = dir.path().join("tail.txt");
    let p = path.to_str().unwrap();
    fs_err::write(&path, "alpha\nomega\n").unwrap();

    let (report, _) = mismatch_parts(assert_contents(p, "alpha\nomega").unwrap_err());
    assert!(report.contains("-omega\n"));
    assert!(!report.contains("-omega\n\\ No newline at end of file\n"));
    assert!(report.contains("+omega\n\\ No newline at end of file\n"));
}

#[test]
fn unreadable_reference_is_fatal() {
    let dir = TempDir::new().unwrap();
    // The path names the directory itself, which cannot be read as text.
    let m = io_text(assert_contents(dir.path().to_str().unwrap(), "x").unwrap_err());
    assert!(m.contains("unable to read contents of"));
}

#[test]
fn failed_write_reports_the_path() {
    let dir = TempDir::new().unwrap();
    let path = dir.path().join("no_such_dir").join("out.txt");
    let p = path.to_str().unwrap();
    let m = io_text(assert_contents_impl(p, "x", OverwriteMode::Overwrite).unwrap_err());
    assert!(m.contains("unable to write to"));
}

#[test]
fn write_to_a_directoryless_path_is_an_error() {
    let m = io_text(assert_contents_impl("", "x", OverwriteMode::Overwrite).unwrap_err());
    assert!(m.contains("unable to write to"));
}

#[test]
fn normalization_is_idempotent_and_lf_only() {
    let once = normalize("a\r\nb\rc\n");
    assert_eq!(once, "a\nb\nc\n");
    let twice = normalize(&once);
    assert_eq!(twice, once);
    assert!(!twice.contains('\r'));
}

#[test]
fn mode_comes_only_from_the_exact_toggle_value() {
    assert!(matches!(
        OverwriteMode::from_toggle(Some("overwrite")),
        OverwriteMode::Overwrite
    ));
    assert!(matches!(OverwriteMode::from_toggle(None), OverwriteMode::Check));
    assert!(matches!(
        OverwriteMode::from_toggle(Some("Overwrite")),
        OverwriteMode::Check
    ));
    assert!(matches!(
        OverwriteMode::from_toggle(Some(" overwrite")),
        OverwriteMode::Check
    ));
    assert!(matches!(OverwriteMode::from_toggle(Some("")), OverwriteMode::Check));
}

#[test]
fn comparison_is_blind_to_line_ending_style() {
    let current = Some(String::from("a\r\nb\r\n"));
    match compare_with_expected(&current, "a\nb\n") {
        ComparisonResult::Match => {}
        ComparisonResult::Mismatch(r) => panic!("unexpected mismatch: {}", r),
    }
    match compare_with_expected(&None, "") {
        ComparisonResult::Match => {}
        ComparisonResult::Mismatch(r) => panic!("unexpected mismatch: {}", r),
    }
}
