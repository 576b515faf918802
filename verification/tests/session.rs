use samovar::session::{
    find_last_slash, read_records, FileAction, MemorySession, PhysicalSession, SessionError,
};

fn s(text: &str) -> String {
    text.to_string()
}

fn pairs(list: &[(&str, &str)]) -> Vec<(String, String)> {
    list.iter().map(|p| (p.0.to_string(), p.1.to_string())).collect()
}

#[test]
fn memory_session_keeps_the_last_value() {
    let mut session = MemorySession::new();
    assert_eq!(session.get(&s("a")), None);
    session.insert(s("a"), s("1"));
    session.insert(s("b"), s("2"));
    assert_eq!(session.get(&s("a")), Some(s("1")));
    assert_eq!(session.get(&s("b")), Some(s("2")));
    session.insert(s("a"), s("3"));
    assert_eq!(session.get(&s("a")), Some(s("3")));
    assert_eq!(session.get(&s("b")), Some(s("2")));
    assert_eq!(session.get(&s("A")), None);
    assert_eq!(session.get(&s("")), None);
}

#[test]
fn physical_session_says_what_to_write() {
    let mut session = PhysicalSession::new(s("mm/cache"));
    assert_eq!(session.get_filepath(), "mm/cache");
    assert_eq!(session.compose(), "");
    assert_eq!(session.insert(s("abu"), s("x1")), "abu +/+/+ x1");
    assert_eq!(session.get(&s("abu")), Some(s("x1")));
    assert_eq!(session.insert(s("k"), s("v")), "abu +/+/+ x1/k +/+/+ v");
    assert_eq!(session.insert(s("abu"), s("x2")), "abu +/+/+ x2/k +/+/+ v");
    assert_eq!(session.compose(), "abu +/+/+ x2/k +/+/+ v");
    assert_eq!(session.get(&s("abu")), Some(s("x2")));
    assert_eq!(session.get(&s("missing")), None);
}

#[test]
fn entry_survives_a_restart() {
    let mut first = PhysicalSession::new(s("mm/cache"));
    let file = first.insert(s("abu"), s("x1"));
    let mut second = PhysicalSession::new(s("mm/cache"));
    match second.initiate(Some(file)) {
        Ok(FileAction::Write(contents)) => assert_eq!(contents, "abu +/+/+ x1"),
        _ => panic!("the file is to be written again"),
    }
    assert_eq!(second.get(&s("abu")), Some(s("x1")));
}

#[test]
fn every_entry_survives_a_restart() {
    let mut first = PhysicalSession::new(s("f"));
    first.insert(s("a"), s("1"));
    first.insert(s("b"), s("two words"));
    first.insert(s("path"), s("x/y/z"));
    first.insert(s("empty"), s(""));
    let file = first.insert(s("last"), s("line\nfeed"));
    assert_eq!(file, "a +/+/+ 1/b +/+/+ two words/path +/+/+ x/y/z/empty +/+/+ /last +/+/+ line\nfeed");
    let mut second = PhysicalSession::new(s("f"));
    match second.initiate(Some(file.clone())) {
        Ok(FileAction::Write(contents)) => assert_eq!(contents, file),
        _ => panic!("the file is to be written again"),
    }
    assert_eq!(second.get(&s("a")), Some(s("1")));
    assert_eq!(second.get(&s("b")), Some(s("two words")));
    assert_eq!(second.get(&s("path")), Some(s("x/y/z")));
    assert_eq!(second.get(&s("empty")), Some(s("")));
    assert_eq!(second.get(&s("last")), Some(s("line\nfeed")));
    assert_eq!(second.get(&s("z")), None);
    assert_eq!(second.compose(), first.compose());
}

#[test]
fn missing_file_is_created() {
    let mut session = PhysicalSession::new(s("mm/cache"));
    assert!(matches!(session.initiate(None), Ok(FileAction::Create)));
    assert_eq!(session.compose(), "");
}

#[test]
fn empty_file_is_kept() {
    let mut session = PhysicalSession::new(s("mm/cache"));
    assert!(matches!(session.initiate(Some(s(""))), Ok(FileAction::Keep)));
    assert_eq!(session.compose(), "");
}

#[test]
fn records_stand_between_slashes() {
    let mut session = PhysicalSession::new(s("f"));
    assert_eq!(session.decompose(s("a +/+/+ 1/b +/+/+ 2")), Ok(()));
    assert_eq!(session.get(&s("a")), Some(s("1")));
    assert_eq!(session.get(&s("b")), Some(s("2")));
    assert_eq!(session.get(&s("1/b")), None);
    assert_eq!(session.compose(), "a +/+/+ 1/b +/+/+ 2");
}

#[test]
fn white_space_around_keys_and_values_is_dropped() {
    assert_eq!(
        read_records("  a   +/+/+   1  / b +/+/+ 2 \n"),
        Some(pairs(&[("a", "1"), ("b", "2")]))
    );
    assert_eq!(read_records("k +/+/+ v\r\n"), Some(pairs(&[("k", "v")])));
    assert_eq!(read_records(" +/+/+ "), Some(pairs(&[("", "")])));
}

#[test]
fn later_record_wins() {
    let mut session = PhysicalSession::new(s("f"));
    session.insert(s("a"), s("0"));
    assert_eq!(session.decompose(s("a +/+/+ 1/a +/+/+ 2")), Ok(()));
    assert_eq!(session.get(&s("a")), Some(s("2")));
    assert_eq!(session.compose(), "a +/+/+ 2");
}

#[test]
fn text_that_holds_no_records_is_refused() {
    let mut session = PhysicalSession::new(s("f"));
    session.insert(s("kept"), s("1"));
    for broken in ["broken", "a +/+/+ 1 +/+/+ 2", "a +/+/+ 1\nb +/+/+ 2", "/", "a +/+/+"] {
        assert_eq!(session.decompose(s(broken)), Err(SessionError::MalformedRecord), "{:?}", broken);
        assert_eq!(read_records(broken), None);
    }
    assert_eq!(session.get(&s("a")), None);
    assert_eq!(session.get(&s("kept")), Some(s("1")));
    assert!(matches!(session.initiate(Some(s("\n"))), Err(SessionError::MalformedRecord)));
    assert_eq!(session.compose(), "kept +/+/+ 1");
}

#[test]
fn value_ends_at_the_last_slash_before_the_next_key() {
    assert_eq!(
        read_records("a +/+/+ x/y/b +/+/+ 2/3"),
        Some(pairs(&[("a", "x/y"), ("b", "2/3")]))
    );
    assert_eq!(read_records("a +/+/+ /b +/+/+ "), Some(pairs(&[("a", ""), ("b", "")])));
}

#[test]
fn records_of_a_text() {
    assert_eq!(read_records(""), Some(vec![]));
    assert_eq!(read_records("k +/+/+ v"), Some(pairs(&[("k", "v")])));
    assert_eq!(
        read_records("k1 +/+/+ v1/k2 +/+/+ v2/k3 +/+/+ v3"),
        Some(pairs(&[("k1", "v1"), ("k2", "v2"), ("k3", "v3")]))
    );
}

#[test]
fn last_slash_of_a_text() {
    let chars = |t: &str| t.chars().collect::<Vec<char>>();
    assert_eq!(find_last_slash(&chars("a/b/c")), Some(3));
    assert_eq!(find_last_slash(&chars("/")), Some(0));
    assert_eq!(find_last_slash(&chars("abc")), None);
    assert_eq!(find_last_slash(&chars("")), None);
}
