use branch_review::git::build_branch;
use branch_review::git::find_head;
use branch_review::git::get_branches;
use branch_review::git::local_time;
use branch_review::git::Branch;
use branch_review::git::HandlerError;
use branch_review::git::RawBranch;
use branch_review::sort::sort_branches;

fn raw(name: &str, id: &str, message: &str, seconds: i64, offset_minutes: i32, is_head: bool) -> RawBranch {
    RawBranch {
        name_bytes: name.as_bytes().to_vec(),
        commit_id: id.to_string(),
        message_bytes: message.as_bytes().to_vec(),
        seconds,
        offset_minutes,
        is_head,
    }
}

fn branch(name: &str, time: i64, is_head: bool) -> Branch {
    Branch {
        time,
        commit_id: "0000".to_string(),
        name: name.to_string(),
        message: "m".to_string(),
        is_head,
    }
}

#[test]
fn local_time_adds_the_offset_in_minutes() {
    assert_eq!(local_time(1000, 90), 6400);
    assert_eq!(local_time(1000, -30), -800);
    assert_eq!(local_time(0, 0), 0);
    assert_eq!(local_time(i64::MAX, 0), i64::MAX);
    assert_eq!(local_time(i64::MIN, 0), i64::MIN);
}

#[test]
fn build_branch_decodes_and_normalizes() {
    let b = build_branch(raw("topic", "abc123", "fix: a thing", 7200, 60, true)).unwrap();
    assert_eq!(b.name, "topic");
    assert_eq!(b.commit_id, "abc123");
    assert_eq!(b.message, "fix: a thing");
    assert_eq!(b.time, 7200 + 3600);
    assert!(b.is_head);
}

#[test]
fn build_branch_rejects_a_name_that_is_not_text() {
    let mut r = raw("x", "id", "msg", 0, 0, false);
    r.name_bytes = vec![0xff, 0xfe];
    assert_eq!(build_branch(r).unwrap_err(), HandlerError::Utf8);
}

#[test]
fn build_branch_rejects_a_message_that_is_not_text() {
    let mut r = raw("x", "id", "msg", 0, 0, false);
    r.message_bytes = vec![0xc0, 0x00];
    assert_eq!(build_branch(r).unwrap_err(), HandlerError::Utf8);
}

#[test]
fn get_branches_sorts_ascending_by_normalized_time() {
    let raws = vec![
        raw("late", "c", "m3", 5000, 0, false),
        raw("early", "a", "m1", 1000, 0, true),
        raw("middle", "b", "m2", 3000, 0, false),
    ];
    let list = get_branches(raws).unwrap();
    let names: Vec<&str> = list.iter().map(|b| b.name.as_str()).collect();
    assert_eq!(names, vec!["early", "middle", "late"]);
}

#[test]
fn get_branches_applies_the_offset_before_sorting() {
    // 1000 s + 120 min lies after 5000 s - 30 min.
    let raws = vec![
        raw("plus", "a", "m", 1000, 120, false),
        raw("minus", "b", "m", 5000, -30, false),
    ];
    let list = get_branches(raws).unwrap();
    assert_eq!(list[0].name, "minus");
    assert_eq!(list[0].time, 5000 - 1800);
    assert_eq!(list[1].name, "plus");
    assert_eq!(list[1].time, 1000 + 7200);
}

#[test]
fn equal_timestamps_keep_enumeration_order() {
    let raws = vec![
        raw("first", "a", "m", 2000, 0, false),
        raw("second", "b", "m", 2000, 0, false),
        raw("oldest", "c", "m", 1000, 0, false),
        raw("third", "d", "m", 2000, 0, false),
    ];
    let list = get_branches(raws).unwrap();
    let names: Vec<&str> = list.iter().map(|b| b.name.as_str()).collect();
    assert_eq!(names, vec!["oldest", "first", "second", "third"]);
}

#[test]
fn get_branches_fails_whole_on_one_bad_record() {
    let raws = vec![
        raw("good", "a", "m", 1000, 0, false),
        RawBranch {
            name_bytes: vec![0x80],
            commit_id: "b".to_string(),
            message_bytes: b"m".to_vec(),
            seconds: 2000,
            offset_minutes: 0,
            is_head: false,
        },
    ];
    assert_eq!(get_branches(raws).unwrap_err(), HandlerError::Utf8);
}

#[test]
fn get_branches_of_an_empty_snapshot_is_empty() {
    let list = get_branches(Vec::new()).unwrap();
    assert!(list.is_empty());
}

#[test]
fn sorting_keeps_the_head_flag_with_its_branch() {
    let raws = vec![
        raw("b", "x", "m", 9000, 0, true),
        raw("a", "y", "m", 100, 0, false),
    ];
    let list = get_branches(raws).unwrap();
    assert_eq!(list[0].name, "a");
    assert!(!list[0].is_head);
    assert_eq!(list[1].name, "b");
    assert!(list[1].is_head);
}

#[test]
fn sort_branches_sorts_stably_by_time() {
    let v = vec![
        branch("c", 30, false),
        branch("a1", 10, false),
        branch("b", 20, true),
        branch("a2", 10, false),
    ];
    let sorted = sort_branches(v);
    let names: Vec<&str> = sorted.iter().map(|b| b.name.as_str()).collect();
    assert_eq!(names, vec!["a1", "a2", "b", "c"]);
}

#[test]
fn find_head_returns_the_first_flagged_branch() {
    let v = vec![
        branch("a", 1, false),
        branch("b", 2, true),
        branch("c", 3, false),
    ];
    assert_eq!(find_head(&v), Some(1));
}

#[test]
fn find_head_of_a_headless_snapshot_is_none() {
    let v = vec![branch("a", 1, false), branch("b", 2, false)];
    assert_eq!(find_head(&v), None);
    assert_eq!(find_head(&Vec::new()), None);
}
