use gitstatusd::{
    decode_frame, FrameError, GitDetails, GitStatus, ReadIndex, ResponceParseError,
    StatusRequest,
};

fn responce_test(s: &str, resp: Result<GitStatus, ResponceParseError>) {
    let r_got = s.parse();
    assert_eq!(r_got, resp);
}

fn full_record(counts: [&str; 15]) -> String {
    let c = counts;
    format!(
        "id\u{1f}1\u{1f}/repo\u{1f}abc\u{1f}main\u{1f}up\u{1f}origin\u{1f}url\u{1f}\u{1f}{}\u{1f}{}\u{1f}{}\u{1f}{}\u{1f}{}\u{1f}{}\u{1f}{}\u{1f}{}\u{1f}tag\u{1f}{}\u{1f}{}\u{1f}{}\u{1f}push\u{1f}purl\u{1f}{}\u{1f}{}\u{1f}{}\u{1f}{}",
        c[0], c[1], c[2], c[3], c[4], c[5], c[6], c[7], c[8], c[9], c[10], c[11], c[12], c[13],
        c[14]
    )
}

fn int_error(s: &str) -> ResponceParseError {
    ResponceParseError::ParseIntError(s.parse::<u32>().unwrap_err())
}

#[test]
fn it_works() {
    assert_eq!(2 + 2, 4);
}

#[test]
fn write_request() {
    let req = StatusRequest {
        id: "SomeID".to_owned(),
        dir: "some/path".to_owned(),
        read_index: ReadIndex::ReadAll,
    };
    let to_send = req.to_string();
    assert_eq!(to_send, "SomeID\x1fsome/path\x1f0\x1e");

    let req = StatusRequest {
        id: "SomeOtherID".to_owned(),
        dir: "some/other/path".to_owned(),
        read_index: ReadIndex::DontRead,
    };
    let to_send = req.to_string();
    assert_eq!(to_send, "SomeOtherID\x1fsome/other/path\x1f1\x1e");
}

#[test]
fn parse_responce_no_git() {
    let resp1 = "id1\x1f0";
    let r1p = resp1.parse();
    assert_eq!(
        r1p,
        Ok(GitStatus {
            id: "id1".to_owned(),
            details: Option::None,
        })
    );
}

#[test]
fn parse_responce_no_git_no_id() {
    responce_test(
        "\x1f0",
        Ok(GitStatus {
            id: "".to_owned(),
            details: Option::None,
        }),
    );
}

#[test]
fn parse_responce_empty() {
    responce_test("", Err(ResponceParseError::TooShort));
}

#[test]
fn parse_responce_git_full() {
    responce_test(
        "id\u{1f}1\u{1f}/Users/nixon/dev/rs/gitstatusd\u{1f}1c9be4fe5460a30e70de9cbf99c3ec7064296b28\u{1f}master\u{1f}\u{1f}\u{1f}\u{1f}\u{1f}7\u{1f}0\u{1f}1\u{1f}0\u{1f}1\u{1f}0\u{1f}0\u{1f}0\u{1f}\u{1f}0\u{1f}0\u{1f}0\u{1f}\u{1f}\u{1f}0\u{1f}0\u{1f}0\u{1f}0",
        Ok(GitStatus {
            id: "id".to_owned(),
            details: Option::Some(GitDetails {
                abspath: "/Users/nixon/dev/rs/gitstatusd".to_owned(),
                head_commit_hash: "1c9be4fe5460a30e70de9cbf99c3ec7064296b28".to_owned(),
                local_branch: "master".to_owned(),
                upstream_branch: "".to_owned(),
                remote_name: "".to_owned(),
                remote_url: "".to_owned(),
                repository_state: "".to_owned(),
                num_files_in_index: 7,
                num_staged_changes: 0,
                num_unstaged_changes: 1,
                num_conflicted_changes: 0,
                num_untrached_files: 1,
                commits_ahead: 0,
                commits_behind: 0,
                num_stashes: 0,
                last_tag: "".to_owned(),
                num_unstaged_deleted: 0,
                num_staged_new: 0,
                num_staged_deleted: 0,
                push_remote_name: "".to_owned(),
                push_remote_url: "".to_owned(),
                commits_ahead_push_remote: 0,
                commits_behind_push_remote: 0,
                num_index_skip_worktree: 0,
                num_index_assume_unchanged: 0,
            }),
        }),
    );
}

#[test]
fn request_keeps_id_and_empty_fields() {
    let req = StatusRequest {
        id: "".to_owned(),
        dir: "".to_owned(),
        read_index: ReadIndex::DontRead,
    };
    assert_eq!(req.to_string(), "\x1f\x1f1\x1e");
    let req = StatusRequest {
        id: "é-42".to_owned(),
        dir: ":/tmp/.git".to_owned(),
        read_index: ReadIndex::ReadAll,
    };
    let w = req.to_string();
    assert!(w.starts_with("é-42\x1f"));
    assert_eq!(w, "é-42\x1f:/tmp/.git\x1f0\x1e");
}

#[test]
fn request_frame_splits_back() {
    let req = StatusRequest {
        id: "a".to_owned(),
        dir: "b/c".to_owned(),
        read_index: ReadIndex::DontRead,
    };
    let w = req.to_string();
    assert!(w.ends_with('\x1e'));
    assert_eq!(w.matches('\x1e').count(), 1);
    let parts: Vec<&str> = w[..w.len() - 1].split('\x1f').collect();
    assert_eq!(parts, vec!["a", "b/c", "1"]);
}

#[test]
fn not_repo_ignores_trailing_fields() {
    let want = Ok(GitStatus { id: "x".to_owned(), details: None });
    responce_test("x\x1f0\x1fgarbage\x1f\x1f1", want);
    let want = Ok(GitStatus { id: "x".to_owned(), details: None });
    responce_test("x\x1f0\x1f", want);
}

#[test]
fn flag_other_than_zero_or_one_is_invalid() {
    responce_test("x\x1f2", Err(ResponceParseError::InvalidPart));
    responce_test("x\x1f", Err(ResponceParseError::InvalidPart));
    responce_test("x\x1f01\x1f", Err(ResponceParseError::InvalidPart));
}

#[test]
fn missing_fields_are_too_short() {
    responce_test("only-id", Err(ResponceParseError::TooShort));
    responce_test("x\x1f1", Err(ResponceParseError::TooShort));
    responce_test("x\x1f1\x1f/repo\x1fabc\x1fmain", Err(ResponceParseError::TooShort));
    let full = full_record(["0"; 15]);
    let cut = &full[..full.rfind('\x1f').unwrap()];
    responce_test(cut, Err(ResponceParseError::TooShort));
}

#[test]
fn non_digit_count_is_invalid_integer() {
    let mut counts = ["0"; 15];
    counts[3] = "7a";
    responce_test(&full_record(counts), Err(int_error("7a")));
    let mut counts = ["0"; 15];
    counts[14] = "";
    responce_test(&full_record(counts), Err(int_error("")));
    let mut counts = ["0"; 15];
    counts[9] = "-1";
    responce_test(&full_record(counts), Err(int_error("-1")));
    let mut counts = ["0"; 15];
    counts[0] = " 1";
    responce_test(&full_record(counts), Err(int_error(" 1")));
}

#[test]
fn count_overflow_is_invalid_integer() {
    let mut counts = ["0"; 15];
    counts[1] = "4294967296";
    responce_test(&full_record(counts), Err(int_error("4294967296")));
}

#[test]
fn first_fault_decides_the_error() {
    let full = full_record(["x"; 15]);
    responce_test(&full, Err(int_error("x")));
    responce_test("x\x1f1\x1fa\x1fb\x1fc\x1fd\x1fe\x1ff\x1fg\x1fbad", Err(int_error("bad")));
}

#[test]
fn counts_land_in_order() {
    let counts = [
        "1", "2", "3", "4", "5", "6", "7", "8", "9", "10", "11", "12", "13", "14", "4294967295",
    ];
    let got: GitStatus = full_record(counts).parse().unwrap();
    let d = got.details.unwrap();
    assert_eq!(got.id, "id");
    assert_eq!(d.abspath, "/repo");
    assert_eq!(d.head_commit_hash, "abc");
    assert_eq!(d.local_branch, "main");
    assert_eq!(d.upstream_branch, "up");
    assert_eq!(d.remote_name, "origin");
    assert_eq!(d.remote_url, "url");
    assert_eq!(d.repository_state, "");
    assert_eq!(d.num_files_in_index, 1);
    assert_eq!(d.num_staged_changes, 2);
    assert_eq!(d.num_unstaged_changes, 3);
    assert_eq!(d.num_conflicted_changes, 4);
    assert_eq!(d.num_untrached_files, 5);
    assert_eq!(d.commits_ahead, 6);
    assert_eq!(d.commits_behind, 7);
    assert_eq!(d.num_stashes, 8);
    assert_eq!(d.last_tag, "tag");
    assert_eq!(d.num_unstaged_deleted, 9);
    assert_eq!(d.num_staged_new, 10);
    assert_eq!(d.num_staged_deleted, 11);
    assert_eq!(d.push_remote_name, "push");
    assert_eq!(d.push_remote_url, "purl");
    assert_eq!(d.commits_ahead_push_remote, 12);
    assert_eq!(d.commits_behind_push_remote, 13);
    assert_eq!(d.num_index_skip_worktree, 14);
    assert_eq!(d.num_index_assume_unchanged, 4294967295);
}

#[test]
fn plus_sign_count_is_invalid_integer() {
    let mut counts = ["0"; 15];
    counts[0] = "+12";
    let got: Result<GitStatus, ResponceParseError> = full_record(counts).parse();
    assert_eq!(got, Err(int_error("+")));
    let mut counts = ["0"; 15];
    counts[14] = "+";
    responce_test(&full_record(counts), Err(int_error("+")));
}

#[test]
fn leading_zeros_count_is_accepted() {
    let mut counts = ["0"; 15];
    counts[2] = "007";
    let got: GitStatus = full_record(counts).parse().unwrap();
    assert_eq!(got.details.unwrap().num_unstaged_changes, 7);
}

#[test]
fn extra_fields_after_details_are_ignored() {
    let mut rec = full_record(["3"; 15]);
    rec.push_str("\x1fextra");
    let got: GitStatus = rec.parse().unwrap();
    assert_eq!(got.details.unwrap().num_index_assume_unchanged, 3);
}

#[test]
fn inherent_decoder_matches_from_str_trait() {
    let a = GitStatus::from_str("q\x1f0");
    assert_eq!(a, Ok(GitStatus { id: "q".to_owned(), details: None }));
}

#[test]
fn parse_error_from_int_error() {
    let e = "z".parse::<u32>().unwrap_err();
    assert_eq!(ResponceParseError::from(e.clone()), ResponceParseError::ParseIntError(e));
}

#[test]
fn frame_without_terminator_is_unterminated() {
    assert_eq!(decode_frame(b""), Err(FrameError::Unterminated));
    assert_eq!(decode_frame(b"id\x1f0"), Err(FrameError::Unterminated));
}

#[test]
fn frame_with_invalid_text_is_rejected() {
    let bytes: &[u8] = b"id\xff\x1f0\x1e";
    let e = std::str::from_utf8(&bytes[..bytes.len() - 1]).unwrap_err();
    assert_eq!(decode_frame(bytes), Err(FrameError::NotText(e)));
}

#[test]
fn frame_is_decoded_without_terminator() {
    assert_eq!(
        decode_frame(b"id1\x1f0\x1e"),
        Ok(GitStatus { id: "id1".to_owned(), details: None })
    );
    assert_eq!(
        decode_frame("é\x1f0\x1e".as_bytes()),
        Ok(GitStatus { id: "é".to_owned(), details: None })
    );
    assert_eq!(decode_frame(b"\x1e"), Err(FrameError::Parse(ResponceParseError::TooShort)));
    assert_eq!(decode_frame(b"id\x1f7\x1e"), Err(FrameError::Parse(ResponceParseError::InvalidPart)));
}
