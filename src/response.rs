//! Decoding of the worker's response records.

use vstd::prelude::*;
use crate::fields::{
    count_value, decimal_u32, is_decimal_digit, starts_with_plus, lemma_split_concat, lemma_split_nonempty, lemma_split_single,
    parse_u32, split_fields, split_on, FIELD_SEP,
};

verus! {

/// The result of a request for the git status.
///
/// If the requested directory is inside a git repository, `details` holds
/// what the worker reported about it.
#[derive(Debug, PartialEq)]
pub struct GitStatus {
    /// Request id, echoed from the first field of the request.
    pub id: String,
    /// The repository state, or `None` outside a repository.
    pub details: Option<GitDetails>,
}

/// Details about git state.
///
/// Renamed files are reported as deleted plus new.
#[derive(Debug, PartialEq)]
pub struct GitDetails {
    /// Absolute path to the git repository workdir.
    pub abspath: String,
    /// Commit hash that HEAD is pointing to. 40 hex digits.
    pub head_commit_hash: String,
    /// Local branch name or empty if not on a branch.
    pub local_branch: String,
    /// Upstream branch name. Can be empty.
    pub upstream_branch: String,
    /// The remote name, e.g. "upstream" or "origin".
    pub remote_name: String,
    /// Remote URL. Can be empty.
    pub remote_url: String,
    /// Repository state, A.K.A. action. Can be empty.
    pub repository_state: String,
    /// The number of files in the index.
    pub num_files_in_index: u32,
    /// The number of staged changes.
    pub num_staged_changes: u32,
    /// The number of unstaged changes.
    pub num_unstaged_changes: u32,
    /// The number of conflicted changes.
    pub num_conflicted_changes: u32,
    /// The number of untracked files.
    pub num_untrached_files: u32,
    /// Number of commits the current branch is ahead of upstream.
    pub commits_ahead: u32,
    /// Number of commits the current branch is behind upstream.
    pub commits_behind: u32,
    /// The number of stashes.
    pub num_stashes: u32,
    /// The last tag (in lexicographical order) that points to the same
    /// commit as HEAD.
    pub last_tag: String,
    /// The number of unstaged deleted files.
    pub num_unstaged_deleted: u32,
    /// The number of staged new files.
    pub num_staged_new: u32,
    /// The number of staged deleted files.
    pub num_staged_deleted: u32,
    /// The push remote name, e.g. "upstream" or "origin".
    pub push_remote_name: String,
    /// Push remote URL. Can be empty.
    pub push_remote_url: String,
    /// Number of commits the current branch is ahead of push remote.
    pub commits_ahead_push_remote: u32,
    /// Number of commits the current branch is behind push remote.
    pub commits_behind_push_remote: u32,
    /// Number of files in the index with skip-worktree bit set.
    pub num_index_skip_worktree: u32,
    /// Number of files in the index with assume-unchanged bit set.
    pub num_index_assume_unchanged: u32,
}

/// Why a response record could not be decoded.
#[derive(Debug, PartialEq)]
pub enum ResponceParseError {
    /// The record ended before all required fields were present.
    TooShort,
    /// The repository flag was neither `0` nor `1`.
    InvalidPart,
    /// A count field is not one or more ASCII digits whose value fits in a
    /// `u32`.
    ParseIntError(std::num::ParseIntError),
}

impl From<std::num::ParseIntError> for ResponceParseError {
    fn from(e: std::num::ParseIntError) -> (r: Self)
        ensures
            r == ResponceParseError::ParseIntError(e),
    {
        ResponceParseError::ParseIntError(e)
    }
}

impl vstd::std_specs::convert::FromSpecImpl<std::num::ParseIntError> for ResponceParseError {
    open spec fn obeys_from_spec() -> bool {
        true
    }

    open spec fn from_spec(e: std::num::ParseIntError) -> Self {
        ResponceParseError::ParseIntError(e)
    }
}

/// Index of the last field of a record that carries repository details.
pub const LAST_FIELD: usize = 26;

/// Whether field `k` of a record with details holds a count (the others hold
/// text). Fields 0 and 1 are the id and the repository flag.
pub open spec fn is_count_field(k: int) -> bool {
    (9 <= k <= 16) || (18 <= k <= 20) || (23 <= k <= 26)
}

/// Field `k` (one of the detail fields) is present and, for a count, well formed.
pub open spec fn field_ok(p: Seq<Seq<char>>, k: int) -> bool {
    k < p.len() && (is_count_field(k) ==> count_value(p[k]) is Some)
}

/// Every detail field is present and well formed.
pub open spec fn all_fields_ok(p: Seq<Seq<char>>) -> bool {
    forall|k: int| 2 <= k <= LAST_FIELD ==> #[trigger] field_ok(p, k)
}

/// Field `k` is the first detail field, reading left to right, that is
/// missing or malformed.
pub open spec fn first_fault_at(p: Seq<Seq<char>>, k: int) -> bool {
    &&& 2 <= k <= LAST_FIELD
    &&& !field_ok(p, k)
    &&& forall|j: int| 2 <= j < k ==> #[trigger] field_ok(p, j)
}

/// The count that field `k` spells.
pub open spec fn count_at(p: Seq<Seq<char>>, k: int) -> u32 {
    count_value(p[k])->Some_0
}

/// `d` holds the detail fields of `p`, in record order.
pub open spec fn details_from_fields(d: GitDetails, p: Seq<Seq<char>>) -> bool {
    &&& d.abspath@ == p[2]
    &&& d.head_commit_hash@ == p[3]
    &&& d.local_branch@ == p[4]
    &&& d.upstream_branch@ == p[5]
    &&& d.remote_name@ == p[6]
    &&& d.remote_url@ == p[7]
    &&& d.repository_state@ == p[8]
    &&& d.num_files_in_index == count_at(p, 9)
    &&& d.num_staged_changes == count_at(p, 10)
    &&& d.num_unstaged_changes == count_at(p, 11)
    &&& d.num_conflicted_changes == count_at(p, 12)
    &&& d.num_untrached_files == count_at(p, 13)
    &&& d.commits_ahead == count_at(p, 14)
    &&& d.commits_behind == count_at(p, 15)
    &&& d.num_stashes == count_at(p, 16)
    &&& d.last_tag@ == p[17]
    &&& d.num_unstaged_deleted == count_at(p, 18)
    &&& d.num_staged_new == count_at(p, 19)
    &&& d.num_staged_deleted == count_at(p, 20)
    &&& d.push_remote_name@ == p[21]
    &&& d.push_remote_url@ == p[22]
    &&& d.commits_ahead_push_remote == count_at(p, 23)
    &&& d.commits_behind_push_remote == count_at(p, 24)
    &&& d.num_index_skip_worktree == count_at(p, 25)
    &&& d.num_index_assume_unchanged == count_at(p, 26)
}

/// `r` is what decoding the record text `s` gives: the id is field 0; a
/// repository flag `0` ends the record (anything after it is ignored); a
/// flag `1` asks for all detail fields; the first missing or malformed field,
/// read left to right, decides the error.
pub open spec fn decodes(s: Seq<char>, r: Result<GitStatus, ResponceParseError>) -> bool {
    let p = split_on(s, FIELD_SEP);
    match r {
        Ok(st) => {
            &&& p.len() >= 2
            &&& st.id@ == p[0]
            &&& if p[1] == seq!['0'] {
                st.details is None
            } else {
                &&& p[1] == seq!['1']
                &&& all_fields_ok(p)
                &&& st.details matches Some(d) && details_from_fields(d, p)
            }
        },
        Err(ResponceParseError::TooShort) => p.len() < 2 || (p[1] == seq!['1'] && exists|k: int|
            #[trigger] first_fault_at(p, k) && k >= p.len()),
        Err(ResponceParseError::InvalidPart) => {
            &&& p.len() >= 2
            &&& p[1] != seq!['0']
            &&& p[1] != seq!['1']
        },
        Err(ResponceParseError::ParseIntError(_)) => {
            &&& p.len() >= 2
            &&& p[1] == seq!['1']
            &&& exists|k: int| #[trigger] first_fault_at(p, k) && k < p.len()
        },
    }
}

fn is_count_slot(k: usize) -> (r: bool)
    ensures
        r == is_count_field(k as int),
{
    (9 <= k && k <= 16) || (18 <= k && k <= 20) || (23 <= k && k <= 26)
}

impl GitStatus {
    /// Decodes one response record (without its terminator).
    pub fn from_str(s: &str) -> (r: Result<GitStatus, ResponceParseError>)
        ensures
            decodes(s@, r),
    {
        let parts = split_fields(s, FIELD_SEP);
        let ghost p = split_on(s@, FIELD_SEP);
        assert(p.len() == parts.len());
        assert(forall|k: int| 0 <= k < parts.len() ==> #[trigger] p[k] == parts[k]@);
        if parts.len() < 2 {
            return Err(ResponceParseError::TooShort);
        }
        let zero = "0".to_owned();
        let one = "1".to_owned();
        proof {
            reveal_strlit("0");
            reveal_strlit("1");
            assert(zero@ =~= seq!['0']);
            assert(one@ =~= seq!['1']);
        }
        if parts[1] == zero {
            return Ok(GitStatus { id: parts[0].clone(), details: None });
        }
        if !(parts[1] == one) {
            return Err(ResponceParseError::InvalidPart);
        }
        let mut values: Vec<u32> = Vec::new();
        let mut k: usize = 2;
        while k <= LAST_FIELD
            invariant
                2 <= k <= LAST_FIELD + 1,
                values.len() == k - 2,
                p == split_on(s@, FIELD_SEP),
                p.len() == parts.len(),
                forall|j: int| 0 <= j < parts.len() ==> #[trigger] p[j] == parts[j]@,
                p[1] == seq!['1'],
                forall|j: int| 2 <= j < k ==> #[trigger] field_ok(p, j),
                forall|j: int|
                    2 <= j < k && is_count_field(j) ==> count_value(#[trigger] p[j]) == Some(
                        values[j - 2],
                    ),
            decreases LAST_FIELD + 1 - k,
        {
            if k >= parts.len() {
                assert(first_fault_at(p, k as int));
                return Err(ResponceParseError::TooShort);
            }
            if is_count_slot(k) {
                // A count is digits only. std would take a leading `+`, so
                // such a field is checked as the bare sign, which std
                // rejects as an invalid digit.
                let field = parts[k].as_str();
                let plus = starts_with_plus(field);
                let checked = if plus {
                    "+"
                } else {
                    field
                };
                proof {
                    reveal_strlit("+");
                    if plus {
                        assert(!is_decimal_digit(p[k as int][0]));
                        assert(decimal_u32(checked@) is None);
                    } else {
                        assert(decimal_u32(checked@) == count_value(p[k as int]));
                    }
                }
                match parse_u32(checked) {
                    Ok(v) => values.push(v),
                    Err(e) => {
                        assert(first_fault_at(p, k as int));
                        return Err(ResponceParseError::from(e));
                    },
                }
            } else {
                values.push(0);
            }
            assert(field_ok(p, k as int));
            k += 1;
        }
        assert(field_ok(p, LAST_FIELD as int));
        let details = GitDetails {
            abspath: parts[2].clone(),
            head_commit_hash: parts[3].clone(),
            local_branch: parts[4].clone(),
            upstream_branch: parts[5].clone(),
            remote_name: parts[6].clone(),
            remote_url: parts[7].clone(),
            repository_state: parts[8].clone(),
            num_files_in_index: values[7],
            num_staged_changes: values[8],
            num_unstaged_changes: values[9],
            num_conflicted_changes: values[10],
            num_untrached_files: values[11],
            commits_ahead: values[12],
            commits_behind: values[13],
            num_stashes: values[14],
            last_tag: parts[17].clone(),
            num_unstaged_deleted: values[16],
            num_staged_new: values[17],
            num_staged_deleted: values[18],
            push_remote_name: parts[21].clone(),
            push_remote_url: parts[22].clone(),
            commits_ahead_push_remote: values[21],
            commits_behind_push_remote: values[22],
            num_index_skip_worktree: values[23],
            num_index_assume_unchanged: values[24],
        };
        assert(is_count_field(9) && is_count_field(16) && is_count_field(18) && is_count_field(20)
            && is_count_field(23) && is_count_field(26));
        Ok(GitStatus { id: parts[0].clone(), details: Some(details) })
    }
}

/// A record whose repository flag is `0` decodes to its id with no details,
/// whatever follows the flag field.
pub proof fn lemma_not_repo_ignores_rest(
    id: Seq<char>,
    tail: Seq<char>,
    r: Result<GitStatus, ResponceParseError>,
)
    requires
        !id.contains(FIELD_SEP),
        tail.len() == 0 || tail[0] == FIELD_SEP,
        decodes(id + seq![FIELD_SEP, '0'] + tail, r),
    ensures
        r matches Ok(st) && st.id@ == id && st.details is None,
{
    let s = id + seq![FIELD_SEP, '0'] + tail;
    let after = seq!['0'] + tail;
    assert(s =~= id + seq![FIELD_SEP] + after);
    lemma_split_concat(id, after, FIELD_SEP);
    lemma_split_single(id, FIELD_SEP);
    assert(!seq!['0'].contains(FIELD_SEP)) by {
        if seq!['0'].contains(FIELD_SEP) {
            let i = choose|i: int| 0 <= i < seq!['0'].len() && seq!['0'][i] == FIELD_SEP;
            assert(seq!['0'][0] == '0');
        }
    }
    lemma_split_single(seq!['0'], FIELD_SEP);
    if tail.len() == 0 {
        assert(after =~= seq!['0']);
    } else {
        let more = tail.drop_first();
        assert(after =~= seq!['0'] + seq![FIELD_SEP] + more);
        lemma_split_concat(seq!['0'], more, FIELD_SEP);
        lemma_split_nonempty(more, FIELD_SEP);
    }
    let p = split_on(s, FIELD_SEP);
    assert(p[0] == id);
    assert(p[1] == seq!['0']);
}

/// Once the flag is `1` and every field before it is well formed, a count
/// field holding a character that is not a digit (a sign included) makes
/// decoding fail with `ParseIntError`.
pub proof fn lemma_bad_count_rejected(
    s: Seq<char>,
    k: int,
    i: int,
    r: Result<GitStatus, ResponceParseError>,
)
    requires
        is_count_field(k),
        split_on(s, FIELD_SEP).len() > k,
        split_on(s, FIELD_SEP)[1] == seq!['1'],
        forall|j: int| 2 <= j < k ==> #[trigger] field_ok(split_on(s, FIELD_SEP), j),
        0 <= i < split_on(s, FIELD_SEP)[k].len(),
        !is_decimal_digit(split_on(s, FIELD_SEP)[k][i]),
        decodes(s, r),
    ensures
        r matches Err(ResponceParseError::ParseIntError(_)),
{
    let p = split_on(s, FIELD_SEP);
    let f = p[k];
    assert(!is_decimal_digit(f[i]));
    assert(count_value(f) is None);
    assert(first_fault_at(p, k));
    assert forall|m: int| #[trigger] first_fault_at(p, m) implies m == k by {
        if m < k {
            assert(field_ok(p, m));
        } else if m > k {
            assert(field_ok(p, k));
        }
    }
    assert(!field_ok(p, k));
    assert(!all_fields_ok(p));
    assert(p[1] != seq!['0']) by {
        assert(p[1][0] == '1');
    }
}

impl std::str::FromStr for GitStatus {
    type Err = ResponceParseError;

    fn from_str(s: &str) -> Result<Self, Self::Err> {
        GitStatus::from_str(s)
    }
}

} // verus!
