//! Encoding of status requests.

use vstd::prelude::*;
use crate::fields::{lemma_split_concat, lemma_split_single, split_on, FIELD_SEP, RECORD_TERM};

verus! {

/// Tell the worker whether or not to read the git index.
#[derive(Copy, Clone, Debug, Hash)]
pub enum ReadIndex {
    /// Default behavior of computing everything.
    ReadAll,
    /// Disables computation of anything that requires reading the git index.
    DontRead,
}

/// A request to be sent to the worker.
pub struct StatusRequest {
    /// The request id; can be blank.
    pub id: String,
    /// Path to the directory for which git stats are being requested.
    ///
    /// If the first character is ':', it is removed and the remaining path is
    /// treated as GIT_DIR.
    pub dir: String,
    /// Whether or not to read the git index.
    pub read_index: ReadIndex,
}

/// The wire digit of a `ReadIndex`.
pub open spec fn index_flag(ri: ReadIndex) -> char {
    match ri {
        ReadIndex::ReadAll => '0',
        ReadIndex::DontRead => '1',
    }
}

/// The request frame: id, directory and index flag joined by the field
/// separator, then the record terminator.
pub open spec fn encoded(r: StatusRequest) -> Seq<char> {
    r.id@ + seq![FIELD_SEP] + r.dir@ + seq![FIELD_SEP] + seq![index_flag(r.read_index)] + seq![
        RECORD_TERM,
    ]
}

impl StatusRequest {
    /// The frame that is written to the worker for this request. Nothing is
    /// escaped: an id or a directory holding a separator or the terminator
    /// yields a frame that the worker reads differently.
    pub fn to_string(&self) -> (r: String)
        ensures
            r@ == encoded(*self),
    {
        let mut out = self.id.clone();
        out.append("\x1f");
        out.append(self.dir.as_str());
        out.append("\x1f");
        match self.read_index {
            ReadIndex::ReadAll => out.append("0"),
            ReadIndex::DontRead => out.append("1"),
        }
        out.append("\x1e");
        proof {
            reveal_strlit("\x1f");
            reveal_strlit("\x1e");
            reveal_strlit("0");
            reveal_strlit("1");
        }
        assert(out@ =~= encoded(*self));
        out
    }
}

/// The frame of a request starts with the request's id, verbatim, followed
/// by the field separator.
pub proof fn lemma_encode_keeps_id(r: StatusRequest)
    ensures
        encoded(r).subrange(0, r.id@.len() as int) == r.id@,
        encoded(r)[r.id@.len() as int] == FIELD_SEP,
{
    assert(encoded(r).subrange(0, r.id@.len() as int) =~= r.id@);
}

/// A request whose id and directory hold neither the separator nor the
/// terminator reads back from its frame: the terminator is the frame's last
/// character and occurs nowhere else, and what precedes it splits into
/// exactly the id, the directory and the index flag.
pub proof fn lemma_request_round_trip(r: StatusRequest)
    requires
        !r.id@.contains(FIELD_SEP),
        !r.id@.contains(RECORD_TERM),
        !r.dir@.contains(FIELD_SEP),
        !r.dir@.contains(RECORD_TERM),
    ensures
        encoded(r).last() == RECORD_TERM,
        !encoded(r).drop_last().contains(RECORD_TERM),
        split_on(encoded(r).drop_last(), FIELD_SEP) == seq![
            r.id@,
            r.dir@,
            seq![index_flag(r.read_index)],
        ],
{
    let f = seq![index_flag(r.read_index)];
    let tail = r.dir@ + seq![FIELD_SEP] + f;
    let body = encoded(r).drop_last();
    assert(body =~= r.id@ + seq![FIELD_SEP] + tail);
    lemma_split_concat(r.id@, tail, FIELD_SEP);
    lemma_split_concat(r.dir@, f, FIELD_SEP);
    lemma_split_single(r.id@, FIELD_SEP);
    lemma_split_single(r.dir@, FIELD_SEP);
    assert(!f.contains(FIELD_SEP)) by {
        if f.contains(FIELD_SEP) {
            let i = choose|i: int| 0 <= i < f.len() && f[i] == FIELD_SEP;
            assert(f[0] == FIELD_SEP);
        }
    }
    lemma_split_single(f, FIELD_SEP);
    assert(split_on(body, FIELD_SEP) =~= seq![r.id@, r.dir@, f]);
    assert(!body.contains(RECORD_TERM)) by {
        if body.contains(RECORD_TERM) {
            let i = choose|i: int| 0 <= i < body.len() && body[i] == RECORD_TERM;
            let n = r.id@.len() as int;
            let m = r.dir@.len() as int;
            if i < n {
                assert(r.id@[i] == RECORD_TERM);
            } else if n < i < n + 1 + m {
                assert(r.dir@[i - n - 1] == RECORD_TERM);
            }
        }
    }
}

} // verus!
