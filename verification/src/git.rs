//! The branch snapshot: what the repository reports of each local branch,
//! as plain values, and its decoding into `Branch` records.
//!
//! The surrounding program enumerates the repository's local branch
//! references and hands the raw per-branch data (`RawBranch`) to
//! [`get_branches`], which decodes the textual fields, normalizes the commit
//! timestamp to local time, and returns the records sorted ascending by that
//! time. Opening the repository and deleting a branch are repository I/O and
//! stay outside the library.

use vstd::prelude::*;
use vstd::utf8::decode_utf8;
use vstd::utf8::valid_utf8;
use crate::sort::sort_branches;
use crate::sort::stable_sorted;

verus! {

/// An error of the library itself: a branch name or commit message that is
/// not valid UTF-8 text.
#[derive(Clone, Copy, Debug, PartialEq, Eq, Structural)]
pub enum HandlerError {
    Utf8,
}

/// One local branch of the snapshot, immutable once constructed.
#[derive(Debug)]
pub struct Branch {
    /// The tip commit's timestamp in seconds, normalized to local time by
    /// adding the commit's UTC offset.
    pub time: i64,
    /// The hash identifying the tip commit, in its textual form.
    pub commit_id: String,
    /// The branch's short name.
    pub name: String,
    /// The raw commit message of the tip commit.
    pub message: String,
    /// Whether this branch is the repository's currently checked-out branch.
    pub is_head: bool,
}

/// What the repository reports of one local branch, before decoding:
/// the undecoded name and message bytes, the textual commit id, the commit
/// timestamp with its UTC offset in minutes, and the head flag.
#[derive(Debug)]
pub struct RawBranch {
    pub name_bytes: Vec<u8>,
    pub commit_id: String,
    pub message_bytes: Vec<u8>,
    pub seconds: i64,
    pub offset_minutes: i32,
    pub is_head: bool,
}

/// The commit timestamp normalized to local time: the offset, given in
/// minutes, added to the timestamp in seconds.
pub open spec fn local_time_of(seconds: i64, offset_minutes: i32) -> int {
    seconds + 60 * (offset_minutes as int)
}

/// The normalized timestamp fits the machine's signed 64-bit range.
pub open spec fn time_in_range(seconds: i64, offset_minutes: i32) -> bool {
    i64::MIN <= local_time_of(seconds, offset_minutes) <= i64::MAX
}

/// Both textual fields of a raw record are valid UTF-8.
pub open spec fn raw_decodes(r: RawBranch) -> bool {
    valid_utf8(r.name_bytes@) && valid_utf8(r.message_bytes@)
}

/// Every raw record of the snapshot decodes.
pub open spec fn all_raws_decode(rs: Seq<RawBranch>) -> bool {
    forall|i: int| 0 <= i < rs.len() ==> raw_decodes(#[trigger] rs[i])
}

/// `b` is exactly the decoding of the raw record `r`.
pub open spec fn branch_of_raw(b: Branch, r: RawBranch) -> bool {
    &&& valid_utf8(r.name_bytes@)
    &&& b.name@ == decode_utf8(r.name_bytes@)
    &&& valid_utf8(r.message_bytes@)
    &&& b.message@ == decode_utf8(r.message_bytes@)
    &&& b.commit_id@ == r.commit_id@
    &&& b.time == local_time_of(r.seconds, r.offset_minutes)
    &&& b.is_head == r.is_head
}

/// `bs` is, record by record, the decoding of the raw snapshot `rs`.
pub open spec fn branches_of_raws(bs: Seq<Branch>, rs: Seq<RawBranch>) -> bool {
    &&& bs.len() == rs.len()
    &&& forall|i: int| 0 <= i < rs.len() ==> branch_of_raw(#[trigger] bs[i], rs[i])
}

/// Relies on `String::from_utf8`: it returns the string decoded from the
/// given bytes exactly when they are valid UTF-8, and its error otherwise.
#[verifier::external_body]
fn utf8_to_string(bytes: Vec<u8>) -> (r: Result<String, HandlerError>)
    ensures
        r is Ok <==> valid_utf8(bytes@),
        r matches Ok(s) ==> s@ == decode_utf8(bytes@),
{
    match String::from_utf8(bytes) {
        Ok(s) => Ok(s),
        Err(_) => Err(HandlerError::Utf8),
    }
}

/// The commit timestamp normalized to local time, as an executable value.
pub fn local_time(seconds: i64, offset_minutes: i32) -> (r: i64)
    requires
        time_in_range(seconds, offset_minutes),
    ensures
        r == local_time_of(seconds, offset_minutes),
{
    seconds + 60 * (offset_minutes as i64)
}

/// Decode one raw record into a `Branch`; fails exactly when the name or the
/// message is not valid UTF-8.
pub fn build_branch(raw: RawBranch) -> (r: Result<Branch, HandlerError>)
    requires
        time_in_range(raw.seconds, raw.offset_minutes),
    ensures
        r is Ok <==> raw_decodes(raw),
        r matches Ok(b) ==> branch_of_raw(b, raw),
        r matches Err(e) ==> e is Utf8,
{
    let RawBranch { name_bytes, commit_id, message_bytes, seconds, offset_minutes, is_head } = raw;
    let name = match utf8_to_string(name_bytes) {
        Ok(s) => s,
        Err(e) => {
            return Err(e);
        },
    };
    let message = match utf8_to_string(message_bytes) {
        Ok(s) => s,
        Err(e) => {
            return Err(e);
        },
    };
    let time = local_time(seconds, offset_minutes);
    Ok(Branch { time, commit_id, name, message, is_head })
}

/// Decode a raw snapshot into the branch list, sorted ascending by the
/// normalized commit time, stably. Fails, with no partial list, exactly when
/// some record's name or message is not valid UTF-8.
#[verifier::loop_isolation(false)]
pub fn get_branches(raws: Vec<RawBranch>) -> (r: Result<Vec<Branch>, HandlerError>)
    requires
        forall|i: int| 0 <= i < raws@.len() ==> time_in_range(
            (#[trigger] raws@[i]).seconds,
            raws@[i].offset_minutes,
        ),
    ensures
        r is Ok <==> all_raws_decode(raws@),
        r matches Ok(v) ==> exists|mid: Seq<Branch>| #[trigger] branches_of_raws(mid, raws@)
            && v@ == stable_sorted(mid),
        r matches Ok(v) ==> v@.len() == raws@.len() && crate::sort::sorted_by_time(v@),
        r matches Err(e) ==> e is Utf8,
{
    let ghost orig = raws@;
    let mut rest = raws;
    let mut built: Vec<Branch> = Vec::new();
    proof {
        assert(orig.skip(0) =~= orig);
        assert(orig.take(0) =~= Seq::<RawBranch>::empty());
    }
    while rest.len() > 0
        invariant
            rest@.len() <= orig.len(),
            rest@ == orig.skip(orig.len() - rest@.len()),
            built@.len() + rest@.len() == orig.len(),
            branches_of_raws(built@, orig.take(built@.len() as int)),
            forall|i: int| 0 <= i < orig.len() ==> time_in_range(
                (#[trigger] orig[i]).seconds,
                orig[i].offset_minutes,
            ),
        decreases rest@.len(),
    {
        let ghost k = built@.len() as int;
        let raw = rest.remove(0);
        proof {
            assert(raw == orig[k]);
            assert(rest@ =~= orig.skip(k + 1));
        }
        let b = match build_branch(raw) {
            Ok(b) => b,
            Err(e) => {
                proof {
                    assert(!all_raws_decode(raws@)) by {
                        assert(raws@[k] == orig[k]);
                        assert(!raw_decodes(raws@[k]));
                    }
                }
                return Err(e);
            },
        };
        built.push(b);
        proof {
            assert(orig.take(k + 1) =~= orig.take(k).push(orig[k]));
            assert(forall|i: int| 0 <= i < k + 1 ==> branch_of_raw(
                #[trigger] built@[i],
                orig.take(k + 1)[i],
            ));
        }
    }
    proof {
        assert(orig.take(orig.len() as int) =~= orig);
        assert forall|i: int| 0 <= i < orig.len() implies raw_decodes(#[trigger] orig[i]) by {
            assert(branch_of_raw(built@[i], orig[i]));
        }
    }
    let ghost mid = built@;
    let sorted = sort_branches(built);
    proof {
        assert(branches_of_raws(mid, orig) && sorted@ == stable_sorted(mid));
        crate::sort::lemma_stable_sorted_len(mid);
        crate::sort::lemma_sort_sorted_and_stable(mid);
    }
    Ok(sorted)
}

/// The first branch of the snapshot that carries the head flag, if any.
pub fn find_head(branches: &Vec<Branch>) -> (r: Option<usize>)
    ensures
        r matches Some(i) ==> i < branches@.len() && branches@[i as int].is_head
            && forall|k: int| 0 <= k < i ==> !branches@[k].is_head,
        r is None ==> forall|k: int| 0 <= k < branches@.len() ==> !branches@[k].is_head,
{
    let mut i: usize = 0;
    while i < branches.len()
        invariant
            i <= branches@.len(),
            forall|k: int| 0 <= k < i ==> !branches@[k].is_head,
        decreases branches@.len() - i,
    {
        if branches[i].is_head {
            return Some(i);
        }
        i = i + 1;
    }
    None
}

} // verus!
