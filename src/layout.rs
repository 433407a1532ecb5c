//! Where a package's record file lives in the index tree.
//!
//! Names are folded to lower case, then sharded by length: `1/a`, `2/ab`,
//! `3/a/abc`, and `ab/cd/abcd...` for longer names.

use vstd::prelude::*;
use vstd::string::{StringExecFns, StrSliceExecFns};

verus! {

/// What `str::to_lowercase` returns for the text.
pub uninterp spec fn lower_of(s: Seq<char>) -> Seq<char>;

/// Relies on `str::to_lowercase`: the lower-case form of a name, which
/// depends on its characters alone; an empty text stays empty.
#[verifier::external_body]
fn lowercase(s: &str) -> (r: String)
    ensures
        r@ == lower_of(s@),
        s@.len() == 0 ==> r@.len() == 0,
{
    s.to_lowercase()
}

/// The directory of the record file of a (folded) name.
pub open spec fn shard_dir(n: Seq<char>) -> Seq<char> {
    if n.len() == 1 {
        seq!['1']
    } else if n.len() == 2 {
        seq!['2']
    } else if n.len() == 3 {
        seq!['3', '/', n[0]]
    } else {
        n.subrange(0, 2) + seq!['/'] + n.subrange(2, 4)
    }
}

/// The path of the record file of a (folded) name, relative to the tree.
pub open spec fn shard_path_of(n: Seq<char>) -> Seq<char> {
    shard_dir(n) + seq!['/'] + n
}

/// The path of the record file of a name that is already in lower case;
/// `None` for the empty name.
pub fn shard_path(folded: &str) -> (r: Option<String>)
    ensures
        r is Some <==> folded@.len() > 0,
        r matches Some(p) ==> p@ == shard_path_of(folded@),
{
    let n = folded.unicode_len();
    if n == 0 {
        return None;
    }
    let mut p: String;
    if n == 1 {
        p = String::from_str("1");
        proof { reveal_strlit("1"); }
    } else if n == 2 {
        p = String::from_str("2");
        proof { reveal_strlit("2"); }
    } else if n == 3 {
        p = String::from_str("3/");
        proof { reveal_strlit("3/"); }
        p.append(folded.substring_char(0, 1));
    } else {
        p = String::from_str(folded.substring_char(0, 2));
        p.append("/");
        proof { reveal_strlit("/"); }
        p.append(folded.substring_char(2, 4));
    }
    assert(p@ =~= shard_dir(folded@));
    p.append("/");
    proof { reveal_strlit("/"); }
    p.append(folded);
    assert(p@ =~= shard_path_of(folded@));
    Some(p)
}

/// The path of the record file of a package, relative to the tree; `None`
/// for a name that folds to nothing.
pub fn record_path(name: &str) -> (r: Option<String>)
    ensures
        r is Some <==> lower_of(name@).len() > 0,
        r matches Some(p) ==> p@ == shard_path_of(lower_of(name@)),
{
    let folded = lowercase(name);
    shard_path(folded.as_str())
}

} // verus!
