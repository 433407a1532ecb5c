//! The index and its management strategies.

use vstd::prelude::*;
use vstd::string::{StringExecFns, StrSliceExecFns};
use crate::error::IndexError;
use crate::layout::{lower_of, record_path, shard_path_of};

verus! {

/// An index managed through the `git` command line, in a working tree at `path`.
#[derive(Debug, Clone, PartialEq)]
pub struct CommandLineIndex {
    /// Root of the working tree.
    pub path: String,
}

/// The index management strategy in use.
#[derive(Debug, Clone, PartialEq)]
pub enum Index {
    /// Manages the index through the `git` command line.
    CommandLine(CommandLineIndex),
}

/// The root of the working tree of an index.
pub open spec fn root_of(idx: Index) -> Seq<char> {
    match idx {
        Index::CommandLine(c) => c.path@,
    }
}

/// Whether a character is a line end or other white space.
pub open spec fn is_space(c: char) -> bool {
    c == ' ' || c == '\t' || c == '\n' || c == '\r'
}

/// The text without the white space at its end.
pub open spec fn trim_end(s: Seq<char>) -> Seq<char>
    decreases s.len(),
{
    if s.len() > 0 && is_space(s.last()) {
        trim_end(s.drop_last())
    } else {
        s
    }
}

/// Whether a remote location can be used: not empty, no white space in it.
pub open spec fn usable_url(u: Seq<char>) -> bool {
    u.len() > 0 && forall|i: int| 0 <= i < u.len() ==> !is_space(#[trigger] u[i])
}

/// The remote location from what the version-control tool printed for it:
/// the text without its trailing line end, or `ConfigurationError` where
/// nothing usable is left.
pub fn remote_url(printed: &str) -> (r: Result<String, IndexError>)
    ensures
        r is Ok <==> usable_url(trim_end(printed@)),
        r matches Ok(u) ==> u@ == trim_end(printed@),
        r matches Err(e) ==> e is ConfigurationError,
{
    let mut end: usize = printed.unicode_len();
    assert(printed@.subrange(0, end as int) =~= printed@);
    while end > 0 && is_space_char(printed.get_char(end - 1))
        invariant
            end <= printed@.len(),
            trim_end(printed@.subrange(0, end as int)) == trim_end(printed@),
        decreases end,
    {
        assert(printed@.subrange(0, end as int).drop_last() =~= printed@.subrange(0, end - 1));
        end = end - 1;
    }
    let u = printed.substring_char(0, end);
    assert(u@ == trim_end(printed@));
    if end == 0 {
        return Err(IndexError::ConfigurationError);
    }
    let mut i: usize = 0;
    while i < end
        invariant
            i <= end,
            end == u@.len(),
            u@ == trim_end(printed@),
            forall|j: int| 0 <= j < i ==> !is_space(#[trigger] u@[j]),
        decreases end - i,
    {
        if is_space_char(u.get_char(i)) {
            assert(!usable_url(u@)) by {
                assert(is_space(u@[i as int]));
            }
            return Err(IndexError::ConfigurationError);
        }
        i = i + 1;
    }
    Ok(String::from_str(u))
}

fn is_space_char(c: char) -> (r: bool)
    ensures
        r == is_space(c),
{
    c == ' ' || c == '\t' || c == '\n' || c == '\r'
}

impl Index {
    /// The root of the working tree.
    pub fn path(&self) -> (r: &String)
        ensures
            r@ == root_of(*self),
    {
        match self {
            Index::CommandLine(idx) => &idx.path,
        }
    }

    /// The path of the record file of a package: the root of the tree,
    /// then its sharded place; `None` for a name that folds to nothing.
    pub fn record_path(&self, name: &str) -> (r: Option<String>)
        ensures
            r is Some <==> lower_of(name@).len() > 0,
            r matches Some(p) ==> p@ == root_of(*self) + seq!['/'] + shard_path_of(lower_of(name@)),
    {
        match record_path(name) {
            None => None,
            Some(rel) => {
                let mut p = self.path().clone();
                p.append("/");
                proof { reveal_strlit("/"); }
                p.append(rel.as_str());
                Some(p)
            },
        }
    }
}

} // verus!
