//! The record list of one package: lookups, additions and alterations.
//!
//! A list holds the records of one package in the order they were
//! published; within it each `(name, version)` pair stands at most once.

use vstd::prelude::*;
use vstd::string::StringExecFns;
use crate::error::IndexError;
use crate::record::{CrateVersion, is_key, is_yanked, key_of, with_yanked};
use crate::version::{Version, VersionRequirement, precedence, req_admits};

verus! {

/// Whether some record of the list is the one of `name` at version `v`.
pub open spec fn has_key(rs: Seq<CrateVersion>, name: Seq<char>, v: Seq<char>) -> bool {
    exists|i: int| 0 <= i < rs.len() && is_key(#[trigger] rs[i], name, v)
}

/// Whether `i` is the first position of the record of `name` at `v`.
pub open spec fn is_first_key(rs: Seq<CrateVersion>, name: Seq<char>, v: Seq<char>, i: int) -> bool {
    &&& 0 <= i < rs.len()
    &&& is_key(rs[i], name, v)
    &&& forall|j: int| 0 <= j < i ==> !is_key(#[trigger] rs[j], name, v)
}

/// The first position of the record of `name` at `v` (meaningful where
/// `has_key` holds).
pub open spec fn first_key(rs: Seq<CrateVersion>, name: Seq<char>, v: Seq<char>) -> int {
    choose|i: int| is_first_key(rs, name, v, i)
}

/// The list after adding a record: unchanged where its pair is present,
/// else the record appended.
pub open spec fn added(rs: Seq<CrateVersion>, rec: CrateVersion) -> Seq<CrateVersion> {
    if has_key(rs, rec.name@, rec.vers@) {
        rs
    } else {
        rs.push(rec)
    }
}

/// The list after setting the yank flag of the record of `name` at `v`.
pub open spec fn yank_set(
    rs: Seq<CrateVersion>,
    name: Seq<char>,
    v: Seq<char>,
    flag: Option<bool>,
) -> Seq<CrateVersion> {
    if has_key(rs, name, v) {
        let k = first_key(rs, name, v);
        rs.update(k, with_yanked(rs[k], flag))
    } else {
        rs
    }
}

/// The position of the highest version among the records whose flag in
/// `keep` is set; of equal versions the earliest. `None` where no flag is set.
pub open spec fn highest(rs: Seq<CrateVersion>, keep: Seq<bool>) -> Option<int>
    decreases rs.len(),
{
    if rs.len() == 0 {
        None
    } else {
        let i = rs.len() - 1;
        let prev = highest(rs.drop_last(), keep.drop_last());
        if !keep[i] {
            prev
        } else {
            match prev {
                None => Some(i),
                Some(j) => if precedence(rs[i].vers@, rs[j].vers@) > 0 {
                    Some(i)
                } else {
                    Some(j)
                },
            }
        }
    }
}

/// One flag per record: set where the record is not yanked.
pub open spec fn unyanked_flags(rs: Seq<CrateVersion>) -> Seq<bool> {
    Seq::new(rs.len(), |i: int| !is_yanked(rs[i]))
}

/// One flag per record: set where the record is not yanked and its version
/// satisfies the requirement.
pub open spec fn matching_flags(rs: Seq<CrateVersion>, req: Seq<char>) -> Seq<bool> {
    Seq::new(rs.len(), |i: int| !is_yanked(rs[i]) && req_admits(req, rs[i].vers@))
}

/// The position of the latest record: the highest version that is not
/// yanked, or, where every record is yanked, the highest of all.
pub open spec fn latest_index(rs: Seq<CrateVersion>) -> Option<int> {
    match highest(rs, unyanked_flags(rs)) {
        Some(i) => Some(i),
        None => highest(rs, Seq::new(rs.len(), |i: int| true)),
    }
}

/// The position of the highest version that is not yanked and satisfies
/// the requirement.
pub open spec fn match_index(rs: Seq<CrateVersion>, req: Seq<char>) -> Option<int> {
    highest(rs, matching_flags(rs, req))
}

proof fn lemma_first_key(rs: Seq<CrateVersion>, name: Seq<char>, v: Seq<char>, i: int)
    requires
        is_first_key(rs, name, v, i),
    ensures
        first_key(rs, name, v) == i,
        has_key(rs, name, v),
{
    let c = first_key(rs, name, v);
    assert(is_first_key(rs, name, v, c));
    if c < i {
        assert(!is_key(rs[c], name, v));
    } else if c > i {
        assert(!is_key(rs[i], name, v));
    }
}

proof fn lemma_has_first_key(rs: Seq<CrateVersion>, name: Seq<char>, v: Seq<char>, i: int)
    requires
        0 <= i < rs.len(),
        is_key(rs[i], name, v),
    ensures
        is_first_key(rs, name, v, first_key(rs, name, v)),
    decreases i,
{
    if forall|j: int| 0 <= j < i ==> !is_key(#[trigger] rs[j], name, v) {
        lemma_first_key(rs, name, v, i);
    } else {
        let j = choose|j: int| 0 <= j < i && is_key(#[trigger] rs[j], name, v);
        lemma_has_first_key(rs, name, v, j);
    }
}

/// Where some flag is set, `highest` names a position whose flag is set.
proof fn lemma_highest_found(rs: Seq<CrateVersion>, keep: Seq<bool>)
    requires
        keep.len() == rs.len(),
    ensures
        match highest(rs, keep) {
            Some(i) => 0 <= i < rs.len() && keep[i],
            None => forall|j: int| 0 <= j < rs.len() ==> !#[trigger] keep[j],
        },
    decreases rs.len(),
{
    if rs.len() > 0 {
        lemma_highest_found(rs.drop_last(), keep.drop_last());
        let n = rs.len() - 1;
        assert forall|j: int| 0 <= j < n implies keep[j] == keep.drop_last()[j] by {}
    }
}

/// Finds the position of the highest version among the records whose flag
/// is set.
pub fn select_highest(records: &Vec<CrateVersion>, keep: &Vec<bool>) -> (r: Option<usize>)
    requires
        keep.len() == records.len(),
    ensures
        match r {
            Some(i) => highest(records@, keep@) == Some(i as int),
            None => highest(records@, keep@) is None,
        },
{
    let mut best: Option<usize> = None;
    let mut i: usize = 0;
    while i < records.len()
        invariant
            keep.len() == records.len(),
            i <= records.len(),
            match best {
                Some(b) => highest(records@.take(i as int), keep@.take(i as int)) == Some(b as int)
                    && b < i,
                None => highest(records@.take(i as int), keep@.take(i as int)) is None,
            },
        decreases records.len() - i,
    {
        assert(records@.take(i as int + 1).drop_last() =~= records@.take(i as int));
        assert(keep@.take(i as int + 1).drop_last() =~= keep@.take(i as int));
        if keep[i] {
            match best {
                None => {
                    best = Some(i);
                },
                Some(b) => {
                    if records[i].vers.compare(&records[b].vers) > 0 {
                        best = Some(i);
                    }
                },
            }
        }
        i = i + 1;
    }
    assert(records@.take(i as int) =~= records@);
    assert(keep@.take(i as int) =~= keep@);
    best
}

/// Adds a record to the list, refusing a version that is already there.
pub fn add_record(records: &mut Vec<CrateVersion>, record: CrateVersion) -> (r: Result<(), IndexError>)
    ensures
        r is Ok <==> !has_key(old(records)@, record.name@, record.vers@),
        final(records)@ == added(old(records)@, record),
        r matches Err(e) ==> (e matches IndexError::DuplicateVersion { name, version }
            && name@ == record.name@ && version@ == record.vers@),
{
    let mut i: usize = 0;
    while i < records.len()
        invariant
            i <= records.len(),
            forall|j: int| 0 <= j < i ==> !is_key(#[trigger] records@[j], record.name@, record.vers@),
        decreases records.len() - i,
    {
        if records[i].name == record.name && records[i].vers.same(&record.vers) {
            return Err(IndexError::DuplicateVersion { name: record.name, version: record.vers });
        }
        i = i + 1;
    }
    records.push(record);
    Ok(())
}

/// Finds the first position of the record of `name` at `version`.
pub fn find_record(records: &Vec<CrateVersion>, name: &str, version: &Version) -> (r: Option<usize>)
    ensures
        r is Some <==> has_key(records@, name@, version@),
        r matches Some(i) ==> i < records@.len() && i as int == first_key(records@, name@, version@),
{
    let name_text = String::from_str(name);
    let mut i: usize = 0;
    while i < records.len()
        invariant
            i <= records.len(),
            name_text@ == name@,
            forall|j: int| 0 <= j < i ==> !is_key(#[trigger] records@[j], name@, version@),
        decreases records.len() - i,
    {
        if records[i].name == name_text && records[i].vers.same(version) {
            proof {
                lemma_first_key(records@, name@, version@, i as int);
            }
            return Some(i);
        }
        i = i + 1;
    }
    None
}

/// Applies `func` to the record of `name` at `version`, the only record
/// that changes. The record keeps its name and version whatever `func` does
/// to them, so the pairs of the list stay as they were.
pub fn alter_record<F>(records: &mut Vec<CrateVersion>, name: &str, version: &Version, func: F) -> (r: Result<(), IndexError>)
    where
        F: FnOnce(CrateVersion) -> CrateVersion,
    requires
        forall|c: CrateVersion| #[trigger] func.requires((c,)),
    ensures
        r is Ok <==> has_key(old(records)@, name@, version@),
        r matches Err(e) ==> (e matches IndexError::VersionNotFound { name: n, version: v }
            && n@ == name@ && v@ == version@),
        r is Err ==> final(records)@ == old(records)@,
        final(records)@.len() == old(records)@.len(),
        forall|j: int| 0 <= j < old(records)@.len() ==>
            key_of(#[trigger] final(records)@[j]) == key_of(old(records)@[j]),
        r is Ok ==> ({
            let k = first_key(old(records)@, name@, version@);
            &&& forall|j: int| 0 <= j < old(records)@.len() && j != k ==>
                #[trigger] final(records)@[j] == old(records)@[j]
            &&& exists|out: CrateVersion| #[trigger] func.ensures((old(records)@[k],), out)
                && final(records)@[k] == (CrateVersion {
                    name: old(records)@[k].name,
                    vers: old(records)@[k].vers,
                    ..out
                })
        }),
{
    match find_record(records, name, version) {
        None => Err(IndexError::VersionNotFound {
            name: String::from_str(name),
            version: version.duplicate(),
        }),
        Some(i) => {
            let ghost before = records@;
            let rec = records.remove(i);
            let kept_name = rec.name.clone();
            let kept_vers = rec.vers.duplicate();
            let out = func(rec);
            let fixed = CrateVersion { name: kept_name, vers: kept_vers, ..out };
            records.insert(i, fixed);
            assert(records@ =~= before.update(i as int, fixed));
            Ok(())
        },
    }
}

/// Marks the record of `name` at `version` yanked.
pub fn yank_record(records: &mut Vec<CrateVersion>, name: &str, version: &Version) -> (r: Result<(), IndexError>)
    ensures
        r is Ok <==> has_key(old(records)@, name@, version@),
        r matches Err(e) ==> (e matches IndexError::VersionNotFound { name: n, version: v }
            && n@ == name@ && v@ == version@),
        final(records)@ == yank_set(old(records)@, name@, version@, Some(true)),
{
    set_yanked(records, name, version, true)
}

/// Marks the record of `name` at `version` not yanked.
pub fn unyank_record(records: &mut Vec<CrateVersion>, name: &str, version: &Version) -> (r: Result<(), IndexError>)
    ensures
        r is Ok <==> has_key(old(records)@, name@, version@),
        r matches Err(e) ==> (e matches IndexError::VersionNotFound { name: n, version: v }
            && n@ == name@ && v@ == version@),
        final(records)@ == yank_set(old(records)@, name@, version@, Some(false)),
{
    set_yanked(records, name, version, false)
}

fn set_yanked(records: &mut Vec<CrateVersion>, name: &str, version: &Version, flag: bool) -> (r: Result<(), IndexError>)
    ensures
        r is Ok <==> has_key(old(records)@, name@, version@),
        r matches Err(e) ==> (e matches IndexError::VersionNotFound { name: n, version: v }
            && n@ == name@ && v@ == version@),
        final(records)@ == yank_set(old(records)@, name@, version@, Some(flag)),
{
    let set = |c: CrateVersion| -> (d: CrateVersion)
        ensures
            d == with_yanked(c, Some(flag)),
        { CrateVersion { yanked: Some(flag), ..c } };
    let ghost before = records@;
    let r = alter_record(records, name, version, set);
    proof {
        if r is Ok {
            let i = choose|i: int| 0 <= i < before.len() && is_key(#[trigger] before[i], name@, version@);
            lemma_has_first_key(before, name@, version@, i);
            let k = first_key(before, name@, version@);
            let out = choose|out: CrateVersion| #[trigger] set.ensures((before[k],), out)
                && records@[k] == (CrateVersion { name: before[k].name, vers: before[k].vers, ..out });
            assert(out == with_yanked(before[k], Some(flag)));
            assert(records@ =~= before.update(k, with_yanked(before[k], Some(flag))));
        }
    }
    r
}

/// The record of the latest version of the package: the highest that is
/// not yanked, or the highest of all where every version is yanked.
pub fn latest_record(name: &str, records: Vec<CrateVersion>) -> (r: Result<CrateVersion, IndexError>)
    ensures
        r is Ok <==> records@.len() > 0,
        r matches Ok(c) ==> (latest_index(records@) matches Some(k) && c == records@[k]),
        r matches Err(e) ==> (e matches IndexError::CrateNotFound { name: n } && n@ == name@),
{
    let mut records = records;
    let mut flags: Vec<bool> = Vec::new();
    let mut all: Vec<bool> = Vec::new();
    let mut i: usize = 0;
    while i < records.len()
        invariant
            i <= records.len(),
            flags.len() == i,
            all.len() == i,
            forall|j: int| 0 <= j < i ==> #[trigger] flags@[j] == !is_yanked(records@[j]),
            forall|j: int| 0 <= j < i ==> #[trigger] all@[j],
        decreases records.len() - i,
    {
        flags.push(!records[i].is_yanked());
        all.push(true);
        i = i + 1;
    }
    assert(flags@ =~= unyanked_flags(records@));
    assert(all@ =~= Seq::new(records@.len(), |i: int| true));
    let ghost before = records@;
    let found = match select_highest(&records, &flags) {
        Some(k) => Some(k),
        None => select_highest(&records, &all),
    };
    match found {
        Some(k) => {
            proof {
                lemma_highest_found(before, flags@);
                lemma_highest_found(before, all@);
            }
            Ok(records.remove(k))
        },
        None => {
            proof {
                lemma_highest_found(before, all@);
                if before.len() > 0 {
                    assert(all@[0]);
                }
            }
            Err(IndexError::CrateNotFound { name: String::from_str(name) })
        },
    }
}

/// The record of the highest version that is not yanked and satisfies the
/// requirement. A yanked version is never chosen here.
pub fn match_record(name: &str, records: Vec<CrateVersion>, req: &VersionRequirement) -> (r: Result<CrateVersion, IndexError>)
    ensures
        r is Ok <==> match_index(records@, req@) is Some,
        r matches Ok(c) ==> (match_index(records@, req@) matches Some(k) && c == records@[k]),
        r matches Err(e) ==> (e matches IndexError::NoMatchingVersion { name: n, requirement: q }
            && n@ == name@ && q@ == req@),
{
    let mut records = records;
    let mut flags: Vec<bool> = Vec::new();
    let mut i: usize = 0;
    while i < records.len()
        invariant
            i <= records.len(),
            flags.len() == i,
            forall|j: int| 0 <= j < i ==> #[trigger] flags@[j] == (!is_yanked(records@[j])
                && req_admits(req@, records@[j].vers@)),
        decreases records.len() - i,
    {
        let keep = !records[i].is_yanked() && req.matches(&records[i].vers);
        flags.push(keep);
        i = i + 1;
    }
    assert(flags@ =~= matching_flags(records@, req@));
    let ghost before = records@;
    match select_highest(&records, &flags) {
        Some(k) => {
            proof {
                lemma_highest_found(before, flags@);
            }
            Ok(records.remove(k))
        },
        None => Err(IndexError::NoMatchingVersion {
            name: String::from_str(name),
            requirement: String::from_str(req.as_str()),
        }),
    }
}

/// Yanking a version and then un-yanking it is the same as un-yanking it
/// alone: the record reads as not yanked, and no other field of it, and no
/// other record, differs from before the yank.
pub proof fn lemma_yank_then_unyank(rs: Seq<CrateVersion>, name: Seq<char>, v: Seq<char>)
    requires
        has_key(rs, name, v),
    ensures
        ({
            let after = yank_set(yank_set(rs, name, v, Some(true)), name, v, Some(false));
            let k = first_key(rs, name, v);
            &&& after == yank_set(rs, name, v, Some(false))
            &&& after.len() == rs.len()
            &&& !is_yanked(after[k])
            &&& after[k] == with_yanked(rs[k], Some(false))
            &&& forall|j: int| 0 <= j < rs.len() && j != k ==> #[trigger] after[j] == rs[j]
        }),
{
    let i = choose|i: int| 0 <= i < rs.len() && is_key(#[trigger] rs[i], name, v);
    lemma_has_first_key(rs, name, v, i);
    let k = first_key(rs, name, v);
    let mid = yank_set(rs, name, v, Some(true));
    assert(is_first_key(mid, name, v, k));
    lemma_first_key(mid, name, v, k);
    assert(yank_set(mid, name, v, Some(false)) =~= yank_set(rs, name, v, Some(false)));
}

/// Two publishers that start from the same list and add different versions
/// of one package, the second after a refresh past the first's commit, lose
/// nothing: the list ends with the earlier records in order and both
/// additions after them.
pub proof fn lemma_serialized_adds_keep_both(rs: Seq<CrateVersion>, a: CrateVersion, b: CrateVersion)
    requires
        !has_key(rs, a.name@, a.vers@),
        !has_key(rs, b.name@, b.vers@),
        key_of(a) != key_of(b),
    ensures
        added(added(rs, a), b) == rs.push(a).push(b),
        has_key(added(added(rs, a), b), a.name@, a.vers@),
        has_key(added(added(rs, a), b), b.name@, b.vers@),
{
    let one = rs.push(a);
    if has_key(one, b.name@, b.vers@) {
        let j = choose|j: int| 0 <= j < one.len() && is_key(#[trigger] one[j], b.name@, b.vers@);
        if j < rs.len() {
            assert(one[j] == rs[j]);
        }
    }
    let two = one.push(b);
    assert(is_key(two[rs.len() as int], a.name@, a.vers@));
    assert(is_key(two[rs.len() + 1int], b.name@, b.vers@));
}

/// A second addition of a version, made from a state read before the first
/// one landed, is refused once it refreshes past the first: the pair is then
/// present, and the list stays as the first addition left it.
pub proof fn lemma_second_add_of_same_version_refused(rs: Seq<CrateVersion>, a: CrateVersion, b: CrateVersion)
    requires
        key_of(a) == key_of(b),
    ensures
        has_key(added(rs, a), b.name@, b.vers@),
        added(added(rs, a), b) == added(rs, a),
{
    if !has_key(rs, a.name@, a.vers@) {
        assert(is_key(rs.push(a)[rs.len() as int], b.name@, b.vers@));
    }
}

/// The record list of a file from the records its lines decoded to, in
/// order: `MalformedRecord` with the number (from 1) of the first line that
/// did not decode.
pub fn collect_records(decoded: Vec<Option<CrateVersion>>) -> (r: Result<Vec<CrateVersion>, IndexError>)
    ensures
        r is Ok <==> forall|k: int| 0 <= k < decoded@.len() ==> (#[trigger] decoded@[k]) is Some,
        r matches Ok(rs) ==> rs@.len() == decoded@.len()
            && forall|k: int| 0 <= k < decoded@.len() ==> decoded@[k] == Some(#[trigger] rs@[k]),
        r matches Err(e) ==> (e matches IndexError::MalformedRecord { line }
            && 1 <= line <= decoded@.len()
            && decoded@[line - 1] is None
            && forall|k: int| 0 <= k < line - 1 ==> (#[trigger] decoded@[k]) is Some),
{
    let ghost input = decoded@;
    let mut pending = decoded;
    let mut out: Vec<CrateVersion> = Vec::new();
    let mut i: usize = 0;
    let n = pending.len();
    while i < n
        invariant
            n == input.len(),
            input == decoded@,
            i <= n,
            pending@.len() == n - i,
            forall|j: int| 0 <= j < pending@.len() ==> #[trigger] pending@[j] == input[j + i],
            out@.len() == i,
            forall|j: int| 0 <= j < i ==> #[trigger] input[j] == Some(out@[j]),
        decreases n - i,
    {
        let ghost before = pending@;
        match pending.remove(0) {
            Some(rec) => {
                out.push(rec);
            },
            None => {
                assert(input[i as int] is None);
                return Err(IndexError::MalformedRecord { line: i + 1 });
            },
        }
        proof {
            assert forall|j: int| 0 <= j < pending@.len() implies #[trigger] pending@[j] == input[j + i + 1] by {
                assert(pending@[j] == before[j + 1]);
            }
        }
        i = i + 1;
    }
    assert(forall|j: int| 0 <= j < n ==> input[j] == Some(#[trigger] out@[j]));
    Ok(out)
}

} // verus!
