//! One decoded input line: a package name, its direct dependencies and the
//! names of its feature flags.
use vstd::prelude::*;

verus! {

/// The views of a sequence of strings.
pub open spec fn names(v: Seq<String>) -> Seq<Seq<char>> {
    v.map_values(|s: String| s@)
}

/// A copy of `v`, string by string.
pub fn copy_strings(v: &Vec<String>) -> (r: Vec<String>)
    ensures
        names(r@) == names(v@),
{
    let mut r: Vec<String> = Vec::new();
    let n = v.len();
    let mut i: usize = 0;
    while i < n
        invariant
            n == v.len(),
            i <= n,
            names(r@) == names(v@).take(i as int),
        decreases n - i,
    {
        let c = v[i].clone();
        let ghost before = r@;
        r.push(c);
        assert(names(r@) =~= names(before).push(c@));
        assert(names(r@) =~= names(v@).take(i + 1));
        i += 1;
    }
    assert(names(v@).take(n as int) =~= names(v@));
    r
}

/// Why a line did not yield a package record.
#[derive(Debug, PartialEq, Eq)]
pub enum DecodeError {
    /// The line is not a JSON object of the expected shape; the text says why.
    Syntax(String),
    /// The record's name is empty.
    EmptyName,
    /// The record's feature mapping names one feature twice.
    DuplicateFeature,
}

/// A package record as the statistics see it.
pub struct PackageRecord {
    name: String,
    deps: Vec<String>,
    features: Vec<String>,
}

/// The mathematical value of a package record.
pub struct RecordView {
    pub name: Seq<char>,
    pub deps: Seq<Seq<char>>,
    pub features: Seq<Seq<char>>,
}

impl View for PackageRecord {
    type V = RecordView;

    closed spec fn view(&self) -> RecordView {
        RecordView { name: self.name@, deps: names(self.deps@), features: names(self.features@) }
    }
}

/// A record is well formed when its name is not empty and no feature is named twice.
pub open spec fn record_wf(r: RecordView) -> bool {
    &&& r.name.len() > 0
    &&& r.features.no_duplicates()
}

/// Whether `v` holds two equal strings.
fn has_duplicate(v: &Vec<String>) -> (r: bool)
    ensures
        r == !names(v@).no_duplicates(),
{
    let n = v.len();
    let mut i: usize = 0;
    while i < n
        invariant
            n == v.len(),
            i <= n,
            forall|a: int, b: int|
                0 <= a < i && 0 <= b < n && a != b ==> names(v@)[a] != names(v@)[b],
        decreases n - i,
    {
        let mut j: usize = 0;
        while j < n
            invariant
                n == v.len(),
                i < n,
                j <= n,
                forall|b: int| 0 <= b < j && b != i ==> names(v@)[i as int] != names(v@)[b],
            decreases n - j,
        {
            if j != i && v[i] == v[j] {
                assert(names(v@)[i as int] == names(v@)[j as int]);
                return true;
            }
            j += 1;
        }
        i += 1;
    }
    false
}

impl PackageRecord {
    /// Builds a record from its decoded fields, rejecting an empty name and a
    /// feature named twice.
    pub fn new(name: String, deps: Vec<String>, features: Vec<String>) -> (r: Result<
        PackageRecord,
        DecodeError,
    >)
        ensures
            name@.len() == 0 ==> r == Err::<PackageRecord, DecodeError>(DecodeError::EmptyName),
            name@.len() > 0 && !names(features@).no_duplicates() ==> r == Err::<
                PackageRecord,
                DecodeError,
            >(DecodeError::DuplicateFeature),
            name@.len() > 0 && names(features@).no_duplicates() ==> r is Ok,
            r matches Ok(p) ==> record_wf(p@),
            r matches Ok(p) ==> p@ == (RecordView {
                name: name@,
                deps: names(deps@),
                features: names(features@),
            }),
    {
        if name.as_str().unicode_len() == 0 {
            return Err(DecodeError::EmptyName);
        }
        if has_duplicate(&features) {
            return Err(DecodeError::DuplicateFeature);
        }
        Ok(PackageRecord { name, deps, features })
    }

    pub fn name(&self) -> (r: &String)
        ensures
            r@ == self@.name,
    {
        &self.name
    }

    pub fn deps(&self) -> (r: &Vec<String>)
        ensures
            names(r@) == self@.deps,
    {
        &self.deps
    }

    pub fn features(&self) -> (r: &Vec<String>)
        ensures
            names(r@) == self@.features,
    {
        &self.features
    }

    /// Takes the record apart into its name, dependencies and features.
    pub fn into_parts(self) -> (r: (String, Vec<String>, Vec<String>))
        ensures
            r.0@ == self@.name,
            names(r.1@) == self@.deps,
            names(r.2@) == self@.features,
    {
        (self.name, self.deps, self.features)
    }
}

} // verus!
