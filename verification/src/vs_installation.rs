//! A full installation of VS or just the VS build tools: candidate records,
//! range filtering, and the selection policy.
use vstd::prelude::*;

use crate::versions::{
    has_version_in_range, opt_version_view, parse_accepted, ver_in_range, ver_le, version_parts,
    VsInstallationVersion,
};
use crate::vs_paths::{is_path_prefix, path_starts_with};
use crate::Error;

verus! {

// ////////////////////////////////////////////////////////////////////////
// Candidate records.
// ////////////////////////////////////////////////////////////////////////

/// The view of a candidate record: its two fields of interest, each
/// possibly absent.
pub ghost struct InstanceRecordView {
    pub version: Option<Seq<char>>,
    pub path: Option<Seq<char>>,
}

/// A structured candidate record as decoded by the enumeration
/// collaborator: the version field and the path field of one installation
/// instance, each possibly absent.
#[derive(Debug)]
pub struct InstanceRecord {
    pub installation_version: Option<String>,
    pub installation_path: Option<String>,
}

impl View for InstanceRecord {
    type V = InstanceRecordView;

    open spec fn view(&self) -> InstanceRecordView {
        InstanceRecordView {
            version: match self.installation_version {
                Some(s) => Some(s@),
                None => None,
            },
            path: match self.installation_path {
                Some(s) => Some(s@),
                None => None,
            },
        }
    }
}

impl Clone for InstanceRecord {
    fn clone(&self) -> (r: Self)
        ensures
            r@ == self@,
    {
        let installation_version: Option<String> = match &self.installation_version {
            Some(s) => Some(s.clone()),
            None => None,
        };
        let installation_path: Option<String> = match &self.installation_path {
            Some(s) => Some(s.clone()),
            None => None,
        };
        InstanceRecord { installation_version, installation_path }
    }
}

/// The view of a candidate: a version paired with an installation path.
pub ghost struct CandidateView {
    pub version: Seq<u64>,
    pub path: Seq<char>,
}

/// A candidate under consideration for selection: a parsed version paired
/// with the installation path it belongs to.
#[derive(Debug)]
pub struct Candidate {
    pub version: VsInstallationVersion,
    pub path: String,
}

impl View for Candidate {
    type V = CandidateView;

    open spec fn view(&self) -> CandidateView {
        CandidateView { version: self.version@, path: self.path@ }
    }
}

/// The views of a sequence of records.
pub open spec fn records_view(records: Seq<InstanceRecord>) -> Seq<InstanceRecordView> {
    records.map_values(|r: InstanceRecord| r@)
}

/// The views of a sequence of candidates.
pub open spec fn candidates_view(cands: Seq<Candidate>) -> Seq<CandidateView> {
    cands.map_values(|c: Candidate| c@)
}

/// The view of an optional override path.
pub open spec fn opt_str_view(o: Option<String>) -> Option<Seq<char>> {
    match o {
        Some(s) => Some(s@),
        None => None,
    }
}

/// The view of a selection result.
pub open spec fn path_result_view(r: Result<String, Error>) -> Result<Seq<char>, Error> {
    match r {
        Ok(p) => Ok(p@),
        Err(e) => Err(e),
    }
}

// ////////////////////////////////////////////////////////////////////////
// Extraction of a candidate from a record.
// ////////////////////////////////////////////////////////////////////////

/// What extracting a candidate from a record yields: the parsed version and
/// the path, or the cause of the failure.  A missing field is
/// `MissingField`; a version field that does not parse is `InvalidFormat`.
pub open spec fn extract_spec(rec: InstanceRecordView) -> Result<CandidateView, Error> {
    match rec.version {
        None => Err(Error::MissingField),
        Some(vs) => if !parse_accepted(vs) {
            Err(Error::InvalidFormat)
        } else {
            match rec.path {
                None => Err(Error::MissingField),
                Some(p) => Ok(CandidateView { version: version_parts(vs), path: p }),
            }
        },
    }
}

/// The view of an extraction result.
pub open spec fn extract_result_view(r: Result<Candidate, Error>) -> Result<CandidateView, Error> {
    match r {
        Ok(c) => Ok(c@),
        Err(e) => Err(e),
    }
}

impl InstanceRecord {
    /// Extracts the candidate that this record describes: its version field
    /// parsed as a version, paired with its path field.
    pub fn extract(&self) -> (r: Result<Candidate, Error>)
        ensures
            extract_result_view(r) == extract_spec(self@),
    {
        match &self.installation_version {
            None => Err(Error::MissingField),
            Some(vs) => match VsInstallationVersion::parse(vs.as_str()) {
                Err(_) => Err(Error::InvalidFormat),
                Ok(version) => match &self.installation_path {
                    None => Err(Error::MissingField),
                    Some(p) => Ok(Candidate { version, path: p.clone() }),
                },
            },
        }
    }
}

// ////////////////////////////////////////////////////////////////////////
// Batch validation.
// ////////////////////////////////////////////////////////////////////////

/// The candidates of a batch that extract successfully and lie in the
/// range, in input order.
pub open spec fn validated_matches(
    recs: Seq<InstanceRecordView>,
    max: Option<Seq<u64>>,
    min: Option<Seq<u64>>,
) -> Seq<CandidateView>
    decreases recs.len(),
{
    if recs.len() == 0 {
        Seq::empty()
    } else {
        let rest = validated_matches(recs.drop_last(), max, min);
        match extract_spec(recs.last()) {
            Ok(cv) => if ver_in_range(cv.version, max, min) {
                rest.push(cv)
            } else {
                rest
            },
            Err(_) => rest,
        }
    }
}

/// The records of a batch that fail extraction, in input order, each with
/// its cause.
pub open spec fn validation_failures(recs: Seq<InstanceRecordView>) -> Seq<
    (InstanceRecordView, Error),
>
    decreases recs.len(),
{
    if recs.len() == 0 {
        Seq::empty()
    } else {
        let rest = validation_failures(recs.drop_last());
        match extract_spec(recs.last()) {
            Ok(_) => rest,
            Err(e) => rest.push((recs.last(), e)),
        }
    }
}

/// The views of a sequence of validation failures.
pub open spec fn failures_view(fs: Seq<(InstanceRecord, Error)>) -> Seq<
    (InstanceRecordView, Error),
> {
    fs.map_values(|f: (InstanceRecord, Error)| (f.0@, f.1))
}

/// The outcome of validating a batch of records: the candidates that are in
/// range, and the records that failed extraction, each with its cause.
/// Failures never abort a batch; the caller decides whether to surface
/// them as diagnostics.
pub struct ValidatedInstances {
    pub matches: Vec<Candidate>,
    pub failures: Vec<(InstanceRecord, Error)>,
}

impl VsInstallation {
    /// Validates a batch of records: each record is extracted, failures are
    /// collected rather than propagated, and the extracted candidates are
    /// kept exactly when their version lies in the given range.  Records
    /// whose version is out of range are dropped silently.
    pub fn validate_instances(
        records: &Vec<InstanceRecord>,
        max: Option<&VsInstallationVersion>,
        min: Option<&VsInstallationVersion>,
    ) -> (r: ValidatedInstances)
        ensures
            candidates_view(r.matches@) == validated_matches(
                records_view(records@),
                opt_version_view(max),
                opt_version_view(min),
            ),
            failures_view(r.failures@) == validation_failures(records_view(records@)),
    {
        let ghost rv = records_view(records@);
        let ghost maxv = opt_version_view(max);
        let ghost minv = opt_version_view(min);
        let mut matches: Vec<Candidate> = Vec::new();
        let mut failures: Vec<(InstanceRecord, Error)> = Vec::new();
        let n: usize = records.len();
        let mut i: usize = 0;
        while i < n
            invariant
                i <= n,
                n == records@.len(),
                rv == records_view(records@),
                maxv == opt_version_view(max),
                minv == opt_version_view(min),
                candidates_view(matches@) == validated_matches(rv.take(i as int), maxv, minv),
                failures_view(failures@) == validation_failures(rv.take(i as int)),
            decreases n - i,
        {
            proof {
                assert(rv.take(i + 1).drop_last() =~= rv.take(i as int));
                assert(rv.take(i + 1).last() == rv[i as int]);
                assert(rv[i as int] == records@[i as int]@);
            }
            match records[i].extract() {
                Ok(candidate) => {
                    if has_version_in_range(&candidate.version, max, min) {
                        matches.push(candidate);
                        proof {
                            assert(candidates_view(matches@) =~= validated_matches(
                                rv.take(i + 1),
                                maxv,
                                minv,
                            ));
                        }
                    } else {
                        proof {
                            assert(candidates_view(matches@) =~= validated_matches(
                                rv.take(i + 1),
                                maxv,
                                minv,
                            ));
                        }
                    }
                },
                Err(cause) => {
                    failures.push((records[i].clone(), cause));
                    proof {
                        assert(failures_view(failures@) =~= validation_failures(rv.take(i + 1)));
                    }
                },
            }
            proof {
                assert(candidates_view(matches@) == validated_matches(rv.take(i + 1), maxv, minv));
                assert(failures_view(failures@) == validation_failures(rv.take(i + 1)));
            }
            i = i + 1;
        }
        proof {
            assert(rv.take(n as int) =~= rv);
        }
        ValidatedInstances { matches, failures }
    }
}

// ////////////////////////////////////////////////////////////////////////
// Selection.
// ////////////////////////////////////////////////////////////////////////

/// Index of the first candidate whose path is an ancestor-or-equal of the
/// override path, or `-1` when there is none.
pub open spec fn first_override_idx(cands: Seq<CandidateView>, op: Seq<char>) -> int
    decreases cands.len(),
{
    if cands.len() == 0 {
        -1
    } else if is_path_prefix(cands[0].path, op) {
        0
    } else if first_override_idx(cands.drop_first(), op) < 0 {
        -1
    } else {
        1 + first_override_idx(cands.drop_first(), op)
    }
}

proof fn lemma_first_override_is(cands: Seq<CandidateView>, op: Seq<char>, i: int)
    requires
        0 <= i < cands.len(),
        is_path_prefix(cands[i].path, op),
        forall|k: int| 0 <= k < i ==> !is_path_prefix(#[trigger] cands[k].path, op),
    ensures
        first_override_idx(cands, op) == i,
    decreases cands.len(),
{
    if i == 0 {
    } else {
        assert(!is_path_prefix(cands[0].path, op));
        assert(cands.drop_first()[i - 1] == cands[i]);
        assert forall|k: int| 0 <= k < i - 1 implies !is_path_prefix(
            #[trigger] cands.drop_first()[k].path,
            op,
        ) by {
            assert(cands.drop_first()[k] == cands[k + 1]);
        }
        lemma_first_override_is(cands.drop_first(), op, i - 1);
    }
}

proof fn lemma_first_override_none(cands: Seq<CandidateView>, op: Seq<char>)
    requires
        forall|k: int| 0 <= k < cands.len() ==> !is_path_prefix(#[trigger] cands[k].path, op),
    ensures
        first_override_idx(cands, op) < 0,
    decreases cands.len(),
{
    if cands.len() > 0 {
        assert(!is_path_prefix(cands[0].path, op));
        assert forall|k: int| 0 <= k < cands.drop_first().len() implies !is_path_prefix(
            #[trigger] cands.drop_first()[k].path,
            op,
        ) by {
            assert(cands.drop_first()[k] == cands[k + 1]);
        }
        lemma_first_override_none(cands.drop_first(), op);
    }
}

/// Index of the candidate selected without an override: the last index
/// carrying the maximum version, or `-1` on an empty batch.
pub open spec fn last_max_idx(cands: Seq<CandidateView>) -> int
    decreases cands.len(),
{
    if cands.len() == 0 {
        -1
    } else if cands.len() == 1 {
        0
    } else {
        let r = last_max_idx(cands.drop_last());
        if ver_le(cands[r].version, cands.last().version) {
            cands.len() - 1
        } else {
            r
        }
    }
}

/// On a non-empty batch the selected index exists, carries a version at or
/// above every other candidate's, and is the last index to do so.
pub proof fn lemma_last_max_idx_props(cands: Seq<CandidateView>)
    requires
        cands.len() > 0,
    ensures
        0 <= last_max_idx(cands) < cands.len(),
        forall|j: int|
            0 <= j < cands.len() ==> ver_le(#[trigger] cands[j].version, cands[last_max_idx(cands)].version),
        forall|j: int|
            last_max_idx(cands) < j < cands.len() ==> !ver_le(
                cands[last_max_idx(cands)].version,
                #[trigger] cands[j].version,
            ),
    decreases cands.len(),
{
    let m = last_max_idx(cands);
    if cands.len() == 1 {
        crate::versions::lemma_version_order_total(cands[0].version, cands[0].version);
        assert(ver_le(cands[0].version, cands[0].version));
    } else {
        let prefix = cands.drop_last();
        lemma_last_max_idx_props(prefix);
        let r = last_max_idx(prefix);
        assert forall|j: int| 0 <= j < cands.len() - 1 implies prefix[j] == cands[j] by {}
        crate::versions::lemma_version_order_total(cands[r].version, cands.last().version);
        if ver_le(cands[r].version, cands.last().version) {
            assert(m == cands.len() - 1);
            assert forall|j: int| 0 <= j < cands.len() implies ver_le(
                #[trigger] cands[j].version,
                cands[m].version,
            ) by {
                if j < cands.len() - 1 {
                    assert(ver_le(cands[j].version, cands[r].version));
                    crate::versions::lemma_ver_le_trans(
                        cands[j].version,
                        cands[r].version,
                        cands[m].version,
                    );
                } else {
                    crate::versions::lemma_version_order_total(cands[j].version, cands[j].version);
                }
            }
        } else {
            assert(m == r);
            assert forall|j: int| 0 <= j < cands.len() implies ver_le(
                #[trigger] cands[j].version,
                cands[m].version,
            ) by {
                if j < cands.len() - 1 {
                    assert(ver_le(prefix[j].version, prefix[r].version));
                }
            }
        }
    }
}

/// Which selection `resolve` makes.  With an override path the first
/// range-filtered candidate whose path is an ancestor-or-equal of the
/// override is taken; without one the candidate with the maximum version is
/// taken, the last such candidate in input order on ties.  An empty batch
/// yields `NotFound`.
pub open spec fn resolve_spec(cands: Seq<CandidateView>, op: Option<Seq<char>>) -> Result<
    Seq<char>,
    Error,
> {
    match op {
        Some(o) => {
            let i = first_override_idx(cands, o);
            if i < 0 {
                Err(Error::NotFound)
            } else {
                Ok(cands[i].path)
            }
        },
        None => {
            let i = last_max_idx(cands);
            if i < 0 {
                Err(Error::NotFound)
            } else {
                Ok(cands[i].path)
            }
        },
    }
}

/// Selects one candidate from an already range-filtered batch.  With an
/// override path, the first candidate whose path is an ancestor-or-equal of
/// the override wins; the override never widens the batch it selects from.
/// Without one, the candidate with the maximum version wins, ties broken
/// towards the last such candidate in input order.  An empty batch, or an
/// override under none of the candidates, yields `NotFound`.
pub fn resolve(candidates: &Vec<Candidate>, override_path: &Option<String>) -> (r: Result<
    String,
    Error,
>)
    ensures
        path_result_view(r) == resolve_spec(candidates_view(candidates@), opt_str_view(*override_path)),
        candidates@.len() == 0 ==> r == Err::<String, Error>(Error::NotFound),
{
    let ghost cv = candidates_view(candidates@);
    let n: usize = candidates.len();
    match override_path {
        Some(op) => {
            let mut i: usize = 0;
            while i < n
                invariant
                    i <= n,
                    n == candidates@.len(),
                    cv == candidates_view(candidates@),
                    opt_str_view(*override_path) == Some(op@),
                    forall|k: int| 0 <= k < i ==> !is_path_prefix(#[trigger] cv[k].path, op@),
                decreases n - i,
            {
                proof {
                    assert(cv[i as int] == candidates@[i as int]@);
                }
                if path_starts_with(op.as_str(), candidates[i].path.as_str()) {
                    proof {
                        lemma_first_override_is(cv, op@, i as int);
                    }
                    return Ok(candidates[i].path.clone());
                }
                i = i + 1;
            }
            proof {
                lemma_first_override_none(cv, op@);
            }
            Err(Error::NotFound)
        },
        None => {
            if n == 0 {
                return Err(Error::NotFound);
            }
            let mut best: usize = 0;
            let mut i: usize = 1;
            proof {
                assert(cv.take(1) =~= seq![cv[0]]);
            }
            while i < n
                invariant
                    1 <= i <= n,
                    best < i,
                    n == candidates@.len(),
                    cv == candidates_view(candidates@),
                    best == last_max_idx(cv.take(i as int)),
                decreases n - i,
            {
                proof {
                    assert(cv[i as int] == candidates@[i as int]@);
                    assert(cv[best as int] == candidates@[best as int]@);
                    assert(cv.take(i + 1).drop_last() =~= cv.take(i as int));
                    assert(cv.take(i + 1).last() == cv[i as int]);
                    assert forall|k: int| 0 <= k < i implies cv.take(i + 1)[k] == cv.take(
                        i as int,
                    )[k] by {}
                }
                if crate::versions::version_le(&candidates[best].version, &candidates[i].version) {
                    best = i;
                }
                i = i + 1;
            }
            proof {
                assert(cv.take(n as int) =~= cv);
            }
            Ok(candidates[best].path.clone())
        },
    }
}

// ////////////////////////////////////////////////////////////////////////
// The installation handle.
// ////////////////////////////////////////////////////////////////////////

/// What a full resolution over a batch of records yields: validation,
/// range filtering, then selection.
pub open spec fn find_match_spec(
    recs: Seq<InstanceRecordView>,
    max: Option<Seq<u64>>,
    min: Option<Seq<u64>>,
    op: Option<Seq<char>>,
) -> Result<Seq<char>, Error> {
    resolve_spec(validated_matches(recs, max, min), op)
}

/// An empty candidate batch resolves to `NotFound`, whatever the range and
/// whether or not an override path is supplied.
pub proof fn lemma_empty_batch_not_found(
    max: Option<Seq<u64>>,
    min: Option<Seq<u64>>,
    op: Option<Seq<char>>,
)
    ensures
        find_match_spec(Seq::empty(), max, min, op) == Err::<Seq<char>, Error>(Error::NotFound),
        resolve_spec(Seq::empty(), op) == Err::<Seq<char>, Error>(Error::NotFound),
{
    assert(validated_matches(Seq::empty(), max, min) =~= Seq::<CandidateView>::empty());
}

/// Type containing information about the installation.
#[derive(Debug)]
pub struct VsInstallation {
    path: String,
}

impl View for VsInstallation {
    type V = Seq<char>;

    closed spec fn view(&self) -> Seq<char> {
        self.path@
    }
}

impl VsInstallation {
    /// The path of the VS installation.
    pub fn path(&self) -> (r: &str)
        ensures
            r@ == self@,
    {
        self.path.as_str()
    }

    /// Finds the instance that matches the version range and, if one is
    /// given, the override path.  The override only ever chooses among the
    /// already range-filtered candidates.
    pub fn find_match(
        instances: &Vec<InstanceRecord>,
        max: Option<&VsInstallationVersion>,
        min: Option<&VsInstallationVersion>,
        override_path: &Option<String>,
    ) -> (r: Result<String, Error>)
        ensures
            path_result_view(r) == find_match_spec(
                records_view(instances@),
                opt_version_view(max),
                opt_version_view(min),
                opt_str_view(*override_path),
            ),
    {
        let validated = Self::validate_instances(instances, max, min);
        resolve(&validated.matches, override_path)
    }

    /// Finds a VS installation with the highest installation version that
    /// is in a range between max (exclusive) and min (inclusive), honoring
    /// the override path when one is given.
    pub fn find_in_range(
        instances: &Vec<InstanceRecord>,
        max: Option<&VsInstallationVersion>,
        min: Option<&VsInstallationVersion>,
        override_path: &Option<String>,
    ) -> (r: Result<VsInstallation, Error>)
        ensures
            ({
                let outcome = find_match_spec(
                    records_view(instances@),
                    opt_version_view(max),
                    opt_version_view(min),
                    opt_str_view(*override_path),
                );
                match r {
                    Ok(v) => outcome == Ok::<Seq<char>, Error>(v@),
                    Err(e) => outcome == Err::<Seq<char>, Error>(e),
                }
            }),
    {
        match Self::find_match(instances, max, min, override_path) {
            Ok(path) => Ok(VsInstallation { path }),
            Err(e) => Err(e),
        }
    }
}

} // verus!
