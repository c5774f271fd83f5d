//! Error kinds of the store and the accumulated validation report.

use vstd::prelude::*;

verus! {

/// The accumulated collection of missing or invalid field names from one
/// validation pass.  Empty means valid.  Every check appends its findings;
/// none stops the pass, so the operator sees every defect at once.
#[derive(Debug)]
pub struct ErrorList {
    pub fields: Vec<String>,
}

impl ErrorList {
    pub fn new() -> (r: ErrorList)
        ensures
            r.fields@.len() == 0,
    {
        ErrorList { fields: Vec::new() }
    }

    pub fn push(&mut self, field: &str)
        ensures
            final (self).fields.deep_view() == old(self).fields.deep_view().push(field@),
    {
        self.fields.push(field.to_owned());
    }

    pub fn is_empty(&self) -> (r: bool)
        ensures
            r == (self.fields@.len() == 0),
    {
        self.fields.len() == 0
    }
}

/// The result of a validation pass: fine, or the full report.
pub type SpecResult = Result<(), ErrorList>;

/// Error kinds of the record store and document pipeline.
#[derive(Debug)]
pub enum StoreError {
    /// The document text is malformed.  Carries the parser's message and the
    /// position it points at (line 1-based, column 0-based); for text
    /// produced by a template fill the message is preceded by the filled
    /// candidate text reproduced with 1-based line numbers.
    ParseFailure { message: String, line: u64, col: u64 },
    /// No record file was found at the expected location.
    DoesNotExist,
    /// The record lacks the fields needed to compute an output file name.
    CantDetermineTargetFile,
    /// A readiness gate failed; carries the full report, never one cause.
    ValidationFailed(ErrorList),
    /// Reading, writing or moving a file failed (raised by the caller that
    /// does the I/O, never by the verified logic).
    FilesystemError,
    /// The version-control tool was unavailable; never fatal, the status
    /// degrades to unknown instead.
    VersionControlUnavailable,
    /// The document has no usable product list.
    UnknownFormat,
    /// A computed sum does not fit the machine word that carries it.
    Overflow,
}

/// The concatenation of the reported field names of several validation
/// results, in order.
pub open spec fn spec_combined_fields(rs: Seq<Result<(), ErrorList>>) -> Seq<Seq<char>>
    decreases rs.len(),
{
    if rs.len() == 0 {
        Seq::empty()
    } else {
        (match rs[0] {
            Ok(()) => Seq::<Seq<char>>::empty(),
            Err(e) => e.fields.deep_view(),
        }) + spec_combined_fields(rs.drop_first())
    }
}

/// Merge several validation results into one: fine only when all are fine,
/// else the concatenation of all reports.
pub fn combine_specresults(rs: Vec<SpecResult>) -> (r: SpecResult)
    ensures
        r is Ok <==> spec_combined_fields(rs@).len() == 0,
        r matches Err(e) ==> e.fields.deep_view() == spec_combined_fields(rs@),
{
    let mut acc: Vec<String> = Vec::new();
    let mut rest = rs;
    while rest.len() > 0
        invariant
            acc.deep_view() + spec_combined_fields(rest@) == spec_combined_fields(rs@),
        decreases rest@.len(),
    {
        let ghost pre = rest@;
        let head = rest.remove(0);
        proof {
            assert(pre.drop_first() =~= rest@);
        }
        match head {
            Ok(()) => {},
            Err(mut e) => {
                acc.append(&mut e.fields);
            },
        }
        proof {
            assert(acc.deep_view() + spec_combined_fields(rest@) =~~= spec_combined_fields(rs@));
        }
    }
    proof {
        assert(rest@ =~= Seq::<Result<(), ErrorList>>::empty());
        assert(acc.deep_view() =~~= spec_combined_fields(rs@));
    }
    if acc.len() == 0 {
        Ok(())
    } else {
        Err(ErrorList { fields: acc })
    }
}

} // verus!
