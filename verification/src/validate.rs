//! Pre-flight overwrite validation: resolve every (output, source) pair to the
//! concrete destination it would write, and decide — before any byte moves —
//! whether the run is ambiguous, needs one overwrite confirmation, or may
//! proceed.

use vstd::prelude::*;
use crate::path_model::PathKind;
use crate::path_model::base_name;
use crate::path_model::base_name_spec;
use crate::path_model::join_path;
use crate::path_model::join_spec;

verus! {

/// Why a run is refused before any copying starts.
#[derive(Clone, Copy, PartialEq, Eq, Structural, Debug)]
pub enum CopyError {
    /// An input path names neither an existing file nor a directory.
    InvalidInput,
    /// More than one source would be written to a single existing plain file.
    AmbiguousFanout,
    /// The user declined the overwrite confirmation.
    UserCancelled,
}

impl CopyError {
    /// The message shown for this error.
    pub fn message(&self) -> (r: &'static str)
        ensures
            r@ == match *self {
                CopyError::InvalidInput => "Only existing files as input are supported!"@,
                CopyError::AmbiguousFanout => "Only one input and multiple output files, or multiple inputs and output folders supported!"@,
                CopyError::UserCancelled => "Cancel copy process."@,
            },
    {
        match *self {
            CopyError::InvalidInput => "Only existing files as input are supported!",
            CopyError::AmbiguousFanout => "Only one input and multiple output files, or multiple inputs and output folders supported!",
            CopyError::UserCancelled => "Cancel copy process.",
        }
    }
}

/// Mathematical model of a source descriptor.
#[verifier::ext_equal]
pub struct DescModel {
    pub path: Seq<u8>,
    pub tag: Option<Seq<u8>>,
}

/// One concrete source file to copy. `relative_tag` is present only when the
/// file was discovered under a directory input; it holds the file's parent
/// directory relative to that input's parent, and mirrors the tree under
/// directory outputs.
#[derive(Debug)]
pub struct SourceDescriptor {
    pub absolute_path: Vec<u8>,
    pub relative_tag: Option<Vec<u8>>,
}

impl View for SourceDescriptor {
    type V = DescModel;

    open spec fn view(&self) -> DescModel {
        DescModel {
            path: self.absolute_path@,
            tag: match self.relative_tag {
                Some(t) => Some(t@),
                None => None,
            },
        }
    }
}

/// Mathematical model of an output target.
#[verifier::ext_equal]
pub struct OutModel {
    pub path: Seq<u8>,
    pub kind: PathKind,
}

/// One requested output target, together with what its path named on the
/// filesystem at pre-flight time.
#[derive(Debug)]
pub struct OutputTarget {
    pub path: Vec<u8>,
    pub kind: PathKind,
}

impl View for OutputTarget {
    type V = OutModel;

    open spec fn view(&self) -> OutModel {
        OutModel { path: self.path@, kind: self.kind }
    }
}

/// Mathematical model of a resolved destination.
#[verifier::ext_equal]
pub struct RdModel {
    pub final_path: Seq<u8>,
    pub is_new_directory_needed: bool,
}

/// The concrete path one (output, source) pair writes, and whether missing
/// subdirectories must be created under the output first.
#[derive(Debug)]
pub struct ResolvedDestination {
    pub final_path: Vec<u8>,
    pub is_new_directory_needed: bool,
}

impl View for ResolvedDestination {
    type V = RdModel;

    open spec fn view(&self) -> RdModel {
        RdModel { final_path: self.final_path@, is_new_directory_needed: self.is_new_directory_needed }
    }
}

/// Resolution rule: under an existing directory the destination is
/// `output / [tag /] file-name-of-source`; any other target string is taken
/// verbatim as the destination path.
pub open spec fn resolve_spec(out: OutModel, src: DescModel) -> RdModel {
    if out.kind == PathKind::Dir {
        RdModel {
            final_path: join_spec(
                out.path,
                match src.tag {
                    Some(t) => join_spec(t, base_name_spec(src.path)),
                    None => base_name_spec(src.path),
                },
            ),
            is_new_directory_needed: src.tag is Some,
        }
    } else {
        RdModel { final_path: out.path, is_new_directory_needed: false }
    }
}

/// Resolves one (output, source) pair as `resolve_spec` says.
pub fn resolve_destination(out: &OutputTarget, src: &SourceDescriptor) -> (r: ResolvedDestination)
    ensures
        r@ == resolve_spec(out@, src@),
{
    match out.kind {
        PathKind::Dir => {
            let name = base_name(&src.absolute_path);
            let rel = match &src.relative_tag {
                Some(t) => join_path(t, &name),
                None => name,
            };
            let joined = join_path(&out.path, &rel);
            let needs_dir = src.relative_tag.is_some();
            let r = ResolvedDestination { final_path: joined, is_new_directory_needed: needs_dir };
            proof {
                assert(r@ =~= resolve_spec(out@, src@));
            }
            r
        },
        _ => {
            let mut p: Vec<u8> = Vec::new();
            let mut i: usize = 0;
            while i < out.path.len()
                invariant
                    i <= out.path@.len(),
                    p@ == out.path@.subrange(0, i as int),
                decreases out.path@.len() - i,
            {
                p.push(out.path[i]);
                i = i + 1;
            }
            proof {
                assert(out.path@.subrange(0, out.path@.len() as int) =~= out.path@);
            }
            let r = ResolvedDestination { final_path: p, is_new_directory_needed: false };
            proof {
                assert(r@ =~= resolve_spec(out@, src@));
            }
            r
        },
    }
}

/// The row of destinations one output resolves to, one per source, in source
/// order.
pub open spec fn row_spec(out: OutModel, srcs: Seq<DescModel>) -> Seq<RdModel> {
    Seq::new(srcs.len(), |i: int| resolve_spec(out, srcs[i]))
}

/// Every destination the run would write, in validation order: outputs outer,
/// sources inner.
pub open spec fn planned_spec(outs: Seq<OutModel>, srcs: Seq<DescModel>) -> Seq<RdModel>
    decreases outs.len(),
{
    if outs.len() == 0 {
        Seq::<RdModel>::empty()
    } else {
        planned_spec(outs.drop_last(), srcs) + row_spec(outs.last(), srcs)
    }
}

/// `planned_spec` lays its rows out flat: entry `oi * |srcs| + si` is the
/// resolution of output `oi` against source `si`.
pub proof fn lemma_planned_index(outs: Seq<OutModel>, srcs: Seq<DescModel>, oi: int, si: int)
    requires
        0 <= oi < outs.len(),
        0 <= si < srcs.len(),
    ensures
        planned_spec(outs, srcs).len() == outs.len() * srcs.len(),
        planned_spec(outs, srcs)[oi * srcs.len() + si] == resolve_spec(outs[oi], srcs[si]),
    decreases outs.len(),
{
    lemma_planned_len(outs, srcs);
    if oi == outs.len() - 1 {
        lemma_planned_len(outs.drop_last(), srcs);
        assert(outs.drop_last().len() * srcs.len() == (outs.len() - 1) * srcs.len())
            by (nonlinear_arith)
            requires outs.drop_last().len() == outs.len() - 1;
        assert(oi * srcs.len() + si - planned_spec(outs.drop_last(), srcs).len() == si);
        assert(planned_spec(outs, srcs)[oi * srcs.len() + si] == row_spec(outs.last(), srcs)[si]);
    } else {
        lemma_planned_index(outs.drop_last(), srcs, oi, si);
        lemma_planned_len(outs.drop_last(), srcs);
        assert(oi * srcs.len() + si < (outs.len() - 1) * srcs.len()) by (nonlinear_arith)
            requires
                0 <= si < srcs.len(),
                0 <= oi < outs.len() - 1;
        assert(outs.drop_last()[oi] == outs[oi]);
    }
}

/// `planned_spec` holds one entry for every (output, source) pair.
pub proof fn lemma_planned_len(outs: Seq<OutModel>, srcs: Seq<DescModel>)
    ensures
        planned_spec(outs, srcs).len() == outs.len() * srcs.len(),
    decreases outs.len(),
{
    if outs.len() == 0 {
    } else {
        lemma_planned_len(outs.drop_last(), srcs);
        assert((outs.len() - 1) * srcs.len() + srcs.len() == outs.len() * srcs.len())
            by (nonlinear_arith);
    }
}

/// The models of a vector of output targets.
pub open spec fn out_models(v: Seq<OutputTarget>) -> Seq<OutModel> {
    v.map_values(|o: OutputTarget| o@)
}

/// The models of a vector of source descriptors.
pub open spec fn desc_models(v: Seq<SourceDescriptor>) -> Seq<DescModel> {
    v.map_values(|s: SourceDescriptor| s@)
}

/// Every destination the run would write, in validation order. The caller
/// checks each returned path against the filesystem before `validate`.
pub fn planned_destinations(sources: &Vec<SourceDescriptor>, outputs: &Vec<OutputTarget>) -> (r:
    Vec<ResolvedDestination>)
    ensures
        r@.map_values(|d: ResolvedDestination| d@) == planned_spec(
            out_models(outputs@),
            desc_models(sources@),
        ),
        r@.len() == outputs@.len() * sources@.len(),
{
    let ghost outs = out_models(outputs@);
    let ghost srcs = desc_models(sources@);
    let mut r: Vec<ResolvedDestination> = Vec::new();
    let mut oi: usize = 0;
    while oi < outputs.len()
        invariant
            oi <= outputs@.len(),
            outs == out_models(outputs@),
            srcs == desc_models(sources@),
            r@.map_values(|d: ResolvedDestination| d@) =~= planned_spec(outs.take(oi as int), srcs),
        decreases outputs@.len() - oi,
    {
        let mut si: usize = 0;
        while si < sources.len()
            invariant
                oi < outputs@.len(),
                si <= sources@.len(),
                outs == out_models(outputs@),
                srcs == desc_models(sources@),
                r@.map_values(|d: ResolvedDestination| d@) =~= planned_spec(
                    outs.take(oi as int),
                    srcs,
                ) + row_spec(outs[oi as int], srcs).take(si as int),
            decreases sources@.len() - si,
        {
            let d = resolve_destination(&outputs[oi], &sources[si]);
            proof {
                assert(outs[oi as int] == outputs@[oi as int]@);
                assert(srcs[si as int] == sources@[si as int]@);
                assert(row_spec(outs[oi as int], srcs).take(si as int + 1) =~= row_spec(
                    outs[oi as int],
                    srcs,
                ).take(si as int).push(resolve_spec(outs[oi as int], srcs[si as int])));
                assert(r@.push(d).map_values(|x: ResolvedDestination| x@) =~= r@.map_values(
                    |x: ResolvedDestination| x@,
                ).push(d@));
            }
            r.push(d);
            si = si + 1;
        }
        proof {
            assert(row_spec(outs[oi as int], srcs).take(srcs.len() as int) =~= row_spec(
                outs[oi as int],
                srcs,
            ));
            assert(outs.take(oi as int + 1).drop_last() =~= outs.take(oi as int));
            assert(outs.take(oi as int + 1).last() == outs[oi as int]);
            assert(planned_spec(outs.take(oi as int + 1), srcs) =~= planned_spec(
                outs.take(oi as int),
                srcs,
            ) + row_spec(outs[oi as int], srcs));
        }
        oi = oi + 1;
    }
    proof {
        assert(outs.take(outs.len() as int) =~= outs);
        lemma_planned_len(outs, srcs);
    }
    r
}

/// What pre-flight validation decided.
#[derive(Clone, Copy, PartialEq, Eq, Structural, Debug)]
pub enum ValidationOutcome {
    /// No existing plain file is in the way: the run may start unprompted.
    Accept,
    /// More than one source, and some output is an existing plain file.
    AmbiguousFanout,
    /// The destination at this index into the planned destinations is an
    /// existing plain file; one confirmation covers it and every later
    /// collision of the run.
    NeedsConfirmation(usize),
}

/// Decides the run, before any byte is written. `dest_is_file` says, for each
/// planned destination in validation order, whether its path is an existing
/// plain file.
pub fn validate(sources: &Vec<SourceDescriptor>, outputs: &Vec<OutputTarget>, dest_is_file: &Vec<
    bool,
>) -> (r: ValidationOutcome)
    requires
        dest_is_file@.len() == outputs@.len() * sources@.len(),
    ensures
        match r {
            ValidationOutcome::AmbiguousFanout => sources@.len() > 1 && exists|i: int|
                0 <= i < outputs@.len() && outputs@[i].kind == PathKind::File,
            ValidationOutcome::Accept => !(sources@.len() > 1 && exists|i: int|
                0 <= i < outputs@.len() && outputs@[i].kind == PathKind::File) && forall|k: int|
                0 <= k < dest_is_file@.len() ==> !dest_is_file@[k],
            ValidationOutcome::NeedsConfirmation(k) => !(sources@.len() > 1 && exists|i: int|
                0 <= i < outputs@.len() && outputs@[i].kind == PathKind::File) && k
                < dest_is_file@.len() && dest_is_file@[k as int] && forall|j: int|
                0 <= j < k ==> !dest_is_file@[j],
        },
{
    if sources.len() > 1 {
        let mut i: usize = 0;
        while i < outputs.len()
            invariant
                i <= outputs@.len(),
                sources@.len() > 1,
                forall|j: int| 0 <= j < i ==> outputs@[j].kind != PathKind::File,
            decreases outputs@.len() - i,
        {
            if outputs[i].kind == PathKind::File {
                proof {
                    assert(outputs@[i as int].kind == PathKind::File);
                }
                return ValidationOutcome::AmbiguousFanout;
            }
            i = i + 1;
        }
    }
    let mut k: usize = 0;
    while k < dest_is_file.len()
        invariant
            k <= dest_is_file@.len(),
            forall|j: int| 0 <= j < k ==> !dest_is_file@[j],
            !(sources@.len() > 1 && exists|i: int|
                0 <= i < outputs@.len() && outputs@[i].kind == PathKind::File),
        decreases dest_is_file@.len() - k,
    {
        if dest_is_file[k] {
            proof {
                assert(dest_is_file@[k as int]);
            }
            return ValidationOutcome::NeedsConfirmation(k);
        }
        k = k + 1;
    }
    ValidationOutcome::Accept
}

/// Turns the validation outcome and the user's one confirmation answer into
/// the run's go-or-stop decision: an accepted run proceeds, an ambiguous one
/// fails, and a collision proceeds exactly when the user said yes.
pub fn decide(outcome: &ValidationOutcome, answer_yes: bool) -> (r: Result<(), CopyError>)
    ensures
        r == match *outcome {
            ValidationOutcome::Accept => Ok::<(), CopyError>(()),
            ValidationOutcome::AmbiguousFanout => Err::<(), CopyError>(CopyError::AmbiguousFanout),
            ValidationOutcome::NeedsConfirmation(_) => if answer_yes {
                Ok::<(), CopyError>(())
            } else {
                Err::<(), CopyError>(CopyError::UserCancelled)
            },
        },
{
    match *outcome {
        ValidationOutcome::Accept => Ok(()),
        ValidationOutcome::AmbiguousFanout => Err(CopyError::AmbiguousFanout),
        ValidationOutcome::NeedsConfirmation(_) => if answer_yes {
            Ok(())
        } else {
            Err(CopyError::UserCancelled)
        },
    }
}

} // verus!
