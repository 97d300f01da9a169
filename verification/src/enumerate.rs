//! The source enumerator: turns the user's input paths — files and walked
//! directory trees — into one flat, ordered list of source descriptors, or
//! refuses the run when an input names neither a file nor a directory.

use vstd::prelude::*;
use crate::path_model::PathKind;
use crate::validate::CopyError;
use crate::validate::OutModel;
use crate::validate::resolve_spec;
use crate::path_model::base_name_spec;
use crate::path_model::join_spec;
use crate::validate::DescModel;
use crate::validate::SourceDescriptor;

verus! {

/// Mathematical model of a file discovered under a directory input.
#[verifier::ext_equal]
pub struct DiscModel {
    pub path: Seq<u8>,
    pub tag: Seq<u8>,
}

/// One regular file found by walking a directory input: its path, and its
/// parent directory relative to the input's own parent.
#[derive(Debug)]
pub struct DiscoveredFile {
    pub path: Vec<u8>,
    pub tag: Vec<u8>,
}

impl View for DiscoveredFile {
    type V = DiscModel;

    open spec fn view(&self) -> DiscModel {
        DiscModel { path: self.path@, tag: self.tag@ }
    }
}

/// Mathematical model of one input record.
#[verifier::ext_equal]
pub struct InputModel {
    pub path: Seq<u8>,
    pub kind: PathKind,
    pub discovered: Seq<DiscModel>,
}

/// One input path as handed to the enumerator: what it named on the
/// filesystem, and — when it named a directory — the regular files the walk
/// found beneath it, in the walk's stable order.
#[derive(Debug)]
pub struct InputRecord {
    pub path: Vec<u8>,
    pub kind: PathKind,
    pub discovered: Vec<DiscoveredFile>,
}

impl View for InputRecord {
    type V = InputModel;

    open spec fn view(&self) -> InputModel {
        InputModel {
            path: self.path@,
            kind: self.kind,
            discovered: self.discovered@.map_values(|d: DiscoveredFile| d@),
        }
    }
}

/// The descriptors one input contributes: itself untagged when it is a file,
/// its discovered files tagged when it is a directory.
pub open spec fn input_descs(inp: InputModel) -> Seq<DescModel> {
    match inp.kind {
        PathKind::File => seq![DescModel { path: inp.path, tag: None }],
        PathKind::Dir => inp.discovered.map_values(
            |d: DiscModel| DescModel { path: d.path, tag: Some(d.tag) },
        ),
        PathKind::Missing => Seq::<DescModel>::empty(),
    }
}

/// The whole run's sources: each input's descriptors, in input order.
pub open spec fn enumerated_spec(inputs: Seq<InputModel>) -> Seq<DescModel>
    decreases inputs.len(),
{
    if inputs.len() == 0 {
        Seq::<DescModel>::empty()
    } else {
        enumerated_spec(inputs.drop_last()) + input_descs(inputs.last())
    }
}

/// The models of a vector of input records.
pub open spec fn input_models(v: Seq<InputRecord>) -> Seq<InputModel> {
    v.map_values(|i: InputRecord| i@)
}

/// Directory mirroring: every file discovered under a directory input stands
/// in the enumeration, tagged with its parent directory relative to the
/// input's parent, and under a directory output it resolves to
/// `output / tag / file-name` — the source tree reappears under the output.
pub proof fn lemma_directory_mirroring(inputs: Seq<InputModel>, i: int, k: int, out: OutModel)
    requires
        0 <= i < inputs.len(),
        inputs[i].kind == PathKind::Dir,
        0 <= k < inputs[i].discovered.len(),
        out.kind == PathKind::Dir,
    ensures
        exists|n: int|
            0 <= n < enumerated_spec(inputs).len() && enumerated_spec(inputs)[n] == (DescModel {
                path: inputs[i].discovered[k].path,
                tag: Some(inputs[i].discovered[k].tag),
            }) && resolve_spec(out, enumerated_spec(inputs)[n]).final_path == join_spec(
                out.path,
                join_spec(
                    inputs[i].discovered[k].tag,
                    base_name_spec(inputs[i].discovered[k].path),
                ),
            ),
    decreases inputs.len(),
{
    let d = DescModel {
        path: inputs[i].discovered[k].path,
        tag: Some(inputs[i].discovered[k].tag),
    };
    if i == inputs.len() - 1 {
        let descs = input_descs(inputs.last());
        assert(descs[k] == d);
        let n = enumerated_spec(inputs.drop_last()).len() + k;
        assert(enumerated_spec(inputs)[n as int] == d);
        assert(resolve_spec(out, d).final_path == join_spec(
            out.path,
            join_spec(d.tag->0, base_name_spec(d.path)),
        ));
    } else {
        lemma_directory_mirroring(inputs.drop_last(), i, k, out);
        let prev = enumerated_spec(inputs.drop_last());
        let n = choose|n: int|
            0 <= n < prev.len() && prev[n] == (DescModel {
                path: inputs.drop_last()[i].discovered[k].path,
                tag: Some(inputs.drop_last()[i].discovered[k].tag),
            }) && resolve_spec(out, prev[n]).final_path == join_spec(
                out.path,
                join_spec(
                    inputs.drop_last()[i].discovered[k].tag,
                    base_name_spec(inputs.drop_last()[i].discovered[k].path),
                ),
            );
        assert(inputs.drop_last()[i] == inputs[i]);
        assert(enumerated_spec(inputs)[n] == prev[n]);
    }
}

/// Whether some input names neither an existing file nor a directory.
pub open spec fn has_invalid_input(inputs: Seq<InputModel>) -> bool {
    exists|i: int| 0 <= i < inputs.len() && inputs[i].kind == PathKind::Missing
}

/// The bytes of `v`, as a fresh vector.
fn copy_bytes(v: &Vec<u8>) -> (r: Vec<u8>)
    ensures
        r@ == v@,
{
    let mut r: Vec<u8> = Vec::new();
    let mut i: usize = 0;
    while i < v.len()
        invariant
            i <= v@.len(),
            r@ == v@.subrange(0, i as int),
        decreases v@.len() - i,
    {
        proof {
            assert(v@.subrange(0, i as int + 1) =~= v@.subrange(0, i as int).push(v@[i as int]));
        }
        r.push(v[i]);
        i = i + 1;
    }
    proof {
        assert(v@.subrange(0, v@.len() as int) =~= v@);
    }
    r
}

/// Enumerates the run's sources: one untagged descriptor per file input and
/// one tagged descriptor per file discovered under a directory input, in
/// order; refused with `InvalidInput` exactly when some input names neither a
/// file nor a directory.
pub fn enumerate(inputs: &Vec<InputRecord>) -> (r: Result<Vec<SourceDescriptor>, CopyError>)
    ensures
        r is Err <==> has_invalid_input(input_models(inputs@)),
        r is Err ==> r->Err_0 == CopyError::InvalidInput,
        r is Ok ==> r->Ok_0@.map_values(|s: SourceDescriptor| s@) == enumerated_spec(
            input_models(inputs@),
        ),
{
    let ghost models = input_models(inputs@);
    let mut r: Vec<SourceDescriptor> = Vec::new();
    let mut i: usize = 0;
    proof {
        assert(models.take(0) =~= Seq::<InputModel>::empty());
        assert(r@.map_values(|s: SourceDescriptor| s@) =~= enumerated_spec(models.take(0)));
    }
    while i < inputs.len()
        invariant
            i <= inputs@.len(),
            models == input_models(inputs@),
            forall|j: int| 0 <= j < i ==> models[j].kind != PathKind::Missing,
            r@.map_values(|s: SourceDescriptor| s@) == enumerated_spec(models.take(i as int)),
        decreases inputs@.len() - i,
    {
        let ghost before = r@.map_values(|s: SourceDescriptor| s@);
        match inputs[i].kind {
            PathKind::Missing => {
                proof {
                    assert(models[i as int].kind == PathKind::Missing);
                }
                return Err(CopyError::InvalidInput);
            },
            PathKind::File => {
                let d = SourceDescriptor {
                    absolute_path: copy_bytes(&inputs[i].path),
                    relative_tag: None,
                };
                proof {
                    assert(d@ =~= DescModel { path: models[i as int].path, tag: None });
                    assert(r@.push(d).map_values(|s: SourceDescriptor| s@) =~= before.push(d@));
                    assert(before.push(d@) =~= before + input_descs(models[i as int]));
                }
                r.push(d);
            },
            PathKind::Dir => {
                let mut k: usize = 0;
                while k < inputs[i].discovered.len()
                    invariant
                        i < inputs@.len(),
                        k <= inputs@[i as int].discovered@.len(),
                        models == input_models(inputs@),
                        inputs@[i as int]@ == models[i as int],
                        inputs@[i as int].kind == PathKind::Dir,
                        r@.map_values(|s: SourceDescriptor| s@) == before + input_descs(
                            models[i as int],
                        ).take(k as int),
                    decreases inputs@[i as int].discovered@.len() - k,
                {
                    let d = SourceDescriptor {
                        absolute_path: copy_bytes(&inputs[i].discovered[k].path),
                        relative_tag: Some(copy_bytes(&inputs[i].discovered[k].tag)),
                    };
                    proof {
                        let descs = input_descs(models[i as int]);
                        assert(models[i as int].discovered[k as int]
                            == inputs@[i as int].discovered@[k as int]@);
                        assert(d@ =~= descs[k as int]);
                        assert(r@.push(d).map_values(|s: SourceDescriptor| s@) =~= (before
                            + descs.take(k as int)).push(d@));
                        assert((before + descs.take(k as int)).push(d@) =~= before + descs.take(
                            k as int + 1,
                        ));
                    }
                    r.push(d);
                    k = k + 1;
                }
                proof {
                    let descs = input_descs(models[i as int]);
                    assert(descs.take(descs.len() as int) =~= descs);
                }
            },
        }
        proof {
            assert(models.take(i as int + 1).drop_last() =~= models.take(i as int));
            assert(models.take(i as int + 1).last() == models[i as int]);
            assert(enumerated_spec(models.take(i as int + 1)) == enumerated_spec(
                models.take(i as int),
            ) + input_descs(models[i as int]));
        }
        i = i + 1;
    }
    proof {
        assert(models.take(models.len() as int) =~= models);
    }
    Ok(r)
}

} // verus!
