//! Picking the three model artifacts out of the files of a resolved model.

use crate::error::OcrError;
use std::path::PathBuf;
use vstd::prelude::*;

verus! {

/// File name of the vision encoder's weights.
pub const ENCODER_FILE: &'static str = "encoder_model.onnx";

/// File name of the sequence decoder's weights.
pub const DECODER_FILE: &'static str = "decoder_model.onnx";

/// File name of the tokenizer definition.
pub const TOKENIZER_FILE: &'static str = "tokenizer.json";

/// `std::path::PathBuf`, carried through as an opaque value.
#[verifier::external_type_specification]
#[verifier::external_body]
pub struct ExPathBuf(PathBuf);

/// Whether `Path::ends_with` holds of `path` and `name`: whether the trailing
/// components of `path` are those of `name`.
pub uninterp spec fn path_has_suffix(path: PathBuf, name: Seq<char>) -> bool;

/// Calls `Path::ends_with`, whose answer is `path_has_suffix` of the path and
/// the name: it depends on nothing but the two.
#[verifier::external_body]
fn path_ends_with(path: &PathBuf, name: &str) -> (matched: bool)
    ensures
        matched == path_has_suffix(*path, name@),
{
    path.ends_with(name)
}

/// Calls `PathBuf::clone`: the copy is the same path.
#[verifier::external_body]
fn clone_path(path: &PathBuf) -> (copy: PathBuf)
    ensures
        copy == *path,
{
    path.clone()
}

/// Which artifacts the name of one file stands for.
#[derive(Clone, Copy, Debug, PartialEq, Eq, Structural)]
pub struct ArtifactFlags {
    pub encoder: bool,
    pub decoder: bool,
    pub tokenizer: bool,
}

/// The artifacts that the name of `path` stands for.
pub open spec fn flags_of(path: PathBuf) -> ArtifactFlags {
    ArtifactFlags {
        encoder: path_has_suffix(path, ENCODER_FILE@),
        decoder: path_has_suffix(path, DECODER_FILE@),
        tokenizer: path_has_suffix(path, TOKENIZER_FILE@),
    }
}

/// What each of `paths` is recognised as.
pub open spec fn recognised(paths: Seq<PathBuf>) -> Seq<ArtifactFlags> {
    paths.map_values(|path: PathBuf| flags_of(path))
}

/// The flags of every file, one kind at a time.
pub open spec fn encoder_flags(flags: Seq<ArtifactFlags>) -> Seq<bool> {
    flags.map_values(|f: ArtifactFlags| f.encoder)
}

pub open spec fn decoder_flags(flags: Seq<ArtifactFlags>) -> Seq<bool> {
    flags.map_values(|f: ArtifactFlags| f.decoder)
}

pub open spec fn tokenizer_flags(flags: Seq<ArtifactFlags>) -> Seq<bool> {
    flags.map_values(|f: ArtifactFlags| f.tokenizer)
}

/// The greatest index at which `marks` is set, or -1 where none is.
pub open spec fn last_marked(marks: Seq<bool>) -> int
    decreases marks.len(),
{
    if marks.len() == 0 {
        -1
    } else if marks.last() {
        marks.len() - 1
    } else {
        last_marked(marks.drop_last())
    }
}

/// `last_marked` is the greatest marked index: it is marked, nothing after it
/// is, and it is -1 exactly when nothing is marked.
pub proof fn lemma_last_marked(marks: Seq<bool>)
    ensures
        -1 <= last_marked(marks) < marks.len(),
        last_marked(marks) >= 0 ==> marks[last_marked(marks)],
        forall|i: int| last_marked(marks) < i < marks.len() ==> !marks[i],
        last_marked(marks) == -1 <==> forall|i: int| 0 <= i < marks.len() ==> !marks[i],
    decreases marks.len(),
{
    if marks.len() > 0 {
        let front = marks.drop_last();
        lemma_last_marked(front);
        if !marks.last() {
            assert forall|i: int| last_marked(marks) < i < marks.len() implies !marks[i] by {
                if i < front.len() {
                    assert(front[i] == marks[i]);
                }
            }
            if last_marked(marks) == -1 {
                assert forall|i: int| 0 <= i < marks.len() implies !marks[i] by {
                    if i < front.len() {
                        assert(front[i] == marks[i]);
                    }
                }
            } else {
                assert(front[last_marked(front)] == marks[last_marked(front)]);
            }
        }
    }
}

/// The local files of the three artifacts that a model needs.
pub struct ModelDir {
    pub encoder_path: PathBuf,
    pub decoder_path: PathBuf,
    pub tokenizer_config_path: PathBuf,
}

/// What `ModelDir::select` gives for `paths` recognised as `flags`.
pub open spec fn selection(paths: Seq<PathBuf>, flags: Seq<ArtifactFlags>) -> Result<
    ModelDir,
    OcrError,
> {
    let e = last_marked(encoder_flags(flags));
    let d = last_marked(decoder_flags(flags));
    let t = last_marked(tokenizer_flags(flags));
    if e < 0 || d < 0 || t < 0 {
        Err(OcrError::ModelLoad)
    } else {
        Ok(ModelDir { encoder_path: paths[e], decoder_path: paths[d], tokenizer_config_path: paths[t] })
    }
}

impl ModelDir {
    /// Picks, for each kind of artifact, the last file recognised as that
    /// kind, and fails where a kind has no file.
    pub fn select(paths: &[PathBuf], flags: &Vec<ArtifactFlags>) -> (dir: Result<ModelDir, OcrError>)
        requires
            paths@.len() == flags@.len(),
        ensures
            dir == selection(paths@, flags@),
    {
        let mut encoder: Option<usize> = None;
        let mut decoder: Option<usize> = None;
        let mut tokenizer: Option<usize> = None;
        let mut i: usize = 0;
        while i < flags.len()
            invariant
                i <= flags.len(),
                paths@.len() == flags@.len(),
                match encoder {
                    Some(e) => e == last_marked(encoder_flags(flags@.take(i as int))),
                    None => last_marked(encoder_flags(flags@.take(i as int))) == -1,
                },
                match decoder {
                    Some(d) => d == last_marked(decoder_flags(flags@.take(i as int))),
                    None => last_marked(decoder_flags(flags@.take(i as int))) == -1,
                },
                match tokenizer {
                    Some(t) => t == last_marked(tokenizer_flags(flags@.take(i as int))),
                    None => last_marked(tokenizer_flags(flags@.take(i as int))) == -1,
                },
            decreases flags.len() - i,
        {
            proof {
                let before = flags@.take(i as int);
                let after = flags@.take(i + 1);
                assert(after.drop_last() == before);
                assert(encoder_flags(after).drop_last() == encoder_flags(before));
                assert(decoder_flags(after).drop_last() == decoder_flags(before));
                assert(tokenizer_flags(after).drop_last() == tokenizer_flags(before));
            }
            let f = flags[i];
            if f.encoder {
                encoder = Some(i);
            }
            if f.decoder {
                decoder = Some(i);
            }
            if f.tokenizer {
                tokenizer = Some(i);
            }
            i += 1;
        }
        proof {
            assert(flags@.take(flags@.len() as int) == flags@);
            lemma_last_marked(encoder_flags(flags@));
            lemma_last_marked(decoder_flags(flags@));
            lemma_last_marked(tokenizer_flags(flags@));
        }
        match (encoder, decoder, tokenizer) {
            (Some(e), Some(d), Some(t)) => Ok(
                ModelDir {
                    encoder_path: clone_path(&paths[e]),
                    decoder_path: clone_path(&paths[d]),
                    tokenizer_config_path: clone_path(&paths[t]),
                },
            ),
            _ => Err(OcrError::ModelLoad),
        }
    }

    /// Recognises each file by its name and picks the three artifacts: for
    /// each kind the last file whose trailing component is that kind's file
    /// name. Fails with `ModelLoad` where a kind has no file, as it does among
    /// no files at all.
    pub fn new(paths: &[PathBuf]) -> (dir: Result<ModelDir, OcrError>)
        ensures
            dir == selection(paths@, recognised(paths@)),
            dir is Err ==> dir == Err::<ModelDir, OcrError>(OcrError::ModelLoad),
            paths@.len() == 0 ==> dir is Err,
            dir matches Ok(d) ==> paths@.contains(d.encoder_path) && paths@.contains(d.decoder_path)
                && paths@.contains(d.tokenizer_config_path),
    {
        let mut flags: Vec<ArtifactFlags> = Vec::new();
        let mut i: usize = 0;
        while i < paths.len()
            invariant
                i <= paths@.len(),
                flags@ == recognised(paths@.take(i as int)),
            decreases paths.len() - i,
        {
            let p = &paths[i];
            flags.push(
                ArtifactFlags {
                    encoder: path_ends_with(p, ENCODER_FILE),
                    decoder: path_ends_with(p, DECODER_FILE),
                    tokenizer: path_ends_with(p, TOKENIZER_FILE),
                },
            );
            proof {
                assert(paths@.take(i + 1).drop_last() == paths@.take(i as int));
                assert(flags@ == recognised(paths@.take(i + 1)));
            }
            i += 1;
        }
        proof {
            assert(paths@.take(paths@.len() as int) == paths@);
            lemma_last_marked(encoder_flags(flags@));
            lemma_last_marked(decoder_flags(flags@));
            lemma_last_marked(tokenizer_flags(flags@));
        }
        ModelDir::select(paths, &flags)
    }
}

} // verus!
