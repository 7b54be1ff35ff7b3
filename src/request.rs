use vstd::prelude::*;
use crate::paths::{file_name, file_name_of, join, joined, parent, parent_of, plain_name};
use crate::scale::{Quality, Scale};

verus! {

/// Everything needed to compress one image on its own: the source file, the
/// directory to write into, the scale and the quality.
#[derive(Clone, Debug)]
pub struct CompressionSpec {
    pub path: String,
    pub target_path: String,
    pub scale: Scale,
    pub quality: Quality,
}

/// Builds the request for one source file.
pub fn get_spec(quality: Quality, scale: Scale, source: String, target_path: String) -> (r:
    CompressionSpec)
    ensures
        r.path@ == source@,
        r.target_path@ == target_path@,
        r.scale == scale,
        r.quality == quality,
{
    CompressionSpec { path: source, target_path, scale, quality }
}

/// The name written in place of a source path that has no file name.
pub const DEFAULT_NAME: &'static str = "compressor_default.jpg";

/// The file name the output takes: the source's own, or the default name.
pub open spec fn output_name(source: Seq<char>) -> Seq<char> {
    match file_name_of(source) {
        Some(n) => n,
        None => DEFAULT_NAME@,
    }
}

/// The path the output of a request is written to: the target directory
/// joined with the source's file name.
pub open spec fn target_file_of(spec: CompressionSpec) -> Seq<char> {
    joined(spec.target_path@, output_name(spec.path@))
}

/// The path the output of `spec` is written to. A source that is a plain
/// file name `photo.jpg` with target `out` gives `out/photo.jpg`.
pub fn target_file(spec: &CompressionSpec) -> (r: String)
    ensures
        r@ == target_file_of(*spec),
        plain_name(spec.path@) && spec.target_path@.len() > 0 && spec.target_path@.last() != '/'
            ==> r@ == spec.target_path@ + "/"@ + spec.path@,
{
    proof {
        if plain_name(spec.path@) && spec.path@[0] == '/' {
            assert(spec.path@.contains('/'));
        }
    }
    match file_name(spec.path.as_str()) {
        Some(n) => join(spec.target_path.as_str(), n.as_str()),
        None => join(spec.target_path.as_str(), DEFAULT_NAME),
    }
}

/// What the filesystem holds at a request's target directory.
#[derive(Copy, Clone, Debug, PartialEq, Eq, Structural)]
pub enum TargetState {
    Missing,
    Directory,
    NotDirectory,
}

/// What to do about the target directory before decoding. Every action is
/// followed by the decode: a target that cannot be used makes the save fail.
#[derive(Copy, Clone, Debug, PartialEq, Eq, Structural)]
pub enum TargetAction {
    /// Create the directory (one level), reporting a failure.
    Create,
    /// Use the directory as it is.
    Use,
    /// Report that the target is not a directory.
    ReportNotDirectory,
}

/// The action taken for each state of the target directory.
pub open spec fn target_action_of(state: TargetState) -> TargetAction {
    match state {
        TargetState::Missing => TargetAction::Create,
        TargetState::Directory => TargetAction::Use,
        TargetState::NotDirectory => TargetAction::ReportNotDirectory,
    }
}

/// A missing target directory is created, an existing one used, and a
/// target that is something else is reported.
pub fn prepare_target(state: TargetState) -> (r: TargetAction)
    ensures
        r == target_action_of(state),
{
    match state {
        TargetState::Missing => TargetAction::Create,
        TargetState::Directory => TargetAction::Use,
        TargetState::NotDirectory => TargetAction::ReportNotDirectory,
    }
}

/// Where the processing of one request stands.
#[derive(Copy, Clone, Debug, PartialEq, Eq, Structural)]
pub enum Phase {
    /// Nothing done yet; the target directory is examined first.
    Start,
    /// The target directory is being dealt with.
    Preparing,
    /// The source is being decoded.
    Decoding,
    /// The decoded image is being resized and saved.
    Saving,
    /// Finished, successfully or not.
    Done(bool),
}

/// What the caller observed after carrying out the last action.
#[derive(Copy, Clone, Debug, PartialEq, Eq, Structural)]
pub enum Event {
    /// The state of the target directory.
    TargetIs(TargetState),
    /// The target directory action was carried out (whether or not it worked).
    Prepared,
    /// Whether the source decoded as an image.
    Decoded(bool),
    /// Whether the resized image was produced and written.
    Saved(bool),
}

/// What the caller is to do next.
#[derive(Copy, Clone, Debug, PartialEq, Eq, Structural)]
pub enum Action {
    /// Deal with the target directory as told.
    Prepare(TargetAction),
    /// Decode the source file.
    Decode,
    /// Resize the decoded image and write it to the target file.
    ResizeAndSave,
    /// Stop; the request succeeded or not.
    Finish(bool),
}

/// One step of a request: the next phase and the action to carry out.
/// The target directory is dealt with first, then the source decoded, and
/// only a source that decoded is resized and saved. An event that does not
/// belong to the phase ends the request as failed.
pub open spec fn step_of(phase: Phase, event: Event) -> (Phase, Action) {
    match (phase, event) {
        (Phase::Start, Event::TargetIs(st)) => (Phase::Preparing, Action::Prepare(
            target_action_of(st),
        )),
        (Phase::Preparing, Event::Prepared) => (Phase::Decoding, Action::Decode),
        (Phase::Decoding, Event::Decoded(ok)) => if ok {
            (Phase::Saving, Action::ResizeAndSave)
        } else {
            (Phase::Done(false), Action::Finish(false))
        },
        (Phase::Saving, Event::Saved(ok)) => (Phase::Done(ok), Action::Finish(ok)),
        _ => (Phase::Done(false), Action::Finish(false)),
    }
}

/// Advances the processing of one request by one event.
pub fn next_step(phase: Phase, event: Event) -> (r: (Phase, Action))
    ensures
        r == step_of(phase, event),
{
    match (phase, event) {
        (Phase::Start, Event::TargetIs(st)) => (Phase::Preparing, Action::Prepare(
            prepare_target(st),
        )),
        (Phase::Preparing, Event::Prepared) => (Phase::Decoding, Action::Decode),
        (Phase::Decoding, Event::Decoded(ok)) => if ok {
            (Phase::Saving, Action::ResizeAndSave)
        } else {
            (Phase::Done(false), Action::Finish(false))
        },
        (Phase::Saving, Event::Saved(ok)) => (Phase::Done(ok), Action::Finish(ok)),
        _ => (Phase::Done(false), Action::Finish(false)),
    }
}

/// A missing target directory is created before anything else is done, so
/// before any save; a target that is not a directory is reported, and the
/// request goes on to decode rather than aborting.
pub proof fn lemma_target_first(st: TargetState)
    ensures
        st == TargetState::Missing ==> step_of(Phase::Start, Event::TargetIs(st)).1
            == Action::Prepare(TargetAction::Create),
        st == TargetState::NotDirectory ==> step_of(Phase::Start, Event::TargetIs(st)).1
            == Action::Prepare(TargetAction::ReportNotDirectory),
        step_of(step_of(Phase::Start, Event::TargetIs(st)).0, Event::Prepared) == (
            Phase::Decoding,
            Action::Decode,
        ),
{
}

/// A save is only ever asked for after a successful decode: a source that
/// does not decode ends the request as failed, with nothing written.
pub proof fn lemma_save_only_after_decode(phase: Phase, event: Event)
    ensures
        step_of(phase, event).1 == Action::ResizeAndSave <==> (phase == Phase::Decoding && event
            == Event::Decoded(true)),
        step_of(Phase::Decoding, Event::Decoded(false)) == (Phase::Done(false), Action::Finish(
            false,
        )),
{
}

/// The output directory of a source file: `output` beside the file, that is,
/// relative to the file's parent directory.
pub open spec fn output_dir_of(source: Seq<char>, output: Seq<char>) -> Option<Seq<char>> {
    match parent_of(source) {
        Some(p) => Some(joined(p, output)),
        None => None,
    }
}

/// `spec` writes `file` into the directory `output` beside it.
pub open spec fn request_for(
    spec: CompressionSpec,
    file: Seq<char>,
    output: Seq<char>,
    scale: Scale,
    quality: Quality,
) -> bool {
    &&& spec.path@ == file
    &&& output_dir_of(file, output) == Some(spec.target_path@)
    &&& spec.scale == scale
    &&& spec.quality == quality
}

/// The requests that write each of `files` into the directory `output`
/// beside it, in the order of `files`. `None` where some file has no parent
/// directory (a root or an empty path).
pub fn build_requests(quality: Quality, scale: Scale, files: &Vec<String>, output: &str) -> (r:
    Option<Vec<CompressionSpec>>)
    ensures
        r is Some <==> forall|i: int| 0 <= i < files@.len() ==> parent_of(#[trigger] files@[i]@) is Some,
        r matches Some(specs) ==> {
            &&& specs@.len() == files@.len()
            &&& forall|i: int|
                0 <= i < files@.len() ==> request_for(#[trigger] specs@[i], files@[i]@, output@, scale, quality)
        },
{
    let mut specs: Vec<CompressionSpec> = Vec::new();
    let mut i: usize = 0;
    while i < files.len()
        invariant
            i <= files@.len(),
            specs@.len() == i,
            forall|j: int| 0 <= j < i ==> parent_of(#[trigger] files@[j]@) is Some,
            forall|j: int|
                0 <= j < i ==> request_for(#[trigger] specs@[j], files@[j]@, output@, scale, quality),
        decreases files@.len() - i,
    {
        match parent(files[i].as_str()) {
            Some(p) => {
                let dir = join(p.as_str(), output);
                let spec = get_spec(quality, scale, files[i].clone(), dir);
                let ghost before = specs@;
                specs.push(spec);
                assert(forall|j: int| 0 <= j < i ==> specs@[j] == before[j]);
                assert(specs@[i as int] == spec);
            },
            None => {
                return None;
            },
        }
        i += 1;
    }
    Some(specs)
}

} // verus!
