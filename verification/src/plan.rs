//! Plans: what is to be done outside, in order.
use crate::edits::FileEdit;
use crate::text::{joined_with, slices, texts};
use crate::words::join_with;
use vstd::prelude::*;

verus! {

/// A command: where it runs, the program and its arguments, and what is added to its
/// environment.
#[derive(Debug)]
pub struct Command {
    pub cwd: String,
    pub words: Vec<String>,
    pub env: Vec<(String, String)>,
}

/// The model of a command.
#[verifier::ext_equal]
pub struct CommandModel {
    pub cwd: Seq<char>,
    pub words: Seq<Seq<char>>,
    pub env: Seq<(Seq<char>, Seq<char>)>,
}

/// The model of an environment.
pub open spec fn env_model(env: Seq<(String, String)>) -> Seq<(Seq<char>, Seq<char>)> {
    env.map_values(|p: (String, String)| (p.0@, p.1@))
}

impl View for Command {
    type V = CommandModel;

    open spec fn view(&self) -> CommandModel {
        CommandModel {
            cwd: self.cwd@,
            words: texts(self.words@),
            env: env_model(self.env@),
        }
    }
}

pub open spec fn command_models(v: Seq<Command>) -> Seq<CommandModel> {
    v.map_values(|c: Command| c@)
}

/// A command without an environment of its own.
pub open spec fn command_in(cwd: Seq<char>, words: Seq<Seq<char>>) -> CommandModel {
    CommandModel { cwd, words, env: seq![] }
}

/// A set of options of the kernel configuration.
#[derive(Clone, Copy, Debug, PartialEq, Eq, Structural)]
pub enum OptionSet {
    Root,
    Susfs,
    SusfsOpenRedirect,
    Droidspaces,
    Misc,
}

/// A commit that the build records.
#[derive(Clone, Copy, Debug, PartialEq, Eq, Structural)]
pub enum Slot {
    Kernel,
    Root,
    Susfs,
    Droidspaces,
}

/// One thing to be done outside.
#[derive(Debug)]
pub enum Step {
    /// Makes a directory and those above it.
    MakeDir { path: String },
    /// Removes a directory, where it is there.
    RemoveDir { path: String },
    /// Removes what is in a directory.
    EmptyDir { path: String },
    /// Waits.
    Sleep { seconds: u64 },
    /// Runs a command, which must succeed.
    Run { command: Command },
    /// Runs a command up to `attempts` times, `delay` seconds apart, until it succeeds.
    RunRetried { command: Command, attempts: u64, delay: u64 },
    /// Runs commands up to the first that fails. A failure is logged behind `warning`,
    /// and the build goes on.
    TryAll { commands: Vec<Command>, warning: String },
    /// Makes a file executable.
    MakeExecutable { path: String },
    /// Fails unless the checkout in `dir`, called `name`, is at `expected`.
    CheckHead { dir: String, name: String, expected: String },
    /// Records the commit of the checkout in `dir`.
    CaptureHead { dir: String, slot: Slot },
    /// Runs `query`. Where its output says that `branch` is deprecated, the manifest is
    /// rewritten.
    RewriteManifest { query: Command, manifest: String, branch: String },
    /// Applies a patch, which must be there.
    Patch { cwd: String, patch: String, extra: Vec<String> },
    /// Applies a patch where it is there. Else the build fails where all patches are
    /// required, and goes on with a note where they are not.
    OptionalPatch { cwd: String, patch: String },
    /// Copies the files of a directory, not those below it.
    CopyFiles { from: String, to: String },
    /// Copies a file.
    CopyFile { from: String, to: String },
    /// Copies a file. A failure is passed over.
    RestoreFile { from: String, to: String },
    /// Removes a file, where it is there. A failure is passed over.
    DiscardFile { path: String },
    /// Removes a directory. A failure is passed over.
    DiscardDir { path: String },
    /// Sets options of the kernel configuration.
    SetOptions { set: OptionSet },
    /// Makes edits in the common kernel tree.
    MakeEdits { edits: Vec<FileEdit> },
    /// Adds a note.
    Note { text: String },
}

/// The model of a step.
#[verifier::ext_equal]
pub enum StepModel {
    MakeDir { path: Seq<char> },
    RemoveDir { path: Seq<char> },
    EmptyDir { path: Seq<char> },
    Sleep { seconds: u64 },
    Run { command: CommandModel },
    RunRetried { command: CommandModel, attempts: u64, delay: u64 },
    TryAll { commands: Seq<CommandModel>, warning: Seq<char> },
    MakeExecutable { path: Seq<char> },
    CheckHead { dir: Seq<char>, name: Seq<char>, expected: Seq<char> },
    CaptureHead { dir: Seq<char>, slot: Slot },
    RewriteManifest { query: CommandModel, manifest: Seq<char>, branch: Seq<char> },
    Patch { cwd: Seq<char>, patch: Seq<char>, extra: Seq<Seq<char>> },
    OptionalPatch { cwd: Seq<char>, patch: Seq<char> },
    CopyFiles { from: Seq<char>, to: Seq<char> },
    CopyFile { from: Seq<char>, to: Seq<char> },
    RestoreFile { from: Seq<char>, to: Seq<char> },
    DiscardFile { path: Seq<char> },
    DiscardDir { path: Seq<char> },
    SetOptions { set: OptionSet },
    MakeEdits { edits: Seq<FileEdit> },
    Note { text: Seq<char> },
}

impl View for Step {
    type V = StepModel;

    open spec fn view(&self) -> StepModel {
        match self {
            Step::MakeDir { path } => StepModel::MakeDir { path: path@ },
            Step::RemoveDir { path } => StepModel::RemoveDir { path: path@ },
            Step::EmptyDir { path } => StepModel::EmptyDir { path: path@ },
            Step::Sleep { seconds } => StepModel::Sleep { seconds: *seconds },
            Step::Run { command } => StepModel::Run { command: command@ },
            Step::RunRetried { command, attempts, delay } => StepModel::RunRetried {
                command: command@,
                attempts: *attempts,
                delay: *delay,
            },
            Step::TryAll { commands, warning } => StepModel::TryAll {
                commands: command_models(commands@),
                warning: warning@,
            },
            Step::MakeExecutable { path } => StepModel::MakeExecutable { path: path@ },
            Step::CheckHead { dir, name, expected } => StepModel::CheckHead {
                dir: dir@,
                name: name@,
                expected: expected@,
            },
            Step::CaptureHead { dir, slot } => StepModel::CaptureHead { dir: dir@, slot: *slot },
            Step::RewriteManifest { query, manifest, branch } => StepModel::RewriteManifest {
                query: query@,
                manifest: manifest@,
                branch: branch@,
            },
            Step::Patch { cwd, patch, extra } => StepModel::Patch {
                cwd: cwd@,
                patch: patch@,
                extra: texts(extra@),
            },
            Step::OptionalPatch { cwd, patch } => StepModel::OptionalPatch {
                cwd: cwd@,
                patch: patch@,
            },
            Step::CopyFiles { from, to } => StepModel::CopyFiles { from: from@, to: to@ },
            Step::CopyFile { from, to } => StepModel::CopyFile { from: from@, to: to@ },
            Step::RestoreFile { from, to } => StepModel::RestoreFile { from: from@, to: to@ },
            Step::DiscardFile { path } => StepModel::DiscardFile { path: path@ },
            Step::DiscardDir { path } => StepModel::DiscardDir { path: path@ },
            Step::SetOptions { set } => StepModel::SetOptions { set: *set },
            Step::MakeEdits { edits } => StepModel::MakeEdits { edits: edits@ },
            Step::Note { text } => StepModel::Note { text: text@ },
        }
    }
}

pub open spec fn step_models(v: Seq<Step>) -> Seq<StepModel> {
    v.map_values(|s: Step| s@)
}

/// A step that runs a command.
pub open spec fn run_in(cwd: Seq<char>, words: Seq<Seq<char>>) -> StepModel {
    StepModel::Run { command: command_in(cwd, words) }
}

/// What the log shows of a command.
pub open spec fn shown_command(words: Seq<Seq<char>>) -> Seq<char> {
    joined_with(words, " "@)
}

/// The strings of a list of slices.
pub fn owned_words(words: Vec<&str>) -> (r: Vec<String>)
    ensures
        texts(r@) == slices(words@),
{
    let mut r: Vec<String> = Vec::new();
    let mut i: usize = 0;
    while i < words.len()
        invariant
            i <= words@.len(),
            texts(r@) == slices(words@).take(i as int),
        decreases words@.len() - i,
    {
        let ghost before = texts(r@);
        r.push(words[i].to_owned());
        assert(texts(r@) =~= before.push(words@[i as int]@));
        i += 1;
        assert(texts(r@) =~= slices(words@).take(i as int));
    }
    assert(slices(words@).take(words@.len() as int) =~= slices(words@));
    r
}

/// A command without an environment of its own.
pub fn command(cwd: &str, words: Vec<&str>) -> (r: Command)
    ensures
        r@ == command_in(cwd@, slices(words@)),
{
    let r = Command { cwd: cwd.to_owned(), words: owned_words(words), env: Vec::new() };
    assert(env_model(r.env@) =~= Seq::<(Seq<char>, Seq<char>)>::empty());
    r
}

/// A step that runs a command.
pub fn run(cwd: &str, words: Vec<&str>) -> (r: Step)
    ensures
        r@ == run_in(cwd@, slices(words@)),
{
    Step::Run { command: command(cwd, words) }
}

impl Command {
    /// What the log shows of the command.
    pub fn shown(&self) -> (r: String)
        ensures
            r@ == shown_command(self@.words),
    {
        join_with(&self.words, " ")
    }
}

/// Adds a step to a plan.
pub fn add_step(plan: &mut Vec<Step>, step: Step)
    ensures
        step_models(final(plan)@) == step_models(old(plan)@).push(step@),
{
    plan.push(step);
    assert(step_models(plan@) =~= step_models(old(plan)@).push(step@));
}

/// Adds the steps of another plan to a plan.
pub fn add_steps(plan: &mut Vec<Step>, more: Vec<Step>)
    ensures
        step_models(final(plan)@) == step_models(old(plan)@) + step_models(more@),
{
    let ghost all = more@;
    let mut more = more;
    plan.append(&mut more);
    assert(step_models(plan@) =~= step_models(old(plan)@) + step_models(all));
}

} // verus!
