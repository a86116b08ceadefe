//! What a build asks of the machine: a list of steps to carry out in order,
//! each with the failure to report if it cannot be done.

use vstd::prelude::*;

verus! {

/// Why a build was given up.
#[derive(Clone, Copy, Debug, PartialEq, Eq, Structural)]
pub enum Failure {
    /// No directory above the working directory holds both a manifest and
    /// an output directory.
    NoTargetDir,
    /// The staging directory could not be created.
    CreateRoot,
    /// The staging project's source directory could not be created.
    CreateSrc,
    /// The staging project's manifest could not be written.
    WriteManifest,
    /// The fragment does not begin with a literal that names its target.
    NoTarget,
    /// The literal at the head of the fragment is not a plain string.
    TargetNotString,
    /// The fragment could not be written into the staging project.
    WriteSource,
    /// The compiler could not be started.
    Spawn,
    /// The compiler was started, but how it ended could not be learned.
    Wait,
    /// The compiler ended with an error.
    Compile,
    /// A file could not be copied into the blob store.
    DriveFull,
    /// The blob store has no identifiers left.
    OutOfIds,
}

impl Failure {
    /// The message that goes with a failure.
    pub open spec fn text(self) -> Seq<char> {
        match self {
            Failure::NoTargetDir => "no target dir found. what did you do?"@,
            Failure::CreateRoot => "setup failed: failed to create <TRANSARCH-ROOT>"@,
            Failure::CreateSrc => "setup failed: failed to create <TRANSARCH-ROOT>/src"@,
            Failure::WriteManifest => "setup failed: failed to create <TRANSARCH-ROOT>/Cargo.toml"@,
            Failure::NoTarget => "no target provided"@,
            Failure::TargetNotString => "target must be a string"@,
            Failure::WriteSource => "setup failed: failed to create <TRANSARCH-ROOT>/src/lib.rs"@,
            Failure::Spawn => "failed to run cargo"@,
            Failure::Wait => "how"@,
            Failure::Compile => "failed to execute cargo"@,
            Failure::DriveFull => "your drive is full. do `cargo clean`"@,
            Failure::OutOfIds => "no blob identifiers are left"@,
        }
    }

    /// The message to abort the host build with.
    pub fn message(&self) -> (text: &'static str)
        ensures
            text@ == self.text(),
    {
        match self {
            Failure::NoTargetDir => "no target dir found. what did you do?",
            Failure::CreateRoot => "setup failed: failed to create <TRANSARCH-ROOT>",
            Failure::CreateSrc => "setup failed: failed to create <TRANSARCH-ROOT>/src",
            Failure::WriteManifest => "setup failed: failed to create <TRANSARCH-ROOT>/Cargo.toml",
            Failure::NoTarget => "no target provided",
            Failure::TargetNotString => "target must be a string",
            Failure::WriteSource => "setup failed: failed to create <TRANSARCH-ROOT>/src/lib.rs",
            Failure::Spawn => "failed to run cargo",
            Failure::Wait => "how",
            Failure::Compile => "failed to execute cargo",
            Failure::DriveFull => "your drive is full. do `cargo clean`",
            Failure::OutOfIds => "no blob identifiers are left",
        }
    }
}

/// One thing to do on the machine.
#[derive(Debug, PartialEq, Eq)]
pub enum Action {
    /// Create a directory and every missing directory above it.
    CreateDirAll { path: String },
    /// Create one directory.
    CreateDir { path: String },
    /// Write a file, replacing what it held.
    Write { path: String, contents: String },
    /// Run a program in a directory and wait for it to end, with its output
    /// going where the caller's goes.
    Run { program: String, args: Vec<String>, dir: String },
    /// Copy a file, leaving the file that is copied in place.
    Copy { from: String, to: String },
}

/// What an `Action` stands for.
pub enum ActionView {
    CreateDirAll { path: Seq<char> },
    CreateDir { path: Seq<char> },
    Write { path: Seq<char>, contents: Seq<char> },
    Run { program: Seq<char>, args: Seq<Seq<char>>, dir: Seq<char> },
    Copy { from: Seq<char>, to: Seq<char> },
}

impl View for Action {
    type V = ActionView;

    open spec fn view(&self) -> ActionView {
        match self {
            Action::CreateDirAll { path } => ActionView::CreateDirAll { path: path@ },
            Action::CreateDir { path } => ActionView::CreateDir { path: path@ },
            Action::Write { path, contents } => ActionView::Write {
                path: path@,
                contents: contents@,
            },
            Action::Run { program, args, dir } => ActionView::Run {
                program: program@,
                args: texts(args@),
                dir: dir@,
            },
            Action::Copy { from, to } => ActionView::Copy { from: from@, to: to@ },
        }
    }
}

/// The views of the strings in `strings`, in order.
pub open spec fn texts(strings: Seq<String>) -> Seq<Seq<char>> {
    Seq::new(strings.len(), |i: int| strings[i]@)
}

/// An action, and the failure to report when it cannot be carried out.
#[derive(Debug, PartialEq, Eq)]
pub struct Step {
    pub action: Action,
    pub failure: Failure,
}

/// What a `Step` stands for.
pub struct StepView {
    pub action: ActionView,
    pub failure: Failure,
}

impl View for Step {
    type V = StepView;

    open spec fn view(&self) -> StepView {
        StepView { action: self.action@, failure: self.failure }
    }
}

/// What a list of steps stands for.
pub open spec fn plan(steps: Seq<Step>) -> Seq<StepView> {
    Seq::new(steps.len(), |i: int| steps[i]@)
}

/// How a run of the compiler ended: `None` where that could not be learned,
/// else whether it reported success.
pub open spec fn verdict(exit: Option<bool>) -> Result<(), Failure> {
    match exit {
        None => Err(Failure::Wait),
        Some(false) => Err(Failure::Compile),
        Some(true) => Ok(()),
    }
}

/// Judges how a run of the compiler ended.
pub fn judge(exit: Option<bool>) -> (result: Result<(), Failure>)
    ensures
        result == verdict(exit),
{
    match exit {
        None => Err(Failure::Wait),
        Some(false) => Err(Failure::Compile),
        Some(true) => Ok(()),
    }
}

} // verus!
