//! The staging project: where it lives, which target a fragment is built
//! for, and the steps that put the fragment there and compile it.

use vstd::prelude::*;
use vstd::utf8::is_ascii_chars;
use crate::path::{join, joined};
use crate::plan::{plan, texts, Action, ActionView, Failure, Step, StepView};

verus! {

/// The manifest of the staging project. It declares no dependencies and
/// asks for a library that can be linked both dynamically and statically.
pub const CARGO_TOML_CONTENTS: &'static str = r#"[package]
name = "transarch-tmp-pkg"
version = "0.1.0"
edition = "2021"

[lib]
crate-type = ["cdylib", "rlib"]

[workspace]
members = []
"#;

/// What was found at one directory on the way up from the working
/// directory: whether it holds a manifest file and an output directory.
#[derive(Debug, PartialEq, Eq)]
pub struct Probe {
    pub path: String,
    pub manifest: bool,
    pub output: bool,
}

impl Probe {
    /// Whether the directory is the root of a build: it holds both marks.
    pub open spec fn is_root(self) -> bool {
        self.manifest && self.output
    }
}

/// The output directory of the nearest build root among `probes`, which run
/// from the working directory upwards.
pub fn target_dir(probes: &Vec<Probe>) -> (found: Result<String, Failure>)
    ensures
        match found {
            Ok(dir) => exists|i: int|
                0 <= i < probes.len() && probes[i].is_root() && dir@ == joined(
                    probes[i].path@,
                    "target"@,
                ) && forall|j: int| 0 <= j < i ==> !probes[j].is_root(),
            Err(failure) => failure == Failure::NoTargetDir && forall|i: int|
                0 <= i < probes.len() ==> !probes[i].is_root(),
        },
{
    let mut i: usize = 0;
    while i < probes.len()
        invariant
            i <= probes.len(),
            forall|j: int| 0 <= j < i ==> !probes[j].is_root(),
        decreases probes.len() - i,
    {
        if probes[i].manifest && probes[i].output {
            return Ok(join(probes[i].path.as_str(), "target"));
        }
        i = i + 1;
    }
    Err(Failure::NoTargetDir)
}

/// Where the staging project lives under an output directory.
pub open spec fn staging_path(target_dir: Seq<char>) -> Seq<char> {
    joined(target_dir, "transarch/transarch-tmp-crate"@)
}

/// The directory of the staging project.
pub fn staging_dir(target_dir: &str) -> (dir: String)
    ensures
        dir@ == staging_path(target_dir@),
{
    join(target_dir, "transarch/transarch-tmp-crate")
}

/// Where the compiler leaves what it built for `target`.
pub open spec fn output_path(dir: Seq<char>, target: Seq<char>) -> Seq<char> {
    joined(dir, "target/"@ + target + "/debug"@)
}

/// The compiler's output directory for a target, under the staging project.
pub fn output_dir(dir: &str, target: &str) -> (out: String)
    ensures
        out@ == output_path(dir@, target@),
{
    let mut rel = "target/".to_owned();
    rel.append(target);
    rel.append("/debug");
    join(dir, rel.as_str())
}

/// The target that a literal names: what stands between its first and last
/// character, if it begins with a double quote, holds ASCII only and is long
/// enough to have both.
pub open spec fn unquoted(literal: Seq<char>) -> Option<Seq<char>> {
    if literal.len() >= 2 && literal[0] == '"' && is_ascii_chars(literal) {
        Some(literal.subrange(1, literal.len() - 1))
    } else {
        None
    }
}

/// The target of a build: the one given, or else the one that the literal at
/// the head of the fragment names.
pub open spec fn chosen(given: Option<Seq<char>>, leading: Option<Seq<char>>) -> Result<
    Seq<char>,
    Failure,
> {
    match given {
        Some(target) => Ok(target),
        None => match leading {
            None => Err(Failure::NoTarget),
            Some(literal) => match unquoted(literal) {
                Some(target) => Ok(target),
                None => Err(Failure::TargetNotString),
            },
        },
    }
}

/// How many tokens at the head of a fragment name its target and are not
/// compiled: one where no target is given, none where one is.
pub open spec fn heading(given: Option<Seq<char>>) -> nat {
    match given {
        Some(_) => 0,
        None => 1,
    }
}

/// Says how many tokens to take off the head of a fragment before the rest
/// is compiled. The first of them, if there is one, is the `leading` token
/// of `target` and `build`.
pub fn target_tokens(given: &Option<String>) -> (count: usize)
    ensures
        count == heading(view_of(*given)),
{
    match given {
        Some(_) => 0,
        None => 1,
    }
}

/// Where no token names the target, the fragment's first token has no say
/// in it.
pub proof fn given_target_stands(given: Option<Seq<char>>, one: Option<Seq<char>>, other: Option<Seq<char>>)
    requires
        heading(given) == 0,
    ensures
        chosen(given, one) == chosen(given, other),
        chosen(given, one) is Ok,
{
}

/// Reads the target out of the text of a string literal.
pub fn unquote(literal: &str) -> (target: Option<String>)
    ensures
        match target {
            Some(target) => unquoted(literal@) == Some(target@),
            None => unquoted(literal@) is None,
        },
{
    if !literal.is_ascii() {
        return None;
    }
    let len = literal.unicode_len();
    if len < 2 || literal.get_char(0) != '"' {
        return None;
    }
    Some(literal.substring_ascii(1, len - 1).to_owned())
}

/// Settles the target of a build. `leading` is the text of the fragment's
/// first token where `target_tokens` takes one off and it is a literal.
pub fn target(given: Option<String>, leading: Option<&str>) -> (target: Result<String, Failure>)
    ensures
        match target {
            Ok(target) => chosen(view_of(given), leading_view(leading)) == Ok::<
                Seq<char>,
                Failure,
            >(target@),
            Err(failure) => chosen(view_of(given), leading_view(leading)) == Err::<
                Seq<char>,
                Failure,
            >(failure),
        },
{
    match given {
        Some(target) => Ok(target),
        None => match leading {
            None => Err(Failure::NoTarget),
            Some(literal) => match unquote(literal) {
                Some(target) => Ok(target),
                None => Err(Failure::TargetNotString),
            },
        },
    }
}

/// The view of a string that may be absent.
pub open spec fn view_of(text: Option<String>) -> Option<Seq<char>> {
    match text {
        Some(text) => Some(text@),
        None => None,
    }
}

/// The view of a borrowed string that may be absent.
pub open spec fn leading_view(text: Option<&str>) -> Option<Seq<char>> {
    match text {
        Some(text) => Some(text@),
        None => None,
    }
}

/// The steps that create a staging project at `dir`.
pub open spec fn setup(dir: Seq<char>) -> Seq<StepView> {
    seq![
        StepView { action: ActionView::CreateDirAll { path: dir }, failure: Failure::CreateRoot },
        StepView {
            action: ActionView::CreateDir { path: joined(dir, "src"@) },
            failure: Failure::CreateSrc,
        },
        StepView {
            action: ActionView::Write {
                path: joined(dir, "Cargo.toml"@),
                contents: CARGO_TOML_CONTENTS@,
            },
            failure: Failure::WriteManifest,
        },
    ]
}

/// The steps that put a fragment into the staging project at `dir` and
/// compile it for `target`.
pub open spec fn compile(dir: Seq<char>, target: Seq<char>, source: Seq<char>) -> Seq<StepView> {
    seq![
        StepView {
            action: ActionView::Write { path: joined(dir, "src/lib.rs"@), contents: source },
            failure: Failure::WriteSource,
        },
        StepView {
            action: ActionView::Run {
                program: "cargo"@,
                args: seq!["build"@, "--target="@ + target, "--color=always"@],
                dir: dir,
            },
            failure: Failure::Spawn,
        },
    ]
}

/// The steps of a build: the staging project is set up unless it is there
/// already, and the fragment is compiled if its target is known.
pub open spec fn build_steps(
    dir: Seq<char>,
    staged: bool,
    target: Result<Seq<char>, Failure>,
    source: Seq<char>,
) -> Seq<StepView> {
    let first = if staged {
        Seq::<StepView>::empty()
    } else {
        setup(dir)
    };
    match target {
        Ok(target) => first + compile(dir, target, source),
        Err(_) => first,
    }
}

/// A staging project that has been set up for one target.
#[derive(Debug, PartialEq, Eq)]
pub struct Staged {
    pub dir: String,
    pub target: String,
}

/// A planned build: the steps to carry out in order, and what the build
/// comes to once they are done.
#[derive(Debug, PartialEq, Eq)]
pub struct Build {
    pub steps: Vec<Step>,
    pub end: Result<Staged, Failure>,
}

/// Plans the build of a fragment.
///
/// `target_dir` is the output directory of the enclosing build, `staged`
/// says whether the staging project exists already, `given` and `leading`
/// settle the target as in `target`, and `source` is the text of the
/// fragment without the tokens that `target_tokens` takes off its head.
pub fn build(
    target_dir: &str,
    staged: bool,
    given: Option<String>,
    leading: Option<&str>,
    source: &str,
) -> (build: Build)
    ensures
        plan(build.steps@) == build_steps(
            staging_path(target_dir@),
            staged,
            chosen(view_of(given), leading_view(leading)),
            source@,
        ),
        match build.end {
            Ok(staged) => staged.dir@ == staging_path(target_dir@) && chosen(
                view_of(given),
                leading_view(leading),
            ) == Ok::<Seq<char>, Failure>(staged.target@),
            Err(failure) => chosen(view_of(given), leading_view(leading)) == Err::<
                Seq<char>,
                Failure,
            >(failure),
        },
{
    let dir = staging_dir(target_dir);
    let mut steps: Vec<Step> = Vec::new();
    if !staged {
        steps.push(
            Step { action: Action::CreateDirAll { path: dir.clone() }, failure: Failure::CreateRoot },
        );
        steps.push(
            Step {
                action: Action::CreateDir { path: join(dir.as_str(), "src") },
                failure: Failure::CreateSrc,
            },
        );
        steps.push(
            Step {
                action: Action::Write {
                    path: join(dir.as_str(), "Cargo.toml"),
                    contents: CARGO_TOML_CONTENTS.to_owned(),
                },
                failure: Failure::WriteManifest,
            },
        );
        assert(plan(steps@) =~= setup(dir@));
    } else {
        assert(plan(steps@) =~= Seq::<StepView>::empty());
    }
    let ghost first = plan(steps@);
    match target(given, leading) {
        Err(failure) => Build { steps, end: Err(failure) },
        Ok(target) => {
            let mut flag = "--target=".to_owned();
            flag.append(target.as_str());
            let mut args: Vec<String> = Vec::new();
            args.push("build".to_owned());
            args.push(flag);
            args.push("--color=always".to_owned());
            assert(texts(args@) =~= seq!["build"@, "--target="@ + target@, "--color=always"@]);
            steps.push(
                Step {
                    action: Action::Write {
                        path: join(dir.as_str(), "src/lib.rs"),
                        contents: source.to_owned(),
                    },
                    failure: Failure::WriteSource,
                },
            );
            steps.push(
                Step {
                    action: Action::Run { program: "cargo".to_owned(), args, dir: dir.clone() },
                    failure: Failure::Spawn,
                },
            );
            assert(plan(steps@) =~= first + compile(dir@, target@, source@));
            Build { steps, end: Ok(Staged { dir, target }) }
        },
    }
}

} // verus!
