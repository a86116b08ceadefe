//! From a finished build to what the host program embeds: the copies that
//! bring the compiler's output into the blob store, and the source text that
//! names the copies.

use vstd::prelude::*;
use crate::blob::{blob_file, blob_path, blobs_do_not_collide, takes, BlobStore};
use crate::emit::{embed, embedded, emit, emitted};
use crate::harvest::{copies, copies_of, copy_step, literals, number, numbered, placed};
use crate::path::{join, joined};
use crate::plan::{plan, Action, Failure, Step, StepView};
use crate::staging::{output_dir, output_path};
use crate::text::{literal, quote};
use crate::tree::{count, files, Shape, Tree};

verus! {

/// The target that a single-binary build compiles for.
pub const WASM_TARGET: &'static str = "wasm32-unknown-unknown";

/// The name under which the compiler leaves the single binary.
pub const WASM_FILE: &'static str = "transarch_tmp_pkg.wasm";

/// What a build embeds: the copies to make, in order, and the source text to
/// hand back to the place that asked for the build.
#[derive(Debug, PartialEq, Eq)]
pub struct Embedding {
    pub steps: Vec<Step>,
    pub text: String,
}

/// The copies that harvest everything under the output directory of
/// `target`, the first file taking the identifier `first`.
pub open spec fn cross_steps(dir: Seq<char>, target: Seq<char>, listing: Shape<()>, first: nat) -> Seq<
    StepView,
> {
    let out_dir = output_path(dir, target);
    copies_of(numbered(listing, first), out_dir, out_dir)
}

/// The source text that rebuilds everything under the output directory of
/// `target`.
pub open spec fn cross_text(dir: Seq<char>, target: Seq<char>, listing: Shape<()>, first: nat) -> Seq<
    char,
> {
    emitted(placed(numbered(listing, first), output_path(dir, target)))
}

/// The one copy of a single-binary build that takes the identifier `id`.
pub open spec fn wasm_steps(dir: Seq<char>, id: nat) -> Seq<StepView> {
    let out_dir = output_path(dir, WASM_TARGET@);
    seq![copy_step(joined(out_dir, WASM_FILE@), blob_path(out_dir, id))]
}

/// The source text of a single-binary build that takes the identifier `id`.
pub open spec fn wasm_text(dir: Seq<char>, id: nat) -> Seq<char> {
    embedded(literal(blob_path(output_path(dir, WASM_TARGET@), id)))
}

/// Two single-binary builds on one store, one right after the other, take
/// different identifiers and keep their binaries in different blobs.
pub proof fn single_builds_share_nothing(
    dir: Seq<char>,
    before: BlobStore,
    between: BlobStore,
    after: BlobStore,
    a: nat,
    b: nat,
)
    requires
        takes(before, between, a, 1),
        takes(between, after, b, 1),
    ensures
        a != b,
        wasm_steps(dir, a)[0].action->to != wasm_steps(dir, b)[0].action->to,
{
    if blob_path(output_path(dir, WASM_TARGET@), a) == blob_path(
        output_path(dir, WASM_TARGET@),
        b,
    ) {
        blobs_do_not_collide(output_path(dir, WASM_TARGET@), a, b);
    }
}

/// Harvests the whole output directory of a build.
///
/// `dir` is the staging project, `target` what it was built for, and
/// `listing` what the compiler left in its output directory. Every file in
/// the listing takes the next identifier of `store`, in the order of the
/// listing. Fails, and takes none, only where the store has too few left.
pub fn cross(store: &mut BlobStore, dir: &str, target: &str, listing: &Tree<()>) -> (result: Result<
    Embedding,
    Failure,
>)
    ensures
        match result {
            Ok(embedding) => {
                &&& old(store).issued() + files(listing@) <= usize::MAX
                &&& takes(*old(store), *final(store), old(store).issued(), files(listing@))
                &&& plan(embedding.steps@) == cross_steps(
                    dir@,
                    target@,
                    listing@,
                    old(store).issued(),
                )
                &&& embedding.text@ == cross_text(dir@, target@, listing@, old(store).issued())
            },
            Err(failure) => {
                &&& failure == Failure::OutOfIds
                &&& old(store).issued() + files(listing@) > usize::MAX
                &&& *final(store) == *old(store)
            },
        },
{
    let total = match count(listing) {
        Some(total) => total,
        None => {
            return Err(Failure::OutOfIds);
        },
    };
    let first = match store.reserve(total) {
        Some(first) => first,
        None => {
            return Err(Failure::OutOfIds);
        },
    };
    let out_dir = output_dir(dir, target);
    let (tree, _) = number(listing, first);
    let mut steps: Vec<Step> = Vec::new();
    assert(plan(steps@) =~= Seq::<StepView>::empty());
    copies(&tree, out_dir.as_str(), out_dir.as_str(), &mut steps);
    assert(plan(steps@) =~= copies_of(tree@, out_dir@, out_dir@));
    let text = emit(&literals(&tree, out_dir.as_str()));
    Ok(Embedding { steps, text })
}

/// Harvests the single binary of a build for `WASM_TARGET`.
///
/// `dir` is the staging project. The binary takes the next identifier of
/// `store`. Fails, and takes none, only where the store has none left.
pub fn wasm(store: &mut BlobStore, dir: &str) -> (result: Result<Embedding, Failure>)
    ensures
        match result {
            Ok(embedding) => {
                &&& old(store).issued() < usize::MAX
                &&& takes(*old(store), *final(store), old(store).issued(), 1)
                &&& plan(embedding.steps@) == wasm_steps(dir@, old(store).issued())
                &&& embedding.text@ == wasm_text(dir@, old(store).issued())
            },
            Err(failure) => {
                &&& failure == Failure::OutOfIds
                &&& old(store).issued() == usize::MAX
                &&& *final(store) == *old(store)
            },
        },
{
    let id = match store.allocate() {
        Some(id) => id,
        None => {
            return Err(Failure::OutOfIds);
        },
    };
    let out_dir = output_dir(dir, WASM_TARGET);
    let file = blob_file(out_dir.as_str(), id);
    let text = embed(quote(file.as_str()).as_str());
    let mut steps: Vec<Step> = Vec::new();
    steps.push(
        Step {
            action: Action::Copy { from: join(out_dir.as_str(), WASM_FILE), to: file },
            failure: Failure::DriveFull,
        },
    );
    assert(plan(steps@) =~= wasm_steps(dir@, id as nat));
    Ok(Embedding { steps, text })
}

} // verus!
