//! The blob store's identifiers: one counter, counting up from zero, that
//! numbers every harvested file for as long as the store lives.

use vstd::prelude::*;
use crate::path::{join, joined};
use crate::text::{decimal, decimal_is_injective, to_decimal};

verus! {

/// Hands out blob identifiers. A store starts at zero and never hands out the
/// same identifier twice.
#[derive(Debug)]
pub struct BlobStore {
    next: usize,
}

impl View for BlobStore {
    type V = Set<nat>;

    /// The identifiers handed out so far.
    open spec fn view(&self) -> Set<nat> {
        Set::new(|id: nat| id < self.issued())
    }
}

impl BlobStore {
    /// How many identifiers the store has handed out.
    pub closed spec fn issued(&self) -> nat {
        self.next as nat
    }

    /// A store that has handed out nothing.
    pub fn new() -> (store: BlobStore)
        ensures
            store.issued() == 0,
    {
        BlobStore { next: 0 }
    }

    /// Hands out the next identifier, which is the number of identifiers
    /// handed out before it. Gives `None`, and changes nothing, only when the
    /// counter cannot count further.
    pub fn allocate(&mut self) -> (id: Option<usize>)
        ensures
            match id {
                Some(id) => id < usize::MAX && takes(*old(self), *final(self), id as nat, 1),
                None => old(self).issued() == usize::MAX && *final(self) == *old(self),
            },
    {
        if self.next == usize::MAX {
            None
        } else {
            let id = self.next;
            self.next = id + 1;
            Some(id)
        }
    }

    /// Hands out `count` identifiers at once, as `count` allocations in a
    /// row would, and gives the first of them. Gives `None`, and changes
    /// nothing, only when that many are not left.
    pub fn reserve(&mut self, count: usize) -> (first: Option<usize>)
        ensures
            match first {
                Some(first) => first + count <= usize::MAX && takes(
                    *old(self),
                    *final(self),
                    first as nat,
                    count as nat,
                ),
                None => old(self).issued() + count > usize::MAX && *final(self) == *old(self),
            },
    {
        if count > usize::MAX - self.next {
            None
        } else {
            let first = self.next;
            self.next = first + count;
            Some(first)
        }
    }
}

/// One round of handing out: `before` hands out the `count` identifiers
/// from `first` on and becomes `after`. The first of them is the number of
/// identifiers handed out before.
pub open spec fn takes(before: BlobStore, after: BlobStore, first: nat, count: nat) -> bool {
    &&& first == before.issued()
    &&& after.issued() == first + count
}

/// A run of rounds on one store: each store becomes the next by handing out
/// `counts[k]` identifiers from `firsts[k]` on.
pub open spec fn run(stores: Seq<BlobStore>, firsts: Seq<nat>, counts: Seq<nat>) -> bool {
    &&& stores.len() == counts.len() + 1
    &&& firsts.len() == counts.len()
    &&& forall|k: int|
        0 <= k < counts.len() ==> takes(stores[k], stores[k + 1], #[trigger] firsts[k], counts[k])
}

/// The sum of some counts.
pub open spec fn total(counts: Seq<nat>) -> nat
    decreases counts.len(),
{
    if counts.len() == 0 {
        0
    } else {
        total(counts.drop_last()) + counts.last()
    }
}

/// Where the blob with the given identifier is kept: beside the directory
/// `out_dir`, under the name `blob` followed by the identifier in decimal.
pub open spec fn blob_path(out_dir: Seq<char>, id: nat) -> Seq<char> {
    joined(out_dir, "../blob"@ + decimal(id))
}

/// The path of a blob's file.
pub fn blob_file(out_dir: &str, id: usize) -> (path: String)
    ensures
        path@ == blob_path(out_dir@, id as nat),
{
    let mut name = "../blob".to_owned();
    let number = to_decimal(id);
    name.append(number.as_str());
    join(out_dir, name.as_str())
}

/// A round hands out identifiers that the store had not handed out before,
/// and adds just those to the ones handed out.
pub proof fn taken_are_fresh(before: BlobStore, after: BlobStore, first: nat, count: nat)
    requires
        takes(before, after, first, count),
    ensures
        forall|id: nat| first <= id < first + count ==> !before@.contains(id),
        after@ == before@.union(Set::new(|id: nat| first <= id < first + count)),
{
    assert(after@ =~= before@.union(Set::new(|id: nat| first <= id < first + count)));
}

/// Along any run that starts from a fresh store, each round begins where
/// the rounds before it ended, so that the identifiers come out as 0, 1, 2,
/// … in the order in which they were handed out, however the files are
/// spread over the rounds; and at the end the store has handed out exactly
/// the numbers below the total.
pub proof fn identifiers_count_up(stores: Seq<BlobStore>, firsts: Seq<nat>, counts: Seq<nat>)
    requires
        run(stores, firsts, counts),
        stores[0].issued() == 0,
    ensures
        forall|k: int| 0 <= k < counts.len() ==> #[trigger] firsts[k] == total(counts.take(k)),
        stores.last()@ == Set::new(|id: nat| id < total(counts)),
{
    run_counts(stores, firsts, counts, counts.len() as int);
    assert(counts.take(counts.len() as int) =~= counts);
    assert forall|k: int| 0 <= k < counts.len() implies #[trigger] firsts[k] == total(
        counts.take(k),
    ) by {
        run_counts(stores, firsts, counts, k);
    }
}

/// Two rounds of one run never hand out the same identifier, however many
/// rounds lie between them.
pub proof fn identifiers_never_repeat(
    stores: Seq<BlobStore>,
    firsts: Seq<nat>,
    counts: Seq<nat>,
    i: int,
    j: int,
)
    requires
        run(stores, firsts, counts),
        0 <= i < j < counts.len(),
    ensures
        firsts[i] + counts[i] <= firsts[j],
    decreases j - i,
{
    assert(takes(stores[j - 1], stores[j - 1 + 1], firsts[j - 1], counts[j - 1]));
    assert(takes(stores[j], stores[j + 1], firsts[j], counts[j]));
    if i < j - 1 {
        identifiers_never_repeat(stores, firsts, counts, i, j - 1);
    }
}

proof fn run_counts(stores: Seq<BlobStore>, firsts: Seq<nat>, counts: Seq<nat>, k: int)
    requires
        run(stores, firsts, counts),
        0 <= k <= counts.len(),
    ensures
        stores[k].issued() == stores[0].issued() + total(counts.take(k)),
    decreases k,
{
    if k > 0 {
        run_counts(stores, firsts, counts, k - 1);
        assert(takes(stores[k - 1], stores[k - 1 + 1], firsts[k - 1], counts[k - 1]));
        assert(counts.take(k).drop_last() =~= counts.take(k - 1));
    }
}

/// Blobs with different identifiers are kept in different files.
pub proof fn blobs_do_not_collide(out_dir: Seq<char>, a: nat, b: nat)
    requires
        blob_path(out_dir, a) == blob_path(out_dir, b),
    ensures
        a == b,
{
    let prefix = if out_dir.len() == 0 || out_dir.last() == '/' {
        out_dir + "../blob"@
    } else {
        out_dir + seq!['/'] + "../blob"@
    };
    let pa = blob_path(out_dir, a);
    let pb = blob_path(out_dir, b);
    assert(pa =~= prefix + decimal(a));
    assert(pb =~= prefix + decimal(b));
    assert(decimal(a) =~= pa.subrange(prefix.len() as int, pa.len() as int));
    assert(decimal(b) =~= pb.subrange(prefix.len() as int, pb.len() as int));
    decimal_is_injective(a, b);
}

} // verus!
