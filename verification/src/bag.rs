use vstd::prelude::*;

use rand::seq::SliceRandom;

use crate::piece::{all_kinds, PieceKind};

verus! {

/// `s` is a run of complete bags: consecutive blocks of seven, each of which holds
/// every kind exactly once.
pub open spec fn full_bags(s: Seq<PieceKind>) -> bool
    decreases s.len(),
{
    if s.len() == 0 {
        true
    } else if s.len() < 7 {
        false
    } else {
        &&& s.take(7).to_multiset() == all_kinds().to_multiset()
        &&& full_bags(s.skip(7))
    }
}

/// How the queue of upcoming kinds moves on when one kind is drawn: the front leaves,
/// and a queue that held a single kind is replaced by a freshly shuffled bag.
pub open spec fn queue_after_draw(before: Seq<PieceKind>, after: Seq<PieceKind>) -> bool {
    if before.len() >= 2 {
        after == before.drop_first()
    } else {
        after.len() == 7 && after.to_multiset() == all_kinds().to_multiset()
    }
}

/// Two runs of complete bags, one after the other, are a run of complete bags.
pub proof fn lemma_full_bags_append(a: Seq<PieceKind>, b: Seq<PieceKind>)
    requires
        full_bags(a),
        full_bags(b),
    ensures
        full_bags(a + b),
    decreases a.len(),
{
    if a.len() == 0 {
        assert(a + b =~= b);
    } else {
        lemma_full_bags_append(a.skip(7), b);
        assert((a + b).take(7) =~= a.take(7));
        assert((a + b).skip(7) =~= a.skip(7) + b);
    }
}

/// In a run of complete bags, the block of seven at every multiple of seven holds
/// every kind exactly once.
pub proof fn lemma_full_bags_blocks(s: Seq<PieceKind>, k: int)
    requires
        full_bags(s),
        0 <= k,
        7 * k + 7 <= s.len(),
    ensures
        s.subrange(7 * k, 7 * k + 7).to_multiset() == all_kinds().to_multiset(),
    decreases k,
{
    if k == 0 {
        assert(s.subrange(0, 7) =~= s.take(7));
    } else {
        lemma_full_bags_blocks(s.skip(7), k - 1);
        assert(s.skip(7).subrange(7 * (k - 1), 7 * (k - 1) + 7) =~= s.subrange(7 * k, 7 * k + 7));
    }
}

/// The thread-local random generator of rand 0.8.
#[verifier::external_type_specification]
#[verifier::external_body]
pub struct ExThreadRng(rand::rngs::ThreadRng);

/// A handle to the thread-local random generator.
///
/// Calls `rand::thread_rng` (rand 0.8), which hands out a handle to a generator that
/// the system seeds lazily. Nothing is stated of it: what it yields rests on chance.
#[verifier::external_body]
fn thread_rng() -> rand::rngs::ThreadRng {
    rand::thread_rng()
}

/// Shuffles `kinds` in place with `rng`.
///
/// Calls `SliceRandom::shuffle` (rand 0.8) on the vector's slice. That shuffle only
/// swaps elements, so the result is a permutation of the input: the same length and
/// the same multiset of kinds. Which permutation comes out rests on chance and is
/// left unsaid.
#[verifier::external_body]
fn shuffle_kinds(kinds: &mut Vec<PieceKind>, rng: &mut rand::rngs::ThreadRng)
    ensures
        final(kinds)@.len() == old(kinds)@.len(),
        final(kinds)@.to_multiset() == old(kinds)@.to_multiset(),
{
    kinds.shuffle(rng);
}

/// The 7-bag generator: a queue of upcoming kinds that is refilled with a shuffled
/// set of all seven kinds whenever fewer than two are left.
pub struct Bag {
    queue: Vec<PieceKind>,
    dealt: Ghost<Seq<PieceKind>>,
}

impl Bag {
    /// The kinds waiting in the queue, front first.
    pub closed spec fn upcoming(&self) -> Seq<PieceKind> {
        self.queue@
    }

    /// Every kind drawn so far, in the order drawn.
    pub closed spec fn dealt(&self) -> Seq<PieceKind> {
        self.dealt@
    }

    /// The queue is never empty, never longer than one bag, and what was drawn
    /// followed by what waits is a run of complete bags.
    pub open spec fn wf(&self) -> bool {
        &&& 1 <= self.upcoming().len() <= 7
        &&& full_bags(self.dealt() + self.upcoming())
    }

    /// A bag holding one shuffled set of all seven kinds, nothing drawn yet.
    pub fn new() -> (b: Self)
        ensures
            b.wf(),
            b.dealt() == Seq::<PieceKind>::empty(),
            b.upcoming().len() == 7,
            b.upcoming().to_multiset() == all_kinds().to_multiset(),
    {
        let mut b = Self { queue: Vec::new(), dealt: Ghost(Seq::empty()) };
        b.refill();
        proof {
            assert(b.upcoming() =~= Seq::<PieceKind>::empty() + b.upcoming().subrange(0, 7));
            assert(b.upcoming().skip(7) =~= Seq::<PieceKind>::empty());
            assert(b.upcoming().take(7) =~= b.upcoming());
            assert(b.dealt() + b.upcoming() =~= b.upcoming());
            reveal_with_fuel(full_bags, 2);
        }
        b
    }

    /// Appends a shuffled set of all seven kinds to the queue.
    fn refill(&mut self)
        ensures
            final(self).dealt() == old(self).dealt(),
            final(self).upcoming().len() == old(self).upcoming().len() + 7,
            final(self).upcoming().subrange(0, old(self).upcoming().len() as int) == old(self).upcoming(),
            final(self).upcoming().subrange(
                old(self).upcoming().len() as int,
                old(self).upcoming().len() + 7int,
            ).to_multiset() == all_kinds().to_multiset(),
    {
        let all = PieceKind::all();
        let mut pieces: Vec<PieceKind> = Vec::new();
        let mut i: usize = 0;
        while i < 7
            invariant
                i <= 7,
                all@ == all_kinds(),
                pieces@ == all_kinds().take(i as int),
            decreases 7 - i,
        {
            pieces.push(all[i]);
            i += 1;
            assert(pieces@ =~= all_kinds().take(i as int));
        }
        assert(pieces@ =~= all_kinds());
        shuffle_kinds(&mut pieces, &mut thread_rng());
        let ghost before = self.queue@;
        let ghost shuffled = pieces@;
        self.queue.append(&mut pieces);
        assert(self.queue@.subrange(0, before.len() as int) =~= before);
        assert(self.queue@.subrange(before.len() as int, before.len() + 7int) =~= shuffled);
    }

    /// Draws the kind at the front of the queue, refilling first when fewer than two
    /// kinds wait.
    pub fn next(&mut self) -> (k: PieceKind)
        requires
            old(self).wf(),
        ensures
            final(self).wf(),
            k == old(self).upcoming()[0],
            final(self).dealt() == old(self).dealt().push(k),
            queue_after_draw(old(self).upcoming(), final(self).upcoming()),
    {
        let ghost before = self.queue@;
        let ghost stream = self.dealt@ + self.queue@;
        if self.queue.len() < 2 {
            self.refill();
            proof {
                let fresh = self.queue@.subrange(1, 8);
                assert(fresh.skip(7) =~= Seq::<PieceKind>::empty());
                assert(fresh.take(7) =~= fresh);
                assert(full_bags(fresh)) by {
                    reveal_with_fuel(full_bags, 2);
                }
                lemma_full_bags_append(stream, fresh);
                assert(self.dealt@ + self.queue@ =~= stream + fresh);
            }
        }
        let ghost mid_stream = self.dealt@ + self.queue@;
        let k = self.queue.remove(0);
        self.dealt = Ghost(self.dealt@.push(k));
        proof {
            assert(self.dealt@ + self.queue@ =~= mid_stream);
            if before.len() < 2 {
                assert(self.queue@ =~= self.queue@.subrange(0, 7));
            }
        }
        k
    }

    /// The kind that the next draw will return.
    pub fn peek(&self) -> (k: PieceKind)
        requires
            self.wf(),
        ensures
            k == self.upcoming()[0],
    {
        self.queue[0]
    }
}

/// Law of the generator: every block of seven consecutive draws that starts at a
/// multiple of seven holds each of the seven kinds exactly once.
pub proof fn lemma_bag_deals_complete_sets(b: &Bag, k: int)
    requires
        b.wf(),
        0 <= k,
        7 * k + 7 <= b.dealt().len(),
    ensures
        b.dealt().subrange(7 * k, 7 * k + 7).to_multiset() == all_kinds().to_multiset(),
{
    let s = b.dealt() + b.upcoming();
    lemma_full_bags_blocks(s, k);
    assert(s.subrange(7 * k, 7 * k + 7) =~= b.dealt().subrange(7 * k, 7 * k + 7));
}

} // verus!
