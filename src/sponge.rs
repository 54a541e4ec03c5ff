//! The sponge that absorbs a sequence of field elements into a 12-element
//! state, eight elements per permutation call, and squeezes a 4-element
//! digest out of the final state.
//!
//! The permutation is outside work: `Sponge` asks for it through
//! `SpongeStep::Permute` and takes the permuted state back in `resume`.
//! Its contracts are stated over an arbitrary permutation `perm`, so every
//! law below holds whatever permutation is plugged in.

use vstd::prelude::*;
use crate::field::{P, reduce, from_raw, to_canonical, all_canonical};

verus! {

/// Number of field elements in the permutation state.
pub const WIDTH: usize = 12;

/// Number of state elements that input overwrites per permutation call.
pub const RATE: usize = 8;

/// Number of field elements in a digest.
pub const DIGEST_LEN: usize = 4;

/// The all-zero state a hash starts from.
pub open spec fn zero_state() -> Seq<u64> {
    Seq::new(WIDTH as nat, |i: int| 0u64)
}

/// Every value reduced to its canonical field element.
pub open spec fn canonical_seq(s: Seq<u64>) -> Seq<u64> {
    Seq::new(s.len(), |i: int| reduce(s[i]))
}

/// One permutation call, with its output read back in canonical form.
pub open spec fn permute_once(perm: spec_fn(Seq<u64>) -> Seq<u64>, s: Seq<u64>) -> Seq<u64> {
    canonical_seq(perm(s))
}

/// The state with its first `chunk.len()` elements replaced by `chunk`;
/// the other elements keep their values.
pub open spec fn overwrite(state: Seq<u64>, chunk: Seq<u64>) -> Seq<u64> {
    chunk + state.skip(chunk.len() as int)
}

/// Absorbs `inputs` into `state`: each chunk of at most `RATE` elements
/// overwrites the front of the state and is followed by one permutation
/// call. An input of `RATE` elements or fewer, the empty one included, is
/// a single chunk.
pub open spec fn absorb(
    perm: spec_fn(Seq<u64>) -> Seq<u64>,
    state: Seq<u64>,
    inputs: Seq<u64>,
) -> Seq<u64>
    decreases inputs.len(),
{
    if inputs.len() <= RATE {
        permute_once(perm, overwrite(state, inputs))
    } else {
        absorb(
            perm,
            permute_once(perm, overwrite(state, inputs.take(RATE as int))),
            inputs.skip(RATE as int),
        )
    }
}

/// The digest of `inputs`: the first `DIGEST_LEN` elements of the state
/// after absorbing them into the zero state.
pub open spec fn sponge_hash(perm: spec_fn(Seq<u64>) -> Seq<u64>, inputs: Seq<u64>) -> Seq<u64> {
    absorb(perm, zero_state(), inputs).take(DIGEST_LEN as int)
}

/// How many permutation calls `absorb` makes on `n` inputs.
pub open spec fn absorb_calls(n: nat) -> nat
    decreases n,
{
    if n <= RATE {
        1
    } else {
        1 + absorb_calls((n - RATE) as nat)
    }
}

/// The number of chunks that `n` inputs make: one per started run of
/// `RATE` elements, and one for the empty input.
pub open spec fn num_chunks(n: nat) -> nat {
    if n == 0 {
        1
    } else {
        ((n + 7) / 8) as nat
    }
}

/// The `k`-th chunk of `inputs`.
pub open spec fn chunk(inputs: Seq<u64>, k: nat) -> Seq<u64> {
    let start = k * RATE;
    let end = if start + RATE <= inputs.len() { start + RATE } else { inputs.len() as int };
    inputs.subrange(start, end)
}

/// The state reached from `state` by absorbing chunks `k`, `k + 1`, ...
/// of `inputs` in turn, as `Sponge` does.
spec fn run_from(
    perm: spec_fn(Seq<u64>) -> Seq<u64>,
    inputs: Seq<u64>,
    k: nat,
    state: Seq<u64>,
) -> Seq<u64>
    decreases num_chunks(inputs.len()) - k,
{
    if k >= num_chunks(inputs.len()) {
        state
    } else {
        run_from(perm, inputs, k + 1, permute_once(perm, overwrite(state, chunk(inputs, k))))
    }
}

/// Absorbing `n` inputs takes one permutation call per chunk: one for the
/// empty input, and one per started run of `RATE` elements otherwise.
pub proof fn lemma_calls_per_chunk(n: nat)
    ensures
        absorb_calls(n) == num_chunks(n),
    decreases n,
{
    if n > RATE {
        lemma_calls_per_chunk((n - RATE) as nat);
        assert(((n + 7) / 8) as nat == 1 + (((n - 8) + 7) / 8) as nat);
    }
}

/// An input longer than `RATE` and at most `2 * RATE` elements long is
/// absorbed in two permutation calls: the first `RATE` elements, then the
/// rest over the front of the permuted state.
pub proof fn lemma_two_chunks(perm: spec_fn(Seq<u64>) -> Seq<u64>, inputs: Seq<u64>)
    requires
        RATE < inputs.len() <= 2 * RATE,
    ensures
        sponge_hash(perm, inputs) == permute_once(
            perm,
            overwrite(
                permute_once(perm, overwrite(zero_state(), inputs.take(RATE as int))),
                inputs.skip(RATE as int),
            ),
        ).take(DIGEST_LEN as int),
        absorb_calls(inputs.len()) == 2,
{
    let rest = inputs.skip(RATE as int);
    assert(rest.len() <= RATE);
    assert(absorb_calls((inputs.len() - RATE) as nat) == 1);
    let first = permute_once(perm, overwrite(zero_state(), inputs.take(RATE as int)));
    assert(absorb(perm, first, rest) == permute_once(perm, overwrite(first, rest)));
    assert(absorb(perm, zero_state(), inputs) == absorb(perm, first, rest));
}

/// Running chunk after chunk from chunk `k` on is absorbing what is left
/// of the input from element `k * RATE` on.
proof fn lemma_run_from_absorbs(
    perm: spec_fn(Seq<u64>) -> Seq<u64>,
    inputs: Seq<u64>,
    k: nat,
    state: Seq<u64>,
)
    requires
        k * RATE <= inputs.len(),
        k == 0 || k * RATE < inputs.len(),
    ensures
        run_from(perm, inputs, k, state) == absorb(perm, state, inputs.skip(k * RATE)),
    decreases inputs.len() - k * RATE,
{
    let n = inputs.len();
    let rest = inputs.skip(k * RATE);
    assert(k < num_chunks(n)) by (nonlinear_arith)
        requires
            k * 8 <= n,
            k == 0 || k * 8 < n,
            num_chunks(n) == if n == 0 { 1 } else { ((n + 7) / 8) as nat },
    ;
    let next = permute_once(perm, overwrite(state, chunk(inputs, k)));
    if rest.len() <= RATE {
        assert(chunk(inputs, k) =~= rest);
        assert(k + 1 >= num_chunks(n)) by (nonlinear_arith)
            requires
                n - k * 8 <= 8,
                num_chunks(n) == if n == 0 { 1 } else { ((n + 7) / 8) as nat },
        ;
        assert(run_from(perm, inputs, k + 1, next) == next);
    } else {
        assert(chunk(inputs, k) =~= rest.take(RATE as int));
        assert(rest.skip(RATE as int) =~= inputs.skip((k + 1) * RATE));
        lemma_run_from_absorbs(perm, inputs, k + 1, next);
    }
}

/// Running every chunk from the zero state gives the state that the
/// sponge hash squeezes.
proof fn lemma_run_is_absorb(perm: spec_fn(Seq<u64>) -> Seq<u64>, inputs: Seq<u64>)
    ensures
        run_from(perm, inputs, 0, zero_state()) == absorb(perm, zero_state(), inputs),
        run_from(perm, inputs, 0, zero_state()).take(DIGEST_LEN as int) == sponge_hash(perm, inputs),
{
    lemma_run_from_absorbs(perm, inputs, 0, zero_state());
    assert(inputs.skip(0) =~= inputs);
}

/// The digest of the empty input is the permutation of the zero state,
/// cut to its first `DIGEST_LEN` elements.
pub proof fn lemma_empty_input(perm: spec_fn(Seq<u64>) -> Seq<u64>)
    ensures
        sponge_hash(perm, Seq::empty()) == permute_once(perm, zero_state()).take(DIGEST_LEN as int),
{
    assert(overwrite(zero_state(), Seq::empty()) =~= zero_state());
}

/// The state after the first `k` chunks of `inputs` have been absorbed
/// into the zero state, one permutation call each.
pub open spec fn run_prefix(
    perm: spec_fn(Seq<u64>) -> Seq<u64>,
    inputs: Seq<u64>,
    k: nat,
) -> Seq<u64>
    decreases k,
{
    if k == 0 {
        zero_state()
    } else {
        let before = run_prefix(perm, inputs, (k - 1) as nat);
        permute_once(perm, overwrite(before, chunk(inputs, (k - 1) as nat)))
    }
}

proof fn lemma_prefix_then_rest(
    perm: spec_fn(Seq<u64>) -> Seq<u64>,
    inputs: Seq<u64>,
    k: nat,
)
    requires
        k <= num_chunks(inputs.len()),
    ensures
        run_from(perm, inputs, k, run_prefix(perm, inputs, k)) == run_from(perm, inputs, 0, zero_state()),
    decreases k,
{
    if k > 0 {
        lemma_prefix_then_rest(perm, inputs, (k - 1) as nat);
    }
}

/// Feeding the sponge, chunk after chunk, the permutation of each state it
/// asks for, and squeezing once every chunk is absorbed, gives the sponge
/// hash of the input.
pub proof fn lemma_driven_sponge_hashes(perm: spec_fn(Seq<u64>) -> Seq<u64>, inputs: Seq<u64>)
    ensures
        run_prefix(perm, inputs, num_chunks(inputs.len())).take(DIGEST_LEN as int)
            == sponge_hash(perm, inputs),
{
    lemma_prefix_then_rest(perm, inputs, num_chunks(inputs.len()));
    lemma_run_is_absorb(perm, inputs);
}

/// Whatever 12-element states the permutation returns, every element of a
/// digest is a canonical field element, and there are `DIGEST_LEN` of them.
pub proof fn lemma_digest_canonical(perm: spec_fn(Seq<u64>) -> Seq<u64>, inputs: Seq<u64>)
    requires
        forall|s: Seq<u64>| #[trigger] perm(s).len() == WIDTH,
    ensures
        sponge_hash(perm, inputs).len() == DIGEST_LEN,
        all_canonical(sponge_hash(perm, inputs)),
{
    let full = absorb(perm, zero_state(), inputs);
    lemma_absorb_canonical(perm, zero_state(), inputs);
    assert forall|i: int| 0 <= i < sponge_hash(perm, inputs).len() implies
        #[trigger] sponge_hash(perm, inputs)[i] < P by {
        assert(sponge_hash(perm, inputs)[i] == full[i]);
    }
}

proof fn lemma_absorb_canonical(
    perm: spec_fn(Seq<u64>) -> Seq<u64>,
    state: Seq<u64>,
    inputs: Seq<u64>,
)
    requires
        forall|s: Seq<u64>| #[trigger] perm(s).len() == WIDTH,
    ensures
        absorb(perm, state, inputs).len() == WIDTH,
        all_canonical(absorb(perm, state, inputs)),
    decreases inputs.len(),
{
    if inputs.len() > RATE {
        let next = permute_once(perm, overwrite(state, inputs.take(RATE as int)));
        lemma_absorb_canonical(perm, next, inputs.skip(RATE as int));
    }
}

/// What the sponge needs next.
pub enum SpongeStep {
    /// Permute this state and hand the result to `Sponge::resume`.
    Permute(Vec<u64>),
    /// All input is absorbed: this is the digest.
    Digest(Vec<u64>),
}

/// A hash in progress: the input, the state, and how many chunks of the
/// input have been absorbed.
pub struct Sponge {
    inputs: Vec<u64>,
    state: Vec<u64>,
    done: usize,
}

impl Sponge {
    /// The field elements being hashed.
    pub closed spec fn inputs(&self) -> Seq<u64> {
        self.inputs@
    }

    /// The current state.
    pub closed spec fn state(&self) -> Seq<u64> {
        self.state@
    }

    /// How many chunks have been absorbed so far.
    pub closed spec fn chunks_done(&self) -> nat {
        self.done as nat
    }

    /// The input and the state hold canonical field elements, the state
    /// has `WIDTH` of them, and no more chunks are absorbed than there are.
    pub open spec fn wf(&self) -> bool {
        &&& all_canonical(self.inputs())
        &&& self.state().len() == WIDTH
        &&& all_canonical(self.state())
        &&& self.chunks_done() <= num_chunks(self.inputs().len())
    }

    /// Whether every chunk has been absorbed.
    pub open spec fn finished(&self) -> bool {
        self.chunks_done() == num_chunks(self.inputs().len())
    }

    /// Starts a hash of field elements in canonical form.
    pub fn new(inputs: Vec<u64>) -> (r: Sponge)
        requires
            all_canonical(inputs@),
        ensures
            r.wf(),
            r.inputs() == inputs@,
            r.state() == zero_state(),
            r.chunks_done() == 0,
    {
        let mut state: Vec<u64> = Vec::new();
        let mut i: usize = 0;
        while i < WIDTH
            invariant
                i <= WIDTH,
                state@ == Seq::new(i as nat, |j: int| 0u64),
            decreases WIDTH - i,
        {
            state.push(0);
            i = i + 1;
        }
        assert(state@ =~= zero_state());
        Sponge { inputs, state, done: 0 }
    }

    /// Starts a hash of raw 64-bit integers, each taken modulo `P`.
    pub fn from_raw(raw: &Vec<u64>) -> (r: Sponge)
        ensures
            r.wf(),
            r.inputs() == canonical_seq(raw@),
            r.state() == zero_state(),
            r.chunks_done() == 0,
    {
        let mut inputs: Vec<u64> = Vec::new();
        let mut i: usize = 0;
        while i < raw.len()
            invariant
                i <= raw@.len(),
                inputs@ == canonical_seq(raw@.take(i as int)),
                all_canonical(inputs@),
            decreases raw@.len() - i,
        {
            let x = from_raw(raw[i]);
            inputs.push(x);
            i = i + 1;
            assert(inputs@ =~= canonical_seq(raw@.take(i as int)));
        }
        assert(raw@.take(raw@.len() as int) =~= raw@);
        Sponge::new(inputs)
    }

    /// The state to permute for the next chunk, or the digest once all
    /// chunks are absorbed.
    pub fn next_step(&self) -> (r: SpongeStep)
        requires
            self.wf(),
        ensures
            !self.finished() ==> (r matches SpongeStep::Permute(s)
                && s@ == overwrite(self.state(), chunk(self.inputs(), self.chunks_done()))
                && all_canonical(s@)),
            self.finished() ==> (r matches SpongeStep::Digest(d)
                && d@ == self.state().take(DIGEST_LEN as int)
                && all_canonical(d@)),
    {
        let n = self.inputs.len();
        let total: usize = if n == 0 { 1 } else { n / RATE + if n % RATE == 0 { 0 } else { 1 } };
        assert(total == num_chunks(n as nat)) by (nonlinear_arith)
            requires
                total == if n == 0 { 1 } else { n / 8 + if n % 8 == 0 { 0int } else { 1int } },
                num_chunks(n as nat) == if n == 0 { 1 } else { ((n + 7) / 8) as nat },
        ;
        if self.done < total {
            assert(self.done * RATE < n || n == 0) by (nonlinear_arith)
                requires
                    self.done < total,
                    total == if n == 0 { 1 } else { n / 8 + if n % 8 == 0 { 0int } else { 1int } },
            ;
            let start: usize = self.done * RATE;
            let end: usize = if n - start >= RATE { start + RATE } else { n };
            let mut s: Vec<u64> = Vec::new();
            let mut i: usize = 0;
            while i < WIDTH
                invariant
                    i <= WIDTH,
                    start <= end <= n,
                    end - start <= RATE,
                    n == self.inputs@.len(),
                    self.wf(),
                    s@.len() == i,
                    all_canonical(s@),
                    forall|j: int| 0 <= j < i ==> #[trigger] s@[j] == if j < end - start {
                        self.inputs@[start + j]
                    } else {
                        self.state@[j]
                    },
                decreases WIDTH - i,
            {
                if i < end - start {
                    s.push(self.inputs[start + i]);
                } else {
                    s.push(self.state[i]);
                }
                i = i + 1;
            }
            assert(s@ =~= overwrite(self.state(), chunk(self.inputs(), self.chunks_done())));
            SpongeStep::Permute(s)
        } else {
            let mut d: Vec<u64> = Vec::new();
            let mut i: usize = 0;
            while i < DIGEST_LEN
                invariant
                    i <= DIGEST_LEN,
                    self.wf(),
                    d@ == self.state@.take(i as int),
                decreases DIGEST_LEN - i,
            {
                d.push(self.state[i]);
                i = i + 1;
                assert(d@ =~= self.state@.take(i as int));
            }
            SpongeStep::Digest(d)
        }
    }

    /// Takes the permuted state back, reading each element in canonical
    /// form, and counts the chunk as absorbed.
    pub fn resume(&mut self, permuted: &Vec<u64>)
        requires
            old(self).wf(),
            !old(self).finished(),
            permuted@.len() == WIDTH,
        ensures
            final(self).wf(),
            final(self).inputs() == old(self).inputs(),
            final(self).state() == canonical_seq(permuted@),
            final(self).chunks_done() == old(self).chunks_done() + 1,
    {
        let mut state: Vec<u64> = Vec::new();
        let mut i: usize = 0;
        while i < WIDTH
            invariant
                i <= WIDTH,
                permuted@.len() == WIDTH,
                state@ == canonical_seq(permuted@.take(i as int)),
                all_canonical(state@),
            decreases WIDTH - i,
        {
            let x = to_canonical(permuted[i]);
            state.push(x);
            i = i + 1;
            assert(state@ =~= canonical_seq(permuted@.take(i as int)));
        }
        assert(permuted@.take(WIDTH as int) =~= permuted@);
        let n = self.inputs.len();
        assert(self.done < usize::MAX) by (nonlinear_arith)
            requires
                self.done < num_chunks(n as nat),
                n <= usize::MAX,
                num_chunks(n as nat) == if n == 0 { 1 } else { ((n + 7) / 8) as nat },
        ;
        self.state = state;
        self.done = self.done + 1;
    }
}

} // verus!
