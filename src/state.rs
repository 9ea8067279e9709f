//! The history buffer of the stepping engine.
//!
//! The buffer is a flat sequence of blocks of `nodes` values each. Block 0
//! holds the state carried over from the previous call; blocks `1..=steps`
//! receive the states of the time steps of the current call. The recurrence
//! `S[k] += E · S[k - 1]` reads one block while it accumulates into the next,
//! so the buffer hands out pairs of disjoint blocks by index rather than
//! aliased references.

use vstd::prelude::*;

verus! {

/// Block `k` of `s`, whose blocks are `nodes` long.
pub open spec fn block<T>(s: Seq<T>, nodes: nat, k: int) -> Seq<T> {
    s.subrange(k * nodes, (k + 1) * nodes)
}

/// The last block of `s`, whose blocks are `nodes` long.
pub open spec fn last_block<T>(s: Seq<T>, nodes: nat) -> Seq<T> {
    s.subrange(s.len() - nodes, s.len() as int)
}

/// The buffer after it is made ready for a call of `steps` time steps: the
/// last block of `s` followed by `steps` blocks of `zero`.
pub open spec fn advanced<T>(s: Seq<T>, nodes: nat, steps: nat, zero: T) -> Seq<T> {
    last_block(s, nodes) + Seq::new(steps * nodes, |i: int| zero)
}

/// Whether `s` is a whole number of blocks `nodes` long, at least one.
pub open spec fn blocked<T>(s: Seq<T>, nodes: nat) -> bool {
    nodes > 0 && s.len() >= nodes && s.len() % nodes == 0
}

/// A growable sequence of node-state blocks that carries the last block of
/// one call into the next.
pub struct State<T> {
    buffer: Vec<T>,
    nodes: usize,
}

impl<T> View for State<T> {
    type V = Seq<T>;

    /// The values in the buffer, block after block.
    closed spec fn view(&self) -> Seq<T> {
        self.buffer@
    }
}

impl<T: Copy> State<T> {
    /// The length of a block.
    pub closed spec fn block_len(&self) -> nat {
        self.nodes as nat
    }

    /// The buffer is a whole number of blocks, at least one.
    pub open spec fn wf(&self) -> bool {
        blocked(self@, self.block_len())
    }

    /// A buffer of one block of `zero`, the ambient baseline.
    pub fn new(nodes: usize, zero: T) -> (s: State<T>)
        requires
            nodes > 0,
        ensures
            s.wf(),
            s.block_len() == nodes,
            s@ == Seq::new(nodes as nat, |i: int| zero),
    {
        let mut buffer: Vec<T> = Vec::with_capacity(nodes);
        let mut i: usize = 0;
        while i < nodes
            invariant
                i <= nodes,
                buffer@ == Seq::new(i as nat, |j: int| zero),
            decreases nodes - i,
        {
            buffer.push(zero);
            i = i + 1;
            proof {
                assert(buffer@ =~= Seq::new(i as nat, |j: int| zero));
            }
        }
        proof {
            vstd::arithmetic::div_mod::lemma_mod_self_0(nodes as int);
        }
        State { buffer, nodes }
    }

    /// Make the buffer ready for a call of `steps` time steps: the last block
    /// becomes block 0, the carried state, and `steps` blocks of `zero`
    /// follow it. With `steps == 0` only the carried state remains. The
    /// allocation is reused where it is large enough.
    pub fn next(&mut self, steps: usize, zero: T)
        requires
            old(self).wf(),
            (steps + 1) * old(self).block_len() <= usize::MAX,
        ensures
            final(self).wf(),
            final(self).block_len() == old(self).block_len(),
            final(self)@ == advanced(old(self)@, old(self).block_len(), steps as nat, zero),
    {
        let nodes = self.nodes;
        let current = self.buffer.len();
        let last = current - nodes;
        let ghost before = self.buffer@;
        proof {
            lemma_last_block_start(current as int, nodes as int);
        }
        let mut j: usize = 0;
        while j < nodes
            invariant
                j <= nodes,
                nodes == self.nodes,
                last + nodes == current,
                last == 0 || last >= nodes,
                self.buffer@.len() == current,
                forall|i: int| 0 <= i < j ==> self.buffer@[i] == before[last + i],
                forall|i: int| j <= i < current ==> self.buffer@[i] == before[i],
            decreases nodes - j,
        {
            let value = self.buffer[last + j];
            self.buffer.set(j, value);
            j = j + 1;
        }
        self.buffer.truncate(nodes);
        proof {
            assert(steps * nodes <= (steps + 1) * nodes) by (nonlinear_arith)
                requires nodes > 0;
        }
        let total = steps * nodes;
        let mut k: usize = 0;
        while k < total
            invariant
                k <= total,
                nodes == self.nodes,
                total == steps * nodes,
                self.buffer@ == last_block(before, nodes as nat) + Seq::new(k as nat, |i: int| zero),
            decreases total - k,
        {
            self.buffer.push(zero);
            k = k + 1;
            proof {
                assert(self.buffer@ =~= last_block(before, nodes as nat) + Seq::new(k as nat, |i: int| zero));
            }
        }
        proof {
            assert(self.buffer@.subrange(0, nodes as int) =~= last_block(before, nodes as nat));
            assert(last_block(before, nodes as nat).len() == nodes);
            vstd::arithmetic::div_mod::lemma_mod_multiples_basic(steps as int + 1, nodes as int);
            vstd::arithmetic::mul::lemma_mul_is_distributive_add_other_way(nodes as int, steps as int, 1);
            vstd::arithmetic::mul::lemma_mul_is_commutative(steps as int, nodes as int);
        }
    }

    /// The length of a block.
    pub fn nodes(&self) -> (r: usize)
        ensures
            r == self.block_len(),
    {
        self.nodes
    }

    /// The number of blocks in the buffer.
    pub fn blocks(&self) -> (r: usize)
        requires
            self.wf(),
        ensures
            r * self.block_len() == self@.len(),
            r >= 1,
    {
        proof {
            vstd::arithmetic::div_mod::lemma_fundamental_div_mod(self.buffer@.len() as int, self.nodes as int);
            let q = self.buffer@.len() as int / self.nodes as int;
            let len = self.buffer@.len() as int;
            let n = self.nodes as int;
            vstd::arithmetic::mul::lemma_mul_is_commutative(q, n);
            assert(q >= 1) by (nonlinear_arith)
                requires len == n * q, len >= n, n > 0;
        }
        self.buffer.len() / self.nodes
    }

    /// The whole buffer.
    pub fn as_slice(&self) -> (r: &[T])
        ensures
            r@ == self@,
    {
        self.buffer.as_slice()
    }

    /// The blocks after the carried one: the states of the time steps of the
    /// current call.
    pub fn history(&self) -> (r: &[T])
        requires
            self.wf(),
        ensures
            r@ == self@.subrange(self.block_len() as int, self@.len() as int),
    {
        let (_, rest) = self.buffer.as_slice().split_at(self.nodes);
        rest
    }

    /// The blocks after the carried one, to be written; the carried block
    /// stays as it is.
    pub fn history_mut(&mut self) -> (r: &mut [T])
        requires
            old(self).wf(),
        ensures
            r@ == old(self)@.subrange(old(self).block_len() as int, old(self)@.len() as int),
            final(self).block_len() == old(self).block_len(),
            final(self)@ == old(self)@.subrange(0, old(self).block_len() as int) + final(r)@,
    {
        let (_, rest) = self.buffer.as_mut_slice().split_at_mut(self.nodes);
        rest
    }

    /// Block `k - 1` to read and block `k` to accumulate into, for the step
    /// of the recurrence that propagates the one into the other. Nothing else
    /// in the buffer changes.
    pub fn pair_mut(&mut self, k: usize) -> (r: (&[T], &mut [T]))
        requires
            old(self).wf(),
            1 <= k,
            (k + 1) * old(self).block_len() <= old(self)@.len(),
        ensures
            r.0@ == block(old(self)@, old(self).block_len(), k - 1),
            r.1@ == block(old(self)@, old(self).block_len(), k as int),
            final(self).block_len() == old(self).block_len(),
            final(self)@ == old(self)@.subrange(0, k * old(self).block_len())
                + final(r.1)@
                + old(self)@.subrange((k + 1) * old(self).block_len(), old(self)@.len() as int),
    {
        let nodes = self.nodes;
        let len = self.buffer.len();
        proof {
            assert((k - 1) * nodes + nodes == k * nodes) by (nonlinear_arith);
            assert(k * nodes + nodes == (k + 1) * nodes) by (nonlinear_arith);
            assert((k - 1) * nodes <= k * nodes) by (nonlinear_arith) requires k >= 1, nodes > 0;
            assert(k * nodes <= (k + 1) * nodes) by (nonlinear_arith) requires nodes > 0;
            assert((k + 1) * nodes <= len);
        }
        let start = (k - 1) * nodes;
        let (head, tail) = self.buffer.as_mut_slice().split_at_mut(k * nodes);
        let (_, previous) = head.split_at_mut(start);
        let (current, _) = tail.split_at_mut(nodes);
        (previous, current)
    }
}

/// A call of no time steps changes nothing that a later call sees: making the
/// buffer ready for zero steps and then for `steps` steps leaves it as making
/// it ready for `steps` steps at once does. So interleaved empty chunks keep
/// the carried state.
pub proof fn lemma_empty_chunk_keeps_carry<T>(s: Seq<T>, nodes: nat, steps: nat, zero: T)
    requires
        blocked(s, nodes),
    ensures
        advanced(advanced(s, nodes, 0, zero), nodes, steps, zero) == advanced(s, nodes, steps, zero),
{
    let once = advanced(s, nodes, 0, zero);
    assert(once =~= last_block(s, nodes));
    assert(last_block(once, nodes) =~= last_block(s, nodes));
}

/// The last block of a buffer that is a whole number of blocks starts at
/// index 0 or at an index past the first block.
proof fn lemma_last_block_start(len: int, nodes: int)
    requires
        nodes > 0,
        len >= nodes,
        len % nodes == 0,
    ensures
        len - nodes == 0 || len - nodes >= nodes,
{
    vstd::arithmetic::div_mod::lemma_fundamental_div_mod(len, nodes);
    let q = len / nodes;
    assert(len == nodes * q);
    if q >= 2 {
        assert(len >= nodes * 2) by (nonlinear_arith)
            requires q >= 2, nodes > 0, len == nodes * q;
    } else {
        assert(len == nodes) by (nonlinear_arith)
            requires len == nodes * q, len >= nodes, nodes > 0, q < 2;
    }
}

} // verus!
