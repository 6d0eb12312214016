//! Lattice tables of Perlin noise: three shuffled permutations of the
//! lattice cells, hashed together to pick a gradient for each lattice corner.
use vstd::prelude::*;
use vstd::arithmetic::div_mod::lemma_mod_multiples_vanish;
use crate::utils::random_i32_range;

verus! {

/// Number of cells on each lattice axis, and of gradients.
pub const POINT_COUNT: usize = 256;

/// `s` holds each of `0 .. n` exactly once.
pub open spec fn is_permutation(s: Seq<usize>, n: nat) -> bool {
    &&& s.len() == n
    &&& forall|i: int| 0 <= i < s.len() ==> #[trigger] s[i] < n
    &&& forall|i: int, j: int| 0 <= i < j < s.len() ==> #[trigger] s[i] != #[trigger] s[j]
}

/// `0, 1, .., n - 1`.
pub open spec fn identity_perm(n: nat) -> Seq<usize> {
    Seq::new(n, |i: int| i as usize)
}

/// Targets for a Fisher–Yates shuffle of `n` slots: slot `i` is swapped
/// with a slot no later than itself.
pub open spec fn valid_targets(targets: Seq<usize>, n: nat) -> bool {
    &&& targets.len() == n
    &&& forall|i: int| 0 <= i < n ==> #[trigger] targets[i] <= i
}

/// `s` with the values at `a` and `b` exchanged.
pub open spec fn swap(s: Seq<usize>, a: int, b: int) -> Seq<usize> {
    s.update(a, s[b]).update(b, s[a])
}

/// The remaining steps of a Fisher–Yates shuffle once the slots from `i` on
/// are settled: slot `i - 1` is swapped with its target, then down to slot 1.
pub open spec fn swaps_down(p: Seq<usize>, targets: Seq<usize>, i: nat) -> Seq<usize>
    decreases i,
{
    if i <= 1 {
        p
    } else {
        swaps_down(swap(p, i - 1, targets[i - 1] as int), targets, (i - 1) as nat)
    }
}

/// The Fisher–Yates shuffle of `p`: for `i` from the last slot down to 1,
/// slot `i` is swapped with slot `targets[i]`.
pub open spec fn fisher_yates(p: Seq<usize>, targets: Seq<usize>) -> Seq<usize> {
    swaps_down(p, targets, p.len())
}

/// Shuffles `p` in place with the given targets.
pub fn shuffle_with(p: &mut Vec<usize>, targets: &Vec<usize>)
    requires
        valid_targets(targets@, old(p)@.len()),
    ensures
        final(p)@ == fisher_yates(old(p)@, targets@),
        final(p)@.to_multiset() == old(p)@.to_multiset(),
        forall|n: nat| is_permutation(old(p)@, n) ==> is_permutation(final(p)@, n),
{
    let ghost start = p@;
    let mut i: usize = p.len();
    while i > 1
        invariant
            i <= p@.len(),
            p@.len() == start.len(),
            valid_targets(targets@, start.len()),
            swaps_down(p@, targets@, i as nat) == fisher_yates(start, targets@),
            p@.to_multiset() == start.to_multiset(),
            forall|n: nat| is_permutation(start, n) ==> is_permutation(p@, n),
        decreases i,
    {
        i = i - 1;
        let target = targets[i];
        let ghost before = p@;
        let a = p[i];
        let b = p[target];
        p[i] = b;
        p[target] = a;
        proof {
            broadcast use vstd::seq_lib::to_multiset_update;
            broadcast use vstd::multiset::group_multiset_axioms;
            assert(p@ == swap(before, i as int, target as int));
            let mid = before.update(i as int, b);
            assert(p@ == mid.update(target as int, a));
            assert(mid[target as int] == b);
            let m = before.to_multiset();
            assert(m.count(a) > 0) by {
                broadcast use vstd::seq_lib::to_multiset_contains;
                assert(before.contains(a));
            }
            assert(mid.to_multiset() == m.insert(b).remove(a));
            assert(m.insert(b).remove(a).insert(a) =~= m.insert(b));
            assert(m.insert(b).remove(b) =~= m);
            assert(p@.to_multiset() =~= before.to_multiset());
            assert forall|n: nat| is_permutation(start, n) implies is_permutation(p@, n) by {
                assert(is_permutation(before, n));
                assert forall|x: int, y: int| 0 <= x < y < p@.len() implies p@[x] != p@[y] by {
                    let sx = if x == i { target as int } else if x == target { i as int } else { x };
                    let sy = if y == i { target as int } else if y == target { i as int } else { y };
                    assert(p@[x] == before[sx]);
                    assert(p@[y] == before[sy]);
                }
                assert forall|x: int| 0 <= x < p@.len() implies #[trigger] p@[x] < n by {
                    let sx = if x == i { target as int } else if x == target { i as int } else { x };
                    assert(p@[x] == before[sx]);
                }
            }
        }
    }
}

/// Random targets for a Fisher–Yates shuffle of `n` slots.
fn draw_targets(n: usize) -> (targets: Vec<usize>)
    requires
        n <= i32::MAX,
    ensures
        valid_targets(targets@, n as nat),
{
    let mut targets: Vec<usize> = Vec::with_capacity(n);
    let mut i: usize = 0;
    while i < n
        invariant
            i <= n <= i32::MAX,
            targets@.len() == i,
            forall|k: int| 0 <= k < i ==> #[trigger] targets@[k] <= k,
        decreases n - i,
    {
        let target = random_i32_range(0, (i + 1) as i32) as usize;
        targets.push(target);
        i = i + 1;
    }
    targets
}

/// The lattice cell of coordinate `c`, wrapped onto `0 .. 256` in both directions.
pub open spec fn wrap_cell(c: int) -> int {
    c % (POINT_COUNT as int)
}

/// The wrapped cell of `c + d`.
fn lattice_cell(c: i32, d: usize) -> (r: usize)
    requires
        d <= 1,
    ensures
        r == wrap_cell(c + d),
        r < POINT_COUNT,
{
    // Shifting by 2^32, a multiple of the cell count, keeps the sum
    // non-negative without changing its cell.
    let shifted: u64 = (c as i64 + d as i64 + 4294967296i64) as u64;
    proof {
        lemma_mod_multiples_vanish(16777216, c + d, 256);
    }
    (shifted % 256) as usize
}

/// Lattice tables: one permutation of the cells per axis.
pub struct Perlin {
    pub point_count: usize,
    perm_x: Vec<usize>,
    perm_y: Vec<usize>,
    perm_z: Vec<usize>,
}

impl View for Perlin {
    type V = (nat, Seq<usize>, Seq<usize>, Seq<usize>);

    closed spec fn view(&self) -> Self::V {
        (self.point_count as nat, self.perm_x@, self.perm_y@, self.perm_z@)
    }
}

impl Perlin {
    pub open spec fn wf(&self) -> bool {
        &&& self@.0 == POINT_COUNT
        &&& is_permutation(self@.1, POINT_COUNT as nat)
        &&& is_permutation(self@.2, POINT_COUNT as nat)
        &&& is_permutation(self@.3, POINT_COUNT as nat)
    }

    /// The gradient slot of a lattice corner: the three axis permutations,
    /// each read at its wrapped cell, combined by exclusive or.
    pub open spec fn corner_spec(&self, i: int, j: int, k: int) -> usize {
        self@.1[wrap_cell(i)] ^ self@.2[wrap_cell(j)] ^ self@.3[wrap_cell(k)]
    }

    /// Fresh tables, each axis shuffled independently with random targets.
    pub fn new() -> (r: Perlin)
        ensures
            r.wf(),
    {
        let targets_x = draw_targets(POINT_COUNT);
        let targets_y = draw_targets(POINT_COUNT);
        let targets_z = draw_targets(POINT_COUNT);
        Perlin::from_shuffles(&targets_x, &targets_y, &targets_z)
    }

    /// The tables whose axis permutations are the identity shuffled with the
    /// given targets.
    pub fn from_shuffles(targets_x: &Vec<usize>, targets_y: &Vec<usize>, targets_z: &Vec<usize>) -> (r: Perlin)
        requires
            valid_targets(targets_x@, POINT_COUNT as nat),
            valid_targets(targets_y@, POINT_COUNT as nat),
            valid_targets(targets_z@, POINT_COUNT as nat),
        ensures
            r.wf(),
            r@.1 == fisher_yates(identity_perm(POINT_COUNT as nat), targets_x@),
            r@.2 == fisher_yates(identity_perm(POINT_COUNT as nat), targets_y@),
            r@.3 == fisher_yates(identity_perm(POINT_COUNT as nat), targets_z@),
    {
        let point_count: usize = POINT_COUNT;
        let perm_x = Perlin::perlin_generate_perm(point_count, targets_x);
        let perm_y = Perlin::perlin_generate_perm(point_count, targets_y);
        let perm_z = Perlin::perlin_generate_perm(point_count, targets_z);
        Perlin { point_count, perm_x, perm_y, perm_z }
    }

    /// The gradient slot of the lattice corner `(i + di, j + dj, k + dk)`.
    pub fn corner_index(&self, i: i32, j: i32, k: i32, di: usize, dj: usize, dk: usize) -> (r: usize)
        requires
            self.wf(),
            di <= 1,
            dj <= 1,
            dk <= 1,
        ensures
            r == self.corner_spec(i + di, j + dj, k + dk),
            r < POINT_COUNT,
    {
        let a = self.perm_x[lattice_cell(i, di)];
        let b = self.perm_y[lattice_cell(j, dj)];
        let c = self.perm_z[lattice_cell(k, dk)];
        assert(a ^ b ^ c < 256) by (bit_vector)
            requires
                a < 256,
                b < 256,
                c < 256,
        ;
        a ^ b ^ c
    }

    /// The identity permutation of `0 .. point_count`, shuffled with the
    /// given targets.
    fn perlin_generate_perm(point_count: usize, targets: &Vec<usize>) -> (p: Vec<usize>)
        requires
            valid_targets(targets@, point_count as nat),
        ensures
            p@ == fisher_yates(identity_perm(point_count as nat), targets@),
            is_permutation(p@, point_count as nat),
    {
        let mut p: Vec<usize> = Vec::with_capacity(point_count);
        let mut i: usize = 0;
        while i < point_count
            invariant
                i <= point_count,
                p@.len() == i,
                forall|k: int| 0 <= k < i ==> p@[k] == k,
            decreases point_count - i,
        {
            p.push(i);
            i = i + 1;
        }
        assert(p@ =~= identity_perm(point_count as nat));
        shuffle_with(&mut p, targets);
        p
    }
}

} // verus!
