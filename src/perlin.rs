use vstd::prelude::*;
use crate::rng::random_int;

verus! {

/// Number of lattice entries along each axis of the noise tables.
pub const POINT_COUNT: usize = 256;

/// `s` holds each of `0, 1, ..., n - 1` exactly once.
pub open spec fn is_index_permutation(s: Seq<usize>, n: nat) -> bool {
    &&& s.len() == n
    &&& s.no_duplicates()
    &&& forall|k: int| 0 <= k < s.len() ==> #[trigger] s[k] < n
}

/// A lattice coordinate folded onto the table: `x` modulo 256, in `[0, 256)`.
pub open spec fn lattice_wrap(x: int) -> int {
    x % 256
}

/// `s` with the entries at `a` and `b` exchanged.
pub open spec fn swap_entries(s: Seq<usize>, a: int, b: int) -> Seq<usize> {
    s.update(a, s[b]).update(b, s[a])
}

/// The Fisher–Yates pass over `s` from position `i` down to 1: entry `i` is
/// exchanged with entry `targets[i]`, then entry `i - 1` with `targets[i - 1]`,
/// and so on.
pub open spec fn fisher_yates(s: Seq<usize>, targets: Seq<usize>, i: int) -> Seq<usize>
    decreases i,
{
    if i <= 0 {
        s
    } else {
        fisher_yates(swap_entries(s, i, targets[i] as int), targets, i - 1)
    }
}

/// `targets` is a valid sequence of Fisher–Yates draws for `n` entries: one per
/// position, the draw for position `i` lying in `[0, i]`.
pub open spec fn valid_draws(targets: Seq<usize>, n: int) -> bool {
    &&& targets.len() == n
    &&& forall|i: int| 0 < i < n ==> #[trigger] targets[i] <= i
}

/// The identity table `0, 1, ..., n - 1`.
pub open spec fn identity_table(n: nat) -> Seq<usize> {
    Seq::new(n, |k: int| k as usize)
}

/// `s` is what Fisher–Yates makes of the identity table of `n` entries for some
/// valid sequence of draws.
pub open spec fn shuffled_identity(s: Seq<usize>, n: nat) -> bool {
    exists|t: Seq<usize>| valid_draws(t, n as int) && s == fisher_yates(identity_table(n), t, n - 1)
}

/// Shuffles the first `n` entries of `p` by Fisher–Yates with the given draws:
/// for `i` from `n - 1` down to 1, entry `i` is exchanged with entry
/// `targets[i]`.
pub fn permute_with(p: &mut Vec<usize>, n: usize, targets: &Vec<usize>)
    requires
        n <= old(p)@.len(),
        valid_draws(targets@, n as int),
    ensures
        final(p)@ == fisher_yates(old(p)@, targets@, n - 1),
        final(p)@.len() == old(p)@.len(),
        final(p)@.to_multiset() == old(p)@.to_multiset(),
        forall|k: int| n <= k < old(p)@.len() ==> #[trigger] final(p)@[k] == old(p)@[k],
{
    if n < 2 {
        return;
    }
    let mut i: usize = n - 1;
    while i > 0
        invariant
            i < n,
            n <= p@.len(),
            valid_draws(targets@, n as int),
            fisher_yates(old(p)@, targets@, n - 1) == fisher_yates(p@, targets@, i as int),
            p@.len() == old(p)@.len(),
            p@.to_multiset() == old(p)@.to_multiset(),
            forall|k: int| n <= k < old(p)@.len() ==> #[trigger] p@[k] == old(p)@[k],
        decreases i,
    {
        let target: usize = targets[i];
        assert(targets@[i as int] <= i);
        let ghost before = p@;
        swap(p, i, target);
        assert(p@ == swap_entries(before, i as int, target as int));
        i = i - 1;
    }
}

/// Shuffles the first `n` entries of `p` in place by Fisher–Yates: the draw
/// for position `i` is uniform in `[0, i]`. The result holds the same values,
/// the entries from `n` on do not move, and it is the Fisher–Yates pass of
/// some valid sequence of draws.
pub fn permute(p: &mut Vec<usize>, n: usize)
    requires
        n <= old(p)@.len(),
        n <= i32::MAX,
    ensures
        exists|t: Seq<usize>| valid_draws(t, n as int) && final(p)@ == fisher_yates(old(p)@, t, n - 1),
        final(p)@.len() == old(p)@.len(),
        final(p)@.to_multiset() == old(p)@.to_multiset(),
        forall|k: int| n <= k < old(p)@.len() ==> #[trigger] final(p)@[k] == old(p)@[k],
{
    let mut targets: Vec<usize> = Vec::new();
    let mut i: usize = 0;
    while i < n
        invariant
            i <= n,
            n <= i32::MAX,
            targets@.len() == i,
            forall|j: int| 0 < j < i ==> #[trigger] targets@[j] <= j,
        decreases n - i,
    {
        let t: usize = random_int(0, i as i32) as usize;
        targets.push(t);
        i = i + 1;
    }
    permute_with(p, n, &targets);
}

/// Exchanges the entries at `a` and `b`.
fn swap(p: &mut Vec<usize>, a: usize, b: usize)
    requires
        a < old(p)@.len(),
        b < old(p)@.len(),
    ensures
        final(p)@ == old(p)@.update(a as int, old(p)@[b as int]).update(b as int, old(p)@[a as int]),
        final(p)@.to_multiset() == old(p)@.to_multiset(),
{
    let va = p[a];
    let vb = p[b];
    let ghost s0 = p@;
    p.set(a, vb);
    let ghost s1 = p@;
    p.set(b, va);
    proof {
        broadcast use vstd::seq_lib::to_multiset_update;
        broadcast use vstd::multiset::group_multiset_axioms;

        assert(s1.to_multiset() == s0.to_multiset().insert(vb).remove(va));
        assert(p@.to_multiset() == s1.to_multiset().insert(va).remove(s1[b as int]));
        let m = s0.to_multiset();
        assert(s0.contains(va)) by {
            assert(s0[a as int] == va);
        }
        vstd::seq_lib::to_multiset_contains(s0, va);
        assert(m.count(va) > 0);
        assert(m.insert(vb).remove(va).insert(va).remove(vb) =~= m);
    }
}

/// A random permutation of `0, 1, ..., 255`: the identity table shuffled by
/// Fisher–Yates.
pub fn perlin_generate_perm() -> (r: Vec<usize>)
    ensures
        is_index_permutation(r@, POINT_COUNT as nat),
        shuffled_identity(r@, POINT_COUNT as nat),
{
    let mut p: Vec<usize> = Vec::new();
    let mut i: usize = 0;
    while i < POINT_COUNT
        invariant
            i <= POINT_COUNT,
            p@.len() == i,
            forall|k: int| 0 <= k < i ==> #[trigger] p@[k] == k,
        decreases POINT_COUNT - i,
    {
        p.push(i);
        i = i + 1;
    }
    let ghost ident = p@;
    assert(ident =~= identity_table(POINT_COUNT as nat));
    permute(&mut p, POINT_COUNT);
    proof {
        broadcast use vstd::seq_lib::to_multiset_contains;

        assert(ident.no_duplicates());
        ident.lemma_multiset_has_no_duplicates();
        p@.lemma_multiset_has_no_duplicates_conv();
        assert forall|k: int| 0 <= k < p@.len() implies #[trigger] p@[k] < POINT_COUNT by {
            assert(p@.contains(p@[k]));
            assert(p@.to_multiset().count(p@[k]) > 0);
            assert(ident.contains(p@[k]));
        }
    }
    p
}

/// The random permutation tables that pick a gradient for each corner of the
/// integer lattice.
pub struct PerlinLattice {
    perm_x: Vec<usize>,
    perm_y: Vec<usize>,
    perm_z: Vec<usize>,
}

impl PerlinLattice {
    pub closed spec fn perm_x_spec(&self) -> Seq<usize> {
        self.perm_x@
    }

    pub closed spec fn perm_y_spec(&self) -> Seq<usize> {
        self.perm_y@
    }

    pub closed spec fn perm_z_spec(&self) -> Seq<usize> {
        self.perm_z@
    }

    /// Each table is a permutation of `0, 1, ..., 255`.
    pub open spec fn wf(&self) -> bool {
        &&& is_index_permutation(self.perm_x_spec(), POINT_COUNT as nat)
        &&& is_index_permutation(self.perm_y_spec(), POINT_COUNT as nat)
        &&& is_index_permutation(self.perm_z_spec(), POINT_COUNT as nat)
    }

    /// The gradient slot of lattice corner `(i, j, k)`.
    pub open spec fn corner_spec(&self, i: int, j: int, k: int) -> usize {
        self.perm_x_spec()[lattice_wrap(i)] ^ self.perm_y_spec()[lattice_wrap(j)]
            ^ self.perm_z_spec()[lattice_wrap(k)]
    }

    /// Three freshly shuffled tables, each the identity table shuffled by
    /// Fisher–Yates.
    pub fn new() -> (r: Self)
        ensures
            r.wf(),
            shuffled_identity(r.perm_x_spec(), POINT_COUNT as nat),
            shuffled_identity(r.perm_y_spec(), POINT_COUNT as nat),
            shuffled_identity(r.perm_z_spec(), POINT_COUNT as nat),
    {
        let perm_x = perlin_generate_perm();
        let perm_y = perlin_generate_perm();
        let perm_z = perlin_generate_perm();
        PerlinLattice { perm_x, perm_y, perm_z }
    }

    /// The gradient slot, in `[0, 256)`, of the lattice corner `(i, j, k)`: the
    /// exclusive or of the three tables, each read at its coordinate modulo 256.
    pub fn corner(&self, i: i32, j: i32, k: i32) -> (r: usize)
        requires
            self.wf(),
        ensures
            r == self.corner_spec(i as int, j as int, k as int),
            r < POINT_COUNT,
    {
        let a = self.perm_x[wrap(i)];
        let b = self.perm_y[wrap(j)];
        let c = self.perm_z[wrap(k)];
        assert(a < 256 && b < 256 && c < 256);
        let r = a ^ b ^ c;
        assert(r < 256) by (bit_vector)
            requires a < 256usize, b < 256usize, c < 256usize, r == a ^ b ^ c;
        r
    }
}

/// A lattice coordinate reduced to a table index.
fn wrap(x: i32) -> (r: usize)
    ensures
        r == lattice_wrap(x as int),
        r < POINT_COUNT,
{
    let m: i32 = x % 256;
    let w: i32 = if m < 0 {
        m + 256
    } else {
        m
    };
    w as usize
}

} // verus!
