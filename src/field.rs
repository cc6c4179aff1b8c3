//! The toroidal lattice of spin sites.

use crate::rng::coin;
use crate::spin::Spin;
use rand::rngs::StdRng;
use vstd::arithmetic::div_mod::{
    lemma_fundamental_div_mod, lemma_fundamental_div_mod_converse, lemma_mod_add_multiples_vanish,
    lemma_mod_bound, lemma_small_mod,
};
use vstd::prelude::*;

verus! {

/// The index before `x` on a ring of `m` positions.
pub open spec fn ring_prev(x: int, m: int) -> int {
    if x == 0 {
        m - 1
    } else {
        x - 1
    }
}

/// Row-major index of the site above site `i` (wrapping to the last row).
pub open spec fn north_of(width: int, height: int, i: int) -> int {
    ring_prev(i / width, height) * width + i % width
}

/// Row-major index of the site left of site `i` (wrapping to the last column).
pub open spec fn west_of(width: int, height: int, i: int) -> int {
    (i / width) * width + ring_prev(i % width, width)
}

/// `north_of` written with modular arithmetic: row `(row - 1 + h) % h`, same column.
pub open spec fn modular_north(width: int, height: int, i: int) -> int {
    ((i / width - 1 + height) % height) * width + i % width
}

/// `west_of` written with modular arithmetic: same row, column `(col - 1 + w) % w`.
pub open spec fn modular_west(width: int, height: int, i: int) -> int {
    (i / width) * width + (i % width - 1 + width) % width
}

/// One lattice cell: its spin and the two sites its bonds point to
/// (north first, then west), so that each bond is stored once.
#[derive(Clone, Copy, Debug)]
pub struct Node {
    pub state: Spin,
    pub neighbor: [usize; 2],
}

impl Node {
    /// The stored neighbour `k` (0: north, 1: west) as an integer.
    pub open spec fn nb(self, k: int) -> int {
        self.neighbor@[k] as int
    }

    pub fn new(sp: Spin, n: usize, e: usize) -> (r: Node)
        ensures
            r.state == sp,
            r.nb(0) == n,
            r.nb(1) == e,
    {
        Node { state: sp, neighbor: [n, e] }
    }

    /// Sets the spin from one coin: `true` gives `Up`, `false` gives `Down`.
    pub fn apply_coin(&mut self, c: bool)
        ensures
            final(self).state == (if c { Spin::Up } else { Spin::Down }),
            final(self).neighbor == old(self).neighbor,
    {
        if c {
            self.state = Spin::Up;
        } else {
            self.state = Spin::Down;
        }
    }

    /// Sets the spin from a fair coin drawn from `rng`.
    pub fn randomize(&mut self, rng: &mut StdRng)
        ensures
            final(self).neighbor == old(self).neighbor,
    {
        let c = coin(rng);
        self.apply_coin(c);
    }
}

/// Inverse temperature as the rational `numer / denom`.
#[derive(Clone, Copy, PartialEq, Eq, Structural, Debug)]
pub struct Beta {
    pub numer: i64,
    pub denom: u64,
}

/// Why a lattice could not be built.
#[derive(Clone, Copy, PartialEq, Eq, Structural, Debug)]
pub enum FieldError {
    /// The width or the height is zero.
    InvalidDimensions,
    /// The inverse temperature has a zero denominator.
    InvalidBeta,
}

/// A `width` by `height` grid of sites in row-major order, wrapped into a torus.
#[derive(Debug)]
pub struct Field {
    pub width: usize,
    pub height: usize,
    pub beta: Beta,
    pub nodes: Vec<Node>,
}

/// Whether `n` stores the toroidal neighbours of site `i` on a `width` by `height` grid.
pub open spec fn links_ok(n: Node, width: int, height: int, i: int) -> bool {
    n.nb(0) == north_of(width, height, i) && n.nb(1) == west_of(width, height, i)
}

impl Field {
    /// The spins of all sites, in row-major order.
    pub open spec fn spins(&self) -> Seq<Spin> {
        self.nodes@.map_values(|n: Node| n.state)
    }

    /// Positive dimensions, `width * height` sites, and each site linked to
    /// its north and west neighbours on the torus.
    pub open spec fn wf(&self) -> bool {
        &&& self.width > 0
        &&& self.height > 0
        &&& self.beta.denom > 0
        &&& self.nodes@.len() == self.width * self.height
        &&& forall|i: int|
            0 <= i < self.nodes@.len() ==> #[trigger] links_ok(
                self.nodes@[i],
                self.width as int,
                self.height as int,
                i,
            )
    }

    /// Builds the lattice with every spin `Up`.
    pub fn create(width: usize, height: usize, beta: Beta) -> (r: Result<Field, FieldError>)
        requires
            width * height <= usize::MAX,
        ensures
            r == Err::<Field, FieldError>(FieldError::InvalidDimensions) <==> (width == 0
                || height == 0),
            r == Err::<Field, FieldError>(FieldError::InvalidBeta) <==> (width > 0 && height
                > 0 && beta.denom == 0),
            r is Ok ==> {
                let f = r->Ok_0;
                &&& f.wf()
                &&& f.width == width
                &&& f.height == height
                &&& f.beta == beta
                &&& forall|i: int| 0 <= i < f.nodes@.len() ==> #[trigger] f.nodes@[i].state
                    == Spin::Up
            },
    {
        if width == 0 || height == 0 {
            return Err(FieldError::InvalidDimensions);
        }
        if beta.denom == 0 {
            return Err(FieldError::InvalidBeta);
        }
        let mut ns: Vec<Node> = Vec::new();
        let mut row: usize = 0;
        while row < height
            invariant
                0 < width,
                0 < height,
                row <= height,
                width * height <= usize::MAX,
                ns@.len() == row * width,
                forall|k: int|
                    0 <= k < ns@.len() ==> #[trigger] links_ok(
                        ns@[k],
                        width as int,
                        height as int,
                        k,
                    ),
                forall|k: int| 0 <= k < ns@.len() ==> #[trigger] ns@[k].state == Spin::Up,
            decreases height - row,
        {
            let mut col: usize = 0;
            assert(row * width + width <= width * height) by (nonlinear_arith)
                requires
                    row < height,
            ;
            while col < width
                invariant
                    0 < width,
                    0 < height,
                    row < height,
                    col <= width,
                    row * width + width <= width * height,
                    width * height <= usize::MAX,
                    ns@.len() == row * width + col,
                    forall|k: int|
                        0 <= k < ns@.len() ==> #[trigger] links_ok(
                            ns@[k],
                            width as int,
                            height as int,
                            k,
                        ),
                    forall|k: int| 0 <= k < ns@.len() ==> #[trigger] ns@[k].state == Spin::Up,
                decreases width - col,
            {
                let r_prev = if row == 0 {
                    height - 1
                } else {
                    row - 1
                };
                let c_prev = if col == 0 {
                    width - 1
                } else {
                    col - 1
                };
                assert(r_prev * width + width <= width * height) by (nonlinear_arith)
                    requires
                        r_prev < height,
                ;
                let base: usize = row * width;
                let k: usize = base + col;
                proof {
                    lemma_fundamental_div_mod_converse(k as int, width as int, row as int, col as int);
                }
                let node = Node::new(Spin::Up, r_prev * width + col, base + c_prev);
                assert(links_ok(node, width as int, height as int, k as int));
                ns.push(node);
                col += 1;
            }
            assert((row + 1) * width == row * width + width) by (nonlinear_arith);
            row += 1;
        }
        assert(height * width == width * height) by (nonlinear_arith);
        Ok(Field { width, height, beta, nodes: ns })
    }
}

impl Field {
    /// Whether `g` has the same shape, inverse temperature and links as `self`.
    pub open spec fn same_links(&self, g: &Field) -> bool {
        &&& g.width == self.width
        &&& g.height == self.height
        &&& g.beta == self.beta
        &&& g.nodes@.len() == self.nodes@.len()
        &&& forall|i: int|
            0 <= i < self.nodes@.len() ==> #[trigger] g.nodes@[i].neighbor
                == self.nodes@[i].neighbor
    }

    /// Sets every spin from its own fair coin drawn from `rng`, in row-major order.
    pub fn randomize(&mut self, rng: &mut StdRng)
        requires
            old(self).wf(),
        ensures
            final(self).wf(),
            old(self).same_links(final(self)),
    {
        let n = self.nodes.len();
        for i in 0..n
            invariant
                n == self.nodes@.len(),
                old(self).wf(),
                old(self).same_links(self),
        {
            let mut node = self.nodes[i];
            node.randomize(rng);
            self.nodes.set(i, node);
        }
        assert forall|i: int| 0 <= i < self.nodes@.len() implies #[trigger] links_ok(
            self.nodes@[i],
            self.width as int,
            self.height as int,
            i,
        ) by {
            assert(links_ok(old(self).nodes@[i], self.width as int, self.height as int, i));
        }
    }

    /// The spin of site `idx`.
    pub fn spin(&self, idx: usize) -> (r: Spin)
        requires
            idx < self.nodes@.len(),
        ensures
            r == self.nodes@[idx as int].state,
    {
        self.nodes[idx].state
    }

    /// The sites as they stand, with site `idx` set to `s`.
    pub open spec fn spec_with_spin(nodes: Seq<Node>, idx: int, s: Spin) -> Seq<Node> {
        nodes.update(idx, Node { state: s, neighbor: nodes[idx].neighbor })
    }

    /// Sets the spin of site `idx` to `s`, leaving every other site as it was.
    pub fn set_spin(&mut self, idx: usize, s: Spin)
        requires
            old(self).wf(),
            idx < old(self).nodes@.len(),
        ensures
            final(self).wf(),
            old(self).same_links(final(self)),
            final(self).nodes@ == Self::spec_with_spin(old(self).nodes@, idx as int, s),
    {
        let mut node = self.nodes[idx];
        node.state = s;
        self.nodes.set(idx, node);
        assert forall|i: int| 0 <= i < self.nodes@.len() implies #[trigger] links_ok(
            self.nodes@[i],
            self.width as int,
            self.height as int,
            i,
        ) by {
            assert(links_ok(old(self).nodes@[i], self.width as int, self.height as int, i));
        }
    }

    /// Turns the spin of site `idx` over, leaving every other site as it was.
    pub fn flip(&mut self, idx: usize)
        requires
            old(self).wf(),
            idx < old(self).nodes@.len(),
        ensures
            final(self).wf(),
            old(self).same_links(final(self)),
            final(self).nodes@ == Self::spec_with_spin(
                old(self).nodes@,
                idx as int,
                old(self).nodes@[idx as int].state.spec_flipped(),
            ),
    {
        let s = self.nodes[idx].state.flipped();
        self.set_spin(idx, s);
    }
}

/// `ring_prev` is the wrap-around predecessor `(x - 1 + m) % m`.
proof fn lemma_ring_prev_mod(x: int, m: int)
    requires
        0 <= x < m,
    ensures
        ring_prev(x, m) == (x - 1 + m) % m,
        0 <= ring_prev(x, m) < m,
{
    if x == 0 {
        lemma_small_mod((m - 1) as nat, m as nat);
    } else {
        lemma_mod_add_multiples_vanish(x - 1, m);
        lemma_small_mod((x - 1) as nat, m as nat);
    }
}

/// Row and column of site `i` on a grid `width` wide and `height` tall.
proof fn lemma_row_col(width: int, height: int, i: int)
    requires
        width > 0,
        height > 0,
        0 <= i < width * height,
    ensures
        0 <= i / width < height,
        0 <= i % width < width,
        i == (i / width) * width + i % width,
{
    lemma_fundamental_div_mod(i, width);
    lemma_mod_bound(i, width);
    let q = i / width;
    let r = i % width;
    assert(i == width * q + r);
    assert(width * q == q * width) by (nonlinear_arith);
    assert(0 <= q) by (nonlinear_arith)
        requires
            i == width * q + r,
            0 <= r < width,
            0 <= i,
    ;
    assert(q < height) by (nonlinear_arith)
        requires
            i == width * q + r,
            0 <= r,
            i < width * height,
            width > 0,
    ;
}

/// Each site of a well-formed lattice has two neighbour indices, both
/// valid indices into the site list.
pub proof fn lemma_neighbors_in_range(f: &Field)
    requires
        f.wf(),
    ensures
        forall|i: int, k: int|
            0 <= i < f.nodes@.len() && 0 <= k < 2 ==> 0 <= #[trigger] f.nodes@[i].nb(k)
                < f.nodes@.len(),
{
    let w = f.width as int;
    let h = f.height as int;
    assert forall|i: int, k: int| 0 <= i < f.nodes@.len() && 0 <= k < 2 implies 0
        <= #[trigger] f.nodes@[i].nb(k) < f.nodes@.len() by {
        assert(links_ok(f.nodes@[i], w, h, i));
        lemma_row_col(w, h, i);
        let row = i / w;
        let col = i % w;
        lemma_ring_prev_mod(row, h);
        lemma_ring_prev_mod(col, w);
        let rp = ring_prev(row, h);
        let cp = ring_prev(col, w);
        assert(0 <= rp * w + col < w * h) by (nonlinear_arith)
            requires
                0 <= rp < h,
                0 <= col < w,
        ;
        assert(0 <= row * w + cp < w * h) by (nonlinear_arith)
            requires
                0 <= row < h,
                0 <= cp < w,
        ;
    }
}

/// On a well-formed lattice the neighbours of the site at `(row, col)` are
/// `((row - 1 + h) % h, col)` and `(row, (col - 1 + w) % w)`, in row-major indices.
pub proof fn lemma_toroidal_adjacency(f: &Field)
    requires
        f.wf(),
    ensures
        forall|i: int|
            0 <= i < f.nodes@.len() ==> #[trigger] f.nodes@[i].nb(0) == modular_north(
                f.width as int,
                f.height as int,
                i,
            ),
        forall|i: int|
            0 <= i < f.nodes@.len() ==> #[trigger] f.nodes@[i].nb(1) == modular_west(
                f.width as int,
                f.height as int,
                i,
            ),
{
    let w = f.width as int;
    let h = f.height as int;
    assert forall|i: int| 0 <= i < f.nodes@.len() implies #[trigger] f.nodes@[i].nb(0)
        == modular_north(w, h, i) by {
        assert(links_ok(f.nodes@[i], w, h, i));
        lemma_row_col(w, h, i);
        lemma_ring_prev_mod(i / w, h);
    }
    assert forall|i: int| 0 <= i < f.nodes@.len() implies #[trigger] f.nodes@[i].nb(1)
        == modular_west(w, h, i) by {
        assert(links_ok(f.nodes@[i], w, h, i));
        lemma_row_col(w, h, i);
        lemma_ring_prev_mod(i % w, w);
    }
}

/// On a lattice one site wide each site is its own west neighbour; on one
/// one site tall each site is its own north neighbour.
pub proof fn lemma_degenerate_self_bonds(f: &Field)
    requires
        f.wf(),
    ensures
        f.width == 1 ==> forall|i: int|
            0 <= i < f.nodes@.len() ==> #[trigger] f.nodes@[i].nb(1) == i,
        f.height == 1 ==> forall|i: int|
            0 <= i < f.nodes@.len() ==> #[trigger] f.nodes@[i].nb(0) == i,
{
    let w = f.width as int;
    let h = f.height as int;
    if w == 1 {
        assert forall|i: int| 0 <= i < f.nodes@.len() implies #[trigger] f.nodes@[i].nb(1) == i by {
            assert(links_ok(f.nodes@[i], w, h, i));
            lemma_fundamental_div_mod_converse(i, 1, i, 0);
        }
    }
    if h == 1 {
        assert forall|i: int| 0 <= i < f.nodes@.len() implies #[trigger] f.nodes@[i].nb(0) == i by {
            assert(links_ok(f.nodes@[i], w, h, i));
            assert(i < w);
            lemma_fundamental_div_mod_converse(i, w, 0, i);
        }
    }
}

} // verus!
