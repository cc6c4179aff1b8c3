//! The energy model: an external field and a nearest-neighbour coupling.

use crate::field::{lemma_neighbors_in_range, Field, Node};
use crate::spin::Spin;
use vstd::prelude::*;

verus! {

/// Field energy of one spin: `-h` when `Up`, `h` when `Down`.
pub open spec fn field_term(s: Spin, h: int) -> int {
    if s == Spin::Up {
        -h
    } else {
        h
    }
}

/// Energy of one stored bond: `-j` when both ends agree, nothing otherwise.
pub open spec fn bond_term(a: Spin, b: Spin, j: int) -> int {
    if a == b {
        -j
    } else {
        0
    }
}

/// A bound on the size of any one site's energy: `|h| + 2|j|` for 32-bit `h` and `j`.
pub const SITE_ENERGY_BOUND: i128 = 0x1_8000_0000;

/// Coupling strength `j` (positive favours aligned neighbours) and external
/// field strength `h`.
#[derive(Clone, Copy, PartialEq, Eq, Structural, Debug)]
pub struct Hamiltonian {
    pub j: i32,
    pub h: i32,
}

impl Hamiltonian {
    /// Energy of site `i` with spin `s`, against its stored neighbours as they stand.
    pub open spec fn energy_with(self, nodes: Seq<Node>, i: int, s: Spin) -> int {
        field_term(s, self.h as int) + bond_term(s, nodes[nodes[i].nb(0)].state, self.j as int)
            + bond_term(s, nodes[nodes[i].nb(1)].state, self.j as int)
    }

    /// Energy of site `i`: its field term and its two stored bonds.
    pub open spec fn site_energy(self, nodes: Seq<Node>, i: int) -> int {
        self.energy_with(nodes, i, nodes[i].state)
    }

    /// Sum of the energies of the first `k` sites.
    pub open spec fn energy_upto(self, nodes: Seq<Node>, k: nat) -> int
        decreases k,
    {
        if k == 0 {
            0
        } else {
            self.energy_upto(nodes, (k - 1) as nat) + self.site_energy(nodes, k - 1)
        }
    }

    /// Total energy: the sum of the energies of all sites.
    pub open spec fn total_energy(self, nodes: Seq<Node>) -> int {
        self.energy_upto(nodes, nodes.len())
    }

    /// Site `i`'s energy as it stands minus its energy with its own spin turned
    /// over, the neighbours' spins read as they stand.
    pub open spec fn flip_delta(self, nodes: Seq<Node>, i: int) -> int {
        self.energy_with(nodes, i, nodes[i].state) - self.energy_with(
            nodes,
            i,
            nodes[i].state.spec_flipped(),
        )
    }

    /// Energy of site `idx`.
    pub fn calc_energy_node(&self, idx: usize, field: &Field) -> (r: i64)
        requires
            field.wf(),
            idx < field.nodes@.len(),
        ensures
            r == self.site_energy(field.nodes@, idx as int),
    {
        proof {
            lemma_neighbors_in_range(field);
            assert(0 <= field.nodes@[idx as int].nb(0) < field.nodes@.len());
            assert(0 <= field.nodes@[idx as int].nb(1) < field.nodes@.len());
        }
        let node = &field.nodes[idx];
        let mut energy: i64 = match node.state {
            Spin::Up => -(self.h as i64),
            Spin::Down => self.h as i64,
        };
        if node.state == field.nodes[node.neighbor[0]].state {
            energy -= self.j as i64;
        }
        if node.state == field.nodes[node.neighbor[1]].state {
            energy -= self.j as i64;
        }
        energy
    }

    /// Total energy of the lattice.
    pub fn calc_energy(&self, field: &Field) -> (r: i128)
        requires
            field.wf(),
        ensures
            r == self.total_energy(field.nodes@),
    {
        let n = field.nodes.len();
        let mut energy: i128 = 0;
        for i in 0..n
            invariant
                n == field.nodes@.len(),
                field.wf(),
                energy == self.energy_upto(field.nodes@, i as nat),
                -(i as int) * SITE_ENERGY_BOUND <= energy <= (i as int) * SITE_ENERGY_BOUND,
        {
            let e = self.calc_energy_node(i, field);
            energy = energy + e as i128;
        }
        energy
    }

    /// Site `idx`'s energy as it stands minus its energy with its spin turned over.
    pub fn calc_energy_diff_node(&self, idx: usize, field: &Field) -> (r: i64)
        requires
            field.wf(),
            idx < field.nodes@.len(),
        ensures
            r == self.flip_delta(field.nodes@, idx as int),
    {
        proof {
            lemma_neighbors_in_range(field);
            assert(0 <= field.nodes@[idx as int].nb(0) < field.nodes@.len());
            assert(0 <= field.nodes@[idx as int].nb(1) < field.nodes@.len());
        }
        let node = &field.nodes[idx];
        let mut energy_prev: i64 = match node.state {
            Spin::Up => -(self.h as i64),
            Spin::Down => self.h as i64,
        };
        let mut energy_next: i64 = -energy_prev;
        if node.state == field.nodes[node.neighbor[0]].state {
            energy_prev -= self.j as i64;
        } else {
            energy_next -= self.j as i64;
        }
        if node.state == field.nodes[node.neighbor[1]].state {
            energy_prev -= self.j as i64;
        } else {
            energy_next -= self.j as i64;
        }
        energy_prev - energy_next
    }
}

/// The incremental flip delta agrees with brute force: turning site `i` over,
/// re-evaluating its energy and turning it back gives an energy change of
/// exactly `-calc_energy_diff_node`, for every site that is not its own
/// neighbour; turning it back restores the lattice.
pub proof fn lemma_flip_delta_brute_force(m: Hamiltonian, f: &Field, i: int)
    requires
        f.wf(),
        0 <= i < f.nodes@.len(),
        f.nodes@[i].nb(0) != i,
        f.nodes@[i].nb(1) != i,
    ensures
        ({
            let s = f.nodes@[i].state;
            let flipped = Field::spec_with_spin(f.nodes@, i, s.spec_flipped());
            &&& m.site_energy(flipped, i) - m.site_energy(f.nodes@, i) == -m.flip_delta(
                f.nodes@,
                i,
            )
            &&& Field::spec_with_spin(flipped, i, s) == f.nodes@
        }),
{
    lemma_neighbors_in_range(f);
    let s = f.nodes@[i].state;
    let flipped = Field::spec_with_spin(f.nodes@, i, s.spec_flipped());
    let a = f.nodes@[i].nb(0);
    let b = f.nodes@[i].nb(1);
    assert(0 <= a < f.nodes@.len() && 0 <= b < f.nodes@.len());
    assert(flipped[i].neighbor == f.nodes@[i].neighbor);
    assert(flipped[a] == f.nodes@[a]);
    assert(flipped[b] == f.nodes@[b]);
    assert(Field::spec_with_spin(flipped, i, s) =~= f.nodes@);
}

/// On a lattice whose spins are all `Up`, every site sees its field and two
/// aligned bonds, so the total energy is `-(h + 2j)` per site; with `h == 0`
/// that is `-2j * width * height`.
pub proof fn lemma_all_up_energy(m: Hamiltonian, f: &Field)
    requires
        f.wf(),
        forall|i: int| 0 <= i < f.nodes@.len() ==> #[trigger] f.nodes@[i].state == Spin::Up,
    ensures
        m.total_energy(f.nodes@) == -(m.h + 2 * m.j) * f.nodes@.len(),
        m.h == 0 ==> m.total_energy(f.nodes@) == -2 * m.j * (f.width * f.height),
{
    let n = f.nodes@.len();
    lemma_all_up_prefix(m, f, n);
    assert(-(m.h + 2 * m.j) * n == -m.h * n - 2 * m.j * n) by (nonlinear_arith);
}

proof fn lemma_all_up_prefix(m: Hamiltonian, f: &Field, k: nat)
    requires
        f.wf(),
        k <= f.nodes@.len(),
        forall|i: int| 0 <= i < f.nodes@.len() ==> #[trigger] f.nodes@[i].state == Spin::Up,
    ensures
        m.energy_upto(f.nodes@, k) == -(m.h + 2 * m.j) * k,
    decreases k,
{
    if k > 0 {
        lemma_all_up_prefix(m, f, (k - 1) as nat);
        lemma_neighbors_in_range(f);
        let i = k - 1;
        let a = f.nodes@[i].nb(0);
        let b = f.nodes@[i].nb(1);
        assert(0 <= a < f.nodes@.len() && 0 <= b < f.nodes@.len());
        assert(f.nodes@[a].state == Spin::Up);
        assert(f.nodes@[b].state == Spin::Up);
        assert(f.nodes@[i].state == Spin::Up);
        assert(m.site_energy(f.nodes@, i) == -(m.h + 2 * m.j));
        assert(m.energy_upto(f.nodes@, k) == m.energy_upto(f.nodes@, (k - 1) as nat)
            + m.site_energy(f.nodes@, i));
        assert(-(m.h + 2 * m.j) * (k - 1) + -(m.h + 2 * m.j) == -(m.h + 2 * m.j) * k)
            by (nonlinear_arith);
    } else {
        assert(-(m.h + 2 * m.j) * k == 0) by (nonlinear_arith)
            requires
                k == 0,
        ;
    }
}

} // verus!
