//! One Monte Carlo sweep: sites are visited in row-major order; a move that
//! does not raise the site's energy delta is taken at once, and the sweep
//! pauses at each uphill move so that its driver can decide it.

use crate::field::{Field, Node};
use crate::hamiltonian::Hamiltonian;
use vstd::prelude::*;

verus! {

/// The sites with site `i` turned over.
pub open spec fn flipped_at(nodes: Seq<Node>, i: int) -> Seq<Node> {
    Field::spec_with_spin(nodes, i, nodes[i].state.spec_flipped())
}

/// The sites after visiting sites `from .. to` in order, turning over each one
/// whose delta, read at the moment of its visit, is at most zero.
pub open spec fn downhill_run(m: Hamiltonian, nodes: Seq<Node>, from: int, to: int) -> Seq<Node>
    decreases to - from,
{
    if to <= from {
        nodes
    } else {
        let prev = downhill_run(m, nodes, from, to - 1);
        if m.flip_delta(prev, to - 1) <= 0 {
            flipped_at(prev, to - 1)
        } else {
            prev
        }
    }
}

/// Whether every site in `from .. to` was downhill or level when visited.
pub open spec fn all_downhill(m: Hamiltonian, nodes: Seq<Node>, from: int, to: int) -> bool {
    forall|k: int|
        from <= k < to ==> #[trigger] m.flip_delta(downhill_run(m, nodes, from, k), k) <= 0
}

/// What a paused sweep asks of its driver.
#[derive(Clone, Copy, PartialEq, Eq, Structural, Debug)]
pub enum SweepAction {
    /// Site `index` would raise the energy by `delta > 0`: the driver draws
    /// and, if it accepts, turns the site over, then resumes at `index + 1`.
    Draw { index: usize, delta: i64 },
    /// Every site from the resume point on has been visited.
    Done,
}

/// Visits the sites from `from` on, turning over each whose delta is at most
/// zero, and stops at the first site whose delta is positive.
pub fn sweep_until_draw(field: &mut Field, hamiltonian: &Hamiltonian, from: usize) -> (r:
    SweepAction)
    requires
        old(field).wf(),
        from <= old(field).nodes@.len(),
    ensures
        final(field).wf(),
        old(field).same_links(final(field)),
        match r {
            SweepAction::Draw { index, delta } => {
                &&& from <= index < old(field).nodes@.len()
                &&& all_downhill(*hamiltonian, old(field).nodes@, from as int, index as int)
                &&& final(field).nodes@ == downhill_run(
                    *hamiltonian,
                    old(field).nodes@,
                    from as int,
                    index as int,
                )
                &&& delta == hamiltonian.flip_delta(final(field).nodes@, index as int)
                &&& delta > 0
            },
            SweepAction::Done => {
                &&& all_downhill(
                    *hamiltonian,
                    old(field).nodes@,
                    from as int,
                    old(field).nodes@.len() as int,
                )
                &&& final(field).nodes@ == downhill_run(
                    *hamiltonian,
                    old(field).nodes@,
                    from as int,
                    old(field).nodes@.len() as int,
                )
            },
        },
{
    let n = field.nodes.len();
    let mut i: usize = from;
    while i < n
        invariant
            from <= i <= n,
            n == old(field).nodes@.len(),
            field.wf(),
            old(field).same_links(field),
            all_downhill(*hamiltonian, old(field).nodes@, from as int, i as int),
            field.nodes@ == downhill_run(*hamiltonian, old(field).nodes@, from as int, i as int),
        decreases n - i,
    {
        let delta = hamiltonian.calc_energy_diff_node(i, field);
        if delta > 0 {
            return SweepAction::Draw { index: i, delta };
        }
        let ghost before = field.nodes@;
        field.flip(i);
        assert(field.nodes@ == flipped_at(before, i as int));
        assert(downhill_run(*hamiltonian, old(field).nodes@, from as int, i + 1) == flipped_at(
            before,
            i as int,
        ));
        assert forall|k: int| from <= k < i + 1 implies #[trigger] hamiltonian.flip_delta(
            downhill_run(*hamiltonian, old(field).nodes@, from as int, k),
            k,
        ) <= 0 by {
            if k < i {
                assert(all_downhill(*hamiltonian, old(field).nodes@, from as int, i as int));
            }
        }
        i += 1;
    }
    SweepAction::Done
}

} // verus!
