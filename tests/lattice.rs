use ising::field::{Beta, Field, FieldError};
use ising::hamiltonian::Hamiltonian;
use ising::spin::Spin;
use ising::sweep::{sweep_until_draw, SweepAction};
use rand::rngs::StdRng;
use rand::{Rng, SeedableRng};

fn unit_beta() -> Beta {
    Beta { numer: 1, denom: 1 }
}

fn lattice(w: usize, h: usize) -> Field {
    Field::create(w, h, unit_beta()).unwrap()
}

/// One full sweep, taking each uphill move when a uniform draw exceeds
/// `exp(-beta * delta)`.
fn full_step(field: &mut Field, model: &Hamiltonian, rng: &mut StdRng) {
    let beta = field.beta.numer as f64 / field.beta.denom as f64;
    let mut from = 0;
    loop {
        match sweep_until_draw(field, model, from) {
            SweepAction::Done => break,
            SweepAction::Draw { index, delta } => {
                let u: f64 = rng.gen();
                if u > (-beta * delta as f64).exp() {
                    field.flip(index);
                }
                from = index + 1;
            }
        }
    }
}

fn spins(field: &Field) -> Vec<Spin> {
    (0..field.nodes.len()).map(|i| field.spin(i)).collect()
}

#[test]
fn create_builds_width_times_height_sites() {
    for (w, h) in [(1, 1), (1, 5), (5, 1), (3, 4), (7, 2)] {
        let f = lattice(w, h);
        assert_eq!(f.nodes.len(), w * h);
        assert_eq!(f.width, w);
        assert_eq!(f.height, h);
        for node in &f.nodes {
            assert_eq!(node.neighbor.len(), 2);
            assert!(node.neighbor.iter().all(|&n| n < w * h));
            assert_eq!(node.state, Spin::Up);
        }
    }
}

#[test]
fn neighbors_follow_toroidal_wrap() {
    let (w, h) = (4, 3);
    let f = lattice(w, h);
    for row in 0..h {
        for col in 0..w {
            let idx = row * w + col;
            let north = ((row + h - 1) % h) * w + col;
            let west = row * w + (col + w - 1) % w;
            assert_eq!(f.nodes[idx].neighbor, [north, west]);
        }
    }
    assert_eq!(f.nodes[0].neighbor, [8, 3]);
}

#[test]
fn create_rejects_zero_dimensions() {
    assert_eq!(Field::create(0, 3, unit_beta()).unwrap_err(), FieldError::InvalidDimensions);
    assert_eq!(Field::create(3, 0, unit_beta()).unwrap_err(), FieldError::InvalidDimensions);
    assert_eq!(Field::create(0, 0, unit_beta()).unwrap_err(), FieldError::InvalidDimensions);
}

#[test]
fn create_rejects_zero_denominator() {
    let beta = Beta { numer: 1, denom: 0 };
    assert_eq!(Field::create(2, 2, beta).unwrap_err(), FieldError::InvalidBeta);
}

#[test]
fn all_up_energy_counts_two_bonds_per_site() {
    let f = lattice(3, 4);
    let m = Hamiltonian { j: 1, h: 0 };
    assert_eq!(m.calc_energy(&f), -24);
    let m = Hamiltonian { j: 2, h: 1 };
    assert_eq!(m.calc_energy(&f), -60);
    assert_eq!(m.calc_energy_node(5, &f), -5);
}

#[test]
fn flip_delta_matches_brute_force() {
    let mut rng = StdRng::seed_from_u64(7);
    let m = Hamiltonian { j: 3, h: -2 };
    for _ in 0..5 {
        let mut f = lattice(4, 5);
        f.randomize(&mut rng);
        for i in 0..f.nodes.len() {
            let before = f.spin(i);
            let current = m.calc_energy_node(i, &f);
            f.flip(i);
            let flipped = m.calc_energy_node(i, &f);
            f.flip(i);
            assert_eq!(f.spin(i), before);
            assert_eq!(flipped - current, -m.calc_energy_diff_node(i, &f));
        }
    }
}

#[test]
fn flip_delta_uses_stored_neighbors() {
    let mut f = lattice(3, 3);
    let m = Hamiltonian { j: 1, h: 0 };
    assert_eq!(m.calc_energy_diff_node(4, &f), -2);
    f.set_spin(1, Spin::Down);
    assert_eq!(m.calc_energy_diff_node(4, &f), 0);
    f.set_spin(3, Spin::Down);
    assert_eq!(m.calc_energy_diff_node(4, &f), 2);
    let m = Hamiltonian { j: 0, h: 5 };
    assert_eq!(m.calc_energy_diff_node(4, &f), -10);
    assert_eq!(m.calc_energy_diff_node(1, &f), 10);
}

#[test]
fn energy_read_twice_after_randomize_agrees() {
    let mut rng = StdRng::seed_from_u64(11);
    let mut f = lattice(6, 6);
    f.randomize(&mut rng);
    let m = Hamiltonian { j: 1, h: 1 };
    let snapshot = spins(&f);
    let first = m.calc_energy(&f);
    let second = m.calc_energy(&f);
    assert_eq!(first, second);
    assert_eq!(spins(&f), snapshot);
}

#[test]
fn randomize_draws_both_spins() {
    let mut rng = StdRng::seed_from_u64(3);
    let mut f = lattice(10, 10);
    f.randomize(&mut rng);
    let downs = spins(&f).iter().filter(|s| **s == Spin::Down).count();
    assert!(downs > 0 && downs < 100);
    for row in 0..10 {
        for col in 0..10 {
            let north = ((row + 9) % 10) * 10 + col;
            let west = row * 10 + (col + 9) % 10;
            assert_eq!(f.nodes[row * 10 + col].neighbor, [north, west]);
        }
    }
}

#[test]
fn seeded_runs_are_identical() {
    let m = Hamiltonian { j: 1, h: 0 };
    let run = |seed: u64| {
        let mut rng = StdRng::seed_from_u64(seed);
        let mut f = lattice(8, 8);
        f.randomize(&mut rng);
        let mut history = vec![spins(&f)];
        for _ in 0..10 {
            full_step(&mut f, &m, &mut rng);
            history.push(spins(&f));
        }
        history
    };
    assert_eq!(run(42), run(42));
}

#[test]
fn two_by_two_energy_and_single_flip() {
    let mut f = lattice(2, 2);
    let m = Hamiltonian { j: 1, h: 0 };
    // Four sites, each holding two aligned stored bonds.
    assert_eq!(m.calc_energy(&f), -8);
    f.set_spin(0, Spin::Down);
    // Site 0's two stored bonds and the bonds of sites 1 and 2 that point to
    // it now disagree: four bonds move from -J to 0.
    assert_eq!(m.calc_energy(&f), -4);
}

#[test]
fn one_wide_lattice_bonds_to_itself() {
    let f = lattice(1, 4);
    for i in 0..4 {
        assert_eq!(f.nodes[i].neighbor[1], i);
        assert_eq!(f.nodes[i].neighbor[0], (i + 3) % 4);
    }
    let m = Hamiltonian { j: 1, h: 0 };
    assert_eq!(m.calc_energy(&f), -8);
    assert_eq!(m.calc_energy_diff_node(2, &f), -2);
}

#[test]
fn one_tall_lattice_bonds_to_itself() {
    let mut f = lattice(3, 1);
    for i in 0..3 {
        assert_eq!(f.nodes[i].neighbor[0], i);
        assert_eq!(f.nodes[i].neighbor[1], (i + 2) % 3);
    }
    let m = Hamiltonian { j: 1, h: 0 };
    f.set_spin(1, Spin::Down);
    assert_eq!(m.calc_energy(&f), -4);
    let mut rng = StdRng::seed_from_u64(5);
    full_step(&mut f, &m, &mut rng);
    assert_eq!(f.nodes.len(), 3);
}

#[test]
fn single_site_lattice() {
    let mut f = lattice(1, 1);
    assert_eq!(f.nodes[0].neighbor, [0, 0]);
    let m = Hamiltonian { j: 2, h: 1 };
    assert_eq!(m.calc_energy(&f), -5);
    assert_eq!(m.calc_energy_diff_node(0, &f), -6);
    let mut rng = StdRng::seed_from_u64(1);
    full_step(&mut f, &m, &mut rng);
    assert_eq!(f.spin(0), Spin::Down);
}

#[test]
fn sweep_pauses_at_first_uphill_site() {
    let mut f = lattice(2, 2);
    let m = Hamiltonian { j: 1, h: 0 };
    let action = sweep_until_draw(&mut f, &m, 0);
    assert_eq!(action, SweepAction::Draw { index: 3, delta: 2 });
    assert_eq!(spins(&f), vec![Spin::Down, Spin::Down, Spin::Down, Spin::Up]);
    assert_eq!(sweep_until_draw(&mut f, &m, 4), SweepAction::Done);
}

#[test]
fn sweep_without_uphill_moves_runs_to_the_end() {
    let mut f = lattice(3, 1);
    let m = Hamiltonian { j: 0, h: 1 };
    assert_eq!(sweep_until_draw(&mut f, &m, 0), SweepAction::Done);
    assert_eq!(spins(&f), vec![Spin::Down; 3]);
    let m = Hamiltonian { j: 0, h: -1 };
    assert_eq!(sweep_until_draw(&mut f, &m, 1), SweepAction::Done);
    assert_eq!(spins(&f), vec![Spin::Down, Spin::Up, Spin::Up]);
}

#[test]
fn spin_glyphs_and_flip() {
    assert_eq!(Spin::Up.glyph(), '+');
    assert_eq!(Spin::Down.glyph(), ' ');
    assert_eq!(Spin::Up.flipped(), Spin::Down);
    assert_eq!(Spin::Down.flipped(), Spin::Up);
}

#[test]
fn render_draws_bordered_grid() {
    let mut f = lattice(2, 2);
    f.set_spin(1, Spin::Down);
    f.set_spin(2, Spin::Down);
    assert_eq!(f.render(), "-----\n|+| |\n-----\n| |+|\n-----\n\n");
    let g = lattice(1, 1);
    assert_eq!(g.render(), "---\n|+|\n---\n\n");
}
