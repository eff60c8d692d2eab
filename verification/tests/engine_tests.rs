#![allow(non_snake_case)]
use game_of_life::engine::{
    create_engine, get_location_from_idx, Backend, Engine, MultiThreadedEngine, RayonEngine,
    SingleThreadEngine,
};
use game_of_life::grid::{BMatrixVector, GRID_SIZE};

#[test]
fn engine_test_update_b_matrix_single_cell_become_dead() {
    let mut b_matrix_vector = BMatrixVector::default();
    let i = GRID_SIZE - 1;
    let j = 40;

    *b_matrix_vector.at_mut(i, j).unwrap() = true;
    assert_eq!(b_matrix_vector.at(i, j).unwrap(), true);
    let mut next_b_matrix_vector = BMatrixVector::default();
    SingleThreadEngine::new().next_b_matrix(&b_matrix_vector, &mut next_b_matrix_vector);

    assert_eq!(next_b_matrix_vector.at(i, j).unwrap(), false);
}

#[test]
fn b_matrix_vector_test_update_b_matrix_single_cell_become_dead() {
    let mut b_matrix_vector = BMatrixVector::default();
    let i = GRID_SIZE - 1;
    let j = 40;

    *b_matrix_vector.at_mut(i, j).unwrap() = true;
    assert_eq!(b_matrix_vector.at(i, j).unwrap(), true);
    let mut next_b_matrix_vector = BMatrixVector::default();
    SingleThreadEngine::new().next_b_matrix(&b_matrix_vector, &mut next_b_matrix_vector);

    assert_eq!(next_b_matrix_vector.at(i, j).unwrap(), false);
}

#[test]
fn bmatrix_vector_test_update_b_matrix_single_cell_become_dead() {
    let mut b_matrix_vector = BMatrixVector::default();
    let i = GRID_SIZE - 1;
    let j = 40;

    *b_matrix_vector.at_mut(i, j).unwrap() = true;
    assert_eq!(b_matrix_vector.at(i, j).unwrap(), true);
    let mut next_b_matrix_vector = BMatrixVector::default();
    SingleThreadEngine::new().next_b_matrix(&b_matrix_vector, &mut next_b_matrix_vector);

    assert_eq!(next_b_matrix_vector.at(i, j).unwrap(), false);
}

#[test]
fn test_update_bmatrix_single_cell_become_dead() {
    let mut b_matrix = BMatrixVector::default();
    let i = GRID_SIZE - 1;
    let j = 40;

    *b_matrix.at_mut(i, j).unwrap() = true;
    assert_eq!(b_matrix.at(i, j).unwrap(), true);
    let mut new_matrix = BMatrixVector::default();
    SingleThreadEngine::new().next_b_matrix(&b_matrix, &mut new_matrix);

    assert_eq!(new_matrix.at(i, j).unwrap(), false);
}

#[test]
fn engine_test_update_b_matrix_edge_cell_become_alive() {
    let mut b_matrix_vector = BMatrixVector::default();
    let i = GRID_SIZE - 1;
    let j = 40;
    *b_matrix_vector.at_mut(i, j + 1).unwrap() = true;
    *b_matrix_vector.at_mut(i - 1, j).unwrap() = true;
    *b_matrix_vector.at_mut(i, j - 1).unwrap() = true;

    let mut next_b_matrix_vector = BMatrixVector::default();
    SingleThreadEngine::new().next_b_matrix(&b_matrix_vector, &mut next_b_matrix_vector);

    assert_eq!(next_b_matrix_vector.at(i, j + 1).unwrap(), false);
    assert_eq!(next_b_matrix_vector.at(i - 1, j).unwrap(), true);
    assert_eq!(next_b_matrix_vector.at(i, j - 1).unwrap(), false);
    assert_eq!(next_b_matrix_vector.at(i, j).unwrap(), true);
}

#[test]
fn b_matrix_vector_test_update_b_matrix_edge_cell_become_alive() {
    let mut b_matrix_vector = BMatrixVector::default();
    let i = GRID_SIZE - 1;
    let j = 40;
    *b_matrix_vector.at_mut(i, j + 1).unwrap() = true;
    *b_matrix_vector.at_mut(i - 1, j).unwrap() = true;
    *b_matrix_vector.at_mut(i, j - 1).unwrap() = true;

    let mut next_b_matrix_vector = BMatrixVector::default();
    SingleThreadEngine::new().next_b_matrix(&b_matrix_vector, &mut next_b_matrix_vector);

    assert_eq!(next_b_matrix_vector.at(i, j + 1).unwrap(), false);
    assert_eq!(next_b_matrix_vector.at(i - 1, j).unwrap(), true);
    assert_eq!(next_b_matrix_vector.at(i, j - 1).unwrap(), false);
    assert_eq!(next_b_matrix_vector.at(i, j).unwrap(), true);
}

#[test]
fn engine_test_update_b_matrix_corner_cell_stays_alive() {
    let mut b_matrix_vector = BMatrixVector::default();
    let i = GRID_SIZE - 1;
    let j = GRID_SIZE - 1;

    *b_matrix_vector.at_mut(i, j - 1).unwrap() = true;
    *b_matrix_vector.at_mut(i - 1, j).unwrap() = true;
    *b_matrix_vector.at_mut(i, j).unwrap() = true;

    let mut next_b_matrix_vector = BMatrixVector::default();
    SingleThreadEngine::new().next_b_matrix(&b_matrix_vector, &mut next_b_matrix_vector);

    assert_eq!(next_b_matrix_vector.at(i, j).unwrap(), true);
    assert_eq!(next_b_matrix_vector.at(i, j - 1).unwrap(), true);
    assert_eq!(next_b_matrix_vector.at(i - 1, j).unwrap(), true);
}

#[test]
fn b_matrix_vector_test_update_b_matrix_corner_cell_stays_alive() {
    let mut b_matrix_vector = BMatrixVector::default();
    let i = GRID_SIZE - 1;
    let j = GRID_SIZE - 1;

    *b_matrix_vector.at_mut(i, j - 1).unwrap() = true;
    *b_matrix_vector.at_mut(i - 1, j).unwrap() = true;
    *b_matrix_vector.at_mut(i, j).unwrap() = true;

    let mut next_b_matrix_vector = BMatrixVector::default();
    SingleThreadEngine::new().next_b_matrix(&b_matrix_vector, &mut next_b_matrix_vector);

    assert_eq!(next_b_matrix_vector.at(i, j).unwrap(), true);
    assert_eq!(next_b_matrix_vector.at(i, j - 1).unwrap(), true);
    assert_eq!(next_b_matrix_vector.at(i - 1, j).unwrap(), true);
}

#[test]
fn engine_test_get_location_from_idx() {
    let i: i32 = 3;
    let j: i32 = 2;
    let idx = j * GRID_SIZE + i;
    let (new_i, new_j) = get_location_from_idx(idx as usize, GRID_SIZE);
    assert_eq!(i, new_i);
    assert_eq!(j, new_j);
}

#[test]
fn b_matrix_vector_test_get_location_from_idx() {
    let i: i32 = 3;
    let j: i32 = 2;
    let idx = j * GRID_SIZE + i;
    let (new_i, new_j) = get_location_from_idx(idx as usize, GRID_SIZE);
    assert_eq!(i, new_i);
    assert_eq!(j, new_j);
}

#[test]
fn bmatrix_test_get_location_from_idx() {
    let i: i32 = 3;
    let j: i32 = 2;
    let idx = j * GRID_SIZE + i;
    let (new_i, new_j) = get_location_from_idx(idx as usize, GRID_SIZE);
    assert_eq!(i, new_i);
    assert_eq!(j, new_j);
}

#[test]
fn bmatrix_vector_test_get_location_from_idx() {
    let i: i32 = 3;
    let j: i32 = 2;
    let idx = j * GRID_SIZE + i;
    let (new_i, new_j) = get_location_from_idx(idx as usize, GRID_SIZE);
    assert_eq!(i, new_i);
    assert_eq!(j, new_j);
}

fn collect_cells(grid: &BMatrixVector) -> Vec<bool> {
    let n = grid.width();
    let mut cells = Vec::new();
    for j in 0..n {
        for i in 0..n {
            cells.push(grid.at(i, j).unwrap());
        }
    }
    cells
}

/// Determinism across backends: sequential, region-parallel with several
/// worker counts, and data-parallel all produce bit-identical results.
#[test]
fn backends_produce_identical_generations() {
    let n = 12;
    let mut src = BMatrixVector::new(n);
    // An irregular pattern touching corners, edges and the interior.
    let live = [
        (0, 0),
        (1, 0),
        (0, 1),
        (5, 5),
        (5, 6),
        (5, 7),
        (6, 6),
        (11, 11),
        (10, 11),
        (11, 10),
        (3, 8),
        (4, 8),
        (2, 9),
    ];
    for &(i, j) in live.iter() {
        *src.at_mut(i, j).unwrap() = true;
    }

    let mut baseline = BMatrixVector::new(n);
    SingleThreadEngine::new().next_b_matrix(&src, &mut baseline);
    let expected = collect_cells(&baseline);

    for &workers in [1, 2, 3, 7].iter() {
        let mut dest = BMatrixVector::new(n);
        MultiThreadedEngine::new(workers).next_b_matrix(&src, &mut dest);
        assert_eq!(collect_cells(&dest), expected);
    }

    let mut dest = BMatrixVector::new(n);
    RayonEngine::new().next_b_matrix(&src, &mut dest);
    assert_eq!(collect_cells(&dest), expected);
}

/// Dead-state idempotence on several extents.
#[test]
fn all_dead_grid_stays_all_dead() {
    for &n in [1, 2, 5, 10].iter() {
        let src = BMatrixVector::new(n);
        let mut dest = BMatrixVector::new(n);
        SingleThreadEngine::new().next_b_matrix(&src, &mut dest);
        for j in 0..n {
            for i in 0..n {
                assert_eq!(dest.at(i, j).unwrap(), false);
            }
        }
    }
}

/// A single isolated live cell dies of underpopulation.
#[test]
fn single_isolated_cell_dies() {
    let mut src = BMatrixVector::new(10);
    *src.at_mut(5, 5).unwrap() = true;
    let mut dest = BMatrixVector::new(10);
    SingleThreadEngine::new().next_b_matrix(&src, &mut dest);
    for j in 0..10 {
        for i in 0..10 {
            assert_eq!(dest.at(i, j).unwrap(), false);
        }
    }
}

/// Three cells in an L: the corner of the L survives and the block cell is
/// born.
#[test]
fn three_in_an_l_survive_and_give_birth() {
    let mut src = BMatrixVector::new(10);
    *src.at_mut(4, 5).unwrap() = true;
    *src.at_mut(5, 4).unwrap() = true;
    *src.at_mut(5, 5).unwrap() = true;
    let mut dest = BMatrixVector::new(10);
    SingleThreadEngine::new().next_b_matrix(&src, &mut dest);
    assert_eq!(dest.at(5, 5).unwrap(), true);
    assert_eq!(dest.at(4, 4).unwrap(), true);
    assert_eq!(dest.at(4, 5).unwrap(), true);
    assert_eq!(dest.at(5, 4).unwrap(), true);
}

/// A live cell in the bottom-right corner dies, and nothing wraps around
/// to the opposite corner.
#[test]
fn off_grid_is_dead_not_wrapped() {
    let mut src = BMatrixVector::new(10);
    *src.at_mut(9, 9).unwrap() = true;
    let mut dest = BMatrixVector::new(10);
    SingleThreadEngine::new().next_b_matrix(&src, &mut dest);
    assert_eq!(dest.at(9, 9).unwrap(), false);
    assert_eq!(dest.at(0, 0).unwrap(), false);
    assert_eq!(dest.at(0, 9).unwrap(), false);
    assert_eq!(dest.at(9, 0).unwrap(), false);
    for j in 0..10 {
        for i in 0..10 {
            assert_eq!(dest.at(i, j).unwrap(), false);
        }
    }
}

/// The engine built by `create_engine` dispatches to the requested
/// backend; the frozen backend leaves the destination untouched.
#[test]
fn create_engine_dispatches_each_backend() {
    let mut src = BMatrixVector::new(6);
    *src.at_mut(2, 2).unwrap() = true;
    *src.at_mut(3, 2).unwrap() = true;
    *src.at_mut(2, 3).unwrap() = true;

    let mut baseline = BMatrixVector::new(6);
    SingleThreadEngine::new().next_b_matrix(&src, &mut baseline);
    let expected = collect_cells(&baseline);

    for backend in [
        Backend::Single,
        Backend::MultiThreaded(2),
        Backend::Rayon,
    ] {
        let mut engine: Engine = create_engine(backend);
        let mut dest = BMatrixVector::new(6);
        engine.next_b_matrix(&src, &mut dest);
        assert_eq!(collect_cells(&dest), expected);
    }

    let mut skip = create_engine(Backend::Skip);
    let mut dest = BMatrixVector::new(6);
    *dest.at_mut(0, 0).unwrap() = true;
    skip.next_b_matrix(&src, &mut dest);
    assert_eq!(dest.at(0, 0).unwrap(), true);
    assert_eq!(dest.at(2, 2).unwrap(), false);
}

/// A blinker oscillates with period two under repeated advancing.
#[test]
fn blinker_oscillates() {
    let mut src = BMatrixVector::new(8);
    *src.at_mut(3, 2).unwrap() = true;
    *src.at_mut(3, 3).unwrap() = true;
    *src.at_mut(3, 4).unwrap() = true;
    let first = collect_cells(&src);

    let mut step1 = BMatrixVector::new(8);
    SingleThreadEngine::new().next_b_matrix(&src, &mut step1);
    assert_eq!(step1.at(2, 3).unwrap(), true);
    assert_eq!(step1.at(3, 3).unwrap(), true);
    assert_eq!(step1.at(4, 3).unwrap(), true);
    assert_eq!(step1.at(3, 2).unwrap(), false);
    assert_eq!(step1.at(3, 4).unwrap(), false);

    let mut step2 = BMatrixVector::new(8);
    SingleThreadEngine::new().next_b_matrix(&step1, &mut step2);
    assert_eq!(collect_cells(&step2), first);
}
