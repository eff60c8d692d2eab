use game_of_life::coordinator::{Coordinator, WorkFlag};
use game_of_life::engine::{Backend, SingleThreadEngine};
use game_of_life::grid::BMatrixVector;

fn l_shape_seed() -> BMatrixVector {
    let mut seed = BMatrixVector::new(10);
    *seed.at_mut(4, 5).unwrap() = true;
    *seed.at_mut(5, 4).unwrap() = true;
    *seed.at_mut(5, 5).unwrap() = true;
    seed
}

fn snapshot_cells(coordinator: &Coordinator) -> Vec<bool> {
    let grid = coordinator.current_snapshot();
    let n = grid.width();
    let mut cells = Vec::new();
    for j in 0..n {
        for i in 0..n {
            cells.push(grid.at(i, j).unwrap());
        }
    }
    cells
}

#[test]
fn starts_idle_with_the_seed_published() {
    let seed = l_shape_seed();
    let expected: Vec<bool> = {
        let mut cells = Vec::new();
        for j in 0..10 {
            for i in 0..10 {
                cells.push(seed.at(i, j).unwrap());
            }
        }
        cells
    };
    let coordinator = Coordinator::new(seed, Backend::Single);
    assert!(matches!(coordinator.status(), WorkFlag::Done));
    assert_eq!(snapshot_cells(&coordinator), expected);
}

#[test]
fn request_then_produce_publishes_the_next_generation() {
    let seed = l_shape_seed();
    let mut expected_next = BMatrixVector::new(10);
    SingleThreadEngine::new().next_b_matrix(&seed, &mut expected_next);

    let mut coordinator = Coordinator::new(seed, Backend::Single);
    // First request: swap and go busy; the visible buffer is still the
    // seed generation.
    assert!(coordinator.request_next_generation());
    assert!(matches!(coordinator.status(), WorkFlag::InProgress));
    // Producer finishes the generation and goes idle.
    coordinator.producer_step();
    assert!(matches!(coordinator.status(), WorkFlag::Done));
    // The next request publishes it.
    assert!(coordinator.request_next_generation());
    let published = snapshot_cells(&coordinator);
    let mut expected = Vec::new();
    for j in 0..10 {
        for i in 0..10 {
            expected.push(expected_next.at(i, j).unwrap());
        }
    }
    assert_eq!(published, expected);
}

/// Busy-skip backpressure: a second immediate request leaves the state
/// busy and does not disturb the in-flight computation — the run with the
/// dropped request publishes exactly what the single-request run does.
#[test]
fn second_request_while_busy_is_inert() {
    let mut single = Coordinator::new(l_shape_seed(), Backend::Single);
    assert!(single.request_next_generation());
    single.producer_step();
    assert!(single.request_next_generation());
    let baseline = snapshot_cells(&single);

    let mut doubled = Coordinator::new(l_shape_seed(), Backend::Single);
    assert!(doubled.request_next_generation());
    assert!(matches!(doubled.status(), WorkFlag::InProgress));
    // The duplicate request is dropped: still busy, nothing woken.
    assert!(!doubled.request_next_generation());
    assert!(matches!(doubled.status(), WorkFlag::InProgress));
    doubled.producer_step();
    assert!(doubled.request_next_generation());
    assert_eq!(snapshot_cells(&doubled), baseline);
}

#[test]
fn frozen_backend_keeps_the_generation() {
    let seed = l_shape_seed();
    let mut coordinator = Coordinator::new(seed, Backend::Skip);
    let before = snapshot_cells(&coordinator);
    for _ in 0..3 {
        coordinator.request_next_generation();
        coordinator.producer_step();
    }
    coordinator.request_next_generation();
    assert_eq!(snapshot_cells(&coordinator), before);
}

#[test]
fn producer_step_while_idle_changes_nothing() {
    let mut coordinator = Coordinator::new(l_shape_seed(), Backend::Single);
    let before = snapshot_cells(&coordinator);
    coordinator.producer_step();
    assert!(matches!(coordinator.status(), WorkFlag::Done));
    assert_eq!(snapshot_cells(&coordinator), before);
}

#[test]
fn region_parallel_coordinator_matches_sequential() {
    let mut sequential = Coordinator::new(l_shape_seed(), Backend::Single);
    let mut parallel = Coordinator::new(l_shape_seed(), Backend::MultiThreaded(3));
    for _ in 0..4 {
        sequential.request_next_generation();
        sequential.producer_step();
        parallel.request_next_generation();
        parallel.producer_step();
    }
    sequential.request_next_generation();
    parallel.request_next_generation();
    assert_eq!(snapshot_cells(&sequential), snapshot_cells(&parallel));
}
