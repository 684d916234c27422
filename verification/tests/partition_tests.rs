use flocking::cell_space_partition::{CellSpacePartition, Partition};
use flocking::configuration::ConfigLoader;
use flocking::inverted_aab_box_2d::InvertedAABBox2D;
use flocking::steering_behavior::SteeringBehavior;
use flocking::vec2::Vec2;
use flocking::vehicle::Vehicle;

fn agent(id: usize, x: i64, y: i64) -> Vehicle {
    let steering = SteeringBehavior::from_config(&ConfigLoader::new(), Vec2::new(1_200, 0));
    Vehicle::new(
        id as i32,
        Vec2::new(x, y),
        Vec2::new(1_000, 0),
        Vec2::new(0, 0),
        1_000,
        400_000,
        80_000,
        3_142,
        20_000,
        steering,
    )
}

fn grid() -> CellSpacePartition {
    CellSpacePartition::new(600_000, 600_000, 7, 7, 250)
}

struct Lcg(u64);

impl Lcg {
    fn next(&mut self, bound: i64) -> i64 {
        self.0 = self.0.wrapping_mul(6364136223846793005).wrapping_add(1442695040888963407);
        ((self.0 >> 33) as i64) % bound
    }
}

fn population(count: usize, seed: u64, width: i64, height: i64) -> Vec<Vehicle> {
    let mut rng = Lcg(seed);
    (0..count).map(|i| agent(i, rng.next(width), rng.next(height))).collect()
}

fn cells_of(space: &CellSpacePartition, entity: usize) -> Vec<usize> {
    let mut found = Vec::new();
    for (c, cell) in space.m_Cells.iter().enumerate() {
        for member in &cell.members {
            if *member == entity {
                found.push(c);
            }
        }
    }
    found
}

#[test]
fn a_new_grid_has_empty_cells_with_their_boxes() {
    let space = CellSpacePartition::new(600_000, 300_000, 3, 2, 10);
    assert_eq!(space.m_Cells.len(), 6);
    assert!(space.m_Cells.iter().all(|c| c.members.is_empty()));
    assert!(space.m_Neighbors.is_empty());
    assert_eq!(space.m_dCellSizeX, 200_000);
    assert_eq!(space.m_dCellSizeY, 150_000);
    let first = &space.m_Cells[0].bounding_box;
    assert_eq!((first.left(), first.top(), first.right(), first.bottom()), (0, 0, 200_000, 150_000));
    let last = &space.m_Cells[5].bounding_box;
    assert_eq!(
        (last.left(), last.top(), last.right(), last.bottom()),
        (400_000, 150_000, 600_000, 300_000)
    );
    // where the width does not divide evenly, the upper edge is rounded up
    let uneven = CellSpacePartition::new(10, 10, 3, 1, 0);
    let boxes: Vec<(i64, i64)> =
        uneven.m_Cells.iter().map(|c| (c.bounding_box.left(), c.bounding_box.right())).collect();
    assert_eq!(boxes, vec![(0, 4), (3, 7), (6, 10)]);
}

#[test]
fn a_cell_is_an_empty_box() {
    let cell = Partition::new(Vec2::new(1, 2), Vec2::new(5, 10));
    assert!(cell.members.is_empty());
    assert_eq!(cell.bounding_box.m_vTopLeft, Vec2::new(1, 2));
    assert_eq!(cell.bounding_box.m_vBottomRight, Vec2::new(5, 10));
    assert_eq!(cell.bounding_box.m_vCenter, Vec2::new(3, 6));
}

#[test]
fn boxes_overlap_when_they_share_a_point() {
    let a = InvertedAABBox2D::new(Vec2::new(0, 0), Vec2::new(10, 10));
    let touching = InvertedAABBox2D::new(Vec2::new(10, 10), Vec2::new(20, 20));
    let apart = InvertedAABBox2D::new(Vec2::new(11, 0), Vec2::new(20, 10));
    let inside = InvertedAABBox2D::new(Vec2::new(2, 2), Vec2::new(3, 3));
    let below = InvertedAABBox2D::new(Vec2::new(0, 11), Vec2::new(10, 12));
    assert!(a.isOverlappedWith(&touching));
    assert!(touching.isOverlappedWith(&a));
    assert!(!a.isOverlappedWith(&apart));
    assert!(!apart.isOverlappedWith(&a));
    assert!(a.isOverlappedWith(&inside));
    assert!(inside.isOverlappedWith(&a));
    assert!(!a.isOverlappedWith(&below));
    assert_eq!(InvertedAABBox2D::new(Vec2::new(-3, -4), Vec2::new(0, 1)).m_vCenter, Vec2::new(-1, -1));
}

#[test]
fn the_cell_index_follows_the_formula() {
    let space = grid();
    assert_eq!(space.position_to_index(&Vec2::new(0, 0)), 0);
    // column floor(7 * 100 / 600) = 1, row floor(7 * 200 / 600) = 2
    assert_eq!(space.position_to_index(&Vec2::new(100_000, 200_000)), 15);
    assert_eq!(space.position_to_index(&Vec2::new(599_999, 0)), 6);
    assert_eq!(space.position_to_index(&Vec2::new(0, 599_999)), 42);
    assert_eq!(space.position_to_index(&Vec2::new(599_999, 599_999)), 48);
    // the boundary between the first two columns lies at 600 / 7
    assert_eq!(space.position_to_index(&Vec2::new(85_714, 0)), 0);
    assert_eq!(space.position_to_index(&Vec2::new(85_715, 0)), 1);
    for _ in 0..3 {
        assert_eq!(space.position_to_index(&Vec2::new(300_000, 300_000)), 24);
    }
}

#[test]
fn the_cell_index_is_clamped_into_the_grid() {
    let space = grid();
    assert_eq!(space.position_to_index(&Vec2::new(600_000, 600_000)), 48);
    assert_eq!(space.position_to_index(&Vec2::new(900_000, 900_000)), 48);
    assert_eq!(space.position_to_index(&Vec2::new(-1, -1)), 0);
    assert_eq!(space.position_to_index(&Vec2::new(i64::MIN, i64::MIN)), 0);
    assert_eq!(space.position_to_index(&Vec2::new(i64::MAX, i64::MAX)), 48);
    let mut rng = Lcg(7);
    for _ in 0..1_000 {
        let p = Vec2::new(rng.next(600_000), rng.next(600_000));
        let index = space.position_to_index(&p);
        assert!(index < 49);
        assert_eq!(index as i64, 7 * p.x / 600_000 + (7 * p.y / 600_000) * 7);
        assert!(space.m_Cells[index].bounding_box.left() <= p.x);
        assert!(p.x <= space.m_Cells[index].bounding_box.right());
        assert!(space.m_Cells[index].bounding_box.top() <= p.y);
        assert!(p.y <= space.m_Cells[index].bounding_box.bottom());
    }
}

#[test]
fn add_entity_appends_to_the_cell_of_the_position() {
    let mut space = grid();
    space.add_entity(0, Vec2::new(100_000, 200_000));
    space.add_entity(1, Vec2::new(100_001, 200_001));
    space.add_entity(2, Vec2::new(599_999, 599_999));
    assert_eq!(space.m_Cells[15].members, vec![0, 1]);
    assert_eq!(space.m_Cells[48].members, vec![2]);
    let filled = space.m_Cells.iter().filter(|c| !c.members.is_empty()).count();
    assert_eq!(filled, 2);
    space.EmptyCells();
    assert_eq!(space.m_Cells.len(), 49);
    assert!(space.m_Cells.iter().all(|c| c.members.is_empty()));
}

#[test]
fn update_entity_moves_an_agent_between_cells() {
    let mut space = grid();
    let old = Vec2::new(100_000, 200_000);
    space.add_entity(0, old);
    space.add_entity(1, old);
    space.add_entity(2, old);
    // a move within the cell changes nothing
    space.UpdateEntity(1, Vec2::new(110_000, 210_000), old);
    assert_eq!(space.m_Cells[15].members, vec![0, 1, 2]);
    // a move to the next column takes the agent out and appends it there
    space.UpdateEntity(1, Vec2::new(180_000, 210_000), old);
    assert_eq!(space.m_Cells[15].members, vec![0, 2]);
    assert_eq!(space.m_Cells[16].members, vec![1]);
    assert_eq!(cells_of(&space, 1), vec![16]);
    // an agent that was not in the old cell is appended all the same
    space.UpdateEntity(9, Vec2::new(599_000, 599_000), old);
    assert_eq!(space.m_Cells[15].members, vec![0, 2]);
    assert_eq!(space.m_Cells[48].members, vec![9]);
}

#[test]
fn every_agent_stays_in_exactly_one_cell() {
    let mut agents = population(200, 11, 600_000, 600_000);
    let mut space = grid();
    for (i, a) in agents.iter().enumerate() {
        space.add_entity(i, a.position);
    }
    let mut rng = Lcg(5);
    for round in 0..20 {
        for i in 0..agents.len() {
            let old = agents[i].position;
            let step = Vec2::new(rng.next(120_000) - 60_000, rng.next(120_000) - 60_000);
            let mut moved = old.plus(step);
            flocking::utils::WrapAround(&mut moved, 600, 600);
            agents[i].position = moved;
            space.UpdateEntity(i, moved, old);
        }
        for i in 0..agents.len() {
            assert_eq!(
                cells_of(&space, i),
                vec![space.position_to_index(&agents[i].position)],
                "agent {} in round {}",
                i,
                round
            );
        }
        let total: usize = space.m_Cells.iter().map(|c| c.members.len()).sum();
        assert_eq!(total, agents.len());
    }
}

#[test]
fn the_neighbours_are_the_agents_within_the_radius() {
    for seed in 1..6u64 {
        let agents = population(300, seed, 600_000, 600_000);
        let mut space = grid();
        for (i, a) in agents.iter().enumerate() {
            space.add_entity(i, a.position);
        }
        let mut rng = Lcg(seed + 100);
        for _ in 0..40 {
            let target = Vec2::new(rng.next(600_000), rng.next(600_000));
            let radius = rng.next(200_000) + 1;
            space.CalculateNeighbors(&agents, target, radius);
            let mut found = space.m_Neighbors.clone();
            found.sort();
            let expected: Vec<usize> = (0..agents.len())
                .filter(|i| {
                    let d = agents[*i].position.minus(target);
                    (d.x as i128 * d.x as i128 + d.y as i128 * d.y as i128)
                        < radius as i128 * radius as i128
                })
                .collect();
            assert_eq!(found, expected);
        }
    }
}

#[test]
fn the_radius_is_a_strict_bound() {
    let agents = vec![agent(0, 100_000, 100_000), agent(1, 103_000, 104_000), agent(2, 100_000, 105_001)];
    let mut space = grid();
    for (i, a) in agents.iter().enumerate() {
        space.add_entity(i, a.position);
    }
    // agent 1 is exactly 5 units away
    space.CalculateNeighbors(&agents, Vec2::new(100_000, 100_000), 5_000);
    assert_eq!(space.m_Neighbors, vec![0]);
    space.CalculateNeighbors(&agents, Vec2::new(100_000, 100_000), 5_001);
    assert_eq!(space.m_Neighbors, vec![0, 1]);
    space.CalculateNeighbors(&agents, Vec2::new(100_000, 100_000), 5_002);
    assert_eq!(space.m_Neighbors, vec![0, 1, 2]);
}

#[test]
fn each_query_replaces_the_neighbours() {
    let agents = vec![agent(0, 10_000, 10_000), agent(1, 590_000, 590_000)];
    let mut space = grid();
    for (i, a) in agents.iter().enumerate() {
        space.add_entity(i, a.position);
    }
    space.CalculateNeighbors(&agents, Vec2::new(10_000, 10_000), 1_000);
    assert_eq!(space.m_Neighbors, vec![0]);
    space.CalculateNeighbors(&agents, Vec2::new(590_000, 590_000), 1_000);
    assert_eq!(space.m_Neighbors, vec![1]);
    space.CalculateNeighbors(&agents, Vec2::new(300_000, 300_000), 1_000);
    assert!(space.m_Neighbors.is_empty());
    space.CalculateNeighbors(&agents, Vec2::new(300_000, 300_000), 1_000_000);
    assert_eq!(space.m_Neighbors, vec![0, 1]);
}

#[test]
fn a_radius_of_zero_or_less_finds_nobody() {
    let agents = vec![agent(0, 10_000, 10_000), agent(1, 10_000, 10_001)];
    let mut space = grid();
    for (i, a) in agents.iter().enumerate() {
        space.add_entity(i, a.position);
    }
    space.CalculateNeighbors(&agents, Vec2::new(10_000, 10_000), 10);
    assert_eq!(space.m_Neighbors.len(), 2);
    space.CalculateNeighbors(&agents, Vec2::new(10_000, 10_000), 0);
    assert!(space.m_Neighbors.is_empty());
    space.CalculateNeighbors(&agents, Vec2::new(10_000, 10_000), 10);
    space.CalculateNeighbors(&agents, Vec2::new(10_000, 10_000), -5_000);
    assert!(space.m_Neighbors.is_empty());
    space.CalculateNeighbors(&agents, Vec2::new(10_000, 10_000), i64::MIN);
    assert!(space.m_Neighbors.is_empty());
}
