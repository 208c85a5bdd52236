use eaststar::pipes::{
    directions_vec, inside_grid, legal_directions, pipe_shapes, suggested_max_pipes, GridVec,
    JointKind, Pipe, PipeSegment, PipeShape, PipeWorld,
};
use std::collections::HashSet;

fn v(x: i32, y: i32, z: i32) -> GridVec {
    GridVec { x, y, z }
}

fn key(p: GridVec) -> u128 {
    ((p.x as u128) << 64) + ((p.y as u128) << 32) + p.z as u128
}

fn check_world(world: &PipeWorld) {
    let mut seen = HashSet::new();
    assert!(world.pipes.len() <= world.max_pipes);
    for pipe in &world.pipes {
        assert!(inside_grid(pipe.pos, world.size));
        let mut cells = Vec::new();
        if let Some(first) = pipe.segments.first() {
            cells.push(first.from);
            assert_eq!(first.joint, JointKind::Start);
        } else {
            cells.push(pipe.pos);
        }
        for (i, seg) in pipe.segments.iter().enumerate() {
            let step = v(seg.to.x - seg.from.x, seg.to.y - seg.from.y, seg.to.z - seg.from.z);
            assert_eq!(step, seg.dir);
            assert_eq!(seg.dir.x.abs() + seg.dir.y.abs() + seg.dir.z.abs(), 1);
            assert_eq!(seg.color_index, pipe.color_index);
            if i > 0 {
                let prev = pipe.segments[i - 1];
                assert_eq!(prev.to, seg.from);
                assert_ne!(seg.dir, v(-prev.dir.x, -prev.dir.y, -prev.dir.z));
                let expected = if seg.dir == prev.dir { JointKind::Straight } else { JointKind::Turn };
                assert_eq!(seg.joint, expected);
            }
            cells.push(seg.to);
        }
        if let Some(last) = pipe.segments.last() {
            assert_eq!(last.to, pipe.pos);
            assert_eq!(last.dir, pipe.dir);
        }
        assert!(pipe.color_index < 6);
        for c in cells {
            assert!(inside_grid(c, world.size));
            assert!(world.occupied.contains(&key(c)));
            assert!(seen.insert(c), "cell {:?} covered twice", c);
        }
    }
}

#[test]
fn suggested_max_pipes_values() {
    assert_eq!(suggested_max_pipes(v(24, 16, 12)), 8);
    assert_eq!(suggested_max_pipes(v(28, 18, 12)), 9);
    assert_eq!(suggested_max_pipes(v(1, 1, 1)), 6);
    assert_eq!(suggested_max_pipes(v(42, 30, 22)), 12);
    assert_eq!(suggested_max_pipes(v(-50, 0, 0)), 6);
}

#[test]
fn inside_grid_edges() {
    assert!(inside_grid(v(0, 0, 0), v(2, 2, 2)));
    assert!(inside_grid(v(1, 1, 1), v(2, 2, 2)));
    assert!(!inside_grid(v(2, 0, 0), v(2, 2, 2)));
    assert!(!inside_grid(v(0, -1, 0), v(2, 2, 2)));
}

#[test]
fn directions_in_order() {
    assert_eq!(
        directions_vec(),
        vec![v(1, 0, 0), v(-1, 0, 0), v(0, 1, 0), v(0, -1, 0), v(0, 0, 1), v(0, 0, -1)]
    );
}

#[test]
fn legal_directions_exclude_back_walls_and_occupied() {
    let size = v(3, 3, 3);
    let mut occupied = HashSet::new();
    assert_eq!(
        legal_directions(size, &occupied, v(1, 1, 1), v(1, 0, 0)),
        vec![v(1, 0, 0), v(0, 1, 0), v(0, -1, 0), v(0, 0, 1), v(0, 0, -1)]
    );
    occupied.insert(key(v(1, 2, 1)));
    assert_eq!(
        legal_directions(size, &occupied, v(0, 1, 1), v(0, 1, 0)),
        vec![v(1, 0, 0), v(0, 1, 0), v(0, 0, 1), v(0, 0, -1)]
    );
    assert_eq!(
        legal_directions(size, &occupied, v(1, 1, 1), v(0, -1, 0)),
        vec![v(1, 0, 0), v(-1, 0, 0), v(0, -1, 0), v(0, 0, 1), v(0, 0, -1)]
    );
    assert_eq!(legal_directions(v(1, 1, 1), &HashSet::new(), v(0, 0, 0), v(1, 0, 0)), vec![]);
}

#[test]
fn grow_and_die_by_hand() {
    let mut world = PipeWorld::new(v(2, 1, 1), 1);
    world.occupied.insert(key(v(0, 0, 0)));
    world.pipes.push(Pipe { pos: v(0, 0, 0), dir: v(1, 0, 0), segments: Vec::new(), alive: true, color_index: 2 });
    world.grow_pipe(0, v(1, 0, 0));
    assert_eq!(world.pipes[0].pos, v(1, 0, 0));
    assert_eq!(
        world.pipes[0].segments,
        vec![PipeSegment { from: v(0, 0, 0), to: v(1, 0, 0), dir: v(1, 0, 0), joint: JointKind::Start, color_index: 2 }]
    );
    check_world(&world);
    // The only neighbour is behind it, so the next step kills it.
    world.advance_pipe(0);
    assert!(!world.pipes[0].alive);
    assert_eq!(world.pipes[0].segments.len(), 1);
    // A dead pipe stays as it is.
    world.advance_pipe(0);
    assert_eq!(world.pipes[0].segments.len(), 1);
    assert_eq!(world.occupied.len(), 2);
}

#[test]
fn updates_keep_the_world_well_formed() {
    let mut world = PipeWorld::new(v(6, 5, 4), 4);
    for _ in 0..3000 {
        let before: Vec<usize> = world.pipes.iter().map(|p| p.segments.len()).collect();
        let dead: Vec<bool> = world.pipes.iter().map(|p| !p.alive).collect();
        let occupied_before = world.occupied.clone();
        world.update();
        let mut expected = occupied_before.clone();
        if world.pipes.len() > before.len() {
            let fresh = &world.pipes[before.len()];
            assert!(fresh.segments.len() == 1 || (!fresh.alive && fresh.segments.is_empty()));
            let start = fresh.segments.first().map(|s| s.from).unwrap_or(fresh.pos);
            assert!(!occupied_before.contains(&key(start)));
            expected.insert(key(start));
        }
        for pipe in world.pipes.iter().filter(|p| p.alive) {
            expected.insert(key(pipe.pos));
        }
        assert_eq!(world.occupied, expected);
        for (i, pipe) in world.pipes.iter().enumerate().take(before.len()) {
            if dead[i] {
                assert_eq!(pipe.segments.len(), before[i]);
                assert!(!pipe.alive);
            } else if pipe.alive {
                assert_eq!(pipe.segments.len(), before[i] + 1);
            } else {
                assert_eq!(pipe.segments.len(), before[i]);
            }
        }
        assert!(world.pipes.len() <= before.len() + 1);
        check_world(&world);
    }
    assert!(!world.pipes.is_empty());
    assert!(world.pipes.iter().all(|p| !p.alive));
}

#[test]
fn full_world_never_spawns() {
    let mut world = PipeWorld::new(v(1, 1, 1), 3);
    for _ in 0..2000 {
        world.update();
        check_world(&world);
    }
    assert_eq!(world.pipes.len(), 1);
    assert!(!world.pipes[0].alive);
}

fn seg(from: GridVec, to: GridVec, joint: JointKind) -> PipeSegment {
    PipeSegment { from, to, dir: v(to.x - from.x, to.y - from.y, to.z - from.z), joint, color_index: 0 }
}

#[test]
fn shapes_merge_straight_runs() {
    let pipe = Pipe {
        pos: v(2, 1, 0),
        dir: v(0, 1, 0),
        segments: vec![
            seg(v(0, 0, 0), v(1, 0, 0), JointKind::Start),
            seg(v(1, 0, 0), v(2, 0, 0), JointKind::Straight),
            seg(v(2, 0, 0), v(2, 1, 0), JointKind::Turn),
        ],
        alive: true,
        color_index: 0,
    };
    assert_eq!(
        pipe_shapes(&pipe),
        vec![
            PipeShape::Segment { start: v(0, 0, 0), end: v(2, 0, 0) },
            PipeShape::Joint { center: v(0, 0, 0) },
            PipeShape::Segment { start: v(2, 0, 0), end: v(2, 1, 0) },
            PipeShape::Joint { center: v(2, 0, 0) },
        ]
    );
}

#[test]
fn shapes_cap_dead_pipes_and_skip_empty() {
    let mut pipe = Pipe {
        pos: v(0, 1, 0),
        dir: v(0, 1, 0),
        segments: vec![seg(v(0, 0, 0), v(0, 1, 0), JointKind::Start)],
        alive: false,
        color_index: 0,
    };
    assert_eq!(
        pipe_shapes(&pipe),
        vec![
            PipeShape::Segment { start: v(0, 0, 0), end: v(0, 1, 0) },
            PipeShape::Joint { center: v(0, 0, 0) },
            PipeShape::Joint { center: v(0, 1, 0) },
        ]
    );
    pipe.segments.clear();
    assert_eq!(pipe_shapes(&pipe), vec![]);
}

#[test]
fn shapes_end_joint_and_broken_runs() {
    let pipe = Pipe {
        pos: v(3, 0, 0),
        dir: v(1, 0, 0),
        segments: vec![
            seg(v(0, 0, 0), v(1, 0, 0), JointKind::End),
            seg(v(1, 0, 0), v(2, 0, 0), JointKind::Straight),
            seg(v(5, 0, 0), v(6, 0, 0), JointKind::Straight),
        ],
        alive: true,
        color_index: 0,
    };
    assert_eq!(
        pipe_shapes(&pipe),
        vec![
            PipeShape::Segment { start: v(0, 0, 0), end: v(2, 0, 0) },
            PipeShape::Joint { center: v(2, 0, 0) },
            PipeShape::Segment { start: v(5, 0, 0), end: v(6, 0, 0) },
        ]
    );
}

#[test]
fn all_pipes_dead_needs_pipes() {
    let mut world = PipeWorld::new(v(2, 2, 2), 2);
    assert!(!world.all_pipes_dead());
    world.occupied.insert(key(v(0, 0, 0)));
    world.pipes.push(Pipe { pos: v(0, 0, 0), dir: v(1, 0, 0), segments: Vec::new(), alive: true, color_index: 0 });
    assert!(!world.all_pipes_dead());
    world.pipes[0].alive = false;
    assert!(world.all_pipes_dead());
}

#[test]
fn earlier_pipes_take_their_turn_first() {
    // Two pipes face the one free cell between them; the first one takes it
    // and the second, with no move left at its turn, dies.
    let mut world = PipeWorld::new(v(3, 1, 1), 2);
    world.occupied.insert(key(v(0, 0, 0)));
    world.occupied.insert(key(v(2, 0, 0)));
    world.pipes.push(Pipe { pos: v(0, 0, 0), dir: v(1, 0, 0), segments: Vec::new(), alive: true, color_index: 0 });
    world.pipes.push(Pipe { pos: v(2, 0, 0), dir: v(-1, 0, 0), segments: Vec::new(), alive: true, color_index: 1 });
    world.update();
    assert_eq!(world.pipes.len(), 2);
    assert!(world.pipes[0].alive);
    assert_eq!(world.pipes[0].pos, v(1, 0, 0));
    assert_eq!(
        world.pipes[0].segments,
        vec![PipeSegment { from: v(0, 0, 0), to: v(1, 0, 0), dir: v(1, 0, 0), joint: JointKind::Start, color_index: 0 }]
    );
    assert!(!world.pipes[1].alive);
    assert!(world.pipes[1].segments.is_empty());
    assert_eq!(world.pipes[1].pos, v(2, 0, 0));
    let expected: HashSet<u128> = [key(v(0, 0, 0)), key(v(1, 0, 0)), key(v(2, 0, 0))].into_iter().collect();
    assert_eq!(world.occupied, expected);
    check_world(&world);
}

#[test]
fn spawn_pipe_at_free_and_taken_cells() {
    let mut world = PipeWorld::new(v(3, 3, 3), 2);
    assert!(world.spawn_pipe_at(v(1, 2, 0), v(0, 0, 1), 4));
    assert_eq!(world.pipes.len(), 1);
    let pipe = &world.pipes[0];
    assert_eq!(pipe.pos, v(1, 2, 0));
    assert_eq!(pipe.dir, v(0, 0, 1));
    assert!(pipe.segments.is_empty());
    assert!(pipe.alive);
    assert_eq!(pipe.color_index, 4);
    let expected: HashSet<u128> = [key(v(1, 2, 0))].into_iter().collect();
    assert_eq!(world.occupied, expected);
    // The same cell is taken now: nothing changes.
    assert!(!world.spawn_pipe_at(v(1, 2, 0), v(1, 0, 0), 0));
    assert_eq!(world.pipes.len(), 1);
    assert_eq!(world.occupied, expected);
    check_world(&world);
}

#[test]
fn update_with_spawns_then_grows_the_new_pipe() {
    let mut world = PipeWorld::new(v(2, 1, 1), 1);
    world.update_with(Some((v(0, 0, 0), v(1, 0, 0), 5)));
    assert_eq!(world.pipes.len(), 1);
    let pipe = &world.pipes[0];
    assert!(pipe.alive);
    assert_eq!(pipe.pos, v(1, 0, 0));
    assert_eq!(
        pipe.segments,
        vec![PipeSegment { from: v(0, 0, 0), to: v(1, 0, 0), dir: v(1, 0, 0), joint: JointKind::Start, color_index: 5 }]
    );
    let expected: HashSet<u128> = [key(v(0, 0, 0)), key(v(1, 0, 0))].into_iter().collect();
    assert_eq!(world.occupied, expected);
    // No room for a second pipe: the offer is ignored and the pipe dies.
    world.update_with(Some((v(0, 0, 0), v(1, 0, 0), 0)));
    assert_eq!(world.pipes.len(), 1);
    assert!(!world.pipes[0].alive);
    assert_eq!(world.occupied, expected);
    check_world(&world);
}

#[test]
fn update_with_new_pipe_without_moves_dies_at_once() {
    let mut world = PipeWorld::new(v(1, 1, 1), 3);
    world.update_with(Some((v(0, 0, 0), v(0, 1, 0), 1)));
    assert_eq!(world.pipes.len(), 1);
    assert!(!world.pipes[0].alive);
    assert!(world.pipes[0].segments.is_empty());
    assert_eq!(world.pipes[0].pos, v(0, 0, 0));
    let expected: HashSet<u128> = [key(v(0, 0, 0))].into_iter().collect();
    assert_eq!(world.occupied, expected);
    // A taken start cell spawns nothing.
    world.update_with(Some((v(0, 0, 0), v(1, 0, 0), 2)));
    assert_eq!(world.pipes.len(), 1);
    world.update_with(None);
    assert_eq!(world.pipes.len(), 1);
    check_world(&world);
}
