//! The Pipes effect's world: pipes grow one grid cell at a time through a
//! bounded 3-D grid, never entering a cell that any pipe already occupies,
//! never reversing, and dying when no move is left.

use vstd::prelude::*;
use std::collections::HashSet;
use crate::random::{choose_direction, random_below, random_ratio};

verus! {

broadcast use vstd::std_specs::hash::group_hash_axioms;

/// The number of colours a pipe can be drawn in.
pub const PIPE_PALETTE_LEN: usize = 6;

/// Each update spawns a pipe with this chance in a hundred, while there is room.
pub const PIPE_SPAWN_PERCENT: u32 = 3;

/// How many random cells are tried when looking for an empty start cell.
pub const EMPTY_CELL_ATTEMPTS: u32 = 2000;

/// A grid position or a step between grid positions.
#[derive(Debug, Clone, Copy, PartialEq, Eq, Hash, Structural)]
pub struct GridVec {
    pub x: i32,
    pub y: i32,
    pub z: i32,
}

pub open spec fn grid_vec(x: int, y: int, z: int) -> GridVec {
    GridVec { x: x as i32, y: y as i32, z: z as i32 }
}

/// The six unit steps, in the order moves are considered.
pub open spec fn directions() -> Seq<GridVec> {
    seq![
        grid_vec(1, 0, 0),
        grid_vec(-1, 0, 0),
        grid_vec(0, 1, 0),
        grid_vec(0, -1, 0),
        grid_vec(0, 0, 1),
        grid_vec(0, 0, -1),
    ]
}

pub open spec fn is_direction(d: GridVec) -> bool {
    ||| d == grid_vec(1, 0, 0)
    ||| d == grid_vec(-1, 0, 0)
    ||| d == grid_vec(0, 1, 0)
    ||| d == grid_vec(0, -1, 0)
    ||| d == grid_vec(0, 0, 1)
    ||| d == grid_vec(0, 0, -1)
}

pub open spec fn neg(d: GridVec) -> GridVec {
    grid_vec(-d.x, -d.y, -d.z)
}

pub open spec fn offset(p: GridVec, d: GridVec) -> GridVec {
    grid_vec(p.x + d.x, p.y + d.y, p.z + d.z)
}

pub open spec fn inside_grid_spec(p: GridVec, size: GridVec) -> bool {
    0 <= p.x < size.x && 0 <= p.y < size.y && 0 <= p.z < size.z
}

pub open spec fn size_positive(size: GridVec) -> bool {
    0 < size.x && 0 < size.y && 0 < size.z
}

/// The key a grid cell is recorded under in the occupied set.
pub open spec fn cell_key(p: GridVec) -> u128 {
    (p.x * 0x1_0000_0000_0000_0000 + p.y * 0x1_0000_0000 + p.z) as u128
}

/// Whether a pipe at `pos` heading along `current` may step along `d`.
pub open spec fn is_legal_move(
    size: GridVec,
    occupied: Set<u128>,
    pos: GridVec,
    current: GridVec,
    d: GridVec,
) -> bool {
    &&& d != neg(current)
    &&& inside_grid_spec(offset(pos, d), size)
    &&& !occupied.contains(cell_key(offset(pos, d)))
}

/// The legal moves among `ds`, in order.
pub open spec fn keep_legal(
    ds: Seq<GridVec>,
    size: GridVec,
    occupied: Set<u128>,
    pos: GridVec,
    current: GridVec,
) -> Seq<GridVec>
    decreases ds.len(),
{
    if ds.len() == 0 {
        ds
    } else {
        let rest = keep_legal(ds.drop_last(), size, occupied, pos, current);
        if is_legal_move(size, occupied, pos, current, ds.last()) {
            rest.push(ds.last())
        } else {
            rest
        }
    }
}

/// The directions a pipe at `pos` heading along `current` may take next.
pub open spec fn legal_directions_spec(
    size: GridVec,
    occupied: Set<u128>,
    pos: GridVec,
    current: GridVec,
) -> Seq<GridVec> {
    keep_legal(directions(), size, occupied, pos, current)
}

#[derive(Debug, Clone, Copy, PartialEq, Eq, Structural)]
pub enum JointKind {
    Start,
    Straight,
    Turn,
    End,
}

/// The joint between a segment heading along `previous` and one along `next`.
pub open spec fn joint_for(previous: GridVec, next: GridVec) -> JointKind {
    if next == previous {
        JointKind::Straight
    } else {
        JointKind::Turn
    }
}

/// One unit step of a pipe.
#[derive(Debug, Clone, Copy, PartialEq, Eq, Structural)]
pub struct PipeSegment {
    pub from: GridVec,
    pub to: GridVec,
    pub dir: GridVec,
    pub joint: JointKind,
    pub color_index: usize,
}

#[derive(Debug)]
pub struct Pipe {
    pub pos: GridVec,
    pub dir: GridVec,
    pub segments: Vec<PipeSegment>,
    pub alive: bool,
    pub color_index: usize,
}

/// The cells a pipe covers, from its start cell to its head.
pub open spec fn pipe_cells(p: Pipe) -> Seq<GridVec> {
    if p.segments@.len() == 0 {
        seq![p.pos]
    } else {
        seq![p.segments@[0].from] + p.segments@.map_values(|s: PipeSegment| s.to)
    }
}

pub open spec fn segment_wf(segs: Seq<PipeSegment>, i: int, color: usize) -> bool {
    let s = segs[i];
    &&& is_direction(s.dir)
    &&& s.to == offset(s.from, s.dir)
    &&& s.color_index == color
    &&& (i == 0 ==> s.joint == JointKind::Start)
    &&& (i > 0 ==> {
        &&& s.from == segs[i - 1].to
        &&& s.dir != neg(segs[i - 1].dir)
        &&& s.joint == joint_for(segs[i - 1].dir, s.dir)
    })
}

/// A pipe is a chain of unit steps that starts with a `Start` joint, never
/// reverses, marks each later step `Straight` or `Turn`, ends at the pipe's
/// head, stays inside the grid and never visits a cell twice.
pub open spec fn pipe_wf(p: Pipe, size: GridVec) -> bool {
    let segs = p.segments@;
    &&& is_direction(p.dir)
    &&& p.color_index < PIPE_PALETTE_LEN
    &&& inside_grid_spec(p.pos, size)
    &&& forall|i: int| 0 <= i < segs.len() ==> #[trigger] segment_wf(segs, i, p.color_index)
    &&& (segs.len() > 0 ==> segs.last().to == p.pos && segs.last().dir == p.dir)
    &&& pipe_cells(p).no_duplicates()
    &&& forall|k: int|
        0 <= k < pipe_cells(p).len() ==> inside_grid_spec(#[trigger] pipe_cells(p)[k], size)
}

pub struct PipeWorld {
    pub size: GridVec,
    pub occupied: HashSet<u128>,
    pub pipes: Vec<Pipe>,
    pub max_pipes: usize,
}

/// The step a pipe at `p` takes along `d`.
pub open spec fn next_segment(p: Pipe, d: GridVec) -> PipeSegment {
    PipeSegment {
        from: p.pos,
        to: offset(p.pos, d),
        dir: d,
        joint: if p.segments@.len() == 0 {
            JointKind::Start
        } else {
            joint_for(p.dir, d)
        },
        color_index: p.color_index,
    }
}

/// `new` is `old` grown by one step along `d`.
pub open spec fn pipe_grew(old: Pipe, new: Pipe, d: GridVec) -> bool {
    &&& new.segments@ == old.segments@.push(next_segment(old, d))
    &&& new.pos == offset(old.pos, d)
    &&& new.dir == d
    &&& new.alive
    &&& new.color_index == old.color_index
}

/// `new` is `old` marked dead, otherwise unchanged.
pub open spec fn pipe_died(old: Pipe, new: Pipe) -> bool {
    &&& new.segments@ == old.segments@
    &&& new.pos == old.pos
    &&& new.dir == old.dir
    &&& !new.alive
    &&& new.color_index == old.color_index
}

pub open spec fn same_pipe(a: Pipe, b: Pipe) -> bool {
    &&& a.segments@ == b.segments@
    &&& a.pos == b.pos
    &&& a.dir == b.dir
    &&& a.alive == b.alive
    &&& a.color_index == b.color_index
}

/// A pipe just placed at a free cell, with no segments yet.
pub open spec fn fresh_pipe(p: Pipe, size: GridVec, occupied_before: Set<u128>) -> bool {
    &&& p.segments@.len() == 0
    &&& p.alive
    &&& inside_grid_spec(p.pos, size)
    &&& !occupied_before.contains(cell_key(p.pos))
    &&& is_direction(p.dir)
    &&& p.color_index < PIPE_PALETTE_LEN
}

/// `p` is a pipe just placed at `start`, heading along `dir`, in colour
/// `color_index`, alive and with no segments yet.
pub open spec fn new_pipe_at(p: Pipe, start: GridVec, dir: GridVec, color_index: usize) -> bool {
    &&& p.pos == start
    &&& p.dir == dir
    &&& p.segments@.len() == 0
    &&& p.alive
    &&& p.color_index == color_index
}

/// Whether an update offered `spawn` (start cell, direction, colour) starts
/// a pipe: when one is offered, there is room for another pipe and the start
/// cell is free.
pub open spec fn spawn_happens(
    pipes_len: int,
    max_pipes: int,
    occupied: Set<u128>,
    spawn: Option<(GridVec, GridVec, usize)>,
) -> bool {
    match spawn {
        Some((start, _, _)) => pipes_len < max_pipes && !occupied.contains(cell_key(start)),
        None => false,
    }
}

/// The start cell of an offered spawn.
pub open spec fn spawn_start(spawn: Option<(GridVec, GridVec, usize)>) -> GridVec {
    match spawn {
        Some((start, _, _)) => start,
        None => grid_vec(0, 0, 0),
    }
}

/// `p` is the pipe that the offered spawn describes, just placed.
pub open spec fn spawned_pipe(p: Pipe, spawn: Option<(GridVec, GridVec, usize)>) -> bool {
    match spawn {
        Some((start, dir, color_index)) => new_pipe_at(p, start, dir, color_index),
        None => false,
    }
}

/// What an update may be offered to spawn: a cell inside the grid, a unit
/// step and a palette colour.
pub open spec fn spawn_valid(size: GridVec, spawn: Option<(GridVec, GridVec, usize)>) -> bool {
    match spawn {
        Some((start, dir, color_index)) => inside_grid_spec(start, size) && is_direction(dir)
            && color_index < PIPE_PALETTE_LEN,
        None => true,
    }
}

/// What one update does to a pipe, judged against the cells occupied when
/// its turn comes: a dead pipe stays as it is; a living pipe with no legal
/// move dies; a living pipe with a legal move grows one step along one.
pub open spec fn pipe_advanced(old: Pipe, new: Pipe, size: GridVec, occupied: Set<u128>) -> bool {
    if !old.alive {
        same_pipe(old, new)
    } else if legal_directions_spec(size, occupied, old.pos, old.dir).len() == 0 {
        pipe_died(old, new)
    } else {
        &&& legal_directions_spec(size, occupied, old.pos, old.dir).contains(new.dir)
        &&& pipe_grew(old, new, new.dir)
    }
}

/// The head cells of the living pipes among the first `n` of `pipes`.
pub open spec fn living_heads(pipes: Seq<Pipe>, n: int) -> Set<u128>
    decreases n,
{
    if n <= 0 {
        Set::empty()
    } else {
        let rest = living_heads(pipes, n - 1);
        if pipes[n - 1].alive {
            rest.insert(cell_key(pipes[n - 1].pos))
        } else {
            rest
        }
    }
}

/// The cells occupied once an update has made its spawn: `occupied`, with the
/// start cell of the pipe at index `old_len` when the update added one.
pub open spec fn spawn_occupied(occupied: Set<u128>, old_len: int, pipes: Seq<Pipe>) -> Set<u128> {
    if pipes.len() > old_len {
        occupied.insert(cell_key(pipe_cells(pipes[old_len])[0]))
    } else {
        occupied
    }
}

/// The cells occupied when the pipe at index `i` takes its turn in an update
/// that started from `occupied` with `old_len` pipes and left `pipes`: the
/// cells occupied before, the spawned pipe's start cell, and the new heads of
/// the pipes before `i` that grew (a pipe still living after the update grew).
pub open spec fn occupied_at_turn(
    occupied: Set<u128>,
    old_len: int,
    pipes: Seq<Pipe>,
    i: int,
) -> Set<u128> {
    spawn_occupied(occupied, old_len, pipes).union(living_heads(pipes, i))
}

impl PipeWorld {
    /// The world's invariant: every pipe is well formed, every cell a pipe
    /// covers is recorded as occupied, no two pipes share a cell, and there
    /// are at most `max_pipes` pipes.
    pub open spec fn wf(&self) -> bool {
        let pipes = self.pipes@;
        &&& self.occupied@.finite()
        &&& pipes.len() <= self.max_pipes
        &&& forall|i: int| 0 <= i < pipes.len() ==> pipe_wf(#[trigger] pipes[i], self.size)
        &&& forall|i: int, k: int|
            0 <= i < pipes.len() && 0 <= k < pipe_cells(pipes[i]).len() ==> self.occupied@.contains(
                cell_key(#[trigger] pipe_cells(pipes[i])[k]),
            )
        &&& forall|i: int, j: int, k: int, l: int|
            0 <= i < pipes.len() && 0 <= j < pipes.len() && i != j && 0 <= k < pipe_cells(
                pipes[i],
            ).len() && 0 <= l < pipe_cells(pipes[j]).len() ==> #[trigger] pipe_cells(pipes[i])[k]
                != #[trigger] pipe_cells(pipes[j])[l]
    }

    pub open spec fn is_occupied(&self, p: GridVec) -> bool {
        self.occupied@.contains(cell_key(p))
    }
}

pub fn directions_vec() -> (v: Vec<GridVec>)
    ensures
        v@ == directions(),
{
    let v = vec![
        GridVec { x: 1, y: 0, z: 0 },
        GridVec { x: -1, y: 0, z: 0 },
        GridVec { x: 0, y: 1, z: 0 },
        GridVec { x: 0, y: -1, z: 0 },
        GridVec { x: 0, y: 0, z: 1 },
        GridVec { x: 0, y: 0, z: -1 },
    ];
    assert(v@ =~= directions());
    v
}

pub fn inside_grid(point: GridVec, size: GridVec) -> (inside: bool)
    ensures
        inside == inside_grid_spec(point, size),
{
    point.x >= 0 && point.y >= 0 && point.z >= 0 && point.x < size.x && point.y < size.y
        && point.z < size.z
}

fn step(p: GridVec, d: GridVec, size: GridVec) -> (q: GridVec)
    requires
        inside_grid_spec(p, size),
        is_direction(d),
    ensures
        q == offset(p, d),
{
    GridVec { x: p.x + d.x, y: p.y + d.y, z: p.z + d.z }
}

fn key_of(p: GridVec, size: GridVec) -> (key: u128)
    requires
        inside_grid_spec(p, size),
    ensures
        key == cell_key(p),
{
    (p.x as u128) * 0x1_0000_0000_0000_0000u128 + (p.y as u128) * 0x1_0000_0000u128 + (p.z as u128)
}

fn opposite(d: GridVec) -> (r: GridVec)
    requires
        is_direction(d),
    ensures
        r == neg(d),
{
    GridVec { x: -d.x, y: -d.y, z: -d.z }
}

/// The directions a pipe at `pos` heading along `current_dir` may take next:
/// not straight back, staying inside the grid, into a cell not yet occupied.
pub fn legal_directions(
    size: GridVec,
    occupied: &HashSet<u128>,
    pos: GridVec,
    current_dir: GridVec,
) -> (dirs: Vec<GridVec>)
    requires
        inside_grid_spec(pos, size),
        is_direction(current_dir),
    ensures
        dirs@ == legal_directions_spec(size, occupied@, pos, current_dir),
{
    let all = directions_vec();
    let back = opposite(current_dir);
    let mut dirs: Vec<GridVec> = Vec::new();
    let mut i: usize = 0;
    while i < all.len()
        invariant
            all@ == directions(),
            back == neg(current_dir),
            inside_grid_spec(pos, size),
            0 <= i <= all@.len(),
            dirs@ == keep_legal(all@.take(i as int), size, occupied@, pos, current_dir),
        decreases all@.len() - i,
    {
        let dir = all[i];
        assert(all@.take(i + 1).drop_last() == all@.take(i as int));
        assert(all@.take(i + 1).last() == dir);
        if dir != back {
            let next = step(pos, dir, size);
            if inside_grid(next, size) {
                let key = key_of(next, size);
                if !occupied.contains(&key) {
                    dirs.push(dir);
                }
            }
        }
        i += 1;
    }
    assert(all@.take(all@.len() as int) == all@);
    dirs
}


/// The legal moves among `ds` are exactly the elements of `ds` that are legal.
pub proof fn lemma_keep_legal(
    ds: Seq<GridVec>,
    size: GridVec,
    occupied: Set<u128>,
    pos: GridVec,
    current: GridVec,
)
    ensures
        forall|d: GridVec|
            #[trigger] keep_legal(ds, size, occupied, pos, current).contains(d) <==> ds.contains(d)
                && is_legal_move(size, occupied, pos, current, d),
    decreases ds.len(),
{
    if ds.len() > 0 {
        let init = ds.drop_last();
        lemma_keep_legal(init, size, occupied, pos, current);
        let rest = keep_legal(init, size, occupied, pos, current);
        assert forall|d: GridVec|
            #[trigger] keep_legal(ds, size, occupied, pos, current).contains(d) <==> ds.contains(d)
                && is_legal_move(size, occupied, pos, current, d) by {
            assert(ds == init.push(ds.last()));
            if ds.contains(d) && d != ds.last() {
                let k = choose|k: int| 0 <= k < ds.len() && ds[k] == d;
                assert(init[k] == d);
            }
            if init.contains(d) {
                let k = choose|k: int| 0 <= k < init.len() && init[k] == d;
                assert(ds[k] == d);
            }
            if is_legal_move(size, occupied, pos, current, ds.last()) {
                assert(rest.push(ds.last())[rest.len() as int] == ds.last());
                if rest.push(ds.last()).contains(d) && d != ds.last() {
                    let k = choose|k: int| 0 <= k < rest.len() + 1 && rest.push(ds.last())[k] == d;
                    assert(rest[k] == d);
                }
                if rest.contains(d) {
                    let k = choose|k: int| 0 <= k < rest.len() && rest[k] == d;
                    assert(rest.push(ds.last())[k] == d);
                }
            }
        }
    }
}

/// Every direction is one of the six unit steps and the legal moves are
/// exactly the unit steps that are legal.
pub proof fn lemma_legal_directions(
    size: GridVec,
    occupied: Set<u128>,
    pos: GridVec,
    current: GridVec,
)
    ensures
        forall|d: GridVec|
            #[trigger] legal_directions_spec(size, occupied, pos, current).contains(d)
                <==> is_direction(d) && is_legal_move(size, occupied, pos, current, d),
{
    lemma_keep_legal(directions(), size, occupied, pos, current);
    assert forall|d: GridVec| directions().contains(d) <==> is_direction(d) by {
        if is_direction(d) {
            if d == grid_vec(1, 0, 0) {
                assert(directions()[0] == d);
            } else if d == grid_vec(-1, 0, 0) {
                assert(directions()[1] == d);
            } else if d == grid_vec(0, 1, 0) {
                assert(directions()[2] == d);
            } else if d == grid_vec(0, -1, 0) {
                assert(directions()[3] == d);
            } else if d == grid_vec(0, 0, 1) {
                assert(directions()[4] == d);
            } else {
                assert(directions()[5] == d);
            }
        }
    }
}

/// Growing a pipe adds its new head cell to the end of its cells.
pub proof fn lemma_grown_cells(old: Pipe, new: Pipe, d: GridVec)
    requires
        pipe_grew(old, new, d),
    ensures
        pipe_cells(new) == pipe_cells(old).push(offset(old.pos, d)),
{
    let seg = next_segment(old, d);
    assert(new.segments@[0] == if old.segments@.len() == 0 {
        seg
    } else {
        old.segments@[0]
    });
    assert(new.segments@.map_values(|s: PipeSegment| s.to) =~= old.segments@.map_values(
        |s: PipeSegment| s.to,
    ).push(seg.to));
    if old.segments@.len() == 0 {
        assert(old.segments@.map_values(|s: PipeSegment| s.to) =~= Seq::<GridVec>::empty());
    }
    assert(pipe_cells(new) =~= pipe_cells(old).push(offset(old.pos, d)));
}

impl Pipe {
    fn placeholder() -> (p: Pipe) {
        Pipe {
            pos: GridVec { x: 0, y: 0, z: 0 },
            dir: GridVec { x: 1, y: 0, z: 0 },
            segments: Vec::new(),
            alive: false,
            color_index: 0,
        }
    }
}

impl PipeWorld {
    /// An empty world of the given size that allows `max_pipes` pipes.
    pub fn new(size: GridVec, max_pipes: usize) -> (world: PipeWorld)
        ensures
            world.wf(),
            world.size == size,
            world.max_pipes == max_pipes,
            world.pipes@.len() == 0,
            world.occupied@ == Set::<u128>::empty(),
    {
        PipeWorld { size, occupied: HashSet::new(), pipes: Vec::new(), max_pipes }
    }

    /// Grows the living pipe at `index` one step along the legal direction `new_dir`.
    pub fn grow_pipe(&mut self, index: usize, new_dir: GridVec)
        requires
            old(self).wf(),
            index < old(self).pipes@.len(),
            old(self).pipes@[index as int].alive,
            is_direction(new_dir),
            is_legal_move(
                old(self).size,
                old(self).occupied@,
                old(self).pipes@[index as int].pos,
                old(self).pipes@[index as int].dir,
                new_dir,
            ),
        ensures
            final(self).wf(),
            final(self).size == old(self).size,
            final(self).max_pipes == old(self).max_pipes,
            final(self).occupied@ == old(self).occupied@.insert(
                cell_key(offset(old(self).pipes@[index as int].pos, new_dir)),
            ),
            final(self).pipes@.len() == old(self).pipes@.len(),
            pipe_grew(old(self).pipes@[index as int], final(self).pipes@[index as int], new_dir),
            forall|j: int|
                0 <= j < old(self).pipes@.len() && j != index ==> final(self).pipes@[j] == old(
                    self,
                ).pipes@[j],
    {
        let ghost old_pipes = self.pipes@;
        let ghost old_occ = self.occupied@;
        let ghost size = self.size;
        let ghost old_pipe = self.pipes@[index as int];
        let mut pipe = Pipe::placeholder();
        self.pipes.set_and_swap(index, &mut pipe);
        assert(pipe == old_pipe);
        let next = step(pipe.pos, new_dir, self.size);
        let joint = if pipe.segments.len() == 0 {
            JointKind::Start
        } else if new_dir == pipe.dir {
            JointKind::Straight
        } else {
            JointKind::Turn
        };
        let seg = PipeSegment {
            from: pipe.pos,
            to: next,
            dir: new_dir,
            joint,
            color_index: pipe.color_index,
        };
        pipe.segments.push(seg);
        let key = key_of(next, self.size);
        self.occupied.insert(key);
        pipe.pos = next;
        pipe.dir = new_dir;
        self.pipes.set_and_swap(index, &mut pipe);
        proof {
            let new_pipe = self.pipes@[index as int];
            assert(pipe_grew(old_pipe, new_pipe, new_dir));
            lemma_grown_cells(old_pipe, new_pipe, new_dir);
            let old_cells = pipe_cells(old_pipe);
            let new_cells = pipe_cells(new_pipe);
            assert(forall|j: int|
                0 <= j < old_pipes.len() && j != index ==> self.pipes@[j] == old_pipes[j]);
            // The new head was free, so no pipe covered it.
            assert forall|i: int, k: int|
                0 <= i < old_pipes.len() && 0 <= k < pipe_cells(old_pipes[i]).len() implies #[trigger] pipe_cells(
                old_pipes[i],
            )[k] != next by {
                assert(old_occ.contains(cell_key(pipe_cells(old_pipes[i])[k])));
            }
            // The grown pipe is well formed.
            let old_segs = old_pipe.segments@;
            let new_segs = new_pipe.segments@;
            assert forall|i: int| 0 <= i < new_segs.len() implies #[trigger] segment_wf(
                new_segs,
                i,
                new_pipe.color_index,
            ) by {
                if i < old_segs.len() {
                    assert(segment_wf(old_segs, i, old_pipe.color_index));
                    assert(new_segs[i] == old_segs[i]);
                    if i > 0 {
                        assert(new_segs[i - 1] == old_segs[i - 1]);
                    }
                } else {
                    if i > 0 {
                        assert(new_segs[i - 1] == old_segs.last());
                    }
                }
            }
            assert forall|a: int, b: int|
                0 <= a < new_cells.len() && 0 <= b < new_cells.len() && a != b implies new_cells[a]
                != new_cells[b] by {
                if a < old_cells.len() && b < old_cells.len() {
                    assert(old_cells.no_duplicates());
                } else if a < old_cells.len() {
                    assert(pipe_cells(old_pipes[index as int])[a] != next);
                } else if b < old_cells.len() {
                    assert(pipe_cells(old_pipes[index as int])[b] != next);
                }
            }
            assert forall|k: int| 0 <= k < new_cells.len() implies inside_grid_spec(
                #[trigger] new_cells[k],
                size,
            ) by {
                if k < old_cells.len() {
                    assert(inside_grid_spec(old_cells[k], size));
                }
            }
            assert(pipe_wf(new_pipe, size));
            let pipes = self.pipes@;
            assert forall|i: int| 0 <= i < pipes.len() implies pipe_wf(#[trigger] pipes[i], size) by {
                if i != index {
                    assert(pipes[i] == old_pipes[i]);
                }
            }
            assert forall|i: int, k: int|
                0 <= i < pipes.len() && 0 <= k < pipe_cells(pipes[i]).len() implies self.occupied@.contains(
                cell_key(#[trigger] pipe_cells(pipes[i])[k]),
            ) by {
                if i != index {
                    assert(pipes[i] == old_pipes[i]);
                    assert(old_occ.contains(cell_key(pipe_cells(old_pipes[i])[k])));
                } else if k < old_cells.len() {
                    assert(old_occ.contains(cell_key(pipe_cells(old_pipes[i])[k])));
                }
            }
            assert forall|i: int, j: int, k: int, l: int|
                0 <= i < pipes.len() && 0 <= j < pipes.len() && i != j && 0 <= k < pipe_cells(
                    pipes[i],
                ).len() && 0 <= l < pipe_cells(pipes[j]).len() implies #[trigger] pipe_cells(
                pipes[i],
            )[k] != #[trigger] pipe_cells(pipes[j])[l] by {
                if i != index && j != index {
                    assert(pipes[i] == old_pipes[i]);
                    assert(pipes[i] == old_pipes[i]);
                    assert(pipes[j] == old_pipes[j]);
                    assert(pipe_cells(old_pipes[i])[k] != pipe_cells(old_pipes[j])[l]);
                } else if i == index {
                    assert(pipes[j] == old_pipes[j]);
                    if k < old_cells.len() {
                        assert(pipe_cells(old_pipes[i])[k] != pipe_cells(old_pipes[j])[l]);
                    } else {
                        assert(pipe_cells(old_pipes[j])[l] != next);
                    }
                } else {
                    assert(pipes[i] == old_pipes[i]);
                    if l < old_cells.len() {
                        assert(pipe_cells(old_pipes[i])[k] != pipe_cells(old_pipes[j])[l]);
                    } else {
                        assert(pipe_cells(old_pipes[i])[k] != next);
                    }
                }
            }
        }
    }
}


/// The living heads among a prefix depend only on the pipes in it.
pub proof fn lemma_living_heads_prefix(a: Seq<Pipe>, b: Seq<Pipe>, n: int)
    requires
        0 <= n,
        forall|k: int| 0 <= k < n ==> a[k] == b[k],
    ensures
        forall|m: int| 0 <= m <= n ==> #[trigger] living_heads(a, m) == living_heads(b, m),
    decreases n,
{
    if n > 0 {
        lemma_living_heads_prefix(a, b, n - 1);
        assert(a[n - 1] == b[n - 1]);
        assert(living_heads(a, n - 1) == living_heads(b, n - 1));
        assert(living_heads(a, n) == living_heads(b, n));
    }
}

/// Each of the living heads is the head cell of a living pipe in the prefix.
pub proof fn lemma_living_heads_member(pipes: Seq<Pipe>, n: int, key: u128)
    requires
        living_heads(pipes, n).contains(key),
    ensures
        exists|k: int| 0 <= k < n && pipes[k].alive && key == cell_key(#[trigger] pipes[k].pos),
    decreases n,
{
    if n > 0 {
        if pipes[n - 1].alive && key == cell_key(pipes[n - 1].pos) {
        } else {
            lemma_living_heads_member(pipes, n - 1, key);
            let k = choose|k: int|
                0 <= k < n - 1 && pipes[k].alive && key == cell_key(#[trigger] pipes[k].pos);
            assert(0 <= k < n && pipes[k].alive && key == cell_key(pipes[k].pos));
        }
    }
}

impl PipeWorld {
    /// Marks the pipe at `index` dead.
    fn kill_pipe(&mut self, index: usize)
        requires
            old(self).wf(),
            index < old(self).pipes@.len(),
        ensures
            final(self).wf(),
            final(self).size == old(self).size,
            final(self).max_pipes == old(self).max_pipes,
            final(self).occupied@ == old(self).occupied@,
            final(self).pipes@.len() == old(self).pipes@.len(),
            pipe_died(old(self).pipes@[index as int], final(self).pipes@[index as int]),
            forall|j: int|
                0 <= j < old(self).pipes@.len() && j != index ==> final(self).pipes@[j] == old(
                    self,
                ).pipes@[j],
    {
        let ghost old_pipes = self.pipes@;
        let mut pipe = Pipe::placeholder();
        self.pipes.set_and_swap(index, &mut pipe);
        pipe.alive = false;
        self.pipes.set_and_swap(index, &mut pipe);
        proof {
            let pipes = self.pipes@;
            assert(pipe_cells(pipes[index as int]) == pipe_cells(old_pipes[index as int]));
            assert(forall|j: int|
                0 <= j < pipes.len() ==> #[trigger] pipe_cells(pipes[j]) == pipe_cells(
                    old_pipes[j],
                ));
            assert(forall|j: int|
                0 <= j < pipes.len() ==> pipe_wf(old_pipes[j], self.size) ==> pipe_wf(
                    #[trigger] pipes[j],
                    self.size,
                ));
        }
    }

    /// One growth step for the pipe at `index`: a living pipe with a legal
    /// move grows along one chosen at random; a living pipe without one dies.
    pub fn advance_pipe(&mut self, index: usize)
        requires
            old(self).wf(),
            index < old(self).pipes@.len(),
        ensures
            final(self).wf(),
            final(self).size == old(self).size,
            final(self).max_pipes == old(self).max_pipes,
            old(self).occupied@.subset_of(final(self).occupied@),
            final(self).pipes@.len() == old(self).pipes@.len(),
            forall|j: int|
                0 <= j < old(self).pipes@.len() && j != index ==> final(self).pipes@[j] == old(
                    self,
                ).pipes@[j],
            pipe_advanced(
                old(self).pipes@[index as int],
                final(self).pipes@[index as int],
                old(self).size,
                old(self).occupied@,
            ),
            final(self).pipes@[index as int].alive && old(self).pipes@[index as int].alive
                ==> final(self).occupied@ == old(self).occupied@.insert(
                cell_key(final(self).pipes@[index as int].pos),
            ),
            !(final(self).pipes@[index as int].alive && old(self).pipes@[index as int].alive)
                ==> final(self).occupied@ == old(self).occupied@,
    {
        if !self.pipes[index].alive {
            return;
        }
        let pos = self.pipes[index].pos;
        let dir = self.pipes[index].dir;
        assert(pipe_wf(self.pipes@[index as int], self.size));
        let legal = legal_directions(self.size, &self.occupied, pos, dir);
        proof {
            lemma_legal_directions(self.size, self.occupied@, pos, dir);
        }
        if legal.len() == 0 {
            self.kill_pipe(index);
            return;
        }
        let new_dir = match choose_direction(&legal) {
            Some(d) => d,
            None => dir,
        };
        assert(legal@.contains(new_dir));
        self.grow_pipe(index, new_dir);
    }

    /// A random cell that is inside the grid and free, if one of the tries
    /// finds one.
    fn random_empty_cell(&self) -> (cell: Option<GridVec>)
        requires
            size_positive(self.size),
        ensures
            cell matches Some(c) ==> inside_grid_spec(c, self.size) && !self.occupied@.contains(
                cell_key(c),
            ),
    {
        let mut attempt: u32 = 0;
        while attempt < EMPTY_CELL_ATTEMPTS
            invariant
                size_positive(self.size),
            decreases EMPTY_CELL_ATTEMPTS - attempt,
        {
            let candidate = GridVec {
                x: random_below(self.size.x),
                y: random_below(self.size.y),
                z: random_below(self.size.z),
            };
            let key = key_of(candidate, self.size);
            if !self.occupied.contains(&key) {
                return Some(candidate);
            }
            attempt += 1;
        }
        None
    }

    /// Starts a new pipe at `start`, heading along `dir`, in colour
    /// `color_index`, when `start` is free; otherwise changes nothing.
    pub fn spawn_pipe_at(&mut self, start: GridVec, dir: GridVec, color_index: usize) -> (spawned:
        bool)
        requires
            old(self).wf(),
            old(self).pipes@.len() < old(self).max_pipes,
            inside_grid_spec(start, old(self).size),
            is_direction(dir),
            color_index < PIPE_PALETTE_LEN,
        ensures
            final(self).wf(),
            final(self).size == old(self).size,
            final(self).max_pipes == old(self).max_pipes,
            spawned == !old(self).occupied@.contains(cell_key(start)),
            spawned ==> {
                &&& final(self).pipes@.len() == old(self).pipes@.len() + 1
                &&& forall|j: int|
                    0 <= j < old(self).pipes@.len() ==> final(self).pipes@[j] == old(
                        self,
                    ).pipes@[j]
                &&& new_pipe_at(
                    final(self).pipes@[old(self).pipes@.len() as int],
                    start,
                    dir,
                    color_index,
                )
                &&& final(self).occupied@ == old(self).occupied@.insert(cell_key(start))
            },
            !spawned ==> final(self).pipes@ == old(self).pipes@ && final(self).occupied@ == old(
                self,
            ).occupied@,
    {
        let ghost old_pipes = self.pipes@;
        let ghost old_occ = self.occupied@;
        let key = key_of(start, self.size);
        if self.occupied.contains(&key) {
            return false;
        }
        self.occupied.insert(key);
        self.pipes.push(
            Pipe { pos: start, dir, segments: Vec::new(), alive: true, color_index },
        );
        proof {
            let pipes = self.pipes@;
            let n = old_pipes.len() as int;
            let fresh = pipes[n];
            assert(pipe_cells(fresh) == seq![start]);
            assert forall|i: int, k: int|
                0 <= i < n && 0 <= k < pipe_cells(old_pipes[i]).len() implies #[trigger] pipe_cells(
                old_pipes[i],
            )[k] != start by {
                assert(old_occ.contains(cell_key(pipe_cells(old_pipes[i])[k])));
            }
            assert(pipe_wf(fresh, self.size));
            assert forall|i: int| 0 <= i < pipes.len() implies pipe_wf(#[trigger] pipes[i], self.size) by {
                if i < n {
                    assert(pipes[i] == old_pipes[i]);
                }
            }
            assert forall|i: int, k: int|
                0 <= i < pipes.len() && 0 <= k < pipe_cells(pipes[i]).len() implies self.occupied@.contains(
                cell_key(#[trigger] pipe_cells(pipes[i])[k]),
            ) by {
                if i < n {
                    assert(pipes[i] == old_pipes[i]);
                    assert(old_occ.contains(cell_key(pipe_cells(old_pipes[i])[k])));
                }
            }
            assert forall|i: int, j: int, k: int, l: int|
                0 <= i < pipes.len() && 0 <= j < pipes.len() && i != j && 0 <= k < pipe_cells(
                    pipes[i],
                ).len() && 0 <= l < pipe_cells(pipes[j]).len() implies #[trigger] pipe_cells(
                pipes[i],
            )[k] != #[trigger] pipe_cells(pipes[j])[l] by {
                if i < n && j < n {
                    assert(pipes[i] == old_pipes[i]);
                    assert(pipes[j] == old_pipes[j]);
                    assert(pipe_cells(old_pipes[i])[k] != pipe_cells(old_pipes[j])[l]);
                } else if i == n {
                    assert(pipes[j] == old_pipes[j]);
                    assert(pipe_cells(old_pipes[j])[l] != start);
                } else {
                    assert(pipes[i] == old_pipes[i]);
                    assert(pipe_cells(old_pipes[i])[k] != start);
                }
            }
        }
        true
    }

    /// One simulation step with the spawn already drawn: when `spawn` offers
    /// a start cell, direction and colour, there is room for another pipe
    /// and the cell is free, a pipe starts there; then every pipe, the new
    /// one last, advances in order against the cells occupied when its turn
    /// comes.
    pub fn update_with(&mut self, spawn: Option<(GridVec, GridVec, usize)>)
        requires
            old(self).wf(),
            spawn_valid(old(self).size, spawn),
        ensures
            final(self).wf(),
            final(self).size == old(self).size,
            final(self).max_pipes == old(self).max_pipes,
            final(self).pipes@.len() == old(self).pipes@.len() + if spawn_happens(
                old(self).pipes@.len() as int,
                old(self).max_pipes as int,
                old(self).occupied@,
                spawn,
            ) {
                1int
            } else {
                0int
            },
            spawn_happens(
                old(self).pipes@.len() as int,
                old(self).max_pipes as int,
                old(self).occupied@,
                spawn,
            ) ==> {
                &&& pipe_cells(final(self).pipes@[old(self).pipes@.len() as int])[0] == spawn_start(spawn)
                &&& exists|fresh: Pipe|
                    {
                        &&& #[trigger] spawned_pipe(fresh, spawn)
                        &&& pipe_advanced(
                            fresh,
                            final(self).pipes@[old(self).pipes@.len() as int],
                            old(self).size,
                            occupied_at_turn(
                                old(self).occupied@,
                                old(self).pipes@.len() as int,
                                final(self).pipes@,
                                old(self).pipes@.len() as int,
                            ),
                        )
                    }
            },
            forall|i: int|
                0 <= i < old(self).pipes@.len() ==> pipe_advanced(
                    #[trigger] old(self).pipes@[i],
                    final(self).pipes@[i],
                    old(self).size,
                    occupied_at_turn(
                        old(self).occupied@,
                        old(self).pipes@.len() as int,
                        final(self).pipes@,
                        i,
                    ),
                ),
            final(self).occupied@ == occupied_at_turn(
                old(self).occupied@,
                old(self).pipes@.len() as int,
                final(self).pipes@,
                final(self).pipes@.len() as int,
            ),
    {
        let ghost old_pipes = self.pipes@;
        let ghost old_occ = self.occupied@;
        match spawn {
            Some((start, dir, color_index)) => {
                if self.pipes.len() < self.max_pipes {
                    self.spawn_pipe_at(start, dir, color_index);
                }
            },
            None => {},
        }
        let ghost mid_pipes = self.pipes@;
        let ghost mid_occ = self.occupied@;
        let ghost size = self.size;
        let n = self.pipes.len();
        let mut i: usize = 0;
        while i < n
            invariant
                self.wf(),
                self.size == size,
                size == old(self).size,
                self.max_pipes == old(self).max_pipes,
                n == self.pipes@.len(),
                n == mid_pipes.len(),
                0 <= i <= n,
                mid_pipes.len() == old_pipes.len() ==> mid_pipes == old_pipes && mid_occ == old_occ,
                (mid_pipes.len() == old_pipes.len() + 1) == spawn_happens(
                    old_pipes.len() as int,
                    old(self).max_pipes as int,
                    old_occ,
                    spawn,
                ),
                mid_pipes.len() == old_pipes.len() || {
                    &&& mid_pipes.len() == old_pipes.len() + 1
                    &&& forall|j: int| 0 <= j < old_pipes.len() ==> mid_pipes[j] == old_pipes[j]
                    &&& spawned_pipe(mid_pipes[old_pipes.len() as int], spawn)
                    &&& mid_occ == old_occ.insert(cell_key(spawn_start(spawn)))
                },
                forall|j: int| i <= j < n ==> self.pipes@[j] == mid_pipes[j],
                self.occupied@ == mid_occ.union(living_heads(self.pipes@, i as int)),
                forall|j: int|
                    0 <= j < i ==> pipe_advanced(
                        #[trigger] mid_pipes[j],
                        self.pipes@[j],
                        size,
                        mid_occ.union(living_heads(self.pipes@, j)),
                    ),
            decreases n - i,
        {
            let ghost before = self.occupied@;
            let ghost before_pipes = self.pipes@;
            self.advance_pipe(i);
            proof {
                let now = self.pipes@;
                lemma_living_heads_prefix(before_pipes, now, i as int);
                let ii = i as int;
                assert(living_heads(now, ii + 1) == if now[ii].alive {
                    living_heads(now, ii).insert(cell_key(now[ii].pos))
                } else {
                    living_heads(now, ii)
                });
                assert(self.occupied@ =~= mid_occ.union(living_heads(now, ii + 1)));
                assert forall|j: int| 0 <= j < i + 1 implies pipe_advanced(
                    #[trigger] mid_pipes[j],
                    now[j],
                    size,
                    mid_occ.union(living_heads(now, j)),
                ) by {
                    assert(living_heads(before_pipes, j) == living_heads(now, j));
                    if j < i {
                        assert(now[j] == before_pipes[j]);
                    }
                }
            }
            i += 1;
        }
        proof {
            let fin = self.pipes@;
            let n0 = old_pipes.len() as int;
            if mid_pipes.len() == old_pipes.len() + 1 {
                let fresh = mid_pipes[n0];
                let last = fin[n0];
                if fresh.alive && last.alive {
                    lemma_grown_cells(fresh, last, last.dir);
                }
                assert(pipe_cells(last)[0] == fresh.pos);
                assert(spawn_occupied(old_occ, n0, fin) == mid_occ);
                assert(pipe_advanced(fresh, last, size, occupied_at_turn(old_occ, n0, fin, n0)));
                assert(spawned_pipe(fresh, spawn));
            } else {
                assert(spawn_occupied(old_occ, n0, fin) == mid_occ);
            }
            assert forall|j: int| 0 <= j < n0 implies pipe_advanced(
                #[trigger] old_pipes[j],
                fin[j],
                size,
                occupied_at_turn(old_occ, n0, fin, j),
            ) by {
                assert(mid_pipes[j] == old_pipes[j]);
            }
        }
    }

    /// One simulation step: while there is room, with a 3 in 100 chance, try
    /// up to 2000 random cells for a free one and, if one is found, offer it
    /// with a random direction and colour as the step's spawn; then run the
    /// step.
    pub fn update(&mut self)
        requires
            old(self).wf(),
            old(self).pipes@.len() < old(self).max_pipes ==> size_positive(old(self).size),
        ensures
            final(self).wf(),
            final(self).size == old(self).size,
            final(self).max_pipes == old(self).max_pipes,
            final(self).pipes@.len() == old(self).pipes@.len() || {
                &&& final(self).pipes@.len() == old(self).pipes@.len() + 1
                &&& old(self).pipes@.len() < old(self).max_pipes
                &&& exists|fresh: Pipe|
                    {
                        &&& fresh_pipe(fresh, old(self).size, old(self).occupied@)
                        &&& #[trigger] pipe_advanced(
                            fresh,
                            final(self).pipes@[old(self).pipes@.len() as int],
                            old(self).size,
                            occupied_at_turn(
                                old(self).occupied@,
                                old(self).pipes@.len() as int,
                                final(self).pipes@,
                                old(self).pipes@.len() as int,
                            ),
                        )
                    }
            },
            forall|i: int|
                0 <= i < old(self).pipes@.len() ==> pipe_advanced(
                    #[trigger] old(self).pipes@[i],
                    final(self).pipes@[i],
                    old(self).size,
                    occupied_at_turn(
                        old(self).occupied@,
                        old(self).pipes@.len() as int,
                        final(self).pipes@,
                        i,
                    ),
                ),
            final(self).occupied@ == occupied_at_turn(
                old(self).occupied@,
                old(self).pipes@.len() as int,
                final(self).pipes@,
                final(self).pipes@.len() as int,
            ),
            old(self).occupied@.subset_of(final(self).occupied@),
            forall|key: u128|
                #[trigger] final(self).occupied@.contains(key) && !old(self).occupied@.contains(key)
                    ==> exists|p: GridVec| inside_grid_spec(p, old(self).size) && key == cell_key(p),
    {
        let ghost old_pipes = self.pipes@;
        let ghost old_occ = self.occupied@;
        let ghost size = self.size;
        let mut spawn: Option<(GridVec, GridVec, usize)> = None;
        if self.pipes.len() < self.max_pipes && random_ratio(PIPE_SPAWN_PERCENT, 100) {
            if let Some(start) = self.random_empty_cell() {
                let dirs = directions_vec();
                let dir = match choose_direction(&dirs) {
                    Some(d) => d,
                    None => GridVec { x: 1, y: 0, z: 0 },
                };
                proof {
                    if directions().contains(dir) {
                        let k = choose|k: int| 0 <= k < 6 && directions()[k] == dir;
                    }
                }
                let color_index = random_below(PIPE_PALETTE_LEN as i32) as usize;
                spawn = Some((start, dir, color_index));
            }
        }
        self.update_with(spawn);
        proof {
            let fin = self.pipes@;
            let n0 = old_pipes.len() as int;
            let n = fin.len() as int;
            if spawn_happens(n0, self.max_pipes as int, old_occ, spawn) {
                let fresh = choose|fresh: Pipe|
                    {
                        &&& #[trigger] spawned_pipe(fresh, spawn)
                        &&& pipe_advanced(
                            fresh,
                            fin[n0],
                            size,
                            occupied_at_turn(old_occ, n0, fin, n0),
                        )
                    };
                assert(fresh_pipe(fresh, size, old_occ));
            }
            assert forall|key: u128|
                #[trigger] self.occupied@.contains(key) && !old_occ.contains(key) implies exists|
                p: GridVec,
            | inside_grid_spec(p, size) && key == cell_key(p) by {
                if living_heads(fin, n).contains(key) {
                    lemma_living_heads_member(fin, n, key);
                    let k = choose|k: int|
                        0 <= k < n && fin[k].alive && key == cell_key(#[trigger] fin[k].pos);
                    assert(pipe_wf(fin[k], size));
                } else {
                    assert(inside_grid_spec(spawn_start(spawn), size));
                }
            }
        }
    }
}


/// `((size.x + size.y + size.z) / 6).clamp(6, 12)`, with Rust's division.
pub open spec fn suggested_max_pipes_spec(size: GridVec) -> int {
    let total = size.x + size.y + size.z;
    let q = if total >= 0 {
        total / 6
    } else {
        -((-total) / 6)
    };
    if q < 6 {
        6
    } else if q > 12 {
        12
    } else {
        q
    }
}

/// How many pipes a world of the given size allows: one per six cells of
/// its summed extent, between 6 and 12.
pub fn suggested_max_pipes(size: GridVec) -> (max_pipes: usize)
    requires
        i32::MIN <= size.x + size.y <= i32::MAX,
        i32::MIN <= size.x + size.y + size.z <= i32::MAX,
    ensures
        max_pipes == suggested_max_pipes_spec(size),
{
    let total = size.x + size.y + size.z;
    let q = total / 6;
    let clamped = if q < 6 {
        6
    } else if q > 12 {
        12
    } else {
        q
    };
    clamped as usize
}

/// What the renderer draws for a pipe: straight tubes between grid cells and
/// round joints at grid cells.
#[derive(Debug, Clone, Copy, PartialEq, Eq, Structural)]
pub enum PipeShape {
    Segment { start: GridVec, end: GridVec },
    Joint { center: GridVec },
}

/// The last index of the straight run that continues segment `j` along `dir`:
/// later segments join it while they start where the previous one ended,
/// keep the direction and carry a `Straight` joint.
pub open spec fn run_last(segs: Seq<PipeSegment>, j: int, dir: GridVec) -> int
    decreases segs.len() - j,
{
    if 0 <= j && j + 1 < segs.len() && segs[j].to == segs[j + 1].from && segs[j + 1].dir == dir
        && segs[j + 1].joint == JointKind::Straight {
        run_last(segs, j + 1, dir)
    } else {
        j
    }
}

pub proof fn lemma_run_last_bounds(segs: Seq<PipeSegment>, j: int, dir: GridVec)
    requires
        0 <= j < segs.len(),
    ensures
        j <= run_last(segs, j, dir) < segs.len(),
    decreases segs.len() - j,
{
    if j + 1 < segs.len() && segs[j].to == segs[j + 1].from && segs[j + 1].dir == dir
        && segs[j + 1].joint == JointKind::Straight {
        lemma_run_last_bounds(segs, j + 1, dir);
    }
}

/// The joint drawn for a run of segments from `first` to `last`.
pub open spec fn run_joint(first: PipeSegment, last: PipeSegment) -> Seq<PipeShape> {
    match first.joint {
        JointKind::Start | JointKind::Turn => seq![PipeShape::Joint { center: first.from }],
        JointKind::End => seq![PipeShape::Joint { center: last.to }],
        JointKind::Straight => Seq::empty(),
    }
}

/// The shapes for the segments from index `j` on: each maximal straight run
/// becomes one tube, followed by the joint its first segment calls for.
pub open spec fn run_shapes(segs: Seq<PipeSegment>, j: int) -> Seq<PipeShape>
    decreases segs.len() - j,
{
    if j < 0 || j >= segs.len() {
        Seq::empty()
    } else {
        let e = run_last(segs, j, segs[j].dir);
        proof {
            lemma_run_last_bounds(segs, j, segs[j].dir);
        }
        seq![PipeShape::Segment { start: segs[j].from, end: segs[e].to }] + run_joint(
            segs[j],
            segs[e],
        ) + run_shapes(segs, e + 1)
    }
}

/// The shapes for a whole pipe: its runs, then a cap on the head of a dead pipe.
pub open spec fn pipe_shapes_spec(p: Pipe) -> Seq<PipeShape> {
    let segs = p.segments@;
    run_shapes(segs, 0) + if !p.alive && segs.len() > 0 {
        seq![PipeShape::Joint { center: segs.last().to }]
    } else {
        Seq::empty()
    }
}

/// The shapes the renderer draws for `pipe`, in drawing order.
pub fn pipe_shapes(pipe: &Pipe) -> (shapes: Vec<PipeShape>)
    ensures
        shapes@ == pipe_shapes_spec(*pipe),
{
    let ghost segs = pipe.segments@;
    let n = pipe.segments.len();
    let mut shapes: Vec<PipeShape> = Vec::new();
    let mut index: usize = 0;
    while index < n
        invariant
            n == segs.len(),
            segs == pipe.segments@,
            0 <= index <= n,
            shapes@ + run_shapes(segs, index as int) == run_shapes(segs, 0),
        decreases n - index,
    {
        let first = pipe.segments[index];
        let run_dir = first.dir;
        let ghost start = index as int;
        let mut run_end = first.to;
        proof {
            lemma_run_last_bounds(segs, start, run_dir);
        }
        while index + 1 < n
            invariant
                n == segs.len(),
                segs == pipe.segments@,
                0 <= start <= index < n,
                run_dir == segs[start].dir,
                run_last(segs, index as int, run_dir) == run_last(segs, start, run_dir),
                run_end == segs[index as int].to,
            ensures
                0 <= start <= index < n,
                run_last(segs, index as int, run_dir) == run_last(segs, start, run_dir),
                run_last(segs, index as int, run_dir) == index,
                run_end == segs[index as int].to,
            decreases n - index,
        {
            let current = pipe.segments[index];
            let next = pipe.segments[index + 1];
            if current.to != next.from || next.dir != run_dir || next.joint
                != JointKind::Straight {
                break;
            }
            run_end = next.to;
            index += 1;
        }
        assert(run_last(segs, index as int, run_dir) == index);
        shapes.push(PipeShape::Segment { start: first.from, end: run_end });
        match first.joint {
            JointKind::Start | JointKind::Turn => {
                shapes.push(PipeShape::Joint { center: first.from });
            },
            JointKind::End => {
                shapes.push(PipeShape::Joint { center: run_end });
            },
            JointKind::Straight => {},
        }
        proof {
            let e = index as int;
            let piece = seq![PipeShape::Segment { start: segs[start].from, end: segs[e].to }]
                + run_joint(segs[start], segs[e]);
            assert(run_shapes(segs, start) == piece + run_shapes(segs, e + 1));
        }
        index += 1;
        assert(shapes@ + run_shapes(segs, index as int) =~= run_shapes(segs, 0));
    }
    assert(run_shapes(segs, n as int) == Seq::<PipeShape>::empty());
    if !pipe.alive && n > 0 {
        shapes.push(PipeShape::Joint { center: pipe.segments[n - 1].to });
    }
    assert(shapes@ =~= pipe_shapes_spec(*pipe));
    shapes
}


impl PipeWorld {
    /// Whether the world has pipes and none of them is still growing.
    pub fn all_pipes_dead(&self) -> (all_dead: bool)
        ensures
            all_dead == (self.pipes@.len() > 0 && forall|i: int|
                0 <= i < self.pipes@.len() ==> !(#[trigger] self.pipes@[i]).alive),
    {
        if self.pipes.len() == 0 {
            return false;
        }
        let mut i: usize = 0;
        while i < self.pipes.len()
            invariant
                0 <= i <= self.pipes@.len(),
                forall|j: int| 0 <= j < i ==> !(#[trigger] self.pipes@[j]).alive,
            decreases self.pipes@.len() - i,
        {
            if self.pipes[i].alive {
                return false;
            }
            i += 1;
        }
        true
    }
}

} // verus!
