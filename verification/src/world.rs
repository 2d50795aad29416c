//! The simulation state and the operations that advance it.

use vstd::prelude::*;
use crate::direction::{Direction, SnakeHead, steered, turned};
use crate::grid::{Position, ARENA_HEIGHT, ARENA_WIDTH};
use crate::sampling::random_sample;

verus! {

/// One unit of the snake's body: a stable handle and the cell it occupies.
#[derive(Clone, Copy, Debug, PartialEq, Eq, Structural)]
pub struct Segment {
    pub handle: u64,
    pub position: Position,
}

/// A food marker: a stable handle and the cell it lies on.
#[derive(Clone, Copy, Debug, PartialEq, Eq, Structural)]
pub struct Food {
    pub handle: u64,
    pub position: Position,
}

/// The signal "append one segment to the tail".
#[derive(Clone, Copy, Debug, PartialEq, Eq, Structural)]
pub struct GrowthEvent;

/// The mathematical state of a simulation.
pub struct WorldState {
    /// Current heading of the head.
    pub direction: Direction,
    /// The body, head first, tail last.
    pub chain: Seq<Segment>,
    /// The food markers, oldest first.
    pub foods: Seq<Food>,
    /// Where the tail was just before the latest movement tick, if any tick
    /// has happened.
    pub last_tail: Option<Position>,
    /// Number of growth signals that wait to be consumed.
    pub pending: nat,
}

impl WorldState {
    /// The chain is never empty; its first segment is the head.
    pub open spec fn wf(self) -> bool {
        self.chain.len() >= 1
    }

    /// The cell of the head.
    pub open spec fn head_position(self) -> Position {
        self.chain[0].position
    }

    /// The state of a chain that consists of the head alone.
    pub open spec fn starting(head: Segment, direction: Direction) -> WorldState {
        WorldState {
            direction,
            chain: seq![head],
            foods: Seq::empty(),
            last_tail: None,
            pending: 0,
        }
    }

    /// The state at startup: the head on cell (3, 3) heading up, one more
    /// segment below it on (3, 2), no food, no tick taken yet.
    pub open spec fn spawned(head: u64, tail: u64) -> WorldState {
        WorldState {
            direction: Direction::Up,
            chain: seq![
                Segment { handle: head, position: Position { x: 3, y: 3 } },
                Segment { handle: tail, position: Position { x: 3, y: 2 } },
            ],
            foods: Seq::empty(),
            last_tail: None,
            pending: 0,
        }
    }

    /// The state after `candidate` was proposed as the new heading.
    pub open spec fn proposed(self, candidate: Direction) -> WorldState {
        WorldState { direction: turned(self.direction, candidate), ..self }
    }

    /// The state after one input sample.
    pub open spec fn sampled(self, left: bool, down: bool, up: bool, right: bool) -> WorldState {
        WorldState { direction: steered(self.direction, left, down, up, right), ..self }
    }

    /// Whether the head can take one step in the current heading without
    /// leaving the range of the coordinates.
    pub open spec fn can_tick(self) -> bool {
        self.head_position().can_step(self.direction)
    }

    /// The state after one movement tick: the head steps one cell in the
    /// current heading, every other segment takes the cell that its
    /// predecessor had before the tick, and the cell that the tail had
    /// before the tick is remembered.
    pub open spec fn ticked(self) -> WorldState {
        WorldState {
            chain: Seq::new(
                self.chain.len(),
                |i: int|
                    Segment {
                        handle: self.chain[i].handle,
                        position: if i == 0 {
                            self.chain[0].position.stepped(self.direction)
                        } else {
                            self.chain[i - 1].position
                        },
                    },
            ),
            last_tail: Some(self.chain.last().position),
            ..self
        }
    }

    /// The state after a food marker was put on the grid. Nothing is asked of
    /// the cell: it may hold food already, or a segment of the snake.
    pub open spec fn with_food(self, food: Food) -> WorldState {
        WorldState { foods: self.foods.push(food), ..self }
    }

    /// The food that the head does not touch, in its old order.
    pub open spec fn survivors(self) -> Seq<Food> {
        self.foods.filter(lies_off(self.head_position()))
    }

    /// The handles of the food that lies on the head's cell, oldest first.
    pub open spec fn eaten(self) -> Seq<u64> {
        self.foods.filter(lies_on(self.head_position())).map_values(|f: Food| f.handle)
    }

    /// The state after the eating detector ran: every food marker on the
    /// head's cell is gone, and each of them has left one growth signal.
    pub open spec fn fed(self) -> WorldState {
        WorldState {
            foods: self.survivors(),
            pending: self.pending + self.eaten().len(),
            ..self
        }
    }

    /// Number of growth signals that a growth pass consumes when `supply`
    /// fresh handles are at hand: one per handle, as long as signals wait.
    pub open spec fn consumed(self, supply: nat) -> nat {
        if self.pending <= supply {
            self.pending
        } else {
            supply
        }
    }

    /// The state after a growth pass with the given fresh handles: each
    /// consumed signal appends one segment to the tail, all of them on the
    /// remembered tail cell.
    pub open spec fn grown(self, handles: Seq<u64>) -> WorldState
        recommends
            self.consumed(handles.len()) > 0 ==> self.last_tail is Some,
    {
        WorldState {
            chain: self.chain + Seq::new(
                self.consumed(handles.len()),
                |i: int| Segment { handle: handles[i], position: self.last_tail.unwrap() },
            ),
            pending: (self.pending - self.consumed(handles.len())) as nat,
            ..self
        }
    }
}

/// Holds of the food that lies on `cell`.
pub open spec fn lies_on(cell: Position) -> spec_fn(Food) -> bool {
    |f: Food| f.position == cell
}

/// Holds of the food that does not lie on `cell`.
pub open spec fn lies_off(cell: Position) -> spec_fn(Food) -> bool {
    |f: Food| f.position != cell
}

/// The simulation: the chain of segments with its heading, the food on the
/// grid, the remembered tail cell and the queue of growth signals.
pub struct World {
    head: SnakeHead,
    segments: Vec<Segment>,
    foods: Vec<Food>,
    last_tail_position: Option<Position>,
    growth_events: Vec<GrowthEvent>,
}

impl View for World {
    type V = WorldState;

    closed spec fn view(&self) -> WorldState {
        WorldState {
            direction: self.head.direction,
            chain: self.segments@,
            foods: self.foods@,
            last_tail: self.last_tail_position,
            pending: self.growth_events@.len(),
        }
    }
}

impl World {
    /// Validity of a simulation: its chain is not empty.
    pub open spec fn wf(&self) -> bool {
        self@.wf()
    }

    /// A simulation whose chain is the head alone.
    pub fn with_head(head: Segment, direction: Direction) -> (world: World)
        ensures
            world.wf(),
            world@ == WorldState::starting(head, direction),
    {
        let mut segments: Vec<Segment> = Vec::new();
        segments.push(head);
        let world = World {
            head: SnakeHead::new(direction),
            segments,
            foods: Vec::new(),
            last_tail_position: None,
            growth_events: Vec::new(),
        };
        assert(world@.chain =~= seq![head]);
        world
    }

    /// Appends a segment with the given handle on the given cell to the tail
    /// of the chain.
    fn spawn_segment(&mut self, handle: u64, position: Position)
        ensures
            final(self)@ == (WorldState {
                chain: old(self)@.chain.push(Segment { handle, position }),
                ..old(self)@
            }),
    {
        self.segments.push(Segment { handle, position });
    }

    /// The simulation at startup: a head on cell (3, 3) heading up and one
    /// segment behind it on (3, 2). The two handles name the two segments.
    pub fn spawn_snake(head: u64, tail: u64) -> (world: World)
        ensures
            world.wf(),
            world@ == WorldState::spawned(head, tail),
    {
        let mut world = World::with_head(
            Segment { handle: head, position: Position { x: 3, y: 3 } },
            Direction::Up,
        );
        world.spawn_segment(tail, Position { x: 3, y: 2 });
        assert(world@.chain =~= WorldState::spawned(head, tail).chain);
        world
    }

    /// The cells of the chain, head first.
    pub fn positions(&self) -> (cells: Vec<Position>)
        ensures
            cells@ == self@.chain.map_values(|s: Segment| s.position),
    {
        let mut cells: Vec<Position> = Vec::new();
        let mut i: usize = 0;
        while i < self.segments.len()
            invariant
                i <= self.segments.len(),
                cells@ == self.segments@.take(i as int).map_values(|s: Segment| s.position),
            decreases self.segments.len() - i,
        {
            cells.push(self.segments[i].position);
            i += 1;
            assert(cells@ =~= self.segments@.take(i as int).map_values(|s: Segment| s.position));
        }
        assert(self.segments@.take(i as int) =~= self.segments@);
        cells
    }

    /// The chain of segments, head first.
    pub fn segments(&self) -> (chain: &Vec<Segment>)
        ensures
            chain@ == self@.chain,
    {
        &self.segments
    }

    /// The food markers on the grid, oldest first.
    pub fn foods(&self) -> (foods: &Vec<Food>)
        ensures
            foods@ == self@.foods,
    {
        &self.foods
    }

    /// Number of segments in the chain.
    pub fn len(&self) -> (n: usize)
        ensures
            n == self@.chain.len(),
    {
        self.segments.len()
    }

    /// The cell of the head.
    pub fn head_position(&self) -> (cell: Position)
        requires
            self.wf(),
        ensures
            cell == self@.head_position(),
    {
        self.segments[0].position
    }

    /// The cell that the tail had just before the latest movement tick;
    /// `None` until the first tick.
    pub fn last_tail_position(&self) -> (cell: Option<Position>)
        ensures
            cell == self@.last_tail,
    {
        self.last_tail_position
    }

    /// Number of growth signals that wait to be consumed.
    pub fn pending_growth(&self) -> (n: usize)
        ensures
            n == self@.pending,
    {
        self.growth_events.len()
    }

    /// The current heading.
    pub fn current(&self) -> (d: Direction)
        ensures
            d == self@.direction,
    {
        self.head.current()
    }

    /// Proposes `candidate` as the new heading. It is applied unless it is
    /// the exact reversal of the current heading; then the heading stays.
    /// Nothing but the heading changes.
    pub fn set_candidate(&mut self, candidate: Direction)
        ensures
            final(self)@ == old(self)@.proposed(candidate),
            final(self)@.direction == candidate <==> candidate != old(self)@.direction.opposite(),
            candidate == old(self)@.direction.opposite() ==> final(self)@.direction == old(
                self,
            )@.direction,
    {
        self.head.set_candidate(candidate);
    }

    /// Takes one input sample: the four flags say which arrow keys are held.
    /// The first held key in the order left, down, up, right is proposed as
    /// the new heading; with none held the heading is unchanged. Nothing but
    /// the heading changes.
    pub fn snake_movement_input(&mut self, left: bool, down: bool, up: bool, right: bool)
        ensures
            final(self)@ == old(self)@.sampled(left, down, up, right),
    {
        self.head.snake_movement_input(left, down, up, right);
    }

    /// Puts a food marker with the given handle on the arena cell that the
    /// two raw samples pick. The cell is not compared with the food already
    /// there nor with the snake.
    pub fn place_food(&mut self, handle: u64, sample_x: u32, sample_y: u32) -> (food: Food)
        ensures
            food == (Food { handle, position: Position::of_samples(sample_x, sample_y) }),
            food.position.inside(ARENA_WIDTH, ARENA_HEIGHT),
            final(self)@ == old(self)@.with_food(food),
    {
        let food = Food { handle, position: Position::from_samples(sample_x, sample_y) };
        self.foods.push(food);
        food
    }

    /// The food spawner: puts one food marker with the given handle on a
    /// random cell of the arena and returns it. Whatever cell is drawn, it
    /// lies inside the arena; it may hold food already, or a segment of the
    /// snake.
    pub fn food_spawner(&mut self, handle: u64) -> (food: Food)
        ensures
            food.handle == handle,
            food.position.inside(ARENA_WIDTH, ARENA_HEIGHT),
            final(self)@ == old(self)@.with_food(food),
    {
        let sample_x = random_sample();
        let sample_y = random_sample();
        self.place_food(handle, sample_x, sample_y)
    }

    /// Whether a movement tick can be taken: the head's next cell has
    /// coordinates that fit the machine integers.
    pub fn can_move(&self) -> (ok: bool)
        requires
            self.wf(),
        ensures
            ok == self@.can_tick(),
    {
        self.segments[0].position.can_advance(self.head.direction)
    }

    /// One movement tick. The cells of all segments are captured first.
    /// Then the head steps one cell in the current heading, every other
    /// segment moves to the captured cell of its predecessor, and the
    /// captured cell of the tail becomes the remembered tail cell.
    pub fn snake_movement(&mut self)
        requires
            old(self).wf(),
            old(self)@.can_tick(),
        ensures
            final(self).wf(),
            final(self)@ == old(self)@.ticked(),
            final(self)@.chain.len() == old(self)@.chain.len(),
            final(self)@.chain[0].position.x == old(self)@.chain[0].position.x + old(
                self,
            )@.direction.dx(),
            final(self)@.chain[0].position.y == old(self)@.chain[0].position.y + old(
                self,
            )@.direction.dy(),
            forall|i: int|
                1 <= i < old(self)@.chain.len() ==> (#[trigger] final(self)@.chain[i]).position
                    == old(self)@.chain[i - 1].position,
            forall|i: int|
                0 <= i < old(self)@.chain.len() ==> (#[trigger] final(self)@.chain[i]).handle
                    == old(self)@.chain[i].handle,
            final(self)@.last_tail == Some(old(self)@.chain.last().position),
            final(self)@.direction == old(self)@.direction,
            final(self)@.foods == old(self)@.foods,
            final(self)@.pending == old(self)@.pending,
    {
        let segment_positions = self.positions();
        let n = self.segments.len();
        let head_pos = self.segments[0].position;
        self.segments[0].position = head_pos.step(self.head.direction);
        let mut i: usize = 1;
        while i < n
            invariant
                1 <= i <= n,
                n == old(self).segments@.len(),
                self.segments@.len() == n,
                segment_positions@ == old(self).segments@.map_values(|s: Segment| s.position),
                self.head == old(self).head,
                self.foods == old(self).foods,
                self.last_tail_position == old(self).last_tail_position,
                self.growth_events == old(self).growth_events,
                forall|j: int|
                    0 <= j < i ==> #[trigger] self.segments@[j] == old(self)@.ticked().chain[j],
                forall|j: int|
                    i <= j < n ==> #[trigger] self.segments@[j] == old(self).segments@[j],
            decreases n - i,
        {
            self.segments[i].position = segment_positions[i - 1];
            i += 1;
        }
        self.last_tail_position = Some(segment_positions[n - 1]);
        assert(self@.chain =~= old(self)@.ticked().chain);
    }

    /// The eating detector. Every food marker that lies on the head's cell
    /// is taken off the grid and leaves one growth signal; several markers
    /// on that cell count one by one. The handles of the markers taken off
    /// are returned, oldest first.
    pub fn snake_eating(&mut self) -> (eaten: Vec<u64>)
        requires
            old(self).wf(),
        ensures
            final(self).wf(),
            final(self)@ == old(self)@.fed(),
            eaten@ == old(self)@.eaten(),
            final(self)@.pending == old(self)@.pending + eaten@.len(),
            final(self)@.foods.len() + eaten@.len() == old(self)@.foods.len(),
            final(self)@.chain == old(self)@.chain,
    {
        let head_pos = self.segments[0].position;
        let ghost before = self@;
        let mut kept: Vec<Food> = Vec::new();
        let mut eaten: Vec<u64> = Vec::new();
        let mut i: usize = 0;
        while i < self.foods.len()
            invariant
                i <= self.foods.len(),
                self.head == old(self).head,
                self.segments == old(self).segments,
                self.foods == old(self).foods,
                self.last_tail_position == old(self).last_tail_position,
                before == old(self)@,
                head_pos == before.head_position(),
                kept@ == before.foods.take(i as int).filter(lies_off(head_pos)),
                eaten@ == before.foods.take(i as int).filter(lies_on(head_pos)).map_values(
                    |f: Food| f.handle,
                ),
                self.growth_events@.len() == before.pending + eaten@.len(),
                kept@.len() + eaten@.len() == i,
            decreases self.foods.len() - i,
        {
            let food = self.foods[i];
            proof {
                let seen = before.foods.take(i as int);
                assert(before.foods.take(i + 1) =~= seen.push(food));
                seen.lemma_filter_push(food, lies_off(head_pos));
                seen.lemma_filter_push(food, lies_on(head_pos));
            }
            if food.position == head_pos {
                eaten.push(food.handle);
                self.growth_events.push(GrowthEvent);
                assert(eaten@ =~= before.foods.take(i + 1).filter(lies_on(head_pos)).map_values(
                    |f: Food| f.handle,
                ));
            } else {
                kept.push(food);
            }
            i += 1;
        }
        assert(before.foods.take(i as int) =~= before.foods);
        self.foods = kept;
        eaten
    }

    /// The growth handler. `handles` holds fresh handles for new segments.
    /// As long as a growth signal waits and a handle is left, one signal is
    /// consumed and one segment with the next handle is appended to the
    /// tail, on the remembered tail cell. All segments appended in one pass
    /// lie on that same cell. Returns the number of signals consumed.
    pub fn snake_growth(&mut self, handles: &Vec<u64>) -> (count: usize)
        requires
            old(self).wf(),
            old(self)@.consumed(handles@.len()) > 0 ==> old(self)@.last_tail is Some,
        ensures
            final(self).wf(),
            final(self)@ == old(self)@.grown(handles@),
            count == old(self)@.consumed(handles@.len()),
            final(self)@.chain.len() == old(self)@.chain.len() + count,
            final(self)@.pending == old(self)@.pending - count,
    {
        let ghost before = self@;
        let mut count: usize = 0;
        while count < handles.len() && self.growth_events.len() > 0
            invariant
                count <= handles@.len(),
                self@.direction == before.direction,
                self@.foods == before.foods,
                self@.last_tail == before.last_tail,
                before == old(self)@,
                before.consumed(handles@.len()) > 0 ==> before.last_tail is Some,
                count <= before.pending,
                self.growth_events@.len() == before.pending - count,
                self.segments@ == before.chain + Seq::new(
                    count as nat,
                    |i: int| Segment { handle: handles@[i], position: before.last_tail.unwrap() },
                ),
            decreases handles@.len() - count,
        {
            let position = self.last_tail_position.unwrap();
            self.growth_events.pop();
            self.spawn_segment(handles[count], position);
            count += 1;
            assert(self.segments@ =~= before.chain + Seq::new(
                count as nat,
                |i: int| Segment { handle: handles@[i], position: before.last_tail.unwrap() },
            ));
        }
        count
    }
}

} // verus!
