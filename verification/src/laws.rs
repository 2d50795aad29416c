//! Laws of the simulation, stated over its mathematical state and proved.

use vstd::prelude::*;
use crate::direction::{Direction, steered, turned};
use crate::world::{Food, WorldState, lies_off, lies_on};

verus! {

/// One operation on the simulation.
pub enum Step {
    /// An input sample with the four key flags.
    Input { left: bool, down: bool, up: bool, right: bool },
    /// A movement tick.
    Tick,
    /// A food marker put on the grid.
    SpawnFood { food: Food },
    /// A run of the eating detector.
    Eat,
    /// A growth pass with fresh handles.
    Grow { handles: Seq<u64> },
}

impl WorldState {
    /// The state after one operation.
    pub open spec fn after(self, step: Step) -> WorldState {
        match step {
            Step::Input { left, down, up, right } => self.sampled(left, down, up, right),
            Step::Tick => self.ticked(),
            Step::SpawnFood { food } => self.with_food(food),
            Step::Eat => self.fed(),
            Step::Grow { handles } => self.grown(handles),
        }
    }

    /// The state after a sequence of operations, the first one applied
    /// first.
    pub open spec fn run(self, steps: Seq<Step>) -> WorldState
        decreases steps.len(),
    {
        if steps.len() == 0 {
            self
        } else {
            self.run(steps.drop_last()).after(steps.last())
        }
    }
}

/// A proposed heading is applied exactly when it is not the reversal of the
/// current heading; a reversal leaves the heading as it was.
pub proof fn lemma_candidate_applied_unless_reversal(current: Direction, candidate: Direction)
    ensures
        turned(current, candidate) == candidate <==> candidate != current.opposite(),
        candidate == current.opposite() ==> turned(current, candidate) == current,
        candidate != current.opposite() ==> turned(current, candidate) == candidate,
{
}

/// No input sample turns the snake around: the heading after a sample is
/// never the reversal of the heading before it.
pub proof fn lemma_sample_never_reverses(
    current: Direction,
    left: bool,
    down: bool,
    up: bool,
    right: bool,
)
    ensures
        steered(current, left, down, up, right) != current.opposite(),
{
}

/// After a movement tick every segment but the head lies on the cell that
/// its predecessor had before the tick, the head lies one unit further in
/// the current heading, and the remembered tail cell is the cell that the
/// tail had before the tick. Handles, heading, food and pending signals are
/// untouched.
pub proof fn lemma_tick_shifts_chain(s: WorldState)
    requires
        s.wf(),
        s.can_tick(),
    ensures
        s.ticked().wf(),
        s.ticked().chain.len() == s.chain.len(),
        forall|i: int|
            1 <= i < s.chain.len() ==> (#[trigger] s.ticked().chain[i]).position == s.chain[i
                - 1].position,
        s.ticked().chain[0].position.x == s.chain[0].position.x + s.direction.dx(),
        s.ticked().chain[0].position.y == s.chain[0].position.y + s.direction.dy(),
        forall|i: int|
            0 <= i < s.chain.len() ==> (#[trigger] s.ticked().chain[i]).handle
                == s.chain[i].handle,
        s.ticked().last_tail == Some(s.chain.last().position),
        s.ticked().direction == s.direction,
        s.ticked().foods == s.foods,
        s.ticked().pending == s.pending,
{
}

/// With a chain of one segment the tick moves the head alone, and the
/// remembered tail cell is the head's own cell before the tick.
pub proof fn lemma_tick_of_lone_head(s: WorldState)
    requires
        s.chain.len() == 1,
        s.can_tick(),
    ensures
        s.ticked().chain.len() == 1,
        s.ticked().chain[0].position == s.chain[0].position.stepped(s.direction),
        s.ticked().last_tail == Some(s.chain[0].position),
{
}

/// A growth pass lengthens the chain by exactly one segment per consumed
/// signal, and takes exactly the consumed signals off the queue. All new
/// segments lie on the remembered tail cell, and the old segments stay.
pub proof fn lemma_growth_adds_one_per_signal(s: WorldState, handles: Seq<u64>)
    ensures
        s.grown(handles).chain.len() == s.chain.len() + s.consumed(handles.len()),
        s.grown(handles).pending + s.consumed(handles.len()) == s.pending,
        forall|i: int| 0 <= i < s.chain.len() ==> s.grown(handles).chain[i] == s.chain[i],
        forall|i: int|
            0 <= i < s.consumed(handles.len()) ==> {
                &&& (#[trigger] s.grown(handles).chain[s.chain.len() + i]).position
                    == s.last_tail.unwrap()
                &&& s.grown(handles).chain[s.chain.len() + i].handle == handles[i]
            },
{
}

/// No operation shortens the chain, and only a growth pass lengthens it.
pub proof fn lemma_chain_never_shrinks(s: WorldState, step: Step)
    ensures
        s.after(step).chain.len() >= s.chain.len(),
        !(step is Grow) ==> s.after(step).chain.len() == s.chain.len(),
        s.wf() ==> s.after(step).wf(),
{
}

/// Over any sequence of operations the chain never gets shorter, and a
/// valid state stays valid.
pub proof fn lemma_chain_never_shrinks_over_run(s: WorldState, steps: Seq<Step>)
    ensures
        s.run(steps).chain.len() >= s.chain.len(),
        s.wf() ==> s.run(steps).wf(),
    decreases steps.len(),
{
    if steps.len() > 0 {
        lemma_chain_never_shrinks_over_run(s, steps.drop_last());
        lemma_chain_never_shrinks(s.run(steps.drop_last()), steps.last());
    }
}

/// The chain length is monotone in time: a longer run of operations never
/// leaves a shorter chain than any of its beginnings.
pub proof fn lemma_chain_length_monotone(s: WorldState, steps: Seq<Step>, k: int)
    requires
        0 <= k <= steps.len(),
    ensures
        s.run(steps.take(k)).chain.len() <= s.run(steps).chain.len(),
    decreases steps.len() - k,
{
    if k == steps.len() {
        assert(steps.take(k) =~= steps);
    } else {
        lemma_chain_length_monotone(s, steps, k + 1);
        let longer = steps.take(k + 1);
        assert(longer.drop_last() =~= steps.take(k));
        assert(longer.len() > 0);
        lemma_chain_never_shrinks(s.run(steps.take(k)), longer.last());
    }
}

/// A movement tick makes the remembered tail cell known, and no operation
/// forgets it again.
pub proof fn lemma_tail_cell_stays_known(s: WorldState, step: Step)
    ensures
        step is Tick ==> s.after(step).last_tail is Some,
        s.last_tail is Some ==> s.after(step).last_tail is Some,
        !(step is Tick) ==> s.after(step).last_tail == s.last_tail,
{
}

/// Once a movement tick has been taken, the remembered tail cell is known
/// at every later time, so that a growth pass finds the cell it needs.
pub proof fn lemma_tail_cell_known_after_first_tick(s: WorldState, steps: Seq<Step>, k: int)
    requires
        0 <= k < steps.len(),
        steps[k] is Tick,
    ensures
        s.run(steps).last_tail is Some,
    decreases steps.len(),
{
    let earlier = steps.drop_last();
    lemma_tail_cell_stays_known(s.run(earlier), steps.last());
    if k < steps.len() - 1 {
        lemma_tail_cell_known_after_first_tick(s, earlier, k);
    }
}

/// Filtering a sequence of food by a cell that none of it lies on keeps
/// all of it, and filtering for that cell keeps none.
proof fn lemma_filter_untouched(foods: Seq<Food>, cell: crate::grid::Position)
    requires
        forall|i: int| 0 <= i < foods.len() ==> (#[trigger] foods[i]).position != cell,
    ensures
        foods.filter(lies_off(cell)) == foods,
        foods.filter(lies_on(cell)) == Seq::<Food>::empty(),
    decreases foods.len(),
{
    reveal(Seq::filter);
    if foods.len() > 0 {
        lemma_filter_untouched(foods.drop_last(), cell);
        assert(foods.drop_last().push(foods.last()) =~= foods);
    } else {
        assert(foods.filter(lies_off(cell)) =~= foods);
        assert(foods.filter(lies_on(cell)) =~= Seq::<Food>::empty());
    }
}

/// When no food lies on the head's cell, the eating detector takes nothing
/// off the grid and leaves no signal: the state is unchanged.
pub proof fn lemma_eating_without_overlap_changes_nothing(s: WorldState)
    requires
        forall|i: int| 0 <= i < s.foods.len() ==> (#[trigger] s.foods[i]).position
            != s.head_position(),
    ensures
        s.fed() == s,
        s.eaten() == Seq::<u64>::empty(),
{
    lemma_filter_untouched(s.foods, s.head_position());
    assert(s.eaten() =~= Seq::<u64>::empty());
}

/// After the eating detector ran, no food lies on the head's cell, and
/// every food that is left was there before.
pub proof fn lemma_eating_clears_head_cell(s: WorldState)
    ensures
        forall|i: int| 0 <= i < s.fed().foods.len() ==> (#[trigger] s.fed().foods[i]).position
            != s.head_position(),
        forall|i: int| 0 <= i < s.fed().foods.len() ==> s.foods.contains(
            #[trigger] s.fed().foods[i],
        ),
        s.fed().foods.len() + s.eaten().len() == s.foods.len(),
{
    let cell = s.head_position();
    assert forall|i: int| 0 <= i < s.fed().foods.len() implies (#[trigger] s.fed().foods[i]).position
        != cell && s.foods.contains(s.fed().foods[i]) by {
        s.foods.lemma_filter_pred(lies_off(cell), i);
        s.foods.lemma_filter_contains_rev(lies_off(cell), s.fed().foods[i]);
    }
    lemma_filter_partition(s.foods, cell);
}

/// The food on a cell and the food off it add up to all the food.
proof fn lemma_filter_partition(foods: Seq<Food>, cell: crate::grid::Position)
    ensures
        foods.filter(lies_off(cell)).len() + foods.filter(lies_on(cell)).len() == foods.len(),
    decreases foods.len(),
{
    reveal(Seq::filter);
    if foods.len() > 0 {
        lemma_filter_partition(foods.drop_last(), cell);
    }
}

/// Running the eating detector twice in a row does no more than running it
/// once: the second run finds nothing to eat.
pub proof fn lemma_eating_is_idempotent(s: WorldState)
    ensures
        s.fed().fed() == s.fed(),
        s.fed().eaten() == Seq::<u64>::empty(),
{
    lemma_eating_clears_head_cell(s);
    lemma_eating_without_overlap_changes_nothing(s.fed());
}

/// When exactly one food marker lies on the head's cell, the eating
/// detector removes that marker and no other, and leaves exactly one growth
/// signal.
pub proof fn lemma_eating_single_food(s: WorldState, k: int)
    requires
        0 <= k < s.foods.len(),
        s.foods[k].position == s.head_position(),
        forall|i: int|
            0 <= i < s.foods.len() && i != k ==> (#[trigger] s.foods[i]).position
                != s.head_position(),
    ensures
        s.fed().foods == s.foods.remove(k),
        s.fed().pending == s.pending + 1,
        s.eaten() == seq![s.foods[k].handle],
        s.fed().chain == s.chain,
{
    let cell = s.head_position();
    let front = s.foods.take(k);
    let back = s.foods.skip(k + 1);
    let one = seq![s.foods[k]];
    assert(s.foods =~= front + one + back);
    lemma_filter_untouched(front, cell);
    lemma_filter_untouched(back, cell);
    reveal_with_fuel(Seq::filter, 2);
    assert(one.drop_last() =~= Seq::<Food>::empty());
    assert(one.filter(lies_off(cell)) =~= Seq::<Food>::empty());
    assert(one.filter(lies_on(cell)) =~= one);
    Seq::filter_distributes_over_add(front, one, lies_off(cell));
    Seq::filter_distributes_over_add(front + one, back, lies_off(cell));
    Seq::filter_distributes_over_add(front, one, lies_on(cell));
    Seq::filter_distributes_over_add(front + one, back, lies_on(cell));
    assert(s.fed().foods =~= s.foods.remove(k));
    assert(s.foods.filter(lies_on(cell)) =~= one);
    assert(s.eaten() =~= seq![s.foods[k].handle]);
}

} // verus!
