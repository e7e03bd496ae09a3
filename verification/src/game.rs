//! Simulation state and the per-tick systems that advance it: input
//! resolution, movement, collision detection, eating, growth, game-over
//! reset and food spawning.

use vstd::prelude::*;

use crate::geometry::{
    Direction, Position, ARENA_HEIGHT, ARENA_WIDTH, in_bounds_spec, is_in_bounds, resolve_heading,
    step_position,
};
use crate::geometry::lemma_opposite_moves;

verus! {

/// Mathematical model of the whole simulation state.
#[verifier::ext_equal]
pub ghost struct GameModel {
    /// Cells of the snake's segments, head first.
    pub segments: Seq<Position>,
    /// The heading the head will move along on the next movement step.
    pub heading: Direction,
    /// The single active food cell, if any.
    pub food: Option<Position>,
    /// The cell the tail vacated during the most recent movement step.
    pub last_tail: Option<Position>,
    /// Queued growth signals; drained by the growth handler each pass.
    pub growth_events: nat,
    /// Queued game-over signals; drained by the game-over handler each pass.
    pub game_over_events: nat,
}

impl GameModel {
    /// Well-formed state: every recorded cell lies inside the arena.
    pub open spec fn wf(self) -> bool {
        &&& forall|i: int|
            0 <= i < self.segments.len() ==> in_bounds_spec(#[trigger] self.segments[i])
        &&& (self.food matches Some(p) ==> in_bounds_spec(p))
        &&& (self.last_tail matches Some(p) ==> in_bounds_spec(p))
    }
}

/// The simulation state: the snake's segment cells (head first) and heading,
/// the active food, the cell the tail last vacated, and the two transient
/// event queues, modelled as counts of queued signals.
pub struct Game {
    pub segments: Vec<Position>,
    pub heading: Direction,
    pub food: Option<Position>,
    pub last_tail_position: Option<Position>,
    pub growth_events: u32,
    pub game_over_events: u32,
}

impl View for Game {
    type V = GameModel;

    open spec fn view(&self) -> GameModel {
        GameModel {
            segments: self.segments@,
            heading: self.heading,
            food: self.food,
            last_tail: self.last_tail_position,
            growth_events: self.growth_events as nat,
            game_over_events: self.game_over_events as nat,
        }
    }
}

/// The head cell of a freshly spawned snake.
pub open spec fn spawn_head_position() -> Position {
    Position { x: 3, y: 3 }
}

/// The body cell of a freshly spawned snake, directly behind its head.
pub open spec fn spawn_body_position() -> Position {
    Position { x: 3, y: 2 }
}

/// The heading of a freshly spawned snake.
pub open spec fn spawn_heading() -> Direction {
    Direction::Up
}

/// The startup state: a two-segment snake at the spawn cells, no food, no
/// recorded tail cell, both queues empty.
pub open spec fn initial_model() -> GameModel {
    GameModel {
        segments: seq![spawn_head_position(), spawn_body_position()],
        heading: spawn_heading(),
        food: None,
        last_tail: None,
        growth_events: 0,
        game_over_events: 0,
    }
}

/// The input resolver's effect: the heading is updated, all else is kept.
pub open spec fn input_model(g: GameModel, requested: Option<Direction>) -> GameModel {
    GameModel { heading: resolve_heading(g.heading, requested), ..g }
}

/// One movement step. On an empty snake nothing happens. Otherwise the head
/// advances one unit along the heading, every other segment moves to the
/// cell its predecessor held, the tail's vacated cell is recorded, and one
/// game-over signal is queued for a head outside the arena and one for a
/// head landing on a cell of the pre-move snapshot.
pub open spec fn movement_model(g: GameModel) -> GameModel {
    if g.segments.len() == 0 {
        g
    } else {
        let new_head = step_position(g.segments[0], g.heading);
        let boundary: nat = if !in_bounds_spec(new_head) {
            1
        } else {
            0
        };
        let collision: nat = if g.segments.contains(new_head) {
            1
        } else {
            0
        };
        GameModel {
            segments: Seq::new(
                g.segments.len(),
                |i: int|
                    if i == 0 {
                        new_head
                    } else {
                        g.segments[i - 1]
                    },
            ),
            last_tail: Some(g.segments[g.segments.len() - 1]),
            game_over_events: g.game_over_events + boundary + collision,
            ..g
        }
    }
}

/// The eating check's effect: when the head shares the food's cell, the food
/// is consumed and exactly one growth signal is queued; otherwise nothing
/// happens.
pub open spec fn eating_model(g: GameModel) -> GameModel {
    if g.segments.len() > 0 && g.food == Some(g.segments[0]) {
        GameModel { food: None, growth_events: g.growth_events + 1, ..g }
    } else {
        g
    }
}

/// The growth handler's effect: reading the queue drains it, and at most one
/// segment is appended, at the cell the tail vacated.
pub open spec fn growth_model(g: GameModel) -> GameModel {
    if g.growth_events > 0 {
        match g.last_tail {
            Some(p) => GameModel { segments: g.segments.push(p), growth_events: 0, ..g },
            None => GameModel { growth_events: 0, ..g },
        }
    } else {
        g
    }
}

/// The snake respawn's effect: the segments and heading are reset to the
/// spawn configuration; the other fields are kept.
pub open spec fn spawn_model(g: GameModel) -> GameModel {
    GameModel {
        segments: seq![spawn_head_position(), spawn_body_position()],
        heading: spawn_heading(),
        ..g
    }
}

/// The game-over handler's effect: any queued signal, duplicates coalesced,
/// resets the whole state to the startup state.
pub open spec fn game_over_model(g: GameModel) -> GameModel {
    if g.game_over_events > 0 {
        initial_model()
    } else {
        g
    }
}

/// The deterministic part of one scheduler pass: the input resolver always
/// runs; on a movement tick the movement engine, the eating check, the
/// growth handler and the game-over handler then run, in that order. Food
/// spawning, whose cell is drawn at random, is not part of this function.
pub open spec fn pass_model(
    g: GameModel,
    requested: Option<Direction>,
    movement_due: bool,
) -> GameModel {
    let after_input = input_model(g, requested);
    if movement_due {
        game_over_model(growth_model(eating_model(movement_model(after_input))))
    } else {
        after_input
    }
}

/// True iff some cell of `cells` equals `p`.
pub fn contains_position(cells: &Vec<Position>, p: Position) -> (r: bool)
    ensures
        r == cells@.contains(p),
{
    let mut i: usize = 0;
    while i < cells.len()
        invariant
            0 <= i <= cells@.len(),
            forall|j: int| 0 <= j < i ==> cells@[j] != p,
        decreases cells@.len() - i,
    {
        if cells[i] == p {
            proof {
                assert(cells@[i as int] == p);
            }
            return true;
        }
        i += 1;
    }
    false
}

/// Relies on rand::random_range: a pseudo-random draw, uniform over the
/// given range; nothing is assumed of the value beyond membership in the
/// range.
#[verifier::external_body]
fn random_coordinate(bound: i32) -> (r: i32)
    requires
        0 < bound,
    ensures
        0 <= r < bound,
{
    rand::random_range(0..bound)
}

impl Game {
    /// Well-formed state: every recorded cell lies inside the arena.
    pub open spec fn wf(self) -> bool {
        self@.wf()
    }

    /// Builds the startup state: a two-segment snake at the spawn cells
    /// heading up, no food, no recorded tail cell, both queues empty.
    pub fn new() -> (r: Game)
        ensures
            r@ == initial_model(),
            r.wf(),
    {
        let mut segments: Vec<Position> = Vec::new();
        segments.push(Position { x: 3, y: 3 });
        segments.push(Position { x: 3, y: 2 });
        let r = Game {
            segments,
            heading: Direction::Up,
            food: None,
            last_tail_position: None,
            growth_events: 0,
            game_over_events: 0,
        };
        proof {
            assert(r@.segments =~= initial_model().segments);
            assert(r@ =~= initial_model());
        }
        r
    }

    /// Appends one body segment at `position` to the tail end.
    pub fn spawn_segment(&mut self, position: Position)
        ensures
            final(self)@ == (GameModel { segments: old(self)@.segments.push(position), ..old(self)@ }),
    {
        self.segments.push(position);
        proof {
            assert(self@ =~= (GameModel {
                segments: old(self)@.segments.push(position),
                ..old(self)@
            }));
        }
    }

    /// Respawns the snake: a head at the spawn cell heading up and one body
    /// segment directly behind it; food, tail record and queues are kept.
    pub fn spawn_snake(&mut self)
        ensures
            final(self)@ == spawn_model(old(self)@),
    {
        let mut segments: Vec<Position> = Vec::new();
        segments.push(Position { x: 3, y: 3 });
        segments.push(Position { x: 3, y: 2 });
        self.segments = segments;
        self.heading = Direction::Up;
        proof {
            assert(self@.segments =~= spawn_model(old(self)@).segments);
            assert(self@ =~= spawn_model(old(self)@));
        }
    }

    /// One movement step. On an empty snake this is a no-op. Otherwise the
    /// head advances one unit along the heading, every other segment moves
    /// to the cell its predecessor held in the pre-move snapshot, and the
    /// tail's vacated cell is recorded. One game-over signal is queued if
    /// the new head lies outside the arena, and one if it lands on a cell of
    /// the pre-move snapshot.
    pub fn snake_movement(&mut self)
        requires
            old(self).wf(),
            old(self).game_over_events <= u32::MAX - 2,
        ensures
            final(self)@ == movement_model(old(self)@),
    {
        if self.segments.len() == 0 {
            return ;
        }
        let n = self.segments.len();
        proof {
            assert(in_bounds_spec(old(self)@.segments[0]));
        }
        let head = self.segments[0];
        let new_head = head.step(self.heading);
        let out_of_bounds = !is_in_bounds(new_head);
        let self_collision = contains_position(&self.segments, new_head);
        let tail = self.segments[n - 1];

        let mut shifted: Vec<Position> = Vec::new();
        shifted.push(new_head);
        let mut i: usize = 1;
        while i < n
            invariant
                1 <= i <= n,
                n == self.segments@.len(),
                shifted@.len() == i,
                shifted@[0] == new_head,
                forall|j: int| 1 <= j < i ==> shifted@[j] == self.segments@[j - 1],
            decreases n - i,
        {
            let prev = self.segments[i - 1];
            shifted.push(prev);
            i += 1;
        }
        self.segments = shifted;
        self.last_tail_position = Some(tail);
        if out_of_bounds {
            self.game_over_events = self.game_over_events + 1;
        }
        if self_collision {
            self.game_over_events = self.game_over_events + 1;
        }
        proof {
            assert(self@.segments =~= movement_model(old(self)@).segments);
            assert(self@ =~= movement_model(old(self)@));
        }
    }

    /// The eating check: when the head shares the active food's cell, the
    /// food is consumed and exactly one growth signal is queued; on an empty
    /// snake, or when the cells differ, nothing happens.
    pub fn snake_eating(&mut self)
        requires
            old(self).growth_events < u32::MAX,
        ensures
            final(self)@ == eating_model(old(self)@),
    {
        if self.segments.len() == 0 {
            return ;
        }
        let head = self.segments[0];
        if let Some(food_position) = self.food {
            if food_position == head {
                self.food = None;
                self.growth_events = self.growth_events + 1;
            }
        }
        proof {
            assert(self@ =~= eating_model(old(self)@));
        }
    }

    /// The growth handler: reading the queue drains it, and one queued
    /// growth signal appends exactly one body segment, at the cell the tail
    /// vacated. A signal may only be queued once a movement step has
    /// recorded that cell.
    pub fn snake_growth(&mut self)
        requires
            old(self).growth_events > 0 ==> old(self).last_tail_position is Some,
        ensures
            final(self)@ == growth_model(old(self)@),
    {
        if self.growth_events > 0 {
            let p = self.last_tail_position.unwrap();
            self.segments.push(p);
            self.growth_events = 0;
        }
        proof {
            assert(self@ =~= growth_model(old(self)@));
        }
    }

    /// The game-over handler: any queued signal, duplicates coalesced into a
    /// single reset, clears the food, the tail record and both queues, and
    /// respawns the snake; with no signal queued nothing happens.
    pub fn game_over(&mut self)
        ensures
            final(self)@ == game_over_model(old(self)@),
    {
        if self.game_over_events > 0 {
            self.food = None;
            self.last_tail_position = None;
            self.growth_events = 0;
            self.game_over_events = 0;
            self.spawn_snake();
            proof {
                assert(self@ =~= initial_model());
            }
        }
    }

    /// The food spawner: places the single active food item at a
    /// pseudo-randomly drawn cell of the arena, replacing any previous one;
    /// nothing else changes.
    pub fn food_spawner(&mut self)
        ensures
            final(self)@.food is Some,
            in_bounds_spec(final(self)@.food->0),
            final(self)@ == (GameModel { food: final(self)@.food, ..old(self)@ }),
    {
        let x = random_coordinate(ARENA_WIDTH);
        let y = random_coordinate(ARENA_HEIGHT);
        self.food = Some(Position { x, y });
        proof {
            assert(self@ =~= (GameModel { food: self@.food, ..old(self)@ }));
        }
    }

    /// The input resolver: latches the requested direction as the new
    /// heading, unless it is the exact reverse of the current heading, which
    /// is rejected; no request leaves the heading unchanged.
    pub fn snake_input_moviment(&mut self, requested: Option<Direction>)
        ensures
            final(self)@ == input_model(old(self)@, requested),
    {
        let dir = match requested {
            Some(d) => d,
            None => self.heading,
        };
        if dir != self.heading.opposite() {
            self.heading = dir;
        }
        proof {
            lemma_opposite_moves(old(self).heading);
            assert(self@ =~= input_model(old(self)@, requested));
        }
    }

    /// One full scheduler pass, started with both queues empty on a
    /// well-formed state. The input resolver always runs; on a movement tick
    /// the movement engine, the eating check, the growth handler and the
    /// game-over handler run, in that order; on a food tick the spawner then
    /// places a new food item, which is therefore never eligible for
    /// consumption within the same pass. The pass ends on a well-formed
    /// state with both queues empty again.
    pub fn tick(&mut self, requested: Option<Direction>, movement_due: bool, food_due: bool)
        requires
            old(self).wf(),
            old(self).growth_events == 0,
            old(self).game_over_events == 0,
        ensures
            ({
                let d = pass_model(old(self)@, requested, movement_due);
                &&& final(self)@.segments == d.segments
                &&& final(self)@.heading == d.heading
                &&& final(self)@.last_tail == d.last_tail
                &&& (if food_due {
                    final(self)@.food is Some && in_bounds_spec(final(self)@.food->0)
                } else {
                    final(self)@.food == d.food
                })
            }),
            final(self).wf(),
            final(self).growth_events == 0,
            final(self).game_over_events == 0,
    {
        proof {
            lemma_pass_restores_wf(old(self)@, requested, movement_due);
        }
        self.snake_input_moviment(requested);
        if movement_due {
            let ghost a = input_model(old(self)@, requested);
            proof {
                assert(self@.wf());
            }
            self.snake_movement();
            self.snake_eating();
            proof {
                // a growth signal can only have been queued by the eating
                // check, on a nonempty snake whose movement step recorded
                // the vacated tail cell
                if a.segments.len() == 0 {
                    assert(self@.growth_events == 0);
                } else {
                    assert(self@.last_tail is Some);
                }
            }
            self.snake_growth();
            self.game_over();
        }
        if food_due {
            self.food_spawner();
        }
    }
}

/// After one movement step on a well-formed, nonempty snake: the head has
/// advanced exactly one unit along the heading, every other segment holds
/// the cell its predecessor held before the step, and the cell the tail
/// vacated is recorded.
pub proof fn lemma_movement_step(g: GameModel)
    requires
        g.wf(),
        g.segments.len() > 0,
    ensures
        ({
            let m = movement_model(g);
            let new_head = step_position(g.segments[0], g.heading);
            &&& m.segments.len() == g.segments.len()
            &&& m.segments[0] == new_head
            &&& (g.heading == Direction::Left ==> new_head.x == g.segments[0].x - 1 && new_head.y
                == g.segments[0].y)
            &&& (g.heading == Direction::Right ==> new_head.x == g.segments[0].x + 1 && new_head.y
                == g.segments[0].y)
            &&& (g.heading == Direction::Up ==> new_head.y == g.segments[0].y + 1 && new_head.x
                == g.segments[0].x)
            &&& (g.heading == Direction::Down ==> new_head.y == g.segments[0].y - 1 && new_head.x
                == g.segments[0].x)
            &&& forall|i: int| 1 <= i < g.segments.len() ==> m.segments[i] == g.segments[i - 1]
            &&& m.last_tail == Some(g.segments[g.segments.len() - 1])
        }),
{
    assert(in_bounds_spec(g.segments[0]));
}

/// The two collision checks after one movement step: the boundary check
/// queues a game-over signal exactly when the new head lies outside the
/// arena, the self-collision check queues one exactly when the new head
/// lands on a pre-move body cell, and neither check alone fires otherwise.
pub proof fn lemma_collision_checks(g: GameModel)
    requires
        g.wf(),
        g.segments.len() > 0,
    ensures
        ({
            let m = movement_model(g);
            let new_head = step_position(g.segments[0], g.heading);
            let body = g.segments.subrange(1, g.segments.len() as int);
            let boundary: nat = if !in_bounds_spec(new_head) {
                1
            } else {
                0
            };
            let collision: nat = if body.contains(new_head) {
                1
            } else {
                0
            };
            m.game_over_events == g.game_over_events + boundary + collision
        }),
{
    let new_head = step_position(g.segments[0], g.heading);
    let body = g.segments.subrange(1, g.segments.len() as int);
    assert(in_bounds_spec(g.segments[0]));
    crate::geometry::lemma_step_moves(g.segments[0], g.heading);
    // the head's own pre-move cell is one unit away from the new head, so
    // the snapshot check over all segments agrees with the body-only check
    assert(g.segments.contains(new_head) <==> body.contains(new_head)) by {
        if g.segments.contains(new_head) {
            let i = choose|i: int| 0 <= i < g.segments.len() && g.segments[i] == new_head;
            assert(g.segments[i] == new_head);
            assert(i != 0);
            assert(body[i - 1] == new_head);
            assert(body.contains(new_head));
        }
        if body.contains(new_head) {
            let i = choose|i: int| 0 <= i < body.len() && body[i] == new_head;
            assert(g.segments[i + 1] == new_head);
            assert(g.segments.contains(new_head));
        }
    }
}

/// When the post-move head shares the active food's cell: the eating check
/// consumes the food and queues exactly one growth signal, and the growth
/// handler then appends exactly one segment, at the cell the tail vacated,
/// so the snake's length grows by exactly one.
pub proof fn lemma_eating_grows(g: GameModel)
    requires
        g.segments.len() > 0,
        g.food == Some(g.segments[0]),
        g.growth_events == 0,
        g.last_tail is Some,
    ensures
        ({
            let e = eating_model(g);
            let r = growth_model(e);
            &&& e.growth_events == 1
            &&& e.food is None
            &&& e.segments == g.segments
            &&& r.segments == g.segments.push(g.last_tail->0)
            &&& r.segments.len() == g.segments.len() + 1
            &&& r.segments.last() == g.last_tail->0
            &&& r.growth_events == 0
        }),
{
}

/// When the self-collision check does not fire during a movement step, the
/// moved head's cell is distinct from every other post-move segment cell.
pub proof fn lemma_head_distinct_after_clean_move(g: GameModel)
    requires
        g.segments.len() > 0,
        movement_model(g).game_over_events == g.game_over_events,
    ensures
        ({
            let m = movement_model(g);
            forall|i: int| 1 <= i < m.segments.len() ==> #[trigger] m.segments[i] != m.segments[0]
        }),
{
    let m = movement_model(g);
    let new_head = step_position(g.segments[0], g.heading);
    assert(!g.segments.contains(new_head));
    assert forall|i: int| 1 <= i < m.segments.len() implies #[trigger] m.segments[i]
        != m.segments[0] by {
        assert(m.segments[i] == g.segments[i - 1]);
        if g.segments[i - 1] == new_head {
            assert(g.segments.contains(new_head));
        }
    }
}

/// The startup state is well-formed.
pub proof fn lemma_initial_wf()
    ensures
        initial_model().wf(),
{
    let g = initial_model();
    assert forall|i: int| 0 <= i < g.segments.len() implies in_bounds_spec(
        #[trigger] g.segments[i],
    ) by {
        if i == 0 {
            assert(g.segments[0] == spawn_head_position());
        } else {
            assert(g.segments[1] == spawn_body_position());
        }
    }
}

/// A scheduler pass that starts with empty queues on a well-formed state
/// ends on a well-formed state with both queues empty again: every signal
/// queued during the pass is consumed before the pass ends.
pub proof fn lemma_pass_restores_wf(g: GameModel, requested: Option<Direction>, movement_due: bool)
    requires
        g.wf(),
        g.growth_events == 0,
        g.game_over_events == 0,
    ensures
        pass_model(g, requested, movement_due).wf(),
        pass_model(g, requested, movement_due).growth_events == 0,
        pass_model(g, requested, movement_due).game_over_events == 0,
        g.segments.len() >= 2 ==> pass_model(g, requested, movement_due).segments.len() >= 2,
{
    let a = input_model(g, requested);
    assert(a.wf());
    if movement_due {
        let m = movement_model(a);
        let e = eating_model(m);
        let r = growth_model(e);
        if m.game_over_events > 0 {
            assert(r.game_over_events > 0);
            lemma_initial_wf();
        } else {
            if a.segments.len() > 0 {
                let new_head = step_position(a.segments[0], a.heading);
                assert(in_bounds_spec(new_head));
                assert forall|i: int| 0 <= i < m.segments.len() implies in_bounds_spec(
                    #[trigger] m.segments[i],
                ) by {
                    if i > 0 {
                        assert(in_bounds_spec(a.segments[i - 1]));
                    }
                }
            }
            assert(m.wf());
            assert(e.wf());
            assert forall|i: int| 0 <= i < r.segments.len() implies in_bounds_spec(
                #[trigger] r.segments[i],
            ) by {
                if i < e.segments.len() {
                    assert(in_bounds_spec(e.segments[i]));
                }
            }
            assert(r.wf());
        }
    }
}

/// Processing a queued game-over signal leaves the fresh startup state: a
/// snake of length two with its head at the spawn cell heading up, and no
/// food.
pub proof fn lemma_game_over_resets(g: GameModel)
    requires
        g.game_over_events > 0,
    ensures
        ({
            let r = game_over_model(g);
            &&& r.segments.len() == 2
            &&& r.segments[0] == spawn_head_position()
            &&& r.segments[1] == spawn_body_position()
            &&& r.heading == spawn_heading()
            &&& r.food is None
            &&& r.game_over_events == 0
        }),
{
}

} // verus!
