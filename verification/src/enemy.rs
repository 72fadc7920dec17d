//! Steering of a pursuing agent: a sampled controller that picks a new
//! heading once per period from the answer of a path search, and falls
//! back to the straight line to its target when the search gives none.
//!
//! Positions are fixed-point points in any one scale. A heading is the
//! exact difference of two positions; it is not normalised here, since its
//! length takes a square root.

use vstd::prelude::*;
use crate::geometry::Point3;

verus! {

/// Time between two recomputations of a heading, in milliseconds.
pub const PATH_PERIOD_MS: u64 = 400;

/// Speed of every pursuing agent, in world units per second. An agent's
/// velocity is its heading, brought to length one, times this speed.
pub const ENEMY_SPEED: i32 = 10;

/// A direction in the world, not normalised. `y` is the vertical axis.
#[derive(Clone, Copy, Debug, PartialEq, Eq, Structural)]
pub struct Direction {
    pub x: i64,
    pub y: i64,
    pub z: i64,
}

/// What a path search answered.
#[derive(Debug)]
pub enum PathResult {
    /// A route: its waypoints in order, from the start of the search to
    /// the goal. There is at least one.
    Found(Vec<Point3>),
    /// No route leads from the start to the goal.
    NoRoute,
    /// The navigation data could not be read at this moment.
    Unavailable,
}

impl PathResult {
    /// A route that was found has at least one waypoint.
    pub open spec fn wf(self) -> bool {
        self matches PathResult::Found(path) ==> path@.len() >= 1
    }
}

/// State of one pursuing agent.
#[derive(Clone, Copy, Debug, PartialEq, Eq, Structural)]
pub struct Enemy {
    /// The heading the agent follows, as last computed.
    pub current_path: Direction,
    /// When that heading was computed, in milliseconds.
    pub last_path_set: u64,
}

/// The direction from `from` straight to `to`, in all three axes.
pub open spec fn direct(from: Point3, to: Point3) -> Direction {
    Direction {
        x: (to.x - from.x) as i64,
        y: (to.y - from.y) as i64,
        z: (to.z - from.z) as i64,
    }
}

/// `d` without its vertical component.
pub open spec fn flat(d: Direction) -> Direction {
    Direction { x: d.x, y: 0, z: d.z }
}

/// The waypoint of a route to steer toward: the second one, since the
/// first is where the search started, or the only one.
pub open spec fn goal_of(path: Seq<Point3>) -> Point3
    recommends
        path.len() >= 1,
{
    if path.len() > 1 {
        path[1]
    } else {
        path[0]
    }
}

/// The heading an agent at `agent` takes toward `target`, given the answer
/// of the path search. With a route it is the horizontal direction to the
/// route's goal, unless that direction has no length; in that case, and
/// without a route, it is the direct line to the target.
pub open spec fn heading_for(agent: Point3, target: Point3, route: PathResult) -> Direction {
    match route {
        PathResult::Found(path) => {
            let next = flat(direct(agent, goal_of(path@)));
            if next.x == 0 && next.z == 0 {
                direct(agent, target)
            } else {
                next
            }
        },
        PathResult::NoRoute => direct(agent, target),
        PathResult::Unavailable => direct(agent, target),
    }
}

impl Enemy {
    /// Whether the heading is due for recomputation at time `now`: more
    /// than a period has passed since it was last computed.
    pub open spec fn due(self, now: u64) -> bool {
        now - self.last_path_set > PATH_PERIOD_MS
    }

    /// The state after a tick at time `now`. A heading that is due is
    /// replaced and stamped with `now`; otherwise nothing changes.
    pub open spec fn after_tick(
        self,
        now: u64,
        agent: Point3,
        target: Point3,
        route: PathResult,
    ) -> Enemy {
        if self.due(now) {
            Enemy { current_path: heading_for(agent, target, route), last_path_set: now }
        } else {
            self
        }
    }

    /// A freshly spawned agent: it has no heading yet, and its first
    /// heading is due a period after `now`.
    pub fn new(now: u64) -> (enemy: Enemy)
        ensures
            enemy.current_path == (Direction { x: 0, y: 0, z: 0 }),
            enemy.last_path_set == now,
    {
        Enemy { current_path: Direction { x: 0, y: 0, z: 0 }, last_path_set: now }
    }

    /// Whether the heading is due for recomputation at time `now`.
    pub fn path_due(&self, now: u64) -> (r: bool)
        ensures
            r == self.due(now),
    {
        now > self.last_path_set && now - self.last_path_set > PATH_PERIOD_MS
    }

    /// The direction the agent turns to face on this tick, if any: its
    /// heading, as long as the heading's horizontal part `(x, z)` is not
    /// zero. The yaw to take is the angle `atan2(x, z)`, at once and
    /// without smoothing; an agent whose heading has no horizontal part
    /// keeps the yaw it has.
    pub fn facing(&self) -> (turn: Option<Direction>)
        ensures
            turn == if self.current_path.x != 0 || self.current_path.z != 0 {
                Some(self.current_path)
            } else {
                None
            },
    {
        if self.current_path.x != 0 || self.current_path.z != 0 {
            Some(self.current_path)
        } else {
            None
        }
    }
}

/// Computes [`direct`].
pub fn direct_heading(from: Point3, to: Point3) -> (d: Direction)
    ensures
        d == direct(from, to),
{
    Direction {
        x: to.x as i64 - from.x as i64,
        y: to.y as i64 - from.y as i64,
        z: to.z as i64 - from.z as i64,
    }
}

/// The waypoint of `path` to steer toward: `path[1]` when the route has
/// more than one waypoint, `path[0]` when it has just one.
pub fn select_goal(path: &Vec<Point3>) -> (goal: Point3)
    requires
        path@.len() >= 1,
    ensures
        goal == goal_of(path@),
        path@.len() >= 2 ==> goal == path@[1],
        path@.len() == 1 ==> goal == path@[0],
{
    if path.len() > 1 {
        path[1]
    } else {
        path[0]
    }
}

/// The heading of an agent at `agent` that pursues `target`, given the
/// answer of the path search from `agent` to `target`.
pub fn steer(agent: Point3, target: Point3, route: &PathResult) -> (heading: Direction)
    requires
        route.wf(),
    ensures
        heading == heading_for(agent, target, *route),
{
    match route {
        PathResult::Found(path) => {
            let goal = select_goal(path);
            let toward = direct_heading(agent, goal);
            if toward.x == 0 && toward.z == 0 {
                direct_heading(agent, target)
            } else {
                Direction { x: toward.x, y: 0, z: toward.z }
            }
        },
        PathResult::NoRoute => direct_heading(agent, target),
        PathResult::Unavailable => direct_heading(agent, target),
    }
}

/// One tick of the controller at time `now`. When the heading is due, it
/// is recomputed from `route`, the answer of the path search from
/// `enemy_pos` to `player_pos`, and stamped with `now`; otherwise the
/// agent keeps its heading and `route` is not looked at. Returns whether
/// the heading was recomputed.
pub fn move_enemy(
    enemy: &mut Enemy,
    now: u64,
    enemy_pos: Point3,
    player_pos: Point3,
    route: &PathResult,
) -> (recomputed: bool)
    requires
        route.wf(),
    ensures
        recomputed == old(enemy).due(now),
        *final(enemy) == old(enemy).after_tick(now, enemy_pos, player_pos, *route),
{
    if enemy.path_due(now) {
        let heading = steer(enemy_pos, player_pos, route);
        enemy.last_path_set = now;
        enemy.current_path = heading;
        true
    } else {
        false
    }
}

/// Without a route the agent heads straight for its target: when the
/// search found no route, or the navigation data could not be read, the
/// heading is the full direction from the agent to the target, vertical
/// component included.
pub proof fn lemma_fallback_is_direct(agent: Point3, target: Point3, route: PathResult)
    requires
        route is NoRoute || route is Unavailable,
    ensures
        heading_for(agent, target, route) == direct(agent, target),
        heading_for(agent, target, route).x == target.x - agent.x,
        heading_for(agent, target, route).y == target.y - agent.y,
        heading_for(agent, target, route).z == target.z - agent.z,
{
}

/// With a route the agent heads for the route's goal in the horizontal
/// plane: the heading has no vertical component, and it points from the
/// agent to the goal. This holds whenever the goal does not lie straight
/// above or below the agent; the heading then has a length, so that it can
/// be normalised.
pub proof fn lemma_route_heading_is_horizontal(agent: Point3, target: Point3, path: Vec<Point3>)
    requires
        path@.len() >= 1,
        goal_of(path@).x != agent.x || goal_of(path@).z != agent.z,
    ensures
        heading_for(agent, target, PathResult::Found(path)).y == 0,
        heading_for(agent, target, PathResult::Found(path)).x == goal_of(path@).x - agent.x,
        heading_for(agent, target, PathResult::Found(path)).z == goal_of(path@).z - agent.z,
        heading_for(agent, target, PathResult::Found(path)).x != 0 || heading_for(
            agent,
            target,
            PathResult::Found(path),
        ).z != 0,
{
}

/// A route whose goal lies straight above or below the agent gives no
/// horizontal direction, and the agent heads straight for its target.
pub proof fn lemma_degenerate_route_is_direct(agent: Point3, target: Point3, path: Vec<Point3>)
    requires
        path@.len() >= 1,
        goal_of(path@).x == agent.x,
        goal_of(path@).z == agent.z,
    ensures
        heading_for(agent, target, PathResult::Found(path)) == direct(agent, target),
{
}

/// A heading holds for a period. After a tick at `t1` that recomputed the
/// heading, a tick at any `t2` no more than a period later changes
/// nothing, whatever the positions and the search say by then.
pub proof fn lemma_heading_held_within_period(
    enemy: Enemy,
    t1: u64,
    agent1: Point3,
    target1: Point3,
    route1: PathResult,
    t2: u64,
    agent2: Point3,
    target2: Point3,
    route2: PathResult,
)
    requires
        enemy.due(t1),
        t1 <= t2,
        t2 - t1 <= PATH_PERIOD_MS,
    ensures
        enemy.after_tick(t1, agent1, target1, route1).after_tick(t2, agent2, target2, route2)
            == enemy.after_tick(t1, agent1, target1, route1),
{
}

/// A heading is recomputed once per period. A tick at which the heading is
/// due recomputes it and stamps it with the time of the tick, so that a
/// second tick at the same time does not recompute it again; and the next
/// tick that recomputes it comes more than a period later.
pub proof fn lemma_one_recompute_per_period(
    enemy: Enemy,
    t1: u64,
    agent: Point3,
    target: Point3,
    route: PathResult,
    t2: u64,
)
    requires
        enemy.due(t1),
        t1 <= t2,
    ensures
        enemy.after_tick(t1, agent, target, route).current_path == heading_for(agent, target, route),
        enemy.after_tick(t1, agent, target, route).last_path_set == t1,
        !enemy.after_tick(t1, agent, target, route).due(t1),
        enemy.after_tick(t1, agent, target, route).due(t2) <==> t2 - t1 > PATH_PERIOD_MS,
{
}

/// What one tick of the controller is given.
pub struct Tick {
    pub now: u64,
    pub agent: Point3,
    pub target: Point3,
    pub route: PathResult,
}

/// The state after a run of ticks, first to last.
pub open spec fn after_ticks(enemy: Enemy, ticks: Seq<Tick>) -> Enemy
    decreases ticks.len(),
{
    if ticks.len() == 0 {
        enemy
    } else {
        let t = ticks[0];
        after_ticks(enemy.after_tick(t.now, t.agent, t.target, t.route), ticks.drop_first())
    }
}

/// How many ticks of a run recompute the heading.
pub open spec fn recomputations(enemy: Enemy, ticks: Seq<Tick>) -> nat
    decreases ticks.len(),
{
    if ticks.len() == 0 {
        0
    } else {
        let t = ticks[0];
        (if enemy.due(t.now) { 1nat } else { 0nat }) + recomputations(
            enemy.after_tick(t.now, t.agent, t.target, t.route),
            ticks.drop_first(),
        )
    }
}

/// Whether the ticks of a run come in the order of their times.
pub open spec fn in_time_order(ticks: Seq<Tick>) -> bool {
    forall|i: int, j: int| 0 <= i <= j < ticks.len() ==> ticks[i].now <= ticks[j].now
}

/// A run of ticks that all come no more than a period after the heading
/// was computed recomputes nothing and leaves the state as it was.
pub proof fn lemma_run_within_period_holds(enemy: Enemy, ticks: Seq<Tick>)
    requires
        forall|i: int| 0 <= i < ticks.len() ==> !enemy.due(#[trigger] ticks[i].now),
    ensures
        recomputations(enemy, ticks) == 0,
        after_ticks(enemy, ticks) == enemy,
    decreases ticks.len(),
{
    if ticks.len() > 0 {
        let rest = ticks.drop_first();
        assert(!enemy.due(ticks[0].now));
        assert forall|i: int| 0 <= i < rest.len() implies !enemy.due(#[trigger] rest[i].now) by {
            assert(rest[i] == ticks[i + 1]);
        }
        lemma_run_within_period_holds(enemy, rest);
    }
}

/// However many ticks fall within one period, at most one of them
/// recomputes the heading.
pub proof fn lemma_at_most_one_recompute_in_a_period(enemy: Enemy, ticks: Seq<Tick>)
    requires
        in_time_order(ticks),
        ticks.len() > 0 ==> ticks.last().now - ticks[0].now <= PATH_PERIOD_MS,
    ensures
        recomputations(enemy, ticks) <= 1,
    decreases ticks.len(),
{
    if ticks.len() > 0 {
        let t = ticks[0];
        let rest = ticks.drop_first();
        let next = enemy.after_tick(t.now, t.agent, t.target, t.route);
        assert forall|i: int| 0 <= i < rest.len() implies t.now <= (#[trigger] rest[i]).now
            <= ticks.last().now by {
            assert(rest[i] == ticks[i + 1]);
        }
        if enemy.due(t.now) {
            assert forall|i: int| 0 <= i < rest.len() implies !next.due(#[trigger] rest[i].now) by {
                assert(t.now <= rest[i].now <= ticks.last().now);
            }
            lemma_run_within_period_holds(next, rest);
        } else {
            assert(in_time_order(rest)) by {
                assert forall|i: int, j: int| 0 <= i <= j < rest.len() implies rest[i].now
                    <= rest[j].now by {
                    assert(rest[i] == ticks[i + 1]);
                    assert(rest[j] == ticks[j + 1]);
                }
            }
            if rest.len() > 0 {
                assert(rest.last() == ticks.last());
                assert(rest[0] == ticks[1]);
            }
            lemma_at_most_one_recompute_in_a_period(next, rest);
        }
    }
}

} // verus!
