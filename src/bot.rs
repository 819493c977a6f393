//! The per-tick decision loop: combat first, then goal selection and path
//! following, with one-shot activation of interactive waypoints.
use vstd::prelude::*;
use crate::decision::{Decision, DecisionCommit};
use crate::entity::{Entities, Entity, EntityKind, EntityState, SCALE};
use crate::map::{CellPos, GridMap, InteractionKind};
use crate::path::{dist, pos_of, total, PathGraph};

verus! {

/// Default arrival distance: half a cell side.
pub const ARRIVAL_DISTANCE: i64 = 500_000;

/// When the bot commits an `Activate` decision.
#[derive(Clone, Copy, Debug, PartialEq, Eq, Structural)]
pub enum ActivationPolicy {
    /// On arrival at any waypoint whose cell carries an interaction.
    TaggedWaypoint,
    /// On arrival at the last waypoint of the path.
    PathEnd,
}

/// Tunable parameters of the decision loop.
#[derive(Clone, Copy, Debug, PartialEq, Eq, Structural)]
pub struct Config {
    /// A waypoint is reached when the Manhattan distance to its centre is
    /// below this, in millionths of a cell side.
    pub arrival_distance: i64,
    pub activation: ActivationPolicy,
}

impl Default for Config {
    fn default() -> (r: Config)
        ensures
            r == (Config { arrival_distance: ARRIVAL_DISTANCE, activation: ActivationPolicy::TaggedWaypoint }),
    {
        Config { arrival_distance: ARRIVAL_DISTANCE, activation: ActivationPolicy::TaggedWaypoint }
    }
}

/// What one tick of the loop produced.
#[derive(Clone, Copy, Debug, PartialEq, Eq, Structural)]
pub enum TickOutcome {
    /// The bot's own entity is not in the table: nothing to do.
    MissingSelf,
    /// The bot's entity is busy: nothing is committed.
    Busy,
    /// No goal can be reached: the bot stays where it is.
    Unreachable,
    /// No waypoint is left to walk to.
    Waiting,
    /// Commit this decision.
    Commit(DecisionCommit),
    /// Steer towards the centre of this cell (see `steering::move_towards`).
    Steer(CellPos),
}

/// State of the path being followed: the waypoints, the index of the one
/// after the current one, the current one, and the waypoint last activated.
pub type Progress = (Seq<CellPos>, int, Option<CellPos>, Option<CellPos>);

/// Centre of the cell of index `v` along one axis, in millionths of a cell.
pub open spec fn cell_center(v: usize) -> int {
    v * SCALE + SCALE / 2
}

/// Manhattan distance from an entity to the centre of a cell.
pub open spec fn distance_to_cell(e: Entity, t: CellPos) -> int {
    dist(e.x as int, cell_center(t.column)) + dist(e.y as int, cell_center(t.line))
}

pub open spec fn arrived(e: Entity, t: CellPos, cfg: Config) -> bool {
    distance_to_cell(e, t) < cfg.arrival_distance
}

/// The cell at `t` carries an interaction.
pub open spec fn tagged(m: GridMap, t: CellPos) -> bool {
    match m.cell_spec(t.column as int, t.line as int) {
        Some(c) => c.interaction != InteractionKind::NoInteraction,
        None => false,
    }
}

pub open spec fn is_hostile(k: EntityKind) -> bool {
    k == EntityKind::Harmless || k == EntityKind::Patrol || k == EntityKind::Aggressive
}

/// `o` is hostile and within the attack range of `me`.
pub open spec fn threatens(me: Entity, o: Entity) -> bool {
    is_hostile(o.kind) && dist(o.x as int, me.x as int) + dist(o.y as int, me.y as int)
        < me.properties.attack_range
}

/// Handle of the first entity among the first `n` slots that threatens `me`.
pub open spec fn first_threat(ents: Entities, me: Entity, n: int) -> Option<int>
    decreases n,
{
    if n <= 0 {
        None
    } else {
        match first_threat(ents, me, n - 1) {
            Some(i) => Some(i),
            None => match ents.get_spec(n - 1) {
                Some(o) => if threatens(me, o) {
                    Some(n - 1)
                } else {
                    None
                },
                None => None,
            },
        }
    }
}

/// Index of the first goal among the first `n` that `start` can reach.
pub open spec fn first_reachable(g: PathGraph, start: CellPos, goals: Seq<CellPos>, n: int) -> Option<int>
    decreases n,
{
    if n <= 0 {
        None
    } else {
        match first_reachable(g, start, goals, n - 1) {
            Some(k) => Some(k),
            None => if g.reachable(start, goals[n - 1]) {
                Some(n - 1)
            } else {
                None
            },
        }
    }
}

/// Handle of the last slot among the first `n` holding the bot's own entity.
pub open spec fn last_self(ents: Entities, n: int) -> Option<int>
    decreases n,
{
    if n <= 0 {
        None
    } else {
        match ents.get_spec(n - 1) {
            Some(e) => if e.kind == EntityKind::Dll {
                Some(n - 1)
            } else {
                last_self(ents, n - 1)
            },
            None => last_self(ents, n - 1),
        }
    }
}

/// Index of the last cell among the first `n` that carries an interaction.
pub open spec fn last_tagged(m: GridMap, n: int) -> Option<int>
    decreases n,
{
    if n <= 0 {
        None
    } else if m.cells()[n - 1].interaction != InteractionKind::NoInteraction {
        Some(n - 1)
    } else {
        last_tagged(m, n - 1)
    }
}

/// Cell index along one axis of a coordinate: its integer part, zero below
/// the grid.
pub open spec fn coord_cell(v: i64) -> usize {
    if v < 0 {
        0
    } else if v / SCALE > usize::MAX {
        usize::MAX
    } else {
        (v / SCALE) as usize
    }
}

pub open spec fn cell_of(e: Entity) -> CellPos {
    CellPos { column: coord_cell(e.x), line: coord_cell(e.y) }
}

/// Walking along the path within one tick: from the current waypoint, either
/// steer towards it, activate it, or move on to the next one and look again;
/// when the path runs out it is cleared.
pub open spec fn follow(m: GridMap, cfg: Config, me: Entity, handle: usize, p: Progress) -> (Progress, TickOutcome)
    decreases p.0.len() - p.1,
{
    let (path, next, current, activated) = p;
    match current {
        None => (p, TickOutcome::Waiting),
        Some(t) => if !arrived(me, t, cfg) {
            (p, TickOutcome::Steer(t))
        } else if cfg.activation == ActivationPolicy::TaggedWaypoint && tagged(m, t) && activated != Some(t) {
            (
                (path, next, current, Some(t)),
                TickOutcome::Commit(DecisionCommit { entity_handle: handle, decision: Decision::Activate { column: t.column, line: t.line } }),
            )
        } else if 0 <= next < path.len() {
            follow(m, cfg, me, handle, (path, next + 1, Some(path[next]), None))
        } else if cfg.activation == ActivationPolicy::PathEnd && activated != Some(t) {
            (
                (Seq::empty(), 0, None, Some(t)),
                TickOutcome::Commit(DecisionCommit { entity_handle: handle, decision: Decision::Activate { column: t.column, line: t.line } }),
            )
        } else {
            ((Seq::empty(), 0, None, activated), TickOutcome::Waiting)
        },
    }
}

/// State the bot carries across the ticks of one level.
#[derive(Debug)]
pub struct UserData {
    ninja_handle: usize,
    goals: Vec<CellPos>,
    config: Config,
    graph: PathGraph,
    path: Vec<CellPos>,
    next: usize,
    current_target: Option<CellPos>,
    activated: Option<CellPos>,
}

impl UserData {
    pub closed spec fn self_handle(&self) -> usize {
        self.ninja_handle
    }

    pub closed spec fn goals(&self) -> Seq<CellPos> {
        self.goals@
    }

    pub closed spec fn config(&self) -> Config {
        self.config
    }

    pub closed spec fn graph(&self) -> PathGraph {
        self.graph
    }

    pub closed spec fn progress(&self) -> Progress {
        (self.path@, self.next as int, self.current_target, self.activated)
    }

    pub open spec fn wf(&self) -> bool {
        self.graph().wf()
    }

    /// Same handle, goals, configuration and graph.
    pub open spec fn same_setup(&self, other: UserData) -> bool {
        &&& self.self_handle() == other.self_handle()
        &&& self.goals() == other.goals()
        &&& self.config() == other.config()
        &&& self.graph() == other.graph()
    }

    pub fn self_handle_of(&self) -> (r: usize)
        ensures
            r == self.self_handle(),
    {
        self.ninja_handle
    }

    pub fn goal_list(&self) -> (r: Vec<CellPos>)
        ensures
            r@ == self.goals(),
    {
        self.goals.clone()
    }

    /// The waypoint currently walked to, if any.
    pub fn current_target(&self) -> (r: Option<CellPos>)
        ensures
            r == self.progress().2,
    {
        self.current_target
    }
}

/// What one tick does, given the state before (`b`) and after (`a`) it:
/// nothing without the bot's entity or while it is busy; an attack on the
/// first threatening entity; else, after rebuilding the graph if the map
/// changed, a route to the first reachable goal when none is followed or the
/// map changed (a stall when no goal is reachable), then `follow`.
pub open spec fn tick_result(m: GridMap, ents: Entities, b: UserData, a: UserData, r: TickOutcome) -> bool {
    let h = b.self_handle();
    &&& a.self_handle() == h
    &&& a.goals() == b.goals()
    &&& a.config() == b.config()
    &&& match ents.get_spec(h as int) {
        None => r == TickOutcome::MissingSelf && a.graph() == b.graph() && a.progress() == b.progress(),
        Some(me) => if me.state == EntityState::Busy {
            r == TickOutcome::Busy && a.graph() == b.graph() && a.progress() == b.progress()
        } else {
            match first_threat(ents, me, ents.slots().len() as int) {
                Some(i) => r == TickOutcome::Commit(DecisionCommit { entity_handle: h, decision: Decision::Attack { target_handle: i as usize } })
                    && a.graph() == b.graph() && a.progress() == b.progress(),
                None => {
                    &&& (m.changed_spec() ==> a.graph().built_from(m))
                    &&& (!m.changed_spec() ==> a.graph() == b.graph())
                    &&& if b.progress().2.is_none() || m.changed_spec() {
                        let start = cell_of(me);
                        match first_reachable(a.graph(), start, b.goals(), b.goals().len() as int) {
                            None => r == TickOutcome::Unreachable && a.progress() == b.progress(),
                            Some(k) => exists|p: Seq<CellPos>| #[trigger] a.graph().is_route(start, b.goals()[k], p)
                                && (a.progress(), r) == follow(m, b.config(), me, h, (p, 1, Some(p[0]), b.progress().3)),
                        }
                    } else {
                        (a.progress(), r) == follow(m, b.config(), me, h, b.progress())
                    }
                },
            }
        },
    }
}

fn abs_diff_wide(a: i128, b: i128) -> (r: i128)
    requires
        -0x1_0000_0000_0000_0000_0000_0000_0000 < a < 0x1_0000_0000_0000_0000_0000_0000_0000,
        -0x1_0000_0000_0000_0000_0000_0000_0000 < b < 0x1_0000_0000_0000_0000_0000_0000_0000,
    ensures
        r == dist(a as int, b as int),
{
    if a >= b {
        a - b
    } else {
        b - a
    }
}

fn distance_to_cell_exec(e: &Entity, t: &CellPos) -> (r: i128)
    ensures
        r == distance_to_cell(*e, *t),
{
    abs_diff_wide(e.x as i128, t.center_x()) + abs_diff_wide(e.y as i128, t.center_y())
}

fn tagged_exec(map: &GridMap, t: &CellPos) -> (r: bool)
    requires
        map.wf(),
    ensures
        r == tagged(*map, *t),
{
    match map.cell_at_pos(t) {
        Some(c) => c.interaction != InteractionKind::NoInteraction,
        None => false,
    }
}

fn is_activated(a: &Option<CellPos>, t: &CellPos) -> (r: bool)
    ensures
        r == (*a == Some(*t)),
{
    match a {
        Some(p) => p.column == t.column && p.line == t.line,
        None => false,
    }
}

fn threatens_exec(me: &Entity, o: &Entity) -> (r: bool)
    ensures
        r == threatens(*me, *o),
{
    let hostile = o.kind == EntityKind::Harmless || o.kind == EntityKind::Patrol || o.kind
        == EntityKind::Aggressive;
    hostile && abs_diff_wide(o.x as i128, me.x as i128) + abs_diff_wide(o.y as i128, me.y as i128)
        < me.properties.attack_range as i128
}

fn coord_cell_exec(v: i64) -> (r: usize)
    ensures
        r == coord_cell(v),
{
    if v < 0 {
        0
    } else {
        let q = (v / SCALE) as u64;
        if q as u128 > usize::MAX as u128 {
            usize::MAX
        } else {
            q as usize
        }
    }
}

proof fn lemma_first_threat_stays(ents: Entities, me: Entity, n: int, m: int)
    requires
        n <= m,
        first_threat(ents, me, n) is Some,
    ensures
        first_threat(ents, me, m) == first_threat(ents, me, n),
    decreases m - n,
{
    if n < m {
        lemma_first_threat_stays(ents, me, n, m - 1);
    }
}

proof fn lemma_first_reachable_stays(g: PathGraph, start: CellPos, goals: Seq<CellPos>, n: int, m: int)
    requires
        n <= m,
        first_reachable(g, start, goals, n) is Some,
    ensures
        first_reachable(g, start, goals, m) == first_reachable(g, start, goals, n),
    decreases m - n,
{
    if n < m {
        lemma_first_reachable_stays(g, start, goals, n, m - 1);
    }
}

/// A route always holds at least the goal.
proof fn lemma_route_nonempty(g: PathGraph, s: CellPos, t: CellPos, p: Seq<CellPos>)
    requires
        g.is_route(s, t, p),
    ensures
        p.len() >= 1,
{
    if s != t {
        let cost = choose|cost: int| g.is_cheapest(seq![s] + p, cost, s, t);
        let costs = choose|costs: Seq<u64>| #[trigger] g.walk_between(seq![s] + p, costs, s, t) && total(costs) == cost;
        if p.len() == 0 {
            assert((seq![s] + p).last() == s);
        }
    }
}

/// Handle of the first entity that threatens `me`.
fn find_threat(ents: &Entities, me: &Entity) -> (r: Option<usize>)
    ensures
        r == match first_threat(*ents, *me, ents.slots().len() as int) {
            Some(i) => Some(i as usize),
            None => None::<usize>,
        },
{
    let n = ents.len();
    let mut i: usize = 0;
    while i < n
        invariant
            n == ents.slots().len(),
            i <= n,
            first_threat(*ents, *me, i as int) is None,
        decreases n - i,
    {
        match ents.get(i) {
            Some(o) => {
                if threatens_exec(me, &o) {
                    proof {
                        lemma_first_threat_stays(*ents, *me, i + 1, n as int);
                    }
                    return Some(i);
                }
            },
            None => {},
        }
        i = i + 1;
    }
    None
}

/// Route to the first goal, in priority order, that `start` can reach.
fn select_goal(graph: &PathGraph, start: &CellPos, goals: &Vec<CellPos>) -> (r: Option<Vec<CellPos>>)
    requires
        graph.wf(),
    ensures
        match first_reachable(*graph, *start, goals@, goals@.len() as int) {
            None => r is None,
            Some(k) => r matches Some(p) && graph.is_route(*start, goals@[k], p@),
        },
{
    let mut k: usize = 0;
    while k < goals.len()
        invariant
            graph.wf(),
            k <= goals@.len(),
            first_reachable(*graph, *start, goals@, k as int) is None,
        decreases goals@.len() - k,
    {
        match graph.path_to(start, &goals[k]) {
            Some(p) => {
                proof {
                    lemma_first_reachable_stays(*graph, *start, goals@, k + 1, goals@.len() as int);
                }
                return Some(p);
            },
            None => {},
        }
        k = k + 1;
    }
    None
}

/// Walks the path as far as this tick allows (see `follow`).
fn advance(data: &mut UserData, map: &GridMap, me: &Entity) -> (r: TickOutcome)
    requires
        map.wf(),
    ensures
        final(data).same_setup(*old(data)),
        (final(data).progress(), r) == follow(*map, old(data).config(), *me, old(data).self_handle(), old(data).progress()),
{
    let ghost d0 = *data;
    let cfg = data.config;
    let h = data.ninja_handle;
    loop
        invariant
            map.wf(),
            d0 == *old(data),
            cfg == d0.config(),
            h == d0.self_handle(),
            data.same_setup(d0),
            follow(*map, cfg, *me, h, data.progress()) == follow(*map, cfg, *me, h, d0.progress()),
        decreases data.path@.len() - data.next,
    {
        let t = match data.current_target {
            Some(t) => t,
            None => return TickOutcome::Waiting,
        };
        if distance_to_cell_exec(me, &t) >= cfg.arrival_distance as i128 {
            return TickOutcome::Steer(t);
        }
        let already = is_activated(&data.activated, &t);
        if cfg.activation == ActivationPolicy::TaggedWaypoint && tagged_exec(map, &t) && !already {
            data.activated = Some(t);
            return TickOutcome::Commit(Decision::activate(t.column, t.line).commit(h));
        }
        if data.next < data.path.len() {
            let n = data.path[data.next];
            data.current_target = Some(n);
            data.next = data.next + 1;
            data.activated = None;
        } else {
            data.path = Vec::new();
            data.next = 0;
            data.current_target = None;
            if cfg.activation == ActivationPolicy::PathEnd && !already {
                data.activated = Some(t);
                return TickOutcome::Commit(Decision::activate(t.column, t.line).commit(h));
            }
            return TickOutcome::Waiting;
        }
    }
}

/// Nothing to prepare before the first level.
pub fn init() {
}

/// Sets up the state of a level: the bot's own entity (the last slot of kind
/// `Dll`), the goals in priority order (`target`, then the last cell that
/// carries an interaction, if any), and the graph of the map. `None` when
/// the table holds no entity of the bot.
pub fn start_level(map: &GridMap, entities: &Entities, target: CellPos, config: Config) -> (r: Option<UserData>)
    requires
        map.wf(),
    ensures
        r is None <==> last_self(*entities, entities.slots().len() as int) is None,
        r matches Some(d) ==> {
            &&& d.wf()
            &&& last_self(*entities, entities.slots().len() as int) == Some(d.self_handle() as int)
            &&& d.goals() == match last_tagged(*map, map.cells().len() as int) {
                Some(i) => seq![target, pos_of(i, map.width_spec())],
                None => seq![target],
            }
            &&& d.config() == config
            &&& d.graph().built_from(*map)
            &&& d.progress() == (Seq::<CellPos>::empty(), 0int, None::<CellPos>, None::<CellPos>)
        },
{
    let n = entities.len();
    let mut ninja: Option<usize> = None;
    let mut i: usize = 0;
    while i < n
        invariant
            n == entities.slots().len(),
            i <= n,
            match last_self(*entities, i as int) {
                Some(j) => 0 <= j < i && ninja == Some(j as usize),
                None => ninja is None,
            },
        decreases n - i,
    {
        match entities.get(i) {
            Some(e) => {
                if e.kind == EntityKind::Dll {
                    ninja = Some(i);
                }
            },
            None => {},
        }
        i = i + 1;
    }
    let ninja_handle = match ninja {
        Some(h) => h,
        None => return None,
    };
    let width = map.width();
    let total = width * map.height();
    let mut button: Option<usize> = None;
    let mut c: usize = 0;
    while c < total
        invariant
            map.wf(),
            width == map.width_spec(),
            total == map.cells().len(),
            c <= total,
            match last_tagged(*map, c as int) {
                Some(j) => 0 <= j < c && button == Some(j as usize),
                None => button is None,
            },
        decreases total - c,
    {
        if map.cell_at_index(c).interaction != InteractionKind::NoInteraction {
            button = Some(c);
        }
        c = c + 1;
    }
    let mut goals: Vec<CellPos> = Vec::new();
    goals.push(target);
    match button {
        Some(b) => {
            assert(width > 0) by (nonlinear_arith)
                requires b < total, total == width * map.height_spec();
            goals.push(CellPos { column: b % width, line: b / width });
        },
        None => {},
    }
    proof {
        match last_tagged(*map, map.cells().len() as int) {
            Some(j) => assert(goals@ =~= seq![target, pos_of(j, map.width_spec())]),
            None => assert(goals@ =~= seq![target]),
        }
    }
    Some(UserData {
        ninja_handle,
        goals,
        config,
        graph: PathGraph::build(map),
        path: Vec::new(),
        next: 0,
        current_target: None,
        activated: None,
    })
}

/// One tick of the decision loop (see `tick_result`).
pub fn think(map: &GridMap, entities: &Entities, data: &mut UserData) -> (r: TickOutcome)
    requires
        map.wf(),
        old(data).wf(),
    ensures
        final(data).wf(),
        tick_result(*map, *entities, *old(data), *final(data), r),
{
    let h = data.ninja_handle;
    let me = match entities.get(h) {
        Some(e) => e,
        None => return TickOutcome::MissingSelf,
    };
    if me.state == EntityState::Busy {
        return TickOutcome::Busy;
    }
    match find_threat(entities, &me) {
        Some(i) => return TickOutcome::Commit(Decision::attack(i).commit(h)),
        None => {},
    }
    let changed = map.changed();
    if changed {
        data.graph.rebuild(map);
    }
    let ghost d1 = *data;
    if data.current_target.is_none() || changed {
        let start = CellPos { column: coord_cell_exec(me.x), line: coord_cell_exec(me.y) };
        match select_goal(&data.graph, &start, &data.goals) {
            None => return TickOutcome::Unreachable,
            Some(route) => {
                let ghost k = first_reachable(data.graph, start, data.goals@, data.goals@.len() as int)->Some_0;
                proof {
                    lemma_route_nonempty(data.graph, start, data.goals@[k], route@);
                }
                let first = route[0];
                let ghost rv = route@;
                data.path = route;
                data.next = 1;
                data.current_target = Some(first);
                let r = advance(data, map, &me);
                proof {
                    assert(d1.graph().is_route(start, d1.goals()[k], rv));
                }
                return r;
            },
        }
    }
    advance(data, map, &me)
}

} // verus!
