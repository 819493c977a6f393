//! Traversability graph over the ground cells of a map, and shortest-path
//! search over it.
use vstd::prelude::*;
use crate::map::{CellKind, CellPos, GridMap, MAX_CELLS};

verus! {

/// Cost of a step to one of the four orthogonal neighbours.
pub const STRAIGHT_COST: u64 = 10;

/// Cost of a diagonal step.
pub const DIAGONAL_COST: u64 = 15;

pub open spec fn dist(a: int, b: int) -> int {
    if a >= b {
        a - b
    } else {
        b - a
    }
}

pub open spec fn manhattan(a: CellPos, b: CellPos) -> int {
    dist(a.column as int, b.column as int) + dist(a.line as int, b.line as int)
}

/// Column offset of the `k`-th candidate neighbour: four orthogonal ones
/// (left, right, below, above), then four diagonal ones.
pub open spec fn dir_dc(k: int) -> int {
    if k == 0 || k == 4 || k == 6 {
        -1
    } else if k == 1 || k == 5 || k == 7 {
        1
    } else {
        0
    }
}

/// Line offset of the `k`-th candidate neighbour.
pub open spec fn dir_dl(k: int) -> int {
    if k == 2 || k == 4 || k == 5 {
        1
    } else if k == 3 || k == 6 || k == 7 {
        -1
    } else {
        0
    }
}

pub open spec fn dir_cost(k: int) -> u64 {
    if k < 4 {
        STRAIGHT_COST
    } else {
        DIAGONAL_COST
    }
}

/// The `k`-th candidate neighbour of `(c, l)` can be entered: it is ground,
/// and for a diagonal both cells flanking the move are ground too.
pub open spec fn step_ok(m: GridMap, c: int, l: int, k: int) -> bool {
    let tc = c + dir_dc(k);
    let tl = l + dir_dl(k);
    m.is_ground(tc, tl) && (k < 4 || (m.is_ground(tc, l) && m.is_ground(c, tl)))
}

pub open spec fn step_entry(c: int, l: int, k: int) -> (CellPos, u64) {
    (CellPos { column: (c + dir_dc(k)) as usize, line: (l + dir_dl(k)) as usize }, dir_cost(k))
}

/// Successor list made of the eligible candidates among the first `k`.
pub open spec fn succ_upto(m: GridMap, c: int, l: int, k: int) -> Seq<(CellPos, u64)>
    decreases k,
{
    if k <= 0 {
        Seq::empty()
    } else {
        let s = succ_upto(m, c, l, k - 1);
        if step_ok(m, c, l, k - 1) {
            s.push(step_entry(c, l, k - 1))
        } else {
            s
        }
    }
}

/// The successors, with their step costs, of cell `(c, l)`.
pub open spec fn successors_spec(m: GridMap, c: int, l: int) -> Seq<(CellPos, u64)> {
    succ_upto(m, c, l, 8)
}

/// What the graph built from `m` holds for position `p`: a successor list
/// for a ground cell, nothing for any other position.
pub open spec fn expected_node(m: GridMap, p: CellPos) -> Option<Seq<(CellPos, u64)>> {
    if m.is_ground(p.column as int, p.line as int) {
        Some(successors_spec(m, p.column as int, p.line as int))
    } else {
        None
    }
}

/// The edge rule stated directly: both ends ground, and either orthogonal
/// neighbours at cost 10, or diagonal neighbours with both flanking cells
/// ground at cost 15.
pub open spec fn edge_rule(m: GridMap, a: CellPos, b: CellPos, cost: u64) -> bool {
    let (ac, al, bc, bl) = (a.column as int, a.line as int, b.column as int, b.line as int);
    &&& m.is_ground(ac, al)
    &&& m.is_ground(bc, bl)
    &&& {
        ||| (manhattan(a, b) == 1 && cost == STRAIGHT_COST)
        ||| (dist(ac, bc) == 1 && dist(al, bl) == 1 && m.is_ground(bc, al) && m.is_ground(ac, bl)
            && cost == DIAGONAL_COST)
    }
}

/// Sum of a sequence of step costs.
pub open spec fn total(costs: Seq<u64>) -> int
    decreases costs.len(),
{
    if costs.len() == 0 {
        0
    } else {
        total(costs.drop_last()) + costs.last()
    }
}

/// The search's estimate of the cost left from `p` to `goal`: the Manhattan
/// distance in cost units (ten per cell), divided by three.
pub open spec fn estimate(p: CellPos, goal: CellPos) -> int {
    let e = (10 * manhattan(p, goal)) / 3;
    if e > u64::MAX {
        u64::MAX as int
    } else {
        e
    }
}

/// Successor graph over the ground cells of a map, one slot per cell, line
/// after line.
#[derive(Clone, Debug)]
pub struct PathGraph {
    width: usize,
    height: usize,
    successors: Vec<Option<Vec<(CellPos, u64)>>>,
}

pub open spec fn opt_view(o: Option<Vec<(CellPos, u64)>>) -> Option<Seq<(CellPos, u64)>> {
    match o {
        Some(v) => Some(v@),
        None => None,
    }
}

impl PathGraph {
    pub closed spec fn width_spec(&self) -> int {
        self.width as int
    }

    pub closed spec fn height_spec(&self) -> int {
        self.height as int
    }

    pub closed spec fn table(&self) -> Seq<Option<Seq<(CellPos, u64)>>> {
        Seq::new(self.successors@.len(), |i: int| opt_view(self.successors@[i]))
    }

    pub open spec fn in_bounds(&self, p: CellPos) -> bool {
        p.column < self.width_spec() && p.line < self.height_spec()
    }

    /// The slot of position `p`: `None` for a position that is no node.
    pub open spec fn node(&self, p: CellPos) -> Option<Seq<(CellPos, u64)>> {
        if self.in_bounds(p) {
            self.table()[p.column + p.line * self.width_spec()]
        } else {
            None
        }
    }

    /// The successors of `p`, empty for a position that is no node.
    pub open spec fn succ_of(&self, p: CellPos) -> Seq<(CellPos, u64)> {
        match self.node(p) {
            Some(s) => s,
            None => Seq::empty(),
        }
    }

    /// Every edge stays inside the grid, and ten times the Manhattan distance
    /// it covers is at most three times its cost, which keeps the search's
    /// estimate from exceeding the cost left.
    pub open spec fn wf(&self) -> bool {
        &&& self.width_spec() * self.height_spec() <= MAX_CELLS
        &&& self.table().len() == self.width_spec() * self.height_spec()
        &&& forall|p: CellPos, j: int|
            0 <= j < self.succ_of(p).len() ==> {
                let e = #[trigger] self.succ_of(p)[j];
                &&& self.in_bounds(e.0)
                &&& 10 * manhattan(p, e.0) <= 3 * e.1
            }
    }

    /// The graph is the one that `m` determines.
    pub open spec fn built_from(&self, m: GridMap) -> bool {
        &&& self.width_spec() == m.width_spec()
        &&& self.height_spec() == m.height_spec()
        &&& forall|p: CellPos| #[trigger] self.node(p) == expected_node(m, p)
    }

    pub open spec fn is_walk(&self, nodes: Seq<CellPos>, costs: Seq<u64>) -> bool {
        &&& nodes.len() == costs.len() + 1
        &&& forall|i: int|
            #![trigger costs[i]]
            0 <= i < costs.len() ==> self.succ_of(nodes[i]).contains((nodes[i + 1], costs[i]))
    }

    pub open spec fn walk_between(
        &self,
        nodes: Seq<CellPos>,
        costs: Seq<u64>,
        s: CellPos,
        t: CellPos,
    ) -> bool {
        &&& self.is_walk(nodes, costs)
        &&& nodes[0] == s
        &&& nodes.last() == t
    }

    pub open spec fn reachable(&self, s: CellPos, t: CellPos) -> bool {
        exists|nodes: Seq<CellPos>, costs: Seq<u64>| #[trigger] self.walk_between(nodes, costs, s, t)
    }

    /// `nodes` is a walk from `s` to `t` of cost `cost`, and no walk from `s`
    /// to `t` costs less.
    pub open spec fn is_cheapest(&self, nodes: Seq<CellPos>, cost: int, s: CellPos, t: CellPos) -> bool {
        &&& exists|costs: Seq<u64>| #[trigger] self.walk_between(nodes, costs, s, t) && total(costs) == cost
        &&& forall|n2: Seq<CellPos>, c2: Seq<u64>| #[trigger] self.walk_between(n2, c2, s, t) ==> cost <= total(c2)
    }

    pub open spec fn is_shortest(&self, nodes: Seq<CellPos>, s: CellPos, t: CellPos) -> bool {
        exists|cost: int| self.is_cheapest(nodes, cost, s, t)
    }

    /// What `path_to` returns when it finds a way: the goal alone when start
    /// and goal coincide, else the waypoints after the start of a shortest
    /// walk.
    pub open spec fn is_route(&self, s: CellPos, t: CellPos, p: Seq<CellPos>) -> bool {
        if s == t {
            p == seq![t]
        } else {
            self.is_shortest(seq![s] + p, s, t)
        }
    }
}

/// `v` moved by `d`, when the result is still a `usize`.
fn shift(v: usize, d: i8) -> (r: Option<usize>)
    requires
        -1 <= d <= 1,
    ensures
        r matches Some(x) ==> x == v + d,
        r is None ==> v + d < 0 || v + d > usize::MAX,
{
    if d < 0 {
        if v == 0 {
            None
        } else {
            Some(v - 1)
        }
    } else if d > 0 {
        if v == usize::MAX {
            None
        } else {
            Some(v + 1)
        }
    } else {
        Some(v)
    }
}

/// Offsets and step cost of the `k`-th candidate neighbour.
fn direction(k: usize) -> (r: (i8, i8, u64))
    requires
        k < 8,
    ensures
        r.0 == dir_dc(k as int),
        r.1 == dir_dl(k as int),
        r.2 == dir_cost(k as int),
{
    if k == 0 {
        (-1, 0, STRAIGHT_COST)
    } else if k == 1 {
        (1, 0, STRAIGHT_COST)
    } else if k == 2 {
        (0, 1, STRAIGHT_COST)
    } else if k == 3 {
        (0, -1, STRAIGHT_COST)
    } else if k == 4 {
        (-1, 1, DIAGONAL_COST)
    } else if k == 5 {
        (1, 1, DIAGONAL_COST)
    } else if k == 6 {
        (-1, -1, DIAGONAL_COST)
    } else {
        (1, -1, DIAGONAL_COST)
    }
}

fn ground_at(map: &GridMap, column: usize, line: usize) -> (r: bool)
    requires
        map.wf(),
    ensures
        r == map.is_ground(column as int, line as int),
{
    match map.cell_at(column, line) {
        Some(cell) => cell.kind == CellKind::Ground,
        None => false,
    }
}

/// Successor list of cell `(column, line)`.
fn cell_successors(map: &GridMap, column: usize, line: usize) -> (r: Vec<(CellPos, u64)>)
    requires
        map.wf(),
    ensures
        r@ == successors_spec(*map, column as int, line as int),
{
    let mut out: Vec<(CellPos, u64)> = Vec::new();
    let mut k: usize = 0;
    while k < 8
        invariant
            map.wf(),
            k <= 8,
            out@ == succ_upto(*map, column as int, line as int, k as int),
        decreases 8 - k,
    {
        let (dc, dl, cost) = direction(k);
        match (shift(column, dc), shift(line, dl)) {
            (Some(tc), Some(tl)) => {
                if ground_at(map, tc, tl) && (k < 4 || (ground_at(map, tc, line) && ground_at(
                    map,
                    column,
                    tl,
                ))) {
                    out.push((CellPos { column: tc, line: tl }, cost));
                }
            },
            _ => {},
        }
        k = k + 1;
    }
    out
}

fn copy_edges(v: &Vec<(CellPos, u64)>) -> (r: Vec<(CellPos, u64)>)
    ensures
        r@ == v@,
{
    let mut out: Vec<(CellPos, u64)> = Vec::new();
    let mut i: usize = 0;
    while i < v.len()
        invariant
            i <= v@.len(),
            out@ == v@.take(i as int),
        decreases v@.len() - i,
    {
        proof {
            assert(v@.take(i + 1) =~= v@.take(i as int).push(v@[i as int]));
        }
        out.push(v[i]);
        i = i + 1;
    }
    proof {
        assert(v@.take(i as int) =~= v@);
    }
    out
}

fn absdiff(a: usize, b: usize) -> (r: usize)
    ensures
        r == dist(a as int, b as int),
{
    if a >= b {
        a - b
    } else {
        b - a
    }
}

/// The search's estimate from `p` to `goal`.
fn heuristic(p: &CellPos, goal: &CellPos) -> (r: u64)
    ensures
        r == estimate(*p, *goal),
{
    let dc = absdiff(p.column, goal.column) as u128;
    let dl = absdiff(p.line, goal.line) as u128;
    let e: u128 = (10 * (dc + dl)) / 3;
    if e > u64::MAX as u128 {
        u64::MAX
    } else {
        e as u64
    }
}

fn same_pos(a: &CellPos, b: &CellPos) -> (r: bool)
    ensures
        r == (*a == *b),
{
    a.column == b.column && a.line == b.line
}

/// Position of slot `i` in a grid `width` cells wide.
pub open spec fn pos_of(i: int, width: int) -> CellPos {
    CellPos { column: (i % width) as usize, line: (i / width) as usize }
}

proof fn lemma_slot_of_pos(column: int, line: int, width: int)
    requires
        0 <= column < width,
        0 <= line,
    ensures
        (column + line * width) % width == column,
        (column + line * width) / width == line,
{
    vstd::arithmetic::div_mod::lemma_fundamental_div_mod_converse(column + line * width, width, line, column);
}

proof fn lemma_succ_upto_elem(m: GridMap, c: int, l: int, k: int, j: int)
    requires
        0 <= j < succ_upto(m, c, l, k).len(),
    ensures
        exists|kk: int|
            0 <= kk < k && step_ok(m, c, l, kk) && succ_upto(m, c, l, k)[j] == #[trigger] step_entry(c, l, kk),
    decreases k,
{
    if k > 0 {
        let s = succ_upto(m, c, l, k - 1);
        if step_ok(m, c, l, k - 1) && j == s.len() {
            assert(succ_upto(m, c, l, k)[j] == step_entry(c, l, k - 1));
        } else {
            lemma_succ_upto_elem(m, c, l, k - 1, j);
            let kk = choose|kk: int|
                0 <= kk < k - 1 && step_ok(m, c, l, kk) && s[j] == #[trigger] step_entry(c, l, kk);
            assert(succ_upto(m, c, l, k)[j] == step_entry(c, l, kk));
        }
    }
}

proof fn lemma_succ_upto_has(m: GridMap, c: int, l: int, k: int, kk: int)
    requires
        0 <= kk < k,
        step_ok(m, c, l, kk),
    ensures
        succ_upto(m, c, l, k).contains(step_entry(c, l, kk)),
    decreases k,
{
    let s = succ_upto(m, c, l, k - 1);
    if kk == k - 1 {
        assert(succ_upto(m, c, l, k)[s.len() as int] == step_entry(c, l, kk));
    } else {
        lemma_succ_upto_has(m, c, l, k - 1, kk);
        let j = choose|j: int| 0 <= j < s.len() && s[j] == step_entry(c, l, kk);
        if step_ok(m, c, l, k - 1) {
            assert(succ_upto(m, c, l, k)[j] == step_entry(c, l, kk));
        }
    }
}

/// An entry of a successor list is an eligible candidate, hence inside the
/// grid and at most two cells of Manhattan distance away at cost 15, or
/// one away at cost 10.
proof fn lemma_entry_shape(m: GridMap, p: CellPos, j: int)
    requires
        m.wf(),
        0 <= j < successors_spec(m, p.column as int, p.line as int).len(),
    ensures
        ({
            let e = successors_spec(m, p.column as int, p.line as int)[j];
            &&& m.in_bounds(e.0.column as int, e.0.line as int)
            &&& 10 * manhattan(p, e.0) <= 3 * e.1
        }),
{
    let (c, l) = (p.column as int, p.line as int);
    lemma_succ_upto_elem(m, c, l, 8, j);
    let kk = choose|kk: int| 0 <= kk < 8 && step_ok(m, c, l, kk) && succ_upto(m, c, l, 8)[j] == #[trigger] step_entry(c, l, kk);
    assert(m.is_ground(c + dir_dc(kk), l + dir_dl(kk)));
}

impl PathGraph {
    /// Builds the successor graph of `map`.
    pub fn build(map: &GridMap) -> (r: PathGraph)
        requires
            map.wf(),
        ensures
            r.wf(),
            r.built_from(*map),
    {
        let mut graph = PathGraph { width: 0, height: 0, successors: Vec::new() };
        graph.rebuild(map);
        graph
    }

    /// Discards the graph's contents and builds it anew from `map`.
    pub fn rebuild(&mut self, map: &GridMap)
        requires
            map.wf(),
        ensures
            final(self).wf(),
            final(self).built_from(*map),
    {
        let width = map.width();
        let height = map.height();
        let n = width * height;
        let mut table: Vec<Option<Vec<(CellPos, u64)>>> = Vec::new();
        let mut i: usize = 0;
        while i < n
            invariant
                map.wf(),
                width == map.width_spec(),
                height == map.height_spec(),
                n == width * height,
                i <= n,
                table@.len() == i,
                forall|j: int| 0 <= j < i ==> opt_view(#[trigger] table@[j]) == expected_node(*map, pos_of(j, width as int)),
            decreases n - i,
        {
            assert(width > 0) by (nonlinear_arith)
                requires i < n, n == width * height;
            let column = i % width;
            let line = i / width;
            proof {
                vstd::arithmetic::div_mod::lemma_fundamental_div_mod(i as int, width as int);
                assert(line < height) by (nonlinear_arith)
                    requires i == width * line + column, 0 <= column, i < width * height, width > 0;
            }
            if ground_at(map, column, line) {
                table.push(Some(cell_successors(map, column, line)));
            } else {
                table.push(None);
            }
            i = i + 1;
        }
        self.width = width;
        self.height = height;
        self.successors = table;
        proof {
            assert forall|p: CellPos| #[trigger] self.node(p) == expected_node(*map, p) by {
                if self.in_bounds(p) {
                    let idx = p.column + p.line * width;
                    crate::map::lemma_index_in_grid(p.column as int, p.line as int, width as int, height as int);
                    lemma_slot_of_pos(p.column as int, p.line as int, width as int);
                    assert(pos_of(idx, width as int) == p);
                }
            }
            assert forall|p: CellPos, j: int| 0 <= j < self.succ_of(p).len() implies {
                let e = #[trigger] self.succ_of(p)[j];
                &&& self.in_bounds(e.0)
                &&& 10 * manhattan(p, e.0) <= 3 * e.1
            } by {
                assert(self.node(p) == expected_node(*map, p));
                lemma_entry_shape(*map, p, j);
            }
        }
    }

    /// The successors of `pos` with their step costs; empty for a position
    /// that is no node of the graph.
    pub fn successors(&self, pos: &CellPos) -> (r: Vec<(CellPos, u64)>)
        requires
            self.wf(),
        ensures
            r@ == self.succ_of(*pos),
    {
        if pos.column >= self.width || pos.line >= self.height {
            return Vec::new();
        }
        proof {
            crate::map::lemma_index_in_grid(pos.column as int, pos.line as int, self.width as int, self.height as int);
        }
        let idx = pos.column + pos.line * self.width;
        match &self.successors[idx] {
            Some(v) => copy_edges(v),
            None => Vec::new(),
        }
    }
}

/// Ten times the Manhattan distance a walk covers is at most three times
/// its cost.
proof fn lemma_walk_cost_bound(g: PathGraph, nodes: Seq<CellPos>, costs: Seq<u64>)
    requires
        g.wf(),
        g.is_walk(nodes, costs),
    ensures
        10 * manhattan(nodes[0], nodes.last()) <= 3 * total(costs),
    decreases costs.len(),
{
    if costs.len() > 0 {
        let n2 = nodes.drop_last();
        let c2 = costs.drop_last();
        assert forall|i: int| 0 <= i < c2.len() implies #[trigger] g.succ_of(n2[i]).contains(
            (n2[i + 1], c2[i]),
        ) by {
            assert(g.succ_of(nodes[i]).contains((nodes[i + 1], costs[i])));
        }
        lemma_walk_cost_bound(g, n2, c2);
        let i = costs.len() - 1;
        assert(g.succ_of(nodes[i]).contains((nodes[i + 1], costs[i])));
        let s = g.succ_of(nodes[i]);
        let j = choose|j: int| 0 <= j < s.len() && s[j] == (nodes[i + 1], costs[i]);
        assert(10 * manhattan(nodes[i], s[j].0) <= 3 * s[j].1);
    }
}

/// A walk between two different positions starts and ends inside the grid.
proof fn lemma_walk_in_bounds(g: PathGraph, nodes: Seq<CellPos>, costs: Seq<u64>, s: CellPos, t: CellPos)
    requires
        g.wf(),
        g.walk_between(nodes, costs, s, t),
        s != t,
    ensures
        g.in_bounds(s),
        g.in_bounds(t),
{
    assert(costs.len() > 0);
    assert(g.succ_of(nodes[0]).contains((nodes[1], costs[0])));
    let i = costs.len() - 1;
    assert(g.succ_of(nodes[i]).contains((nodes[i + 1], costs[i])));
    let sl = g.succ_of(nodes[i]);
    let j = choose|j: int| 0 <= j < sl.len() && sl[j] == (nodes[i + 1], costs[i]);
    assert(g.in_bounds(sl[j].0));
}

/// Relies on `pathfinding::directed::astar::astar`: given an estimate that
/// never exceeds the cost left, it returns a cheapest path from `start` to
/// `goal`, both ends included, with its cost, and `None` only when no path
/// exists.
#[verifier::external_body]
fn astar_search(graph: &PathGraph, start: &CellPos, goal: &CellPos) -> (r: Option<(Vec<CellPos>, u64)>)
    requires
        graph.wf(),
        graph.in_bounds(*start),
        graph.in_bounds(*goal),
        forall|p: CellPos, nodes: Seq<CellPos>, costs: Seq<u64>|
            #[trigger] graph.walk_between(nodes, costs, p, *goal) ==> estimate(p, *goal) <= total(costs),
    ensures
        r.is_some() == graph.reachable(*start, *goal),
        r matches Some(found) ==> graph.is_cheapest(found.0@, found.1 as int, *start, *goal),
{
    pathfinding::directed::astar::astar(
        start,
        |p: &CellPos| graph.successors(p),
        |p: &CellPos| heuristic(p, goal),
        |p: &CellPos| same_pos(p, goal),
    )
}

impl PathGraph {
    /// Shortest route from `start` to `goal`: the waypoints after `start`,
    /// ending with `goal`; the goal alone when the two coincide; `None` when
    /// no walk leads from `start` to `goal`.
    pub fn path_to(&self, start: &CellPos, goal: &CellPos) -> (r: Option<Vec<CellPos>>)
        requires
            self.wf(),
        ensures
            r.is_some() == self.reachable(*start, *goal),
            r matches Some(p) ==> self.is_route(*start, *goal, p@),
            *start == *goal ==> (r matches Some(p) && p@ == seq![*goal]),
    {
        if same_pos(start, goal) {
            proof {
                assert(self.walk_between(seq![*start], Seq::<u64>::empty(), *start, *goal));
            }
            let mut only: Vec<CellPos> = Vec::new();
            only.push(*goal);
            proof {
                assert(only@ =~= seq![*goal]);
            }
            return Some(only);
        }
        if start.column >= self.width || start.line >= self.height || goal.column >= self.width
            || goal.line >= self.height {
            proof {
                assert forall|nodes: Seq<CellPos>, costs: Seq<u64>|
                    !#[trigger] self.walk_between(nodes, costs, *start, *goal) by {
                    if self.walk_between(nodes, costs, *start, *goal) {
                        lemma_walk_in_bounds(*self, nodes, costs, *start, *goal);
                    }
                }
            }
            return None;
        }
        proof {
            assert forall|p: CellPos, nodes: Seq<CellPos>, costs: Seq<u64>|
                #[trigger] self.walk_between(nodes, costs, p, *goal) implies estimate(p, *goal) <= total(
                costs,
            ) by {
                lemma_walk_cost_bound(*self, nodes, costs);
            }
        }
        match astar_search(self, start, goal) {
            None => None,
            Some((path, cost)) => {
                let ghost costs = choose|costs: Seq<u64>|
                    #[trigger] self.walk_between(path@, costs, *start, *goal) && total(costs) == cost;
                let mut rest: Vec<CellPos> = Vec::new();
                let mut i: usize = 1;
                while i < path.len()
                    invariant
                        1 <= i <= path@.len(),
                        rest@ == path@.subrange(1, i as int),
                    decreases path@.len() - i,
                {
                    proof {
                        assert(path@.subrange(1, i + 1) =~= path@.subrange(1, i as int).push(path@[i as int]));
                    }
                    rest.push(path[i]);
                    i = i + 1;
                }
                proof {
                    assert(seq![*start] + rest@ =~= path@);
                    assert(self.is_cheapest(seq![*start] + rest@, cost as int, *start, *goal));
                }
                Some(rest)
            },
        }
    }
}

/// Law: in a graph built from `m`, `b` is a successor of `a` at step cost
/// `cost` exactly when the edge rule holds: both cells ground, and either
/// orthogonal neighbours at cost 10 or diagonal neighbours whose two
/// flanking cells are ground at cost 15. No edge touches a cell that is not
/// ground, nor a position outside the grid.
pub proof fn lemma_edge_rule(g: PathGraph, m: GridMap, a: CellPos, b: CellPos, cost: u64)
    requires
        m.wf(),
        g.built_from(m),
    ensures
        g.succ_of(a).contains((b, cost)) <==> edge_rule(m, a, b, cost),
{
    let (c, l) = (a.column as int, a.line as int);
    assert(g.node(a) == expected_node(m, a));
    if m.is_ground(c, l) {
        let s = successors_spec(m, c, l);
        if s.contains((b, cost)) {
            let j = choose|j: int| 0 <= j < s.len() && s[j] == (b, cost);
            lemma_succ_upto_elem(m, c, l, 8, j);
            let kk = choose|kk: int| 0 <= kk < 8 && step_ok(m, c, l, kk) && s[j] == #[trigger] step_entry(c, l, kk);
            assert(m.is_ground(c + dir_dc(kk), l + dir_dl(kk)));
        }
        if edge_rule(m, a, b, cost) {
            let dc = b.column - c;
            let dl = b.line - l;
            let kk = if dc == -1 && dl == 0 {
                0
            } else if dc == 1 && dl == 0 {
                1
            } else if dc == 0 && dl == 1 {
                2
            } else if dc == 0 && dl == -1 {
                3
            } else if dc == -1 && dl == 1 {
                4
            } else if dc == 1 && dl == 1 {
                5
            } else if dc == -1 && dl == -1 {
                6
            } else {
                7
            };
            assert(step_ok(m, c, l, kk));
            assert(step_entry(c, l, kk) == (b, cost));
            lemma_succ_upto_has(m, c, l, 8, kk);
        }
    }
}

/// Law: two graphs built from the same map hold the same successors, in the
/// same order, at every position.
pub proof fn lemma_build_deterministic(g1: PathGraph, g2: PathGraph, m: GridMap)
    requires
        g1.built_from(m),
        g2.built_from(m),
    ensures
        forall|p: CellPos| #[trigger] g1.node(p) == g2.node(p),
        forall|p: CellPos| #[trigger] g1.succ_of(p) == g2.succ_of(p),
{
    assert forall|p: CellPos| #[trigger] g1.node(p) == g2.node(p) by {
        assert(g1.node(p) == expected_node(m, p));
        assert(g2.node(p) == expected_node(m, p));
    }
    assert forall|p: CellPos| #[trigger] g1.succ_of(p) == g2.succ_of(p) by {
        assert(g1.node(p) == g2.node(p));
    }
}

/// One step from `a` to `b` is allowed by the edge rule at some cost.
pub open spec fn step_allowed(m: GridMap, a: CellPos, b: CellPos) -> bool {
    exists|cost: u64| edge_rule(m, a, b, cost)
}

/// Law: in a graph built from `m`, each step of a route from `s` to a
/// different `t`, starting at `s`, is allowed by the edge rule; so a route
/// never enters a cell that is not ground and never cuts a blocked corner.
pub proof fn lemma_route_follows_rule(g: PathGraph, m: GridMap, s: CellPos, t: CellPos, p: Seq<CellPos>)
    requires
        m.wf(),
        g.built_from(m),
        s != t,
        g.is_route(s, t, p),
    ensures
        forall|i: int| 0 <= i < p.len() ==> #[trigger] step_allowed(m, (seq![s] + p)[i], p[i]),
{
    let nodes = seq![s] + p;
    let cost = choose|cost: int| g.is_cheapest(nodes, cost, s, t);
    let costs = choose|costs: Seq<u64>| #[trigger] g.walk_between(nodes, costs, s, t) && total(costs) == cost;
    assert forall|i: int| 0 <= i < p.len() implies #[trigger] step_allowed(m, nodes[i], p[i]) by {
        assert(g.succ_of(nodes[i]).contains((nodes[i + 1], costs[i])));
        assert(nodes[i + 1] == p[i]);
        lemma_edge_rule(g, m, nodes[i], p[i], costs[i]);
    }
}

} // verus!
