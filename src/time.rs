use vstd::prelude::*;

verus! {

/// Thousandths of the remaining budget that the decrementing mode grants a move.
pub const DEFAULT_SHARE_PER_MILLE: u64 = 40;

/// Budget policy for one search. All durations are in milliseconds.
#[derive(Clone, Copy, Debug, PartialEq, Eq, Structural)]
pub enum TimeManager {
    /// A total budget that shrinks by the time each iteration took. A move
    /// is granted `share_per_mille` thousandths of what remains, plus
    /// `increment`, never more than what remains; `granted` is the time left
    /// that was last handed out, which no later update exceeds.
    Decrementing {
        remaining: u64,
        share_per_mille: u64,
        increment: u64,
        last_nodes: u32,
        last_depth: u8,
        granted: u64,
    },
    /// A fixed allocation for the whole search, of which `spent` is used.
    Fixed { think_time: u64, spent: u64 },
}

pub open spec fn sat_sub(a: int, b: int) -> int {
    if a >= b {
        a - b
    } else {
        0
    }
}

pub open spec fn min_of(a: int, b: int) -> int {
    if a <= b {
        a
    } else {
        b
    }
}

/// Time granted to a move out of `remaining`.
pub open spec fn allowance_of(remaining: int, share_per_mille: int, increment: int) -> int {
    min_of(remaining * share_per_mille / 1000 + increment, remaining)
}

/// Expected duration of the next iteration: the last one's, scaled by the
/// growth of the node count when the search went one depth further and the
/// node count grew.
pub open spec fn estimate_of(
    elapsed: int,
    nodes: int,
    last_nodes: int,
    depth: int,
    last_depth: int,
) -> int {
    if depth > last_depth && last_nodes > 0 && nodes > last_nodes {
        elapsed * nodes / last_nodes
    } else {
        elapsed
    }
}

impl TimeManager {
    /// The time left that the manager last handed out.
    pub open spec fn current_spec(self) -> int {
        match self {
            TimeManager::Decrementing { granted, .. } => granted as int,
            TimeManager::Fixed { think_time, spent } => sat_sub(think_time as int, spent as int),
        }
    }

    /// Time left after an iteration that took `elapsed` and visited `nodes` at `depth`:
    /// in the decrementing mode the grant out of what remains, less the
    /// expected length of the next iteration, and never more than the last
    /// grant less `elapsed`.
    pub open spec fn time_left_after(self, nodes: u32, depth: u8, elapsed: u64) -> int {
        match self {
            TimeManager::Decrementing {
                remaining,
                share_per_mille,
                increment,
                last_nodes,
                last_depth,
                granted,
            } => {
                let rest = sat_sub(remaining as int, elapsed as int);
                min_of(
                    sat_sub(
                        allowance_of(rest, share_per_mille as int, increment as int),
                        estimate_of(
                            elapsed as int,
                            nodes as int,
                            last_nodes as int,
                            depth as int,
                            last_depth as int,
                        ),
                    ),
                    sat_sub(granted as int, elapsed as int),
                )
            },
            TimeManager::Fixed { think_time, spent } => sat_sub(
                think_time as int,
                spent + elapsed,
            ),
        }
    }

    /// The manager after an iteration that took `elapsed` and visited `nodes` at `depth`.
    pub open spec fn updated(self, nodes: u32, depth: u8, elapsed: u64) -> TimeManager {
        match self {
            TimeManager::Decrementing { remaining, share_per_mille, increment, .. } =>
                TimeManager::Decrementing {
                remaining: sat_sub(remaining as int, elapsed as int) as u64,
                share_per_mille,
                increment,
                last_nodes: nodes,
                last_depth: depth,
                granted: self.time_left_after(nodes, depth, elapsed) as u64,
            },
            TimeManager::Fixed { think_time, spent } => TimeManager::Fixed {
                think_time,
                spent: min_of(spent + elapsed, u64::MAX as int) as u64,
            },
        }
    }

    /// The budget still held overall.
    pub open spec fn budget_spec(self) -> int {
        match self {
            TimeManager::Decrementing { remaining, .. } => remaining as int,
            TimeManager::Fixed { think_time, spent } => sat_sub(think_time as int, spent as int),
        }
    }

    /// A manager with a total budget `initial_budget` of which a move gets
    /// `share_per_mille` thousandths plus `increment`; with no budget and no
    /// share, a fixed allocation of `increment` for the whole search.
    pub fn new(initial_budget: u64, share_per_mille: u64, increment: u64) -> (r: TimeManager)
        ensures
            initial_budget == 0 && share_per_mille == 0 ==> r == (TimeManager::Fixed {
                think_time: increment,
                spent: 0,
            }),
            !(initial_budget == 0 && share_per_mille == 0) ==> r == (TimeManager::Decrementing {
                remaining: initial_budget,
                share_per_mille,
                increment,
                last_nodes: 0,
                last_depth: 0,
                granted: allowance_of(
                    initial_budget as int,
                    share_per_mille as int,
                    increment as int,
                ) as u64,
            }),
    {
        if initial_budget == 0 && share_per_mille == 0 {
            TimeManager::Fixed { think_time: increment, spent: 0 }
        } else {
            TimeManager::Decrementing {
                remaining: initial_budget,
                share_per_mille,
                increment,
                last_nodes: 0,
                last_depth: 0,
                granted: allowance(initial_budget, share_per_mille, increment),
            }
        }
    }

    /// Time left before the first iteration reports.
    pub fn initial_time_left(&self) -> (r: u64)
        ensures
            r == self.current_spec(),
    {
        match *self {
            TimeManager::Decrementing { granted, .. } => granted,
            TimeManager::Fixed { think_time, spent } => think_time.saturating_sub(spent),
        }
    }

    /// Records an iteration that took `elapsed` and visited `nodes` at `depth`, and
    /// returns the time left for the next one. The result never exceeds
    /// the budget still held, and never exceeds the last grant.
    pub fn update(&mut self, nodes: u32, depth: u8, elapsed: u64) -> (r: u64)
        ensures
            *final(self) == old(self).updated(nodes, depth, elapsed),
            r == old(self).time_left_after(nodes, depth, elapsed),
            r == final(self).current_spec(),
            r <= old(self).current_spec(),
    {
        match *self {
            TimeManager::Decrementing {
                remaining,
                share_per_mille,
                increment,
                last_nodes,
                last_depth,
                granted,
            } => {
                let rest = remaining.saturating_sub(elapsed);
                let share = allowance(rest, share_per_mille, increment);
                let estimate = estimate(elapsed, nodes, last_nodes, depth, last_depth);
                let fresh = if estimate >= share as u128 {
                    0
                } else {
                    share - estimate as u64
                };
                let cap = granted.saturating_sub(elapsed);
                let left = if fresh <= cap {
                    fresh
                } else {
                    cap
                };
                *self = TimeManager::Decrementing {
                    remaining: rest,
                    share_per_mille,
                    increment,
                    last_nodes: nodes,
                    last_depth: depth,
                    granted: left,
                };
                left
            },
            TimeManager::Fixed { think_time, spent } => {
                let spent = spent.saturating_add(elapsed);
                *self = TimeManager::Fixed { think_time, spent };
                think_time.saturating_sub(spent)
            },
        }
    }
}

fn allowance(remaining: u64, share_per_mille: u64, increment: u64) -> (r: u64)
    ensures
        r == allowance_of(remaining as int, share_per_mille as int, increment as int),
        r <= remaining,
{
    assert(remaining * share_per_mille <= 0xffff_ffff_ffff_ffff * 0xffff_ffff_ffff_ffff)
        by (nonlinear_arith)
        requires
            remaining <= 0xffff_ffff_ffff_ffff,
            share_per_mille <= 0xffff_ffff_ffff_ffff,
    ;
    let part = remaining as u128 * share_per_mille as u128 / 1000;
    let a = part + increment as u128;
    if a <= remaining as u128 {
        a as u64
    } else {
        remaining
    }
}

fn estimate(elapsed: u64, nodes: u32, last_nodes: u32, depth: u8, last_depth: u8) -> (r: u128)
    ensures
        r == estimate_of(
            elapsed as int,
            nodes as int,
            last_nodes as int,
            depth as int,
            last_depth as int,
        ),
{
    if depth > last_depth && last_nodes > 0 && nodes > last_nodes {
        assert(elapsed * nodes <= 0xffff_ffff_ffff_ffff * 0xffff_ffff) by (nonlinear_arith)
            requires
                elapsed <= 0xffff_ffff_ffff_ffff,
                nodes <= 0xffff_ffff,
        ;
        elapsed as u128 * nodes as u128 / last_nodes as u128
    } else {
        elapsed as u128
    }
}

/// In the decrementing mode the time left after an update is never
/// negative, never more than the budget left, and never more than the time
/// left before it, however long the iteration took and however much the
/// node count grew.
pub proof fn lemma_decrementing_time_left_bounded(tm: TimeManager, nodes: u32, depth: u8, elapsed: u64)
    requires
        tm is Decrementing,
        tm->granted <= tm->remaining,
    ensures
        0 <= tm.time_left_after(nodes, depth, elapsed) <= tm.updated(nodes, depth, elapsed).budget_spec(),
        tm.time_left_after(nodes, depth, elapsed) <= tm.current_spec(),
        tm.updated(nodes, depth, elapsed)->granted <= tm.updated(nodes, depth, elapsed)->remaining,
{
}

} // verus!
