//! Per-turn match statistics: how many units each side has on the board,
//! and their total health.  The renderer prints these beside the grid;
//! computing them is plain arithmetic over the units, so it is done here,
//! on plain values the caller extracts from its game state.

use vstd::prelude::*;

verus! {

/// One side of a match.
#[derive(Debug, Clone, Copy, PartialEq, Eq, Structural)]
pub enum Team {
    Red,
    Blue,
}

/// What the statistics need to know of one unit.
#[derive(Debug, Clone, Copy, PartialEq, Eq, Structural)]
pub struct UnitRecord {
    /// The side the unit fights for.
    pub team: Team,
    /// Its remaining health.
    pub health: u64,
}

/// How many units of a team a sequence holds.
pub open spec fn spec_team_units(s: Seq<UnitRecord>, t: Team) -> int
    decreases s.len(),
{
    if s.len() == 0 {
        0
    } else {
        spec_team_units(s.drop_last(), t) + if s.last().team == t {
            1int
        } else {
            0int
        }
    }
}

/// The total health of a team's units.
pub open spec fn spec_team_health(s: Seq<UnitRecord>, t: Team) -> int
    decreases s.len(),
{
    if s.len() == 0 {
        0
    } else {
        spec_team_health(s.drop_last(), t) + if s.last().team == t {
            s.last().health as int
        } else {
            0int
        }
    }
}

/// Taking one more unit adds its contribution and nothing else.
proof fn lemma_take_step(s: Seq<UnitRecord>, t: Team, i: int)
    requires
        0 <= i < s.len(),
    ensures
        spec_team_units(s.take(i + 1), t) == spec_team_units(s.take(i), t) + if s[i].team == t {
            1int
        } else {
            0int
        },
        spec_team_health(s.take(i + 1), t) == spec_team_health(s.take(i), t) + if s[i].team == t {
            s[i].health as int
        } else {
            0int
        },
{
    assert(s.take(i + 1).drop_last() =~= s.take(i));
    assert(s.take(i + 1).last() == s[i]);
}

/// A prefix never holds more of a team's health than the whole.
proof fn lemma_health_take_le(s: Seq<UnitRecord>, t: Team, i: int)
    requires
        0 <= i <= s.len(),
    ensures
        spec_team_health(s.take(i), t) <= spec_team_health(s, t),
    decreases s.len() - i,
{
    if i == s.len() {
        assert(s.take(i) =~= s);
    } else {
        lemma_take_step(s, t, i);
        lemma_health_take_le(s, t, i + 1);
    }
}

/// The per-team statistics of one turn.
#[derive(Debug, Clone, Copy, PartialEq, Eq, Structural)]
pub struct TurnSummary {
    pub red_units: u64,
    pub blue_units: u64,
    pub red_health: u64,
    pub blue_health: u64,
}

/// Counts each team's units and sums their health.
pub fn turn_summary(units: &Vec<UnitRecord>) -> (r: TurnSummary)
    requires
        spec_team_health(units@, Team::Red) <= u64::MAX,
        spec_team_health(units@, Team::Blue) <= u64::MAX,
        units@.len() <= u64::MAX,
    ensures
        r.red_units == spec_team_units(units@, Team::Red),
        r.blue_units == spec_team_units(units@, Team::Blue),
        r.red_health == spec_team_health(units@, Team::Red),
        r.blue_health == spec_team_health(units@, Team::Blue),
{
    let mut red_units: u64 = 0;
    let mut blue_units: u64 = 0;
    let mut red_health: u64 = 0;
    let mut blue_health: u64 = 0;
    let mut i: usize = 0;
    while i < units.len()
        invariant
            0 <= i <= units@.len() <= u64::MAX,
            spec_team_health(units@, Team::Red) <= u64::MAX,
            spec_team_health(units@, Team::Blue) <= u64::MAX,
            red_units == spec_team_units(units@.take(i as int), Team::Red),
            blue_units == spec_team_units(units@.take(i as int), Team::Blue),
            red_health == spec_team_health(units@.take(i as int), Team::Red),
            blue_health == spec_team_health(units@.take(i as int), Team::Blue),
            red_units + blue_units == i,
        decreases units@.len() - i,
    {
        let u = units[i];
        proof {
            lemma_take_step(units@, Team::Red, i as int);
            lemma_take_step(units@, Team::Blue, i as int);
            lemma_health_take_le(units@, Team::Red, i + 1);
            lemma_health_take_le(units@, Team::Blue, i + 1);
        }
        match u.team {
            Team::Red => {
                red_units = red_units + 1;
                red_health = red_health + u.health;
            },
            Team::Blue => {
                blue_units = blue_units + 1;
                blue_health = blue_health + u.health;
            },
        }
        i += 1;
    }
    proof {
        assert(units@.take(units@.len() as int) =~= units@);
    }
    TurnSummary { red_units, blue_units, red_health, blue_health }
}

} // verus!
