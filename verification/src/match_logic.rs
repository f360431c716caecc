//! When a match is over, and why.
//!
//! A match can have hills to be held and time limits. It is over as soon as
//! a hill reports that its criteria are met or a time limit has run out.
//! Once a match is over it stays so: nothing is concluded a second time.

use vstd::prelude::*;

verus! {

/// Why a match is over.
#[derive(Clone, Copy, Debug, PartialEq, Eq, Structural)]
pub enum MatchConclusion {
    /// The time ran out.
    TimeLimit,
    /// The criteria of the match were met.
    Criteria,
}

/// Whether some entry of `flags` is set.
pub open spec fn any_set(flags: Seq<bool>) -> bool {
    exists|i: int| 0 <= i < flags.len() && #[trigger] flags[i]
}

/// What is concluded of a match in a tick. Nothing, if the match was
/// finished before. Otherwise a time limit that has run out ends it as
/// `TimeLimit`, whatever the hills say; a hill that is finished ends it as
/// `Criteria`; and if neither is the case the match goes on.
pub open spec fn concluded(
    already_finished: bool,
    hills_finished: Seq<bool>,
    limits_finished: Seq<bool>,
) -> Option<MatchConclusion> {
    if already_finished {
        None
    } else if any_set(limits_finished) {
        Some(MatchConclusion::TimeLimit)
    } else if any_set(hills_finished) {
        Some(MatchConclusion::Criteria)
    } else {
        None
    }
}

/// Whether some entry of `flags` is set.
fn any(flags: &Vec<bool>) -> (set: bool)
    ensures
        set == any_set(flags@),
{
    let mut i: usize = 0;
    while i < flags.len()
        invariant
            i <= flags@.len(),
            forall|j: int| 0 <= j < i ==> !#[trigger] flags@[j],
        decreases flags@.len() - i,
    {
        if flags[i] {
            return true;
        }
        i += 1;
    }
    false
}

/// Decides whether the match ends in this tick, and why. `hills_finished`
/// says of each hill whether its criteria are met, `limits_finished` of each
/// time limit whether it has run out.
pub fn conclude_match(
    already_finished: bool,
    hills_finished: &Vec<bool>,
    limits_finished: &Vec<bool>,
) -> (conclusion: Option<MatchConclusion>)
    ensures
        conclusion == concluded(already_finished, hills_finished@, limits_finished@),
{
    if already_finished {
        // match is already finished.
        return None;
    }
    // Check time limit criteria.
    if any(limits_finished) {
        return Some(MatchConclusion::TimeLimit);
    }
    // Check king of the hill criteria.
    if any(hills_finished) {
        return Some(MatchConclusion::Criteria);
    }
    None
}

/// A match that is finished stays finished, and a match without hills and
/// limits never ends.
pub proof fn lemma_match_ends_once(hills_finished: Seq<bool>, limits_finished: Seq<bool>)
    ensures
        concluded(true, hills_finished, limits_finished) == None::<MatchConclusion>,
        concluded(false, Seq::<bool>::empty(), Seq::<bool>::empty()) == None::<MatchConclusion>,
        concluded(false, hills_finished, limits_finished) is Some <==> any_set(hills_finished)
            || any_set(limits_finished),
{
}

/// A hill of a match: whether its criteria are met, and the team that
/// leads on it, if one does.
#[derive(Clone, Copy, Debug)]
pub struct Hill {
    pub finished: bool,
    pub leader: Option<u64>,
}

/// The hills that count for the lead: those before the first hill whose
/// criteria are met.
pub open spec fn counted(hills: Seq<Hill>, hill: int) -> bool {
    0 <= hill < hills.len() && forall|j: int| 0 <= j <= hill ==> !(#[trigger] hills[j]).finished
}

/// The team leads on a hill that counts.
pub open spec fn leads(hills: Seq<Hill>, team: u64) -> bool {
    exists|hill: int| counted(hills, hill) && (#[trigger] hills[hill]).leader == Some(team)
}

/// Whether `team` is among `teams`.
fn listed(teams: &Vec<u64>, team: u64) -> (found: bool)
    ensures
        found == teams@.contains(team),
{
    let mut i: usize = 0;
    while i < teams.len()
        invariant
            i <= teams@.len(),
            forall|j: int| 0 <= j < i ==> teams@[j] != team,
        decreases teams@.len() - i,
    {
        if teams[i] == team {
            return true;
        }
        i += 1;
    }
    false
}

/// The teams that lead on a hill that counts, each once, in the order of
/// the hills. The report of a finished match names one of them as the
/// winner; more than one means a draw.
pub fn leaders(hills: &Vec<Hill>) -> (teams: Vec<u64>)
    ensures
        teams@.no_duplicates(),
        forall|team: u64| teams@.contains(team) <==> leads(hills@, team),
{
    let mut teams: Vec<u64> = Vec::new();
    let mut i: usize = 0;
    while i < hills.len() && !hills[i].finished
        invariant
            i <= hills@.len(),
            forall|j: int| 0 <= j < i ==> !(#[trigger] hills@[j]).finished,
            teams@.no_duplicates(),
            forall|team: u64|
                teams@.contains(team) <==> exists|hill: int|
                    0 <= hill < i && (#[trigger] hills@[hill]).leader == Some(team),
        decreases hills@.len() - i,
    {
        let ghost before = teams@;
        match hills[i].leader {
            Some(leader) => {
                if !listed(&teams, leader) {
                    teams.push(leader);
                    assert(teams@.last() == leader);
                }
                assert(teams@.contains(leader)) by {
                    if before.contains(leader) {
                        let at = choose|at: int| 0 <= at < before.len() && before[at] == leader;
                        assert(teams@[at] == leader);
                    } else {
                        assert(teams@[teams@.len() - 1] == leader);
                    }
                }
            },
            None => {},
        }
        assert forall|team: u64|
            teams@.contains(team) <==> exists|hill: int|
                0 <= hill < i + 1 && (#[trigger] hills@[hill]).leader == Some(team) by {
            if teams@.contains(team) {
                let at = choose|at: int| 0 <= at < teams@.len() && teams@[at] == team;
                if at < before.len() {
                    assert(before[at] == team);
                    assert(before.contains(team));
                } else {
                    assert(hills@[i as int].leader == Some(team));
                }
            }
            if exists|hill: int|
                0 <= hill < i + 1 && (#[trigger] hills@[hill]).leader == Some(team) {
                let hill = choose|hill: int|
                    0 <= hill < i + 1 && (#[trigger] hills@[hill]).leader == Some(team);
                if hill < i {
                    assert(before.contains(team));
                    let at = choose|at: int| 0 <= at < before.len() && before[at] == team;
                    assert(teams@[at] == team);
                }
            }
        }
        i += 1;
    }
    assert forall|team: u64| teams@.contains(team) <==> leads(hills@, team) by {
        if teams@.contains(team) {
            let hill = choose|hill: int|
                0 <= hill < i && (#[trigger] hills@[hill]).leader == Some(team);
            assert(counted(hills@, hill));
        }
        if leads(hills@, team) {
            let hill = choose|hill: int|
                counted(hills@, hill) && (#[trigger] hills@[hill]).leader == Some(team);
            if hill >= i {
                assert(!hills@[i as int].finished);
            }
        }
    }
    teams
}

} // verus!
