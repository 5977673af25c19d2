//! Assembling Teams from the rows that list them with their members.
use vstd::prelude::*;

use crate::ids::{PrincipalId, TeamId, TopicId};
use crate::models::Team;
use crate::store::StoreError;

verus! {

/// One row of a Team listing: the Team and, when it has one, one member.
#[derive(Debug, Clone, PartialEq, Eq)]
pub struct TeamRow {
    pub id: TeamId,
    pub topic_id: TopicId,
    pub handle: String,
    pub display_name: String,
    pub member: Option<PrincipalId>,
}

/// The first row of `rows[..n]` with Team `id`, or -1.
pub open spec fn first_row(rows: Seq<TeamRow>, id: u128, n: int) -> int
    decreases n,
{
    if n <= 0 {
        -1
    } else if first_row(rows, id, n - 1) >= 0 {
        first_row(rows, id, n - 1)
    } else if rows[n - 1].id.0 == id {
        n - 1
    } else {
        -1
    }
}

/// The members listed for Team `id` in `rows[..n]`, in row order.
pub open spec fn members_of(rows: Seq<TeamRow>, id: u128, n: int) -> Seq<PrincipalId>
    decreases n,
{
    if n <= 0 {
        seq![]
    } else if rows[n - 1].id.0 == id && rows[n - 1].member is Some {
        members_of(rows, id, n - 1).push(rows[n - 1].member->0)
    } else {
        members_of(rows, id, n - 1)
    }
}

pub struct TeamView {
    pub id: TeamId,
    pub topic_id: TopicId,
    pub handle: Seq<char>,
    pub display_name: Seq<char>,
    pub members: Seq<PrincipalId>,
}

pub open spec fn team_view(t: Team) -> TeamView {
    TeamView { id: t.id, topic_id: t.topic_id, handle: t.handle@, display_name: t.display_name@, members: t.members@ }
}

pub open spec fn team_views(v: Seq<Team>) -> Seq<TeamView> {
    v.map_values(|t: Team| team_view(t))
}

/// `teams` holds one Team per Team of `rows[..n]`, in increasing identifier
/// order, each described by its first row and listing its members in row
/// order.
pub open spec fn grouped(teams: Seq<TeamView>, rows: Seq<TeamRow>, n: int) -> bool {
    &&& forall|i: int, j: int| 0 <= i < j < teams.len() ==> (#[trigger] teams[i]).id.0 < (#[trigger] teams[j]).id.0
    &&& forall|i: int| 0 <= i < teams.len() ==> {
        let f = #[trigger] first_row(rows, teams[i].id.0, n);
        &&& 0 <= f < n
        &&& teams[i].topic_id == rows[f].topic_id
        &&& teams[i].handle == rows[f].handle@
        &&& teams[i].display_name == rows[f].display_name@
        &&& teams[i].members == members_of(rows, teams[i].id.0, n)
    }
    &&& forall|k: int| 0 <= k < n ==> exists|i: int| 0 <= i < teams.len() && (#[trigger] teams[i]).id == (#[trigger] rows[k]).id
}

proof fn lemma_first_row(rows: Seq<TeamRow>, id: u128, n: int)
    requires
        0 <= n <= rows.len(),
    ensures
        first_row(rows, id, n) == -1 || (0 <= first_row(rows, id, n) < n && rows[first_row(rows, id, n)].id.0 == id),
        first_row(rows, id, n) == -1 ==> forall|k: int| 0 <= k < n ==> (#[trigger] rows[k]).id.0 != id,
    decreases n,
{
    if n > 0 {
        lemma_first_row(rows, id, n - 1);
    }
}

proof fn lemma_members_absent(rows: Seq<TeamRow>, id: u128, n: int)
    requires
        0 <= n <= rows.len(),
        first_row(rows, id, n) == -1,
    ensures
        members_of(rows, id, n) == Seq::<PrincipalId>::empty(),
    decreases n,
{
    if n > 0 {
        lemma_first_row(rows, id, n);
        assert(rows[n - 1].id.0 != id);
        assert(first_row(rows, id, n - 1) == -1);
        lemma_members_absent(rows, id, n - 1);
    }
}

fn new_team(row: &TeamRow) -> (t: Team)
    ensures
        t.id == row.id,
        t.topic_id == row.topic_id,
        t.handle@ == row.handle@,
        t.display_name@ == row.display_name@,
        t.members@.len() == 0,
{
    Team { id: row.id, topic_id: row.topic_id, handle: row.handle.clone(), display_name: row.display_name.clone(), members: Vec::new() }
}

/// Groups listing rows into Teams, in increasing identifier order (the order
/// of their hyphenated identifier texts).
pub fn teams_from_rows(rows: &Vec<TeamRow>) -> (teams: Vec<Team>)
    ensures
        grouped(team_views(teams@), rows@, rows@.len() as int),
{
    let mut teams: Vec<Team> = Vec::new();
    let mut n: usize = 0;
    while n < rows.len()
        invariant
            n <= rows.len(),
            grouped(team_views(teams@), rows@, n as int),
        decreases rows.len() - n,
    {
        let row = &rows[n];
        let ghost old_t = team_views(teams@);
        let ghost r = rows@;
        let mut k: usize = 0;
        while k < teams.len() && teams[k].id.0 < row.id.0
            invariant
                k <= teams.len(),
                old_t == team_views(teams@),
                forall|i: int| 0 <= i < k ==> (#[trigger] old_t[i]).id.0 < row.id.0,
            decreases teams.len() - k,
        {
            k += 1;
        }
        proof {
            lemma_first_row(r, row.id.0, n as int);
            lemma_first_row(r, row.id.0, n + 1);
        }
        if k < teams.len() && teams[k].id.0 == row.id.0 {
            // an existing Team: add the member, if any
            let ghost id = row.id.0;
            let ghost old_members = teams@[k as int].members@;
            proof {
                assert(old_t[k as int].id.0 == id);
                assert(0 <= first_row(r, old_t[k as int].id.0, n as int) < n);
                assert(old_members == members_of(r, old_t[k as int].id.0, n as int));
                assert(r[n as int] == *row);
            }
            match row.member {
                Some(m) => {
                    let target = &mut teams[k];
                    target.members.push(m);
                    assert(teams@[k as int].members@ == old_members.push(m));
                },
                None => {},
            }
            let ghost nt = team_views(teams@);
            assert forall|i: int| 0 <= i < nt.len() && i != k implies #[trigger] nt[i] == old_t[i] by {}
            assert(nt[k as int].members == members_of(r, id, n + 1));
            proof { lemma_grouped_step(old_t, nt, r, n as int, k as int); }
        } else {
            let mut t = new_team(row);
            match row.member {
                Some(m) => { t.members.push(m); },
                None => {},
            }
            proof { lemma_members_absent(r, row.id.0, n as int); }
            assert(t.members@ == members_of(r, row.id.0, n + 1));
            teams.insert(k, t);
            let ghost nt = team_views(teams@);
            assert(nt =~= old_t.insert(k as int, team_view(t)));
            proof { lemma_grouped_insert(old_t, r, n as int, k as int, team_view(t)); }
        }
        n += 1;
    }
    teams
}

proof fn lemma_other_team_unchanged(rows: Seq<TeamRow>, id: u128, n: int)
    requires
        0 <= n < rows.len(),
        rows[n].id.0 != id,
    ensures
        first_row(rows, id, n + 1) == first_row(rows, id, n),
        members_of(rows, id, n + 1) == members_of(rows, id, n),
{
    lemma_first_row(rows, id, n);
}

proof fn lemma_grouped_step(old_t: Seq<TeamView>, nt: Seq<TeamView>, rows: Seq<TeamRow>, n: int, k: int)
    requires
        0 <= n < rows.len(),
        grouped(old_t, rows, n),
        nt.len() == old_t.len(),
        0 <= k < old_t.len(),
        old_t[k].id == rows[n].id,
        forall|i: int| 0 <= i < nt.len() && i != k ==> #[trigger] nt[i] == old_t[i],
        nt[k].id == old_t[k].id,
        nt[k].topic_id == old_t[k].topic_id,
        nt[k].handle == old_t[k].handle,
        nt[k].display_name == old_t[k].display_name,
        nt[k].members == members_of(rows, rows[n].id.0, n + 1),
        first_row(rows, rows[n].id.0, n + 1) == first_row(rows, rows[n].id.0, n),
    ensures
        grouped(nt, rows, n + 1),
{
    assert forall|i: int, j: int| 0 <= i < j < nt.len() implies (#[trigger] nt[i]).id.0 < (#[trigger] nt[j]).id.0 by {
        assert(nt[i].id == old_t[i].id && nt[j].id == old_t[j].id);
    }
    assert forall|i: int| 0 <= i < nt.len() implies {
        let f = #[trigger] first_row(rows, nt[i].id.0, n + 1);
        &&& 0 <= f < n + 1
        &&& nt[i].topic_id == rows[f].topic_id
        &&& nt[i].handle == rows[f].handle@
        &&& nt[i].display_name == rows[f].display_name@
        &&& nt[i].members == members_of(rows, nt[i].id.0, n + 1)
    } by {
        if i != k {
            assert(old_t[i].id.0 != old_t[k].id.0) by {
                if i < k {
                    assert(old_t[i].id.0 < old_t[k].id.0);
                } else {
                    assert(old_t[k].id.0 < old_t[i].id.0);
                }
            }
            lemma_other_team_unchanged(rows, old_t[i].id.0, n);
            assert(first_row(rows, old_t[i].id.0, n) >= 0);
        } else {
            assert(first_row(rows, old_t[k].id.0, n) >= 0);
        }
    }
    assert forall|q: int| 0 <= q < n + 1 implies exists|i: int| 0 <= i < nt.len() && (#[trigger] nt[i]).id == (#[trigger] rows[q]).id by {
        if q == n {
            assert(nt[k].id == rows[q].id);
        } else {
            let i = choose|i: int| 0 <= i < old_t.len() && (#[trigger] old_t[i]).id == (#[trigger] rows[q]).id;
            if i == k {
                assert(nt[k].id == rows[q].id);
            } else {
                assert(nt[i] == old_t[i]);
            }
        }
    }
}

proof fn lemma_grouped_insert(old_t: Seq<TeamView>, rows: Seq<TeamRow>, n: int, k: int, t: TeamView)
    requires
        0 <= n < rows.len(),
        grouped(old_t, rows, n),
        0 <= k <= old_t.len(),
        forall|i: int| 0 <= i < k ==> (#[trigger] old_t[i]).id.0 < rows[n].id.0,
        k < old_t.len() ==> old_t[k].id.0 != rows[n].id.0,
        k < old_t.len() ==> old_t[k].id.0 >= rows[n].id.0,
        t.id == rows[n].id,
        t.topic_id == rows[n].topic_id,
        t.handle == rows[n].handle@,
        t.display_name == rows[n].display_name@,
        t.members == members_of(rows, rows[n].id.0, n + 1),
        first_row(rows, rows[n].id.0, n) == -1,
    ensures
        grouped(old_t.insert(k, t), rows, n + 1),
{
    let nt = old_t.insert(k, t);
    let id = rows[n].id.0;
    assert(first_row(rows, id, n + 1) == n);
    assert forall|i: int| 0 <= i < old_t.len() implies (#[trigger] old_t[i]).id.0 != id by {
        if i >= k && k < old_t.len() && i > k {
            assert(old_t[k].id.0 < old_t[i].id.0);
        }
    }
    assert forall|i: int, j: int| 0 <= i < j < nt.len() implies (#[trigger] nt[i]).id.0 < (#[trigger] nt[j]).id.0 by {
        if j < k {
            assert(nt[i] == old_t[i] && nt[j] == old_t[j]);
        } else if j == k {
            assert(nt[i] == old_t[i]);
        } else if i < k {
            assert(nt[i] == old_t[i] && nt[j] == old_t[j - 1]);
            if k < j - 1 {
                assert(old_t[k].id.0 < old_t[j - 1].id.0);
            }
        } else if i == k {
            assert(nt[j] == old_t[j - 1]);
            if j - 1 > k {
                assert(old_t[k].id.0 < old_t[j - 1].id.0);
            }
        } else {
            assert(nt[i] == old_t[i - 1] && nt[j] == old_t[j - 1]);
        }
    }
    assert forall|i: int| 0 <= i < nt.len() implies {
        let f = #[trigger] first_row(rows, nt[i].id.0, n + 1);
        &&& 0 <= f < n + 1
        &&& nt[i].topic_id == rows[f].topic_id
        &&& nt[i].handle == rows[f].handle@
        &&& nt[i].display_name == rows[f].display_name@
        &&& nt[i].members == members_of(rows, nt[i].id.0, n + 1)
    } by {
        if i != k {
            let oi = if i < k { i } else { i - 1 };
            assert(nt[i] == old_t[oi]);
            lemma_other_team_unchanged(rows, old_t[oi].id.0, n);
        }
    }
    assert forall|q: int| 0 <= q < n + 1 implies exists|i: int| 0 <= i < nt.len() && (#[trigger] nt[i]).id == (#[trigger] rows[q]).id by {
        if q == n {
            assert(nt[k].id == rows[q].id);
        } else {
            let i = choose|i: int| 0 <= i < old_t.len() && (#[trigger] old_t[i]).id == (#[trigger] rows[q]).id;
            if i < k {
                assert(nt[i] == old_t[i]);
            } else {
                assert(nt[i + 1] == old_t[i]);
            }
        }
    }
}

/// The index of the first Team at or after `i` with identifier `id`, or -1.
pub open spec fn first_team(teams: Seq<Team>, id: TeamId, i: int) -> int
    decreases teams.len() - i,
{
    if i < 0 || i >= teams.len() {
        -1
    } else if teams[i].id == id {
        i
    } else {
        first_team(teams, id, i + 1)
    }
}

/// The Team with identifier `id` among the Teams of its Topic (the first
/// such), or not found.
pub fn find_team(teams: Vec<Team>, id: TeamId) -> (r: Result<Team, StoreError>)
    ensures
        match r {
            Ok(t) => 0 <= first_team(teams@, id, 0) < teams@.len() && t == teams@[first_team(teams@, id, 0)],
            Err(e) => e is NotFound && first_team(teams@, id, 0) == -1,
        },
{
    let ghost original = teams@;
    let mut rest = teams;
    let mut i: usize = 0;
    let n = rest.len();
    while i < n
        invariant
            n == rest.len(),
            rest@ == original,
            original == teams@,
            i <= n,
            first_team(original, id, 0) == first_team(original, id, i as int),
        decreases n - i,
    {
        if rest[i].id.0 == id.0 {
            assert(first_team(original, id, i as int) == i);
            let t = rest.swap_remove(i);
            return Ok(t);
        }
        i += 1;
    }
    Err(StoreError::NotFound)
}

} // verus!
