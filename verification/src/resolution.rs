//! Resolving the mentions of a pending Dispatch into targets.
//!
//! The store looks each mention up (a Topic member with that handle, else a
//! Team of the Topic, else nothing) and hands the findings here. Mentioned
//! principals are merged so that each principal is targeted once, keeping
//! every mention that reached it.
use vstd::prelude::*;

use crate::dispatch::{DispatchStatus, DispatchTargetOutcome, DispatchTargetSource, MentionSourceKind, SkipReason};
use crate::ids::PrincipalId;
use crate::permissions::PrincipalKind;

verus! {

/// A principal found for a mention.
#[derive(Debug, Clone, PartialEq, Eq)]
pub struct MentionedPrincipal {
    pub id: PrincipalId,
    pub handle: String,
    pub kind: PrincipalKind,
    pub active: bool,
    pub topic_member: bool,
}

/// What a mentioned handle turned out to name.
#[derive(Debug, Clone, PartialEq, Eq)]
pub enum MentionResolution {
    /// A member of the Topic with that handle.
    Principal(MentionedPrincipal),
    /// A Team of the Topic, with its members in order.
    Team(Vec<MentionedPrincipal>),
    /// Nothing.
    Unknown,
}

/// A prospective target of a Dispatch.
#[derive(Debug, Clone, PartialEq, Eq)]
pub struct Candidate {
    pub principal_id: Option<PrincipalId>,
    pub handle: String,
    pub kind: Option<PrincipalKind>,
    pub skip_reason: Option<SkipReason>,
    pub sources: Vec<DispatchTargetSource>,
}

pub struct CandidateView {
    pub principal_id: Option<PrincipalId>,
    pub handle: Seq<char>,
    pub kind: Option<PrincipalKind>,
    pub skip_reason: Option<SkipReason>,
    pub sources: Seq<(Seq<char>, MentionSourceKind)>,
}

pub open spec fn source_view(s: DispatchTargetSource) -> (Seq<char>, MentionSourceKind) {
    (s.mention_handle@, s.source_kind)
}

pub open spec fn source_views(s: Seq<DispatchTargetSource>) -> Seq<(Seq<char>, MentionSourceKind)> {
    s.map_values(|x: DispatchTargetSource| source_view(x))
}

impl View for Candidate {
    type V = CandidateView;

    open spec fn view(&self) -> CandidateView {
        CandidateView {
            principal_id: self.principal_id,
            handle: self.handle@,
            kind: self.kind,
            skip_reason: self.skip_reason,
            sources: source_views(self.sources@),
        }
    }
}

pub open spec fn candidate_views(c: Seq<Candidate>) -> Seq<CandidateView> {
    c.map_values(|x: Candidate| x@)
}

/// Why a found principal cannot be targeted, if any.
pub open spec fn principal_skip(p: MentionedPrincipal) -> Option<SkipReason> {
    if !p.active {
        Some(SkipReason::PrincipalInactive)
    } else if !p.topic_member {
        Some(SkipReason::NotTopicMember)
    } else {
        None
    }
}

pub open spec fn principal_candidate_spec(p: MentionedPrincipal, mention: Seq<char>, kind: MentionSourceKind) -> CandidateView {
    CandidateView {
        principal_id: Some(p.id),
        handle: p.handle@,
        kind: Some(p.kind),
        skip_reason: principal_skip(p),
        sources: seq![(mention, kind)],
    }
}

pub open spec fn unresolved_spec(mention: Seq<char>, kind: MentionSourceKind, reason: SkipReason) -> CandidateView {
    CandidateView {
        principal_id: None,
        handle: mention,
        kind: None,
        skip_reason: Some(reason),
        sources: seq![(mention, kind)],
    }
}

/// The first index at or after `i` whose candidate is principal `id`, or -1.
pub open spec fn find_principal(cs: Seq<CandidateView>, id: PrincipalId, i: int) -> int
    decreases cs.len() - i,
{
    if i < 0 || i >= cs.len() {
        -1
    } else if cs[i].principal_id == Some(id) {
        i
    } else {
        find_principal(cs, id, i + 1)
    }
}

/// `cs` with a principal candidate added: merged into the earlier candidate for
/// the same principal (its mentions appended), or appended.
pub open spec fn add_candidate_spec(cs: Seq<CandidateView>, c: CandidateView) -> Seq<CandidateView> {
    let j = find_principal(cs, c.principal_id->0, 0);
    if j >= 0 {
        cs.update(j, CandidateView { sources: cs[j].sources + c.sources, ..cs[j] })
    } else {
        cs.push(c)
    }
}

pub open spec fn add_members_spec(cs: Seq<CandidateView>, rows: Seq<MentionedPrincipal>, mention: Seq<char>) -> Seq<CandidateView>
    decreases rows.len(),
{
    if rows.len() == 0 {
        cs
    } else {
        add_members_spec(
            add_candidate_spec(cs, principal_candidate_spec(rows[0], mention, MentionSourceKind::Team)),
            rows.drop_first(),
            mention,
        )
    }
}

pub open spec fn expand_one_spec(cs: Seq<CandidateView>, mention: Seq<char>, r: MentionResolution) -> Seq<CandidateView> {
    match r {
        MentionResolution::Principal(p) => add_candidate_spec(cs, principal_candidate_spec(p, mention, MentionSourceKind::Direct)),
        MentionResolution::Team(rows) => if rows@.len() == 0 {
            cs.push(unresolved_spec(mention, MentionSourceKind::Team, SkipReason::TeamHasNoMembers))
        } else {
            add_members_spec(cs, rows@, mention)
        },
        MentionResolution::Unknown => cs.push(unresolved_spec(mention, MentionSourceKind::Direct, SkipReason::UnknownHandle)),
    }
}

/// The candidates of a Dispatch after the given mentions, in order.
pub open spec fn expand_spec(cs: Seq<CandidateView>, found: Seq<(String, MentionResolution)>) -> Seq<CandidateView>
    decreases found.len(),
{
    if found.len() == 0 {
        cs
    } else {
        expand_spec(expand_one_spec(cs, found[0].0@, found[0].1), found.drop_first())
    }
}

proof fn lemma_find_principal(cs: Seq<CandidateView>, id: PrincipalId, i: int)
    requires
        0 <= i,
    ensures
        find_principal(cs, id, i) == -1 || (i <= find_principal(cs, id, i) < cs.len()
            && cs[find_principal(cs, id, i)].principal_id == Some(id)),
        find_principal(cs, id, i) == -1 ==> forall|k: int| i <= k < cs.len() ==> #[trigger] cs[k].principal_id != Some(id),
        forall|k: int| i <= k < find_principal(cs, id, i) ==> #[trigger] cs[k].principal_id != Some(id),
    decreases cs.len() - i,
{
    if i < cs.len() && cs[i].principal_id != Some(id) {
        lemma_find_principal(cs, id, i + 1);
    }
}

fn make_source(mention: &String, kind: MentionSourceKind) -> (s: DispatchTargetSource)
    ensures
        source_view(s) == (mention@, kind),
{
    DispatchTargetSource { mention_handle: mention.clone(), source_kind: kind }
}

fn single_source(mention: &String, kind: MentionSourceKind) -> (v: Vec<DispatchTargetSource>)
    ensures
        source_views(v@) == seq![(mention@, kind)],
{
    let mut v = Vec::new();
    v.push(make_source(mention, kind));
    assert(source_views(v@) =~= seq![(mention@, kind)]);
    v
}

/// The candidate for a principal found through `mention`.
pub fn principal_candidate(p: &MentionedPrincipal, mention: &String, kind: MentionSourceKind) -> (c: Candidate)
    ensures
        c@ == principal_candidate_spec(*p, mention@, kind),
{
    let skip_reason = if !p.active {
        Some(SkipReason::PrincipalInactive)
    } else if !p.topic_member {
        Some(SkipReason::NotTopicMember)
    } else {
        None
    };
    Candidate {
        principal_id: Some(p.id),
        handle: p.handle.clone(),
        kind: Some(p.kind),
        skip_reason,
        sources: single_source(mention, kind),
    }
}

/// The candidate for a mention that named no principal that can be targeted.
pub fn unresolved_candidate(handle: &String, source_kind: MentionSourceKind, reason: SkipReason) -> (c: Candidate)
    ensures
        c@ == unresolved_spec(handle@, source_kind, reason),
{
    Candidate {
        principal_id: None,
        handle: handle.clone(),
        kind: None,
        skip_reason: Some(reason),
        sources: single_source(handle, source_kind),
    }
}

fn find_candidate(cs: &Vec<Candidate>, id: PrincipalId) -> (j: Option<usize>)
    ensures
        match j {
            Some(k) => find_principal(candidate_views(cs@), id, 0) == k && k < cs.len(),
            None => find_principal(candidate_views(cs@), id, 0) == -1,
        },
{
    let ghost v = candidate_views(cs@);
    let mut i: usize = 0;
    while i < cs.len()
        invariant
            i <= cs.len(),
            v == candidate_views(cs@),
            find_principal(v, id, 0) == find_principal(v, id, i as int),
        decreases cs.len() - i,
    {
        let hit = match cs[i].principal_id {
            Some(x) => x.0 == id.0,
            None => false,
        };
        assert(v[i as int].principal_id == cs@[i as int].principal_id);
        if hit {
            proof { lemma_find_principal(v, id, i as int); }
            return Some(i);
        }
        i += 1;
    }
    None
}

/// Adds a principal candidate, merging it into an earlier candidate for the
/// same principal.
pub fn add_principal_candidate(candidates: &mut Vec<Candidate>, candidate: Candidate)
    requires
        candidate.principal_id is Some,
    ensures
        candidate_views(final(candidates)@) == add_candidate_spec(candidate_views(old(candidates)@), candidate@),
{
    let id = match candidate.principal_id {
        Some(x) => x,
        None => { return; },
    };
    let ghost before = candidate_views(candidates@);
    let ghost cv = candidate@;
    match find_candidate(candidates, id) {
        Some(j) => {
            let mut extra = candidate.sources;
            let ghost old_sources = source_views(candidates@[j as int].sources@);
            let ghost extra_v = source_views(extra@);
            let target = &mut candidates[j];
            target.sources.append(&mut extra);
            proof {
                assert(source_views(target.sources@) =~= old_sources + extra_v);
            }
            assert(candidate_views(candidates@) =~= before.update(j as int, CandidateView { sources: before[j as int].sources + cv.sources, ..before[j as int] }));
        },
        None => {
            candidates.push(candidate);
            assert(candidate_views(candidates@) =~= before.push(cv));
        },
    }
}

/// Resolves the mentions of a Dispatch, in mention order, into candidates.
pub fn expand_mentions(found: &Vec<(String, MentionResolution)>) -> (candidates: Vec<Candidate>)
    ensures
        candidate_views(candidates@) == expand_spec(seq![], found@),
{
    let mut candidates: Vec<Candidate> = Vec::new();
    let ghost goal = expand_spec(seq![], found@);
    assert(found@.skip(0) =~= found@);
    assert(candidate_views(candidates@) =~= Seq::<CandidateView>::empty());
    let mut i: usize = 0;
    while i < found.len()
        invariant
            i <= found.len(),
            expand_spec(candidate_views(candidates@), found@.skip(i as int)) == goal,
        decreases found.len() - i,
    {
        let ghost rest = found@.skip(i as int);
        assert(rest[0] == found@[i as int]);
        assert(rest.drop_first() =~= found@.skip(i + 1));
        let mention = &found[i].0;
        match &found[i].1 {
            MentionResolution::Principal(p) => {
                let c = principal_candidate(p, mention, MentionSourceKind::Direct);
                add_principal_candidate(&mut candidates, c);
            },
            MentionResolution::Team(rows) => {
                if rows.len() == 0 {
                    let c = unresolved_candidate(mention, MentionSourceKind::Team, SkipReason::TeamHasNoMembers);
                    let ghost before = candidate_views(candidates@);
                    candidates.push(c);
                    assert(candidate_views(candidates@) =~= before.push(c@));
                } else {
                    let ghost inner = add_members_spec(candidate_views(candidates@), rows@, mention@);
                    assert(rows@.skip(0) =~= rows@);
                    let mut k: usize = 0;
                    while k < rows.len()
                        invariant
                            k <= rows.len(),
                            add_members_spec(candidate_views(candidates@), rows@.skip(k as int), mention@) == inner,
                        decreases rows.len() - k,
                    {
                        assert(rows@.skip(k as int)[0] == rows@[k as int]);
                        assert(rows@.skip(k as int).drop_first() =~= rows@.skip(k + 1));
                        let c = principal_candidate(&rows[k], mention, MentionSourceKind::Team);
                        add_principal_candidate(&mut candidates, c);
                        k += 1;
                    }
                    assert(rows@.skip(k as int) =~= Seq::<MentionedPrincipal>::empty());
                }
            },
            MentionResolution::Unknown => {
                let c = unresolved_candidate(mention, MentionSourceKind::Direct, SkipReason::UnknownHandle);
                let ghost before = candidate_views(candidates@);
                candidates.push(c);
                assert(candidate_views(candidates@) =~= before.push(c@));
            },
        }
        i += 1;
    }
    assert(found@.skip(i as int) =~= Seq::<(String, MentionResolution)>::empty());
    candidates
}

/// No two candidates target the same principal.
pub open spec fn distinct_principals(cs: Seq<CandidateView>) -> bool {
    forall|a: int, b: int|
        0 <= a < cs.len() && 0 <= b < cs.len() && a != b && (#[trigger] cs[a]).principal_id is Some
            ==> cs[a].principal_id != (#[trigger] cs[b]).principal_id
}

proof fn lemma_add_candidate_distinct(cs: Seq<CandidateView>, c: CandidateView)
    requires
        distinct_principals(cs),
        c.principal_id is Some,
    ensures
        distinct_principals(add_candidate_spec(cs, c)),
{
    let id = c.principal_id->0;
    lemma_find_principal(cs, id, 0);
    let r = add_candidate_spec(cs, c);
    assert forall|a: int, b: int|
        0 <= a < r.len() && 0 <= b < r.len() && a != b && (#[trigger] r[a]).principal_id is Some
            implies r[a].principal_id != (#[trigger] r[b]).principal_id by {
        if find_principal(cs, id, 0) < 0 {
            if a == cs.len() as int {
                assert(cs[b].principal_id != Some(id));
            } else if b == cs.len() as int {
                assert(r[a] == cs[a]);
            } else {
                assert(r[a] == cs[a] && r[b] == cs[b]);
            }
        } else {
            assert(r[a].principal_id == cs[a].principal_id);
            assert(r[b].principal_id == cs[b].principal_id);
        }
    }
}

proof fn lemma_add_members_distinct(cs: Seq<CandidateView>, rows: Seq<MentionedPrincipal>, mention: Seq<char>)
    requires
        distinct_principals(cs),
    ensures
        distinct_principals(add_members_spec(cs, rows, mention)),
    decreases rows.len(),
{
    if rows.len() > 0 {
        let c = principal_candidate_spec(rows[0], mention, MentionSourceKind::Team);
        lemma_add_candidate_distinct(cs, c);
        lemma_add_members_distinct(add_candidate_spec(cs, c), rows.drop_first(), mention);
    }
}

proof fn lemma_push_unresolved_distinct(cs: Seq<CandidateView>, c: CandidateView)
    requires
        distinct_principals(cs),
        c.principal_id is None,
    ensures
        distinct_principals(cs.push(c)),
{
    let r = cs.push(c);
    assert forall|a: int, b: int|
        0 <= a < r.len() && 0 <= b < r.len() && a != b && (#[trigger] r[a]).principal_id is Some
            implies r[a].principal_id != (#[trigger] r[b]).principal_id by {
        if a < cs.len() && b < cs.len() {
            assert(r[a] == cs[a] && r[b] == cs[b]);
        }
    }
}

proof fn lemma_expand_distinct(cs: Seq<CandidateView>, found: Seq<(String, MentionResolution)>)
    requires
        distinct_principals(cs),
    ensures
        distinct_principals(expand_spec(cs, found)),
    decreases found.len(),
{
    if found.len() > 0 {
        let mention = found[0].0@;
        let next = expand_one_spec(cs, mention, found[0].1);
        match found[0].1 {
            MentionResolution::Principal(p) => {
                lemma_add_candidate_distinct(cs, principal_candidate_spec(p, mention, MentionSourceKind::Direct));
            },
            MentionResolution::Team(rows) => {
                if rows@.len() == 0 {
                    lemma_push_unresolved_distinct(cs, unresolved_spec(mention, MentionSourceKind::Team, SkipReason::TeamHasNoMembers));
                } else {
                    lemma_add_members_distinct(cs, rows@, mention);
                }
            },
            MentionResolution::Unknown => {
                lemma_push_unresolved_distinct(cs, unresolved_spec(mention, MentionSourceKind::Direct, SkipReason::UnknownHandle));
            },
        }
        lemma_expand_distinct(next, found.drop_first());
    }
}

/// However often a principal is reached, directly or through Teams, the
/// resolved candidates target it at most once.
pub proof fn law_each_principal_is_targeted_once(found: Seq<(String, MentionResolution)>)
    ensures
        distinct_principals(expand_spec(seq![], found)),
{
    lemma_expand_distinct(seq![], found);
}

/// `r` names principal `id` with handle `h`, directly or as a Team member.
pub open spec fn names_principal(r: MentionResolution, id: PrincipalId, h: Seq<char>) -> bool {
    match r {
        MentionResolution::Principal(p) => p.id == id && p.handle@ == h,
        MentionResolution::Team(rows) => exists|j: int| 0 <= j < rows@.len() && #[trigger] rows@[j].id == id && rows@[j].handle@ == h,
        MentionResolution::Unknown => false,
    }
}

/// Some mention reached principal `id`, which carries handle `h` there.
pub open spec fn reached(found: Seq<(String, MentionResolution)>, id: PrincipalId, h: Seq<char>) -> bool {
    exists|i: int| 0 <= i < found.len() && #[trigger] names_principal(found[i].1, id, h)
}

/// Some candidate targets principal `id`.
pub open spec fn targets(cs: Seq<CandidateView>, id: PrincipalId) -> bool {
    exists|k: int| 0 <= k < cs.len() && #[trigger] cs[k].principal_id == Some(id)
}

/// Every principal candidate carries the id and handle of a principal that
/// one of `found`'s mentions reached.
pub open spec fn handles_reached(cs: Seq<CandidateView>, found: Seq<(String, MentionResolution)>) -> bool {
    forall|k: int| 0 <= k < cs.len() && (#[trigger] cs[k]).principal_id is Some
        ==> reached(found, cs[k].principal_id->0, cs[k].handle)
}

proof fn lemma_add_candidate_handles(cs: Seq<CandidateView>, c: CandidateView, all: Seq<(String, MentionResolution)>)
    requires
        handles_reached(cs, all),
        c.principal_id is Some,
        reached(all, c.principal_id->0, c.handle),
    ensures
        handles_reached(add_candidate_spec(cs, c), all),
{
    let id = c.principal_id->0;
    lemma_find_principal(cs, id, 0);
    let r = add_candidate_spec(cs, c);
    assert forall|k: int| 0 <= k < r.len() && (#[trigger] r[k]).principal_id is Some
        implies reached(all, r[k].principal_id->0, r[k].handle) by {
        if find_principal(cs, id, 0) < 0 {
            if k < cs.len() {
                assert(r[k] == cs[k]);
            }
        } else {
            assert(r[k].principal_id == cs[k].principal_id && r[k].handle == cs[k].handle);
        }
    }
}

proof fn lemma_add_members_handles(
    cs: Seq<CandidateView>,
    rows: Seq<MentionedPrincipal>,
    mention: Seq<char>,
    all: Seq<(String, MentionResolution)>,
)
    requires
        handles_reached(cs, all),
        forall|j: int| 0 <= j < rows.len() ==> reached(all, (#[trigger] rows[j]).id, rows[j].handle@),
    ensures
        handles_reached(add_members_spec(cs, rows, mention), all),
    decreases rows.len(),
{
    if rows.len() > 0 {
        let c = principal_candidate_spec(rows[0], mention, MentionSourceKind::Team);
        assert(reached(all, rows[0].id, rows[0].handle@));
        lemma_add_candidate_handles(cs, c, all);
        let rest = rows.drop_first();
        assert forall|j: int| 0 <= j < rest.len() implies reached(all, (#[trigger] rest[j]).id, rest[j].handle@) by {
            assert(rest[j] == rows[j + 1]);
        }
        lemma_add_members_handles(add_candidate_spec(cs, c), rest, mention, all);
    }
}

proof fn lemma_push_unresolved_handles(cs: Seq<CandidateView>, c: CandidateView, all: Seq<(String, MentionResolution)>)
    requires
        handles_reached(cs, all),
        c.principal_id is None,
    ensures
        handles_reached(cs.push(c), all),
{
    let r = cs.push(c);
    assert forall|k: int| 0 <= k < r.len() && (#[trigger] r[k]).principal_id is Some
        implies reached(all, r[k].principal_id->0, r[k].handle) by {
        assert(k < cs.len());
        assert(r[k] == cs[k]);
    }
}

proof fn lemma_expand_handles(cs: Seq<CandidateView>, all: Seq<(String, MentionResolution)>, n: int)
    requires
        0 <= n <= all.len(),
        handles_reached(cs, all),
    ensures
        handles_reached(expand_spec(cs, all.skip(n)), all),
    decreases all.len() - n,
{
    if n < all.len() {
        let found = all.skip(n);
        assert(found[0] == all[n]);
        assert(found.drop_first() =~= all.skip(n + 1));
        let mention = all[n].0@;
        let res = all[n].1;
        let next = expand_one_spec(cs, mention, res);
        match res {
            MentionResolution::Principal(p) => {
                assert(names_principal(all[n].1, p.id, p.handle@));
                lemma_add_candidate_handles(cs, principal_candidate_spec(p, mention, MentionSourceKind::Direct), all);
            },
            MentionResolution::Team(rows) => {
                if rows@.len() == 0 {
                    lemma_push_unresolved_handles(cs, unresolved_spec(mention, MentionSourceKind::Team, SkipReason::TeamHasNoMembers), all);
                } else {
                    assert forall|j: int| 0 <= j < rows@.len() implies reached(all, (#[trigger] rows@[j]).id, rows@[j].handle@) by {
                        assert(names_principal(all[n].1, rows@[j].id, rows@[j].handle@));
                    }
                    lemma_add_members_handles(cs, rows@, mention, all);
                }
            },
            MentionResolution::Unknown => {
                lemma_push_unresolved_handles(cs, unresolved_spec(mention, MentionSourceKind::Direct, SkipReason::UnknownHandle), all);
            },
        }
        lemma_expand_handles(next, all, n + 1);
    }
}

proof fn lemma_add_candidate_targets(cs: Seq<CandidateView>, c: CandidateView, id: PrincipalId)
    requires
        c.principal_id is Some,
        targets(cs, id) || c.principal_id == Some(id),
    ensures
        targets(add_candidate_spec(cs, c), id),
{
    let cid = c.principal_id->0;
    lemma_find_principal(cs, cid, 0);
    let r = add_candidate_spec(cs, c);
    let j = find_principal(cs, cid, 0);
    if targets(cs, id) {
        let k = choose|k: int| 0 <= k < cs.len() && #[trigger] cs[k].principal_id == Some(id);
        assert(r[k].principal_id == Some(id));
    } else if j >= 0 {
        assert(r[j].principal_id == Some(id));
    } else {
        assert(r[cs.len() as int].principal_id == Some(id));
    }
}

proof fn lemma_add_members_targets(cs: Seq<CandidateView>, rows: Seq<MentionedPrincipal>, mention: Seq<char>, id: PrincipalId)
    requires
        targets(cs, id) || exists|j: int| 0 <= j < rows.len() && (#[trigger] rows[j]).id == id,
    ensures
        targets(add_members_spec(cs, rows, mention), id),
    decreases rows.len(),
{
    if rows.len() > 0 {
        let c = principal_candidate_spec(rows[0], mention, MentionSourceKind::Team);
        let rest = rows.drop_first();
        if targets(cs, id) || rows[0].id == id {
            lemma_add_candidate_targets(cs, c, id);
        } else {
            let j = choose|j: int| 0 <= j < rows.len() && (#[trigger] rows[j]).id == id;
            assert(rest[j - 1] == rows[j]);
        }
        if targets(add_candidate_spec(cs, c), id) {
        } else {
            lemma_add_candidate_targets_kept(cs, c, id);
        }
        lemma_add_members_targets(add_candidate_spec(cs, c), rest, mention, id);
    }
}

proof fn lemma_add_candidate_targets_kept(cs: Seq<CandidateView>, c: CandidateView, id: PrincipalId)
    requires
        c.principal_id is Some,
    ensures
        targets(cs, id) ==> targets(add_candidate_spec(cs, c), id),
{
    if targets(cs, id) {
        lemma_add_candidate_targets(cs, c, id);
    }
}

proof fn lemma_expand_targets(cs: Seq<CandidateView>, found: Seq<(String, MentionResolution)>, id: PrincipalId, h: Seq<char>)
    requires
        targets(cs, id) || reached(found, id, h),
    ensures
        targets(expand_spec(cs, found), id),
    decreases found.len(),
{
    if found.len() > 0 {
        let mention = found[0].0@;
        let res = found[0].1;
        let next = expand_one_spec(cs, mention, res);
        let here = names_principal(res, id, h);
        match res {
            MentionResolution::Principal(p) => {
                lemma_add_candidate_targets_kept(cs, principal_candidate_spec(p, mention, MentionSourceKind::Direct), id);
                if here {
                    lemma_add_candidate_targets(cs, principal_candidate_spec(p, mention, MentionSourceKind::Direct), id);
                }
            },
            MentionResolution::Team(rows) => {
                if rows@.len() == 0 {
                    if targets(cs, id) {
                        let k = choose|k: int| 0 <= k < cs.len() && #[trigger] cs[k].principal_id == Some(id);
                        assert(next[k].principal_id == Some(id));
                    }
                } else if targets(cs, id) || here {
                    lemma_add_members_targets(cs, rows@, mention, id);
                }
            },
            MentionResolution::Unknown => {
                if targets(cs, id) {
                    let k = choose|k: int| 0 <= k < cs.len() && #[trigger] cs[k].principal_id == Some(id);
                    assert(next[k].principal_id == Some(id));
                }
            },
        }
        let rest = found.drop_first();
        if !targets(next, id) {
            assert(!here);
            let i = choose|i: int| 0 <= i < found.len() && #[trigger] names_principal(found[i].1, id, h);
            assert(i != 0);
            assert(rest[i - 1] == found[i]);
            assert(names_principal(rest[i - 1].1, id, h));
        }
        lemma_expand_targets(next, rest, id, h);
    }
}

/// Mention `m` (the mention text and how it reached) reached principal `id`
/// through resolution `r`: directly, or as a member of a named Team.
pub open spec fn reached_through(mention: Seq<char>, r: MentionResolution, id: PrincipalId, m: (Seq<char>, MentionSourceKind)) -> bool {
    match r {
        MentionResolution::Principal(p) => p.id == id && m == (mention, MentionSourceKind::Direct),
        MentionResolution::Team(rows) => m == (mention, MentionSourceKind::Team)
            && exists|j: int| 0 <= j < rows@.len() && #[trigger] rows@[j].id == id,
        MentionResolution::Unknown => false,
    }
}

/// Some candidate targets principal `id` and lists mention `m` among its
/// sources.
pub open spec fn sourced(cs: Seq<CandidateView>, id: PrincipalId, m: (Seq<char>, MentionSourceKind)) -> bool {
    exists|k: int| 0 <= k < cs.len() && #[trigger] cs[k].principal_id == Some(id) && cs[k].sources.contains(m)
}

proof fn lemma_add_candidate_sourced(cs: Seq<CandidateView>, c: CandidateView, id: PrincipalId, m: (Seq<char>, MentionSourceKind))
    requires
        c.principal_id is Some,
        sourced(cs, id, m) || (c.principal_id == Some(id) && c.sources.contains(m)),
    ensures
        sourced(add_candidate_spec(cs, c), id, m),
{
    let cid = c.principal_id->0;
    lemma_find_principal(cs, cid, 0);
    let r = add_candidate_spec(cs, c);
    let j = find_principal(cs, cid, 0);
    if sourced(cs, id, m) {
        let k = choose|k: int| 0 <= k < cs.len() && #[trigger] cs[k].principal_id == Some(id) && cs[k].sources.contains(m);
        let q = choose|q: int| 0 <= q < cs[k].sources.len() && cs[k].sources[q] == m;
        if j >= 0 && k == j {
            assert((cs[j].sources + c.sources)[q] == m);
            assert(r[k].sources.contains(m));
        } else {
            assert(r[k] == cs[k]);
        }
        assert(r[k].principal_id == Some(id) && r[k].sources.contains(m));
    } else if j >= 0 {
        let q = choose|q: int| 0 <= q < c.sources.len() && c.sources[q] == m;
        assert((cs[j].sources + c.sources)[cs[j].sources.len() + q] == m);
        assert(r[j].sources.contains(m));
        assert(r[j].principal_id == Some(id));
    } else {
        assert(r[cs.len() as int] == c);
    }
}

proof fn lemma_add_members_sourced(
    cs: Seq<CandidateView>,
    rows: Seq<MentionedPrincipal>,
    mention: Seq<char>,
    id: PrincipalId,
    m: (Seq<char>, MentionSourceKind),
)
    requires
        sourced(cs, id, m) || (m == (mention, MentionSourceKind::Team)
            && exists|j: int| 0 <= j < rows.len() && (#[trigger] rows[j]).id == id),
    ensures
        sourced(add_members_spec(cs, rows, mention), id, m),
    decreases rows.len(),
{
    if rows.len() > 0 {
        let c = principal_candidate_spec(rows[0], mention, MentionSourceKind::Team);
        let rest = rows.drop_first();
        assert(c.sources[0] == (mention, MentionSourceKind::Team));
        if sourced(cs, id, m) || (m == (mention, MentionSourceKind::Team) && rows[0].id == id) {
            lemma_add_candidate_sourced(cs, c, id, m);
        } else {
            let j = choose|j: int| 0 <= j < rows.len() && (#[trigger] rows[j]).id == id;
            assert(rest[j - 1] == rows[j]);
        }
        lemma_add_members_sourced(add_candidate_spec(cs, c), rest, mention, id, m);
    }
}

proof fn lemma_push_sourced(cs: Seq<CandidateView>, c: CandidateView, id: PrincipalId, m: (Seq<char>, MentionSourceKind))
    requires
        sourced(cs, id, m),
    ensures
        sourced(cs.push(c), id, m),
{
    let k = choose|k: int| 0 <= k < cs.len() && #[trigger] cs[k].principal_id == Some(id) && cs[k].sources.contains(m);
    assert(cs.push(c)[k] == cs[k]);
}

proof fn lemma_expand_sourced(cs: Seq<CandidateView>, found: Seq<(String, MentionResolution)>, id: PrincipalId, m: (Seq<char>, MentionSourceKind))
    requires
        sourced(cs, id, m) || exists|i: int| 0 <= i < found.len() && #[trigger] reached_through(found[i].0@, found[i].1, id, m),
    ensures
        sourced(expand_spec(cs, found), id, m),
    decreases found.len(),
{
    if found.len() > 0 {
        let mention = found[0].0@;
        let res = found[0].1;
        let next = expand_one_spec(cs, mention, res);
        let here = reached_through(mention, res, id, m);
        match res {
            MentionResolution::Principal(p) => {
                let c = principal_candidate_spec(p, mention, MentionSourceKind::Direct);
                assert(c.sources[0] == (mention, MentionSourceKind::Direct));
                if sourced(cs, id, m) || here {
                    lemma_add_candidate_sourced(cs, c, id, m);
                }
            },
            MentionResolution::Team(rows) => {
                if rows@.len() == 0 {
                    if sourced(cs, id, m) {
                        lemma_push_sourced(cs, unresolved_spec(mention, MentionSourceKind::Team, SkipReason::TeamHasNoMembers), id, m);
                    }
                } else if sourced(cs, id, m) || here {
                    lemma_add_members_sourced(cs, rows@, mention, id, m);
                }
            },
            MentionResolution::Unknown => {
                if sourced(cs, id, m) {
                    lemma_push_sourced(cs, unresolved_spec(mention, MentionSourceKind::Direct, SkipReason::UnknownHandle), id, m);
                }
            },
        }
        let rest = found.drop_first();
        if !sourced(next, id, m) {
            assert(!here);
            let i = choose|i: int| 0 <= i < found.len() && #[trigger] reached_through(found[i].0@, found[i].1, id, m);
            assert(i != 0);
            assert(rest[i - 1] == found[i]);
            assert(reached_through(rest[i - 1].0@, rest[i - 1].1, id, m));
        }
        lemma_expand_sourced(next, rest, id, m);
    }
}

/// Every mention that reached a principal, directly or through a Team, is
/// kept among the sources of the candidate that targets that principal.
pub proof fn law_every_reaching_mention_is_kept(found: Seq<(String, MentionResolution)>)
    ensures
        forall|i: int, id: PrincipalId, m: (Seq<char>, MentionSourceKind)|
            0 <= i < found.len() && #[trigger] reached_through(found[i].0@, found[i].1, id, m)
            ==> sourced(expand_spec(seq![], found), id, m),
{
    assert forall|i: int, id: PrincipalId, m: (Seq<char>, MentionSourceKind)|
        0 <= i < found.len() && #[trigger] reached_through(found[i].0@, found[i].1, id, m)
        implies sourced(expand_spec(seq![], found), id, m) by {
        lemma_expand_sourced(seq![], found, id, m);
    }
}

/// Every candidate that targets a principal carries the id and handle of a
/// principal that a mention reached (the principal's own handle, not the
/// mention text of a Team), every reached principal is targeted, and where
/// all the rows found for a principal give it one handle, its candidate
/// carries that handle.
pub proof fn law_candidates_carry_principal_handles(found: Seq<(String, MentionResolution)>)
    ensures
        forall|k: int| 0 <= k < expand_spec(seq![], found).len()
            && (#[trigger] expand_spec(seq![], found)[k]).principal_id is Some
            ==> reached(found, expand_spec(seq![], found)[k].principal_id->0, expand_spec(seq![], found)[k].handle),
        forall|id: PrincipalId, h: Seq<char>| #[trigger] reached(found, id, h) ==> targets(expand_spec(seq![], found), id),
        forall|k: int, id: PrincipalId, h: Seq<char>|
            0 <= k < expand_spec(seq![], found).len()
            && #[trigger] reached(found, id, h)
            && (#[trigger] expand_spec(seq![], found)[k]).principal_id == Some(id)
            && (forall|h2: Seq<char>| #[trigger] reached(found, id, h2) ==> h2 == h)
            ==> expand_spec(seq![], found)[k].handle == h,
{
    let cs = expand_spec(seq![], found);
    assert(found.skip(0) =~= found);
    lemma_expand_handles(seq![], found, 0);
    assert forall|id: PrincipalId, h: Seq<char>| #[trigger] reached(found, id, h) implies targets(cs, id) by {
        lemma_expand_targets(seq![], found, id, h);
    }
}

/// What the store does for one candidate.
#[derive(Debug, Clone, Copy, PartialEq, Eq, Structural)]
pub enum TargetAction {
    /// Notify this Human.
    Notify(PrincipalId),
    /// Queue a Run for this AI Member, if its configuration is available.
    QueueRun(PrincipalId),
    /// Record the target as skipped.
    Skip(SkipReason),
}

pub open spec fn target_action_spec(c: CandidateView) -> TargetAction {
    match c.skip_reason {
        Some(r) => TargetAction::Skip(r),
        None => match (c.principal_id, c.kind) {
            (Some(id), Some(PrincipalKind::Human)) => TargetAction::Notify(id),
            (Some(id), Some(PrincipalKind::Ai)) => TargetAction::QueueRun(id),
            _ => TargetAction::Skip(SkipReason::UnsupportedPrincipalKind),
        },
    }
}

/// Decides what to do for a candidate.
pub fn target_action(c: &Candidate) -> (a: TargetAction)
    ensures
        a == target_action_spec(c@),
{
    match c.skip_reason {
        Some(r) => TargetAction::Skip(r),
        None => match (c.principal_id, c.kind) {
            (Some(id), Some(PrincipalKind::Human)) => TargetAction::Notify(id),
            (Some(id), Some(PrincipalKind::Ai)) => TargetAction::QueueRun(id),
            _ => TargetAction::Skip(SkipReason::UnsupportedPrincipalKind),
        },
    }
}

/// The outcome of an AI target, given whether a Run could be queued.
pub fn queued_outcome(run_queued: bool) -> (r: (DispatchTargetOutcome, Option<SkipReason>))
    ensures
        r == (if run_queued {
            (DispatchTargetOutcome::Queued, None::<SkipReason>)
        } else {
            (DispatchTargetOutcome::Skipped, Some(SkipReason::AiConfigurationUnavailable))
        }),
{
    if run_queued {
        (DispatchTargetOutcome::Queued, None)
    } else {
        (DispatchTargetOutcome::Skipped, Some(SkipReason::AiConfigurationUnavailable))
    }
}

pub open spec fn is_success(o: DispatchTargetOutcome) -> bool {
    o != DispatchTargetOutcome::Skipped
}

/// The status of a resolved Dispatch: rejected when no target succeeded,
/// dispatched when none was skipped, partially dispatched otherwise.
pub open spec fn status_of(outcomes: Seq<DispatchTargetOutcome>) -> DispatchStatus {
    if forall|i: int| 0 <= i < outcomes.len() ==> !is_success(#[trigger] outcomes[i]) {
        DispatchStatus::Rejected
    } else if forall|i: int| 0 <= i < outcomes.len() ==> is_success(#[trigger] outcomes[i]) {
        DispatchStatus::Dispatched
    } else {
        DispatchStatus::PartiallyDispatched
    }
}

/// The final status of a Dispatch whose targets had these outcomes.
pub fn resolved_status(outcomes: &Vec<DispatchTargetOutcome>) -> (status: DispatchStatus)
    ensures
        status == status_of(outcomes@),
{
    let mut succeeded: usize = 0;
    let mut skipped: usize = 0;
    let mut i: usize = 0;
    while i < outcomes.len()
        invariant
            i <= outcomes.len(),
            succeeded + skipped == i,
            (succeeded == 0) == (forall|j: int| 0 <= j < i ==> !is_success(#[trigger] outcomes@[j])),
            (skipped == 0) == (forall|j: int| 0 <= j < i ==> is_success(#[trigger] outcomes@[j])),
        decreases outcomes.len() - i,
    {
        if matches!(outcomes[i], DispatchTargetOutcome::Skipped) {
            skipped += 1;
        } else {
            succeeded += 1;
        }
        i += 1;
    }
    if succeeded == 0 {
        DispatchStatus::Rejected
    } else if skipped == 0 {
        DispatchStatus::Dispatched
    } else {
        DispatchStatus::PartiallyDispatched
    }
}

} // verus!
