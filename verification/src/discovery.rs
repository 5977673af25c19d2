//! Choosing the models a provider offers from its model listing.
use vstd::prelude::*;

use crate::providers::ProviderError;
use crate::text::{blank, chars_of, is_blank, string_from};

verus! {

/// One entry of a provider's model listing.
#[derive(Debug, Clone, PartialEq, Eq)]
pub struct ModelEntry {
    pub id: String,
    pub owned_by: Option<String>,
}

/// A model offered by a provider.
#[derive(Debug, Clone, PartialEq, Eq)]
pub struct DiscoveredModel {
    pub id: String,
    pub owned_by: Option<String>,
}

/// Strict order of texts by code point, which is the byte order of their
/// UTF-8 encodings and so the order of `String`'s `cmp`.
pub open spec fn text_lt(a: Seq<char>, b: Seq<char>) -> bool
    decreases a.len(),
{
    if a.len() == 0 {
        b.len() > 0
    } else if b.len() == 0 {
        false
    } else if a[0] != b[0] {
        a[0] < b[0]
    } else {
        text_lt(a.drop_first(), b.drop_first())
    }
}

proof fn lemma_text_lt_total(a: Seq<char>, b: Seq<char>)
    ensures
        text_lt(a, b) || a == b || text_lt(b, a),
        !(text_lt(a, b) && text_lt(b, a)),
        !(text_lt(a, b) && a == b),
    decreases a.len(),
{
    if a.len() > 0 && b.len() > 0 && a[0] == b[0] {
        lemma_text_lt_total(a.drop_first(), b.drop_first());
        if a.drop_first() == b.drop_first() {
            assert(a =~= seq![a[0]] + a.drop_first());
            assert(b =~= seq![b[0]] + b.drop_first());
        }
    } else if a.len() == 0 && b.len() == 0 {
        assert(a =~= b);
    }
}

proof fn lemma_text_lt_trans(a: Seq<char>, b: Seq<char>, c: Seq<char>)
    requires
        text_lt(a, b),
        text_lt(b, c),
    ensures
        text_lt(a, c),
    decreases a.len(),
{
    if a.len() > 0 && b.len() > 0 && c.len() > 0 && a[0] == b[0] && b[0] == c[0] {
        lemma_text_lt_trans(a.drop_first(), b.drop_first(), c.drop_first());
    }
}

/// Whether a listed model can be offered: a non-blank identifier of at most
/// 200 characters.
pub open spec fn usable(e: ModelEntry) -> bool {
    !is_blank(e.id@) && e.id@.len() <= 200
}

/// The usable entries among the first `n` of a listing, in listing order.
pub open spec fn usable_prefix(entries: Seq<ModelEntry>, n: int) -> Seq<ModelEntry>
    decreases n,
{
    if n <= 0 {
        seq![]
    } else if usable(entries[n - 1]) {
        usable_prefix(entries, n - 1).push(entries[n - 1])
    } else {
        usable_prefix(entries, n - 1)
    }
}

/// The usable entries among the first 1000 of a listing.
pub open spec fn usable_entries(entries: Seq<ModelEntry>) -> Seq<ModelEntry> {
    usable_prefix(entries, if entries.len() < 1000 { entries.len() as int } else { 1000 })
}

pub open spec fn model_view(m: DiscoveredModel) -> (Seq<char>, Option<Seq<char>>) {
    (m.id@, crate::providers::opt_view(m.owned_by))
}

pub open spec fn entry_view(e: ModelEntry) -> (Seq<char>, Option<Seq<char>>) {
    (e.id@, crate::providers::opt_view(e.owned_by))
}

/// The first position of `src` whose entry has identifier `id`, or -1.
pub open spec fn first_index(src: Seq<ModelEntry>, id: Seq<char>, from: int) -> int
    decreases src.len() - from,
{
    if from < 0 || from >= src.len() {
        -1
    } else if src[from].id@ == id {
        from
    } else {
        first_index(src, id, from + 1)
    }
}

pub open spec fn increasing(out: Seq<(Seq<char>, Option<Seq<char>>)>) -> bool {
    forall|i: int, j: int| 0 <= i < j < out.len() ==> text_lt(#[trigger] out[i].0, #[trigger] out[j].0)
}

pub open spec fn firsts(out: Seq<(Seq<char>, Option<Seq<char>>)>, src: Seq<ModelEntry>) -> bool {
    forall|i: int| 0 <= i < out.len() ==> {
        let f = #[trigger] first_index(src, out[i].0, 0);
        0 <= f < src.len() && out[i] == entry_view(src[f])
    }
}

pub open spec fn out_has(out: Seq<(Seq<char>, Option<Seq<char>>)>, id: Seq<char>) -> bool {
    exists|i: int| 0 <= i < out.len() && (#[trigger] out[i]).0 == id
}

pub open spec fn covers(out: Seq<(Seq<char>, Option<Seq<char>>)>, src: Seq<ModelEntry>) -> bool {
    forall|k: int| 0 <= k < src.len() ==> out_has(out, (#[trigger] src[k]).id@)
}

/// `out` lists, in increasing identifier order and once each, the identifiers
/// of `src`, each with the first entry of `src` that has it.
pub open spec fn sorted_first_occurrences(out: Seq<(Seq<char>, Option<Seq<char>>)>, src: Seq<ModelEntry>) -> bool {
    &&& increasing(out)
    &&& firsts(out, src)
    &&& covers(out, src)
}

proof fn lemma_first_index(src: Seq<ModelEntry>, id: Seq<char>, from: int)
    requires
        0 <= from,
    ensures
        first_index(src, id, from) == -1 || (from <= first_index(src, id, from) < src.len()
            && src[first_index(src, id, from)].id@ == id),
        first_index(src, id, from) == -1 ==> forall|k: int| from <= k < src.len() ==> (#[trigger] src[k]).id@ != id,
    decreases src.len() - from,
{
    if from < src.len() && src[from].id@ != id {
        lemma_first_index(src, id, from + 1);
    }
}

proof fn lemma_first_index_push(src: Seq<ModelEntry>, e: ModelEntry, id: Seq<char>, from: int)
    requires
        0 <= from <= src.len(),
    ensures
        first_index(src.push(e), id, from) == (if first_index(src, id, from) >= 0 {
            first_index(src, id, from)
        } else if e.id@ == id {
            src.len() as int
        } else {
            -1
        }),
    decreases src.len() - from,
{
    let s2 = src.push(e);
    if from < src.len() {
        assert(s2[from] == src[from]);
        if src[from].id@ != id {
            lemma_first_index_push(src, e, id, from + 1);
        }
    } else {
        assert(s2[from] == e);
        assert(first_index(s2, id, from + 1) == -1);
    }
}

pub open spec fn model_views(v: Seq<DiscoveredModel>) -> Seq<(Seq<char>, Option<Seq<char>>)> {
    v.map_values(|m: DiscoveredModel| model_view(m))
}

proof fn lemma_id_absent(old_out: Seq<(Seq<char>, Option<Seq<char>>)>, src: Seq<ModelEntry>, id: Seq<char>)
    requires
        covers(old_out, src),
        forall|i: int| 0 <= i < old_out.len() ==> (#[trigger] old_out[i]).0 != id,
    ensures
        first_index(src, id, 0) == -1,
{
    lemma_first_index(src, id, 0);
    if first_index(src, id, 0) >= 0 {
        let k = first_index(src, id, 0);
        assert(out_has(old_out, src[k].id@));
    }
}

proof fn lemma_insert_increasing(old_out: Seq<(Seq<char>, Option<Seq<char>>)>, k: int, newv: (Seq<char>, Option<Seq<char>>))
    requires
        increasing(old_out),
        0 <= k <= old_out.len(),
        forall|i: int| 0 <= i < k ==> text_lt((#[trigger] old_out[i]).0, newv.0),
        k < old_out.len() ==> text_lt(newv.0, old_out[k].0),
    ensures
        increasing(old_out.insert(k, newv)),
        forall|i: int| 0 <= i < old_out.len() ==> (#[trigger] old_out[i]).0 != newv.0,
{
    let nv = old_out.insert(k, newv);
    assert forall|i: int| 0 <= i < old_out.len() implies (#[trigger] old_out[i]).0 != newv.0 by {
        if i < k {
            lemma_text_lt_total(old_out[i].0, newv.0);
        } else if i == k {
            lemma_text_lt_total(newv.0, old_out[i].0);
        } else {
            lemma_text_lt_trans(newv.0, old_out[k].0, old_out[i].0);
            lemma_text_lt_total(newv.0, old_out[i].0);
        }
    }
    assert forall|i: int, j: int| 0 <= i < j < nv.len() implies text_lt(#[trigger] nv[i].0, #[trigger] nv[j].0) by {
        if j < k {
            assert(nv[i] == old_out[i] && nv[j] == old_out[j]);
        } else if j == k {
            assert(nv[i] == old_out[i]);
        } else if i < k {
            assert(nv[i] == old_out[i] && nv[j] == old_out[j - 1]);
            if k < j - 1 {
                lemma_text_lt_trans(old_out[i].0, old_out[k].0, old_out[j - 1].0);
            }
        } else if i == k {
            assert(nv[j] == old_out[j - 1]);
            if j - 1 > k {
                lemma_text_lt_trans(newv.0, old_out[k].0, old_out[j - 1].0);
            }
        } else {
            assert(nv[i] == old_out[i - 1] && nv[j] == old_out[j - 1]);
        }
    }
}

proof fn lemma_insert_new(
    old_out: Seq<(Seq<char>, Option<Seq<char>>)>,
    src: Seq<ModelEntry>,
    k: int,
    e: ModelEntry,
)
    requires
        sorted_first_occurrences(old_out, src),
        0 <= k <= old_out.len(),
        forall|i: int| 0 <= i < k ==> text_lt((#[trigger] old_out[i]).0, e.id@),
        k < old_out.len() ==> text_lt(e.id@, old_out[k].0),
    ensures
        sorted_first_occurrences(old_out.insert(k, entry_view(e)), src.push(e)),
{
    let newv = entry_view(e);
    let nv = old_out.insert(k, newv);
    let src2 = src.push(e);
    lemma_insert_increasing(old_out, k, newv);
    lemma_id_absent(old_out, src, newv.0);
    assert forall|i: int| 0 <= i < nv.len() implies {
        let f = #[trigger] first_index(src2, nv[i].0, 0);
        0 <= f < src2.len() && nv[i] == entry_view(src2[f])
    } by {
        lemma_first_index_push(src, e, nv[i].0, 0);
        if i == k {
        } else {
            let oi = if i < k { i } else { i - 1 };
            assert(nv[i] == old_out[oi]);
            let f = first_index(src, old_out[oi].0, 0);
            assert(src2[f] == src[f]);
        }
    }
    assert forall|q: int| 0 <= q < src2.len() implies out_has(nv, (#[trigger] src2[q]).id@) by {
        if q == src.len() as int {
            assert(nv[k].0 == src2[q].id@);
        } else {
            assert(src2[q] == src[q]);
            assert(out_has(old_out, src[q].id@));
            let i = choose|i: int| 0 <= i < old_out.len() && (#[trigger] old_out[i]).0 == src[q].id@;
            if i < k {
                assert(nv[i] == old_out[i]);
            } else {
                assert(nv[i + 1] == old_out[i]);
            }
        }
    }
}

proof fn lemma_keep_existing(
    old_out: Seq<(Seq<char>, Option<Seq<char>>)>,
    src: Seq<ModelEntry>,
    k: int,
    e: ModelEntry,
)
    requires
        sorted_first_occurrences(old_out, src),
        0 <= k < old_out.len(),
        old_out[k].0 == e.id@,
    ensures
        sorted_first_occurrences(old_out, src.push(e)),
{
    let src2 = src.push(e);
    assert forall|i: int| 0 <= i < old_out.len() implies {
        let f = #[trigger] first_index(src2, old_out[i].0, 0);
        0 <= f < src2.len() && old_out[i] == entry_view(src2[f])
    } by {
        lemma_first_index_push(src, e, old_out[i].0, 0);
        let f = first_index(src, old_out[i].0, 0);
        assert(src2[f] == src[f]);
    }
    assert forall|q: int| 0 <= q < src2.len() implies out_has(old_out, (#[trigger] src2[q]).id@) by {
        if q == src.len() as int {
            assert(old_out[k].0 == src2[q].id@);
        } else {
            assert(src2[q] == src[q]);
        }
    }
}

fn id_lt(a: &Vec<char>, b: &Vec<char>) -> (r: bool)
    ensures
        r == text_lt(a@, b@),
{
    let mut i: usize = 0;
    assert(a@.skip(0) =~= a@);
    assert(b@.skip(0) =~= b@);
    while i < a.len() && i < b.len() && a[i] == b[i]
        invariant
            i <= a.len(),
            i <= b.len(),
            text_lt(a@, b@) == text_lt(a@.skip(i as int), b@.skip(i as int)),
        decreases a.len() - i,
    {
        assert(a@.skip(i as int).drop_first() =~= a@.skip(i + 1));
        assert(b@.skip(i as int).drop_first() =~= b@.skip(i + 1));
        i += 1;
    }
    if i == a.len() {
        i < b.len()
    } else if i == b.len() {
        false
    } else {
        assert(a@.skip(i as int)[0] == a@[i as int]);
        assert(b@.skip(i as int)[0] == b@[i as int]);
        a[i] < b[i]
    }
}

/// Picks the models to offer from a listing: the first 1000 entries, without
/// blank or over-long identifiers, sorted by identifier, keeping the first
/// entry of each identifier. A listing with none is an invalid response.
pub fn select_models(entries: Vec<ModelEntry>) -> (r: Result<Vec<DiscoveredModel>, ProviderError>)
    ensures
        match r {
            Ok(models) => models@.len() > 0 && sorted_first_occurrences(model_views(models@), usable_entries(entries@)),
            Err(e) => usable_entries(entries@).len() == 0
                && e == ProviderError::InvalidResponse(e->InvalidResponse_0)
                && e->InvalidResponse_0@ == "provider returned no usable models"@,
        },
{
    let limit: usize = if entries.len() < 1000 { entries.len() } else { 1000 };
    let mut out: Vec<DiscoveredModel> = Vec::new();
    let mut keys: Vec<Vec<char>> = Vec::new();
    let mut n: usize = 0;
    while n < limit
        invariant
            n <= limit <= entries.len(),
            limit == (if entries@.len() < 1000 { entries@.len() as int } else { 1000 }),
            keys@.len() == out@.len(),
            forall|i: int| 0 <= i < out@.len() ==> (#[trigger] keys@[i])@ == out@[i].id@,
            sorted_first_occurrences(model_views(out@), usable_prefix(entries@, n as int)),
        decreases limit - n,
    {
        let e = &entries[n];
        let idv = chars_of(e.id.as_str());
        let ghost src = usable_prefix(entries@, n as int);
        let ghost src2 = usable_prefix(entries@, n + 1);
        if !blank(&idv) && idv.len() <= 200 {
            assert(src2 == src.push(entries@[n as int]));
            // position of the first key not below the new identifier
            let mut k: usize = 0;
            while k < keys.len() && id_lt(&keys[k], &idv)
                invariant
                    k <= keys.len(),
                    keys@.len() == out@.len(),
                    forall|i: int| 0 <= i < k ==> text_lt((#[trigger] keys@[i])@, idv@),
                decreases keys.len() - k,
            {
                k += 1;
            }
            let same = k < keys.len() && crate::text::chars_eq(&keys[k], &idv);
            let ghost old_out = model_views(out@);
            if !same {
                proof {
                    if k < keys.len() {
                        lemma_text_lt_total(keys@[k as int]@, idv@);
                    }
                }
                let m = DiscoveredModel { id: e.id.clone(), owned_by: e.owned_by.clone() };
                assert(model_view(m) == entry_view(entries@[n as int]));
                out.insert(k, m);
                keys.insert(k, idv);
                assert(model_views(out@) =~= old_out.insert(k as int, entry_view(entries@[n as int])));
                proof {
                    assert forall|i: int| 0 <= i < k implies text_lt((#[trigger] old_out[i]).0, entries@[n as int].id@) by {
                        assert(keys@[i]@ == old_out[i].0);
                    }
                    lemma_insert_new(old_out, src, k as int, entries@[n as int]);
                }
                assert forall|i: int| 0 <= i < out@.len() implies (#[trigger] keys@[i])@ == out@[i].id@ by {
                    if i < k {
                    } else if i > k {
                    }
                }
            } else {
                proof { lemma_keep_existing(old_out, src, k as int, entries@[n as int]); }
            }
        } else {
            assert(src2 == src);
        }
        n += 1;
    }
    assert(usable_prefix(entries@, n as int) == usable_entries(entries@));
    if out.len() == 0 {
        proof {
            let src = usable_entries(entries@);
            if src.len() > 0 {
                assert(out_has(model_views(out@), src[0].id@));
            }
        }
        return Err(ProviderError::InvalidResponse(string_from("provider returned no usable models")));
    }
    Ok(out)
}

} // verus!
