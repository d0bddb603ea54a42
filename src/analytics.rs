use vstd::prelude::*;

use crate::text::{
    lemma_text_lt_asymmetric, lemma_text_lt_irreflexive, lemma_text_lt_total,
    lemma_text_lt_transitive, text_less, text_lt,
};

verus! {

/// The texts held by a sequence of strings.
pub open spec fn views(v: Seq<String>) -> Seq<Seq<char>> {
    v.map_values(|s: String| s@)
}

/// How many entries of `keys` equal `k`.
pub open spec fn occurrences(keys: Seq<Seq<char>>, k: Seq<char>) -> nat
    decreases keys.len(),
{
    if keys.len() == 0 {
        0
    } else {
        occurrences(keys.drop_last(), k) + if keys.last() == k {
            1nat
        } else {
            0nat
        }
    }
}

pub proof fn lemma_occurrences_push(keys: Seq<Seq<char>>, x: Seq<char>, k: Seq<char>)
    ensures
        occurrences(keys.push(x), k) == occurrences(keys, k) + if x == k {
            1nat
        } else {
            0nat
        },
{
    assert(keys.push(x).drop_last() =~= keys);
}

pub proof fn lemma_occurrences_bound(keys: Seq<Seq<char>>, k: Seq<char>)
    ensures
        occurrences(keys, k) <= keys.len(),
    decreases keys.len(),
{
    if keys.len() > 0 {
        lemma_occurrences_bound(keys.drop_last(), k);
    }
}

/// One statistics row per calendar date: the date, as `YYYY-MM-DD`, and the
/// number of clicks on it.
#[derive(Debug)]
pub struct ClickStats {
    pub date: String,
    pub clicks: i64,
}

/// One statistics row per referral tag: the tag and how often it occurs.
#[derive(Debug)]
pub struct SourceStats {
    pub source: String,
    pub count: i64,
}

/// The index of `key` in `names`, if it is there.
fn position_of(names: &Vec<String>, key: &String) -> (r: Option<usize>)
    ensures
        r matches Some(j) ==> j < names.len() && names[j as int]@ == key@,
        r is None ==> forall|a: int| 0 <= a < names.len() ==> names[a]@ != key@,
{
    let mut j: usize = 0;
    while j < names.len()
        invariant
            j <= names.len(),
            forall|a: int| 0 <= a < j ==> names[a]@ != key@,
        decreases names.len() - j,
    {
        if names[j] == *key {
            return Some(j);
        }
        j = j + 1;
    }
    None
}

/// The distinct keys of `keys`, each with its number of occurrences.
fn tally(keys: &Vec<String>) -> (r: (Vec<String>, Vec<usize>))
    ensures
        r.0.len() == r.1.len(),
        forall|i: int| 0 <= i < r.0.len() ==> #[trigger] r.1[i] == occurrences(views(keys@), r.0[i]@),
        forall|i: int| 0 <= i < r.0.len() ==> #[trigger] r.1[i] > 0,
        forall|i: int, j: int| 0 <= i < j < r.0.len() ==> r.0[i]@ != r.0[j]@,
        forall|k: Seq<char>| #[trigger] occurrences(views(keys@), k) > 0 ==> exists|i: int|
            0 <= i < r.0.len() && r.0[i]@ == k,
{
    let mut names: Vec<String> = Vec::new();
    let mut counts: Vec<usize> = Vec::new();
    let mut i: usize = 0;
    while i < keys.len()
        invariant
            i <= keys.len(),
            names.len() == counts.len(),
            forall|a: int| 0 <= a < names.len() ==> #[trigger] counts[a] == occurrences(
                views(keys@.subrange(0, i as int)),
                names[a]@,
            ),
            forall|a: int| 0 <= a < names.len() ==> #[trigger] counts[a] > 0,
            forall|a: int, b: int| 0 <= a < b < names.len() ==> names[a]@ != names[b]@,
            forall|k: Seq<char>| #[trigger] occurrences(views(keys@.subrange(0, i as int)), k) > 0
                ==> exists|a: int| 0 <= a < names.len() && names[a]@ == k,
        decreases keys.len() - i,
    {
        let ghost before = views(keys@.subrange(0, i as int));
        let ghost x = keys@[i as int]@;
        proof {
            assert(views(keys@.subrange(0, i + 1)) =~= before.push(x));
            lemma_occurrences_bound(before, x);
            assert forall|k: Seq<char>| #[trigger]
                occurrences(views(keys@.subrange(0, i + 1)), k) == occurrences(before, k) + if x
                    == k {
                    1nat
                } else {
                    0nat
                } by {
                lemma_occurrences_push(before, x, k);
            }
        }
        let pos = position_of(&names, &keys[i]);
        let ghost old_names = names@;
        if let Some(j) = pos {
            proof {
                lemma_occurrences_bound(before, names[j as int]@);
            }
            let c = counts[j] + 1;
            counts.set(j, c);
        } else {
            names.push(keys[i].clone());
            counts.push(1);
        }
        proof {
            assert forall|k: Seq<char>| #[trigger]
                occurrences(views(keys@.subrange(0, i + 1)), k) > 0 implies exists|a: int|
                0 <= a < names.len() && names[a]@ == k by {
                if k == x {
                    if let Some(j) = pos {
                        assert(names[j as int]@ == k);
                    } else {
                        assert(names[names.len() - 1]@ == k);
                    }
                } else {
                    assert(occurrences(before, k) > 0);
                    let a = choose|a: int| 0 <= a < old_names.len() && old_names[a]@ == k;
                    assert(names[a]@ == k);
                }
            }
        }
        i = i + 1;
    }
    assert(keys@.subrange(0, keys.len() as int) =~= keys@);
    (names, counts)
}

/// The order in which statistics rows are listed: by key ascending, or, when
/// `by_count`, by count descending and then by key ascending.
pub open spec fn ranks_before(by_count: bool, ka: Seq<char>, ca: int, kb: Seq<char>, cb: int) -> bool {
    if by_count {
        ca > cb || (ca == cb && text_lt(ka, kb))
    } else {
        text_lt(ka, kb)
    }
}

proof fn lemma_ranks_order(by_count: bool, ka: Seq<char>, ca: int, kb: Seq<char>, cb: int, kc: Seq<char>, cc: int)
    ensures
        !ranks_before(by_count, ka, ca, ka, ca),
        !(ranks_before(by_count, ka, ca, kb, cb) && ranks_before(by_count, kb, cb, ka, ca)),
        ranks_before(by_count, ka, ca, kb, cb) && ranks_before(by_count, kb, cb, kc, cc)
            ==> ranks_before(by_count, ka, ca, kc, cc),
        ka != kb ==> ranks_before(by_count, ka, ca, kb, cb) || ranks_before(by_count, kb, cb, ka, ca),
{
    lemma_text_lt_irreflexive(ka);
    lemma_text_lt_asymmetric(ka, kb);
    if text_lt(ka, kb) && text_lt(kb, kc) {
        lemma_text_lt_transitive(ka, kb, kc);
    }
    if ka != kb {
        lemma_text_lt_total(ka, kb);
    }
}

fn ranks_first(by_count: bool, ka: &String, ca: usize, kb: &String, cb: usize) -> (r: bool)
    ensures
        r == ranks_before(by_count, ka@, ca as int, kb@, cb as int),
{
    if by_count {
        ca > cb || (ca == cb && text_less(ka.as_str(), kb.as_str()))
    } else {
        text_less(ka.as_str(), kb.as_str())
    }
}

/// Entry `a` ranks before entry `b` of the tally `(names, counts)`.
pub open spec fn entry_before(by_count: bool, names: Seq<String>, counts: Seq<usize>, a: int, b: int) -> bool {
    ranks_before(by_count, names[a]@, counts[a] as int, names[b]@, counts[b] as int)
}

/// Entry `u` may follow the entries already chosen in `out`.
pub open spec fn may_follow(by_count: bool, names: Seq<String>, counts: Seq<usize>, out: Seq<usize>, u: int) -> bool {
    out.len() == 0 || entry_before(by_count, names, counts, out[out.len() - 1] as int, u)
}

/// Index `t` occurs in `r`.
pub open spec fn listed(r: Seq<usize>, t: int) -> bool {
    exists|i: int| 0 <= i < r.len() && r[i] == t
}

/// The indices of the first `limit` entries of a tally in rank order.
fn select_first(names: &Vec<String>, counts: &Vec<usize>, limit: usize, by_count: bool) -> (r: Vec<usize>)
    requires
        names.len() == counts.len(),
        forall|i: int, j: int| 0 <= i < j < names.len() ==> names[i]@ != names[j]@,
    ensures
        r.len() <= limit,
        forall|i: int| 0 <= i < r.len() ==> #[trigger] r[i] < names.len(),
        forall|i: int, j: int| 0 <= i < j < r.len() ==> entry_before(by_count, names@, counts@, r[i] as int, r[j] as int),
        forall|t: int| 0 <= t < names.len() ==> #[trigger] listed(r@, t)
            || (r.len() == limit && (limit > 0 ==> entry_before(by_count, names@, counts@, r[r.len() - 1] as int, t))),
{
    let mut out: Vec<usize> = Vec::new();
    while out.len() < limit
        invariant
            names.len() == counts.len(),
            forall|i: int, j: int| 0 <= i < j < names.len() ==> names[i]@ != names[j]@,
            out.len() <= limit,
            forall|i: int| 0 <= i < out.len() ==> #[trigger] out[i] < names.len(),
            forall|i: int, j: int| 0 <= i < j < out.len() ==> entry_before(by_count, names@, counts@, out[i] as int, out[j] as int),
            forall|t: int| 0 <= t < names.len() && out.len() > 0
                && !entry_before(by_count, names@, counts@, out[out.len() - 1] as int, t)
                ==> #[trigger] listed(out@, t),
        decreases limit - out.len(),
    {
        let mut best: Option<usize> = None;
        let mut t: usize = 0;
        while t < names.len()
            invariant
                names.len() == counts.len(),
                forall|i: int| 0 <= i < out.len() ==> #[trigger] out[i] < names.len(),
                t <= names.len(),
                forall|i: int, j: int| 0 <= i < j < names.len() ==> names[i]@ != names[j]@,
                best matches Some(b) ==> b < t && may_follow(by_count, names@, counts@, out@, b as int),
                best matches Some(b) ==> forall|u: int| 0 <= u < t && may_follow(by_count, names@, counts@, out@, u)
                    ==> u == b || entry_before(by_count, names@, counts@, b as int, u),
                best is None ==> forall|u: int| 0 <= u < t ==> !#[trigger] may_follow(by_count, names@, counts@, out@, u),
            decreases names.len() - t,
        {
            let after_last = if out.len() == 0 {
                true
            } else {
                let l = out[out.len() - 1];
                ranks_first(by_count, &names[l], counts[l], &names[t], counts[t])
            };
            if after_last {
                match best {
                    None => {
                        best = Some(t);
                    },
                    Some(b) => {
                        if ranks_first(by_count, &names[t], counts[t], &names[b], counts[b]) {
                            proof {
                                assert forall|u: int| 0 <= u < t && may_follow(by_count, names@, counts@, out@, u)
                                    implies u == t || entry_before(by_count, names@, counts@, t as int, u) by {
                                    assert(u == b || entry_before(by_count, names@, counts@, b as int, u));
                                    if u != b {
                                        lemma_ranks_order(by_count, names[t as int]@, counts[t as int] as int,
                                            names[b as int]@, counts[b as int] as int, names[u]@, counts[u] as int);
                                    }
                                }
                            }
                            best = Some(t);
                        } else {
                            proof {
                                assert(names[t as int]@ != names[b as int]@);
                                if t != b {
                                    lemma_ranks_order(by_count, names[t as int]@, counts[t as int] as int,
                                        names[b as int]@, counts[b as int] as int, names[b as int]@, counts[b as int] as int);
                                }
                            }
                        }
                    },
                }
            }
            t = t + 1;
        }
        match best {
            None => {
                proof {
                    assert forall|u: int| 0 <= u < names.len() implies #[trigger] listed(out@, u) by {
                        assert(!may_follow(by_count, names@, counts@, out@, u));
                        assert(out.len() > 0);
                    }
                }
                return out;
            },
            Some(b) => {
                let ghost prev = out@;
                proof {
                    assert forall|i: int| 0 <= i < prev.len() implies entry_before(by_count, names@, counts@, prev[i] as int, b as int) by {
                        assert(may_follow(by_count, names@, counts@, prev, b as int));
                        if i < prev.len() - 1 {
                            assert(entry_before(by_count, names@, counts@, prev[i] as int, prev[prev.len() - 1] as int));
                            lemma_ranks_order(by_count, names[prev[i] as int]@, counts[prev[i] as int] as int,
                                names[prev[prev.len() - 1] as int]@, counts[prev[prev.len() - 1] as int] as int,
                                names[b as int]@, counts[b as int] as int);
                        }
                    }
                }
                out.push(b);
                proof {
                    assert forall|u: int| 0 <= u < names.len() && !entry_before(by_count, names@, counts@, b as int, u)
                        implies #[trigger] listed(out@, u) by {
                        if u == b as int {
                            assert(out[out.len() - 1] == u);
                        } else {
                            assert(names[u]@ != names[b as int]@);
                            lemma_ranks_order(by_count, names[b as int]@, counts[b as int] as int,
                                names[u]@, counts[u] as int, names[u]@, counts[u] as int);
                            assert(may_follow(by_count, names@, counts@, prev, u) ==> u == b
                                || entry_before(by_count, names@, counts@, b as int, u));
                            assert(!may_follow(by_count, names@, counts@, prev, u));
                            assert(listed(prev, u));
                            let i = choose|i: int| 0 <= i < prev.len() && prev[i] == u;
                            assert(out@[i] == u);
                        }
                    }
                }
            },
        }
    }
    out
}

/// Some entry of `names` holds the text `k`.
pub open spec fn holds_key(names: Seq<String>, k: Seq<char>) -> bool {
    exists|i: int| 0 <= i < names.len() && names[i]@ == k
}

/// The distinct keys of `keys` with their counts, in rank order, cut to
/// `limit`: every key left out ranks after the last one kept.
fn rank(keys: &Vec<String>, limit: usize, by_count: bool) -> (r: (Vec<String>, Vec<usize>))
    ensures
        r.0.len() == r.1.len(),
        r.0.len() <= limit,
        forall|i: int| 0 <= i < r.0.len() ==> #[trigger] r.1[i] == occurrences(views(keys@), r.0[i]@),
        forall|i: int| 0 <= i < r.0.len() ==> #[trigger] r.1[i] > 0,
        forall|i: int, j: int| 0 <= i < j < r.0.len() ==> ranks_before(by_count, r.0[i]@, r.1[i] as int, r.0[j]@, r.1[j] as int),
        forall|k: Seq<char>| #[trigger] occurrences(views(keys@), k) > 0 ==> holds_key(r.0@, k) || (r.0.len() == limit
            && (limit > 0 ==> ranks_before(by_count, r.0[r.0.len() - 1]@, r.1[r.1.len() - 1] as int, k, occurrences(views(keys@), k) as int))),
{
    let (names, counts) = tally(keys);
    let idx = select_first(&names, &counts, limit, by_count);
    let mut out_names: Vec<String> = Vec::new();
    let mut out_counts: Vec<usize> = Vec::new();
    let mut i: usize = 0;
    while i < idx.len()
        invariant
            names.len() == counts.len(),
            forall|a: int| 0 <= a < idx.len() ==> #[trigger] idx[a] < names.len(),
            i <= idx.len(),
            out_names.len() == i,
            out_counts.len() == i,
            forall|a: int| 0 <= a < i ==> #[trigger] out_names[a]@ == names[idx[a] as int]@,
            forall|a: int| 0 <= a < i ==> #[trigger] out_counts[a] == counts[idx[a] as int],
        decreases idx.len() - i,
    {
        out_names.push(names[idx[i]].clone());
        out_counts.push(counts[idx[i]]);
        i = i + 1;
    }
    proof {
        assert forall|i: int, j: int| 0 <= i < j < out_names.len() implies ranks_before(by_count,
            out_names[i]@, out_counts[i] as int, out_names[j]@, out_counts[j] as int) by {
            assert(entry_before(by_count, names@, counts@, idx[i] as int, idx[j] as int));
        }
        assert forall|k: Seq<char>| #[trigger] occurrences(views(keys@), k) > 0 implies holds_key(out_names@, k)
            || (out_names.len() == limit && (limit > 0 ==> ranks_before(by_count, out_names[out_names.len() - 1]@,
            out_counts[out_counts.len() - 1] as int, k, occurrences(views(keys@), k) as int))) by {
            let t = choose|t: int| 0 <= t < names.len() && names[t]@ == k;
            if listed(idx@, t) {
                let i = choose|i: int| 0 <= i < idx.len() && idx[i] == t;
                assert(out_names[i]@ == k);
            }
        }
    }
    (out_names, out_counts)
}

/// The referral tags of a sequence of click rows: the present, non-empty ones, in order.
pub open spec fn tags(rows: Seq<Option<String>>) -> Seq<Seq<char>>
    decreases rows.len(),
{
    if rows.len() == 0 {
        seq![]
    } else {
        let earlier = tags(rows.drop_last());
        match rows.last() {
            Some(s) => if s@.len() > 0 {
                earlier.push(s@)
            } else {
                earlier
            },
            None => earlier,
        }
    }
}

pub proof fn lemma_tags_nonempty(rows: Seq<Option<String>>, k: Seq<char>)
    requires
        occurrences(tags(rows), k) > 0,
    ensures
        k.len() > 0,
    decreases rows.len(),
{
    let earlier = tags(rows.drop_last());
    match rows.last() {
        Some(s) => {
            if s@.len() > 0 {
                lemma_occurrences_push(earlier, s@, k);
                if s@ != k {
                    lemma_tags_nonempty(rows.drop_last(), k);
                }
            } else {
                lemma_tags_nonempty(rows.drop_last(), k);
            }
        },
        None => {
            lemma_tags_nonempty(rows.drop_last(), k);
        },
    }
}

pub proof fn lemma_tags_len(rows: Seq<Option<String>>)
    ensures
        tags(rows).len() <= rows.len(),
    decreases rows.len(),
{
    if rows.len() > 0 {
        lemma_tags_len(rows.drop_last());
    }
}

/// Some row of `r` is for the date `k`.
pub open spec fn shows_date(r: Seq<ClickStats>, k: Seq<char>) -> bool {
    exists|i: int| 0 <= i < r.len() && r[i].date@ == k
}

/// Some row of `r` is for the tag `k`.
pub open spec fn shows_source(r: Seq<SourceStats>, k: Seq<char>) -> bool {
    exists|i: int| 0 <= i < r.len() && r[i].source@ == k
}

/// `r` lists the dates of `dates` with their counts, by date ascending, the
/// 30 earliest only.
pub open spec fn daily_clicks_of(dates: Seq<Seq<char>>, r: Seq<ClickStats>) -> bool {
    &&& r.len() <= 30
    &&& forall|i: int| 0 <= i < r.len() ==> #[trigger] r[i].clicks == occurrences(dates, r[i].date@)
    &&& forall|i: int| 0 <= i < r.len() ==> #[trigger] r[i].clicks > 0
    &&& forall|i: int, j: int| 0 <= i < j < r.len() ==> text_lt(r[i].date@, r[j].date@)
    &&& forall|k: Seq<char>| #[trigger] occurrences(dates, k) > 0 ==> shows_date(r, k)
        || (r.len() == 30 && text_lt(r[29].date@, k))
}

/// `r` lists the distinct tags of `tags` with their counts, by count
/// descending and then by tag ascending, the first 10 only.
pub open spec fn top_sources_of(tags: Seq<Seq<char>>, r: Seq<SourceStats>) -> bool {
    &&& r.len() <= 10
    &&& forall|i: int| 0 <= i < r.len() ==> #[trigger] r[i].count == occurrences(tags, r[i].source@)
    &&& forall|i: int| 0 <= i < r.len() ==> #[trigger] r[i].count > 0
    &&& forall|i: int, j: int| 0 <= i < j < r.len() ==> r[i].count >= r[j].count
    &&& forall|i: int, j: int| 0 <= i < j < r.len() ==> ranks_before(true, r[i].source@, r[i].count as int, r[j].source@, r[j].count as int)
    &&& forall|k: Seq<char>| #[trigger] occurrences(tags, k) > 0 ==> shows_source(r, k)
        || (r.len() == 10 && ranks_before(true, r[9].source@, r[9].count as int, k, occurrences(tags, k) as int))
}

/// Clicks per calendar date, from the date of each click row of a link: one
/// row per date that occurs, with its number of clicks, by date ascending,
/// the 30 earliest dates only.
pub fn daily_clicks(dates: &Vec<String>) -> (r: Vec<ClickStats>)
    requires
        dates.len() <= i64::MAX,
    ensures
        daily_clicks_of(views(dates@), r@),
{
    let (names, counts) = rank(dates, 30, false);
    let mut out: Vec<ClickStats> = Vec::new();
    let mut i: usize = 0;
    while i < names.len()
        invariant
            names.len() == counts.len(),
            dates.len() <= i64::MAX,
            forall|a: int| 0 <= a < names.len() ==> #[trigger] counts[a] == occurrences(views(dates@), names[a]@),
            i <= names.len(),
            out.len() == i,
            forall|a: int| 0 <= a < i ==> #[trigger] out[a].date@ == names[a]@,
            forall|a: int| 0 <= a < i ==> #[trigger] out[a].clicks == counts[a],
        decreases names.len() - i,
    {
        proof {
            lemma_occurrences_bound(views(dates@), names[i as int]@);
        }
        out.push(ClickStats { date: names[i].clone(), clicks: counts[i] as i64 });
        i = i + 1;
    }
    proof {
        assert forall|i: int, j: int| 0 <= i < j < out.len() implies text_lt(out[i].date@, out[j].date@) by {
            assert(ranks_before(false, names[i]@, counts[i] as int, names[j]@, counts[j] as int));
        }
        assert forall|k: Seq<char>| #[trigger] occurrences(views(dates@), k) > 0 implies shows_date(out@, k)
            || (out.len() == 30 && text_lt(out[29].date@, k)) by {
            if holds_key(names@, k) {
                let a = choose|a: int| 0 <= a < names.len() && names[a]@ == k;
                assert(out[a].date@ == k);
            }
        }
    }
    out
}

/// The most frequent referral tags, from the tag of each click row of a
/// link: absent and empty tags are left out; one row per tag with its number
/// of occurrences, by count descending and then by tag ascending, at most 10.
pub fn top_sources(query_sources: &Vec<Option<String>>) -> (r: Vec<SourceStats>)
    requires
        query_sources.len() <= i64::MAX,
    ensures
        r.len() <= 10,
        forall|i: int| 0 <= i < r.len() ==> (#[trigger] r[i].source)@.len() > 0,
        forall|i: int, j: int| 0 <= i < j < r.len() ==> r[i].count >= r[j].count,
        top_sources_of(tags(query_sources@), r@),
{
    let mut keys: Vec<String> = Vec::new();
    let mut i: usize = 0;
    while i < query_sources.len()
        invariant
            i <= query_sources.len(),
            views(keys@) == tags(query_sources@.subrange(0, i as int)),
        decreases query_sources.len() - i,
    {
        assert(query_sources@.subrange(0, i + 1).drop_last() =~= query_sources@.subrange(0, i as int));
        match &query_sources[i] {
            Some(s) => {
                if s.as_str().unicode_len() > 0 {
                    keys.push(s.clone());
                    assert(views(keys@) =~= tags(query_sources@.subrange(0, i as int)).push(s@));
                }
            },
            None => {},
        }
        i = i + 1;
    }
    assert(query_sources@.subrange(0, query_sources.len() as int) =~= query_sources@);
    assert(views(keys@) == tags(query_sources@));
    let (names, counts) = rank(&keys, 10, true);
    let mut out: Vec<SourceStats> = Vec::new();
    let mut j: usize = 0;
    proof {
        lemma_tags_len(query_sources@);
    }
    while j < names.len()
        invariant
            names.len() == counts.len(),
            views(keys@).len() <= i64::MAX,
            views(keys@) == tags(query_sources@),
            forall|a: int| 0 <= a < names.len() ==> #[trigger] counts[a] > 0,
            forall|a: int| 0 <= a < names.len() ==> #[trigger] counts[a] == occurrences(views(keys@), names[a]@),
            j <= names.len(),
            out.len() == j,
            forall|a: int| 0 <= a < j ==> #[trigger] out[a].source@ == names[a]@,
            forall|a: int| 0 <= a < j ==> #[trigger] out[a].count == counts[a],
        decreases names.len() - j,
    {
        proof {
            lemma_occurrences_bound(views(keys@), names[j as int]@);
        }
        out.push(SourceStats { source: names[j].clone(), count: counts[j] as i64 });
        j = j + 1;
    }
    proof {
        assert forall|a: int| 0 <= a < out.len() implies (#[trigger] out[a].source)@.len() > 0 by {
            assert(out[a].source@ == names[a]@);
            assert(counts[a] > 0);
            assert(occurrences(tags(query_sources@), out[a].source@) > 0);
            lemma_tags_nonempty(query_sources@, out[a].source@);
        }
        assert forall|i: int, j: int| 0 <= i < j < out.len() implies out[i].count >= out[j].count by {
            assert(ranks_before(true, names[i]@, counts[i] as int, names[j]@, counts[j] as int));
        }
        assert forall|k: Seq<char>| #[trigger] occurrences(tags(query_sources@), k) > 0 implies shows_source(out@, k)
            || (out.len() == 10 && ranks_before(true, out[9].source@, out[9].count as int, k,
            occurrences(tags(query_sources@), k) as int)) by {
            if holds_key(names@, k) {
                let a = choose|a: int| 0 <= a < names.len() && names[a]@ == k;
                assert(out[a].source@ == k);
            }
        }
    }
    out
}

} // verus!
