use vstd::prelude::*;

use crate::codes::{acceptable_code, is_reserved, valid_code_format, valid_url};
use crate::flows::{
    create_begin, create_next, delete_begin, delete_next, redirect_begin, redirect_next,
    Failure, Step,
};
use crate::models::{CreateLink, Link};
use crate::store::{Reply, Statement, StoreError};

verus! {

/// One row of the click table.
pub ghost struct ClickRow {
    pub link_id: i32,
    pub source: Option<Seq<char>>,
    pub query_source: Option<Seq<char>>,
}

/// The link and click tables of the store, with the id and timestamp that
/// the next inserted link receives.
pub ghost struct Tables {
    pub links: Seq<Link>,
    pub clicks: Seq<ClickRow>,
    pub next_id: i32,
    pub now: i64,
}

pub open spec fn text_of(o: Option<String>) -> Option<Seq<char>> {
    match o {
        Some(s) => Some(s@),
        None => None,
    }
}

/// Some link holds the code `code`.
pub open spec fn code_stored(t: Tables, code: Seq<char>) -> bool {
    exists|i: int| 0 <= i < t.links.len() && t.links[i].short_code@ == code
}

/// The position of the link with code `code`.
pub open spec fn position_of_code(t: Tables, code: Seq<char>) -> int {
    choose|i: int| 0 <= i < t.links.len() && t.links[i].short_code@ == code
}

/// The link table's invariants hold: ids (the primary key) and codes are
/// unique, every id is below the next one to be given out, and every code
/// is well formed and no reserved word.
pub open spec fn tables_wf(t: Tables) -> bool {
    &&& forall|i: int, j: int| 0 <= i < j < t.links.len() ==> t.links[i].short_code@ != t.links[j].short_code@
    &&& forall|i: int, j: int| 0 <= i < j < t.links.len() ==> t.links[i].id != t.links[j].id
    &&& forall|i: int| 0 <= i < t.links.len() ==> (#[trigger] t.links[i]).id < t.next_id
    &&& forall|i: int| 0 <= i < t.links.len() ==> acceptable_code((#[trigger] t.links[i]).short_code@)
}

/// How many links hold the code `code`.
pub open spec fn links_with_code(links: Seq<Link>, code: Seq<char>) -> nat
    decreases links.len(),
{
    if links.len() == 0 {
        0
    } else {
        links_with_code(links.drop_last(), code) + if links.last().short_code@ == code {
            1nat
        } else {
            0nat
        }
    }
}

/// How many click rows belong to link `id`.
pub open spec fn clicks_of(rows: Seq<ClickRow>, id: i32) -> nat
    decreases rows.len(),
{
    if rows.len() == 0 {
        0
    } else {
        clicks_of(rows.drop_last(), id) + if rows.last().link_id == id {
            1nat
        } else {
            0nat
        }
    }
}

/// What a statement does to the link and click tables and what it answers,
/// for the statements that write them or test for a row; `None` for the
/// reads that return lists of rows and for the statements on users.
pub open spec fn apply(t: Tables, stmt: Statement) -> Option<(Tables, Reply)> {
    match stmt {
        Statement::FindLinkByCode { short_code } => Some(
            if code_stored(t, short_code@) {
                (t, Reply::Row(Some(t.links[position_of_code(t, short_code@)])))
            } else {
                (t, Reply::Row(None))
            },
        ),
        Statement::InsertLink { original_url, short_code, user_id } => Some(
            if code_stored(t, short_code@) {
                (t, Reply::Failed(StoreError::UniqueViolation { constraint: arbitrary() }))
            } else {
                let link = Link {
                    id: t.next_id,
                    user_id: Some(user_id),
                    original_url,
                    short_code,
                    created_at: t.now,
                    clicks: 0,
                };
                (Tables { links: t.links.push(link), next_id: (t.next_id + 1) as i32, ..t }, Reply::Row(Some(link)))
            },
        ),
        Statement::InsertClick { link_id, source, query_source } => Some(
            (
                Tables {
                    clicks: t.clicks.push(ClickRow { link_id, source: text_of(source), query_source: text_of(query_source) }),
                    ..t
                },
                Reply::Executed,
            ),
        ),
        Statement::IncrementClicks { short_code } => Some(
            if code_stored(t, short_code@) {
                let i = position_of_code(t, short_code@);
                let link = Link { clicks: (t.links[i].clicks + 1) as i64, ..t.links[i] };
                (Tables { links: t.links.update(i, link), ..t }, Reply::Row(Some(link)))
            } else {
                (t, Reply::Row(None))
            },
        ),
        Statement::FindOwnedLink { link_id, user_id } => Some(
            (
                t,
                Reply::Found(exists|i: int| 0 <= i < t.links.len() && t.links[i].id == link_id
                    && t.links[i].user_id == Some(user_id)),
            ),
        ),
        Statement::DeleteClicksOf { link_id } => Some(
            (Tables { clicks: t.clicks.filter(|c: ClickRow| c.link_id != link_id), ..t }, Reply::Executed),
        ),
        Statement::DeleteLink { link_id } => Some(
            (Tables { links: t.links.filter(|l: Link| l.id != link_id), ..t }, Reply::Executed),
        ),
        Statement::InsertLinkIfAbsent { original_url, short_code, user_id } => Some(
            if code_stored(t, short_code@) {
                (t, Reply::Executed)
            } else {
                let link = Link {
                    id: t.next_id,
                    user_id: Some(user_id),
                    original_url,
                    short_code,
                    created_at: t.now,
                    clicks: 0,
                };
                (Tables { links: t.links.push(link), next_id: (t.next_id + 1) as i32, ..t }, Reply::Executed)
            },
        ),
        _ => None,
    }
}

/// Runs an operation to its end against the tables: statements act on a
/// working copy, a commit makes the copy durable, and the durable tables are
/// returned with the result. `fuel` bounds the number of steps.
pub open spec fn drive<F, T>(
    next: spec_fn(F, Reply) -> (F, Step<T>),
    durable: Tables,
    work: Tables,
    at: (F, Step<T>),
    fuel: nat,
) -> (Tables, Result<T, Failure>)
    decreases fuel,
{
    if fuel == 0 {
        (durable, Err(Failure::UnexpectedReply))
    } else {
        match at.1 {
            Step::Finish(res) => (durable, res),
            Step::Commit => drive(next, work, work, next(at.0, Reply::Committed), (fuel - 1) as nat),
            Step::Run(stmt) => match apply(work, stmt) {
                Some((w, reply)) => drive(next, durable, w, next(at.0, reply), (fuel - 1) as nat),
                None => (durable, Err(Failure::UnexpectedReply)),
            },
        }
    }
}

/// A link creation run against `t`.
pub open spec fn run_create(t: Tables, req: CreateLink, user_id: i32, generated: String) -> (Tables, Result<Link, Failure>) {
    drive(|f, r| create_next(f, r), t, t, create_begin(req, user_id, generated), 6)
}

/// A redirect run against `t`.
pub open spec fn run_redirect(t: Tables, code: String, source: String, query_source: Option<String>) -> (Tables, Result<String, Failure>) {
    drive(|f, r| redirect_next(f, r), t, t, redirect_begin(code, source, query_source), 5)
}

/// A deletion run against `t`.
pub open spec fn run_delete(t: Tables, link_id: i32, user_id: i32) -> (Tables, Result<(), Failure>) {
    drive(|f, r| delete_next(f, r), t, t, delete_begin(link_id, user_id), 6)
}

/// Redirects from `code`, one after the other, the `k`th carrying source
/// `sources[k]` and tag `tags[k]`.
pub open spec fn redirect_each(t: Tables, code: String, sources: Seq<String>, tags: Seq<Option<String>>) -> Tables
    decreases sources.len(),
{
    if sources.len() == 0 {
        t
    } else {
        run_redirect(redirect_each(t, code, sources.drop_last(), tags.drop_last()), code, sources.last(), tags.last()).0
    }
}

/// The click rows that those redirects record for link `id`.
pub open spec fn redirect_rows(id: i32, sources: Seq<String>, tags: Seq<Option<String>>) -> Seq<ClickRow> {
    Seq::new(sources.len(), |k: int| ClickRow { link_id: id, source: Some(sources[k]@), query_source: text_of(tags[k]) })
}

/// Redirecting from a code that no link holds reports not found and leaves
/// the tables, clicks included, as they were.
pub proof fn redirect_unknown_code(t: Tables, code: String, source: String, query_source: Option<String>)
    requires
        !code_stored(t, code@),
    ensures
        run_redirect(t, code, source, query_source) == (t, Err::<String, Failure>(Failure::NotFound)),
{
    reveal_with_fuel(drive, 3);
}

proof fn lemma_no_link_with_code(links: Seq<Link>, code: Seq<char>)
    requires
        forall|i: int| 0 <= i < links.len() ==> links[i].short_code@ != code,
    ensures
        links_with_code(links, code) == 0,
    decreases links.len(),
{
    if links.len() > 0 {
        lemma_no_link_with_code(links.drop_last(), code);
    }
}

proof fn lemma_clicks_of_push(rows: Seq<ClickRow>, row: ClickRow, id: i32)
    ensures
        clicks_of(rows.push(row), id) == clicks_of(rows, id) + if row.link_id == id {
            1nat
        } else {
            0nat
        },
{
    assert(rows.push(row).drop_last() =~= rows);
}

/// Creating a link under a free, acceptable custom code for a valid URL
/// succeeds: the link returned and stored holds the requested code, the URL,
/// the owner and no clicks, and when the request names a source exactly one
/// click row for the link records it, in the same transaction.
pub proof fn create_with_free_code(t: Tables, req: CreateLink, user_id: i32, generated: String)
    requires
        valid_url(req.url@),
        req.custom_code matches Some(c) && acceptable_code(c@) && !code_stored(t, c@),
    ensures
        run_create(t, req, user_id, generated).1 matches Ok(link) && link.short_code@ == req.custom_code->Some_0@
            && link.original_url == req.url && link.user_id == Some(user_id) && link.clicks == 0,
        code_stored(run_create(t, req, user_id, generated).0, req.custom_code->Some_0@),
        run_create(t, req, user_id, generated).0.links.len() == t.links.len() + 1,
        req.source is None ==> run_create(t, req, user_id, generated).0.clicks == t.clicks,
        req.source matches Some(src) ==> run_create(t, req, user_id, generated).0.clicks == t.clicks.push(
            ClickRow { link_id: t.next_id, source: Some(src@), query_source: None },
        ),
{
    reveal_with_fuel(drive, 6);
    let c = req.custom_code->Some_0;
    let t1 = run_create(t, req, user_id, generated).0;
    let link = Link { id: t.next_id, user_id: Some(user_id), original_url: req.url, short_code: c, created_at: t.now, clicks: 0 };
    assert(t1.links == t.links.push(link));
    assert(t1.links[t.links.len() as int] == link);
}

/// Creating a link for a valid URL without a custom code succeeds under the
/// generated code when no link holds it yet.
pub proof fn create_with_generated_code(t: Tables, req: CreateLink, user_id: i32, generated: String)
    requires
        valid_url(req.url@),
        req.custom_code is None,
        !code_stored(t, generated@),
    ensures
        run_create(t, req, user_id, generated).1 matches Ok(link) && link.short_code == generated
            && link.original_url == req.url && link.user_id == Some(user_id) && link.clicks == 0,
        code_stored(run_create(t, req, user_id, generated).0, generated@),
{
    reveal_with_fuel(drive, 6);
    let t1 = run_create(t, req, user_id, generated).0;
    let link = Link { id: t.next_id, user_id: Some(user_id), original_url: req.url, short_code: generated, created_at: t.now, clicks: 0 };
    assert(t1.links == t.links.push(link));
    assert(t1.links[t.links.len() as int] == link);
}

/// Creating two links under the same custom code: the first succeeds, the
/// second fails because the code is taken and leaves the tables as they
/// were, so exactly one link holds the code.
pub proof fn create_same_code_twice(
    t: Tables,
    first: CreateLink,
    second: CreateLink,
    first_user: i32,
    second_user: i32,
    g1: String,
    g2: String,
)
    requires
        valid_url(first.url@),
        valid_url(second.url@),
        first.custom_code matches Some(c) && acceptable_code(c@) && !code_stored(t, c@),
        second.custom_code matches Some(c) && c@ == first.custom_code->Some_0@,
    ensures
        run_create(t, first, first_user, g1).1 is Ok,
        run_create(run_create(t, first, first_user, g1).0, second, second_user, g2) == (
            run_create(t, first, first_user, g1).0,
            Err::<Link, Failure>(Failure::CodeTaken),
        ),
        links_with_code(run_create(t, first, first_user, g1).0.links, first.custom_code->Some_0@) == 1,
{
    create_with_free_code(t, first, first_user, g1);
    reveal_with_fuel(drive, 6);
    let c = first.custom_code->Some_0;
    let t1 = run_create(t, first, first_user, g1).0;
    let link = Link { id: t.next_id, user_id: Some(first_user), original_url: first.url, short_code: c, created_at: t.now, clicks: 0 };
    assert(t1.links == t.links.push(link));
    assert(t1.links.drop_last() =~= t.links);
    lemma_no_link_with_code(t.links, c@);
}

/// Deleting a link that does not exist, or that belongs to another user,
/// reports not found and leaves the tables, the link and its clicks
/// included, as they were.
pub proof fn delete_by_other_user(t: Tables, link_id: i32, user_id: i32)
    requires
        !(exists|i: int| 0 <= i < t.links.len() && t.links[i].id == link_id && t.links[i].user_id == Some(user_id)),
    ensures
        run_delete(t, link_id, user_id) == (t, Err::<(), Failure>(Failure::NotFound)),
{
    reveal_with_fuel(drive, 3);
}

/// Deleting user `owner`'s link as another user reports not found, as for
/// an id that no link has, and leaves the tables, the link and its clicks
/// included, as they were.
pub proof fn delete_foreign_link(t: Tables, link_id: i32, owner: i32, caller: i32)
    requires
        tables_wf(t),
        exists|i: int| 0 <= i < t.links.len() && t.links[i].id == link_id && t.links[i].user_id == Some(owner),
        owner != caller,
    ensures
        run_delete(t, link_id, caller) == (t, Err::<(), Failure>(Failure::NotFound)),
{
    let i = choose|i: int| 0 <= i < t.links.len() && t.links[i].id == link_id && t.links[i].user_id == Some(owner);
    assert forall|j: int| 0 <= j < t.links.len() && t.links[j].id == link_id implies t.links[j].user_id != Some(caller) by {
        if j != i {
            if j < i {
                assert(t.links[j].id != t.links[i].id);
            } else {
                assert(t.links[i].id != t.links[j].id);
            }
        }
    }
    delete_by_other_user(t, link_id, caller);
}

proof fn lemma_insert_keeps_wf(t: Tables, t2: Tables, link: Link)
    requires
        tables_wf(t),
        t.next_id < i32::MAX,
        !code_stored(t, link.short_code@),
        acceptable_code(link.short_code@),
        link.id == t.next_id,
        t2.links == t.links.push(link),
        t2.next_id == t.next_id + 1,
    ensures
        tables_wf(t2),
{
    assert forall|a: int, b: int| 0 <= a < b < t2.links.len() implies t2.links[a].short_code@ != t2.links[b].short_code@
        && t2.links[a].id != t2.links[b].id by {
        if b == t.links.len() {
            assert(t.links[a].id < t.next_id);
        } else {
            assert(t.links[a].short_code@ != t.links[b].short_code@);
        }
    }
    assert forall|a: int| 0 <= a < t2.links.len() implies (#[trigger] t2.links[a]).id < t2.next_id
        && acceptable_code(t2.links[a].short_code@) by {
        if a < t.links.len() {
            assert(t.links[a].id < t.next_id);
            assert(acceptable_code(t.links[a].short_code@));
        }
    }
}

/// A link creation keeps the invariants of the tables: whether it succeeds
/// or not, codes and ids stay unique and every code stays well formed and
/// no reserved word, given a generated code that is acceptable.
pub proof fn create_keeps_tables_wf(t: Tables, req: CreateLink, user_id: i32, generated: String)
    requires
        tables_wf(t),
        t.next_id < i32::MAX,
        req.custom_code is None ==> acceptable_code(generated@),
    ensures
        tables_wf(run_create(t, req, user_id, generated).0),
{
    reveal_with_fuel(drive, 6);
    let t1 = run_create(t, req, user_id, generated).0;
    if req.url@.len() > 0 && valid_url(req.url@) {
        match req.custom_code {
            Some(c) => {
                if valid_code_format(c@) && !is_reserved(c@) && !code_stored(t, c@) {
                    let link = Link { id: t.next_id, user_id: Some(user_id), original_url: req.url, short_code: c, created_at: t.now, clicks: 0 };
                    assert(t1.links == t.links.push(link));
                    lemma_insert_keeps_wf(t, t1, link);
                } else {
                    assert(t1 == t);
                }
            },
            None => {
                if !code_stored(t, generated@) {
                    let link = Link { id: t.next_id, user_id: Some(user_id), original_url: req.url, short_code: generated, created_at: t.now, clicks: 0 };
                    assert(t1.links == t.links.push(link));
                    lemma_insert_keeps_wf(t, t1, link);
                } else {
                    assert(t1 == t);
                }
            },
        }
    } else {
        assert(t1 == t);
    }
}

/// Deleting a link as its owner succeeds and removes the link and every
/// click row of it; the other links and clicks stay.
pub proof fn delete_by_owner(t: Tables, link_id: i32, user_id: i32)
    requires
        exists|i: int| 0 <= i < t.links.len() && t.links[i].id == link_id && t.links[i].user_id == Some(user_id),
    ensures
        run_delete(t, link_id, user_id).1 == Ok::<(), Failure>(()),
        forall|i: int| 0 <= i < run_delete(t, link_id, user_id).0.links.len()
            ==> (#[trigger] run_delete(t, link_id, user_id).0.links[i]).id != link_id,
        forall|i: int| 0 <= i < run_delete(t, link_id, user_id).0.clicks.len()
            ==> (#[trigger] run_delete(t, link_id, user_id).0.clicks[i]).link_id != link_id,
        forall|i: int| 0 <= i < t.links.len() && t.links[i].id != link_id
            ==> run_delete(t, link_id, user_id).0.links.contains(#[trigger] t.links[i]),
        forall|i: int| 0 <= i < t.clicks.len() && t.clicks[i].link_id != link_id
            ==> run_delete(t, link_id, user_id).0.clicks.contains(#[trigger] t.clicks[i]),
{
    reveal_with_fuel(drive, 6);
    let keep_link = |l: Link| l.id != link_id;
    let keep_click = |c: ClickRow| c.link_id != link_id;
    let t2 = run_delete(t, link_id, user_id).0;
    assert(t2.links == t.links.filter(keep_link));
    assert(t2.clicks == t.clicks.filter(keep_click));
    assert forall|i: int| 0 <= i < t2.links.len() implies (#[trigger] t2.links[i]).id != link_id by {
        t.links.lemma_filter_pred(keep_link, i);
    }
    assert forall|i: int| 0 <= i < t2.clicks.len() implies (#[trigger] t2.clicks[i]).link_id != link_id by {
        t.clicks.lemma_filter_pred(keep_click, i);
    }
    assert forall|i: int| 0 <= i < t.links.len() && t.links[i].id != link_id implies t2.links.contains(#[trigger] t.links[i]) by {
        t.links.lemma_filter_contains(keep_link, i);
    }
    assert forall|i: int| 0 <= i < t.clicks.len() && t.clicks[i].link_id != link_id implies t2.clicks.contains(#[trigger] t.clicks[i]) by {
        t.clicks.lemma_filter_contains(keep_click, i);
    }
}

proof fn lemma_one_redirect(t: Tables, code: String, source: String, query_source: Option<String>)
    requires
        tables_wf(t),
        code_stored(t, code@),
    ensures
        ({
            let i = position_of_code(t, code@);
            let t2 = run_redirect(t, code, source, query_source).0;
            &&& run_redirect(t, code, source, query_source).1 == Ok::<String, Failure>(t.links[i].original_url)
            &&& t2.links == t.links.update(i, Link { clicks: (t.links[i].clicks + 1) as i64, ..t.links[i] })
            &&& t2.clicks == t.clicks.push(ClickRow { link_id: t.links[i].id, source: Some(source@), query_source: text_of(query_source) })
            &&& t2.next_id == t.next_id
        }),
{
    reveal_with_fuel(drive, 5);
}

/// Any number of redirects from a stored code, one after the other (as the
/// single-statement increment serialises concurrent ones), add exactly one
/// per redirect to the link's click count, and append exactly one
/// click row per redirect for the link, carrying that redirect's source and
/// tag; the invariants of the tables are kept.
pub proof fn redirects_add_up(t: Tables, code: String, sources: Seq<String>, tags: Seq<Option<String>>)
    requires
        tables_wf(t),
        code_stored(t, code@),
        tags.len() == sources.len(),
        t.links[position_of_code(t, code@)].clicks + sources.len() <= i64::MAX,
    ensures
        ({
            let i = position_of_code(t, code@);
            let t2 = redirect_each(t, code, sources, tags);
            &&& tables_wf(t2)
            &&& code_stored(t2, code@)
            &&& position_of_code(t2, code@) == i
            &&& t2.links.len() == t.links.len()
            &&& t2.links[i].id == t.links[i].id
            &&& t2.links[i].clicks == t.links[i].clicks + sources.len()
            &&& t2.clicks == t.clicks + redirect_rows(t.links[i].id, sources, tags)
            &&& clicks_of(t2.clicks, t.links[i].id) == clicks_of(t.clicks, t.links[i].id) + sources.len()
        }),
    decreases sources.len(),
{
    let i = position_of_code(t, code@);
    let id = t.links[i].id;
    if sources.len() == 0 {
        assert(t.clicks + redirect_rows(id, sources, tags) =~= t.clicks);
    } else {
        let ps = sources.drop_last();
        let pt = tags.drop_last();
        redirects_add_up(t, code, ps, pt);
        let t1 = redirect_each(t, code, ps, pt);
        lemma_one_redirect(t1, code, sources.last(), tags.last());
        let t2 = redirect_each(t, code, sources, tags);
        assert(t2 == run_redirect(t1, code, sources.last(), tags.last()).0);
        let bumped = Link { clicks: (t1.links[i].clicks + 1) as i64, ..t1.links[i] };
        assert(t2.links == t1.links.update(i, bumped));
        assert(t2.links[i] == bumped);
        assert(t2.next_id == t1.next_id);
        assert(tables_wf(t2)) by {
            assert forall|a: int, b: int| 0 <= a < b < t2.links.len() implies t2.links[a].short_code@ != t2.links[b].short_code@
                && t2.links[a].id != t2.links[b].id by {
                assert(t1.links[a].short_code@ != t1.links[b].short_code@);
                assert(t1.links[a].id != t1.links[b].id);
            }
            assert forall|a: int| 0 <= a < t2.links.len() implies (#[trigger] t2.links[a]).id < t2.next_id
                && acceptable_code(t2.links[a].short_code@) by {
                assert(t1.links[a].id < t1.next_id);
                assert(acceptable_code(t1.links[a].short_code@));
            }
        }
        assert(code_stored(t2, code@));
        let j = position_of_code(t2, code@);
        assert(t2.links[j].short_code@ == code@);
        assert(j == i) by {
            if j != i {
                if j < i {
                    assert(t2.links[j].short_code@ != t2.links[i].short_code@);
                } else {
                    assert(t2.links[i].short_code@ != t2.links[j].short_code@);
                }
            }
        }
        let row = ClickRow { link_id: id, source: Some(sources.last()@), query_source: text_of(tags.last()) };
        assert(t2.clicks == t1.clicks.push(row));
        assert(t2.clicks =~= t.clicks + redirect_rows(id, sources, tags)) by {
            assert(redirect_rows(id, sources, tags) =~= redirect_rows(id, ps, pt).push(row));
        }
        lemma_clicks_of_push(t1.clicks, row, id);
    }
}

} // verus!
