use simplelink::analytics::{ClickStats, SourceStats};
use simplelink::error::AppError;
use simplelink::flows::{
    click_source, AddUserFlow, ClicksFlow, CreateFlow, DeleteFlow, Failure, ListFlow, LoginFlow,
    RedirectFlow, RegisterFlow, SourcesFlow, Step,
};
use simplelink::models::{CreateLink, Link, User};
use simplelink::store::{Reply, Statement, StoreError};

struct ClickRecord {
    link_id: i32,
    source: Option<String>,
    query_source: Option<String>,
    date: String,
}

/// A small in-memory stand-in for the relational store, answering each
/// statement as the SQL does.
struct MemoryStore {
    links: Vec<Link>,
    clicks: Vec<ClickRecord>,
    next_id: i32,
}

fn copy_link(l: &Link) -> Link {
    Link {
        id: l.id,
        user_id: l.user_id,
        original_url: l.original_url.clone(),
        short_code: l.short_code.clone(),
        created_at: l.created_at,
        clicks: l.clicks,
    }
}

impl MemoryStore {
    fn new() -> Self {
        MemoryStore { links: Vec::new(), clicks: Vec::new(), next_id: 1 }
    }

    fn snapshot(&self) -> MemoryStore {
        MemoryStore {
            links: self.links.iter().map(copy_link).collect(),
            clicks: self
                .clicks
                .iter()
                .map(|c| ClickRecord {
                    link_id: c.link_id,
                    source: c.source.clone(),
                    query_source: c.query_source.clone(),
                    date: c.date.clone(),
                })
                .collect(),
            next_id: self.next_id,
        }
    }

    fn run(&mut self, st: Statement) -> Reply {
        match st {
            Statement::FindLinkByCode { short_code } => {
                Reply::Row(self.links.iter().find(|l| l.short_code == short_code).map(copy_link))
            }
            Statement::InsertLink { original_url, short_code, user_id } => {
                if self.links.iter().any(|l| l.short_code == short_code) {
                    return Reply::Failed(StoreError::UniqueViolation {
                        constraint: "links_short_code_key".to_string(),
                    });
                }
                let link = Link {
                    id: self.next_id,
                    user_id: Some(user_id),
                    original_url,
                    short_code,
                    created_at: self.next_id as i64,
                    clicks: 0,
                };
                self.next_id += 1;
                let out = copy_link(&link);
                self.links.push(link);
                Reply::Row(Some(out))
            }
            Statement::InsertClick { link_id, source, query_source } => {
                self.clicks.push(ClickRecord { link_id, source, query_source, date: "2024-05-01".to_string() });
                Reply::Executed
            }
            Statement::IncrementClicks { short_code } => {
                match self.links.iter_mut().find(|l| l.short_code == short_code) {
                    Some(l) => {
                        l.clicks += 1;
                        Reply::Row(Some(copy_link(l)))
                    }
                    None => Reply::Row(None),
                }
            }
            Statement::FindOwnedLink { link_id, user_id } => Reply::Found(
                self.links.iter().any(|l| l.id == link_id && l.user_id == Some(user_id)),
            ),
            Statement::DeleteClicksOf { link_id } => {
                self.clicks.retain(|c| c.link_id != link_id);
                Reply::Executed
            }
            Statement::DeleteLink { link_id } => {
                self.links.retain(|l| l.id != link_id);
                Reply::Executed
            }
            Statement::LinksOfUser { user_id } => {
                let mut v: Vec<Link> =
                    self.links.iter().filter(|l| l.user_id == Some(user_id)).map(copy_link).collect();
                v.sort_by(|a, b| b.created_at.cmp(&a.created_at));
                Reply::Links(v)
            }
            Statement::ClickDates { link_id } => Reply::Dates(
                self.clicks.iter().filter(|c| c.link_id == link_id).map(|c| c.date.clone()).collect(),
            ),
            Statement::ClickTags { link_id } => Reply::Tags(
                self.clicks.iter().filter(|c| c.link_id == link_id).map(|c| c.query_source.clone()).collect(),
            ),
            _ => Reply::Failed(StoreError::Other("not held by this store".to_string())),
        }
    }
}

/// Drives an operation against the store inside one transaction: a failure
/// restores the tables as they were when it began.
fn drive<F, T>(db: &mut MemoryStore, start: (F, Step<T>), resume: fn(F, Reply) -> (F, Step<T>)) -> Result<T, AppError> {
    let saved = db.snapshot();
    let (mut flow, mut step) = start;
    loop {
        let reply = match step {
            Step::Run(st) => db.run(st),
            Step::Commit => Reply::Committed,
            Step::Finish(Ok(v)) => return Ok(v),
            Step::Finish(Err(f)) => {
                *db = saved;
                return Err(f.into_app_error());
            }
        };
        let next = resume(flow, reply);
        flow = next.0;
        step = next.1;
    }
}

fn create(db: &mut MemoryStore, url: &str, code: Option<&str>, source: Option<&str>, user: i32) -> Result<Link, AppError> {
    let req = CreateLink {
        url: url.to_string(),
        source: source.map(|s| s.to_string()),
        custom_code: code.map(|s| s.to_string()),
    };
    drive(db, CreateFlow::start(req, user), CreateFlow::resume)
}

fn redirect(db: &mut MemoryStore, code: &str, agent: Option<&str>, tag: Option<&str>) -> Result<String, AppError> {
    let start = RedirectFlow::start(
        code.to_string(),
        click_source(agent.map(|s| s.to_string())),
        tag.map(|s| s.to_string()),
    );
    drive(db, start, RedirectFlow::resume)
}

#[test]
fn create_then_redirect_example() {
    let mut db = MemoryStore::new();
    let link = create(&mut db, "https://example.com", Some("abc"), None, 1).unwrap();
    assert_eq!(link.short_code, "abc");
    assert_eq!(link.clicks, 0);
    assert_eq!(link.original_url, "https://example.com");
    assert_eq!(link.user_id, Some(1));
    let target = redirect(&mut db, "abc", Some("curl/8.0"), None).unwrap();
    assert_eq!(target, "https://example.com");
    assert_eq!(db.links[0].clicks, 1);
    assert_eq!(db.clicks.len(), 1);
    assert_eq!(db.clicks[0].source.as_deref(), Some("curl/8.0"));
    assert_eq!(db.clicks[0].query_source, None);
}

#[test]
fn create_with_reserved_code_fails() {
    let mut db = MemoryStore::new();
    let r = create(&mut db, "https://example.com", Some("health"), None, 1);
    assert!(matches!(r, Err(AppError::InvalidInput(m)) if m == "This code is reserved and cannot be used"));
    assert!(db.links.is_empty());
}

#[test]
fn create_with_ftp_url_fails() {
    let mut db = MemoryStore::new();
    let r = create(&mut db, "ftp://x", None, None, 1);
    assert!(matches!(r, Err(AppError::InvalidInput(m)) if m == "URL must start with http:// or https://"));
    let r = create(&mut db, "", Some("abc"), None, 1);
    assert!(matches!(r, Err(AppError::InvalidInput(_))));
    assert!(db.links.is_empty());
}

#[test]
fn same_custom_code_twice() {
    let mut db = MemoryStore::new();
    assert!(create(&mut db, "https://a.com", Some("dup"), None, 1).is_ok());
    let second = create(&mut db, "https://b.com", Some("dup"), None, 2);
    assert!(matches!(second, Err(AppError::InvalidInput(_))));
    assert_eq!(db.links.iter().filter(|l| l.short_code == "dup").count(), 1);
    assert_eq!(db.links[0].original_url, "https://a.com");
}

#[test]
fn custom_code_taken_between_check_and_insert_is_reported_taken() {
    let (flow, _) = CreateFlow::start_with_code(
        CreateLink { url: "https://a.com".to_string(), source: None, custom_code: Some("race".to_string()) },
        1,
        String::new(),
    );
    let (flow, step) = flow.resume(Reply::Row(None));
    assert!(matches!(step, Step::Run(Statement::InsertLink { .. })));
    let (_, step) = flow.resume(Reply::Failed(StoreError::UniqueViolation { constraint: "k".to_string() }));
    match step {
        Step::Finish(Err(f)) => match f.into_app_error() {
            AppError::InvalidInput(m) => assert_eq!(m, "Custom code already taken"),
            other => panic!("unexpected {:?}", other),
        },
        _ => panic!("expected a refusal"),
    }
}

#[test]
fn generated_code_collision_is_a_conflict() {
    let (flow, step) = CreateFlow::start_with_code(
        CreateLink { url: "https://a.com".to_string(), source: None, custom_code: None },
        1,
        "gen".to_string(),
    );
    match &step {
        Step::Run(Statement::InsertLink { short_code, .. }) => assert_eq!(short_code, "gen"),
        _ => panic!("expected an insert"),
    }
    let (_, step) = flow.resume(Reply::Failed(StoreError::UniqueViolation { constraint: "k".to_string() }));
    match step {
        Step::Finish(Err(f)) => assert!(matches!(
            f.into_app_error(),
            AppError::Database(StoreError::UniqueViolation { .. })
        )),
        _ => panic!("expected a conflict"),
    }
}

#[test]
fn generated_code_when_none_requested() {
    let mut db = MemoryStore::new();
    let link = create(&mut db, "http://x.org/page", None, None, 4).unwrap();
    assert_eq!(link.short_code.len(), 12);
    assert!(link.short_code.chars().all(|c| c.is_ascii_alphanumeric()));
}

#[test]
fn initial_source_records_one_click() {
    let mut db = MemoryStore::new();
    let link = create(&mut db, "https://a.com", Some("src1"), Some("newsletter"), 1).unwrap();
    assert_eq!(link.clicks, 0);
    assert_eq!(db.clicks.len(), 1);
    assert_eq!(db.clicks[0].link_id, link.id);
    assert_eq!(db.clicks[0].source.as_deref(), Some("newsletter"));
}

#[test]
fn repeated_redirects_add_up() {
    let mut db = MemoryStore::new();
    create(&mut db, "https://a.com", Some("many"), None, 1).unwrap();
    for _ in 0..25 {
        redirect(&mut db, "many", None, Some("tw")).unwrap();
    }
    assert_eq!(db.links[0].clicks, 25);
    assert_eq!(db.clicks.len(), 25);
    assert!(db.clicks.iter().all(|c| c.source.as_deref() == Some("unknown")));
}

#[test]
fn redirect_unknown_code_is_not_found() {
    let mut db = MemoryStore::new();
    create(&mut db, "https://a.com", Some("known"), None, 1).unwrap();
    let r = redirect(&mut db, "unknown1", Some("ua"), None);
    assert!(matches!(r, Err(AppError::NotFound)));
    assert!(db.clicks.is_empty());
    assert_eq!(db.links[0].clicks, 0);
}

#[test]
fn delete_by_other_user_is_not_found() {
    let mut db = MemoryStore::new();
    let link = create(&mut db, "https://a.com", Some("mine"), None, 1).unwrap();
    redirect(&mut db, "mine", None, None).unwrap();
    let r = drive(&mut db, DeleteFlow::start(link.id, 2), DeleteFlow::resume);
    assert!(matches!(r, Err(AppError::NotFound)));
    assert_eq!(db.links.len(), 1);
    assert_eq!(db.clicks.len(), 1);
    let r = drive(&mut db, DeleteFlow::start(link.id, 1), DeleteFlow::resume);
    assert!(r.is_ok());
    assert!(db.links.is_empty());
    assert!(db.clicks.is_empty());
}

#[test]
fn list_is_owner_scoped_newest_first() {
    let mut db = MemoryStore::new();
    create(&mut db, "https://a.com", Some("a1"), None, 1).unwrap();
    create(&mut db, "https://b.com", Some("b1"), None, 2).unwrap();
    create(&mut db, "https://c.com", Some("a2"), None, 1).unwrap();
    let links = drive(&mut db, ListFlow::start(1), ListFlow::resume).unwrap();
    let codes: Vec<&str> = links.iter().map(|l| l.short_code.as_str()).collect();
    assert_eq!(codes, vec!["a2", "a1"]);
}

#[test]
fn stats_need_ownership() {
    let mut db = MemoryStore::new();
    let link = create(&mut db, "https://a.com", Some("st"), None, 1).unwrap();
    for tag in [Some("tw"), Some("tw"), None, Some(""), Some("fb")] {
        redirect(&mut db, "st", None, tag).unwrap();
    }
    let daily: Vec<ClickStats> = drive(&mut db, ClicksFlow::start(link.id, 1), ClicksFlow::resume).unwrap();
    assert_eq!(daily.len(), 1);
    assert_eq!(daily[0].date, "2024-05-01");
    assert_eq!(daily[0].clicks, 5);
    let top: Vec<SourceStats> = drive(&mut db, SourcesFlow::start(link.id, 1), SourcesFlow::resume).unwrap();
    let got: Vec<(String, i64)> = top.into_iter().map(|s| (s.source, s.count)).collect();
    assert_eq!(got, vec![("tw".to_string(), 2), ("fb".to_string(), 1)]);
    assert!(matches!(
        drive(&mut db, ClicksFlow::start(link.id, 9), ClicksFlow::resume),
        Err(AppError::NotFound)
    ));
    assert!(matches!(
        drive(&mut db, SourcesFlow::start(link.id + 100, 1), SourcesFlow::resume),
        Err(AppError::NotFound)
    ));
}

#[test]
fn store_failure_is_a_database_error() {
    let (flow, _) = RedirectFlow::start("x".to_string(), "ua".to_string(), None);
    let (_, step) = flow.resume(Reply::Failed(StoreError::ConnectionFailed));
    match step {
        Step::Finish(Err(f)) => assert!(matches!(f.into_app_error(), AppError::Database(StoreError::ConnectionFailed))),
        _ => panic!("expected a failure"),
    }
    let (flow, _) = DeleteFlow::start(1, 1);
    let (_, step) = flow.resume(Reply::Executed);
    assert!(matches!(step, Step::Finish(Err(Failure::UnexpectedReply))));
}

fn user_row(id: i32, email: &str) -> Reply {
    Reply::UserRow(Some(User { id, email: email.to_string(), password_hash: "h".to_string() }))
}

#[test]
fn first_user_registers_with_setup_token() {
    let (f, step) = RegisterFlow::start(Some("tok".to_string()), Some("tok".to_string()), "a@b.c".to_string());
    assert!(matches!(step, Step::Run(Statement::CountUsers)));
    let (f, step) = f.resume(Reply::Count(0));
    match &step {
        Step::Run(Statement::FindUserByEmail { email }) => assert_eq!(email, "a@b.c"),
        _ => panic!("expected an email lookup"),
    }
    let (_, step) = f.resume(Reply::UserRow(None));
    assert!(matches!(step, Step::Finish(Ok(()))));
    let (f, step) = AddUserFlow::start("a@b.c".to_string(), "hash".to_string());
    match &step {
        Step::Run(Statement::InsertUser { email, password_hash }) => {
            assert_eq!(email, "a@b.c");
            assert_eq!(password_hash, "hash");
        }
        _ => panic!("expected an insert"),
    }
    let (f, step) = f.resume(user_row(1, "a@b.c"));
    assert!(matches!(step, Step::Commit));
    let (_, step) = f.resume(Reply::Committed);
    match step {
        Step::Finish(Ok(u)) => assert_eq!(u.id, 1),
        _ => panic!("expected the new user"),
    }
    let (f, _) = AddUserFlow::start("a@b.c".to_string(), "hash".to_string());
    let (_, step) = f.resume(Reply::Failed(StoreError::UniqueViolation { constraint: "users_email_key".to_string() }));
    assert!(matches!(step, Step::Finish(Err(Failure::EmailTaken))));
}

#[test]
fn registration_closed_or_bad_token() {
    let start = |issued: Option<&str>, given: Option<&str>| {
        RegisterFlow::start(issued.map(|s| s.to_string()), given.map(|s| s.to_string()), "a@b.c".to_string())
    };
    let (f, _) = start(Some("tok"), Some("tok"));
    let (_, step) = f.resume(Reply::Count(1));
    match step {
        Step::Finish(Err(e)) => {
            assert!(matches!(e, Failure::RegistrationClosed));
            assert!(matches!(e.into_app_error(), AppError::Auth(m) if m == "Registration is closed"));
        }
        _ => panic!("expected a refusal"),
    }
    for (issued, given) in [(Some("tok"), Some("other")), (Some("tok"), None), (None, Some("tok")), (None, None)] {
        let (f, _) = start(issued, given);
        let (_, step) = f.resume(Reply::Count(0));
        match step {
            Step::Finish(Err(e)) => {
                assert!(matches!(e, Failure::BadSetupToken));
                assert!(matches!(e.into_app_error(), AppError::Auth(m) if m == "Invalid admin setup token"));
            }
            _ => panic!("expected a refusal"),
        }
    }
    let (f, _) = start(Some("tok"), Some("tok"));
    let (f, _) = f.resume(Reply::Count(0));
    let (_, step) = f.resume(user_row(3, "a@b.c"));
    match step {
        Step::Finish(Err(e)) => {
            assert!(matches!(e.into_app_error(), AppError::Auth(m) if m == "Email already registered"))
        }
        _ => panic!("expected a refusal"),
    }
}

#[test]
fn login_unknown_email_is_invalid_credentials() {
    let (f, step) = LoginFlow::start("x@y.z".to_string());
    assert!(matches!(step, Step::Run(Statement::FindUserByEmail { .. })));
    let (_, step) = f.resume(Reply::UserRow(None));
    match step {
        Step::Finish(Err(e)) => {
            assert!(matches!(e.into_app_error(), AppError::Auth(m) if m == "Invalid credentials"))
        }
        _ => panic!("expected a refusal"),
    }
    let (f, _) = LoginFlow::start("x@y.z".to_string());
    let (_, step) = f.resume(user_row(5, "x@y.z"));
    assert!(matches!(step, Step::Finish(Ok(User { id: 5, .. }))));
}
