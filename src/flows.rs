use vstd::prelude::*;

use crate::analytics::{
    daily_clicks, daily_clicks_of, tags, top_sources, top_sources_of, views, ClickStats,
    SourceStats,
};
use crate::codes::{
    acceptable_code, check_custom_code, generate_short_code, is_reserved, valid_code_format,
    valid_url, CodeRejection, SHORT_CODE_LEN,
};
use crate::error::AppError;
use crate::models::{CreateLink, Link, User};
use crate::store::{Reply, Statement, StoreError};

verus! {

/// Why an operation ended without its result.
#[derive(Debug)]
pub enum Failure {
    EmptyUrl,
    BadScheme,
    InvalidCode(CodeRejection),
    CodeTaken,
    NotFound,
    RegistrationClosed,
    BadSetupToken,
    EmailTaken,
    InvalidCredentials,
    Store(StoreError),
    UnexpectedReply,
}

/// The message that a failure carries to the caller, for the failures that
/// carry one.
pub open spec fn message_of(f: Failure) -> Seq<char> {
    match f {
        Failure::EmptyUrl => "URL cannot be empty"@,
        Failure::BadScheme => "URL must start with http:// or https://"@,
        Failure::InvalidCode(CodeRejection::BadFormat) => "Custom code must be 1-32 characters long and contain only letters, numbers, underscores, and hyphens"@,
        Failure::InvalidCode(CodeRejection::Reserved) => "This code is reserved and cannot be used"@,
        Failure::CodeTaken => "Custom code already taken"@,
        Failure::RegistrationClosed => "Registration is closed"@,
        Failure::BadSetupToken => "Invalid admin setup token"@,
        Failure::EmailTaken => "Email already registered"@,
        Failure::InvalidCredentials => "Invalid credentials"@,
        _ => seq![],
    }
}

impl Failure {
    /// The error under which the failure is reported, with its message.
    pub fn into_app_error(self) -> (r: AppError)
        ensures
            (self is EmptyUrl || self is BadScheme || self is InvalidCode || self is CodeTaken)
                <==> r is InvalidInput,
            self is NotFound <==> r is NotFound,
            (self is RegistrationClosed || self is BadSetupToken || self is EmailTaken
                || self is InvalidCredentials) <==> r is Auth,
            r matches AppError::InvalidInput(m) ==> m@ == message_of(self),
            r matches AppError::Auth(m) ==> m@ == message_of(self),
            self matches Failure::Store(e) ==> r == AppError::Database(e),
            self is UnexpectedReply ==> r is Database,
    {
        match self {
            Failure::EmptyUrl => AppError::InvalidInput("URL cannot be empty".to_string()),
            Failure::BadScheme => AppError::InvalidInput(
                "URL must start with http:// or https://".to_string(),
            ),
            Failure::InvalidCode(CodeRejection::BadFormat) => AppError::InvalidInput(
                "Custom code must be 1-32 characters long and contain only letters, numbers, underscores, and hyphens".to_string(),
            ),
            Failure::InvalidCode(CodeRejection::Reserved) => AppError::InvalidInput(
                "This code is reserved and cannot be used".to_string(),
            ),
            Failure::CodeTaken => AppError::InvalidInput("Custom code already taken".to_string()),
            Failure::NotFound => AppError::NotFound,
            Failure::RegistrationClosed => AppError::Auth("Registration is closed".to_string()),
            Failure::BadSetupToken => AppError::Auth("Invalid admin setup token".to_string()),
            Failure::EmailTaken => AppError::Auth("Email already registered".to_string()),
            Failure::InvalidCredentials => AppError::Auth("Invalid credentials".to_string()),
            Failure::Store(e) => AppError::Database(e),
            Failure::UnexpectedReply => AppError::Database(
                StoreError::Other("unexpected reply from the store".to_string()),
            ),
        }
    }
}

/// What the caller does next for a running operation: issue a statement
/// inside the operation's transaction and hand back the reply, commit the
/// transaction and hand back the reply, or stop with the result. A failed
/// result rolls back whatever the transaction holds.
#[derive(Debug)]
pub enum Step<T> {
    Run(Statement),
    Commit,
    Finish(Result<T, Failure>),
}

/// The state of a link creation between two statements.
#[derive(Debug)]
pub enum CreateFlow {
    CheckingCode { url: String, code: String, user_id: i32, source: Option<String> },
    /// `custom`: the code was asked for, rather than generated.
    Inserting { source: Option<String>, custom: bool },
    RecordingSource { link: Link },
    Committing { link: Link },
    Finished,
}

/// The first state and step of a link creation; `generated` is the code
/// used when the request names none.
pub open spec fn create_begin(req: CreateLink, user_id: i32, generated: String) -> (CreateFlow, Step<Link>) {
    if req.url@.len() == 0 {
        (CreateFlow::Finished, Step::Finish(Err(Failure::EmptyUrl)))
    } else if !valid_url(req.url@) {
        (CreateFlow::Finished, Step::Finish(Err(Failure::BadScheme)))
    } else {
        match req.custom_code {
            Some(c) => if !valid_code_format(c@) {
                (CreateFlow::Finished, Step::Finish(Err(Failure::InvalidCode(CodeRejection::BadFormat))))
            } else if is_reserved(c@) {
                (CreateFlow::Finished, Step::Finish(Err(Failure::InvalidCode(CodeRejection::Reserved))))
            } else {
                (
                    CreateFlow::CheckingCode { url: req.url, code: c, user_id, source: req.source },
                    Step::Run(Statement::FindLinkByCode { short_code: c }),
                )
            },
            None => (
                CreateFlow::Inserting { source: req.source, custom: false },
                Step::Run(Statement::InsertLink { original_url: req.url, short_code: generated, user_id }),
            ),
        }
    }
}

/// The state and step of a link creation after `reply`.
pub open spec fn create_next(flow: CreateFlow, reply: Reply) -> (CreateFlow, Step<Link>) {
    match (flow, reply) {
        (CreateFlow::CheckingCode { url, code, user_id, source }, Reply::Row(found)) => match found {
            Some(_) => (CreateFlow::Finished, Step::Finish(Err(Failure::CodeTaken))),
            None => (
                CreateFlow::Inserting { source, custom: true },
                Step::Run(Statement::InsertLink { original_url: url, short_code: code, user_id }),
            ),
        },
        (CreateFlow::Inserting { source, .. }, Reply::Row(Some(link))) => match source {
            Some(s) => (
                CreateFlow::RecordingSource { link },
                Step::Run(Statement::InsertClick { link_id: link.id, source: Some(s), query_source: None }),
            ),
            None => (CreateFlow::Committing { link }, Step::Commit),
        },
        (CreateFlow::Inserting { custom: true, .. }, Reply::Failed(StoreError::UniqueViolation { .. })) => (
            CreateFlow::Finished,
            Step::Finish(Err(Failure::CodeTaken)),
        ),
        (CreateFlow::RecordingSource { link }, Reply::Executed) => (CreateFlow::Committing { link }, Step::Commit),
        (CreateFlow::Committing { link }, Reply::Committed) => (CreateFlow::Finished, Step::Finish(Ok(link))),
        (_, Reply::Failed(e)) => (CreateFlow::Finished, Step::Finish(Err(Failure::Store(e)))),
        _ => (CreateFlow::Finished, Step::Finish(Err(Failure::UnexpectedReply))),
    }
}

impl CreateFlow {
    /// Starts creating a link for `user_id`: validates the URL and the
    /// requested code, then checks whether that code is taken, or inserts
    /// under `generated` when no code was requested.
    pub fn start_with_code(req: CreateLink, user_id: i32, generated: String) -> (r: (CreateFlow, Step<Link>))
        ensures
            r == create_begin(req, user_id, generated),
    {
        if req.url.as_str().unicode_len() == 0 {
            return (CreateFlow::Finished, Step::Finish(Err(Failure::EmptyUrl)));
        }
        if crate::codes::validate_url(&req.url).is_err() {
            return (CreateFlow::Finished, Step::Finish(Err(Failure::BadScheme)));
        }
        match req.custom_code {
            Some(c) => match check_custom_code(c.as_str()) {
                Err(why) => (CreateFlow::Finished, Step::Finish(Err(Failure::InvalidCode(why)))),
                Ok(()) => {
                    let probe = c.clone();
                    (
                        CreateFlow::CheckingCode { url: req.url, code: c, user_id, source: req.source },
                        Step::Run(Statement::FindLinkByCode { short_code: probe }),
                    )
                },
            },
            None => (
                CreateFlow::Inserting { source: req.source, custom: false },
                Step::Run(Statement::InsertLink { original_url: req.url, short_code: generated, user_id }),
            ),
        }
    }

    /// Starts creating a link for `user_id`, with a freshly generated code
    /// for a request that names none.
    pub fn start(req: CreateLink, user_id: i32) -> (r: (CreateFlow, Step<Link>))
        ensures
            exists|generated: String| #[trigger] create_begin(req, user_id, generated) == r
                && (req.custom_code is None ==> acceptable_code(generated@) && generated@.len() == SHORT_CODE_LEN),
    {
        let generated = if req.custom_code.is_none() {
            generate_short_code()
        } else {
            String::new()
        };
        let ghost g = generated;
        let r = Self::start_with_code(req, user_id, generated);
        assert(create_begin(req, user_id, g) == r);
        r
    }

    /// Moves the creation on by the store's reply to the last step. A
    /// requested code that the insert finds taken is reported as taken; a
    /// generated one that collides is reported as the store's conflict.
    pub fn resume(self, reply: Reply) -> (r: (CreateFlow, Step<Link>))
        ensures
            r == create_next(self, reply),
    {
        match (self, reply) {
            (CreateFlow::CheckingCode { url, code, user_id, source }, Reply::Row(found)) => match found {
                Some(_) => (CreateFlow::Finished, Step::Finish(Err(Failure::CodeTaken))),
                None => (
                    CreateFlow::Inserting { source, custom: true },
                    Step::Run(Statement::InsertLink { original_url: url, short_code: code, user_id }),
                ),
            },
            (CreateFlow::Inserting { source, .. }, Reply::Row(Some(link))) => match source {
                Some(s) => {
                    let link_id = link.id;
                    (
                        CreateFlow::RecordingSource { link },
                        Step::Run(Statement::InsertClick { link_id, source: Some(s), query_source: None }),
                    )
                },
                None => (CreateFlow::Committing { link }, Step::Commit),
            },
            (CreateFlow::Inserting { custom: true, .. }, Reply::Failed(StoreError::UniqueViolation { .. })) => (
                CreateFlow::Finished,
                Step::Finish(Err(Failure::CodeTaken)),
            ),
            (CreateFlow::RecordingSource { link }, Reply::Executed) => (CreateFlow::Committing { link }, Step::Commit),
            (CreateFlow::Committing { link }, Reply::Committed) => (CreateFlow::Finished, Step::Finish(Ok(link))),
            (_, Reply::Failed(e)) => (CreateFlow::Finished, Step::Finish(Err(Failure::Store(e)))),
            _ => (CreateFlow::Finished, Step::Finish(Err(Failure::UnexpectedReply))),
        }
    }
}

/// The source recorded for a redirect: the caller's user agent, or
/// `unknown` when it sent none.
pub fn click_source(user_agent: Option<String>) -> (r: String)
    ensures
        user_agent matches Some(ua) ==> r == ua,
        user_agent is None ==> r@ == seq!['u', 'n', 'k', 'n', 'o', 'w', 'n'],
{
    match user_agent {
        Some(ua) => ua,
        None => {
            let r = "unknown".to_string();
            proof {
                reveal_strlit("unknown");
            }
            r
        },
    }
}

/// The state of a redirect between two statements.
#[derive(Debug)]
pub enum RedirectFlow {
    Incrementing { source: String, query_source: Option<String> },
    Recording { url: String },
    Committing { url: String },
    Finished,
}

/// The first state and step of a redirect from `short_code`.
pub open spec fn redirect_begin(short_code: String, source: String, query_source: Option<String>) -> (RedirectFlow, Step<String>) {
    (
        RedirectFlow::Incrementing { source, query_source },
        Step::Run(Statement::IncrementClicks { short_code }),
    )
}

/// The state and step of a redirect after `reply`.
pub open spec fn redirect_next(flow: RedirectFlow, reply: Reply) -> (RedirectFlow, Step<String>) {
    match (flow, reply) {
        (RedirectFlow::Incrementing { source, query_source }, Reply::Row(found)) => match found {
            None => (RedirectFlow::Finished, Step::Finish(Err(Failure::NotFound))),
            Some(link) => (
                RedirectFlow::Recording { url: link.original_url },
                Step::Run(Statement::InsertClick { link_id: link.id, source: Some(source), query_source }),
            ),
        },
        (RedirectFlow::Recording { url }, Reply::Executed) => (RedirectFlow::Committing { url }, Step::Commit),
        (RedirectFlow::Committing { url }, Reply::Committed) => (RedirectFlow::Finished, Step::Finish(Ok(url))),
        (_, Reply::Failed(e)) => (RedirectFlow::Finished, Step::Finish(Err(Failure::Store(e)))),
        _ => (RedirectFlow::Finished, Step::Finish(Err(Failure::UnexpectedReply))),
    }
}

impl RedirectFlow {
    /// Starts a redirect from `short_code`: one statement adds the click to
    /// the link's count and returns the link; `source` and `query_source`
    /// are recorded with the click.
    pub fn start(short_code: String, source: String, query_source: Option<String>) -> (r: (RedirectFlow, Step<String>))
        ensures
            r == redirect_begin(short_code, source, query_source),
    {
        (
            RedirectFlow::Incrementing { source, query_source },
            Step::Run(Statement::IncrementClicks { short_code }),
        )
    }

    /// Moves the redirect on by the store's reply; it ends with the URL to
    /// redirect to.
    pub fn resume(self, reply: Reply) -> (r: (RedirectFlow, Step<String>))
        ensures
            r == redirect_next(self, reply),
    {
        match (self, reply) {
            (RedirectFlow::Incrementing { source, query_source }, Reply::Row(found)) => match found {
                None => (RedirectFlow::Finished, Step::Finish(Err(Failure::NotFound))),
                Some(link) => {
                    let link_id = link.id;
                    (
                        RedirectFlow::Recording { url: link.original_url },
                        Step::Run(Statement::InsertClick { link_id, source: Some(source), query_source }),
                    )
                },
            },
            (RedirectFlow::Recording { url }, Reply::Executed) => (RedirectFlow::Committing { url }, Step::Commit),
            (RedirectFlow::Committing { url }, Reply::Committed) => (RedirectFlow::Finished, Step::Finish(Ok(url))),
            (_, Reply::Failed(e)) => (RedirectFlow::Finished, Step::Finish(Err(Failure::Store(e)))),
            _ => (RedirectFlow::Finished, Step::Finish(Err(Failure::UnexpectedReply))),
        }
    }
}

/// The state of a link deletion between two statements.
#[derive(Debug)]
pub enum DeleteFlow {
    Checking { link_id: i32 },
    DroppingClicks { link_id: i32 },
    DroppingLink,
    Committing,
    Finished,
}

/// The first state and step of deleting `link_id` as `user_id`.
pub open spec fn delete_begin(link_id: i32, user_id: i32) -> (DeleteFlow, Step<()>) {
    (DeleteFlow::Checking { link_id }, Step::Run(Statement::FindOwnedLink { link_id, user_id }))
}

/// The state and step of a deletion after `reply`.
pub open spec fn delete_next(flow: DeleteFlow, reply: Reply) -> (DeleteFlow, Step<()>) {
    match (flow, reply) {
        (DeleteFlow::Checking { link_id }, Reply::Found(owned)) => if owned {
            (DeleteFlow::DroppingClicks { link_id }, Step::Run(Statement::DeleteClicksOf { link_id }))
        } else {
            (DeleteFlow::Finished, Step::Finish(Err(Failure::NotFound)))
        },
        (DeleteFlow::DroppingClicks { link_id }, Reply::Executed) => (
            DeleteFlow::DroppingLink,
            Step::Run(Statement::DeleteLink { link_id }),
        ),
        (DeleteFlow::DroppingLink, Reply::Executed) => (DeleteFlow::Committing, Step::Commit),
        (DeleteFlow::Committing, Reply::Committed) => (DeleteFlow::Finished, Step::Finish(Ok(()))),
        (_, Reply::Failed(e)) => (DeleteFlow::Finished, Step::Finish(Err(Failure::Store(e)))),
        _ => (DeleteFlow::Finished, Step::Finish(Err(Failure::UnexpectedReply))),
    }
}

impl DeleteFlow {
    /// Starts deleting `link_id` on behalf of `user_id`: a link that does not
    /// exist and one that belongs to someone else are both not found.
    pub fn start(link_id: i32, user_id: i32) -> (r: (DeleteFlow, Step<()>))
        ensures
            r == delete_begin(link_id, user_id),
    {
        (DeleteFlow::Checking { link_id }, Step::Run(Statement::FindOwnedLink { link_id, user_id }))
    }

    /// Moves the deletion on by the store's reply: the link's clicks go
    /// first, then the link.
    pub fn resume(self, reply: Reply) -> (r: (DeleteFlow, Step<()>))
        ensures
            r == delete_next(self, reply),
    {
        match (self, reply) {
            (DeleteFlow::Checking { link_id }, Reply::Found(owned)) => if owned {
                (DeleteFlow::DroppingClicks { link_id }, Step::Run(Statement::DeleteClicksOf { link_id }))
            } else {
                (DeleteFlow::Finished, Step::Finish(Err(Failure::NotFound)))
            },
            (DeleteFlow::DroppingClicks { link_id }, Reply::Executed) => (
                DeleteFlow::DroppingLink,
                Step::Run(Statement::DeleteLink { link_id }),
            ),
            (DeleteFlow::DroppingLink, Reply::Executed) => (DeleteFlow::Committing, Step::Commit),
            (DeleteFlow::Committing, Reply::Committed) => (DeleteFlow::Finished, Step::Finish(Ok(()))),
            (_, Reply::Failed(e)) => (DeleteFlow::Finished, Step::Finish(Err(Failure::Store(e)))),
            _ => (DeleteFlow::Finished, Step::Finish(Err(Failure::UnexpectedReply))),
        }
    }
}

/// The state of a daily-clicks query between two statements.
#[derive(Debug)]
pub enum ClicksFlow {
    Checking { link_id: i32 },
    Reading,
    Finished,
}

impl ClicksFlow {
    /// Starts reading the daily clicks of `link_id` on behalf of `user_id`:
    /// a link that does not exist and one that belongs to someone else are
    /// both not found.
    pub fn start(link_id: i32, user_id: i32) -> (r: (ClicksFlow, Step<Vec<ClickStats>>))
        ensures
            r == (ClicksFlow::Checking { link_id }, Step::<Vec<ClickStats>>::Run(Statement::FindOwnedLink { link_id, user_id })),
    {
        (ClicksFlow::Checking { link_id }, Step::Run(Statement::FindOwnedLink { link_id, user_id }))
    }

    /// Moves the query on by the store's reply; it ends with the clicks per
    /// date of the link's click rows.
    pub fn resume(self, reply: Reply) -> (r: (ClicksFlow, Step<Vec<ClickStats>>))
        ensures
            match (self, reply) {
                (ClicksFlow::Checking { link_id }, Reply::Found(owned)) => if owned {
                    r == (ClicksFlow::Reading, Step::<Vec<ClickStats>>::Run(Statement::ClickDates { link_id }))
                } else {
                    r == (ClicksFlow::Finished, Step::<Vec<ClickStats>>::Finish(Err(Failure::NotFound)))
                },
                (ClicksFlow::Reading, Reply::Dates(dates)) => r.0 is Finished && if dates.len() <= i64::MAX {
                    r.1 matches Step::Finish(Ok(stats)) && daily_clicks_of(views(dates@), stats@)
                } else {
                    r.1 == Step::<Vec<ClickStats>>::Finish(Err(Failure::UnexpectedReply))
                },
                (_, Reply::Failed(e)) => r == (ClicksFlow::Finished, Step::<Vec<ClickStats>>::Finish(Err(Failure::Store(e)))),
                _ => r == (ClicksFlow::Finished, Step::<Vec<ClickStats>>::Finish(Err(Failure::UnexpectedReply))),
            },
    {
        match (self, reply) {
            (ClicksFlow::Checking { link_id }, Reply::Found(owned)) => if owned {
                (ClicksFlow::Reading, Step::Run(Statement::ClickDates { link_id }))
            } else {
                (ClicksFlow::Finished, Step::Finish(Err(Failure::NotFound)))
            },
            (ClicksFlow::Reading, Reply::Dates(dates)) => if dates.len() as u128 <= i64::MAX as u128 {
                (ClicksFlow::Finished, Step::Finish(Ok(daily_clicks(&dates))))
            } else {
                (ClicksFlow::Finished, Step::Finish(Err(Failure::UnexpectedReply)))
            },
            (_, Reply::Failed(e)) => (ClicksFlow::Finished, Step::Finish(Err(Failure::Store(e)))),
            _ => (ClicksFlow::Finished, Step::Finish(Err(Failure::UnexpectedReply))),
        }
    }
}

/// The state of a top-sources query between two statements.
#[derive(Debug)]
pub enum SourcesFlow {
    Checking { link_id: i32 },
    Reading,
    Finished,
}

impl SourcesFlow {
    /// Starts reading the top referral tags of `link_id` on behalf of
    /// `user_id`: a link that does not exist and one that belongs to someone
    /// else are both not found.
    pub fn start(link_id: i32, user_id: i32) -> (r: (SourcesFlow, Step<Vec<SourceStats>>))
        ensures
            r == (SourcesFlow::Checking { link_id }, Step::<Vec<SourceStats>>::Run(Statement::FindOwnedLink { link_id, user_id })),
    {
        (SourcesFlow::Checking { link_id }, Step::Run(Statement::FindOwnedLink { link_id, user_id }))
    }

    /// Moves the query on by the store's reply; it ends with the most
    /// frequent tags of the link's click rows.
    pub fn resume(self, reply: Reply) -> (r: (SourcesFlow, Step<Vec<SourceStats>>))
        ensures
            match (self, reply) {
                (SourcesFlow::Checking { link_id }, Reply::Found(owned)) => if owned {
                    r == (SourcesFlow::Reading, Step::<Vec<SourceStats>>::Run(Statement::ClickTags { link_id }))
                } else {
                    r == (SourcesFlow::Finished, Step::<Vec<SourceStats>>::Finish(Err(Failure::NotFound)))
                },
                (SourcesFlow::Reading, Reply::Tags(rows)) => r.0 is Finished && if rows.len() <= i64::MAX {
                    r.1 matches Step::Finish(Ok(stats)) && top_sources_of(tags(rows@), stats@)
                        && forall|i: int| 0 <= i < stats.len() ==> (#[trigger] stats[i].source)@.len() > 0
                } else {
                    r.1 == Step::<Vec<SourceStats>>::Finish(Err(Failure::UnexpectedReply))
                },
                (_, Reply::Failed(e)) => r == (SourcesFlow::Finished, Step::<Vec<SourceStats>>::Finish(Err(Failure::Store(e)))),
                _ => r == (SourcesFlow::Finished, Step::<Vec<SourceStats>>::Finish(Err(Failure::UnexpectedReply))),
            },
    {
        match (self, reply) {
            (SourcesFlow::Checking { link_id }, Reply::Found(owned)) => if owned {
                (SourcesFlow::Reading, Step::Run(Statement::ClickTags { link_id }))
            } else {
                (SourcesFlow::Finished, Step::Finish(Err(Failure::NotFound)))
            },
            (SourcesFlow::Reading, Reply::Tags(rows)) => if rows.len() as u128 <= i64::MAX as u128 {
                (SourcesFlow::Finished, Step::Finish(Ok(top_sources(&rows))))
            } else {
                (SourcesFlow::Finished, Step::Finish(Err(Failure::UnexpectedReply)))
            },
            (_, Reply::Failed(e)) => (SourcesFlow::Finished, Step::Finish(Err(Failure::Store(e)))),
            _ => (SourcesFlow::Finished, Step::Finish(Err(Failure::UnexpectedReply))),
        }
    }
}

/// The state of a listing of a user's links.
#[derive(Debug)]
pub enum ListFlow {
    Reading,
    Finished,
}

impl ListFlow {
    /// Starts listing the links of `user_id`, newest first.
    pub fn start(user_id: i32) -> (r: (ListFlow, Step<Vec<Link>>))
        ensures
            r == (ListFlow::Reading, Step::<Vec<Link>>::Run(Statement::LinksOfUser { user_id })),
    {
        (ListFlow::Reading, Step::Run(Statement::LinksOfUser { user_id }))
    }

    /// Ends the listing with the rows the store returned.
    pub fn resume(self, reply: Reply) -> (r: (ListFlow, Step<Vec<Link>>))
        ensures
            match (self, reply) {
                (ListFlow::Reading, Reply::Links(links)) => r == (ListFlow::Finished, Step::<Vec<Link>>::Finish(Ok(links))),
                (_, Reply::Failed(e)) => r == (ListFlow::Finished, Step::<Vec<Link>>::Finish(Err(Failure::Store(e)))),
                _ => r == (ListFlow::Finished, Step::<Vec<Link>>::Finish(Err(Failure::UnexpectedReply))),
            },
    {
        match (self, reply) {
            (ListFlow::Reading, Reply::Links(links)) => (ListFlow::Finished, Step::Finish(Ok(links))),
            (_, Reply::Failed(e)) => (ListFlow::Finished, Step::Finish(Err(Failure::Store(e)))),
            _ => (ListFlow::Finished, Step::Finish(Err(Failure::UnexpectedReply))),
        }
    }
}

/// The state of the checks that come before a registration.
#[derive(Debug)]
pub enum RegisterFlow {
    Counting { issued: Option<String>, provided: Option<String>, email: String },
    CheckingEmail,
    Finished,
}

/// A registration may go on: no user exists yet and the setup token given
/// is the one issued at start-up.
pub open spec fn may_register(user_count: i64, issued: Option<String>, provided: Option<String>) -> bool {
    user_count <= 0 && issued is Some && provided is Some && issued->Some_0@ == provided->Some_0@
}

/// The state and step of the registration checks after `reply`.
pub open spec fn register_next(flow: RegisterFlow, reply: Reply) -> (RegisterFlow, Step<()>) {
    match (flow, reply) {
        (RegisterFlow::Counting { issued, provided, email }, Reply::Count(n)) => if n > 0 {
            (RegisterFlow::Finished, Step::Finish(Err(Failure::RegistrationClosed)))
        } else if !may_register(n, issued, provided) {
            (RegisterFlow::Finished, Step::Finish(Err(Failure::BadSetupToken)))
        } else {
            (RegisterFlow::CheckingEmail, Step::Run(Statement::FindUserByEmail { email }))
        },
        (RegisterFlow::CheckingEmail, Reply::UserRow(found)) => match found {
            Some(_) => (RegisterFlow::Finished, Step::Finish(Err(Failure::EmailTaken))),
            None => (RegisterFlow::Finished, Step::Finish(Ok(()))),
        },
        (_, Reply::Failed(e)) => (RegisterFlow::Finished, Step::Finish(Err(Failure::Store(e)))),
        _ => (RegisterFlow::Finished, Step::Finish(Err(Failure::UnexpectedReply))),
    }
}

impl RegisterFlow {
    /// Starts the checks for registering `email`: only the first user may
    /// register, with the setup token issued at start-up, under an email
    /// that no user has. The password is hashed, and the user added with
    /// `AddUserFlow`, once they pass.
    pub fn start(issued: Option<String>, provided: Option<String>, email: String) -> (r: (RegisterFlow, Step<()>))
        ensures
            r == (RegisterFlow::Counting { issued, provided, email }, Step::<()>::Run(Statement::CountUsers)),
    {
        (RegisterFlow::Counting { issued, provided, email }, Step::Run(Statement::CountUsers))
    }

    /// Moves the checks on by the store's reply; they end with `Ok` when the
    /// registration may go on.
    pub fn resume(self, reply: Reply) -> (r: (RegisterFlow, Step<()>))
        ensures
            r == register_next(self, reply),
    {
        match (self, reply) {
            (RegisterFlow::Counting { issued, provided, email }, Reply::Count(n)) => {
                if n > 0 {
                    return (RegisterFlow::Finished, Step::Finish(Err(Failure::RegistrationClosed)));
                }
                let same = match (&issued, &provided) {
                    (Some(a), Some(b)) => *a == *b,
                    _ => false,
                };
                if !same {
                    (RegisterFlow::Finished, Step::Finish(Err(Failure::BadSetupToken)))
                } else {
                    (RegisterFlow::CheckingEmail, Step::Run(Statement::FindUserByEmail { email }))
                }
            },
            (RegisterFlow::CheckingEmail, Reply::UserRow(found)) => match found {
                Some(_) => (RegisterFlow::Finished, Step::Finish(Err(Failure::EmailTaken))),
                None => (RegisterFlow::Finished, Step::Finish(Ok(()))),
            },
            (_, Reply::Failed(e)) => (RegisterFlow::Finished, Step::Finish(Err(Failure::Store(e)))),
            _ => (RegisterFlow::Finished, Step::Finish(Err(Failure::UnexpectedReply))),
        }
    }
}

/// The state of adding a registered user.
#[derive(Debug)]
pub enum AddUserFlow {
    Inserting,
    Committing { user: User },
    Finished,
}

impl AddUserFlow {
    /// Starts adding the user `email` with an already hashed password.
    pub fn start(email: String, password_hash: String) -> (r: (AddUserFlow, Step<User>))
        ensures
            r == (AddUserFlow::Inserting, Step::<User>::Run(Statement::InsertUser { email, password_hash })),
    {
        (AddUserFlow::Inserting, Step::Run(Statement::InsertUser { email, password_hash }))
    }

    /// Moves the insertion on by the store's reply; it ends with the new
    /// user, or as a taken email when another registration got there first.
    pub fn resume(self, reply: Reply) -> (r: (AddUserFlow, Step<User>))
        ensures
            match (self, reply) {
                (AddUserFlow::Inserting, Reply::UserRow(Some(user))) => r == (AddUserFlow::Committing { user }, Step::<User>::Commit),
                (AddUserFlow::Inserting, Reply::Failed(StoreError::UniqueViolation { .. })) => r == (
                    AddUserFlow::Finished,
                    Step::<User>::Finish(Err(Failure::EmailTaken)),
                ),
                (AddUserFlow::Committing { user }, Reply::Committed) => r == (AddUserFlow::Finished, Step::<User>::Finish(Ok(user))),
                (_, Reply::Failed(e)) => r == (AddUserFlow::Finished, Step::<User>::Finish(Err(Failure::Store(e)))),
                _ => r == (AddUserFlow::Finished, Step::<User>::Finish(Err(Failure::UnexpectedReply))),
            },
    {
        match (self, reply) {
            (AddUserFlow::Inserting, Reply::UserRow(Some(user))) => (AddUserFlow::Committing { user }, Step::Commit),
            (AddUserFlow::Inserting, Reply::Failed(StoreError::UniqueViolation { .. })) => (
                AddUserFlow::Finished,
                Step::Finish(Err(Failure::EmailTaken)),
            ),
            (AddUserFlow::Committing { user }, Reply::Committed) => (AddUserFlow::Finished, Step::Finish(Ok(user))),
            (_, Reply::Failed(e)) => (AddUserFlow::Finished, Step::Finish(Err(Failure::Store(e)))),
            _ => (AddUserFlow::Finished, Step::Finish(Err(Failure::UnexpectedReply))),
        }
    }
}

/// The state of a login lookup.
#[derive(Debug)]
pub enum LoginFlow {
    Looking,
    Finished,
}

impl LoginFlow {
    /// Starts looking up the account of `email`.
    pub fn start(email: String) -> (r: (LoginFlow, Step<User>))
        ensures
            r == (LoginFlow::Looking, Step::<User>::Run(Statement::FindUserByEmail { email })),
    {
        (LoginFlow::Looking, Step::Run(Statement::FindUserByEmail { email }))
    }

    /// Ends the lookup: an unknown email is reported as invalid credentials,
    /// as a wrong password is.
    pub fn resume(self, reply: Reply) -> (r: (LoginFlow, Step<User>))
        ensures
            match (self, reply) {
                (LoginFlow::Looking, Reply::UserRow(Some(user))) => r == (LoginFlow::Finished, Step::<User>::Finish(Ok(user))),
                (LoginFlow::Looking, Reply::UserRow(None)) => r == (LoginFlow::Finished, Step::<User>::Finish(Err(Failure::InvalidCredentials))),
                (_, Reply::Failed(e)) => r == (LoginFlow::Finished, Step::<User>::Finish(Err(Failure::Store(e)))),
                _ => r == (LoginFlow::Finished, Step::<User>::Finish(Err(Failure::UnexpectedReply))),
            },
    {
        match (self, reply) {
            (LoginFlow::Looking, Reply::UserRow(Some(user))) => (LoginFlow::Finished, Step::Finish(Ok(user))),
            (LoginFlow::Looking, Reply::UserRow(None)) => (LoginFlow::Finished, Step::Finish(Err(Failure::InvalidCredentials))),
            (_, Reply::Failed(e)) => (LoginFlow::Finished, Step::Finish(Err(Failure::Store(e)))),
            _ => (LoginFlow::Finished, Step::Finish(Err(Failure::UnexpectedReply))),
        }
    }
}

} // verus!
