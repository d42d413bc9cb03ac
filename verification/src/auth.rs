//! The authorization state of one application: its role cache, the facade
//! that unites roles into effective permissions, and the decisions of the
//! task that keeps the cache in step with the document store.
//!
//! The task itself runs outside this crate. It tells the state what the
//! store answered, as an `Event`, and is told what to ask the store next,
//! as an `Action`.

use vstd::prelude::*;
use mongodb::bson::oid::ObjectId;
use crate::app::App;
use crate::cache::Roles;
use crate::config::{converts_to, AuthBuilder, MongoDB};
use crate::error::{AuthError, ErrorView};
use crate::laws::{grants, lemma_add_carries_source};
use crate::model::{add_forest, find_item, find_value, ItemView};
use crate::role::{Role, RoleItems};

verus! {

/// How far one refresh of the cache has come.
pub enum Refresh {
    /// The application has been asked for by name.
    AwaitingApp,
    /// The roles of the application with this identity have been asked for.
    AwaitingCursor(ObjectId),
    /// The roles are being read; these have arrived.
    Reading(Roles),
}

/// The mathematical value of a `Refresh`.
pub enum RefreshView {
    AwaitingApp,
    AwaitingCursor(ObjectId),
    Reading(Map<Seq<char>, Role>),
}

impl View for Refresh {
    type V = RefreshView;

    open spec fn view(&self) -> RefreshView {
        match self {
            Refresh::AwaitingApp => RefreshView::AwaitingApp,
            Refresh::AwaitingCursor(id) => RefreshView::AwaitingCursor(*id),
            Refresh::Reading(fresh) => RefreshView::Reading(fresh@),
        }
    }
}

/// Where the synchronization task stands.
pub enum Sync {
    /// Not started.
    Idle,
    /// The first refresh is under way; its failure ends the task.
    Starting(Refresh),
    /// The subscription to changes of the roles has been asked for.
    Subscribing,
    /// Subscribed; the next change is awaited.
    Watching,
    /// A refresh that a change set off is under way.
    Refreshing(Refresh),
    /// Ended.
    Stopped,
}

/// The mathematical value of a `Sync`.
pub enum SyncView {
    Idle,
    Starting(RefreshView),
    Subscribing,
    Watching,
    Refreshing(RefreshView),
    Stopped,
}

impl View for Sync {
    type V = SyncView;

    open spec fn view(&self) -> SyncView {
        match self {
            Sync::Idle => SyncView::Idle,
            Sync::Starting(refresh) => SyncView::Starting(refresh@),
            Sync::Subscribing => SyncView::Subscribing,
            Sync::Watching => SyncView::Watching,
            Sync::Refreshing(refresh) => SyncView::Refreshing(refresh@),
            Sync::Stopped => SyncView::Stopped,
        }
    }
}

/// What the document store answered.
#[derive(Debug)]
pub enum Event {
    /// The lookup of the application by name returned: the application, or
    /// that there is none.
    App(Option<App>),
    /// The query for the roles of the application returned a cursor.
    Cursor,
    /// The cursor returned: the next role, or that there is no further one.
    Role(Option<Role>),
    /// The subscription to changes stands.
    Subscribed,
    /// The roles have changed.
    Change,
    /// The stream of changes has ended.
    Closed,
    /// What was asked of the store last has failed.
    Failed(mongodb::error::Error),
}

/// What to ask of the document store next.
#[derive(Debug)]
pub enum Action {
    /// Look up the application of this name.
    FindApp(String),
    /// Query the roles of the application of this identity.
    FindRoles(ObjectId),
    /// Read the next role from the cursor.
    NextRole,
    /// Subscribe to changes of the roles.
    Subscribe,
    /// Await the next change.
    NextChange,
    /// Nothing: the task has ended.
    Stop,
}

/// The mathematical value of an `Action`.
pub enum ActionView {
    FindApp(Seq<char>),
    FindRoles(ObjectId),
    NextRole,
    Subscribe,
    NextChange,
    Stop,
}

impl View for Action {
    type V = ActionView;

    open spec fn view(&self) -> ActionView {
        match self {
            Action::FindApp(name) => ActionView::FindApp(name@),
            Action::FindRoles(id) => ActionView::FindRoles(*id),
            Action::NextRole => ActionView::NextRole,
            Action::Subscribe => ActionView::Subscribe,
            Action::NextChange => ActionView::NextChange,
            Action::Stop => ActionView::Stop,
        }
    }
}

/// The answer to an event: what to do next, and the error to surface, if
/// the event brought one. While the task is starting the error goes to
/// whoever started it; afterwards it goes to the log.
#[derive(Debug)]
pub struct Step {
    pub next: Action,
    pub error: Option<AuthError>,
}

/// The mathematical value of a `Step`.
pub struct StepView {
    pub next: ActionView,
    pub error: Option<ErrorView>,
}

impl View for Step {
    type V = StepView;

    open spec fn view(&self) -> StepView {
        StepView {
            next: self.next@,
            error: match self.error {
                Some(e) => Some(e@),
                None => None,
            },
        }
    }
}

/// The authorization state of one application.
pub struct Auth {
    roles: Roles,
    app_name: String,
    sync: Sync,
}

/// The mathematical value of an `Auth`.
pub struct AuthView {
    pub roles: Map<Seq<char>, Role>,
    pub app_name: Seq<char>,
    pub sync: SyncView,
}

impl View for Auth {
    type V = AuthView;

    closed spec fn view(&self) -> AuthView {
        AuthView { roles: self.roles@, app_name: self.app_name@, sync: self.sync@ }
    }
}

/// The outcome of one event for a refresh.
pub enum Progress {
    /// The refresh goes on in this state with this request.
    Continue(RefreshView, ActionView),
    /// The refresh is complete; this is the fresh mapping.
    Done(Map<Seq<char>, Role>),
    /// The refresh has failed.
    Failed(ErrorView),
}

/// The request that a refresh in this state is waiting on.
pub open spec fn pending_request(refresh: RefreshView, app_name: Seq<char>) -> ActionView {
    match refresh {
        RefreshView::AwaitingApp => ActionView::FindApp(app_name),
        RefreshView::AwaitingCursor(id) => ActionView::FindRoles(id),
        RefreshView::Reading(_) => ActionView::NextRole,
    }
}

/// What an event means to a refresh. The application leads to the query for
/// its roles, by its identity or, where it has none, by `fresh`. Each role
/// read enters the fresh mapping under its name, in place of an earlier
/// role of that name. The end of the cursor completes the refresh. A
/// missing application and every failure of the store end it with the
/// error of the step that failed. An event that the state does not wait
/// for changes nothing, and the pending request is made again.
pub open spec fn refresh_next(
    refresh: RefreshView,
    event: Event,
    app_name: Seq<char>,
    fresh: ObjectId,
) -> Progress {
    match (refresh, event) {
        (RefreshView::AwaitingApp, Event::App(Some(app))) => {
            let id = match app.id {
                Some(id) => id,
                None => fresh,
            };
            Progress::Continue(RefreshView::AwaitingCursor(id), ActionView::FindRoles(id))
        },
        (RefreshView::AwaitingApp, Event::App(None)) => Progress::Failed(
            ErrorView::MissingAppInDatabase,
        ),
        (RefreshView::AwaitingApp, Event::Failed(e)) => Progress::Failed(
            ErrorView::MongoFindOne(e),
        ),
        (RefreshView::AwaitingCursor(_), Event::Cursor) => Progress::Continue(
            RefreshView::Reading(Map::empty()),
            ActionView::NextRole,
        ),
        (RefreshView::AwaitingCursor(_), Event::Failed(e)) => Progress::Failed(
            ErrorView::MongoFind(e),
        ),
        (RefreshView::Reading(seen), Event::Role(Some(role))) => Progress::Continue(
            RefreshView::Reading(seen.insert(role.name@, role)),
            ActionView::NextRole,
        ),
        (RefreshView::Reading(seen), Event::Role(None)) => Progress::Done(seen),
        (RefreshView::Reading(_), Event::Failed(e)) => Progress::Failed(
            ErrorView::MongoReadCursor(e),
        ),
        _ => Progress::Continue(refresh, pending_request(refresh, app_name)),
    }
}

/// The state after an event, and the answer to it.
///
/// The first refresh either completes, which installs the fresh mapping and
/// asks for the subscription, or fails, which ends the task with the error.
/// A subscription that fails ends the task with the error. Once subscribed,
/// every change sets off a refresh; a refresh that completes installs the
/// fresh mapping, one that fails leaves the cache as it was and surfaces
/// the error, and either way the next change is awaited. A failure to read
/// the stream of changes is surfaced and the next change awaited; the end
/// of the stream ends the task. The cache changes at no other point.
pub open spec fn next(pre: AuthView, event: Event, fresh: ObjectId) -> (AuthView, StepView) {
    let stay = |sync: SyncView, action: ActionView, error: Option<ErrorView>|
        (
            AuthView { roles: pre.roles, app_name: pre.app_name, sync },
            StepView { next: action, error },
        );
    let install = |roles: Map<Seq<char>, Role>, sync: SyncView, action: ActionView|
        (
            AuthView { roles, app_name: pre.app_name, sync },
            StepView { next: action, error: None },
        );
    match pre.sync {
        SyncView::Idle => stay(SyncView::Idle, ActionView::Stop, None),
        SyncView::Starting(refresh) => match refresh_next(refresh, event, pre.app_name, fresh) {
            Progress::Continue(then, action) => stay(SyncView::Starting(then), action, None),
            Progress::Done(roles) => install(roles, SyncView::Subscribing, ActionView::Subscribe),
            Progress::Failed(e) => stay(SyncView::Stopped, ActionView::Stop, Some(e)),
        },
        SyncView::Subscribing => match event {
            Event::Subscribed => stay(SyncView::Watching, ActionView::NextChange, None),
            Event::Failed(e) => stay(
                SyncView::Stopped,
                ActionView::Stop,
                Some(ErrorView::MongoWatchChangeStream(e)),
            ),
            _ => stay(SyncView::Subscribing, ActionView::Subscribe, None),
        },
        SyncView::Watching => match event {
            Event::Change => stay(
                SyncView::Refreshing(RefreshView::AwaitingApp),
                ActionView::FindApp(pre.app_name),
                None,
            ),
            Event::Closed => stay(SyncView::Stopped, ActionView::Stop, None),
            Event::Failed(e) => stay(
                SyncView::Watching,
                ActionView::NextChange,
                Some(ErrorView::MongoWatchChangeStream(e)),
            ),
            _ => stay(SyncView::Watching, ActionView::NextChange, None),
        },
        SyncView::Refreshing(refresh) => match refresh_next(refresh, event, pre.app_name, fresh) {
            Progress::Continue(then, action) => stay(SyncView::Refreshing(then), action, None),
            Progress::Done(roles) => install(roles, SyncView::Watching, ActionView::NextChange),
            Progress::Failed(e) => stay(SyncView::Watching, ActionView::NextChange, Some(e)),
        },
        SyncView::Stopped => stay(SyncView::Stopped, ActionView::Stop, None),
    }
}

/// The mapping that the event completes: the roles read so far, where the
/// event is the end of the cursor of a refresh that is reading.
pub open spec fn completed(sync: SyncView, event: Event) -> Option<Map<Seq<char>, Role>> {
    match (sync, event) {
        (SyncView::Starting(RefreshView::Reading(seen)), Event::Role(None)) => Some(seen),
        (SyncView::Refreshing(RefreshView::Reading(seen)), Event::Role(None)) => Some(seen),
        _ => None,
    }
}

/// The cache is replaced as a whole or not at all: after an event it holds
/// the mapping that the event completes, or what it held before. An event
/// that brings an error leaves it as it was. The name of the application
/// never changes.
pub proof fn lemma_cache_old_or_fresh(pre: AuthView, event: Event, fresh: ObjectId)
    ensures
        next(pre, event, fresh).0.roles == match completed(pre.sync, event) {
            Some(roles) => roles,
            None => pre.roles,
        },
        next(pre, event, fresh).1.error is Some ==> next(pre, event, fresh).0.roles == pre.roles,
        next(pre, event, fresh).0.app_name == pre.app_name,
{
}

/// Once the first refresh is through, nothing that goes wrong in a refresh
/// ends the task: only a failed subscription and the end of the stream of
/// changes do.
pub proof fn lemma_task_survives_refresh(pre: AuthView, event: Event, fresh: ObjectId)
    requires
        pre.sync is Refreshing,
    ensures
        next(pre, event, fresh).0.sync is Refreshing || next(pre, event, fresh).0.sync
            is Watching,
        next(pre, event, fresh).1.next != ActionView::Stop,
{
}

/// The names that a list of strings spells, in order.
pub open spec fn names_view(names: Seq<String>) -> Seq<Seq<char>> {
    Seq::new(names.len(), |i: int| names[i]@)
}

/// The effective permissions of a principal with the roles `names`: from
/// the empty tree, each role that the cache knows is united into what the
/// roles before it gave, in the order of the names. A name that the cache
/// does not know adds nothing.
pub open spec fn effective(roles: Map<Seq<char>, Role>, names: Seq<Seq<char>>) -> Seq<ItemView>
    decreases names.len(),
{
    if names.len() == 0 {
        Seq::empty()
    } else {
        let before = effective(roles, names.drop_last());
        if roles.contains_key(names.last()) {
            add_forest(roles[names.last()]@.items, before)
        } else {
            before
        }
    }
}

/// The role named last decides: whatever it holds under an item and a
/// value name, the effective permissions hold under the same names, and
/// with its value, whatever the roles named before it hold there.
pub proof fn lemma_last_role_decides(
    roles: Map<Seq<char>, Role>,
    names: Seq<Seq<char>>,
    item_name: Seq<char>,
    value_name: Seq<char>,
)
    requires
        names.len() > 0,
        roles.contains_key(names.last()),
        grants(roles[names.last()]@.items, item_name, value_name),
    ensures
        find_item(effective(roles, names), item_name) is Some,
        find_value(find_item(effective(roles, names), item_name)->0.values, value_name)
            == find_value(
            find_item(roles[names.last()]@.items, item_name)->0.values,
            value_name,
        ),
{
    lemma_add_carries_source(
        roles[names.last()]@.items,
        effective(roles, names.drop_last()),
        item_name,
        value_name,
    );
}

enum Advance {
    Continue(Refresh, Action),
    Done(Roles),
    Failed(AuthError),
}

impl View for Advance {
    type V = Progress;

    closed spec fn view(&self) -> Progress {
        match self {
            Advance::Continue(then, action) => Progress::Continue(then@, action@),
            Advance::Done(roles) => Progress::Done(roles@),
            Advance::Failed(e) => Progress::Failed(e@),
        }
    }
}

fn request_again(refresh: Refresh, app_name: &String) -> (out: Advance)
    ensures
        out@ == Progress::Continue(refresh@, pending_request(refresh@, app_name@)),
{
    match refresh {
        Refresh::AwaitingApp => Advance::Continue(
            Refresh::AwaitingApp,
            Action::FindApp(app_name.clone()),
        ),
        Refresh::AwaitingCursor(id) => Advance::Continue(
            Refresh::AwaitingCursor(id),
            Action::FindRoles(id),
        ),
        Refresh::Reading(seen) => Advance::Continue(Refresh::Reading(seen), Action::NextRole),
    }
}

fn refresh_step(refresh: Refresh, event: Event, app_name: &String) -> (out: (Advance, Ghost<ObjectId>))
    ensures
        out.0@ == refresh_next(refresh@, event, app_name@, out.1@),
{
    let ghost any_id: ObjectId = arbitrary();
    match refresh {
        Refresh::AwaitingApp => match event {
            Event::App(Some(app)) => {
                let id = app.id();
                (Advance::Continue(Refresh::AwaitingCursor(id), Action::FindRoles(id)), Ghost(id))
            },
            Event::App(None) => (Advance::Failed(AuthError::MissingAppInDatabase), Ghost(any_id)),
            Event::Failed(e) => (Advance::Failed(AuthError::MongoFindOne(e)), Ghost(any_id)),
            _ => (request_again(Refresh::AwaitingApp, app_name), Ghost(any_id)),
        },
        Refresh::AwaitingCursor(id) => match event {
            Event::Cursor => (
                Advance::Continue(Refresh::Reading(Roles::default()), Action::NextRole),
                Ghost(any_id),
            ),
            Event::Failed(e) => (Advance::Failed(AuthError::MongoFind(e)), Ghost(any_id)),
            _ => (request_again(Refresh::AwaitingCursor(id), app_name), Ghost(any_id)),
        },
        Refresh::Reading(seen) => match event {
            Event::Role(Some(role)) => {
                let mut seen = seen;
                seen.insert(role);
                (Advance::Continue(Refresh::Reading(seen), Action::NextRole), Ghost(any_id))
            },
            Event::Role(None) => (Advance::Done(seen), Ghost(any_id)),
            Event::Failed(e) => (Advance::Failed(AuthError::MongoReadCursor(e)), Ghost(any_id)),
            _ => (request_again(Refresh::Reading(seen), app_name), Ghost(any_id)),
        },
    }
}

impl Auth {
    /// A builder for the application `app_name`, with the settings of a
    /// local store.
    pub fn builder<T: Into<String>>(app_name: T) -> (builder: AuthBuilder)
        ensures
            converts_to(app_name, builder@.app_name),
            builder@.mongodb.uri == "mongodb://localhost:27017"@,
            builder@.mongodb.db_name == "umt"@,
    {
        AuthBuilder::new(MongoDB::default(), app_name.into())
    }

    /// The state of the application `app_name` before anything is known of
    /// its roles.
    pub fn new(app_name: String) -> (auth: Self)
        ensures
            auth@ == (AuthView {
                roles: Map::empty(),
                app_name: app_name@,
                sync: SyncView::Idle,
            }),
    {
        Auth { roles: Roles::default(), app_name, sync: Sync::Idle }
    }

    /// The name of the application.
    pub fn app_name(&self) -> (app_name: &str)
        ensures
            app_name@ == self@.app_name,
    {
        self.app_name.as_str()
    }

    /// The cache.
    pub fn roles(&self) -> (roles: &Roles)
        ensures
            roles@ == self@.roles,
    {
        &self.roles
    }

    /// Starts the synchronization task: the first refresh begins, and the
    /// application is to be looked up.
    pub fn init(&mut self) -> (first: Action)
        ensures
            final(self)@ == (AuthView {
                roles: old(self)@.roles,
                app_name: old(self)@.app_name,
                sync: SyncView::Starting(RefreshView::AwaitingApp),
            }),
            first@ == ActionView::FindApp(old(self)@.app_name),
    {
        self.sync = Sync::Starting(Refresh::AwaitingApp);
        Action::FindApp(self.app_name.clone())
    }

    /// Takes in what the store answered and says what to ask next.
    pub fn step(&mut self, event: Event) -> (step: Step)
        ensures
            exists|fresh: ObjectId| #[trigger] next(old(self)@, event, fresh) == (final(self)@, step@),
    {
        let mut sync = Sync::Stopped;
        core::mem::swap(&mut self.sync, &mut sync);
        let ghost pre = old(self)@;
        let ghost any_id: ObjectId = arbitrary();
        let (then, step, Ghost(fresh)) = match sync {
            Sync::Idle => (Sync::Idle, Step { next: Action::Stop, error: None }, Ghost(any_id)),
            Sync::Starting(refresh) => {
                let (advance, Ghost(fresh)) = refresh_step(refresh, event, &self.app_name);
                match advance {
                    Advance::Continue(then, action) => (
                        Sync::Starting(then),
                        Step { next: action, error: None },
                        Ghost(fresh),
                    ),
                    Advance::Done(roles) => {
                        self.roles.set(roles);
                        (
                            Sync::Subscribing,
                            Step { next: Action::Subscribe, error: None },
                            Ghost(fresh),
                        )
                    },
                    Advance::Failed(e) => (
                        Sync::Stopped,
                        Step { next: Action::Stop, error: Some(e) },
                        Ghost(fresh),
                    ),
                }
            },
            Sync::Subscribing => match event {
                Event::Subscribed => (
                    Sync::Watching,
                    Step { next: Action::NextChange, error: None },
                    Ghost(any_id),
                ),
                Event::Failed(e) => (
                    Sync::Stopped,
                    Step { next: Action::Stop, error: Some(AuthError::MongoWatchChangeStream(e)) },
                    Ghost(any_id),
                ),
                _ => (
                    Sync::Subscribing,
                    Step { next: Action::Subscribe, error: None },
                    Ghost(any_id),
                ),
            },
            Sync::Watching => match event {
                Event::Change => (
                    Sync::Refreshing(Refresh::AwaitingApp),
                    Step { next: Action::FindApp(self.app_name.clone()), error: None },
                    Ghost(any_id),
                ),
                Event::Closed => (
                    Sync::Stopped,
                    Step { next: Action::Stop, error: None },
                    Ghost(any_id),
                ),
                Event::Failed(e) => (
                    Sync::Watching,
                    Step {
                        next: Action::NextChange,
                        error: Some(AuthError::MongoWatchChangeStream(e)),
                    },
                    Ghost(any_id),
                ),
                _ => (
                    Sync::Watching,
                    Step { next: Action::NextChange, error: None },
                    Ghost(any_id),
                ),
            },
            Sync::Refreshing(refresh) => {
                let (advance, Ghost(fresh)) = refresh_step(refresh, event, &self.app_name);
                match advance {
                    Advance::Continue(then, action) => (
                        Sync::Refreshing(then),
                        Step { next: action, error: None },
                        Ghost(fresh),
                    ),
                    Advance::Done(roles) => {
                        self.roles.set(roles);
                        (
                            Sync::Watching,
                            Step { next: Action::NextChange, error: None },
                            Ghost(fresh),
                        )
                    },
                    Advance::Failed(e) => (
                        Sync::Watching,
                        Step { next: Action::NextChange, error: Some(e) },
                        Ghost(fresh),
                    ),
                }
            },
            Sync::Stopped => (
                Sync::Stopped,
                Step { next: Action::Stop, error: None },
                Ghost(any_id),
            ),
        };
        self.sync = then;
        assert(next(pre, event, fresh) == (self@, step@));
        step
    }

    /// The effective permissions of a principal with the roles
    /// `role_names`.
    pub fn add_role_items(&self, role_names: Vec<String>) -> (parent: RoleItems)
        ensures
            parent@ == effective(self@.roles, names_view(role_names@)),
    {
        let mut parent = RoleItems::default();
        let ghost names = names_view(role_names@);
        let mut i: usize = 0;
        assert(names.take(0) =~= Seq::<Seq<char>>::empty());
        while i < role_names.len()
            invariant
                i <= role_names@.len(),
                names == names_view(role_names@),
                parent@ == effective(self@.roles, names.take(i as int)),
            decreases role_names.len() - i,
        {
            assert(names.take(i + 1).drop_last() =~= names.take(i as int));
            assert(names.take(i + 1).last() == role_names@[i as int]@);
            match self.roles.lookup(role_names[i].as_str()) {
                Some(role) => {
                    role.items.add(&mut parent);
                },
                None => {},
            }
            i += 1;
        }
        assert(names.take(role_names@.len() as int) =~= names);
        parent
    }
}

} // verus!
