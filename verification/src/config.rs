//! How to reach the document store: what a builder collects before an
//! `Auth` is made.

use vstd::prelude::*;
use vstd::string::StringExecFns;
use haikunator::Haikunator;
use crate::auth::{Auth, AuthView, SyncView};

verus! {

/// A client name made up at random.
///
/// Trusted: wraps `Haikunator::haikunate` on the default settings, which
/// draws an adjective, a noun and four digits from the thread's random
/// number generator. Nothing is claimed of the name.
#[verifier::external_body]
fn random_client_name() -> String {
    Haikunator::default().haikunate()
}

/// The connection settings of the document store.
#[derive(Debug)]
pub struct MongoDB {
    uri: String,
    db_name: String,
    client_name: String,
}

/// The mathematical value of the connection settings.
pub struct MongoDBView {
    pub uri: Seq<char>,
    pub db_name: Seq<char>,
    pub client_name: Seq<char>,
}

impl View for MongoDB {
    type V = MongoDBView;

    closed spec fn view(&self) -> MongoDBView {
        MongoDBView { uri: self.uri@, db_name: self.db_name@, client_name: self.client_name@ }
    }
}

impl MongoDB {
    /// The settings of a local store, under the given client name.
    pub fn with_client_name(client_name: String) -> (settings: Self)
        ensures
            settings@ == (MongoDBView {
                uri: "mongodb://localhost:27017"@,
                db_name: "umt"@,
                client_name: client_name@,
            }),
    {
        MongoDB {
            uri: String::from_str("mongodb://localhost:27017"),
            db_name: String::from_str("umt"),
            client_name,
        }
    }

    /// The connection URI.
    pub fn uri(&self) -> (uri: &str)
        ensures
            uri@ == self@.uri,
    {
        self.uri.as_str()
    }

    /// The name of the database.
    pub fn db_name(&self) -> (db_name: &str)
        ensures
            db_name@ == self@.db_name,
    {
        self.db_name.as_str()
    }

    /// The name under which the client presents itself to the store.
    pub fn client_name(&self) -> (client_name: &str)
        ensures
            client_name@ == self@.client_name,
    {
        self.client_name.as_str()
    }
}

impl Default for MongoDB {
    /// The settings of a local store, under a client name made up at random.
    fn default() -> (settings: Self)
        ensures
            settings@.uri == "mongodb://localhost:27017"@,
            settings@.db_name == "umt"@,
    {
        MongoDB::with_client_name(random_client_name())
    }
}

/// Whether `src.into()` may give a string that reads `text`.
pub open spec fn converts_to<T: Into<String>>(src: T, text: Seq<char>) -> bool {
    exists|s: String| call_ensures(T::into, (src,), s) && s@ == text
}

/// Collects the settings from which an `Auth` is made.
#[derive(Debug)]
pub struct AuthBuilder {
    mongodb: MongoDB,
    app_name: String,
}

/// The mathematical value of a builder.
pub struct AuthBuilderView {
    pub mongodb: MongoDBView,
    pub app_name: Seq<char>,
}

impl View for AuthBuilder {
    type V = AuthBuilderView;

    closed spec fn view(&self) -> AuthBuilderView {
        AuthBuilderView { mongodb: self.mongodb@, app_name: self.app_name@ }
    }
}

impl AuthBuilder {
    /// A builder for the application `app_name` with the given settings.
    pub fn new(mongodb: MongoDB, app_name: String) -> (builder: Self)
        ensures
            builder@ == (AuthBuilderView { mongodb: mongodb@, app_name: app_name@ }),
    {
        AuthBuilder { mongodb, app_name }
    }

    /// Sets the connection URI and leaves the rest.
    pub fn mongodb_uri<T: Into<String>>(&mut self, src: T) -> (builder: &mut Self)
        ensures
            converts_to(src, builder@.mongodb.uri),
            builder@.mongodb.db_name == old(self)@.mongodb.db_name,
            builder@.mongodb.client_name == old(self)@.mongodb.client_name,
            builder@.app_name == old(self)@.app_name,
            *final(self) == *final(builder),
    {
        self.mongodb.uri = src.into();
        self
    }

    /// Sets the database name and leaves the rest.
    pub fn mongodb_db_name<T: Into<String>>(&mut self, src: T) -> (builder: &mut Self)
        ensures
            converts_to(src, builder@.mongodb.db_name),
            builder@.mongodb.uri == old(self)@.mongodb.uri,
            builder@.mongodb.client_name == old(self)@.mongodb.client_name,
            builder@.app_name == old(self)@.app_name,
            *final(self) == *final(builder),
    {
        self.mongodb.db_name = src.into();
        self
    }

    /// Sets the name under which the client presents itself to the store
    /// and leaves the rest.
    pub fn mongodb_app_name<T: Into<String>>(&mut self, src: T) -> (builder: &mut Self)
        ensures
            converts_to(src, builder@.mongodb.client_name),
            builder@.mongodb.uri == old(self)@.mongodb.uri,
            builder@.mongodb.db_name == old(self)@.mongodb.db_name,
            builder@.app_name == old(self)@.app_name,
            *final(self) == *final(builder),
    {
        self.mongodb.client_name = src.into();
        self
    }

    /// The state of the application that the builder names, before
    /// anything is known of its roles. The connection settings are for
    /// whoever connects; read them before.
    pub fn build(self) -> (auth: Auth)
        ensures
            auth@ == (AuthView {
                roles: Map::empty(),
                app_name: self@.app_name,
                sync: SyncView::Idle,
            }),
    {
        Auth::new(self.app_name)
    }

    /// The connection settings collected so far.
    pub fn mongodb(&self) -> (settings: &MongoDB)
        ensures
            settings@ == self@.mongodb,
    {
        &self.mongodb
    }

    /// The name of the application.
    pub fn app_name(&self) -> (app_name: &str)
        ensures
            app_name@ == self@.app_name,
    {
        self.app_name.as_str()
    }
}

} // verus!
