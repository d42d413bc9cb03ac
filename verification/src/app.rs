//! Applications: the tenants that own roles.

use vstd::prelude::*;
use vstd::string::StringExecFns;
use mongodb::bson::oid::ObjectId;
use mongodb::bson::DateTime;
use crate::model::ItemView;
use crate::role::RoleItems;
use crate::store::id_or_fresh;

verus! {

/// The name of the application that stands for a local installation.
pub const LOCAL_APP: &'static str = "local";

/// An application and the permission tree that its new roles start from.
#[derive(Debug, PartialEq)]
pub struct App {
    pub id: Option<ObjectId>,
    pub name: String,
    pub version: u64,
    pub default_role: RoleItems,
    pub created_at: Option<DateTime>,
    pub updated_at: Option<DateTime>,
}

/// The mathematical value of an application.
pub struct AppView {
    pub id: Option<ObjectId>,
    pub name: Seq<char>,
    pub version: u64,
    pub default_role: Seq<ItemView>,
    pub created_at: Option<DateTime>,
    pub updated_at: Option<DateTime>,
}

impl View for App {
    type V = AppView;

    open spec fn view(&self) -> AppView {
        AppView {
            id: self.id,
            name: self.name@,
            version: self.version,
            default_role: self.default_role@,
            created_at: self.created_at,
            updated_at: self.updated_at,
        }
    }
}

impl Clone for App {
    fn clone(&self) -> (copy: Self)
        ensures
            copy@ == self@,
    {
        App {
            id: self.id,
            name: self.name.clone(),
            version: self.version,
            default_role: self.default_role.clone(),
            created_at: self.created_at,
            updated_at: self.updated_at,
        }
    }
}

impl Default for App {
    /// The local application: not stored yet, at version 1, with the local
    /// permission tree as its template.
    fn default() -> (app: Self)
        ensures
            app@ == (AppView {
                id: None,
                name: LOCAL_APP@,
                version: 1,
                default_role: crate::role::local_tree(),
                created_at: None,
                updated_at: None,
            }),
    {
        App {
            id: None,
            name: String::from_str(LOCAL_APP),
            version: 1,
            default_role: RoleItems::local(),
            created_at: None,
            updated_at: None,
        }
    }
}

impl App {
    /// The identity of the application; a fresh one while it has none.
    pub fn id(&self) -> (id: ObjectId)
        ensures
            self.id is Some ==> id == self.id->0,
    {
        id_or_fresh(self.id)
    }
}

} // verus!
