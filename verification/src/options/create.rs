//! The options a database is opened with.

use super::{optional_text, set_flag, set_text, with_flag, with_text};
use crate::value::{NumberView, RawValue, Tree};
use vstd::prelude::*;

verus! {

/// The storage a database is kept in.
#[derive(Clone, Copy, Debug, PartialEq, Eq, Structural)]
pub enum Adapter {
    IDB,
    LevelDB,
    HTTP,
}

impl Adapter {
    /// The name the host knows the adapter by.
    pub open spec fn name(self) -> Seq<char> {
        match self {
            Adapter::IDB => "idb"@,
            Adapter::LevelDB => "leveldb"@,
            Adapter::HTTP => "http"@,
        }
    }

    pub fn to_raw(&self) -> (r: RawValue)
        ensures
            r@ == Tree::Text(self.name()),
    {
        match self {
            Adapter::IDB => RawValue::text("idb"),
            Adapter::LevelDB => RawValue::text("leveldb"),
            Adapter::HTTP => RawValue::text("http"),
        }
    }
}

/// The credentials for a remote database.
#[derive(Debug, PartialEq, Eq)]
pub struct Auth {
    pub username: String,
    pub password: String,
}

impl Clone for Auth {
    fn clone(&self) -> (r: Auth)
        ensures
            r.username@ == self.username@,
            r.password@ == self.password@,
    {
        Auth { username: self.username.clone(), password: self.password.clone() }
    }
}

impl Auth {
    /// The object the credentials are sent as.
    pub open spec fn encoded(&self) -> Tree {
        Tree::Object(
            seq![
                ("username"@, Tree::Text(self.username@)),
                ("password"@, Tree::Text(self.password@)),
            ],
        )
    }

    pub fn to_raw(&self) -> (r: RawValue)
        ensures
            r@ == self.encoded(),
    {
        let mut entries: Vec<(String, RawValue)> = Vec::new();
        entries.push(("username".to_owned(), RawValue::Text(self.username.clone())));
        entries.push(("password".to_owned(), RawValue::Text(self.password.clone())));
        proof {
            crate::value::lemma_object_view(entries);
            assert(crate::assoc::view_of(entries@) =~= seq![
                ("username"@, Tree::Text(self.username@)),
                ("password"@, Tree::Text(self.password@)),
            ]);
        }
        RawValue::Object(entries)
    }
}

#[derive(Debug, PartialEq, Eq)]
pub struct CreateOptions {
    pub name: Option<String>,
    pub adapter: Option<Adapter>,
    pub revs_limit: Option<i64>,
    pub deterministic_revs: Option<bool>,
    pub auth: Option<Auth>,
    pub skip_setup: bool,
}

impl Default for CreateOptions {
    fn default() -> (r: CreateOptions)
        ensures
            r.name is None,
            r.adapter is None,
            r.revs_limit is None,
            r.deterministic_revs is None,
            r.auth is None,
            !r.skip_setup,
    {
        CreateOptions {
            name: None,
            adapter: None,
            revs_limit: None,
            deterministic_revs: None,
            auth: None,
            skip_setup: false,
        }
    }
}

impl CreateOptions {
    pub fn name<T: Into<String>>(self, name: T) -> (r: CreateOptions)
        ensures
            r.name matches Some(given) && call_ensures(<T as Into<String>>::into, (name,), given),
            r.adapter == self.adapter,
            r.revs_limit == self.revs_limit,
            r.deterministic_revs == self.deterministic_revs,
            r.auth == self.auth,
            r.skip_setup == self.skip_setup,
    {
        CreateOptions { name: Some(name.into()), ..self }
    }

    pub fn adapter<T: Into<Adapter>>(self, adapter: T) -> (r: CreateOptions)
        ensures
            r.name == self.name,
            r.adapter matches Some(given) && call_ensures(
                <T as Into<Adapter>>::into,
                (adapter,),
                given,
            ),
            r.revs_limit == self.revs_limit,
            r.deterministic_revs == self.deterministic_revs,
            r.auth == self.auth,
            r.skip_setup == self.skip_setup,
    {
        CreateOptions { adapter: Some(adapter.into()), ..self }
    }

    pub fn revs_limit<T: Into<i64>>(self, revs_limit: T) -> (r: CreateOptions)
        ensures
            r.name == self.name,
            r.adapter == self.adapter,
            r.revs_limit matches Some(given) && call_ensures(
                <T as Into<i64>>::into,
                (revs_limit,),
                given,
            ),
            r.deterministic_revs == self.deterministic_revs,
            r.auth == self.auth,
            r.skip_setup == self.skip_setup,
    {
        CreateOptions { revs_limit: Some(revs_limit.into()), ..self }
    }

    pub fn deterministic_revs(self, deterministic_revs: bool) -> (r: CreateOptions)
        ensures
            r == (CreateOptions { deterministic_revs: Some(deterministic_revs), ..self }),
    {
        CreateOptions { deterministic_revs: Some(deterministic_revs), ..self }
    }

    pub fn auth(self, auth: Auth) -> (r: CreateOptions)
        ensures
            r == (CreateOptions { auth: Some(auth), ..self }),
    {
        CreateOptions { auth: Some(auth), ..self }
    }

    pub fn skip_setup(self, skip_setup: bool) -> (r: CreateOptions)
        ensures
            r == (CreateOptions { skip_setup, ..self }),
    {
        CreateOptions { skip_setup, ..self }
    }

    /// The object the options are sent as.
    pub open spec fn encoded(&self) -> Tree {
        let named = with_text(Tree::Object(Seq::empty()), "name"@, optional_text(self.name));
        let adapted = match self.adapter {
            Some(adapter) => named.set("adapter"@, Tree::Text(adapter.name())),
            None => named,
        };
        let limited = match self.revs_limit {
            Some(limit) => adapted.set(
                "revs_limit"@,
                Tree::Number(NumberView::Integer(limit as int)),
            ),
            None => adapted,
        };
        let determined = match self.deterministic_revs {
            Some(deterministic) => limited.set("deterministic_revs"@, Tree::Bool(deterministic)),
            None => limited,
        };
        let authorized = match self.auth {
            Some(auth) => determined.set("auth"@, auth.encoded()),
            None => determined,
        };
        with_flag(authorized, "skip_setup"@, self.skip_setup)
    }

    pub fn to_raw(&self) -> (r: RawValue)
        ensures
            r@ == self.encoded(),
    {
        let mut object = RawValue::object();
        set_text(&mut object, "name", &self.name);
        match self.adapter {
            Some(adapter) => {
                object.set("adapter", adapter.to_raw());
            },
            None => {},
        }
        match self.revs_limit {
            Some(limit) => {
                object.set("revs_limit", RawValue::integer(limit));
            },
            None => {},
        }
        match self.deterministic_revs {
            Some(deterministic) => {
                object.set("deterministic_revs", RawValue::Bool(deterministic));
            },
            None => {},
        }
        match &self.auth {
            Some(auth) => {
                object.set("auth", auth.to_raw());
            },
            None => {},
        }
        set_flag(&mut object, "skip_setup", self.skip_setup);
        object
    }
}

} // verus!
