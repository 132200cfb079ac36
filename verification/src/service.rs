//! The request-handling facade: validates inputs, resolves API keys to
//! owners through the store, and assembles responses and typed failures.
//!
//! Per request the service holds no state of its own beyond the store.
//! Client-caused rejections (`Unauthenticated`, `InvalidArgument`) are
//! surfaced verbatim and never conflated with `Internal`, the opaque
//! signal for store faults, so a caller can tell a bad key from a broken
//! server.

use vstd::prelude::*;

use crate::db::{add_ok, coffees_of, register_err, register_ok, Coffee, Db, DbError, DbView,
    UserView};
use crate::keygen::key_of;

verus! {

/// How a request was rejected, as surfaced to the caller.
#[derive(Clone, Copy, Debug, PartialEq, Eq, Structural)]
pub enum Status {
    /// The presented API key was never issued: fail closed.
    Unauthenticated,
    /// The request payload violates a documented constraint.
    InvalidArgument,
    /// The store failed; opaque to the caller, who may retry.
    Internal,
}

/// What a store error surfaces as: the business "unknown key" outcome
/// maps to `Unauthenticated`, and infrastructure faults collapse into
/// the opaque `Internal`. `InvalidArgument` only ever originates in the
/// service's own input validation.
pub open spec fn status_of(e: DbError) -> Status {
    match e {
        DbError::UnknownApiKey => Status::Unauthenticated,
        DbError::StoreUnavailable => Status::Internal,
        DbError::UnknownOwner => Status::Internal,
    }
}

impl core::convert::From<DbError> for Status {
    fn from(e: DbError) -> (s: Status) {
        match e {
            DbError::UnknownApiKey => Status::Unauthenticated,
            DbError::StoreUnavailable => Status::Internal,
            DbError::UnknownOwner => Status::Internal,
        }
    }
}

impl vstd::std_specs::convert::FromSpecImpl<DbError> for Status {
    open spec fn obeys_from_spec() -> bool {
        true
    }

    open spec fn from_spec(e: DbError) -> Status {
        status_of(e)
    }
}

/// The reply to a registration: on success, the API key issued for the
/// email.
#[derive(Debug)]
pub struct RegisterResponse {
    pub success: bool,
    pub api_key: String,
}

/// The reply to a coffee write.
#[derive(Clone, Copy, Debug, PartialEq, Eq, Structural)]
pub struct AddCoffeeResponse {
    pub success: bool,
}

/// One coffee event as a caller sees it.
#[derive(Clone, Copy, Debug, PartialEq, Eq, Structural)]
pub struct CoffeeItem {
    pub utc_time: i64,
    pub shots: i32,
}

/// The reply to a listing: every event of the key's owner, in insertion
/// order.
#[derive(Debug)]
pub struct ListCoffeeResponse {
    pub coffees: Vec<CoffeeItem>,
}

/// Stored coffee rows, as the items a caller is handed back.
pub open spec fn to_items(cs: Seq<Coffee>) -> Seq<CoffeeItem> {
    cs.map_values(|c: Coffee| CoffeeItem { utc_time: c.utctime, shots: c.shots })
}

/// The service facade over the store.
#[derive(Debug)]
pub struct CoffeeService {
    db: Db,
}

impl View for CoffeeService {
    type V = DbView;

    closed spec fn view(&self) -> DbView {
        self.db@
    }
}

impl CoffeeService {
    /// Wraps a store handle; the service adds no state of its own.
    pub fn new(db: Db) -> (s: CoffeeService)
        ensures
            s@ == db@,
    {
        CoffeeService { db }
    }

    /// Registers `email` and returns the API key issued for it; the same
    /// email always receives the same key. Registration never partially
    /// succeeds: either the user row exists with its key after the call,
    /// or nothing was persisted and the store fault surfaces as
    /// `Internal`.
    pub fn register(&mut self, email: &str) -> (r: Result<RegisterResponse, Status>)
        requires
            old(self)@.wf(),
        ensures
            final(self)@.wf(),
            match r {
                Ok(resp) => resp.success && resp.api_key@ == key_of(email@) && register_ok(
                    old(self)@,
                    email@,
                    final(self)@,
                    (UserView { email: email@, apikey: resp.api_key@ }),
                ),
                Err(st) => st == Status::Internal && register_err(
                    old(self)@,
                    email@,
                    final(self)@,
                ),
            },
    {
        match self.db.register_user(email) {
            Ok(u) => Ok(RegisterResponse { success: true, api_key: u.apikey }),
            Err(e) => Err(Status::from(e)),
        }
    }

    /// Records one coffee event under `api_key`. The key is resolved
    /// first and fails closed with `Unauthenticated`; then a non-positive
    /// shot count is rejected with `InvalidArgument`; only then is the
    /// event appended, bound to the key's owner. Every rejection leaves
    /// the store unchanged.
    pub fn add_coffee(&mut self, api_key: &str, utc_time: i64, shots: i32) -> (r: Result<
        AddCoffeeResponse,
        Status,
    >)
        requires
            old(self)@.wf(),
        ensures
            final(self)@.wf(),
            match r {
                Ok(resp) => resp.success && shots > 0 && add_ok(
                    old(self)@,
                    api_key@,
                    (Coffee { shots, utctime: utc_time }),
                    final(self)@,
                ),
                Err(st) => final(self)@ == old(self)@ && match st {
                    Status::Unauthenticated => !old(self)@.has_key(api_key@),
                    Status::InvalidArgument => old(self)@.has_key(api_key@) && shots <= 0,
                    Status::Internal => false,
                },
            },
    {
        let owner = match self.db.validate_api_key(api_key) {
            Ok(i) => i,
            Err(_) => {
                return Err(Status::Unauthenticated);
            },
        };
        if shots <= 0 {
            return Err(Status::InvalidArgument);
        }
        let res = self.db.add_event(owner, Coffee { shots, utctime: utc_time });
        proof {
            assert(res is Ok);
        }
        match res {
            Ok(_) => Ok(AddCoffeeResponse { success: true }),
            Err(_) => Err(Status::Internal),
        }
    }

    /// Returns every event of the key's owner, in insertion order, after
    /// resolving the key; a key never issued fails closed with
    /// `Unauthenticated`. Grouping or summing by day is the caller's
    /// concern.
    pub fn list_coffee(&self, api_key: &str) -> (r: Result<ListCoffeeResponse, Status>)
        requires
            self@.wf(),
        ensures
            match r {
                Ok(resp) => self@.has_key(api_key@) && resp.coffees@ == to_items(
                    coffees_of(self@.events, self@.owner_of(api_key@)),
                ),
                Err(st) => st == Status::Unauthenticated && !self@.has_key(api_key@),
            },
    {
        let db_coffees = match self.db.get_coffees(api_key) {
            Ok(v) => v,
            Err(_) => {
                return Err(Status::Unauthenticated);
            },
        };
        let ghost all = db_coffees@;
        let n = db_coffees.len();
        let mut coffees: Vec<CoffeeItem> = Vec::new();
        let mut k: usize = 0;
        while k < n
            invariant
                n == db_coffees@.len(),
                db_coffees@ == all,
                k <= n,
                coffees@ == to_items(all.take(k as int)),
            decreases n - k,
        {
            let c = &db_coffees[k];
            coffees.push(CoffeeItem { utc_time: c.utctime, shots: c.shots });
            proof {
                assert(coffees@ =~= to_items(all.take(k as int + 1)));
            }
            k += 1;
        }
        proof {
            assert(all.take(n as int) =~= all);
            assert(to_items(all.take(n as int)) =~= to_items(all));
        }
        Ok(ListCoffeeResponse { coffees })
    }
}

} // verus!
