//! The durable store: one `USERS` table (email, api key) and one `COFFEE`
//! table (owner, timestamp, shot count), held here as verified in-memory
//! state.
//!
//! The store owns the two invariants the whole design rests on: emails and
//! api keys are unique across users (so a key resolves to at most one
//! owner), and every coffee row is bound to an existing owner.

use vstd::prelude::*;

use crate::keygen::{derive_key, key_of};

verus! {

/// Why a store operation failed.
///
/// `UnknownApiKey` is the business "not authenticated" outcome; it is never
/// conflated with `StoreUnavailable`, the infrastructure fault, so callers
/// can tell a bad key from a broken store. `UnknownOwner` is the defensive
/// foreign-key check on event writes.
#[derive(Clone, Copy, Debug, PartialEq, Eq, Structural)]
pub enum DbError {
    UnknownApiKey,
    StoreUnavailable,
    UnknownOwner,
}

/// One coffee event: a shot count and a UTC timestamp in epoch seconds.
#[derive(Clone, Copy, Debug, PartialEq, Eq, Structural)]
pub struct Coffee {
    pub shots: i32,
    pub utctime: i64,
}

/// One registered user: an email and the API key issued for it.
#[derive(Debug)]
pub struct User {
    pub email: String,
    pub apikey: String,
}

/// A coffee row as stored: the event plus the internal id of its owner.
#[derive(Clone, Copy, Debug)]
struct CoffeeRow {
    owner: usize,
    coffee: Coffee,
}

/// The view of one user row.
#[verifier::ext_equal]
pub struct UserView {
    pub email: Seq<char>,
    pub apikey: Seq<char>,
}

/// The view of one coffee row.
#[verifier::ext_equal]
pub struct EventView {
    pub owner: int,
    pub coffee: Coffee,
}

/// The view of the whole store: the two tables as sequences of rows, in
/// insertion order.
#[verifier::ext_equal]
pub struct DbView {
    pub users: Seq<UserView>,
    pub events: Seq<EventView>,
}

impl View for User {
    type V = UserView;

    open spec fn view(&self) -> UserView {
        UserView { email: self.email@, apikey: self.apikey@ }
    }
}

impl View for CoffeeRow {
    type V = EventView;

    closed spec fn view(&self) -> EventView {
        EventView { owner: self.owner as int, coffee: self.coffee }
    }
}

impl DbView {
    /// There is a user row whose email is `email`.
    pub open spec fn has_email(self, email: Seq<char>) -> bool {
        exists|i: int| 0 <= i < self.users.len() && self.users[i].email == email
    }

    /// There is a user row whose api key is `key`: the key has been issued.
    pub open spec fn has_key(self, key: Seq<char>) -> bool {
        exists|i: int| 0 <= i < self.users.len() && self.users[i].apikey == key
    }

    /// The internal id of the user owning `key`; meaningful when
    /// `has_key(key)` holds, and then unique by well-formedness.
    pub open spec fn owner_of(self, key: Seq<char>) -> int {
        choose|i: int| 0 <= i < self.users.len() && self.users[i].apikey == key
    }

    /// The internal id of the user registered under `email`; meaningful
    /// when `has_email(email)` holds, and then unique by well-formedness.
    pub open spec fn user_of(self, email: Seq<char>) -> int {
        choose|i: int| 0 <= i < self.users.len() && self.users[i].email == email
    }

    /// Well-formedness of the store.
    ///
    /// Distinct user rows never share an email or an api key (so email and
    /// key each identify at most one user); every stored key is the one
    /// derived from its user's email; and every coffee row points at an
    /// existing owner.
    pub open spec fn wf(self) -> bool {
        &&& forall|i: int, j: int|
            #![trigger self.users[i], self.users[j]]
            0 <= i < self.users.len() && 0 <= j < self.users.len() && i != j
                ==> self.users[i].email != self.users[j].email
                    && self.users[i].apikey != self.users[j].apikey
        &&& forall|i: int|
            0 <= i < self.users.len() ==> (#[trigger] self.users[i]).apikey == key_of(
                self.users[i].email,
            )
        &&& forall|k: int|
            0 <= k < self.events.len() ==> 0 <= (#[trigger] self.events[k]).owner
                < self.users.len()
    }
}

/// The events owned by `owner`, in insertion order, stripped down to the
/// coffee data a caller sees.
pub open spec fn coffees_of(events: Seq<EventView>, owner: int) -> Seq<Coffee>
    decreases events.len(),
{
    if events.len() == 0 {
        Seq::empty()
    } else {
        let rest = coffees_of(events.drop_last(), owner);
        if events.last().owner == owner {
            rest.push(events.last().coffee)
        } else {
            rest
        }
    }
}

/// A successful registration of `email`: it returned the row `u`, whose
/// key is the one derived from `email`. If the email was already
/// registered the store is unchanged (the existing key is preserved,
/// never rotated); otherwise the derived key was still unissued and
/// exactly the one new user row was appended.
pub open spec fn register_ok(pre: DbView, email: Seq<char>, post: DbView, u: UserView) -> bool {
    &&& u.email == email
    &&& u.apikey == key_of(email)
    &&& if pre.has_email(email) {
        post == pre
    } else {
        &&& !pre.has_key(key_of(email))
        &&& post == (DbView { users: pre.users.push(u), events: pre.events })
    }
}

/// A failed registration of `email`: the email was new but its derived
/// key collided with one already issued, so the unique-key constraint
/// rejected the insert and nothing was persisted.
pub open spec fn register_err(pre: DbView, email: Seq<char>, post: DbView) -> bool {
    &&& post == pre
    &&& !pre.has_email(email)
    &&& pre.has_key(key_of(email))
}

/// A successful coffee write under `key`: the key was issued, and exactly
/// one event row bound to the key's owner was appended.
pub open spec fn add_ok(pre: DbView, key: Seq<char>, c: Coffee, post: DbView) -> bool {
    &&& pre.has_key(key)
    &&& post == (DbView {
        users: pre.users,
        events: pre.events.push((EventView { owner: pre.owner_of(key), coffee: c })),
    })
}

/// How many user rows carry `email`.
pub open spec fn email_count(users: Seq<UserView>, email: Seq<char>) -> nat
    decreases users.len(),
{
    if users.len() == 0 {
        0
    } else {
        email_count(users.drop_last(), email) + if users.last().email == email {
            1nat
        } else {
            0nat
        }
    }
}

/// The store: the `USERS` and `COFFEE` tables.
#[derive(Debug)]
pub struct Db {
    users: Vec<User>,
    coffees: Vec<CoffeeRow>,
}

impl View for Db {
    type V = DbView;

    closed spec fn view(&self) -> DbView {
        DbView {
            users: self.users@.map_values(|u: User| u@),
            events: self.coffees@.map_values(|r: CoffeeRow| r@),
        }
    }
}

impl Db {
    /// A fresh store: both tables empty, trivially well-formed.
    pub fn new() -> (db: Db)
        ensures
            db@.wf(),
            db@.users.len() == 0,
            db@.events.len() == 0,
    {
        Db { users: Vec::new(), coffees: Vec::new() }
    }

    /// How many user rows the store holds.
    pub fn user_count(&self) -> (n: usize)
        ensures
            n == self@.users.len(),
    {
        self.users.len()
    }

    /// How many coffee rows the store holds, over all owners.
    pub fn event_count(&self) -> (n: usize)
        ensures
            n == self@.events.len(),
    {
        self.coffees.len()
    }

    /// Registers `email` and returns its user row, with the API key
    /// derived from the email. Idempotent: a second registration of the
    /// same email returns the same row and leaves the store unchanged.
    /// Fails (with nothing persisted) only when a new email's derived key
    /// collides with one already issued, which the unique-key constraint
    /// surfaces as `StoreUnavailable`.
    pub fn register_user(&mut self, email: &str) -> (r: Result<User, DbError>)
        requires
            old(self)@.wf(),
        ensures
            final(self)@.wf(),
            match r {
                Ok(u) => register_ok(old(self)@, email@, final(self)@, u@),
                Err(e) => e == DbError::StoreUnavailable && register_err(
                    old(self)@,
                    email@,
                    final(self)@,
                ),
            },
    {
        let email_s: String = email.to_owned();
        match find_by_email(&self.users, &email_s) {
            Some(i) => {
                let u = &self.users[i];
                let row = User { email: u.email.clone(), apikey: u.apikey.clone() };
                proof {
                    let v = self@;
                    assert(v.users[i as int] == self.users@[i as int]@);
                    assert(v.has_email(email@));
                    assert(v.users[i as int].apikey == key_of(email@));
                }
                Ok(row)
            },
            None => {
                proof {
                    let v = self@;
                    assert(forall|j: int|
                        0 <= j < v.users.len() ==> (#[trigger] v.users[j]) == self.users@[j]@);
                    assert(!v.has_email(email@));
                }
                let key = derive_key(email);
                match find_by_key(&self.users, &key) {
                    Some(j) => {
                        proof {
                            let v = self@;
                            assert(v.users[j as int] == self.users@[j as int]@);
                            assert(v.users[j as int].apikey == key_of(email@));
                            assert(v.has_key(key_of(email@)));
                        }
                        Err(DbError::StoreUnavailable)
                    },
                    None => {
                        let row = User { email: email_s.clone(), apikey: key.clone() };
                        self.users.push(User { email: email_s, apikey: key });
                        proof {
                            let pre = old(self)@;
                            let post = self@;
                            assert(forall|j: int|
                                0 <= j < pre.users.len() ==> (#[trigger] pre.users[j])
                                    == old(self).users@[j]@);
                            assert(post.users =~= pre.users.push(row@));
                            assert(post.events =~= pre.events);
                            assert(!pre.has_key(key_of(email@)));
                            assert(register_ok(pre, email@, post, row@));
                            lemma_register_ok_wf(pre, email@, post, row@);
                        }
                        Ok(row)
                    },
                }
            },
        }
    }

    /// Records one coffee event under `api_key`: resolves the key to its
    /// owner (failing closed with `UnknownApiKey`) and appends the event
    /// bound to that owner. The store accepts any shot count here.
    pub fn add_coffee(&mut self, api_key: &str, c: &Coffee) -> (r: Result<(), DbError>)
        requires
            old(self)@.wf(),
        ensures
            final(self)@.wf(),
            match r {
                Ok(_) => add_ok(old(self)@, api_key@, *c, final(self)@),
                Err(e) => e == DbError::UnknownApiKey && !old(self)@.has_key(api_key@)
                    && final(self)@ == old(self)@,
            },
    {
        let owner = match self.validate_api_key(api_key) {
            Ok(i) => i,
            Err(e) => {
                return Err(e);
            },
        };
        let res = self.add_event(owner, *c);
        proof {
            assert(res is Ok);
        }
        match res {
            Ok(_) => Ok(()),
            Err(e) => Err(e),
        }
    }

    /// Every event recorded under the owner of `api_key`, in insertion
    /// order; fails closed with `UnknownApiKey` for a key never issued.
    pub fn get_coffees(&self, api_key: &str) -> (r: Result<Vec<Coffee>, DbError>)
        requires
            self@.wf(),
        ensures
            match r {
                Ok(v) => self@.has_key(api_key@) && v@ == coffees_of(
                    self@.events,
                    self@.owner_of(api_key@),
                ),
                Err(e) => e == DbError::UnknownApiKey && !self@.has_key(api_key@),
            },
    {
        let owner = match self.validate_api_key(api_key) {
            Ok(i) => i,
            Err(e) => {
                return Err(e);
            },
        };
        Ok(self.list_events(owner))
    }

    /// Validates that `api_key` belongs to a registered user and returns
    /// that user's internal id; fails with `UnknownApiKey` if no user owns
    /// the key. This is the sole authorization gate for coffee operations.
    pub fn validate_api_key(&self, api_key: &str) -> (r: Result<usize, DbError>)
        requires
            self@.wf(),
        ensures
            match r {
                Ok(i) => self@.has_key(api_key@) && i == self@.owner_of(api_key@)
                    && i < self@.users.len() && self@.users[i as int].apikey == api_key@,
                Err(e) => e == DbError::UnknownApiKey && !self@.has_key(api_key@),
            },
    {
        let key: String = api_key.to_owned();
        match find_by_key(&self.users, &key) {
            Some(i) => {
                proof {
                    let v = self@;
                    assert(v.users[i as int] == self.users@[i as int]@);
                    assert(v.has_key(api_key@));
                    let j = v.owner_of(api_key@);
                    assert(0 <= j < v.users.len() && v.users[j].apikey == api_key@);
                    assert(j == i as int);
                }
                Ok(i)
            },
            None => {
                proof {
                    let v = self@;
                    assert(forall|j: int|
                        0 <= j < v.users.len() ==> (#[trigger] v.users[j]) == self.users@[j]@);
                }
                Err(DbError::UnknownApiKey)
            },
        }
    }

    /// Appends one coffee event bound to `owner`; the defensive
    /// foreign-key check fails with `UnknownOwner` when no such user
    /// exists. The store itself accepts any shot count; rejecting
    /// non-positive counts is the service layer's policy.
    pub fn add_event(&mut self, owner: usize, coffee: Coffee) -> (r: Result<(), DbError>)
        requires
            old(self)@.wf(),
        ensures
            final(self)@.wf(),
            match r {
                Ok(_) => owner < old(self)@.users.len() && final(self)@ == (DbView {
                    users: old(self)@.users,
                    events: old(self)@.events.push(
                        (EventView { owner: owner as int, coffee }),
                    ),
                }),
                Err(e) => e == DbError::UnknownOwner && owner >= old(self)@.users.len()
                    && final(self)@ == old(self)@,
            },
    {
        if owner < self.users.len() {
            self.coffees.push(CoffeeRow { owner, coffee });
            proof {
                assert(final(self)@.users =~= old(self)@.users);
                assert(final(self)@.events =~= old(self)@.events.push(
                    (EventView { owner: owner as int, coffee }),
                ));
            }
            Ok(())
        } else {
            Err(DbError::UnknownOwner)
        }
    }

    /// Every event ever recorded for `owner`, in insertion order. An owner
    /// with no events (or an id never issued) yields the empty list.
    pub fn list_events(&self, owner: usize) -> (v: Vec<Coffee>)
        ensures
            v@ == coffees_of(self@.events, owner as int),
    {
        let ghost all = self@.events;
        let mut v: Vec<Coffee> = Vec::new();
        let n = self.coffees.len();
        let mut k: usize = 0;
        while k < n
            invariant
                n == self.coffees.len(),
                k <= n,
                all == self@.events,
                v@ == coffees_of(all.take(k as int), owner as int),
            decreases n - k,
        {
            proof {
                assert(all.take(k as int + 1).drop_last() =~= all.take(k as int));
                assert(all.take(k as int + 1).last() == all[k as int]);
                assert(all[k as int] == self.coffees@[k as int]@);
            }
            let row = &self.coffees[k];
            if row.owner == owner {
                v.push(row.coffee);
            }
            k += 1;
        }
        proof {
            assert(all.take(n as int) =~= all);
        }
        v
    }
}

/// Appending one event extends an owner's list exactly when the event is
/// theirs, and leaves every other owner's list unchanged.
pub proof fn lemma_coffees_of_push(events: Seq<EventView>, e: EventView, owner: int)
    ensures
        coffees_of(events.push(e), owner) == if e.owner == owner {
            coffees_of(events, owner).push(e.coffee)
        } else {
            coffees_of(events, owner)
        },
{
    assert(events.push(e).drop_last() =~= events);
    assert(events.push(e).last() == e);
}

/// In a store whose user emails are pairwise distinct, no email occurs on
/// more than one row.
proof fn lemma_email_count_le_one(users: Seq<UserView>, email: Seq<char>)
    requires
        forall|i: int, j: int|
            #![trigger users[i], users[j]]
            0 <= i < users.len() && 0 <= j < users.len() && i != j ==> users[i].email
                != users[j].email,
    ensures
        email_count(users, email) <= 1,
    decreases users.len(),
{
    if users.len() > 0 {
        let rest = users.drop_last();
        assert(forall|i: int| 0 <= i < rest.len() ==> rest[i] == users[i]);
        lemma_email_count_le_one(rest, email);
        if users.last().email == email {
            assert(forall|i: int|
                0 <= i < rest.len() ==> (#[trigger] rest[i]).email != email);
            lemma_email_count_zero(rest, email);
        }
    }
}

/// An email carried by no row is counted zero times.
proof fn lemma_email_count_zero(users: Seq<UserView>, email: Seq<char>)
    requires
        forall|i: int| 0 <= i < users.len() ==> (#[trigger] users[i]).email != email,
    ensures
        email_count(users, email) == 0,
    decreases users.len(),
{
    if users.len() > 0 {
        let rest = users.drop_last();
        assert(forall|i: int| 0 <= i < rest.len() ==> rest[i] == users[i]);
        lemma_email_count_zero(rest, email);
    }
}

/// An email carried by some row is counted at least once.
proof fn lemma_email_count_at_least_one(users: Seq<UserView>, email: Seq<char>, i: int)
    requires
        0 <= i < users.len(),
        users[i].email == email,
    ensures
        email_count(users, email) >= 1,
    decreases users.len(),
{
    if i + 1 < users.len() {
        let rest = users.drop_last();
        assert(rest[i] == users[i]);
        lemma_email_count_at_least_one(rest, email, i);
    }
}

/// Registration is idempotent: a second registration of the same email
/// returns the same row (in particular the same api key), changes
/// nothing, and the store holds exactly one user row for that email.
pub proof fn lemma_register_idempotent(
    v0: DbView,
    v1: DbView,
    v2: DbView,
    email: Seq<char>,
    u1: UserView,
    u2: UserView,
)
    requires
        v0.wf(),
        register_ok(v0, email, v1, u1),
        register_ok(v1, email, v2, u2),
    ensures
        u2 == u1,
        u2.apikey == u1.apikey,
        v2 == v1,
        email_count(v1.users, email) == 1,
{
    lemma_register_ok_wf(v0, email, v1, u1);
    assert(u1 =~= u2);
    let i = if v0.has_email(email) {
        v0.user_of(email)
    } else {
        v0.users.len() as int
    };
    assert(0 <= i < v1.users.len() && v1.users[i].email == email);
    assert(v1.has_email(email));
    lemma_email_count_at_least_one(v1.users, email, i);
    lemma_email_count_le_one(v1.users, email);
}

/// Whatever well-formed states two registrations of the same email run
/// against — in particular the interleavings of concurrent calls, which
/// the store serializes — they return the same api key: the one derived
/// from the email.
pub proof fn lemma_register_key_deterministic(
    pre1: DbView,
    post1: DbView,
    u1: UserView,
    pre2: DbView,
    post2: DbView,
    u2: UserView,
    email: Seq<char>,
)
    requires
        register_ok(pre1, email, post1, u1),
        register_ok(pre2, email, post2, u2),
    ensures
        u1.apikey == u2.apikey,
        u1.apikey == key_of(email),
{
}

/// After any successful registration the store holds exactly one user
/// row for the registered email.
pub proof fn lemma_register_one_row(pre: DbView, post: DbView, u: UserView, email: Seq<char>)
    requires
        pre.wf(),
        register_ok(pre, email, post, u),
    ensures
        email_count(post.users, email) == 1,
{
    lemma_register_ok_wf(pre, email, post, u);
    let i = if pre.has_email(email) {
        pre.user_of(email)
    } else {
        pre.users.len() as int
    };
    assert(0 <= i < post.users.len() && post.users[i].email == email);
    lemma_email_count_at_least_one(post.users, email, i);
    lemma_email_count_le_one(post.users, email);
}

/// Isolation: a coffee write under one key never changes what another
/// key's owner reads back.
pub proof fn lemma_isolation(
    pre: DbView,
    post: DbView,
    k1: Seq<char>,
    k2: Seq<char>,
    c: Coffee,
)
    requires
        pre.wf(),
        add_ok(pre, k1, c, post),
        pre.has_key(k2),
        k1 != k2,
    ensures
        post.owner_of(k2) == pre.owner_of(k2),
        coffees_of(post.events, post.owner_of(k2)) == coffees_of(pre.events, pre.owner_of(k2)),
{
    let i1 = pre.owner_of(k1);
    let i2 = pre.owner_of(k2);
    assert(0 <= i1 < pre.users.len() && pre.users[i1].apikey == k1);
    assert(0 <= i2 < pre.users.len() && pre.users[i2].apikey == k2);
    assert(i1 != i2);
    let j2 = post.owner_of(k2);
    assert(0 <= j2 < post.users.len() && post.users[j2].apikey == k2);
    assert(j2 == i2);
    lemma_coffees_of_push(pre.events, (EventView { owner: i1, coffee: c }), i2);
}

/// Round trip: a coffee write under a key appends exactly that event to
/// what the key's owner reads back, so the list after the write contains
/// it.
pub proof fn lemma_add_then_list(pre: DbView, post: DbView, key: Seq<char>, c: Coffee)
    requires
        pre.wf(),
        add_ok(pre, key, c, post),
    ensures
        post.owner_of(key) == pre.owner_of(key),
        coffees_of(post.events, post.owner_of(key)) == coffees_of(
            pre.events,
            pre.owner_of(key),
        ).push(c),
        coffees_of(post.events, post.owner_of(key)).contains(c),
{
    let i = pre.owner_of(key);
    assert(0 <= i < pre.users.len() && pre.users[i].apikey == key);
    let j = post.owner_of(key);
    assert(0 <= j < post.users.len() && post.users[j].apikey == key);
    assert(j == i);
    lemma_coffees_of_push(pre.events, (EventView { owner: i, coffee: c }), i);
    let listed = coffees_of(post.events, i);
    assert(listed.last() == c);
    assert(listed.contains(c));
}

/// A successful registration preserves well-formedness of the store.
pub proof fn lemma_register_ok_wf(pre: DbView, email: Seq<char>, post: DbView, u: UserView)
    requires
        pre.wf(),
        register_ok(pre, email, post, u),
    ensures
        post.wf(),
{
    if pre.has_email(email) {
    } else {
        assert(forall|j: int|
            0 <= j < pre.users.len() ==> (#[trigger] pre.users[j]).email != email);
        assert(forall|j: int|
            0 <= j < pre.users.len() ==> (#[trigger] pre.users[j]).apikey != key_of(email));
        assert(forall|j: int|
            0 <= j < pre.users.len() ==> post.users[j] == pre.users[j]);
        assert(post.users.last() == u);
    }
}

/// The index of the user row carrying `email`, if any.
fn find_by_email(users: &Vec<User>, email: &String) -> (r: Option<usize>)
    ensures
        match r {
            Some(i) => i < users@.len() && users@[i as int]@.email == email@,
            None => forall|j: int| 0 <= j < users@.len() ==> (#[trigger] users@[j])@.email
                != email@,
        },
{
    let n = users.len();
    let mut i: usize = 0;
    while i < n
        invariant
            n == users@.len(),
            i <= n,
            forall|j: int| 0 <= j < i ==> (#[trigger] users@[j])@.email != email@,
        decreases n - i,
    {
        if users[i].email == *email {
            return Some(i);
        }
        i += 1;
    }
    None
}

/// The index of the user row holding api key `key`, if any.
fn find_by_key(users: &Vec<User>, key: &String) -> (r: Option<usize>)
    ensures
        match r {
            Some(i) => i < users@.len() && users@[i as int]@.apikey == key@,
            None => forall|j: int| 0 <= j < users@.len() ==> (#[trigger] users@[j])@.apikey
                != key@,
        },
{
    let n = users.len();
    let mut i: usize = 0;
    while i < n
        invariant
            n == users@.len(),
            i <= n,
            forall|j: int| 0 <= j < i ==> (#[trigger] users@[j])@.apikey != key@,
        decreases n - i,
    {
        if users[i].apikey == *key {
            return Some(i);
        }
        i += 1;
    }
    None
}

} // verus!
