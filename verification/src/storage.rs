//! The relational state that the workflows read and write, and the errors
//! that storage reports.

use crate::routes::subscriptions::{NewSubscription, PendingSubscription, PersistFailure, StoreTokenError};
use vstd::prelude::*;

verus! {

/// A storage failure, by the kind of constraint or fault behind it.
#[derive(Clone, Copy, Debug, PartialEq, Eq, Structural)]
pub enum StorageError {
    /// A key that must be unique is already present.
    UniqueViolation,
    /// A row refers to another row that does not exist.
    ForeignKeyViolation,
    /// The operation was abandoned before it finished.
    SerializationFailure,
    /// No connection could be had, or the store failed in another way.
    Unavailable,
}

/// Where a subscription stands. It begins pending and becomes confirmed;
/// it never goes back.
#[derive(Clone, Copy, Debug, PartialEq, Eq, Structural)]
pub enum SubscriptionStatus {
    PendingConfirmation,
    Confirmed,
}

impl SubscriptionStatus {
    /// The word under which storage keeps this status.
    pub fn as_str(&self) -> (word: &'static str)
        ensures
            word@ == match *self {
                SubscriptionStatus::PendingConfirmation => "pending_confirmation"@,
                SubscriptionStatus::Confirmed => "confirmed"@,
            },
    {
        match self {
            SubscriptionStatus::PendingConfirmation => "pending_confirmation",
            SubscriptionStatus::Confirmed => "confirmed",
        }
    }
}

/// A moment in time: seconds since the start of 1970 in UTC, and the
/// nanoseconds into that second.
#[derive(Clone, Copy, Debug, PartialEq, Eq, Structural)]
pub struct Timestamp {
    pub seconds: i64,
    pub nanos: u32,
}

/// The row that ties a confirmation token to the subscriber it was issued
/// for.
#[derive(Debug)]
pub struct SubscriptionToken {
    pub subscription_token: String,
    pub subscriber_id: u128,
}

/// The row of a user who may publish.
#[derive(Debug)]
pub struct User {
    pub user_id: u128,
    pub username: String,
    pub password_hash: String,
}

/// What a subscription row says.
pub struct SubscriptionRecord {
    pub id: u128,
    pub email: Seq<char>,
    pub name: Seq<char>,
    pub subscribed_at: Timestamp,
    pub status: SubscriptionStatus,
}

/// What a token row says.
pub struct TokenRecord {
    pub token: Seq<char>,
    pub subscriber_id: u128,
}

/// What a user row says.
pub struct UserRecord {
    pub user_id: u128,
    pub username: Seq<char>,
    pub password_hash: Seq<char>,
}

impl View for NewSubscription {
    type V = SubscriptionRecord;

    open spec fn view(&self) -> SubscriptionRecord {
        SubscriptionRecord {
            id: self.id,
            email: self.email@,
            name: self.name@,
            subscribed_at: self.subscribed_at,
            status: self.status,
        }
    }
}

impl View for SubscriptionToken {
    type V = TokenRecord;

    open spec fn view(&self) -> TokenRecord {
        TokenRecord { token: self.subscription_token@, subscriber_id: self.subscriber_id }
    }
}

impl View for User {
    type V = UserRecord;

    open spec fn view(&self) -> UserRecord {
        UserRecord {
            user_id: self.user_id,
            username: self.username@,
            password_hash: self.password_hash@,
        }
    }
}

/// The subscription under `id` among `rows`, if there is one.
pub open spec fn find_subscriber(rows: Seq<SubscriptionRecord>, id: u128) -> Option<
    SubscriptionRecord,
>
    decreases rows.len(),
{
    if rows.len() == 0 {
        None
    } else if rows.last().id == id {
        Some(rows.last())
    } else {
        find_subscriber(rows.drop_last(), id)
    }
}

/// The subscription under the address `email` among `rows`, if there is
/// one; the latest, where there are several.
pub open spec fn find_subscriber_with_email(rows: Seq<SubscriptionRecord>, email: Seq<char>) -> Option<
    SubscriptionRecord,
>
    decreases rows.len(),
{
    if rows.len() == 0 {
        None
    } else if rows.last().email == email {
        Some(rows.last())
    } else {
        find_subscriber_with_email(rows.drop_last(), email)
    }
}

/// The subscriber that `token` was issued for among `rows`, if it was
/// issued.
pub open spec fn resolve_token(rows: Seq<TokenRecord>, token: Seq<char>) -> Option<u128>
    decreases rows.len(),
{
    if rows.len() == 0 {
        None
    } else if rows.last().token == token {
        Some(rows.last().subscriber_id)
    } else {
        resolve_token(rows.drop_last(), token)
    }
}

/// The tokens among `rows` that were issued for the subscriber `id`, in the
/// order of the rows.
pub open spec fn tokens_of(rows: Seq<TokenRecord>, id: u128) -> Seq<Seq<char>>
    decreases rows.len(),
{
    if rows.len() == 0 {
        Seq::empty()
    } else if rows.last().subscriber_id == id {
        tokens_of(rows.drop_last(), id).push(rows.last().token)
    } else {
        tokens_of(rows.drop_last(), id)
    }
}

/// The user named `username` among `rows`, if there is one.
pub open spec fn find_user(rows: Seq<UserRecord>, username: Seq<char>) -> Option<UserRecord>
    decreases rows.len(),
{
    if rows.len() == 0 {
        None
    } else if rows.last().username == username {
        Some(rows.last())
    } else {
        find_user(rows.drop_last(), username)
    }
}

/// The user under `id` among `rows`, if there is one.
pub open spec fn find_user_by_id(rows: Seq<UserRecord>, id: u128) -> Option<UserRecord>
    decreases rows.len(),
{
    if rows.len() == 0 {
        None
    } else if rows.last().user_id == id {
        Some(rows.last())
    } else {
        find_user_by_id(rows.drop_last(), id)
    }
}

/// The addresses of the confirmed subscriptions among `rows`, in the order
/// of the rows.
pub open spec fn confirmed_emails(rows: Seq<SubscriptionRecord>) -> Seq<Seq<char>>
    decreases rows.len(),
{
    if rows.len() == 0 {
        Seq::empty()
    } else if rows.last().status == SubscriptionStatus::Confirmed {
        confirmed_emails(rows.drop_last()).push(rows.last().email)
    } else {
        confirmed_emails(rows.drop_last())
    }
}

/// `row` once the subscriber `id` is confirmed: confirmed if it is that
/// subscriber's, unchanged otherwise.
pub open spec fn confirm_row(row: SubscriptionRecord, id: u128) -> SubscriptionRecord {
    if row.id == id {
        SubscriptionRecord { status: SubscriptionStatus::Confirmed, ..row }
    } else {
        row
    }
}

/// `rows` once the subscriber `id` is confirmed.
pub open spec fn confirm_rows(rows: Seq<SubscriptionRecord>, id: u128) -> Seq<SubscriptionRecord> {
    Seq::new(rows.len(), |i: int| confirm_row(rows[i], id))
}

/// `row` once the user `id` has the password hash `hash`.
pub open spec fn rehash_row(row: UserRecord, id: u128, hash: Seq<char>) -> UserRecord {
    if row.user_id == id {
        UserRecord { password_hash: hash, ..row }
    } else {
        row
    }
}

/// The relational state: subscriptions, confirmation tokens and users, each
/// in the order in which the rows came.
pub struct StoreState {
    pub subscriptions: Seq<SubscriptionRecord>,
    pub tokens: Seq<TokenRecord>,
    pub users: Seq<UserRecord>,
}

impl StoreState {
    /// The state without any row.
    pub open spec fn empty() -> StoreState {
        StoreState { subscriptions: Seq::empty(), tokens: Seq::empty(), users: Seq::empty() }
    }

    /// What holds of every state: no two subscriptions share an id, no two
    /// rows hold the same token, every token was issued for a subscriber
    /// that exists, and no two users share an id or a name.
    pub open spec fn wf(self) -> bool {
        &&& forall|i: int, j: int|
            0 <= i < j < self.subscriptions.len() ==> (#[trigger] self.subscriptions[i]).id != (
            #[trigger] self.subscriptions[j]).id
        &&& forall|i: int, j: int|
            0 <= i < j < self.tokens.len() ==> (#[trigger] self.tokens[i]).token != (
            #[trigger] self.tokens[j]).token
        &&& forall|k: int|
            0 <= k < self.tokens.len() ==> find_subscriber(
                self.subscriptions,
                (#[trigger] self.tokens[k]).subscriber_id,
            ) is Some
        &&& forall|i: int, j: int|
            0 <= i < j < self.users.len() ==> (#[trigger] self.users[i]).user_id != (
            #[trigger] self.users[j]).user_id
        &&& forall|i: int, j: int|
            0 <= i < j < self.users.len() ==> (#[trigger] self.users[i]).username != (
            #[trigger] self.users[j]).username
    }

    /// The state with one more subscription.
    pub open spec fn insert_subscriber(self, row: SubscriptionRecord) -> StoreState {
        StoreState { subscriptions: self.subscriptions.push(row), ..self }
    }

    /// The state with one more token.
    pub open spec fn store_token(self, row: TokenRecord) -> StoreState {
        StoreState { tokens: self.tokens.push(row), ..self }
    }

    /// The state once the subscriber `id` is confirmed.
    pub open spec fn confirm(self, id: u128) -> StoreState {
        StoreState { subscriptions: confirm_rows(self.subscriptions, id), ..self }
    }

    /// The state with one more user.
    pub open spec fn insert_user(self, row: UserRecord) -> StoreState {
        StoreState { users: self.users.push(row), ..self }
    }

    /// The state once the user `id` has the password hash `hash`.
    pub open spec fn update_password(self, id: u128, hash: Seq<char>) -> StoreState {
        StoreState {
            users: Seq::new(self.users.len(), |i: int| rehash_row(self.users[i], id, hash)),
            ..self
        }
    }

    /// Whether the subscriber `id` is confirmed.
    pub open spec fn is_confirmed(self, id: u128) -> bool {
        find_subscriber(self.subscriptions, id) matches Some(row) && row.status
            == SubscriptionStatus::Confirmed
    }
}

/// No subscription is found under `id` exactly when no row has that id.
pub proof fn lemma_find_subscriber_none(rows: Seq<SubscriptionRecord>, id: u128)
    ensures
        find_subscriber(rows, id) is None <==> forall|i: int|
            0 <= i < rows.len() ==> (#[trigger] rows[i]).id != id,
    decreases rows.len(),
{
    if rows.len() > 0 {
        lemma_find_subscriber_none(rows.drop_last(), id);
        if rows.last().id != id {
            if find_subscriber(rows, id) is None {
                assert forall|i: int| 0 <= i < rows.len() implies (#[trigger] rows[i]).id != id by {
                    if i < rows.len() - 1 {
                        assert(rows.drop_last()[i] == rows[i]);
                    }
                }
            } else {
                let i = choose|i: int|
                    0 <= i < rows.drop_last().len() && (#[trigger] rows.drop_last()[i]).id == id;
                assert(rows[i].id == id);
            }
        }
    }
}

/// A subscription that is found is one of the rows and has the id asked
/// for.
pub proof fn lemma_find_subscriber_some(rows: Seq<SubscriptionRecord>, id: u128)
    ensures
        find_subscriber(rows, id) matches Some(row) ==> row.id == id && rows.contains(row),
    decreases rows.len(),
{
    if rows.len() > 0 {
        if rows.last().id == id {
            assert(rows[rows.len() - 1] == rows.last());
        } else {
            lemma_find_subscriber_some(rows.drop_last(), id);
            if find_subscriber(rows, id) is Some {
                let row = find_subscriber(rows, id)->Some_0;
                let i = choose|i: int| 0 <= i < rows.drop_last().len() && rows.drop_last()[i] == row;
                assert(rows[i] == row);
            }
        }
    }
}

/// No subscriber is found behind `token` exactly when no row holds it.
pub proof fn lemma_resolve_token_none(rows: Seq<TokenRecord>, token: Seq<char>)
    ensures
        resolve_token(rows, token) is None <==> forall|i: int|
            0 <= i < rows.len() ==> (#[trigger] rows[i]).token != token,
    decreases rows.len(),
{
    if rows.len() > 0 {
        lemma_resolve_token_none(rows.drop_last(), token);
        if rows.last().token != token {
            if resolve_token(rows, token) is None {
                assert forall|i: int| 0 <= i < rows.len() implies (#[trigger] rows[i]).token
                    != token by {
                    if i < rows.len() - 1 {
                        assert(rows.drop_last()[i] == rows[i]);
                    }
                }
            } else {
                let i = choose|i: int|
                    0 <= i < rows.drop_last().len() && (#[trigger] rows.drop_last()[i]).token
                        == token;
                assert(rows[i].token == token);
            }
        }
    }
}

/// A token that resolves stands in one of the rows, with the subscriber it
/// resolves to.
pub proof fn lemma_resolve_token_some(rows: Seq<TokenRecord>, token: Seq<char>)
    ensures
        resolve_token(rows, token) matches Some(id) ==> exists|k: int|
            0 <= k < rows.len() && (#[trigger] rows[k]).token == token && rows[k].subscriber_id
                == id,
    decreases rows.len(),
{
    if rows.len() > 0 {
        if rows.last().token == token {
            assert(rows[rows.len() - 1].token == token);
        } else {
            lemma_resolve_token_some(rows.drop_last(), token);
            if resolve_token(rows, token) is Some {
                let id = resolve_token(rows, token)->Some_0;
                let k = choose|k: int|
                    0 <= k < rows.drop_last().len() && (#[trigger] rows.drop_last()[k]).token
                        == token && rows.drop_last()[k].subscriber_id == id;
                assert(rows[k].token == token && rows[k].subscriber_id == id);
            }
        }
    }
}

/// Where no token was issued for a subscriber, the subscriber has no
/// tokens.
pub proof fn lemma_tokens_of_stranger(rows: Seq<TokenRecord>, id: u128)
    requires
        forall|i: int| 0 <= i < rows.len() ==> (#[trigger] rows[i]).subscriber_id != id,
    ensures
        tokens_of(rows, id) == Seq::<Seq<char>>::empty(),
    decreases rows.len(),
{
    if rows.len() > 0 {
        assert(rows[rows.len() - 1].subscriber_id != id);
        assert forall|i: int| 0 <= i < rows.drop_last().len() implies (
        #[trigger] rows.drop_last()[i]).subscriber_id != id by {
            assert(rows.drop_last()[i] == rows[i]);
        }
        lemma_tokens_of_stranger(rows.drop_last(), id);
    }
}

/// Confirming changes what is found under an id only in its status.
pub proof fn lemma_find_after_confirm(rows: Seq<SubscriptionRecord>, confirmed: u128, id: u128)
    ensures
        find_subscriber(confirm_rows(rows, confirmed), id) == match find_subscriber(rows, id) {
            Some(row) => Some(confirm_row(row, confirmed)),
            None => None,
        },
    decreases rows.len(),
{
    if rows.len() > 0 {
        assert(confirm_rows(rows, confirmed).drop_last() =~= confirm_rows(
            rows.drop_last(),
            confirmed,
        ));
        lemma_find_after_confirm(rows.drop_last(), confirmed, id);
    }
}

/// A token that was stored resolves to the subscriber it was stored for.
pub proof fn lemma_resolve_after_store(state: StoreState, row: TokenRecord)
    ensures
        resolve_token(state.store_token(row).tokens, row.token) == Some(row.subscriber_id),
{
}

/// Storing a token leaves every other token resolving as before.
pub proof fn lemma_resolve_other_after_store(state: StoreState, row: TokenRecord, other: Seq<char>)
    requires
        other != row.token,
    ensures
        resolve_token(state.store_token(row).tokens, other) == resolve_token(state.tokens, other),
{
    assert(state.tokens.push(row).drop_last() =~= state.tokens);
}

/// A subscription that was inserted is found under its id; every other id
/// finds what it found before.
pub proof fn lemma_find_after_insert(state: StoreState, row: SubscriptionRecord, id: u128)
    ensures
        find_subscriber(state.insert_subscriber(row).subscriptions, id) == if id == row.id {
            Some(row)
        } else {
            find_subscriber(state.subscriptions, id)
        },
{
    assert(state.subscriptions.push(row).drop_last() =~= state.subscriptions);
}

/// Inserting a subscription under a new id keeps the state well-formed.
pub proof fn lemma_insert_subscriber_wf(state: StoreState, row: SubscriptionRecord)
    requires
        state.wf(),
        find_subscriber(state.subscriptions, row.id) is None,
    ensures
        state.insert_subscriber(row).wf(),
{
    let after = state.insert_subscriber(row);
    lemma_find_subscriber_none(state.subscriptions, row.id);
    assert forall|k: int| 0 <= k < after.tokens.len() implies find_subscriber(
        after.subscriptions,
        (#[trigger] after.tokens[k]).subscriber_id,
    ) is Some by {
        lemma_find_after_insert(state, row, after.tokens[k].subscriber_id);
    }
}

/// Storing a new token for a subscriber that exists keeps the state
/// well-formed.
pub proof fn lemma_store_token_wf(state: StoreState, row: TokenRecord)
    requires
        state.wf(),
        resolve_token(state.tokens, row.token) is None,
        find_subscriber(state.subscriptions, row.subscriber_id) is Some,
    ensures
        state.store_token(row).wf(),
{
    lemma_resolve_token_none(state.tokens, row.token);
}

/// Confirming a subscriber keeps the state well-formed.
pub proof fn lemma_confirm_wf(state: StoreState, id: u128)
    requires
        state.wf(),
    ensures
        state.confirm(id).wf(),
{
    let after = state.confirm(id);
    assert forall|k: int| 0 <= k < after.tokens.len() implies find_subscriber(
        after.subscriptions,
        (#[trigger] after.tokens[k]).subscriber_id,
    ) is Some by {
        lemma_find_after_confirm(state.subscriptions, id, after.tokens[k].subscriber_id);
    }
}

/// Confirming is idempotent: a second confirmation of the same subscriber
/// changes nothing, and after either the subscriber, if there is one, is
/// confirmed.
pub proof fn lemma_confirm_idempotent(state: StoreState, id: u128)
    ensures
        state.confirm(id).confirm(id) == state.confirm(id),
        find_subscriber(state.subscriptions, id) is Some ==> state.confirm(id).is_confirmed(id),
{
    assert(confirm_rows(confirm_rows(state.subscriptions, id), id) =~= confirm_rows(
        state.subscriptions,
        id,
    ));
    lemma_find_after_confirm(state.subscriptions, id, id);
    lemma_find_subscriber_some(state.subscriptions, id);
}

/// A subscription never goes back and never goes away: whichever single
/// change is made to the state, a subscriber that was there is there after
/// it, and one that was confirmed is confirmed after it.
pub proof fn lemma_status_only_advances(
    state: StoreState,
    id: u128,
    inserted: SubscriptionRecord,
    stored: TokenRecord,
    confirmed: u128,
    user: UserRecord,
    rehashed: u128,
    hash: Seq<char>,
)
    requires
        find_subscriber(state.subscriptions, inserted.id) is None,
    ensures
        find_subscriber(state.subscriptions, id) is Some ==> {
            &&& find_subscriber(state.insert_subscriber(inserted).subscriptions, id) is Some
            &&& find_subscriber(state.store_token(stored).subscriptions, id) is Some
            &&& find_subscriber(state.confirm(confirmed).subscriptions, id) is Some
            &&& find_subscriber(state.insert_user(user).subscriptions, id) is Some
            &&& find_subscriber(state.update_password(rehashed, hash).subscriptions, id) is Some
        },
        state.is_confirmed(id) ==> {
            &&& state.insert_subscriber(inserted).is_confirmed(id)
            &&& state.store_token(stored).is_confirmed(id)
            &&& state.confirm(confirmed).is_confirmed(id)
            &&& state.insert_user(user).is_confirmed(id)
            &&& state.update_password(rehashed, hash).is_confirmed(id)
        },
{
    lemma_find_after_insert(state, inserted, id);
    lemma_find_after_confirm(state.subscriptions, confirmed, id);
}

/// No user is found under a name exactly when no row has that name.
pub proof fn lemma_find_user_none(rows: Seq<UserRecord>, username: Seq<char>)
    ensures
        find_user(rows, username) is None <==> forall|i: int|
            0 <= i < rows.len() ==> (#[trigger] rows[i]).username != username,
    decreases rows.len(),
{
    if rows.len() > 0 {
        lemma_find_user_none(rows.drop_last(), username);
        if rows.last().username != username {
            if find_user(rows, username) is None {
                assert forall|i: int| 0 <= i < rows.len() implies (#[trigger] rows[i]).username
                    != username by {
                    if i < rows.len() - 1 {
                        assert(rows.drop_last()[i] == rows[i]);
                    }
                }
            } else {
                let i = choose|i: int|
                    0 <= i < rows.drop_last().len() && (#[trigger] rows.drop_last()[i]).username
                        == username;
                assert(rows[i].username == username);
            }
        }
    }
}

/// No user is found under an id exactly when no row has that id.
pub proof fn lemma_find_user_by_id_none(rows: Seq<UserRecord>, id: u128)
    ensures
        find_user_by_id(rows, id) is None <==> forall|i: int|
            0 <= i < rows.len() ==> (#[trigger] rows[i]).user_id != id,
    decreases rows.len(),
{
    if rows.len() > 0 {
        lemma_find_user_by_id_none(rows.drop_last(), id);
        if rows.last().user_id != id {
            if find_user_by_id(rows, id) is None {
                assert forall|i: int| 0 <= i < rows.len() implies (#[trigger] rows[i]).user_id
                    != id by {
                    if i < rows.len() - 1 {
                        assert(rows.drop_last()[i] == rows[i]);
                    }
                }
            } else {
                let i = choose|i: int|
                    0 <= i < rows.drop_last().len() && (#[trigger] rows.drop_last()[i]).user_id
                        == id;
                assert(rows[i].user_id == id);
            }
        }
    }
}

/// Storing one subscription with its token, where both are new, comes to
/// inserting the one and then storing the other, and keeps the state
/// well-formed.
pub proof fn lemma_persist_wf(state: StoreState, row: SubscriptionRecord, token: TokenRecord)
    requires
        state.wf(),
        find_subscriber(state.subscriptions, row.id) is None,
        resolve_token(state.tokens, token.token) is None,
        token.subscriber_id == row.id || find_subscriber(state.subscriptions, token.subscriber_id)
            is Some,
    ensures
        state.insert_subscriber(row).store_token(token).wf(),
{
    lemma_insert_subscriber_wf(state, row);
    lemma_find_after_insert(state, row, token.subscriber_id);
    lemma_store_token_wf(state.insert_subscriber(row), token);
}

/// The texts that the strings of `rows` hold.
pub open spec fn texts(rows: Seq<String>) -> Seq<Seq<char>> {
    rows.map_values(|text: String| text@)
}

/// User id and password hash of the user that `found` holds, as a lookup by
/// user name hands them on.
pub open spec fn credentials_of(found: Option<UserRecord>) -> Option<(u128, Seq<char>)> {
    match found {
        Some(user) => Some((user.user_id, user.password_hash)),
        None => None,
    }
}

impl NewSubscription {
    /// A second row that says the same.
    pub fn duplicate(&self) -> (copy: Self)
        ensures
            copy@ == self@,
    {
        NewSubscription {
            id: self.id,
            email: self.email.clone(),
            name: self.name.clone(),
            subscribed_at: self.subscribed_at,
            status: self.status,
        }
    }
}

/// Subscriptions, tokens and users held in memory: the relational state
/// that the workflows act on, with the constraints that storage enforces.
pub struct Store {
    subscriptions: Vec<NewSubscription>,
    tokens: Vec<SubscriptionToken>,
    users: Vec<User>,
}

impl View for Store {
    type V = StoreState;

    closed spec fn view(&self) -> StoreState {
        StoreState {
            subscriptions: self.subscriptions@.map_values(|row: NewSubscription| row@),
            tokens: self.tokens@.map_values(|row: SubscriptionToken| row@),
            users: self.users@.map_values(|row: User| row@),
        }
    }
}

impl Store {
    /// A store without any row.
    pub fn new() -> (store: Self)
        ensures
            store@ == StoreState::empty(),
            store@.wf(),
    {
        let store = Store { subscriptions: Vec::new(), tokens: Vec::new(), users: Vec::new() };
        assert(store@.subscriptions =~= Seq::empty());
        assert(store@.tokens =~= Seq::empty());
        assert(store@.users =~= Seq::empty());
        store
    }

    /// The subscription under `id`, if there is one.
    pub fn find_subscriber_by_id(&self, id: u128) -> (found: Option<NewSubscription>)
        ensures
            match found {
                Some(row) => find_subscriber(self@.subscriptions, id) == Some(row@),
                None => find_subscriber(self@.subscriptions, id) is None,
            },
    {
        let ghost rows = self@.subscriptions;
        let mut i: usize = self.subscriptions.len();
        assert(rows.take(i as int) =~= rows);
        while i > 0
            invariant
                rows == self@.subscriptions,
                i <= self.subscriptions@.len(),
                find_subscriber(rows, id) == find_subscriber(rows.take(i as int), id),
            decreases i,
        {
            i = i - 1;
            assert(rows.take(i + 1).last() == self.subscriptions@[i as int]@);
            assert(rows.take(i + 1).drop_last() =~= rows.take(i as int));
            if self.subscriptions[i].id == id {
                return Some(self.subscriptions[i].duplicate());
            }
        }
        None
    }

    /// The subscription under the address `email`, if there is one; the
    /// latest, where there are several.
    pub fn find_subscriber_by_email(&self, email: &str) -> (found: Option<NewSubscription>)
        ensures
            match found {
                Some(row) => find_subscriber_with_email(self@.subscriptions, email@) == Some(row@),
                None => find_subscriber_with_email(self@.subscriptions, email@) is None,
            },
    {
        let wanted = email.to_owned();
        let ghost rows = self@.subscriptions;
        let mut i: usize = self.subscriptions.len();
        assert(rows.take(i as int) =~= rows);
        while i > 0
            invariant
                rows == self@.subscriptions,
                wanted@ == email@,
                i <= self.subscriptions@.len(),
                find_subscriber_with_email(rows, email@) == find_subscriber_with_email(
                    rows.take(i as int),
                    email@,
                ),
            decreases i,
        {
            i = i - 1;
            assert(rows.take(i + 1).last() == self.subscriptions@[i as int]@);
            assert(rows.take(i + 1).drop_last() =~= rows.take(i as int));
            if self.subscriptions[i].email == wanted {
                return Some(self.subscriptions[i].duplicate());
            }
        }
        None
    }

    /// The subscriber that `token` was issued for, if it was issued.
    pub fn resolve(&self, token: &str) -> (found: Option<u128>)
        ensures
            found == resolve_token(self@.tokens, token@),
    {
        let wanted = token.to_owned();
        let ghost rows = self@.tokens;
        let mut i: usize = self.tokens.len();
        assert(rows.take(i as int) =~= rows);
        while i > 0
            invariant
                rows == self@.tokens,
                wanted@ == token@,
                i <= self.tokens@.len(),
                resolve_token(rows, token@) == resolve_token(rows.take(i as int), token@),
            decreases i,
        {
            i = i - 1;
            assert(rows.take(i + 1).last() == self.tokens@[i as int]@);
            assert(rows.take(i + 1).drop_last() =~= rows.take(i as int));
            if self.tokens[i].subscription_token == wanted {
                return Some(self.tokens[i].subscriber_id);
            }
        }
        None
    }

    /// Inserts a subscription. An id that is taken is a unique violation,
    /// and the store stays as it was.
    pub fn insert_subscriber(&mut self, row: NewSubscription) -> (inserted: Result<
        (),
        StorageError,
    >)
        requires
            old(self)@.wf(),
        ensures
            final(self)@.wf(),
            match find_subscriber(old(self)@.subscriptions, row.id) {
                None => inserted is Ok && final(self)@ == old(self)@.insert_subscriber(row@),
                Some(_) => inserted == Err::<(), StorageError>(StorageError::UniqueViolation)
                    && final(self)@ == old(self)@,
            },
    {
        if self.find_subscriber_by_id(row.id).is_some() {
            return Err(StorageError::UniqueViolation);
        }
        proof {
            lemma_insert_subscriber_wf(self@, row@);
        }
        let ghost before = self@;
        self.subscriptions.push(row);
        assert(self@.subscriptions =~= before.subscriptions.push(row@));
        Ok(())
    }

    /// Stores a token. A token that is already stored is a unique
    /// violation, a subscriber that does not exist a foreign-key violation;
    /// the store then stays as it was.
    pub fn store_token(&mut self, row: SubscriptionToken) -> (stored: Result<(), StorageError>)
        requires
            old(self)@.wf(),
        ensures
            final(self)@.wf(),
            stored == if resolve_token(old(self)@.tokens, row@.token) is Some {
                Err::<(), StorageError>(StorageError::UniqueViolation)
            } else if find_subscriber(old(self)@.subscriptions, row.subscriber_id) is None {
                Err(StorageError::ForeignKeyViolation)
            } else {
                Ok(())
            },
            final(self)@ == if stored is Ok {
                old(self)@.store_token(row@)
            } else {
                old(self)@
            },
    {
        if self.resolve(row.subscription_token.as_str()).is_some() {
            return Err(StorageError::UniqueViolation);
        }
        if self.find_subscriber_by_id(row.subscriber_id).is_none() {
            return Err(StorageError::ForeignKeyViolation);
        }
        proof {
            lemma_store_token_wf(self@, row@);
        }
        let ghost before = self@;
        self.tokens.push(row);
        assert(self@.tokens =~= before.tokens.push(row@));
        Ok(())
    }

    /// Marks the subscriber `id` as confirmed and says how many rows that
    /// changed or left confirmed.
    pub fn confirm(&mut self, id: u128) -> (matched: usize)
        requires
            old(self)@.wf(),
        ensures
            final(self)@.wf(),
            final(self)@ == old(self)@.confirm(id),
            matched == if find_subscriber(old(self)@.subscriptions, id) is Some {
                1usize
            } else {
                0usize
            },
    {
        let ghost before = self@;
        proof {
            lemma_confirm_wf(before, id);
            lemma_find_subscriber_none(before.subscriptions, id);
        }
        let mut matched: usize = 0;
        let mut i: usize = 0;
        while i < self.subscriptions.len()
            invariant
                before.wf(),
                i <= self.subscriptions@.len(),
                self.subscriptions@.len() == before.subscriptions.len(),
                self.tokens == old(self).tokens,
                self.users == old(self).users,
                before == old(self)@,
                forall|j: int|
                    0 <= j < i ==> (#[trigger] self.subscriptions@[j])@ == confirm_row(
                        before.subscriptions[j],
                        id,
                    ),
                forall|j: int|
                    i <= j < self.subscriptions@.len() ==> (#[trigger] self.subscriptions@[j])@
                        == before.subscriptions[j],
                matched <= 1,
                matched == 0 <==> forall|j: int|
                    0 <= j < i ==> (#[trigger] before.subscriptions[j]).id != id,
            decreases self.subscriptions@.len() - i,
        {
            if self.subscriptions[i].id == id {
                let row = self.subscriptions[i].duplicate();
                self.subscriptions.set(
                    i,
                    NewSubscription { status: SubscriptionStatus::Confirmed, ..row },
                );
                proof {
                    if matched == 1 {
                        let j = choose|j: int|
                            0 <= j < i && (#[trigger] before.subscriptions[j]).id == id;
                        assert(before.subscriptions[i as int].id == id);
                    }
                }
                matched = 1;
            }
            i = i + 1;
        }
        assert(self@.subscriptions =~= confirm_rows(before.subscriptions, id));
        matched
    }

    /// The addresses of the confirmed subscribers, in the order in which
    /// they subscribed.
    pub fn list_confirmed_emails(&self) -> (emails: Vec<String>)
        ensures
            texts(emails@) == confirmed_emails(self@.subscriptions),
    {
        let ghost rows = self@.subscriptions;
        let mut emails: Vec<String> = Vec::new();
        let mut i: usize = 0;
        assert(texts(emails@) =~= Seq::empty());
        assert(rows.take(0) =~= Seq::empty());
        while i < self.subscriptions.len()
            invariant
                rows == self@.subscriptions,
                i <= self.subscriptions@.len(),
                texts(emails@) == confirmed_emails(rows.take(i as int)),
            decreases self.subscriptions@.len() - i,
        {
            assert(rows.take(i + 1).last() == self.subscriptions@[i as int]@);
            assert(rows.take(i + 1).drop_last() =~= rows.take(i as int));
            if self.subscriptions[i].status == SubscriptionStatus::Confirmed {
                let ghost earlier = emails@;
                let email = self.subscriptions[i].email.clone();
                emails.push(email);
                assert(texts(emails@) =~= texts(earlier).push(email@));
            }
            i = i + 1;
        }
        assert(rows.take(i as int) =~= rows);
        emails
    }

    /// The rows that a lookup by user name loads: user id and password hash
    /// of the user of that name, or no row.
    pub fn find_user_by_username(&self, username: &str) -> (loaded: Vec<(u128, String)>)
        ensures
            match credentials_of(find_user(self@.users, username@)) {
                None => loaded@.len() == 0,
                Some((id, hash)) => loaded@.len() == 1 && loaded@[0].0 == id && loaded@[0].1@
                    == hash,
            },
    {
        let wanted = username.to_owned();
        let ghost rows = self@.users;
        let mut i: usize = self.users.len();
        assert(rows.take(i as int) =~= rows);
        while i > 0
            invariant
                rows == self@.users,
                wanted@ == username@,
                i <= self.users@.len(),
                find_user(rows, username@) == find_user(rows.take(i as int), username@),
            decreases i,
        {
            i = i - 1;
            assert(rows.take(i + 1).last() == self.users@[i as int]@);
            assert(rows.take(i + 1).drop_last() =~= rows.take(i as int));
            if self.users[i].username == wanted {
                let mut loaded: Vec<(u128, String)> = Vec::new();
                loaded.push((self.users[i].user_id, self.users[i].password_hash.clone()));
                return loaded;
            }
        }
        Vec::new()
    }

    /// Stores a new subscription and its token in one transaction: both
    /// rows are stored, or the store stays as it was and the failure says
    /// which row was refused.
    pub fn persist_subscription(&mut self, pending: &PendingSubscription) -> (persisted: Result<
        (),
        PersistFailure,
    >)
        requires
            old(self)@.wf(),
        ensures
            final(self)@.wf(),
            persisted == persist_outcome(old(self)@, pending.subscription@, pending.token@),
            final(self)@ == if persisted is Ok {
                old(self)@.insert_subscriber(pending.subscription@).store_token(pending.token@)
            } else {
                old(self)@
            },
    {
        let ghost before = self@;
        if let Err(error) = self.insert_subscriber(pending.subscription.duplicate()) {
            return Err(PersistFailure::Subscriber(error));
        }
        proof {
            lemma_find_after_insert(before, pending.subscription@, pending.token.subscriber_id);
        }
        let token = SubscriptionToken {
            subscription_token: pending.token.subscription_token.clone(),
            subscriber_id: pending.token.subscriber_id,
        };
        match self.store_token(token) {
            Ok(()) => Ok(()),
            Err(error) => {
                let ghost inserted = self@.subscriptions;
                assert(inserted == before.subscriptions.push(pending.subscription@));
                self.subscriptions.pop();
                assert(self@.subscriptions =~= inserted.drop_last());
                assert(inserted.drop_last() =~= before.subscriptions);
                Err(PersistFailure::Token(StoreTokenError(error)))
            },
        }
    }

    /// Inserts a user. An id or a name that is taken is a unique violation,
    /// and the store stays as it was.
    pub fn insert_user(&mut self, user: User) -> (inserted: Result<(), StorageError>)
        requires
            old(self)@.wf(),
        ensures
            final(self)@.wf(),
            inserted == if find_user(old(self)@.users, user.username@) is Some || find_user_by_id(
                old(self)@.users,
                user.user_id,
            ) is Some {
                Err::<(), StorageError>(StorageError::UniqueViolation)
            } else {
                Ok(())
            },
            final(self)@ == if inserted is Ok {
                old(self)@.insert_user(user@)
            } else {
                old(self)@
            },
    {
        if self.find_user_by_username(user.username.as_str()).len() > 0 {
            return Err(StorageError::UniqueViolation);
        }
        if self.find_username(user.user_id).is_some() {
            return Err(StorageError::UniqueViolation);
        }
        let ghost before = self@;
        proof {
            lemma_find_user_none(before.users, user.username@);
            lemma_find_user_by_id_none(before.users, user.user_id);
        }
        self.users.push(user);
        assert(self@.users =~= before.users.push(user@));
        Ok(())
    }

    /// The name of the user under `id`, if there is one.
    pub fn find_username(&self, id: u128) -> (found: Option<String>)
        ensures
            match found {
                Some(name) => find_user_by_id(self@.users, id) matches Some(user) && user.username
                    == name@,
                None => find_user_by_id(self@.users, id) is None,
            },
    {
        let ghost rows = self@.users;
        let mut i: usize = self.users.len();
        assert(rows.take(i as int) =~= rows);
        while i > 0
            invariant
                rows == self@.users,
                i <= self.users@.len(),
                find_user_by_id(rows, id) == find_user_by_id(rows.take(i as int), id),
            decreases i,
        {
            i = i - 1;
            assert(rows.take(i + 1).last() == self.users@[i as int]@);
            assert(rows.take(i + 1).drop_last() =~= rows.take(i as int));
            if self.users[i].user_id == id {
                return Some(self.users[i].username.clone());
            }
        }
        None
    }

    /// Gives the user `id` the password hash `hash` and says how many rows
    /// that touched.
    pub fn update_password(&mut self, id: u128, hash: String) -> (matched: usize)
        requires
            old(self)@.wf(),
        ensures
            final(self)@.wf(),
            final(self)@ == old(self)@.update_password(id, hash@),
            matched == if find_user_by_id(old(self)@.users, id) is Some {
                1usize
            } else {
                0usize
            },
    {
        let ghost before = self@;
        proof {
            lemma_find_user_by_id_none(before.users, id);
        }
        let mut matched: usize = 0;
        let mut i: usize = 0;
        while i < self.users.len()
            invariant
                before.wf(),
                i <= self.users@.len(),
                self.users@.len() == before.users.len(),
                self.tokens == old(self).tokens,
                self.subscriptions == old(self).subscriptions,
                before == old(self)@,
                forall|j: int|
                    0 <= j < i ==> (#[trigger] self.users@[j])@ == rehash_row(
                        before.users[j],
                        id,
                        hash@,
                    ),
                forall|j: int|
                    i <= j < self.users@.len() ==> (#[trigger] self.users@[j])@ == before.users[j],
                matched <= 1,
                matched == 0 <==> forall|j: int|
                    0 <= j < i ==> (#[trigger] before.users[j]).user_id != id,
            decreases self.users@.len() - i,
        {
            if self.users[i].user_id == id {
                let username = self.users[i].username.clone();
                self.users.set(i, User { user_id: id, username, password_hash: hash.clone() });
                proof {
                    if matched == 1 {
                        let j = choose|j: int| 0 <= j < i && (#[trigger] before.users[j]).user_id == id;
                        assert(before.users[i as int].user_id == id);
                    }
                }
                matched = 1;
            }
            i = i + 1;
        }
        assert(self@.users =~= before.update_password(id, hash@).users);
        assert forall|a: int, b: int| 0 <= a < b < self@.users.len() implies (
        #[trigger] self@.users[a]).user_id != (#[trigger] self@.users[b]).user_id && self@.users[a].username
            != self@.users[b].username by {
            assert(before.users[a].user_id != before.users[b].user_id);
            assert(before.users[a].username != before.users[b].username);
        }
        matched
    }
}

/// How storing one subscription with its token ends: refused where the
/// subscriber's id is taken, refused where the token is taken or its
/// subscriber does not exist, stored otherwise.
pub open spec fn persist_outcome(
    state: StoreState,
    row: SubscriptionRecord,
    token: TokenRecord,
) -> Result<(), PersistFailure> {
    if find_subscriber(state.subscriptions, row.id) is Some {
        Err(PersistFailure::Subscriber(StorageError::UniqueViolation))
    } else if resolve_token(state.tokens, token.token) is Some {
        Err(PersistFailure::Token(StoreTokenError(StorageError::UniqueViolation)))
    } else if token.subscriber_id != row.id && find_subscriber(
        state.subscriptions,
        token.subscriber_id,
    ) is None {
        Err(PersistFailure::Token(StoreTokenError(StorageError::ForeignKeyViolation)))
    } else {
        Ok(())
    }
}

} // verus!
