//! Confirming a subscription by its token.

use crate::storage::{
    lemma_confirm_idempotent, lemma_confirm_wf, lemma_resolve_token_some, resolve_token,
    StorageError, StoreState, SubscriptionToken,
};
use vstd::prelude::*;

verus! {

/// The query of a confirmation request.
pub struct Parameters {
    pub subscription_token: String,
}

/// A storage operation that ran off the request's thread was abandoned
/// before it finished.
#[derive(Clone, Copy, Debug, PartialEq, Eq, Structural)]
pub struct Canceled;

/// What a storage operation that ran off the request's thread came to: it
/// was abandoned, or it ran and storage answered.
pub open spec fn settled<T>(outcome: Result<Result<T, StorageError>, Canceled>) -> Result<
    T,
    StorageError,
> {
    match outcome {
        Ok(answer) => answer,
        Err(_) => Err(StorageError::SerializationFailure),
    }
}

/// The subscriber behind a token, given the rows that a lookup by token
/// loaded: the subscriber of the first row, or none.
pub open spec fn token_owner(rows: Seq<SubscriptionToken>) -> Option<u128> {
    if rows.len() == 0 {
        None
    } else {
        Some(rows[0].subscriber_id)
    }
}

/// Reads the outcome of the lookup of a token: the subscriber of the first
/// row that was loaded, or none; a storage failure is handed on, and an
/// abandoned lookup counts as a serialization failure.
pub fn get_subscriber_id_from_token(
    loaded: Result<Result<Vec<SubscriptionToken>, StorageError>, Canceled>,
) -> (found: Result<Option<u128>, StorageError>)
    ensures
        found == match settled(loaded) {
            Ok(rows) => Ok::<Option<u128>, StorageError>(token_owner(rows@)),
            Err(error) => Err(error),
        },
{
    match loaded {
        Ok(Ok(rows)) => if rows.len() == 0 {
            Ok(None)
        } else {
            Ok(Some(rows[0].subscriber_id))
        },
        Ok(Err(error)) => Err(error),
        Err(_) => Err(StorageError::SerializationFailure),
    }
}

/// Reads the outcome of marking a subscriber as confirmed. The number of
/// rows that changed does not matter: confirming again is a success too.
pub fn confirm_subscriber(updated: Result<Result<usize, StorageError>, Canceled>) -> (done: Result<
    (),
    StorageError,
>)
    ensures
        done == match settled(updated) {
            Ok(_) => Ok::<(), StorageError>(()),
            Err(error) => Err(error),
        },
{
    match updated {
        Ok(Ok(_)) => Ok(()),
        Ok(Err(error)) => Err(error),
        Err(_) => Err(StorageError::SerializationFailure),
    }
}

/// What the caller reports while a confirmation is under way.
pub enum ConfirmEvent {
    /// A request came in, with or without the token parameter.
    Requested(Option<Parameters>),
    /// The lookup of the token ended.
    Resolved(Result<Option<u128>, StorageError>),
    /// The marking of the subscriber ended.
    Marked(Result<(), StorageError>),
}

/// What the confirmation asks of the caller next.
pub enum ConfirmAction {
    /// Look up the subscriber behind this token.
    ResolveToken(String),
    /// Mark this subscriber as confirmed.
    MarkConfirmed(u128),
    /// Answer the request with this status.
    Respond(u16),
}

/// Whether `action` is what follows `event`.
///
/// A request without the token parameter is answered with 400; with it, the
/// token is looked up. A token that resolves to no subscriber is answered
/// with 401, one that resolves has its subscriber marked. A marked
/// subscriber is answered with 200. Every storage failure is answered with
/// 500.
pub open spec fn confirm_step(event: ConfirmEvent, action: ConfirmAction) -> bool {
    match event {
        ConfirmEvent::Requested(None) => action matches ConfirmAction::Respond(status) && status
            == 400,
        ConfirmEvent::Requested(Some(parameters)) => action matches ConfirmAction::ResolveToken(
            token,
        ) && token@ == parameters.subscription_token@,
        ConfirmEvent::Resolved(Err(_)) => action matches ConfirmAction::Respond(status) && status
            == 500,
        ConfirmEvent::Resolved(Ok(None)) => action matches ConfirmAction::Respond(status) && status
            == 401,
        ConfirmEvent::Resolved(Ok(Some(id))) => action matches ConfirmAction::MarkConfirmed(
            subscriber,
        ) && subscriber == id,
        ConfirmEvent::Marked(Err(_)) => action matches ConfirmAction::Respond(status) && status
            == 500,
        ConfirmEvent::Marked(Ok(())) => action matches ConfirmAction::Respond(status) && status
            == 200,
    }
}

/// One step of a confirmation: what to do after `event`.
pub fn confirm(event: ConfirmEvent) -> (action: ConfirmAction)
    ensures
        confirm_step(event, action),
{
    match event {
        ConfirmEvent::Requested(None) => ConfirmAction::Respond(400),
        ConfirmEvent::Requested(Some(parameters)) => ConfirmAction::ResolveToken(
            parameters.subscription_token,
        ),
        ConfirmEvent::Resolved(Err(_)) => ConfirmAction::Respond(500),
        ConfirmEvent::Resolved(Ok(None)) => ConfirmAction::Respond(401),
        ConfirmEvent::Resolved(Ok(Some(id))) => ConfirmAction::MarkConfirmed(id),
        ConfirmEvent::Marked(Err(_)) => ConfirmAction::Respond(500),
        ConfirmEvent::Marked(Ok(())) => ConfirmAction::Respond(200),
    }
}

/// Confirming by the same token twice: the token resolves to the same
/// subscriber both times, the subscriber is confirmed after the first time
/// and after the second, the second changes nothing, and both times the
/// subscriber is marked and the request answered with 200.
pub proof fn lemma_confirming_twice(state: StoreState, token: Seq<char>, id: u128)
    requires
        state.wf(),
        resolve_token(state.tokens, token) == Some(id),
    ensures
        ({
            let once = state.confirm(id);
            let twice = once.confirm(id);
            &&& once.wf()
            &&& once.is_confirmed(id)
            &&& resolve_token(once.tokens, token) == Some(id)
            &&& twice == once
            &&& twice.is_confirmed(id)
        }),
        forall|action: ConfirmAction|
            confirm_step(ConfirmEvent::Resolved(Ok(Some(id))), action) ==> (action
                matches ConfirmAction::MarkConfirmed(subscriber) && subscriber == id),
        forall|action: ConfirmAction|
            confirm_step(ConfirmEvent::Marked(Ok(())), action) ==> (action
                matches ConfirmAction::Respond(status) && status == 200),
{
    lemma_resolve_token_some(state.tokens, token);
    let k = choose|k: int|
        0 <= k < state.tokens.len() && (#[trigger] state.tokens[k]).token == token
            && state.tokens[k].subscriber_id == id;
    assert(crate::storage::find_subscriber(state.subscriptions, state.tokens[k].subscriber_id) is Some);
    lemma_confirm_wf(state, id);
    lemma_confirm_idempotent(state, id);
}

} // verus!
