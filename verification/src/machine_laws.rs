//! Laws of the `authenticate()` machine, proved over whole runs.
//!
//! A run is a sequence of states, events and actions in which every
//! transition satisfies [`step_ok`]. The lemmas here state the refresh
//! policy (one refresh for an expired record with a refresh token, none for
//! a record without an expiry), the CSRF policy (a mismatched state writes
//! nothing and ends in `CsrfMismatch`), the fail-fast policy on a redirect
//! without `code` or `state` (no exchange is ever requested), and the
//! non-fatality of refresh and user-info failures.

use vstd::prelude::*;
use crate::authenticator::OAuthConfig;
use crate::credentials::{Credentials, parse_credentials_text};
use crate::machine::{AuthState, AuthEvent, AuthAction, AuthError, step_ok, finish_ok};
use crate::token_response::parse_token_response_text;

verus! {

/// A whole run of the machine: one more state than events, one action per
/// event, every transition allowed by `step_ok`.
pub open spec fn valid_trace(
    cfg: OAuthConfig,
    states: Seq<AuthState>,
    events: Seq<AuthEvent>,
    actions: Seq<AuthAction>,
) -> bool {
    &&& states.len() == events.len() + 1
    &&& actions.len() == events.len()
    &&& forall|i: int|
        0 <= i < events.len() ==> #[trigger] step_ok(
            cfg,
            states[i],
            events[i],
            states[i + 1],
            actions[i],
        )
}

/// How far along the flow a state is; every transition climbs, and the two
/// terminal states stay put.
pub open spec fn state_rank(s: AuthState) -> int {
    match s {
        AuthState::AwaitRead => 0,
        AuthState::AwaitPort => 1,
        AuthState::AwaitRedirect { .. } => 2,
        AuthState::AwaitExchange => 3,
        AuthState::AwaitLoginWrite { .. } => 4,
        AuthState::AwaitUserInfo { .. } => 5,
        AuthState::AwaitEnrichWrite { .. } => 6,
        AuthState::AwaitRefresh { .. } => 7,
        AuthState::AwaitRefreshWrite { .. } => 8,
        AuthState::Done { .. } => 9,
        AuthState::Failed { .. } => 10,
    }
}

/// One transition climbs the rank, except out of a terminal state, which
/// stays exactly where it is.
pub proof fn lemma_step_rank(
    cfg: OAuthConfig,
    pre: AuthState,
    event: AuthEvent,
    post: AuthState,
    action: AuthAction,
)
    requires
        step_ok(cfg, pre, event, post, action),
    ensures
        state_rank(post) > state_rank(pre) || (state_rank(pre) >= 9 && state_rank(post)
            == state_rank(pre)),
{
}

/// Ranks never fall along a run.
pub proof fn lemma_rank_chain(
    cfg: OAuthConfig,
    states: Seq<AuthState>,
    events: Seq<AuthEvent>,
    actions: Seq<AuthAction>,
    i: int,
    j: int,
)
    requires
        valid_trace(cfg, states, events, actions),
        0 <= i <= j < states.len(),
    ensures
        state_rank(states[i]) <= state_rank(states[j]),
    decreases j - i,
{
    if i < j {
        assert(step_ok(cfg, states[j - 1], events[j - 1], states[(j - 1) + 1], actions[j - 1]));
        lemma_step_rank(cfg, states[j - 1], events[j - 1], states[j], actions[j - 1]);
        lemma_rank_chain(cfg, states, events, actions, i, j - 1);
    }
}

/// A failure is final: the machine stays in it to the end of the run.
pub proof fn lemma_failed_absorbing(
    cfg: OAuthConfig,
    states: Seq<AuthState>,
    events: Seq<AuthEvent>,
    actions: Seq<AuthAction>,
    k: int,
    e: AuthError,
    j: int,
)
    requires
        valid_trace(cfg, states, events, actions),
        0 <= k <= j < states.len(),
        states[k] == (AuthState::Failed { error: e }),
    ensures
        states[j] == (AuthState::Failed { error: e }),
    decreases j - k,
{
    if k < j {
        lemma_failed_absorbing(cfg, states, events, actions, k, e, j - 1);
        assert(step_ok(cfg, states[j - 1], events[j - 1], states[(j - 1) + 1], actions[j - 1]));
    }
}

/// A refresh is only ever requested while reading the store.
pub proof fn lemma_refresh_origin(
    cfg: OAuthConfig,
    pre: AuthState,
    event: AuthEvent,
    post: AuthState,
    action: AuthAction,
)
    requires
        step_ok(cfg, pre, event, post, action),
        action is RefreshRequest,
    ensures
        pre is AwaitRead,
{
}

/// An exchange is only ever requested from the redirect.
pub proof fn lemma_exchange_origin(
    cfg: OAuthConfig,
    pre: AuthState,
    event: AuthEvent,
    post: AuthState,
    action: AuthAction,
)
    requires
        step_ok(cfg, pre, event, post, action),
        action is ExchangeRequest,
    ensures
        pre is AwaitRedirect,
{
}

/// The store is only ever written after a refresh answer, an exchange
/// answer, or a user-info answer.
pub proof fn lemma_write_origin(
    cfg: OAuthConfig,
    pre: AuthState,
    event: AuthEvent,
    post: AuthState,
    action: AuthAction,
)
    requires
        step_ok(cfg, pre, event, post, action),
        action is WriteStore,
    ensures
        pre is AwaitRefresh || pre is AwaitExchange || pre is AwaitUserInfo,
{
}

/// Landing in `Failed { CsrfMismatch }` comes from the redirect check (or
/// from already being there).
pub proof fn lemma_csrf_post_origin(
    cfg: OAuthConfig,
    pre: AuthState,
    event: AuthEvent,
    post: AuthState,
    action: AuthAction,
)
    requires
        step_ok(cfg, pre, event, post, action),
        post == (AuthState::Failed { error: AuthError::CsrfMismatch }),
    ensures
        pre is AwaitRedirect || pre == (AuthState::Failed { error: AuthError::CsrfMismatch }),
{
}

/// Landing in `Failed { MissingCodeOrState }` comes from the redirect check
/// (or from already being there).
pub proof fn lemma_missing_post_origin(
    cfg: OAuthConfig,
    pre: AuthState,
    event: AuthEvent,
    post: AuthState,
    action: AuthAction,
)
    requires
        step_ok(cfg, pre, event, post, action),
        post == (AuthState::Failed { error: AuthError::MissingCodeOrState }),
    ensures
        pre is AwaitRedirect || pre == (AuthState::Failed { error: AuthError::MissingCodeOrState }),
{
}

/// In any run that reaches `Failed { e }` for a redirect-check error `e`,
/// some step goes there straight from the redirect.
proof fn lemma_first_redirect_failure(
    cfg: OAuthConfig,
    states: Seq<AuthState>,
    events: Seq<AuthEvent>,
    actions: Seq<AuthAction>,
    k: int,
    e: AuthError,
) -> (m: int)
    requires
        valid_trace(cfg, states, events, actions),
        0 <= k < states.len(),
        states[0] is AwaitRead,
        states[k] == (AuthState::Failed { error: e }),
        e == AuthError::CsrfMismatch || e == AuthError::MissingCodeOrState,
    ensures
        0 <= m < k,
        states[m] is AwaitRedirect,
        states[m + 1] == (AuthState::Failed { error: e }),
    decreases k,
{
    assert(k > 0);
    assert(step_ok(cfg, states[k - 1], events[k - 1], states[(k - 1) + 1], actions[k - 1]));
    if e == AuthError::CsrfMismatch {
        lemma_csrf_post_origin(cfg, states[k - 1], events[k - 1], states[k], actions[k - 1]);
    } else {
        lemma_missing_post_origin(cfg, states[k - 1], events[k - 1], states[k], actions[k - 1]);
    }
    if states[k - 1] is AwaitRedirect {
        k - 1
    } else {
        lemma_first_redirect_failure(cfg, states, events, actions, k - 1, e)
    }
}

// ---------------------------------------------------------------------------
// Counting actions of a kind
// ---------------------------------------------------------------------------
pub open spec fn count_refresh(actions: Seq<AuthAction>) -> int
    decreases actions.len(),
{
    if actions.len() == 0 {
        0
    } else {
        count_refresh(actions.drop_last()) + if actions.last() is RefreshRequest {
            1int
        } else {
            0int
        }
    }
}

proof fn lemma_count_refresh_none(actions: Seq<AuthAction>)
    requires
        forall|i: int| 0 <= i < actions.len() ==> !(#[trigger] actions[i] is RefreshRequest),
    ensures
        count_refresh(actions) == 0,
    decreases actions.len(),
{
    if actions.len() > 0 {
        let dl = actions.drop_last();
        assert forall|i: int| 0 <= i < dl.len() implies !(#[trigger] dl[i] is RefreshRequest) by {
            assert(dl[i] == actions[i]);
        }
        lemma_count_refresh_none(dl);
        assert(!(actions[actions.len() - 1] is RefreshRequest));
    }
}

proof fn lemma_count_refresh_single(actions: Seq<AuthAction>)
    requires
        actions.len() >= 1,
        actions[0] is RefreshRequest,
        forall|i: int| 1 <= i < actions.len() ==> !(#[trigger] actions[i] is RefreshRequest),
    ensures
        count_refresh(actions) == 1,
    decreases actions.len(),
{
    if actions.len() == 1 {
        assert(actions.drop_last().len() == 0);
        assert(count_refresh(actions.drop_last()) == 0);
        assert(actions.last() == actions[0]);
    } else {
        let dl = actions.drop_last();
        assert(dl[0] == actions[0]);
        assert forall|i: int| 1 <= i < dl.len() implies !(#[trigger] dl[i] is RefreshRequest) by {
            assert(dl[i] == actions[i]);
        }
        lemma_count_refresh_single(dl);
        assert(!(actions[actions.len() - 1] is RefreshRequest));
    }
}

// ---------------------------------------------------------------------------
// The laws
// ---------------------------------------------------------------------------
/// A stored record whose expiry lies in the past and which holds a refresh
/// token makes `authenticate()` perform exactly one refresh attempt.
pub proof fn lemma_one_refresh_for_expired_record(
    cfg: OAuthConfig,
    states: Seq<AuthState>,
    events: Seq<AuthEvent>,
    actions: Seq<AuthAction>,
    text: String,
    now: i64,
)
    requires
        valid_trace(cfg, states, events, actions),
        events.len() >= 1,
        states[0] is AwaitRead,
        events[0] == (AuthEvent::ReadDone { content: Some(text), now }),
        parse_credentials_text(text@) is Some,
        parse_credentials_text(text@)->Some_0.expiry_date is Some,
        now >= parse_credentials_text(text@)->Some_0.expiry_date->Some_0,
        parse_credentials_text(text@)->Some_0.refresh_token is Some,
    ensures
        count_refresh(actions) == 1,
{
    assert(step_ok(cfg, states[0], events[0], states[1], actions[0]));
    assert(actions[0] is RefreshRequest);
    assert(states[1] is AwaitRefresh);
    assert forall|i: int| 1 <= i < actions.len() implies !(#[trigger] actions[i]
        is RefreshRequest) by {
        lemma_rank_chain(cfg, states, events, actions, 1, i);
        assert(state_rank(states[i]) >= 7);
        assert(step_ok(cfg, states[i], events[i], states[i + 1], actions[i]));
        if actions[i] is RefreshRequest {
            lemma_refresh_origin(cfg, states[i], events[i], states[i + 1], actions[i]);
            assert(state_rank(states[i]) == 0);
        }
    }
    lemma_count_refresh_single(actions);
}

/// A stored record without an expiry date never causes a refresh attempt.
pub proof fn lemma_no_refresh_without_expiry(
    cfg: OAuthConfig,
    states: Seq<AuthState>,
    events: Seq<AuthEvent>,
    actions: Seq<AuthAction>,
    text: String,
    now: i64,
)
    requires
        valid_trace(cfg, states, events, actions),
        events.len() >= 1,
        states[0] is AwaitRead,
        events[0] == (AuthEvent::ReadDone { content: Some(text), now }),
        parse_credentials_text(text@) is Some,
        parse_credentials_text(text@)->Some_0.expiry_date is None,
    ensures
        count_refresh(actions) == 0,
{
    assert(step_ok(cfg, states[0], events[0], states[1], actions[0]));
    assert(actions[0] is Finish);
    assert(states[1] is Done);
    assert forall|i: int| 0 <= i < actions.len() implies !(#[trigger] actions[i]
        is RefreshRequest) by {
        if i >= 1 {
            lemma_rank_chain(cfg, states, events, actions, 1, i);
            assert(state_rank(states[i]) >= 9);
            assert(step_ok(cfg, states[i], events[i], states[i + 1], actions[i]));
            if actions[i] is RefreshRequest {
                lemma_refresh_origin(cfg, states[i], events[i], states[i + 1], actions[i]);
                assert(state_rank(states[i]) == 0);
            }
        }
    }
    lemma_count_refresh_none(actions);
}

/// When the redirect's `state` does not match the CSRF token — that is,
/// whenever a run ends in `CsrfMismatch` — no record is ever written, and
/// the failure is the run's final state.
pub proof fn lemma_csrf_mismatch_writes_nothing(
    cfg: OAuthConfig,
    states: Seq<AuthState>,
    events: Seq<AuthEvent>,
    actions: Seq<AuthAction>,
    k: int,
)
    requires
        valid_trace(cfg, states, events, actions),
        states[0] is AwaitRead,
        0 <= k < states.len(),
        states[k] == (AuthState::Failed { error: AuthError::CsrfMismatch }),
    ensures
        forall|i: int| 0 <= i < actions.len() ==> !(#[trigger] actions[i] is WriteStore),
        states[states.len() - 1] == (AuthState::Failed { error: AuthError::CsrfMismatch }),
{
    let m = lemma_first_redirect_failure(
        cfg,
        states,
        events,
        actions,
        k,
        AuthError::CsrfMismatch,
    );
    lemma_failed_absorbing(
        cfg,
        states,
        events,
        actions,
        m + 1,
        AuthError::CsrfMismatch,
        states.len() - 1,
    );
    assert forall|i: int| 0 <= i < actions.len() implies !(#[trigger] actions[i]
        is WriteStore) by {
        assert(step_ok(cfg, states[i], events[i], states[i + 1], actions[i]));
        if actions[i] is WriteStore {
            lemma_write_origin(cfg, states[i], events[i], states[i + 1], actions[i]);
            assert(state_rank(states[i]) == 7 || state_rank(states[i]) == 3 || state_rank(
                states[i],
            ) == 5);
            if i < m {
                lemma_rank_chain(cfg, states, events, actions, i, m);
                assert(state_rank(states[m]) == 2);
            } else if i == m {
                assert(states[m] is AwaitRedirect);
            } else {
                lemma_failed_absorbing(
                    cfg,
                    states,
                    events,
                    actions,
                    m + 1,
                    AuthError::CsrfMismatch,
                    i,
                );
            }
        }
    }
}

/// When the redirect omits `code` or `state` — that is, whenever a run ends
/// in `MissingCodeOrState` — the exchange step is never invoked.
pub proof fn lemma_missing_code_no_exchange(
    cfg: OAuthConfig,
    states: Seq<AuthState>,
    events: Seq<AuthEvent>,
    actions: Seq<AuthAction>,
    k: int,
)
    requires
        valid_trace(cfg, states, events, actions),
        states[0] is AwaitRead,
        0 <= k < states.len(),
        states[k] == (AuthState::Failed { error: AuthError::MissingCodeOrState }),
    ensures
        forall|i: int| 0 <= i < actions.len() ==> !(#[trigger] actions[i] is ExchangeRequest),
{
    let m = lemma_first_redirect_failure(
        cfg,
        states,
        events,
        actions,
        k,
        AuthError::MissingCodeOrState,
    );
    assert forall|i: int| 0 <= i < actions.len() implies !(#[trigger] actions[i]
        is ExchangeRequest) by {
        assert(step_ok(cfg, states[i], events[i], states[i + 1], actions[i]));
        if actions[i] is ExchangeRequest {
            lemma_exchange_origin(cfg, states[i], events[i], states[i + 1], actions[i]);
            assert(states[i] is AwaitRedirect);
            if i < m {
                // The redirect state is left for a higher rank at once, so
                // it cannot stand at two places of the run.
                lemma_step_rank(cfg, states[i], events[i], states[i + 1], actions[i]);
                lemma_rank_chain(cfg, states, events, actions, i + 1, m);
                assert(state_rank(states[m]) == 2);
            } else if i == m {
                // At the redirect itself the step failed, so the action is
                // a failure, not an exchange.
                assert(step_ok(cfg, states[m], events[m], states[m + 1], actions[m]));
            } else {
                lemma_failed_absorbing(
                    cfg,
                    states,
                    events,
                    actions,
                    m + 1,
                    AuthError::MissingCodeOrState,
                    i,
                );
            }
        }
    }
}

/// A failed refresh — a network failure, a non-success status, or a
/// malformed body — still finishes with the previous access token, not an
/// error.
pub proof fn lemma_failed_refresh_returns_stale(
    cfg: OAuthConfig,
    stale: Credentials,
    response: Option<(u16, String)>,
    now: i64,
    post: AuthState,
    action: AuthAction,
)
    requires
        step_ok(
            cfg,
            AuthState::AwaitRefresh { stale },
            AuthEvent::TokenDone { response, now },
            post,
            action,
        ),
        match response {
            None => true,
            Some((status, body)) => !(200 <= status < 300) || parse_token_response_text(body@)
                is None,
        },
    ensures
        finish_ok(stale@.access_token, post, action),
{
}

/// A failed user-info fetch still finishes with the fresh access token.
pub proof fn lemma_failed_user_info_returns_token(
    cfg: OAuthConfig,
    creds: Credentials,
    post: AuthState,
    action: AuthAction,
)
    requires
        step_ok(
            cfg,
            AuthState::AwaitUserInfo { creds },
            AuthEvent::UserInfoDone { email: None },
            post,
            action,
        ),
    ensures
        finish_ok(creds@.access_token, post, action),
{
}

} // verus!
