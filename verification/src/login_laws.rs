//! Properties of whole login runs.
//!
//! A run is a sequence of flows where each one is the result of stepping
//! the previous one on an event that fits its stage, starting at the stage
//! where its method begins.

use vstd::prelude::*;

use crate::login_flow::{event_fits, step_outcome, LoginAction, LoginEvent, LoginFlow, LoginMethod, LoginStage};

verus! {

/// The stage at which a login of the method starts.
pub open spec fn start_stage(m: LoginMethod) -> LoginStage {
    match m {
        LoginMethod::Siwe => LoginStage::AwaitSignature,
        LoginMethod::Privy => LoginStage::AwaitIdentity,
        LoginMethod::TelegramMiniApp => LoginStage::AwaitPlayer,
    }
}

/// Step `i` of a run: its event fits the stage, and the next flow and the
/// action are what stepping gives.
pub open spec fn run_step(flows: Seq<LoginFlow>, events: Seq<LoginEvent>, actions: Seq<LoginAction>, i: int) -> bool {
    &&& event_fits(flows[i].stage, events[i])
    &&& step_outcome(flows[i], events[i], flows[i + 1], actions[i])
}

/// `flows[i + 1]` and `actions[i]` come from stepping `flows[i]` on
/// `events[i]`, from the start stage of the method.
pub open spec fn is_login_run(flows: Seq<LoginFlow>, events: Seq<LoginEvent>, actions: Seq<LoginAction>) -> bool {
    &&& flows.len() == events.len() + 1
    &&& actions.len() == events.len()
    &&& flows[0].stage == start_stage(flows[0].method)
    &&& forall|i: int| 0 <= i < events.len() ==> #[trigger] run_step(flows, events, actions, i)
}

/// The SIWE signature was found to recover to the wallet.
pub open spec fn accepts_signature(e: LoginEvent) -> bool {
    e matches LoginEvent::SignatureChecked(ok) && ok
}

/// The nonce of the signed message was issued to the wallet and is now used up.
pub open spec fn accepts_nonce(e: LoginEvent) -> bool {
    e matches LoginEvent::NonceConsumed(c) && c == Ok::<bool, String>(true)
}

/// The Privy identity token was accepted for the wallet.
pub open spec fn accepts_identity(e: LoginEvent) -> bool {
    e matches LoginEvent::IdentityChecked(c) && c is Ok
}

pub open spec fn signature_accepted(events: Seq<LoginEvent>) -> bool {
    exists|k: int| 0 <= k < events.len() && #[trigger] accepts_signature(events[k])
}

pub open spec fn nonce_accepted(events: Seq<LoginEvent>) -> bool {
    exists|k: int| 0 <= k < events.len() && #[trigger] accepts_nonce(events[k])
}

pub open spec fn identity_accepted(events: Seq<LoginEvent>) -> bool {
    exists|k: int| 0 <= k < events.len() && #[trigger] accepts_identity(events[k])
}

/// The events show that the player owns the wallet. A Telegram Mini App
/// login starts from init data that was verified before the flow began.
pub open spec fn ownership_proven(m: LoginMethod, events: Seq<LoginEvent>) -> bool {
    match m {
        LoginMethod::Siwe => signature_accepted(events) && nonce_accepted(events),
        LoginMethod::Privy => identity_accepted(events),
        LoginMethod::TelegramMiniApp => true,
    }
}

/// The stages a login of the method can be at after the events, with what
/// must have happened to get there.
pub open spec fn history_fits(m: LoginMethod, stage: LoginStage, events: Seq<LoginEvent>) -> bool {
    match m {
        LoginMethod::Siwe => match stage {
            LoginStage::AwaitSignature | LoginStage::Finished => true,
            LoginStage::AwaitNonce | LoginStage::AwaitNonceUse => signature_accepted(events),
            LoginStage::AwaitIdentity => false,
            _ => signature_accepted(events) && nonce_accepted(events),
        },
        LoginMethod::Privy => match stage {
            LoginStage::AwaitIdentity | LoginStage::Finished => true,
            LoginStage::AwaitPlayer | LoginStage::AwaitReferral | LoginStage::AwaitAgent
            | LoginStage::AwaitToken => identity_accepted(events),
            _ => false,
        },
        LoginMethod::TelegramMiniApp => match stage {
            LoginStage::AwaitPlayer | LoginStage::AwaitAgent | LoginStage::AwaitToken
            | LoginStage::Finished => true,
            _ => false,
        },
    }
}

proof fn lemma_accepted_extends(events: Seq<LoginEvent>, i: int)
    requires
        0 <= i < events.len(),
    ensures
        signature_accepted(events.subrange(0, i)) || accepts_signature(events[i])
            ==> signature_accepted(events.subrange(0, i + 1)),
        nonce_accepted(events.subrange(0, i)) || accepts_nonce(events[i]) ==> nonce_accepted(
            events.subrange(0, i + 1),
        ),
        identity_accepted(events.subrange(0, i)) || accepts_identity(events[i])
            ==> identity_accepted(events.subrange(0, i + 1)),
{
    let before = events.subrange(0, i);
    let after = events.subrange(0, i + 1);
    assert(after[i] == events[i]);
    if signature_accepted(before) {
        let k = choose|k: int| 0 <= k < before.len() && #[trigger] accepts_signature(before[k]);
        assert(after[k] == before[k]);
    }
    if nonce_accepted(before) {
        let k = choose|k: int| 0 <= k < before.len() && #[trigger] accepts_nonce(before[k]);
        assert(after[k] == before[k]);
    }
    if identity_accepted(before) {
        let k = choose|k: int| 0 <= k < before.len() && #[trigger] accepts_identity(before[k]);
        assert(after[k] == before[k]);
    }
}

/// Every flow of a run keeps the method of the first and is at a stage that
/// its history allows.
proof fn lemma_run_history(flows: Seq<LoginFlow>, events: Seq<LoginEvent>, actions: Seq<LoginAction>, i: int)
    requires
        is_login_run(flows, events, actions),
        0 <= i <= events.len(),
    ensures
        flows[i].method == flows[0].method,
        history_fits(flows[0].method, flows[i].stage, events.subrange(0, i)),
    decreases i,
{
    if i > 0 {
        let j = i - 1;
        lemma_run_history(flows, events, actions, j);
        assert(run_step(flows, events, actions, j));
        lemma_accepted_extends(events, j);
    }
}

/// A login asks to store its player, or finishes with a session, only once
/// the player has proved to own the wallet: a SIWE login after its signature
/// was accepted and its nonce consumed, a Privy login after its identity
/// token was accepted.
pub proof fn law_login_needs_proof_of_ownership(
    flows: Seq<LoginFlow>,
    events: Seq<LoginEvent>,
    actions: Seq<LoginAction>,
    j: int,
)
    requires
        is_login_run(flows, events, actions),
        0 <= j < actions.len(),
        actions[j] is FindOrCreate || actions[j] matches LoginAction::Finish(Ok(_)),
    ensures
        ownership_proven(flows[0].method, events.subrange(0, j + 1)),
{
    lemma_run_history(flows, events, actions, j);
    assert(run_step(flows, events, actions, j));
    lemma_accepted_extends(events, j);
}

/// A finished login takes no further step: no event fits its stage.
pub proof fn law_finished_login_is_final(e: LoginEvent)
    ensures
        !event_fits(LoginStage::Finished, e),
{
}

} // verus!
