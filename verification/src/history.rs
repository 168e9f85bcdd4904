//! Histories of calls on a store, and the single-use law over them.

use vstd::prelude::*;

use crate::captchas::{inserted, validated, verdict};
use crate::simple_captcha::CaptchaModel;

verus! {

/// One call on a store, with the clock readings it made.
pub enum Call {
    Insert { captcha: CaptchaModel, now: u64 },
    Validate { hash: Seq<char>, code: Seq<char>, swept_at: u64, checked_at: u64 },
}

/// The pending challenges after `call`.
pub open spec fn after(pending: Map<Seq<char>, CaptchaModel>, call: Call) -> Map<
    Seq<char>,
    CaptchaModel,
> {
    match call {
        Call::Insert { captcha, now } => inserted(pending, captcha, now),
        Call::Validate { hash, code, swept_at, checked_at } => validated(pending, hash, swept_at),
    }
}

/// Whether `call` registers a challenge under `hash`.
pub open spec fn registers(call: Call, hash: Seq<char>) -> bool {
    match call {
        Call::Insert { captcha, now } => captcha.image_hash == hash,
        Call::Validate { hash: asked, code, swept_at, checked_at } => false,
    }
}

/// Whether `call`, made on `pending`, is a validation of `hash` that succeeds.
pub open spec fn succeeds(pending: Map<Seq<char>, CaptchaModel>, call: Call, hash: Seq<char>) -> bool {
    match call {
        Call::Insert { captcha, now } => false,
        Call::Validate { hash: asked, code, swept_at, checked_at } => asked == hash && verdict(
            pending,
            asked,
            code,
            swept_at,
            checked_at,
        ) is Ok,
    }
}

/// How many validations of `hash` succeed when `calls` are made in turn,
/// starting from `pending`.
pub open spec fn successes(
    pending: Map<Seq<char>, CaptchaModel>,
    calls: Seq<Call>,
    hash: Seq<char>,
) -> nat
    decreases calls.len(),
{
    if calls.len() == 0 {
        0
    } else {
        let here: nat = if succeeds(pending, calls[0], hash) {
            1
        } else {
            0
        };
        here + successes(after(pending, calls[0]), calls.drop_first(), hash)
    }
}

/// Over any history of calls that does not register `hash` anew, at most one
/// validation of `hash` succeeds, and none does where `hash` is not pending at
/// the start.
pub proof fn lemma_at_most_one_success(
    pending: Map<Seq<char>, CaptchaModel>,
    calls: Seq<Call>,
    hash: Seq<char>,
)
    requires
        forall|i: int| 0 <= i < calls.len() ==> !registers(#[trigger] calls[i], hash),
    ensures
        successes(pending, calls, hash) <= 1,
        !pending.contains_key(hash) ==> successes(pending, calls, hash) == 0,
    decreases calls.len(),
{
    if calls.len() > 0 {
        let first = calls[0];
        let rest = calls.drop_first();
        assert forall|i: int| 0 <= i < rest.len() implies !registers(#[trigger] rest[i], hash) by {
            assert(rest[i] == calls[i + 1]);
        }
        assert(!registers(first, hash));
        lemma_at_most_one_success(after(pending, first), rest, hash);
        if succeeds(pending, first, hash) || !pending.contains_key(hash) {
            assert(!after(pending, first).contains_key(hash));
        }
    }
}

} // verus!
