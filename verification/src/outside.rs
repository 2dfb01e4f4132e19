//! The trusted boundary: calls into `rand` and `tokio`.
//!
//! Nothing here is proved. Each item states what the outside crate's source
//! shows and no more.

use rand::Rng;
use tokio::sync::mpsc::UnboundedSender;
use vstd::prelude::*;

verus! {

/// The sending half of an unbounded `tokio` channel. Nothing inside it is
/// visible to the proofs: a value is carried and handed to `send_text`.
#[verifier::external_type_specification]
#[verifier::external_body]
#[verifier::reject_recursive_types(T)]
pub struct ExUnboundedSender<T>(UnboundedSender<T>);

/// Draws a number below `bound` from the thread-local generator of `rand`,
/// as `rand::thread_rng().gen_range(0..bound)`.
///
/// Trusted: `Rng::gen_range` returns a member of the half-open range it is
/// given. It panics on an empty range, which the precondition rules out.
/// Which member comes back is left open: two calls may differ.
#[verifier::external_body]
pub(crate) fn random_below(bound: u16) -> (r: u16)
    requires
        bound > 0,
    ensures
        r < bound,
{
    rand::thread_rng().gen_range(0..bound)
}

/// Queues `text` on the channel with `UnboundedSender::send`, which never
/// waits, and tells whether the channel took it.
///
/// Trusted: nothing. The channel refuses a message once its receiving half
/// is closed or dropped, which depends on the other end, so the result is
/// left open.
#[verifier::external_body]
pub(crate) fn send_text(sender: &UnboundedSender<String>, text: String) -> (taken: bool) {
    sender.send(text).is_ok()
}

} // verus!
