//! The decisions of a reporting device's posting loop: whether a cached
//! token is worth presenting, and what to do with the token after each post.

use vstd::prelude::*;
use crate::render::is_ascii_space;

verus! {

/// What the posting loop does with its token after one post.
#[derive(Clone, Copy, PartialEq, Eq, Structural, Debug)]
pub enum PostAction {
    /// The reading was accepted; keep the token.
    KeepToken,
    /// The token was rejected; discard it and fetch a fresh one.
    RefreshToken,
    /// The post failed for another reason; report it and keep the token.
    ReportFailure,
}

/// The posting loop's policy for one response status: any success keeps the
/// token, a rejected authorization refreshes it, anything else is reported.
pub open spec fn post_action_of(status: u16) -> PostAction {
    if 200 <= status < 300 {
        PostAction::KeepToken
    } else if status == 401 {
        PostAction::RefreshToken
    } else {
        PostAction::ReportFailure
    }
}

/// Decides what the posting loop does after a post came back with `status`.
pub fn classify_post_status(status: u16) -> (action: PostAction)
    ensures
        action == post_action_of(status),
{
    if 200 <= status && status < 300 {
        PostAction::KeepToken
    } else if status == 401 {
        PostAction::RefreshToken
    } else {
        PostAction::ReportFailure
    }
}

/// Whether a cached token is worth presenting: it holds something besides
/// whitespace.
pub fn cached_token_usable(token: &[u8]) -> (usable: bool)
    ensures
        usable == exists|i: int| 0 <= i < token@.len() && !is_ascii_space(token@[i]),
{
    let mut i: usize = 0;
    while i < token.len()
        invariant
            i <= token@.len(),
            forall|k: int| 0 <= k < i ==> is_ascii_space(token@[k]),
        decreases token@.len() - i,
    {
        let b = *vstd::slice::slice_index_get(token, i);
        if !(b == 32 || (9 <= b && b <= 13)) {
            assert(!is_ascii_space(token@[i as int]));
            return true;
        }
        i = i + 1;
    }
    false
}

} // verus!
