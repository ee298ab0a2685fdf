//! Choosing one reply among the matched ones.

use vstd::prelude::*;

use crate::reply::ReplyType;

verus! {

/// Relies on `rand::random::<usize>`: any `usize`, drawn uniformly.
#[verifier::external_body]
fn draw() -> usize {
    rand::random::<usize>()
}

/// The text of the reply at `draw` modulo the number of replies; `None`
/// when there is no reply.
pub fn select_reply(replies: &Vec<ReplyType>, draw: usize) -> (r: Option<String>)
    ensures
        replies.len() == 0 ==> r is None,
        replies.len() > 0 ==> (r matches Some(s) && s@ == replies[(draw % replies.len()) as int].text_view()),
{
    if replies.len() == 0 {
        None
    } else {
        Some(replies[draw % replies.len()].text())
    }
}

/// A reply chosen at random among `replies`, or `None` when there is none,
/// together with the number that was drawn: the choice is `select_reply` of
/// that number.
pub fn choose_reply(replies: &Vec<ReplyType>) -> (r: (Option<String>, Ghost<usize>))
    ensures
        replies.len() == 0 ==> r.0 is None,
        replies.len() > 0 ==> (r.0 matches Some(s) && s@ == replies[(r.1@ % replies.len()) as int].text_view()),
{
    let d = draw();
    (select_reply(replies, d), Ghost(d))
}

} // verus!
