//! The `/append <pattern> <reply>` command embedded in message text, and
//! the decision of where a submission goes.

use vstd::prelude::*;
use vstd::string::{StrSliceExecFns, StringExecFns};

use crate::pipeline::EntryUpdate;
use crate::text::strings_view;

verus! {

/// The command prefix, `/append ` (with its trailing space).
pub open spec fn append_prefix() -> Seq<char> {
    seq!['/', 'a', 'p', 'p', 'e', 'n', 'd', ' ']
}

/// `text` is the prefix, then `pattern` (which holds no space), one space,
/// and `reply` (which may hold spaces).
pub open spec fn parses_as(text: Seq<char>, pattern: Seq<char>, reply: Seq<char>) -> bool {
    &&& text == append_prefix() + pattern + seq![' '] + reply
    &&& !pattern.contains(' ')
}

/// Splits an `/append` command into its pattern and reply. Text without the
/// prefix, or without a space after the pattern, is no command: `None`.
pub fn parse_append(text: &str) -> (r: Option<(String, String)>)
    ensures
        r matches Some((p, q)) ==> parses_as(text@, p@, q@),
        r is None ==> forall|p: Seq<char>, q: Seq<char>| !#[trigger] parses_as(text@, p, q),
{
    let prefix: Vec<char> = vec!['/', 'a', 'p', 'p', 'e', 'n', 'd', ' '];
    assert(prefix@ =~= append_prefix());
    let n = text.unicode_len();
    if n < 8 {
        assert forall|p: Seq<char>, q: Seq<char>| !#[trigger] parses_as(text@, p, q) by {
            if parses_as(text@, p, q) {
                assert(text@.len() >= 8);
            }
        }
        return None;
    }
    let mut k: usize = 0;
    while k < 8
        invariant
            0 <= k <= 8,
            n == text@.len(),
            n >= 8,
            prefix@ == append_prefix(),
            forall|m: int| 0 <= m < k ==> text@[m] == append_prefix()[m],
        decreases 8 - k,
    {
        if text.get_char(k) != prefix[k] {
            assert forall|p: Seq<char>, q: Seq<char>| !#[trigger] parses_as(text@, p, q) by {
                if parses_as(text@, p, q) {
                    assert(text@[k as int] == (append_prefix() + p + seq![' '] + q)[k as int]);
                }
            }
            return None;
        }
        k = k + 1;
    }
    let mut j: usize = 8;
    while j < n
        invariant
            8 <= j <= n,
            n == text@.len(),
            forall|m: int| 0 <= m < 8 ==> text@[m] == append_prefix()[m],
            forall|m: int| 8 <= m < j ==> text@[m] != ' ',
        decreases n - j,
    {
        if text.get_char(j) == ' ' {
            let p = text.substring_char(8, j).to_owned();
            let q = text.substring_char(j + 1, n).to_owned();
            proof {
                assert(text@ =~= append_prefix() + p@ + seq![' '] + q@);
                if p@.contains(' ') {
                    let m = choose|m: int| 0 <= m < p@.len() && p@[m] == ' ';
                    assert(text@[m + 8] == ' ');
                }
            }
            return Some((p, q));
        }
        j = j + 1;
    }
    proof {
        assert forall|p: Seq<char>, q: Seq<char>| !#[trigger] parses_as(text@, p, q) by {
            if parses_as(text@, p, q) {
                let t = append_prefix() + p + seq![' '] + q;
                assert(t[8 + p.len() as int] == ' ');
            }
        }
    }
    None
}

/// Where a well-formed submission goes.
#[derive(Clone, Copy, Debug, PartialEq, Eq, Structural)]
pub enum Route {
    /// Straight to the update pipeline.
    Direct,
    /// To a community vote in the vote conversation.
    Ballot,
    /// Nowhere: the submitter is not trusted and no vote is configured.
    Dropped,
}

/// A submitter is trusted when the allow-set is empty or names them.
pub open spec fn is_trusted(sender: Seq<char>, allowed: Seq<Seq<char>>) -> bool {
    allowed.len() == 0 || allowed.contains(sender)
}

pub open spec fn route_of(sender: Seq<char>, allowed: Seq<Seq<char>>, vote_configured: bool) -> Route {
    if is_trusted(sender, allowed) {
        Route::Direct
    } else if vote_configured {
        Route::Ballot
    } else {
        Route::Dropped
    }
}

/// Decides where a submission from `sender` goes.
pub fn route_submission(sender: &String, allow_users: &Vec<String>, vote_configured: bool) -> (r: Route)
    ensures
        r == route_of(sender@, strings_view(allow_users@), vote_configured),
{
    let mut trusted = allow_users.len() == 0;
    let mut k: usize = 0;
    while k < allow_users.len() && !trusted
        invariant
            0 <= k <= allow_users.len(),
            trusted ==> is_trusted(sender@, strings_view(allow_users@)),
            !trusted ==> allow_users.len() > 0 && forall|m: int| 0 <= m < k ==> allow_users[m]@ != sender@,
        decreases allow_users.len() - k,
    {
        if allow_users[k] == *sender {
            assert(strings_view(allow_users@)[k as int] == sender@);
            trusted = true;
        }
        k = k + 1;
    }
    proof {
        if !trusted {
            if strings_view(allow_users@).contains(sender@) {
                let m = choose|m: int| 0 <= m < allow_users.len() && strings_view(allow_users@)[m] == sender@;
                assert(allow_users[m]@ == sender@);
            }
        }
    }
    if trusted {
        Route::Direct
    } else if vote_configured {
        Route::Ballot
    } else {
        Route::Dropped
    }
}

/// A submitter named in a non-empty allow-set goes straight to the pipeline,
/// and with an empty allow-set every submitter does: no ballot is opened in
/// either case, whether or not a vote conversation is configured.
pub proof fn lemma_trusted_bypass_vote(sender: Seq<char>, allowed: Seq<Seq<char>>, vote_configured: bool)
    requires
        allowed.len() == 0 || allowed.contains(sender),
    ensures
        route_of(sender, allowed, vote_configured) == Route::Direct,
{
}

/// The announcement that opens a ballot: the submitter, then the proposal.
pub open spec fn announcement_text(sender: Seq<char>, pattern: Seq<char>, reply: Seq<char>) -> Seq<char> {
    seq!['S', 'e', 'n', 'd', 'e', 'r', ':', ' '] + sender + seq!['\n'] + pattern + seq![' ', '-', '>', ' ']
        + reply
}

/// The text of the announcement for a proposal from `sender`.
pub fn announcement(sender: &str, pattern: &str, reply: &str) -> (r: String)
    ensures
        r@ == announcement_text(sender@, pattern@, reply@),
{
    let mut s = String::from_str("Sender: ");
    s.append(sender);
    s.append("\n");
    s.append(pattern);
    s.append(" -> ");
    s.append(reply);
    proof {
        reveal_strlit("Sender: ");
        reveal_strlit("\n");
        reveal_strlit(" -> ");
    }
    assert(s@ =~= announcement_text(sender@, pattern@, reply@));
    s
}

/// What to do with a message that may hold an `/append` command.
pub enum AppendAction {
    /// Submit the entry to the update pipeline.
    Submit(EntryUpdate),
    /// Post `text` in the vote conversation and open a ballot on the
    /// proposal under the id of that post.
    Announce { text: String, pattern: String, reply: String },
    /// Nothing: no command, or an untrusted submitter with no vote configured.
    Ignore,
}

/// Decides what a message from `sender` with `text` asks for.
pub fn plan_append(text: &str, sender: &String, allow_users: &Vec<String>, vote_configured: bool) -> (r:
    AppendAction)
    ensures
        r is Ignore <==> (forall|p: Seq<char>, q: Seq<char>| !#[trigger] parses_as(text@, p, q))
            || route_of(sender@, strings_view(allow_users@), vote_configured) == Route::Dropped,
        r matches AppendAction::Submit(u) ==> parses_as(text@, u.pattern@, u.reply@) && route_of(
            sender@,
            strings_view(allow_users@),
            vote_configured,
        ) == Route::Direct,
        r matches AppendAction::Announce { text: a, pattern: p, reply: q } ==> parses_as(text@, p@, q@)
            && route_of(sender@, strings_view(allow_users@), vote_configured) == Route::Ballot && a@
            == announcement_text(sender@, p@, q@),
{
    match parse_append(text) {
        None => AppendAction::Ignore,
        Some((p, q)) => match route_submission(sender, allow_users, vote_configured) {
            Route::Direct => AppendAction::Submit(EntryUpdate { pattern: p, reply: q }),
            Route::Ballot => {
                let a = announcement(sender.as_str(), p.as_str(), q.as_str());
                AppendAction::Announce { text: a, pattern: p, reply: q }
            },
            Route::Dropped => AppendAction::Ignore,
        },
    }
}

} // verus!
