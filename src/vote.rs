//! The voting gate: ballots on proposals from untrusted submitters, keyed by
//! the id of the announcement that opened them.

use vstd::prelude::*;
use vstd::string::StrSliceExecFns;

use crate::pipeline::EntryUpdate;
use crate::text::same_text;

verus! {

/// What a reaction says about a proposal.
#[derive(Clone, Copy, Debug, PartialEq, Eq, Structural)]
pub enum Vote {
    Yes,
    No,
}

/// The approve symbol (thumbs up).
pub open spec fn approve_symbol() -> char {
    '\u{1F44D}'
}

/// The reject symbol (thumbs down).
pub open spec fn reject_symbol() -> char {
    '\u{1F44E}'
}

/// The vote a reaction key stands for: approve wins over reject when both
/// symbols are present.
pub open spec fn vote_of(key: Seq<char>) -> Option<Vote> {
    if key.contains(approve_symbol()) {
        Some(Vote::Yes)
    } else if key.contains(reject_symbol()) {
        Some(Vote::No)
    } else {
        None
    }
}

/// The score change of one vote.
pub open spec fn weight(v: Vote) -> int {
    match v {
        Vote::Yes => 1,
        Vote::No => -1,
    }
}

fn contains_char(s: &str, c: char) -> (r: bool)
    ensures
        r == s@.contains(c),
{
    let n = s.unicode_len();
    let mut k: usize = 0;
    while k < n
        invariant
            0 <= k <= n,
            n == s@.len(),
            forall|m: int| 0 <= m < k ==> s@[m] != c,
        decreases n - k,
    {
        if s.get_char(k) == c {
            assert(s@[k as int] == c);
            return true;
        }
        k = k + 1;
    }
    false
}

/// Reads a reaction key as a vote.
pub fn get_vote(key: String) -> (r: Option<Vote>)
    ensures
        r == vote_of(key@),
{
    if contains_char(key.as_str(), '\u{1F44D}') {
        Some(Vote::Yes)
    } else if contains_char(key.as_str(), '\u{1F44E}') {
        Some(Vote::No)
    } else {
        None
    }
}

/// A proposal under vote, with its running score.
#[derive(Clone, Debug)]
pub struct VoteReply {
    pub pattern: String,
    pub reply: String,
    pub vote: i64,
}

/// One open ballot.
pub struct Ballot {
    pub id: String,
    pub proposal: VoteReply,
}

/// The ballots as a map from ballot id to proposal.
pub open spec fn ballot_map(s: Seq<Ballot>) -> Map<Seq<char>, VoteReply>
    decreases s.len(),
{
    if s.len() == 0 {
        Map::empty()
    } else {
        ballot_map(s.drop_last()).insert(s.last().id@, s.last().proposal)
    }
}

pub open spec fn unique_ids(s: Seq<Ballot>) -> bool {
    forall|i: int, j: int| 0 <= i < s.len() && 0 <= j < s.len() && i != j ==> s[i].id@ != s[j].id@
}

/// The score after one more vote, kept within the counter's range.
pub open spec fn bumped(score: int, v: Vote) -> int {
    let s = score + weight(v);
    if s > i64::MAX {
        i64::MAX as int
    } else if s < i64::MIN {
        i64::MIN as int
    } else {
        s
    }
}

/// The ballots after a reaction with `key` to the message `id`: the
/// ballot's score moves by the vote's weight; a reaction that is no vote,
/// or that refers to no open ballot, changes nothing.
pub open spec fn after_reaction(m: Map<Seq<char>, VoteReply>, id: Seq<char>, key: Seq<char>) -> Map<
    Seq<char>,
    VoteReply,
> {
    if m.contains_key(id) && vote_of(key) is Some {
        m.insert(id, VoteReply { vote: bumped(m[id].vote as int, vote_of(key)->0) as i64, ..m[id] })
    } else {
        m
    }
}

/// What expiry of ballot `id` forwards: the proposal, when its score is
/// positive.
pub open spec fn expiry_result(m: Map<Seq<char>, VoteReply>, id: Seq<char>) -> Option<EntryUpdate> {
    if m.contains_key(id) && m[id].vote > 0 {
        Some(EntryUpdate { pattern: m[id].pattern, reply: m[id].reply })
    } else {
        None
    }
}

/// The ballots after reactions with each key in `keys`, in order, to the
/// message `id`.
pub open spec fn after_reactions(m: Map<Seq<char>, VoteReply>, id: Seq<char>, keys: Seq<Seq<char>>) -> Map<
    Seq<char>,
    VoteReply,
>
    decreases keys.len(),
{
    if keys.len() == 0 {
        m
    } else {
        after_reaction(after_reactions(m, id, keys.drop_last()), id, keys.last())
    }
}

/// How many of `keys` approve.
pub open spec fn approvals(keys: Seq<Seq<char>>) -> int
    decreases keys.len(),
{
    if keys.len() == 0 {
        0
    } else {
        approvals(keys.drop_last()) + if vote_of(keys.last()) == Some(Vote::Yes) { 1int } else { 0int }
    }
}

/// How many of `keys` reject.
pub open spec fn rejections(keys: Seq<Seq<char>>) -> int
    decreases keys.len(),
{
    if keys.len() == 0 {
        0
    } else {
        rejections(keys.drop_last()) + if vote_of(keys.last()) == Some(Vote::No) { 1int } else { 0int }
    }
}

/// A ballot opened at score 0 that receives reactions `keys` ends with the
/// score approvals minus rejections, keeps its proposal, and on expiry
/// forwards the proposal exactly when that score is positive.
pub proof fn lemma_vote_arithmetic(m: Map<Seq<char>, VoteReply>, id: Seq<char>, keys: Seq<Seq<char>>)
    requires
        m.contains_key(id),
        m[id].vote == 0,
        keys.len() <= i64::MAX,
    ensures
        after_reactions(m, id, keys).contains_key(id),
        after_reactions(m, id, keys)[id].vote == approvals(keys) - rejections(keys),
        after_reactions(m, id, keys)[id].pattern == m[id].pattern,
        after_reactions(m, id, keys)[id].reply == m[id].reply,
        expiry_result(after_reactions(m, id, keys), id) == if approvals(keys) - rejections(keys) > 0 {
            Some(EntryUpdate { pattern: m[id].pattern, reply: m[id].reply })
        } else {
            None
        },
    decreases keys.len(),
{
    lemma_counts_bounded(keys);
    if keys.len() > 0 {
        lemma_vote_arithmetic(m, id, keys.drop_last());
    }
}

proof fn lemma_counts_bounded(keys: Seq<Seq<char>>)
    ensures
        0 <= approvals(keys),
        0 <= rejections(keys),
        approvals(keys) + rejections(keys) <= keys.len(),
    decreases keys.len(),
{
    if keys.len() > 0 {
        lemma_counts_bounded(keys.drop_last());
    }
}

proof fn lemma_dom(s: Seq<Ballot>, k: Seq<char>)
    ensures
        ballot_map(s).contains_key(k) <==> exists|i: int| 0 <= i < s.len() && (#[trigger] s[i]).id@ == k,
    decreases s.len(),
{
    if s.len() > 0 {
        lemma_dom(s.drop_last(), k);
        if ballot_map(s.drop_last()).contains_key(k) {
            let i = choose|i: int| 0 <= i < s.drop_last().len() && (#[trigger] s.drop_last()[i]).id@ == k;
            assert(s[i].id@ == k);
        }
        if exists|i: int| 0 <= i < s.len() && (#[trigger] s[i]).id@ == k {
            let i = choose|i: int| 0 <= i < s.len() && (#[trigger] s[i]).id@ == k;
            if i < s.len() - 1 {
                assert(s.drop_last()[i].id@ == k);
            }
        }
    }
}

proof fn lemma_lookup(s: Seq<Ballot>, i: int)
    requires
        unique_ids(s),
        0 <= i < s.len(),
    ensures
        ballot_map(s).contains_key(s[i].id@),
        ballot_map(s)[s[i].id@] == s[i].proposal,
    decreases s.len(),
{
    if i < s.len() - 1 {
        lemma_lookup(s.drop_last(), i);
    }
}

proof fn lemma_update(s: Seq<Ballot>, i: int, b: Ballot)
    requires
        unique_ids(s),
        0 <= i < s.len(),
        s[i].id@ == b.id@,
    ensures
        ballot_map(s.update(i, b)) == ballot_map(s).insert(b.id@, b.proposal),
        unique_ids(s.update(i, b)),
    decreases s.len(),
{
    let u = s.update(i, b);
    if i == s.len() - 1 {
        assert(u.drop_last() =~= s.drop_last());
        assert(ballot_map(u) =~= ballot_map(s).insert(b.id@, b.proposal));
    } else {
        assert(u.drop_last() =~= s.drop_last().update(i, b));
        lemma_update(s.drop_last(), i, b);
        assert(ballot_map(u) =~= ballot_map(s).insert(b.id@, b.proposal));
    }
}

proof fn lemma_remove(s: Seq<Ballot>, i: int)
    requires
        unique_ids(s),
        0 <= i < s.len(),
    ensures
        ballot_map(s.remove(i)) == ballot_map(s).remove(s[i].id@),
        unique_ids(s.remove(i)),
    decreases s.len(),
{
    let r = s.remove(i);
    let id = s[i].id@;
    if i == s.len() - 1 {
        assert(r =~= s.drop_last());
        lemma_dom(s.drop_last(), id);
        assert(ballot_map(r) =~= ballot_map(s).remove(id));
    } else {
        assert(r.drop_last() =~= s.drop_last().remove(i));
        lemma_remove(s.drop_last(), i);
        assert(r.last() == s.last());
        assert(ballot_map(r) =~= ballot_map(s).remove(id));
    }
}

/// The open ballots.
pub struct BallotTable {
    ballots: Vec<Ballot>,
}

impl View for BallotTable {
    type V = Map<Seq<char>, VoteReply>;

    closed spec fn view(&self) -> Map<Seq<char>, VoteReply> {
        ballot_map(self.ballots@)
    }
}

impl BallotTable {
    /// Ballot ids are unique.
    pub closed spec fn wf(&self) -> bool {
        unique_ids(self.ballots@)
    }

    /// No ballot is open.
    pub fn new() -> (r: BallotTable)
        ensures
            r.wf(),
            r@ == Map::<Seq<char>, VoteReply>::empty(),
    {
        BallotTable { ballots: Vec::new() }
    }

    /// The position of ballot `id`, if it is open.
    fn position(&self, id: &str) -> (r: Option<usize>)
        requires
            self.wf(),
        ensures
            r matches Some(i) ==> i < self.ballots.len() && self.ballots[i as int].id@ == id@,
            r is None ==> !self@.contains_key(id@),
    {
        let mut k: usize = 0;
        while k < self.ballots.len()
            invariant
                0 <= k <= self.ballots.len(),
                forall|m: int| 0 <= m < k ==> self.ballots[m].id@ != id@,
            decreases self.ballots.len() - k,
        {
            if same_text(self.ballots[k].id.as_str(), id) {
                return Some(k);
            }
            k = k + 1;
        }
        proof {
            lemma_dom(self.ballots@, id@);
        }
        None
    }

    /// Opens a ballot on (`pattern`, `reply`) with score 0 under `id`,
    /// replacing any ballot open under the same id.
    pub fn open_ballot(&mut self, id: String, pattern: String, reply: String)
        requires
            old(self).wf(),
        ensures
            final(self).wf(),
            final(self)@ == old(self)@.insert(id@, VoteReply { pattern, reply, vote: 0 }),
    {
        let proposal = VoteReply { pattern, reply, vote: 0 };
        match self.position(id.as_str()) {
            Some(i) => {
                let b = Ballot { id, proposal };
                proof {
                    lemma_update(self.ballots@, i as int, b);
                }
                self.ballots.set(i, b);
            },
            None => {
                let b = Ballot { id, proposal };
                proof {
                    lemma_dom(self.ballots@, b.id@);
                    assert(self.ballots@.push(b).drop_last() =~= self.ballots@);
                }
                self.ballots.push(b);
            },
        }
    }

    /// Records a reaction with `key` to the message `id`.
    pub fn react(&mut self, id: &str, key: String)
        requires
            old(self).wf(),
        ensures
            final(self).wf(),
            final(self)@ == after_reaction(old(self)@, id@, key@),
    {
        let v = get_vote(key);
        match v {
            None => {},
            Some(v) => match self.position(id) {
                None => {},
                Some(i) => {
                    proof {
                        lemma_lookup(self.ballots@, i as int);
                    }
                    let old_vote = self.ballots[i].proposal.vote;
                    let new_vote = match v {
                        Vote::Yes => if old_vote < i64::MAX { old_vote + 1 } else { old_vote },
                        Vote::No => if old_vote > i64::MIN { old_vote - 1 } else { old_vote },
                    };
                    let b = Ballot {
                        id: self.ballots[i].id.clone(),
                        proposal: VoteReply {
                            pattern: self.ballots[i].proposal.pattern.clone(),
                            reply: self.ballots[i].proposal.reply.clone(),
                            vote: new_vote,
                        },
                    };
                    proof {
                        lemma_update(self.ballots@, i as int, b);
                    }
                    self.ballots.set(i, b);
                },
            },
        }
    }

    /// Closes ballot `id` and returns the proposal when its final score is
    /// positive; closing a ballot that is not open changes nothing.
    pub fn expire(&mut self, id: &str) -> (r: Option<EntryUpdate>)
        requires
            old(self).wf(),
        ensures
            final(self).wf(),
            final(self)@ == old(self)@.remove(id@),
            r == expiry_result(old(self)@, id@),
    {
        match self.position(id) {
            None => {
                assert(self@ =~= self@.remove(id@));
                None
            },
            Some(i) => {
                proof {
                    lemma_lookup(self.ballots@, i as int);
                    lemma_remove(self.ballots@, i as int);
                }
                let b = self.ballots.remove(i);
                if b.proposal.vote > 0 {
                    Some(EntryUpdate { pattern: b.proposal.pattern, reply: b.proposal.reply })
                } else {
                    None
                }
            },
        }
    }
}

} // verus!
