//! The pattern store: a table from pattern to its replies, paired with a
//! matcher compiled from exactly the table's patterns.

use aho_corasick::{AhoCorasick, BuildError};
use vstd::prelude::*;

use crate::matcher::{builds, compile, count_occurrences, compiled_patterns, find_overlapping_ids, overlapping_match_ids};
use crate::pipeline::EntryUpdate;
use crate::text::{occurs_in, strings_view};

verus! {

/// One reply payload.
#[derive(Clone, Debug, PartialEq, Eq)]
pub enum ReplyType {
    PlainMessage(String),
}

impl ReplyType {
    /// A copy of this reply.
    pub fn duplicate(&self) -> (r: ReplyType)
        ensures
            r == *self,
    {
        match self {
            ReplyType::PlainMessage(s) => ReplyType::PlainMessage(s.clone()),
        }
    }

    /// The text carried by this reply.
    pub fn text(&self) -> (r: String)
        ensures
            r@ == self.text_view(),
    {
        match self {
            ReplyType::PlainMessage(s) => s.clone(),
        }
    }

    pub open spec fn text_view(self) -> Seq<char> {
        match self {
            ReplyType::PlainMessage(s) => s@,
        }
    }
}

/// One configuration record: every listed pattern gets `reply`.
pub struct ReplyConfigEntry {
    pub patterns: Vec<String>,
    pub reply: ReplyType,
}

/// Why a generation could not be built.
#[derive(Debug)]
pub enum MatcherError {
    /// The pattern set could not be compiled into an automaton.
    Compile(BuildError),
}

/// The abstract content of a pattern store: patterns in order of first
/// appearance, and the reply list of each, position by position.
pub struct ReplyTable {
    pub patterns: Seq<Seq<char>>,
    pub replies: Seq<Seq<ReplyType>>,
}

impl ReplyTable {
    pub open spec fn empty() -> ReplyTable {
        ReplyTable { patterns: seq![], replies: seq![] }
    }

    /// Patterns are unique keys, each with a non-empty reply list.
    pub open spec fn wf(self) -> bool {
        &&& self.patterns.no_duplicates()
        &&& self.replies.len() == self.patterns.len()
        &&& forall|i: int| 0 <= i < self.replies.len() ==> (#[trigger] self.replies[i]).len() > 0
    }

    /// Adds `r` to the replies of `p`: appended to its list when `p` is
    /// present, else `p` is added at the end with `[r]`.
    pub open spec fn add(self, p: Seq<char>, r: ReplyType) -> ReplyTable {
        if self.patterns.contains(p) {
            let i = self.patterns.index_of(p);
            ReplyTable { patterns: self.patterns, replies: self.replies.update(i, self.replies[i].push(r)) }
        } else {
            ReplyTable { patterns: self.patterns.push(p), replies: self.replies.push(seq![r]) }
        }
    }

    /// Adds every pair in order.
    pub open spec fn add_all(self, pairs: Seq<(Seq<char>, ReplyType)>) -> ReplyTable
        decreases pairs.len(),
    {
        if pairs.len() == 0 {
            self
        } else {
            self.add_all(pairs.drop_last()).add(pairs.last().0, pairs.last().1)
        }
    }

    /// The table as a map from pattern to replies.
    pub open spec fn reply_map(self) -> Map<Seq<char>, Seq<ReplyType>> {
        Map::new(|p: Seq<char>| self.patterns.contains(p), |p: Seq<char>| self.replies[self.patterns.index_of(p)])
    }

    /// The replies of the patterns with the given ids, concatenated in id
    /// order; an id outside the table contributes nothing.
    pub open spec fn gather(self, ids: Seq<usize>) -> Seq<ReplyType>
        decreases ids.len(),
    {
        if ids.len() == 0 {
            seq![]
        } else {
            let id = ids.last() as int;
            self.gather(ids.drop_last()) + if id < self.replies.len() { self.replies[id] } else { seq![] }
        }
    }
}

/// The (pattern, reply) pairs of one configuration record.
pub open spec fn entry_pairs(e: ReplyConfigEntry) -> Seq<(Seq<char>, ReplyType)> {
    e.patterns@.map_values(|p: String| (p@, e.reply))
}

/// The (pattern, reply) pairs of a configuration, record by record.
pub open spec fn config_pairs(es: Seq<ReplyConfigEntry>) -> Seq<(Seq<char>, ReplyType)>
    decreases es.len(),
{
    if es.len() == 0 {
        seq![]
    } else {
        config_pairs(es.drop_last()) + entry_pairs(es.last())
    }
}

/// The (pattern, reply) pairs of learned entries, in order.
pub open spec fn update_pairs(us: Seq<EntryUpdate>) -> Seq<(Seq<char>, ReplyType)> {
    us.map_values(|u: EntryUpdate| (u.pattern@, ReplyType::PlainMessage(u.reply)))
}

pub open spec fn lists_view(v: Seq<Vec<ReplyType>>) -> Seq<Seq<ReplyType>> {
    v.map_values(|l: Vec<ReplyType>| l@)
}

proof fn lemma_add_all_push(t: ReplyTable, pairs: Seq<(Seq<char>, ReplyType)>, x: (Seq<char>, ReplyType))
    ensures
        t.add_all(pairs.push(x)) == t.add_all(pairs).add(x.0, x.1),
{
    assert(pairs.push(x).drop_last() =~= pairs);
}

proof fn lemma_add_wf(t: ReplyTable, p: Seq<char>, r: ReplyType)
    requires
        t.wf(),
    ensures
        t.add(p, r).wf(),
{
    let n = t.add(p, r);
    if t.patterns.contains(p) {
        let i = t.patterns.index_of(p);
        assert forall|k: int| 0 <= k < n.replies.len() implies (#[trigger] n.replies[k]).len() > 0 by {
            if k != i {
                assert(n.replies[k] == t.replies[k]);
            }
        }
    } else {
        assert forall|a: int, b: int|
            0 <= a < n.patterns.len() && 0 <= b < n.patterns.len() && a != b implies n.patterns[a]
            != n.patterns[b] by {
            if a == t.patterns.len() as int {
                assert(t.patterns[b] == n.patterns[b]);
            } else if b == t.patterns.len() as int {
                assert(t.patterns[a] == n.patterns[a]);
            }
        }
        assert forall|k: int| 0 <= k < n.replies.len() implies (#[trigger] n.replies[k]).len() > 0 by {
            if k < t.replies.len() {
                assert(n.replies[k] == t.replies[k]);
            }
        }
    }
}

/// `run` stands in `s` as a contiguous block.
pub open spec fn contains_run(s: Seq<ReplyType>, run: Seq<ReplyType>) -> bool {
    exists|off: int| 0 <= off && off + run.len() <= s.len() && #[trigger] s.subrange(off, off + run.len()) == run
}

proof fn lemma_gather_member(t: ReplyTable, ids: Seq<usize>, k: int)
    requires
        0 <= k < t.gather(ids).len(),
    ensures
        exists|j: int|
            0 <= j < ids.len() && (ids[j] as int) < t.replies.len() && (#[trigger] t.replies[ids[j] as int]).contains(
                t.gather(ids)[k],
            ),
    decreases ids.len(),
{
    let prev = ids.drop_last();
    let id = ids.last() as int;
    let chunk = if id < t.replies.len() { t.replies[id] } else { seq![] };
    assert(t.gather(ids) == t.gather(prev) + chunk);
    if k < t.gather(prev).len() {
        lemma_gather_member(t, prev, k);
        let j = choose|j: int|
            0 <= j < prev.len() && (prev[j] as int) < t.replies.len() && (#[trigger] t.replies[prev[j] as int]).contains(
                t.gather(prev)[k],
            );
        assert(ids[j] == prev[j]);
        assert(t.replies[ids[j] as int].contains(t.gather(ids)[k]));
    } else {
        let m = k - t.gather(prev).len();
        assert(chunk[m] == t.gather(ids)[k]);
        assert(t.replies[ids[ids.len() - 1] as int].contains(t.gather(ids)[k]));
    }
}

proof fn lemma_gather_run(t: ReplyTable, ids: Seq<usize>, id: usize)
    requires
        ids.contains(id),
        (id as int) < t.replies.len(),
    ensures
        contains_run(t.gather(ids), t.replies[id as int]),
    decreases ids.len(),
{
    let prev = ids.drop_last();
    let chunk = if (ids.last() as int) < t.replies.len() { t.replies[ids.last() as int] } else { seq![] };
    let g = t.gather(ids);
    let run = t.replies[id as int];
    assert(g == t.gather(prev) + chunk);
    if ids.last() == id {
        let off = t.gather(prev).len() as int;
        assert(g.subrange(off, off + run.len()) =~= run);
    } else {
        let j = choose|j: int| 0 <= j < ids.len() && ids[j] == id;
        assert(prev[j] == id);
        assert(prev.contains(id));
        lemma_gather_run(t, prev, id);
        let off = choose|off: int|
            0 <= off && off + run.len() <= t.gather(prev).len() && #[trigger] t.gather(prev).subrange(
                off,
                off + run.len(),
            ) == run;
        assert(g.subrange(off, off + run.len()) =~= t.gather(prev).subrange(off, off + run.len()));
    }
}

/// A pattern always occurs in a text equal to itself.
pub proof fn lemma_pattern_occurs_in_itself(p: Seq<char>)
    ensures
        occurs_in(p, p),
{
    let z: int = 0;
    assert(p.subrange(z, z + p.len()) =~= p);
}

/// In a well-formed table the patterns, as a set, are exactly the keys of
/// the reply map.
pub proof fn lemma_pattern_set_is_key_set(t: ReplyTable)
    ensures
        t.patterns.to_set() == t.reply_map().dom(),
{
    assert(t.patterns.to_set() =~= t.reply_map().dom());
}

/// Adds `r` to the replies of `p` in the parallel vectors.
fn insert_reply(patterns: &mut Vec<String>, replies: &mut Vec<Vec<ReplyType>>, p: String, r: ReplyType)
    requires
        (ReplyTable { patterns: strings_view(old(patterns)@), replies: lists_view(old(replies)@) }).wf(),
    ensures
        (ReplyTable { patterns: strings_view(final(patterns)@), replies: lists_view(final(replies)@) })
            == (ReplyTable { patterns: strings_view(old(patterns)@), replies: lists_view(old(replies)@) }).add(p@, r),
        (ReplyTable { patterns: strings_view(final(patterns)@), replies: lists_view(final(replies)@) }).wf(),
{
    let ghost t = ReplyTable { patterns: strings_view(patterns@), replies: lists_view(replies@) };
    proof {
        lemma_add_wf(t, p@, r);
    }
    let mut k: usize = 0;
    while k < patterns.len()
        invariant
            0 <= k <= patterns.len(),
            t == (ReplyTable { patterns: strings_view(patterns@), replies: lists_view(replies@) }),
            t == (ReplyTable { patterns: strings_view(old(patterns)@), replies: lists_view(old(replies)@) }),
            t.wf(),
            forall|j: int| 0 <= j < k ==> t.patterns[j] != p@,
        decreases patterns.len() - k,
    {
        if patterns[k] == p {
            assert(t.patterns[k as int] == p@);
            assert(t.patterns.contains(p@));
            let ghost i = t.patterns.index_of(p@);
            assert(i == k as int);
            let mut lst = replies.remove(k);
            lst.push(r);
            replies.insert(k, lst);
            proof {
                let n = ReplyTable { patterns: strings_view(patterns@), replies: lists_view(replies@) };
                assert(n.patterns =~= t.add(p@, r).patterns);
                assert(n.replies =~= t.add(p@, r).replies);
                assert(n == t.add(p@, r));
            }
            return;
        }
        k = k + 1;
    }
    assert(!t.patterns.contains(p@));
    patterns.push(p);
    let mut lst: Vec<ReplyType> = Vec::new();
    lst.push(r);
    replies.push(lst);
    proof {
        let n = ReplyTable { patterns: strings_view(patterns@), replies: lists_view(replies@) };
        assert(n.patterns =~= t.add(p@, r).patterns);
        assert(n.replies =~= t.add(p@, r).replies);
    }
}

/// A generation of the pattern store: the reply table and a matcher compiled
/// from exactly its patterns.
pub struct ACStrategy {
    ac_automaton: AhoCorasick,
    patterns: Vec<String>,
    pattern_replies: Vec<Vec<ReplyType>>,
}

impl ACStrategy {
    /// The table this generation serves.
    pub closed spec fn table(&self) -> ReplyTable {
        ReplyTable { patterns: strings_view(self.patterns@), replies: lists_view(self.pattern_replies@) }
    }

    /// The patterns the matcher was compiled from.
    pub closed spec fn matcher_patterns(&self) -> Seq<Seq<char>> {
        compiled_patterns(self.ac_automaton)
    }

    /// The table is well formed and the matcher holds exactly its patterns.
    #[verifier::type_invariant]
    pub closed spec fn wf(&self) -> bool {
        &&& self.table().wf()
        &&& self.matcher_patterns() == self.table().patterns
    }

    /// Builds the first generation from configuration records: each pattern
    /// of each record gets that record's reply, patterns kept in order of
    /// first appearance.
    pub fn new(config_entries: Vec<ReplyConfigEntry>) -> (r: Result<ACStrategy, MatcherError>)
        ensures
            r is Ok == builds(ReplyTable::empty().add_all(config_pairs(config_entries@)).patterns),
            r matches Ok(s) ==> s.table().wf() && s.matcher_patterns() == s.table().patterns,
            r matches Ok(s) ==> s.wf() && s.table() == ReplyTable::empty().add_all(config_pairs(config_entries@))
                && s.matcher_patterns().to_set() == s.table().reply_map().dom(),
    {
        let mut patterns: Vec<String> = Vec::new();
        let mut replies: Vec<Vec<ReplyType>> = Vec::new();
        let ghost es = config_entries@;
        proof {
            assert(es.take(0) =~= Seq::<ReplyConfigEntry>::empty());
            assert(strings_view(patterns@) =~= Seq::<Seq<char>>::empty());
            assert(lists_view(replies@) =~= Seq::<Seq<ReplyType>>::empty());
        }
        let mut i: usize = 0;
        while i < config_entries.len()
            invariant
                0 <= i <= config_entries.len(),
                es == config_entries@,
                (ReplyTable { patterns: strings_view(patterns@), replies: lists_view(replies@) })
                    == ReplyTable::empty().add_all(config_pairs(es.take(i as int))),
                (ReplyTable { patterns: strings_view(patterns@), replies: lists_view(replies@) }).wf(),
            decreases config_entries.len() - i,
        {
            let entry = &config_entries[i];
            let ghost done = config_pairs(es.take(i as int));
            let mut j: usize = 0;
            while j < entry.patterns.len()
                invariant
                    0 <= j <= entry.patterns.len(),
                    i < es.len(),
                    *entry == es[i as int],
                    (ReplyTable { patterns: strings_view(patterns@), replies: lists_view(replies@) })
                        == ReplyTable::empty().add_all(done + entry_pairs(*entry).take(j as int)),
                    (ReplyTable { patterns: strings_view(patterns@), replies: lists_view(replies@) }).wf(),
                decreases entry.patterns.len() - j,
            {
                let p = entry.patterns[j].clone();
                let r = entry.reply.duplicate();
                proof {
                    let x = entry_pairs(*entry)[j as int];
                    assert(done + entry_pairs(*entry).take(j as int + 1) =~= (done + entry_pairs(*entry).take(
                        j as int,
                    )).push(x));
                    lemma_add_all_push(ReplyTable::empty(), done + entry_pairs(*entry).take(j as int), x);
                }
                insert_reply(&mut patterns, &mut replies, p, r);
                j = j + 1;
            }
            proof {
                assert(entry_pairs(*entry).take(j as int) =~= entry_pairs(*entry));
                assert(es.take(i as int + 1).drop_last() =~= es.take(i as int));
            }
            i = i + 1;
        }
        assert(es.take(i as int) =~= es);
        Self::build(patterns, replies)
    }

    /// Builds the next generation: this one's table with `updates` merged in
    /// order (a new pattern gets a one-reply list, a known pattern gets the
    /// reply appended), with a matcher compiled from the merged patterns.
    /// This generation is left as it is.
    pub fn merged(&self, updates: &Vec<EntryUpdate>) -> (r: Result<ACStrategy, MatcherError>)
        ensures
            r is Ok == builds(self.table().add_all(update_pairs(updates@)).patterns),
            r matches Ok(s) ==> s.table().wf() && s.matcher_patterns() == s.table().patterns,
            r matches Ok(s) ==> s.wf() && s.table() == self.table().add_all(update_pairs(updates@))
                && s.matcher_patterns().to_set() == s.table().reply_map().dom(),
    {
        proof {
            use_type_invariant(self);
        }
        let mut patterns: Vec<String> = Vec::new();
        let mut replies: Vec<Vec<ReplyType>> = Vec::new();
        let mut k: usize = 0;
        while k < self.patterns.len()
            invariant
                0 <= k <= self.patterns.len(),
                self.patterns.len() == self.pattern_replies.len(),
                patterns@ == self.patterns@.take(k as int),
                replies.len() == k,
                forall|m: int| 0 <= m < k ==> (#[trigger] replies[m])@ == self.pattern_replies[m]@,
            decreases self.patterns.len() - k,
        {
            patterns.push(self.patterns[k].clone());
            let src = &self.pattern_replies[k];
            let mut lst: Vec<ReplyType> = Vec::new();
            let mut m: usize = 0;
            while m < src.len()
                invariant
                    0 <= m <= src.len(),
                    lst@ == src@.take(m as int),
                decreases src.len() - m,
            {
                lst.push(src[m].duplicate());
                assert(src@.take(m as int + 1) =~= src@.take(m as int).push(src@[m as int]));
                m = m + 1;
            }
            assert(src@.take(m as int) =~= src@);
            replies.push(lst);
            assert(self.patterns@.take(k as int + 1) =~= self.patterns@.take(k as int).push(self.patterns@[k as int]));
            k = k + 1;
        }
        assert(patterns@ =~= self.patterns@);
        assert(lists_view(replies@) =~= lists_view(self.pattern_replies@));
        let ghost start = self.table();
        assert(start.add_all(update_pairs(updates@.take(0))) == start) by {
            assert(update_pairs(updates@.take(0)) =~= Seq::<(Seq<char>, ReplyType)>::empty());
        }
        let mut i: usize = 0;
        while i < updates.len()
            invariant
                0 <= i <= updates.len(),
                (ReplyTable { patterns: strings_view(patterns@), replies: lists_view(replies@) }) == start.add_all(
                    update_pairs(updates@.take(i as int)),
                ),
                (ReplyTable { patterns: strings_view(patterns@), replies: lists_view(replies@) }).wf(),
            decreases updates.len() - i,
        {
            let u = &updates[i];
            let p = u.pattern.clone();
            let r = ReplyType::PlainMessage(u.reply.clone());
            proof {
                let x = update_pairs(updates@)[i as int];
                assert(update_pairs(updates@.take(i as int + 1)) =~= update_pairs(updates@.take(i as int)).push(x));
                lemma_add_all_push(start, update_pairs(updates@.take(i as int)), x);
            }
            insert_reply(&mut patterns, &mut replies, p, r);
            i = i + 1;
        }
        assert(updates@.take(i as int) =~= updates@);
        Self::build(patterns, replies)
    }

    /// Compiles a matcher for a well-formed table held in parallel vectors.
    fn build(patterns: Vec<String>, replies: Vec<Vec<ReplyType>>) -> (r: Result<ACStrategy, MatcherError>)
        requires
            (ReplyTable { patterns: strings_view(patterns@), replies: lists_view(replies@) }).wf(),
        ensures
            r is Ok == builds(strings_view(patterns@)),
            r matches Ok(s) ==> s.wf() && s.table() == (ReplyTable {
                patterns: strings_view(patterns@),
                replies: lists_view(replies@),
            }) && s.matcher_patterns().to_set() == s.table().reply_map().dom(),
    {
        match compile(&patterns) {
            Ok(ac) => {
                let s = ACStrategy { ac_automaton: ac, patterns, pattern_replies: replies };
                proof {
                    lemma_pattern_set_is_key_set(s.table());
                }
                Ok(s)
            },
            Err(e) => Err(MatcherError::Compile(e)),
        }
    }

    /// The replies of the patterns with the given ids, concatenated in the
    /// order of `ids`.
    pub fn replies_for_ids(&self, ids: &Vec<usize>) -> (r: Vec<ReplyType>)
        ensures
            r@ == self.table().gather(ids@),
    {
        let mut out: Vec<ReplyType> = Vec::new();
        let mut k: usize = 0;
        while k < ids.len()
            invariant
                0 <= k <= ids.len(),
                out@ == self.table().gather(ids@.take(k as int)),
            decreases ids.len() - k,
        {
            let id = ids[k];
            assert(ids@.take(k as int + 1).drop_last() =~= ids@.take(k as int));
            if id < self.pattern_replies.len() {
                let lst = &self.pattern_replies[id];
                let ghost before = out@;
                let mut m: usize = 0;
                while m < lst.len()
                    invariant
                        0 <= m <= lst.len(),
                        out@ == before + lst@.take(m as int),
                    decreases lst.len() - m,
                {
                    out.push(lst[m].duplicate());
                    assert(lst@.take(m as int + 1) =~= lst@.take(m as int).push(lst@[m as int]));
                    assert(before + lst@.take(m as int + 1) =~= (before + lst@.take(m as int)).push(lst@[m as int]));
                    m = m + 1;
                }
                assert(lst@.take(m as int) =~= lst@);
            } else {
                assert(out@ =~= out@ + Seq::<ReplyType>::empty());
            }
            k = k + 1;
        }
        assert(ids@.take(k as int) =~= ids@);
        out
    }

    /// The replies triggered by `msg`: for every occurrence of every pattern,
    /// in the order the matcher reports occurrences, that pattern's full reply
    /// list.
    pub fn find_reply(&self, msg: &str) -> (r: Vec<ReplyType>)
        ensures
            r@ == self.table().gather(overlapping_match_ids(self.table().patterns, msg@)),
            forall|i: int|
                0 <= i < self.table().patterns.len() && self.table().patterns[i].len() > 0 ==> overlapping_match_ids(
                    self.table().patterns,
                    msg@,
                ).filter(|x: usize| x == i as usize).len() == count_occurrences(
                    #[trigger] self.table().patterns[i],
                    msg@,
                ),
            forall|k: int|
                0 <= k < r.len() ==> exists|i: int|
                    0 <= i < self.table().patterns.len() && occurs_in(self.table().patterns[i], msg@)
                        && (#[trigger] self.table().replies[i]).contains(#[trigger] r[k]),
            forall|i: int|
                0 <= i < self.table().patterns.len() && occurs_in(#[trigger] self.table().patterns[i], msg@)
                    ==> contains_run(r@, self.table().replies[i]),
    {
        proof {
            use_type_invariant(self);
        }
        let ids = find_overlapping_ids(&self.ac_automaton, msg);
        let r = self.replies_for_ids(&ids);
        proof {
            let t = self.table();
            assert forall|k: int| 0 <= k < r.len() implies exists|i: int|
                0 <= i < t.patterns.len() && occurs_in(t.patterns[i], msg@)
                    && (#[trigger] t.replies[i]).contains(#[trigger] r[k]) by {
                lemma_gather_member(t, ids@, k);
                let j = choose|j: int|
                    0 <= j < ids@.len() && (ids@[j] as int) < t.replies.len() && (#[trigger] t.replies[ids@[j] as int]).contains(
                        t.gather(ids@)[k],
                    );
                assert(ids[j] < compiled_patterns(self.ac_automaton).len());
                let i = ids@[j] as int;
                assert(occurs_in(t.patterns[i], msg@));
            }
            assert forall|i: int|
                0 <= i < t.patterns.len() && occurs_in(#[trigger] t.patterns[i], msg@) implies contains_run(
                r@,
                t.replies[i],
            ) by {
                assert(compiled_patterns(self.ac_automaton)[i] == t.patterns[i]);
                assert(t.patterns.len() == self.patterns.len());
                assert((i as usize) as int == i);
                assert(ids@.contains(i as usize));
                lemma_gather_run(t, ids@, i as usize);
            }
        }
        r
    }
}

} // verus!
