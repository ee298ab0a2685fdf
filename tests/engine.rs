use autoreply::command::{parse_append, plan_append, route_submission, AppendAction, Route};
use autoreply::join::{join_start, join_step, JoinState};
use autoreply::pipeline::{log_line, plan_drain, EntryUpdate};
use autoreply::reply::{ACStrategy, ReplyConfigEntry, ReplyType};
use autoreply::select::{choose_reply, select_reply};
use autoreply::vote::{get_vote, BallotTable, Vote};

fn plain(s: &str) -> ReplyType {
    ReplyType::PlainMessage(s.to_string())
}

fn entry(patterns: &[&str], reply: &str) -> ReplyConfigEntry {
    ReplyConfigEntry { patterns: patterns.iter().map(|p| p.to_string()).collect(), reply: plain(reply) }
}

fn update(p: &str, r: &str) -> EntryUpdate {
    EntryUpdate { pattern: p.to_string(), reply: r.to_string() }
}

fn store(entries: Vec<ReplyConfigEntry>) -> ACStrategy {
    match ACStrategy::new(entries) {
        Ok(s) => s,
        Err(e) => panic!("compile failed: {:?}", e),
    }
}

#[test]
fn hello_triggers_hi() {
    let s = store(vec![entry(&["hello"], "hi!")]);
    assert_eq!(s.find_reply("well hello there"), vec![plain("hi!")]);
}

#[test]
fn no_pattern_no_reply() {
    let s = store(vec![entry(&["hello"], "hi!")]);
    assert!(s.find_reply("good morning").is_empty());
    assert!(s.find_reply("").is_empty());
}

#[test]
fn overlapping_patterns_both_match() {
    let s = store(vec![entry(&["a"], "ra"), entry(&["ab"], "rab")]);
    assert_eq!(s.find_reply("xaby"), vec![plain("ra"), plain("rab")]);
}

#[test]
fn every_occurrence_counts() {
    let s = store(vec![entry(&["o"], "x")]);
    assert_eq!(s.find_reply("foo"), vec![plain("x"), plain("x")]);
}

#[test]
fn replies_grouped_under_one_pattern() {
    let s = store(vec![entry(&["hi", "hey"], "one"), entry(&["hi"], "two")]);
    assert_eq!(s.find_reply("hi"), vec![plain("one"), plain("two")]);
    assert_eq!(s.find_reply("hey"), vec![plain("one")]);
}

#[test]
fn pattern_text_yields_its_whole_list() {
    let s = store(vec![entry(&["cat"], "meow"), entry(&["cat"], "purr"), entry(&["dog"], "woof")]);
    let r = s.find_reply("cat");
    assert_eq!(r, vec![plain("meow"), plain("purr")]);
}

#[test]
fn replies_for_ids_skips_unknown_ids() {
    let s = store(vec![entry(&["a"], "ra"), entry(&["b"], "rb")]);
    assert_eq!(s.replies_for_ids(&vec![1, 7, 0, 1]), vec![plain("rb"), plain("ra"), plain("rb")]);
    assert!(s.replies_for_ids(&vec![]).is_empty());
}

#[test]
fn empty_drain_does_nothing() {
    let s = store(vec![entry(&["hello"], "hi!")]);
    let plan = plan_drain(&s, &vec![], true);
    assert!(plan.records.is_empty());
    assert!(plan.generation.is_none());
}

#[test]
fn fifty_submissions_one_rebuild() {
    let s = store(vec![entry(&["hello"], "hi!")]);
    let drained: Vec<EntryUpdate> = (0..50).map(|i| update(&format!("p{:02}x", i), &format!("r{}", i))).collect();
    let plan = plan_drain(&s, &drained, false);
    assert!(plan.records.is_empty());
    let next = match plan.generation {
        Some(Ok(g)) => g,
        _ => panic!("expected one new generation"),
    };
    for i in 0..50 {
        assert_eq!(next.find_reply(&format!("p{:02}x", i)), vec![plain(&format!("r{}", i))]);
    }
    assert_eq!(next.find_reply("hello"), vec![plain("hi!")]);
    assert!(s.find_reply("p00x").is_empty());
}

#[test]
fn merge_appends_to_known_pattern() {
    let s = store(vec![entry(&["hello"], "hi!")]);
    let next = s.merged(&vec![update("hello", "yo"), update("new", "fresh"), update("hello", "hey")]).unwrap();
    assert_eq!(next.find_reply("hello"), vec![plain("hi!"), plain("yo"), plain("hey")]);
    assert_eq!(next.find_reply("new"), vec![plain("fresh")]);
}

#[test]
fn log_records_in_json() {
    assert_eq!(log_line(&update("foo", "bar")), "{\"pattern\":\"foo\",\"reply\":\"bar\"}".to_string());
    let s = store(vec![]);
    let plan = plan_drain(&s, &vec![update("foo", "bar"), update("a\"b", "c d")], true);
    assert_eq!(
        plan.records,
        vec![
            "{\"pattern\":\"foo\",\"reply\":\"bar\"}".to_string(),
            "{\"pattern\":\"a\\\"b\",\"reply\":\"c d\"}".to_string(),
        ]
    );
}

#[test]
fn log_records_escape_controls() {
    assert_eq!(
        log_line(&update("a\nb\u{1}", "\\\t\u{e9}")),
        "{\"pattern\":\"a\\nb\\u0001\",\"reply\":\"\\\\\\t\u{e9}\"}".to_string()
    );
}

#[test]
fn parse_append_commands() {
    assert_eq!(parse_append("/append foo bar"), Some(("foo".to_string(), "bar".to_string())));
    assert_eq!(parse_append("/append foo bar baz"), Some(("foo".to_string(), "bar baz".to_string())));
    assert_eq!(parse_append("/append foo"), None);
    assert_eq!(parse_append("/appendfoo bar"), None);
    assert_eq!(parse_append("hello /append foo bar"), None);
    assert_eq!(parse_append("/append "), None);
}

#[test]
fn routing_by_allow_set() {
    let alice = "@alice:x".to_string();
    let bob = "@bob:x".to_string();
    let allow = vec![alice.clone()];
    assert_eq!(route_submission(&alice, &allow, true), Route::Direct);
    assert_eq!(route_submission(&bob, &allow, true), Route::Ballot);
    assert_eq!(route_submission(&bob, &allow, false), Route::Dropped);
    assert_eq!(route_submission(&bob, &vec![], true), Route::Direct);
    assert_eq!(route_submission(&bob, &vec![], false), Route::Direct);
}

#[test]
fn trusted_submission_skips_ballot() {
    let alice = "@alice:x".to_string();
    match plan_append("/append foo bar", &alice, &vec![alice.clone()], true) {
        AppendAction::Submit(u) => {
            assert_eq!(u.pattern, "foo");
            assert_eq!(u.reply, "bar");
        }
        _ => panic!("expected a direct submission"),
    }
    assert!(matches!(plan_append("/append foo bar", &alice, &vec![], true), AppendAction::Submit(_)));
    assert!(matches!(plan_append("hello", &alice, &vec![], true), AppendAction::Ignore));
}

#[test]
fn untrusted_submission_is_announced() {
    let bob = "@bob:x".to_string();
    let allow = vec!["@alice:x".to_string()];
    match plan_append("/append foo bar", &bob, &allow, true) {
        AppendAction::Announce { text, pattern, reply } => {
            assert_eq!(text, "Sender: @bob:x\nfoo -> bar");
            assert_eq!(pattern, "foo");
            assert_eq!(reply, "bar");
        }
        _ => panic!("expected an announcement"),
    }
    assert!(matches!(plan_append("/append foo bar", &bob, &allow, false), AppendAction::Ignore));
}

#[test]
fn reaction_keys() {
    assert_eq!(get_vote("\u{1F44D}".to_string()), Some(Vote::Yes));
    assert_eq!(get_vote("\u{1F44D}\u{1F3FD}".to_string()), Some(Vote::Yes));
    assert_eq!(get_vote("\u{1F44E}".to_string()), Some(Vote::No));
    assert_eq!(get_vote("\u{2764}".to_string()), None);
}

fn vote_round(approve: usize, reject: usize) -> Option<EntryUpdate> {
    let mut t = BallotTable::new();
    t.open_ballot("$ev1".to_string(), "foo".to_string(), "bar".to_string());
    for _ in 0..approve {
        t.react("$ev1", "\u{1F44D}".to_string());
    }
    for _ in 0..reject {
        t.react("$ev1", "\u{1F44E}".to_string());
    }
    t.react("$other", "\u{1F44D}".to_string());
    t.react("$ev1", "\u{2764}".to_string());
    let r = t.expire("$ev1");
    assert!(t.expire("$ev1").is_none());
    r
}

#[test]
fn approved_proposal_becomes_matchable() {
    let fwd = vote_round(2, 1).expect("score 1 forwards");
    let s = store(vec![entry(&["hello"], "hi!")]);
    let plan = plan_drain(&s, &vec![fwd], false);
    let next = match plan.generation {
        Some(Ok(g)) => g,
        _ => panic!("expected a rebuild"),
    };
    assert_eq!(next.find_reply("foo"), vec![plain("bar")]);
}

#[test]
fn rejected_proposal_is_dropped() {
    assert!(vote_round(1, 2).is_none());
    assert!(vote_round(1, 1).is_none());
    assert!(vote_round(0, 0).is_none());
}

#[test]
fn join_backoff_doubles_then_gives_up() {
    let mut st = join_start();
    let mut waits = vec![];
    loop {
        let step = join_step(st, false);
        waits.push(step.wait);
        st = step.next;
        if st == JoinState::Abandoned {
            break;
        }
    }
    assert_eq!(waits, vec![2, 4, 8, 16, 32, 64, 128, 256, 512, 1024, 2048, 0]);
    let last = join_step(JoinState::Pending { delay: 2048 }, false);
    assert_eq!(last.next, JoinState::Pending { delay: 4096 });
    assert_eq!(last.wait, 2048);
    let ok = join_step(JoinState::Pending { delay: 8 }, true);
    assert_eq!(ok.next, JoinState::Joined);
    assert_eq!(join_step(JoinState::Joined, false).next, JoinState::Joined);
}

#[test]
fn reply_selection() {
    let rs = vec![plain("a"), plain("b"), plain("c")];
    assert_eq!(select_reply(&rs, 4), Some("b".to_string()));
    assert_eq!(select_reply(&vec![], 4), None);
    assert_eq!(choose_reply(&vec![]).0, None);
    let c = choose_reply(&rs).0.unwrap();
    assert!(c == "a" || c == "b" || c == "c");
}
