use vstd::prelude::*;
use crate::discord_modules::{CommandSource, KickVote};
use crate::text::{append_str, chars_of, concat_all, concat_strs, decimal_text, eq_ignore_ascii_case, format_decimal,
    slice_chars, starts_with_str, string_from_chars, text_is, text_is_ignore_ascii_case, trim, trim_chars,
    lemma_push_contains};

verus! {

/// Someone started a vote to change the map.
pub struct MapVoteEvent {
    pub initiator: String,
    pub map_target: String,
}

impl MapVoteEvent {
    /// The event's kind.
    pub fn event_type(&self) -> (r: &'static str)
        ensures
            r@ == "MapVoteEvent"@,
    {
        "MapVoteEvent"
    }

    /// The text announcing the vote.
    pub fn notification_text(&self) -> (r: String)
        ensures
            r@ == self.initiator@ + " started a vote to change map to "@ + self.map_target@,
    {
        let parts = [self.initiator.as_str(), " started a vote to change map to ", self.map_target.as_str()];
        let r = concat_strs(&parts);
        reveal_with_fuel(concat_all, 4);
        assert(parts@.drop_last().drop_last().drop_last() =~= Seq::<&str>::empty());
        assert(parts@.drop_last().drop_last() =~= seq![parts[0]]);
        assert(parts@.drop_last() =~= seq![parts[0], parts[1]]);
        r
    }
}

/// Someone voted (`choice` true for yes).
pub struct VoteCastEvent {
    pub voter_id: String,
    pub choice: bool,
}

impl VoteCastEvent {
    /// The event's kind.
    pub fn event_type(&self) -> (r: &'static str)
        ensures
            r@ == "VoteCastEvent"@,
    {
        "VoteCastEvent"
    }
}

/// How long a map vote lasts, in milliseconds.
pub const VOTE_DURATION_MS: u64 = 15000;

/// A running map vote; times are milliseconds on the caller's monotonic clock.
pub struct VoteState {
    map_name: String,
    yes_votes: Vec<String>,
    no_votes: Vec<String>,
    start_time: u64,
    last_broadcast: u64,
    end_time: u64,
}

/// What a running map vote holds: the map, who voted yes and no (each in the
/// order of their votes), and its clock readings.
pub struct VoteStateView {
    pub map_name: Seq<char>,
    pub yes: Seq<Seq<char>>,
    pub no: Seq<Seq<char>>,
    pub start_time: u64,
    pub last_broadcast: u64,
    pub end_time: u64,
}

impl View for VoteState {
    type V = VoteStateView;

    closed spec fn view(&self) -> VoteStateView {
        VoteStateView {
            map_name: self.map_name@,
            yes: self.yes_votes@.map_values(|s: String| s@),
            no: self.no_votes@.map_values(|s: String| s@),
            start_time: self.start_time,
            last_broadcast: self.last_broadcast,
            end_time: self.end_time,
        }
    }
}

/// Nobody votes twice on the same side, and nobody is on both sides.
pub open spec fn votes_wf(v: VoteStateView) -> bool {
    &&& v.yes.no_duplicates()
    &&& v.no.no_duplicates()
    &&& forall|i: int, j: int| 0 <= i < v.yes.len() && 0 <= j < v.no.len() ==> v.yes[i] != v.no[j]
}

/// `side` with `voter` added at the end unless already there.
pub open spec fn add_voter(side: Seq<Seq<char>>, voter: Seq<char>) -> Seq<Seq<char>> {
    if side.contains(voter) {
        side
    } else {
        side.push(voter)
    }
}

/// `side` without `voter`.
pub open spec fn remove_voter(side: Seq<Seq<char>>, voter: Seq<char>) -> Seq<Seq<char>> {
    side.filter(|x: Seq<char>| x != voter)
}

/// The reply to a chat line that starts a map vote.
pub enum VoteStartReply {
    /// A vote is already running; nothing changed.
    AlreadyActive,
    /// `initiator` started a vote for `map`.
    Started { initiator: String, map: String },
}

/// How a finished map vote went; a passed vote carries the console command
/// that changes the map.
pub enum VoteResult {
    Passed { yes: usize, no: usize, command: String },
    Failed { yes: usize, no: usize },
}

/// What a clock tick of a running vote produces.
pub enum VoteTick {
    /// The vote ended with this result.
    Resolved(VoteResult),
    /// A progress report: map, counts and whole seconds left.
    Progress { map: String, yes: usize, no: usize, remaining_secs: u64 },
}

/// The console command that travels to `map`.
pub open spec fn travel_command(map: Seq<char>) -> Seq<char> {
    "servertravel "@ + map
}

/// The map vote run from the game chat.
pub struct ExtMapVote {
    active_vote: Option<VoteState>,
}

/// Whether the text `s` occurs in `v`.
fn contains_string(v: &Vec<String>, s: &String) -> (r: bool)
    ensures
        r == v@.map_values(|x: String| x@).contains(s@),
{
    let mut i: usize = 0;
    while i < v.len()
        invariant
            i <= v@.len(),
            forall|j: int| 0 <= j < i ==> v@[j]@ != s@,
        decreases v@.len() - i,
    {
        if v[i] == *s {
            assert(v@.map_values(|x: String| x@)[i as int] == s@);
            return true;
        }
        i += 1;
    }
    proof {
        if v@.map_values(|x: String| x@).contains(s@) {
            let vv = v@.map_values(|x: String| x@);
            let j = choose|j: int| 0 <= j < vv.len() && #[trigger] vv[j] == s@;
            assert(v@[j]@ == s@);
        }
    }
    false
}

/// `v` without the strings equal to `s`.
fn remove_string(v: &Vec<String>, s: &String) -> (r: Vec<String>)
    ensures
        r@.map_values(|x: String| x@) == remove_voter(v@.map_values(|x: String| x@), s@),
{
    let mut r: Vec<String> = Vec::new();
    let ghost vv = v@.map_values(|x: String| x@);
    let ghost pred = |x: Seq<char>| x != s@;
    let mut i: usize = 0;
    while i < v.len()
        invariant
            i <= v@.len(),
            vv == v@.map_values(|x: String| x@),
            pred == (|x: Seq<char>| x != s@),
            r@.map_values(|x: String| x@) == vv.take(i as int).filter(pred),
        decreases v@.len() - i,
    {
        assert(vv.take(i + 1).drop_last() =~= vv.take(i as int));
        assert(vv.take(i + 1).last() == v@[i as int]@);
        reveal_with_fuel(Seq::<_>::filter, 1);
        if v[i] != *s {
            let ghost before = r@.map_values(|x: String| x@);
            r.push(v[i].clone());
            assert(r@.map_values(|x: String| x@) =~= before.push(v@[i as int]@));
        }
        i += 1;
    }
    assert(vv.take(v@.len() as int) =~= vv);
    r
}

/// Removing a voter from a list without repeats leaves a list without
/// repeats, without that voter, and holding nobody new.
proof fn lemma_filter_keeps_wf(s: Seq<Seq<char>>, voter: Seq<char>)
    requires
        s.no_duplicates(),
    ensures
        remove_voter(s, voter).no_duplicates(),
        !remove_voter(s, voter).contains(voter),
        forall|x: Seq<char>| #[trigger] remove_voter(s, voter).contains(x) ==> s.contains(x),
    decreases s.len(),
{
    if s.len() > 0 {
        let d = s.drop_last();
        assert(d.no_duplicates());
        lemma_filter_keeps_wf(d, voter);
        let f = remove_voter(d, voter);
        assert(remove_voter(s, voter) == if s.last() != voter {
            f.push(s.last())
        } else {
            f
        }) by {
            reveal_with_fuel(Seq::<_>::filter, 1);
        }
        assert forall|x: Seq<char>| #[trigger] f.contains(x) implies s.contains(x) by {
            assert(d.contains(x));
            let k = choose|k: int| 0 <= k < d.len() && d[k] == x;
            assert(s[k] == x);
        }
        if s.last() != voter {
            lemma_push_contains(f, s.last());
            if f.contains(s.last()) {
                assert(d.contains(s.last()));
                let k = choose|k: int| 0 <= k < d.len() && d[k] == s.last();
                assert(s[k] == s[s.len() - 1]);
            }
            let g = f.push(s.last());
            assert forall|i: int, j: int| 0 <= i < g.len() && 0 <= j < g.len() && i != j implies g[i] != g[j] by {
                if i == f.len() {
                    assert(f.contains(g[j]));
                } else if j == f.len() {
                    assert(f.contains(g[i]));
                }
            }
            assert forall|x: Seq<char>| #[trigger] g.contains(x) implies s.contains(x) by {
                if x != s.last() {
                    assert(f.contains(x));
                } else {
                    assert(s[s.len() - 1] == x);
                }
            }
        }
    } else {
        assert(remove_voter(s, voter) =~= s) by {
            reveal_with_fuel(Seq::<_>::filter, 1);
        }
    }
}


/// Casting a vote keeps the votes well formed and puts the voter on the chosen
/// side only.
pub proof fn lemma_cast_vote(yes: Seq<Seq<char>>, no: Seq<Seq<char>>, voter: Seq<char>)
    requires
        votes_wf(VoteStateView { map_name: seq![], yes, no, start_time: 0, last_broadcast: 0, end_time: 0 }),
    ensures
        ({
            let y2 = add_voter(yes, voter);
            let n2 = remove_voter(no, voter);
            &&& votes_wf(VoteStateView { map_name: seq![], yes: y2, no: n2, start_time: 0, last_broadcast: 0, end_time: 0 })
            &&& y2.contains(voter)
            &&& !n2.contains(voter)
        }),
{
    lemma_filter_keeps_wf(no, voter);
    let y2 = add_voter(yes, voter);
    let n2 = remove_voter(no, voter);
    lemma_push_contains(yes, voter);
    if !yes.contains(voter) {
        assert forall|i: int, j: int| 0 <= i < y2.len() && 0 <= j < y2.len() && i != j implies y2[i] != y2[j] by {
            if i == yes.len() {
                assert(yes[j] == y2[j]);
            } else if j == yes.len() {
                assert(yes[i] == y2[i]);
            }
        }
    } else {
        let k = choose|k: int| 0 <= k < yes.len() && yes[k] == voter;
        assert(y2[k] == voter);
    }
    assert forall|i: int, j: int| 0 <= i < y2.len() && 0 <= j < n2.len() implies y2[i] != n2[j] by {
        assert(n2.contains(n2[j]));
        assert(no.contains(n2[j]));
        let k = choose|k: int| 0 <= k < no.len() && no[k] == n2[j];
        if i < yes.len() {
            assert(yes[i] == y2[i]);
        } else {
            assert(y2[i] == voter);
        }
    }
    if !yes.contains(voter) {
        assert(y2[yes.len() as int] == voter);
    }
}

/// The vote `st` after `voter` voted yes (when `yes` holds) or no: the voter
/// joins that side once and leaves the other.
fn cast_on(st: VoteState, voter: &String, yes: bool) -> (r: VoteState)
    requires
        votes_wf(st@),
    ensures
        votes_wf(r@),
        r.start_time == st.start_time,
        r.end_time == st.end_time,
        r@ == if yes {
            VoteStateView { yes: add_voter(st@.yes, voter@), no: remove_voter(st@.no, voter@), ..st@ }
        } else {
            VoteStateView { no: add_voter(st@.no, voter@), yes: remove_voter(st@.yes, voter@), ..st@ }
        },
{
    let ghost v = st@;
    let VoteState { map_name, yes_votes, no_votes, start_time, last_broadcast, end_time } = st;
    let (side_for, side_against) = if yes { (yes_votes, no_votes) } else { (no_votes, yes_votes) };
    let against = remove_string(&side_against, voter);
    let mut side = side_for;
    if !contains_string(&side, voter) {
        side.push(voter.clone());
    }
    proof {
        if yes {
            lemma_cast_vote(v.yes, v.no, voter@);
        } else {
            lemma_cast_vote(v.no, v.yes, voter@);
            let y2 = remove_voter(v.yes, voter@);
            let n2 = add_voter(v.no, voter@);
            assert forall|i: int, j: int| 0 <= i < y2.len() && 0 <= j < n2.len() implies y2[i] != n2[j] by {
                assert(n2[j] != y2[i]);
            }
        }
    }
    let (yes_votes, no_votes) = if yes { (side, against) } else { (against, side) };
    let st2 = VoteState { map_name, yes_votes, no_votes, start_time, last_broadcast, end_time };
    if yes {
        assert(st2@.yes =~= add_voter(v.yes, voter@));
        assert(st2@.no =~= remove_voter(v.no, voter@));
    } else {
        assert(st2@.no =~= add_voter(v.no, voter@));
        assert(st2@.yes =~= remove_voter(v.yes, voter@));
    }
    st2
}

impl ExtMapVote {
    /// A module with no running vote.
    pub fn new() -> (m: ExtMapVote)
        ensures
            m.active() is None,
    {
        ExtMapVote { active_vote: None }
    }

    /// The running vote, if any.
    pub closed spec fn active(&self) -> Option<VoteStateView> {
        match self.active_vote {
            Some(s) => Some(s@),
            None => None,
        }
    }

    /// The running vote, if any, is well formed.
    pub closed spec fn wf(&self) -> bool {
        match self.active_vote {
            Some(s) => votes_wf(s@) && s.start_time <= s.end_time,
            None => true,
        }
    }

    /// Starts a vote for `map` by `initiator` at time `now`, who votes yes;
    /// refused while a vote runs.
    pub fn init_vote(&mut self, initiator: String, map: String, now: u64) -> (r: VoteStartReply)
        requires
            old(self).wf(),
            now <= u64::MAX - VOTE_DURATION_MS,
        ensures
            final(self).wf(),
            match r {
                VoteStartReply::AlreadyActive => old(self).active() is Some && final(self).active() == old(self).active(),
                VoteStartReply::Started { initiator: i, map: m } => {
                    &&& old(self).active() is None
                    &&& i@ == initiator@
                    &&& m@ == map@
                    &&& final(self).active() == Some(VoteStateView {
                        map_name: map@,
                        yes: seq![initiator@],
                        no: seq![],
                        start_time: now,
                        last_broadcast: now,
                        end_time: (now + VOTE_DURATION_MS) as u64,
                    })
                },
            },
    {
        if self.active_vote.is_some() {
            return VoteStartReply::AlreadyActive;
        }
        let mut yes: Vec<String> = Vec::new();
        yes.push(initiator.clone());
        let st = VoteState {
            map_name: map.clone(),
            yes_votes: yes,
            no_votes: Vec::new(),
            start_time: now,
            last_broadcast: now,
            end_time: now + VOTE_DURATION_MS,
        };
        assert(st@.yes =~= seq![initiator@]);
        assert(st@.no =~= Seq::<Seq<char>>::empty());
        self.active_vote = Some(st);
        VoteStartReply::Started { initiator, map }
    }

    /// Records a vote of `voter` (yes when `yes` holds) in the running vote;
    /// the voter leaves the other side. Without a running vote nothing changes.
    pub fn cast_vote(&mut self, voter: &String, yes: bool)
        requires
            old(self).wf(),
        ensures
            final(self).wf(),
            match old(self).active() {
                None => final(self).active() is None,
                Some(v) => final(self).active() == Some(
                    if yes {
                        VoteStateView { yes: add_voter(v.yes, voter@), no: remove_voter(v.no, voter@), ..v }
                    } else {
                        VoteStateView { no: add_voter(v.no, voter@), yes: remove_voter(v.yes, voter@), ..v }
                    },
                ),
            },
    {
        match self.active_vote.take() {
            None => {},
            Some(st) => {
                self.active_vote = Some(cast_on(st, voter, yes));
            },
        }
    }

    /// Ends the running vote: it passes when it has more yes than no votes
    /// (and at least one yes), and then carries `servertravel <map>`.
    pub fn resolve_vote(&mut self) -> (r: Option<VoteResult>)
        requires
            old(self).wf(),
        ensures
            final(self).active() is None,
            final(self).wf(),
            match old(self).active() {
                None => r is None,
                Some(v) => match r {
                    Some(VoteResult::Passed { yes, no, command }) => {
                        &&& yes == v.yes.len()
                        &&& no == v.no.len()
                        &&& yes > no && yes > 0
                        &&& command@ == travel_command(v.map_name)
                    },
                    Some(VoteResult::Failed { yes, no }) => {
                        &&& yes == v.yes.len()
                        &&& no == v.no.len()
                        &&& !(yes > no && yes > 0)
                    },
                    None => false,
                },
            },
    {
        match self.active_vote.take() {
            None => None,
            Some(st) => {
                let yes = st.yes_votes.len();
                let no = st.no_votes.len();
                if yes > no && yes > 0 {
                    let parts = ["servertravel ", st.map_name.as_str()];
                    let command = concat_strs(&parts);
                    proof {
                        reveal_with_fuel(concat_all, 3);
                        assert(parts@.drop_last().drop_last() =~= Seq::<&str>::empty());
                        assert(parts@.drop_last() =~= seq![parts[0]]);
                    }
                    Some(VoteResult::Passed { yes, no, command })
                } else {
                    Some(VoteResult::Failed { yes, no })
                }
            },
        }
    }

    /// Handles a chat line of `sender` at time `now`: `!startvotemap <map>`
    /// starts a vote (the line and the map are trimmed), and while a vote runs
    /// `!yes` and `!no` (in any ASCII case) cast votes. Other lines are ignored.
    pub fn on_chat(&mut self, sender: &String, message: &str, now: u64) -> (r: Option<VoteStartReply>)
        requires
            old(self).wf(),
            now <= u64::MAX - VOTE_DURATION_MS,
        ensures
            final(self).wf(),
            ({
                let msg = trim(message@);
                if has_start_prefix(msg) {
                    r is Some && (r matches Some(VoteStartReply::Started { map: m, .. }) ==> m@ == trim(msg.skip(14)))
                } else if old(self).active() is Some && eq_ignore_ascii_case(msg, "!yes"@) {
                    r is None && final(self).active() == Some(VoteStateView {
                        yes: add_voter(old(self).active()->0.yes, sender@),
                        no: remove_voter(old(self).active()->0.no, sender@),
                        ..old(self).active()->0
                    })
                } else if old(self).active() is Some && eq_ignore_ascii_case(msg, "!no"@) {
                    r is None && final(self).active() == Some(VoteStateView {
                        no: add_voter(old(self).active()->0.no, sender@),
                        yes: remove_voter(old(self).active()->0.yes, sender@),
                        ..old(self).active()->0
                    })
                } else {
                    r is None && final(self).active() == old(self).active()
                }
            }),
    {
        let cs = chars_of(message);
        let msg = trim_chars(cs.as_slice());
        if starts_with_str(msg.as_slice(), "!startvotemap ") {
            proof {
                reveal_strlit("!startvotemap ");
            }
            let rest = slice_chars(msg.as_slice(), 14, msg.len());
            assert(rest@ =~= msg@.skip(14));
            let map = trim_chars(rest.as_slice());
            let reply = self.init_vote(sender.clone(), string_from_chars(map.as_slice()), now);
            return Some(reply);
        }
        if self.active_vote.is_some() {
            if text_is_ignore_ascii_case(msg.as_slice(), "!yes") {
                self.cast_vote(sender, true);
            } else if text_is_ignore_ascii_case(msg.as_slice(), "!no") {
                self.cast_vote(sender, false);
            }
        }
        None
    }

    /// Advances the running vote to time `now`: at its end time it is
    /// resolved; otherwise, when five whole seconds have passed since the last
    /// report and more than one whole second is left, a progress report is due.
    pub fn on_tick(&mut self, now: u64) -> (r: Option<VoteTick>)
        requires
            old(self).wf(),
        ensures
            final(self).wf(),
            match old(self).active() {
                None => r is None && final(self).active() is None,
                Some(v) => if now >= v.end_time {
                    r matches Some(VoteTick::Resolved(_)) && final(self).active() is None
                } else if elapsed_secs(v.last_broadcast, now) >= 5 && (v.end_time - now) / 1000 > 1 {
                    &&& r matches Some(VoteTick::Progress { map, yes, no, remaining_secs })
                        && map@ == v.map_name && yes == v.yes.len() && no == v.no.len()
                        && remaining_secs == (v.end_time - now) / 1000
                    &&& final(self).active() == Some(VoteStateView { last_broadcast: now, ..v })
                } else {
                    r is None && final(self).active() == old(self).active()
                },
            },
    {
        let (end_time, last) = match &self.active_vote {
            None => return None,
            Some(st) => (st.end_time, st.last_broadcast),
        };
        if now >= end_time {
            let res = self.resolve_vote();
            match res {
                Some(v) => return Some(VoteTick::Resolved(v)),
                None => return None,
            }
        }
        let since = if now >= last { now - last } else { 0 };
        if since / 1000 >= 5 && (end_time - now) / 1000 > 1 {
            match self.active_vote.take() {
                None => None,
                Some(st) => {
                    let map = st.map_name.clone();
                    let yes = st.yes_votes.len();
                    let no = st.no_votes.len();
                    let VoteState { map_name, yes_votes, no_votes, start_time, last_broadcast, end_time } = st;
                    let st2 = VoteState { map_name, yes_votes, no_votes, start_time, last_broadcast: now, end_time };
                    self.active_vote = Some(st2);
                    Some(VoteTick::Progress { map, yes, no, remaining_secs: (end_time - now) / 1000 })
                },
            }
        } else {
            None
        }
    }
}

/// Whether `msg` is a request to start a map vote.
pub open spec fn has_start_prefix(msg: Seq<char>) -> bool {
    "!startvotemap "@.len() <= msg.len() && msg.take("!startvotemap "@.len() as int) == "!startvotemap "@
}

/// Whole seconds from `since` to `now` (none if `now` is earlier).
pub open spec fn elapsed_secs(since: u64, now: u64) -> int {
    if now >= since {
        (now - since) / 1000
    } else {
        0
    }
}

/// How long a vote of the vote module runs, in milliseconds.
pub const MODULE_VOTE_DURATION_MS: u64 = 20000;

/// What a kind of vote needs before it starts.
#[derive(Clone, Copy, Debug, PartialEq, Eq, Structural)]
pub enum VotePrerequisite {
    /// A target argument.
    TargetArgument,
    /// Started from the game chat, naming the player to kick.
    KickFromGameChat,
}

/// Why a vote of kind `p` may not start from `source` with `args_len`
/// arguments, if it may not.
pub open spec fn prerequisite_error(p: VotePrerequisite, source: CommandSource, args_len: nat) -> Option<
    Seq<char>,
> {
    match p {
        VotePrerequisite::TargetArgument => if args_len == 0 {
            Some("This vote requires a target argument."@)
        } else {
            None
        },
        VotePrerequisite::KickFromGameChat => if source != CommandSource::GameChat {
            Some("Kick votes can only be started from in-game chat."@)
        } else if args_len == 0 {
            Some("You must specify a player name to kick."@)
        } else {
            None
        },
    }
}

/// Checks the prerequisite `p` for a vote started from `source` with `args`.
pub fn check_prerequisites(p: &VotePrerequisite, source: &CommandSource, args: &Vec<String>) -> (r: Result<(), String>)
    ensures
        match prerequisite_error(*p, *source, args@.len()) {
            None => r is Ok,
            Some(e) => r matches Err(m) && m@ == e,
        },
{
    match p {
        VotePrerequisite::TargetArgument => {
            if args.len() == 0 {
                Err("This vote requires a target argument.".to_owned())
            } else {
                Ok(())
            }
        },
        VotePrerequisite::KickFromGameChat => KickVote.check_prerequisites(source, args),
    }
}

/// A kind of vote the vote module holds: the command that starts it, what the
/// players are shown, the fewest voters (yes and no together) it needs to
/// count, and what it needs to start.
pub struct VoteKind {
    pub name: String,
    pub title: String,
    pub description: String,
    pub min_votes: usize,
    pub prerequisite: VotePrerequisite,
}

/// The vote to kick a player (see [`KickVote`]).
pub fn kick_vote_kind() -> (r: VoteKind)
    ensures
        r.name@ == "votekick"@,
        r.title@ == "Kick Player"@,
        r.description@ == "Vote to remove a disruptive player from the server. Please ensure there is a valid reason before voting."@,
        r.min_votes == 4,
        r.prerequisite == VotePrerequisite::KickFromGameChat,
{
    VoteKind {
        name: "votekick".to_owned(),
        title: KickVote.title(),
        description: KickVote.description(),
        min_votes: KickVote.min_votes(),
        prerequisite: VotePrerequisite::KickFromGameChat,
    }
}

/// An embed's title and text.
pub struct VoteEmbed {
    pub title: String,
    pub description: String,
}

/// The announcement of a vote of kind `k` on `target` started by `initiator`.
pub open spec fn vote_started_title(k: VoteKind) -> Seq<char> {
    "\u{1F5F3}\u{FE0F} Vote Started: "@ + k.title@
}

/// The text of that announcement.
pub open spec fn vote_started_text(k: VoteKind, target: Seq<char>, initiator: Seq<char>) -> Seq<char> {
    k.description@ + "\n\n**Target:** `"@ + target + "`\n**By:** "@ + initiator
}

/// What starting a vote from the registry gives.
pub enum RegistryVoteReply {
    /// No kind of vote has that name; the message says so.
    Unknown(String),
    /// The vote's prerequisite is not met; the message says why.
    Refused(String),
    /// The vote started; the announcement.
    Started(VoteEmbed),
}

/// How a finished vote stood: its kind, target and counts.
pub struct VoteTally {
    pub kind: usize,
    pub target: String,
    pub yes: usize,
    pub no: usize,
}

/// What a clock tick of the vote module produces.
pub enum ModuleVoteTick {
    /// The vote ended.
    Resolved(VoteTally),
    /// The vote is still running; the progress line.
    Progress(String),
}

/// What cancelling gives.
pub enum CancelReply {
    /// The running vote was cancelled; the announcement.
    Cancelled(VoteEmbed),
    /// No vote was running; the message says so.
    NoVote(String),
}

/// How a finished vote is announced.
pub struct VoteOutcome {
    pub passed: bool,
    pub title: String,
    pub count: String,
    pub description: String,
    pub color: u32,
}

/// The index of the first kind named `name`.
pub open spec fn first_kind_named(kinds: Seq<VoteKind>, name: Seq<char>) -> Option<int> {
    if exists|i: int| 0 <= i < kinds.len() && (#[trigger] kinds[i]).name@ == name {
        Some(choose|i: int| 0 <= i < kinds.len() && kinds[i].name@ == name && forall|j: int| 0 <= j < i ==> (#[trigger] kinds[j]).name@ != name)
    } else {
        None
    }
}

/// The progress line of a running vote.
pub open spec fn progress_text(yes: nat, no: nat, remaining_secs: nat) -> Seq<char> {
    "\u{23F3} **Vote Active:** "@ + decimal_text(yes) + " Yes | "@ + decimal_text(no) + " No ("@ + decimal_text(
        remaining_secs,
    ) + "s remaining)"@
}

/// Holds the kinds of vote players can start and the vote running, if any;
/// times are milliseconds on the caller's monotonic clock.
pub struct VoteModule {
    active_vote: Option<VoteState>,
    active_kind: usize,
    registry: Vec<VoteKind>,
}

impl VoteModule {
    /// The running vote, if any.
    pub closed spec fn active(&self) -> Option<VoteStateView> {
        match self.active_vote {
            Some(s) => Some(s@),
            None => None,
        }
    }

    /// The kind of the running vote.
    pub closed spec fn active_kind(&self) -> int {
        self.active_kind as int
    }

    /// The kinds of vote, in order.
    pub closed spec fn kinds(&self) -> Seq<VoteKind> {
        self.registry@
    }

    /// A running vote is well formed and of a known kind.
    pub closed spec fn wf(&self) -> bool {
        match self.active_vote {
            Some(s) => votes_wf(s@) && s.start_time <= s.end_time && self.active_kind < self.registry@.len(),
            None => true,
        }
    }

    /// A module with the kinds of vote `registry` and no running vote.
    pub fn new(registry: Vec<VoteKind>) -> (m: VoteModule)
        ensures
            m.wf(),
            m.active() is None,
            m.kinds() == registry@,
    {
        VoteModule { active_vote: None, active_kind: 0, registry }
    }

    /// The number of kinds of vote.
    pub fn kind_count(&self) -> (r: usize)
        ensures
            r == self.kinds().len(),
    {
        self.registry.len()
    }

    /// The module's name.
    pub fn name(&self) -> (r: &'static str)
        ensures
            r@ == "VoteModule"@,
    {
        "VoteModule"
    }

    /// Starts a vote of kind `kind` on `target` by `initiator` at time `now`,
    /// who votes yes; a running vote is replaced. Returns the announcement.
    pub fn init_vote(&mut self, kind: usize, target: String, initiator: String, now: u64) -> (r: VoteEmbed)
        requires
            kind < old(self).kinds().len(),
            now <= u64::MAX - MODULE_VOTE_DURATION_MS,
        ensures
            final(self).wf(),
            final(self).kinds() == old(self).kinds(),
            final(self).active_kind() == kind,
            final(self).active() == Some(VoteStateView {
                map_name: target@,
                yes: seq![initiator@],
                no: seq![],
                start_time: now,
                last_broadcast: now,
                end_time: (now + MODULE_VOTE_DURATION_MS) as u64,
            }),
            r.title@ == vote_started_title(old(self).kinds()[kind as int]),
            r.description@ == vote_started_text(old(self).kinds()[kind as int], target@, initiator@),
    {
        let k = &self.registry[kind];
        let mut t: Vec<char> = Vec::new();
        append_str(&mut t, "\u{1F5F3}\u{FE0F} Vote Started: ");
        append_str(&mut t, k.title.as_str());
        let mut d: Vec<char> = Vec::new();
        append_str(&mut d, k.description.as_str());
        append_str(&mut d, "\n\n**Target:** `");
        append_str(&mut d, target.as_str());
        append_str(&mut d, "`\n**By:** ");
        append_str(&mut d, initiator.as_str());
        let r = VoteEmbed { title: string_from_chars(t.as_slice()), description: string_from_chars(d.as_slice()) };
        let mut yes: Vec<String> = Vec::new();
        yes.push(initiator.clone());
        let st = VoteState {
            map_name: target,
            yes_votes: yes,
            no_votes: Vec::new(),
            start_time: now,
            last_broadcast: now,
            end_time: now + MODULE_VOTE_DURATION_MS,
        };
        assert(st@.yes =~= seq![initiator@]);
        assert(st@.no =~= Seq::<Seq<char>>::empty());
        self.active_vote = Some(st);
        self.active_kind = kind;
        r
    }

    /// The first kind of vote named `name`.
    fn find_kind(&self, name: &str) -> (r: Option<usize>)
        ensures
            match r {
                Some(i) => first_kind_named(self.kinds(), name@) == Some(i as int) && i < self.kinds().len(),
                None => first_kind_named(self.kinds(), name@) is None,
            },
    {
        let mut i: usize = 0;
        while i < self.registry.len()
            invariant
                i <= self.registry@.len(),
                forall|j: int| 0 <= j < i ==> (#[trigger] self.registry@[j]).name@ != name@,
            decreases self.registry@.len() - i,
        {
            let c = chars_of(self.registry[i].name.as_str());
            if text_is(c.as_slice(), name) {
                assert(self.registry@[i as int].name@ == name@);
                return Some(i);
            }
            i += 1;
        }
        None
    }

    /// Starts a vote of the kind named `vote_type` on `target` for `initiator`,
    /// whose command came from `source` with `args`: refused when no kind has
    /// that name or the kind's prerequisite is not met; otherwise the vote
    /// starts (see [`VoteModule::init_vote`]).
    pub fn run_registry_vote(
        &mut self,
        vote_type: &str,
        target: String,
        source: &CommandSource,
        args: &Vec<String>,
        initiator: String,
        now: u64,
    ) -> (r: RegistryVoteReply)
        requires
            old(self).wf(),
            now <= u64::MAX - MODULE_VOTE_DURATION_MS,
        ensures
            final(self).wf(),
            final(self).kinds() == old(self).kinds(),
            match first_kind_named(old(self).kinds(), vote_type@) {
                None => final(self).active() == old(self).active() && (r matches RegistryVoteReply::Unknown(m)
                    && m@ == "\u{274C} Unknown vote type: "@ + vote_type@),
                Some(k) => match prerequisite_error(old(self).kinds()[k].prerequisite, *source, args@.len()) {
                    Some(e) => final(self).active() == old(self).active() && (r matches RegistryVoteReply::Refused(
                        m,
                    ) && m@ == "\u{26A0}\u{FE0F} "@ + e),
                    None => {
                        &&& final(self).active_kind() == k
                        &&& final(self).active() == Some(VoteStateView {
                            map_name: target@,
                            yes: seq![initiator@],
                            no: seq![],
                            start_time: now,
                            last_broadcast: now,
                            end_time: (now + MODULE_VOTE_DURATION_MS) as u64,
                        })
                        &&& r matches RegistryVoteReply::Started(e) && e.title@ == vote_started_title(
                            old(self).kinds()[k],
                        ) && e.description@ == vote_started_text(old(self).kinds()[k], target@, initiator@)
                    },
                },
            },
    {
        match self.find_kind(vote_type) {
            None => {
                let mut m: Vec<char> = Vec::new();
                append_str(&mut m, "\u{274C} Unknown vote type: ");
                append_str(&mut m, vote_type);
                RegistryVoteReply::Unknown(string_from_chars(m.as_slice()))
            },
            Some(k) => {
                match check_prerequisites(&self.registry[k].prerequisite, source, args) {
                    Err(e) => {
                        let mut m: Vec<char> = Vec::new();
                        append_str(&mut m, "\u{26A0}\u{FE0F} ");
                        append_str(&mut m, e.as_str());
                        RegistryVoteReply::Refused(string_from_chars(m.as_slice()))
                    },
                    Ok(()) => RegistryVoteReply::Started(self.init_vote(k, target, initiator, now)),
                }
            },
        }
    }

    /// A yes vote of `voter` in the running vote (see [`VoteStateView`]): the
    /// voter joins the yes side and leaves the no side. Without a running vote
    /// nothing changes.
    pub fn cmd_yes(&mut self, voter: &String)
        requires
            old(self).wf(),
        ensures
            final(self).wf(),
            final(self).kinds() == old(self).kinds(),
            final(self).active_kind() == old(self).active_kind(),
            match old(self).active() {
                None => final(self).active() is None,
                Some(v) => final(self).active() == Some(
                    VoteStateView { yes: add_voter(v.yes, voter@), no: remove_voter(v.no, voter@), ..v },
                ),
            },
    {
        match self.active_vote.take() {
            None => {},
            Some(st) => {
                self.active_vote = Some(cast_on(st, voter, true));
            },
        }
    }

    /// A no vote of `voter` in the running vote: the voter joins the no side
    /// and leaves the yes side. Without a running vote nothing changes.
    pub fn cmd_no(&mut self, voter: &String)
        requires
            old(self).wf(),
        ensures
            final(self).wf(),
            final(self).kinds() == old(self).kinds(),
            final(self).active_kind() == old(self).active_kind(),
            match old(self).active() {
                None => final(self).active() is None,
                Some(v) => final(self).active() == Some(
                    VoteStateView { no: add_voter(v.no, voter@), yes: remove_voter(v.yes, voter@), ..v },
                ),
            },
    {
        match self.active_vote.take() {
            None => {},
            Some(st) => {
                self.active_vote = Some(cast_on(st, voter, false));
            },
        }
    }

    /// Cancels the running vote, announcing its kind's title and description;
    /// says so when no vote runs.
    pub fn cmd_cancelvote(&mut self) -> (r: CancelReply)
        requires
            old(self).wf(),
        ensures
            final(self).wf(),
            final(self).active() is None,
            final(self).kinds() == old(self).kinds(),
            match old(self).active() {
                None => r matches CancelReply::NoVote(m) && m@ == "No active Vote found"@,
                Some(_) => r matches CancelReply::Cancelled(e) && e.title@
                    == "\u{1F5F3}\u{FE0F} Vote Cancelled by Admin: "@ + old(self).kinds()[old(
                    self,
                ).active_kind()].title@ && e.description@ == old(self).kinds()[old(self).active_kind()].description@,
            },
    {
        if self.active_vote.is_none() {
            return CancelReply::NoVote("No active Vote found".to_owned());
        }
        let k = &self.registry[self.active_kind];
        let mut t: Vec<char> = Vec::new();
        append_str(&mut t, "\u{1F5F3}\u{FE0F} Vote Cancelled by Admin: ");
        append_str(&mut t, k.title.as_str());
        let e = VoteEmbed { title: string_from_chars(t.as_slice()), description: k.description.clone() };
        self.active_vote = None;
        CancelReply::Cancelled(e)
    }

    /// Ends the running vote and gives how it stood.
    pub fn resolve_vote(&mut self) -> (r: Option<VoteTally>)
        requires
            old(self).wf(),
        ensures
            final(self).wf(),
            final(self).active() is None,
            final(self).kinds() == old(self).kinds(),
            match old(self).active() {
                None => r is None,
                Some(v) => r matches Some(t) && t.kind == old(self).active_kind() && t.target@ == v.map_name
                    && t.yes == v.yes.len() && t.no == v.no.len(),
            },
    {
        match self.active_vote.take() {
            None => None,
            Some(st) => {
                let yes = st.yes_votes.len();
                let no = st.no_votes.len();
                Some(VoteTally { kind: self.active_kind, target: st.map_name, yes, no })
            },
        }
    }

    /// The module's clock tick at time `now`: a vote whose time is up ends;
    /// otherwise, five seconds or more after the last progress line, a new one
    /// gives the counts and the whole seconds left.
    pub fn on_tick(&mut self, now: u64) -> (r: Option<ModuleVoteTick>)
        requires
            old(self).wf(),
        ensures
            final(self).wf(),
            final(self).kinds() == old(self).kinds(),
            match old(self).active() {
                None => r is None && final(self).active() is None,
                Some(v) => if now >= v.end_time {
                    final(self).active() is None && (r matches Some(ModuleVoteTick::Resolved(t)) && t.kind
                        == old(self).active_kind() && t.target@ == v.map_name && t.yes == v.yes.len() && t.no
                        == v.no.len())
                } else if elapsed_secs(v.last_broadcast, now) >= 5 {
                    &&& final(self).active() == Some(VoteStateView { last_broadcast: now, ..v })
                    &&& final(self).active_kind() == old(self).active_kind()
                    &&& r matches Some(ModuleVoteTick::Progress(line)) && line@ == progress_text(
                        v.yes.len(),
                        v.no.len(),
                        ((v.end_time - now) / 1000) as nat,
                    )
                } else {
                    r is None && final(self).active() == old(self).active() && final(self).active_kind()
                        == old(self).active_kind()
                },
            },
    {
        let (end_time, last) = match &self.active_vote {
            None => return None,
            Some(st) => (st.end_time, st.last_broadcast),
        };
        if now >= end_time {
            return match self.resolve_vote() {
                Some(t) => Some(ModuleVoteTick::Resolved(t)),
                None => None,
            };
        }
        let since = if now >= last { now - last } else { 0 };
        if since / 1000 >= 5 {
            match self.active_vote.take() {
                None => None,
                Some(st) => {
                    let yes = st.yes_votes.len();
                    let no = st.no_votes.len();
                    let VoteState { map_name, yes_votes, no_votes, start_time, last_broadcast, end_time } = st;
                    let st2 = VoteState { map_name, yes_votes, no_votes, start_time, last_broadcast: now, end_time };
                    self.active_vote = Some(st2);
                    let mut l: Vec<char> = Vec::new();
                    append_str(&mut l, "\u{23F3} **Vote Active:** ");
                    let mut a = format_decimal(yes as u64);
                    l.append(&mut a);
                    append_str(&mut l, " Yes | ");
                    let mut b = format_decimal(no as u64);
                    l.append(&mut b);
                    append_str(&mut l, " No (");
                    let mut c = format_decimal((end_time - now) / 1000);
                    l.append(&mut c);
                    append_str(&mut l, "s remaining)");
                    Some(ModuleVoteTick::Progress(string_from_chars(l.as_slice())))
                },
            }
        } else {
            None
        }
    }

    /// How the finished vote `t` is announced: it passes when the yes share
    /// met the kind's ratio (`ratio_met`, which the caller works out) and at
    /// least the kind's fewest voters took part (yes and no together).
    pub fn outcome(&self, t: &VoteTally, ratio_met: bool) -> (r: VoteOutcome)
        requires
            t.kind < self.kinds().len(),
        ensures
            r.passed == (ratio_met && t.yes + t.no >= self.kinds()[t.kind as int].min_votes),
            r.title@ == "Results: "@ + self.kinds()[t.kind as int].title@,
            r.count@ == "\u{2705} "@ + decimal_text(t.yes as nat) + " Yes | \u{274C} "@ + decimal_text(t.no as nat)
                + " No"@,
            r.description@ == if r.passed {
                "\u{2705} **Passed!** Target `"@ + t.target@ + "` executed."@
            } else {
                "\u{274C} **Failed.** Requirements not met for `"@ + t.target@ + "`."@
            },
            r.color == if r.passed {
                0x2ecc71u32
            } else {
                0xe74c3cu32
            },
    {
        let k = &self.registry[t.kind];
        let passed = ratio_met && t.yes as u128 + t.no as u128 >= k.min_votes as u128;
        let mut ti: Vec<char> = Vec::new();
        append_str(&mut ti, "Results: ");
        append_str(&mut ti, k.title.as_str());
        let mut c: Vec<char> = Vec::new();
        append_str(&mut c, "\u{2705} ");
        let mut a = format_decimal(t.yes as u64);
        c.append(&mut a);
        append_str(&mut c, " Yes | \u{274C} ");
        let mut b = format_decimal(t.no as u64);
        c.append(&mut b);
        append_str(&mut c, " No");
        let mut d: Vec<char> = Vec::new();
        if passed {
            append_str(&mut d, "\u{2705} **Passed!** Target `");
            append_str(&mut d, t.target.as_str());
            append_str(&mut d, "` executed.");
        } else {
            append_str(&mut d, "\u{274C} **Failed.** Requirements not met for `");
            append_str(&mut d, t.target.as_str());
            append_str(&mut d, "`.");
        }
        VoteOutcome {
            passed,
            title: string_from_chars(ti.as_slice()),
            count: string_from_chars(c.as_slice()),
            description: string_from_chars(d.as_slice()),
            color: if passed {
                0x2ecc71
            } else {
                0xe74c3c
            },
        }
    }
}

} // verus!
