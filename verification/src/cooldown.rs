//! Per-channel cooldown of chat commands.
use vstd::prelude::*;
use crate::assoc::{assoc_map, has_key, keys_distinct, lemma_assoc_index, lemma_assoc_push, lemma_assoc_remove, lemma_assoc_update};

verus! {

/// How long a channel must wait between two accepted commands: 4 seconds, in nanoseconds.
pub const COOLDOWN_NANOS: u64 = 4_000_000_000;

/// Time elapsed from `earlier` to `later`, zero if `later` comes first (as
/// `Instant::duration_since` saturates).
pub open spec fn elapsed(later: u64, earlier: u64) -> int {
    if later >= earlier {
        later - earlier
    } else {
        0
    }
}

/// Whether a command at `now` falls within the cooldown of one accepted at `last`.
pub open spec fn cooling_down(last: u64, now: u64) -> bool {
    elapsed(now, last) < COOLDOWN_NANOS
}

/// The time of the last accepted command of each channel (by login). Times are nanoseconds on
/// a monotonic clock. The entries are a list with one entry per login: vstd states what a
/// `HashMap` does only for key types that follow its key model (integers, `bool`), not for
/// `String` keys.
pub struct CooldownTracker {
    entries: Vec<(String, u64)>,
}

/// The effect of a cooldown check: whether the command may run, and the times afterwards.
pub open spec fn cooldown_step(m: Map<Seq<char>, u64>, login: Seq<char>, now: u64) -> (bool, Map<Seq<char>, u64>) {
    if m.contains_key(login) && cooling_down(m[login], now) {
        (false, m)
    } else {
        (true, m.insert(login, now))
    }
}

impl View for CooldownTracker {
    type V = Map<Seq<char>, u64>;

    /// The last accepted time of each channel.
    closed spec fn view(&self) -> Map<Seq<char>, u64> {
        assoc_map(self.pairs())
    }
}

impl CooldownTracker {
    /// The entries with their keys as character sequences.
    pub closed spec fn pairs(&self) -> Seq<(Seq<char>, u64)> {
        self.entries@.map_values(|e: (String, u64)| (e.0@, e.1))
    }


    /// The tracker's invariant: one entry per channel.
    pub closed spec fn wf(&self) -> bool {
        keys_distinct(self.pairs())
    }

    /// A tracker with no channel on cooldown.
    pub fn new() -> (r: Self)
        ensures
            r.wf(),
            r.view() == Map::<Seq<char>, u64>::empty(),
    {
        let r = CooldownTracker { entries: Vec::new() };
        assert(r.pairs() =~= Seq::<(Seq<char>, u64)>::empty());
        assert(r.view() =~= Map::<Seq<char>, u64>::empty());
        r
    }

    fn find(&self, key: &String) -> (r: Option<usize>)
        ensures
            match r {
                Some(i) => i < self.pairs().len() && self.pairs()[i as int].0 == key@,
                None => !has_key(self.pairs(), key@),
            },
    {
        let n = self.entries.len();
        let mut i: usize = 0;
        while i < n
            invariant
                n == self.entries@.len(),
                self.pairs().len() == n,
                i <= n,
                forall|j: int| 0 <= j < i ==> self.pairs()[j].0 != key@,
            decreases n - i,
        {
            if self.entries[i].0 == *key {
                return Some(i);
            }
            i = i + 1;
        }
        None
    }

    /// Returns true if the channel `login` is _not_ on cooldown at `now`, and then starts a new
    /// cooldown from `now`; returns false (and changes nothing) while the last accepted command
    /// is less than 4 seconds old.
    pub fn check_update_cooldown(&mut self, login: &str, now: u64) -> (r: bool)
        requires
            old(self).wf(),
        ensures
            final(self).wf(),
            (r, final(self).view()) == cooldown_step(old(self).view(), login@, now),
    {
        let key = login.to_owned();
        let ghost p = self.pairs();
        match self.find(&key) {
            Some(i) => {
                proof {
                    lemma_assoc_index(p, i as int);
                }
                let last = self.entries[i].1;
                let el = if now >= last { now - last } else { 0 };
                if el < COOLDOWN_NANOS {
                    false
                } else {
                    self.entries.set(i, (key, now));
                    proof {
                        lemma_assoc_update(p, i as int, now);
                        assert(self.pairs() =~= p.update(i as int, (p[i as int].0, now)));
                    }
                    true
                }
            },
            None => {
                self.entries.push((key, now));
                proof {
                    lemma_assoc_push(p, login@, now);
                    assert(self.pairs() =~= p.push((login@, now)));
                }
                true
            },
        }
    }

    /// Forgets the cooldown of the channel `login` (when the channel is left).
    pub fn remove(&mut self, login: &str)
        requires
            old(self).wf(),
        ensures
            final(self).wf(),
            final(self).view() == old(self).view().remove(login@),
    {
        let key = login.to_owned();
        let ghost p = self.pairs();
        match self.find(&key) {
            Some(i) => {
                self.entries.remove(i);
                proof {
                    lemma_assoc_remove(p, i as int);
                    assert(self.pairs() =~= p.remove(i as int));
                }
            },
            None => {
                assert(self.view() =~= self.view().remove(login@));
            },
        }
    }
}

/// Two commands of one channel less than the cooldown apart: the second is refused.
pub proof fn law_cooldown_blocks_repeat(m: Map<Seq<char>, u64>, login: Seq<char>, t1: u64, t2: u64)
    requires
        cooldown_step(m, login, t1).0,
        t1 <= t2 < t1 + COOLDOWN_NANOS,
    ensures
        !cooldown_step(cooldown_step(m, login, t1).1, login, t2).0,
{
}

/// A command once the cooldown of the last accepted one has passed is accepted.
pub proof fn law_cooldown_expires(m: Map<Seq<char>, u64>, login: Seq<char>, t1: u64, t2: u64)
    requires
        cooldown_step(m, login, t1).0,
        t2 >= t1 + COOLDOWN_NANOS,
    ensures
        cooldown_step(cooldown_step(m, login, t1).1, login, t2).0,
{
}

/// Channels do not share a cooldown: a check of one leaves the others' times as they were.
pub proof fn law_cooldown_per_channel(m: Map<Seq<char>, u64>, a: Seq<char>, b: Seq<char>, now: u64)
    requires
        a != b,
    ensures
        cooldown_step(m, a, now).1.contains_key(b) == m.contains_key(b),
        m.contains_key(b) ==> cooldown_step(m, a, now).1[b] == m[b],
{
}

/// After a channel is forgotten, its next command is accepted.
pub proof fn law_cooldown_removed(m: Map<Seq<char>, u64>, login: Seq<char>, now: u64)
    ensures
        cooldown_step(m.remove(login), login, now).0,
{
}

/// The cooldown times after the first `k` of `events`, starting from `m`. An event is a
/// channel with `Some(now)` for a command checked at `now`, or `None` for the channel being
/// forgotten (left).
pub open spec fn cooldowns_after(m: Map<Seq<char>, u64>, events: Seq<(Seq<char>, Option<u64>)>, k: nat) -> Map<Seq<char>, u64>
    decreases k,
{
    if k == 0 || k > events.len() {
        m
    } else {
        let prev = cooldowns_after(m, events, (k - 1) as nat);
        let (login, at) = events[k - 1];
        match at {
            Some(now) => cooldown_step(prev, login, now).1,
            None => prev.remove(login),
        }
    }
}

/// Whether event `k` is a command that the cooldown lets through.
pub open spec fn accepted_at(m: Map<Seq<char>, u64>, events: Seq<(Seq<char>, Option<u64>)>, k: nat) -> bool {
    events[k as int].1 matches Some(now) && cooldown_step(cooldowns_after(m, events, k), events[k as int].0, now).0
}

/// A command refused by the cooldown changes nothing, so it does not extend the cooldown.
pub proof fn law_refused_changes_nothing(m: Map<Seq<char>, u64>, events: Seq<(Seq<char>, Option<u64>)>, k: nat)
    requires
        k < events.len(),
        events[k as int].1 is Some,
        !accepted_at(m, events, k),
    ensures
        cooldowns_after(m, events, k + 1) == cooldowns_after(m, events, k),
{
}

/// Between two events of channel `c` (after event `i` got through at `ti`), with `c` not
/// forgotten, the channel's time is still `ti` or at least a cooldown later.
proof fn lemma_cooldown_held(m: Map<Seq<char>, u64>, events: Seq<(Seq<char>, Option<u64>)>, i: nat, k: nat, j: nat)
    requires
        i < k <= j,
        j < events.len(),
        accepted_at(m, events, i),
        forall|k2: int| i < k2 < j ==> !(#[trigger] events[k2] == (events[i as int].0, None::<u64>)),
    ensures
        cooldowns_after(m, events, k).contains_key(events[i as int].0),
        cooldowns_after(m, events, k)[events[i as int].0] == events[i as int].1.unwrap()
            || cooldowns_after(m, events, k)[events[i as int].0] >= events[i as int].1.unwrap() + COOLDOWN_NANOS,
    decreases k,
{
    let c = events[i as int].0;
    if k > i + 1 {
        lemma_cooldown_held(m, events, i, (k - 1) as nat, j);
        let e = events[k - 1];
        if e.1 is None {
            assert(e != (c, None::<u64>));
        }
    }
}

/// In any run of events, two commands of one channel that both get through, with the channel
/// not forgotten in between, are at least the cooldown (4 seconds) apart: per channel at most
/// one command is acted on in any 4-second window.
pub proof fn law_cooldown_window(m: Map<Seq<char>, u64>, events: Seq<(Seq<char>, Option<u64>)>, i: nat, j: nat)
    requires
        i < j < events.len(),
        events[i as int].0 == events[j as int].0,
        accepted_at(m, events, i),
        accepted_at(m, events, j),
        forall|k: int| i < k < j ==> !(#[trigger] events[k] == (events[i as int].0, None::<u64>)),
    ensures
        events[j as int].1.unwrap() >= events[i as int].1.unwrap() + COOLDOWN_NANOS,
{
    lemma_cooldown_held(m, events, i, j, j);
}
} // verus!
