//! Sessions of the administrator and the limit on failed logins. Times are nanoseconds since
//! the epoch, and are handed in.
use crate::text::{copy, same};
use vstd::prelude::*;

verus! {

/// How long a session lasts, in hours.
pub const ADMIN_SESSION_TTL_HOURS: i64 = 24;

/// The window in which failed logins count, in seconds.
pub const LOGIN_FAIL_WINDOW_SECS: i64 = 60;

/// How many failures of one address are allowed in a window.
pub const LOGIN_FAIL_MAX_PER_IP: u32 = 5;

/// How many failures in all are allowed in a window.
pub const LOGIN_FAIL_MAX_GLOBAL: u32 = 20;

/// How many addresses are remembered before old ones are dropped.
pub const LOGIN_RATE_LIMIT_MAX_ENTRIES: usize = 10_000;

/// How often a login at the local proxy is asked after.
pub const LOGIN_POLL_MAX_ATTEMPTS: u16 = 150;

/// The largest JSON body that is accepted, in bytes.
pub const JSON_PAYLOAD_LIMIT: usize = 33_554_432;

/// A count that began at some time.
#[derive(Debug, Clone, Copy, PartialEq, Eq, Structural)]
pub struct Tally {
    pub count: u32,
    pub since: i64,
}

/// Counts under names. Each name stands there once.
#[derive(Debug)]
pub struct Ledger {
    entries: Vec<(String, Tally)>,
}

/// Whether something that began at `since` is younger than `span` nanoseconds.
pub open spec fn is_recent(since: int, now: int, span: int) -> bool {
    now - since < span
}

spec fn names_of(s: Seq<(String, Tally)>) -> Seq<Seq<char>> {
    s.map_values(|e: (String, Tally)| e.0@)
}

spec fn fold_entries(s: Seq<(String, Tally)>) -> Map<Seq<char>, Tally>
    decreases s.len(),
{
    if s.len() == 0 {
        Map::empty()
    } else {
        fold_entries(s.drop_last()).insert(s.last().0@, s.last().1)
    }
}

proof fn fold_facts(s: Seq<(String, Tally)>, k: Seq<char>)
    requires
        names_of(s).no_duplicates(),
    ensures
        fold_entries(s).dom().contains(k) <==> names_of(s).contains(k),
        forall|i: int| 0 <= i < s.len() && s[i].0@ == k ==> fold_entries(s)[k] == (#[trigger] s[i]).1,
    decreases s.len(),
{
    if s.len() > 0 {
        let t = s.drop_last();
        assert(names_of(t) =~= names_of(s).drop_last());
        assert(names_of(t).no_duplicates());
        fold_facts(t, k);
        if names_of(s).contains(k) {
            let i = choose|i: int| 0 <= i < s.len() && names_of(s)[i] == k;
            if i < t.len() {
                assert(names_of(t)[i] == k);
            }
        }
        if names_of(t).contains(k) {
            let i = choose|i: int| 0 <= i < t.len() && names_of(t)[i] == k;
            assert(names_of(s)[i] == k);
        }
        assert(names_of(s)[s.len() - 1] == s.last().0@);
        assert forall|i: int| 0 <= i < s.len() && s[i].0@ == k implies fold_entries(s)[k] == (
        #[trigger] s[i]).1 by {
            if i < t.len() {
                assert(t[i] == s[i]);
                assert(names_of(s)[i] != names_of(s)[s.len() - 1]);
            }
        }
    }
}

impl Ledger {
    #[verifier::type_invariant]
    spec fn inv(self) -> bool {
        names_of(self.entries@).no_duplicates()
    }

    /// The counts under names.
    pub closed spec fn view(self) -> Map<Seq<char>, Tally> {
        fold_entries(self.entries@)
    }

    /// A ledger without entries.
    pub fn new() -> (r: Ledger)
        ensures
            r@ == Map::<Seq<char>, Tally>::empty(),
    {
        Ledger { entries: Vec::new() }
    }

    /// The number of entries.
    pub fn len(&self) -> (r: usize)
        ensures
            r == self@.dom().len(),
            self@.dom().finite(),
    {
        proof {
            use_type_invariant(self);
            fold_len(self.entries@);
        }
        self.entries.len()
    }

    fn place(&self, name: &str) -> (r: Option<usize>)
        ensures
            match r {
                Some(i) => i < self.entries@.len() && self.entries@[i as int].0@ == name@
                    && self@.dom().contains(name@) && self@[name@] == self.entries@[i as int].1,
                None => !self@.dom().contains(name@),
            },
    {
        proof {
            use_type_invariant(self);
            fold_facts(self.entries@, name@);
        }
        let mut i: usize = 0;
        while i < self.entries.len()
            invariant
                i <= self.entries@.len(),
                names_of(self.entries@).no_duplicates(),
                forall|j: int| 0 <= j < i ==> (#[trigger] self.entries@[j]).0@ != name@,
            decreases self.entries@.len() - i,
        {
            if same(&self.entries[i].0, name) {
                proof {
                    assert(names_of(self.entries@)[i as int] == name@);
                    fold_facts(self.entries@, name@);
                }
                return Some(i);
            }
            i += 1;
        }
        proof {
            if names_of(self.entries@).contains(name@) {
                let j = choose|j: int|
                    0 <= j < self.entries@.len() && names_of(self.entries@)[j] == name@;
                assert(self.entries@[j].0@ == name@);
            }
        }
        None
    }

    /// The count under a name.
    pub fn get(&self, name: &str) -> (r: Option<Tally>)
        ensures
            r == (if self@.dom().contains(name@) {
                Some(self@[name@])
            } else {
                None
            }),
    {
        match self.place(name) {
            Some(i) => Some(self.entries[i].1),
            None => None,
        }
    }

    /// Takes a name out.
    pub fn remove(&mut self, name: &str)
        ensures
            final(self)@ == old(self)@.remove(name@),
    {
        proof {
            use_type_invariant(&*self);
        }
        let ghost before = self.entries@;
        let ghost old_map = self@;
        match self.place(name) {
            None => {
                assert(self@ =~= old_map.remove(name@));
            },
            Some(i) => {
                let mut e: Vec<(String, Tally)> = Vec::new();
                core::mem::swap(&mut e, &mut self.entries);
                e.remove(i);
                proof {
                    let after = e@;
                    let na = names_of(after);
                    let nb = names_of(before);
                    assert(na =~= nb.remove(i as int));
                    assert forall|a: int, b: int| 0 <= a < na.len() && 0 <= b < na.len() && a != b implies na[a]
                        != na[b] by {
                        let x = if a < i { a } else { a + 1 };
                        let y = if b < i { b } else { b + 1 };
                        assert(nb[x] != nb[y]);
                    }
                    let m = fold_entries(after);
                    assert forall|k: Seq<char>| #[trigger]
                        m.dom().contains(k) <==> old_map.remove(name@).dom().contains(k) by {
                        fold_facts(after, k);
                        fold_facts(before, k);
                        if na.contains(k) {
                            let j = choose|j: int| 0 <= j < na.len() && na[j] == k;
                            let x = if j < i { j } else { j + 1 };
                            assert(nb[x] == k);
                            assert(nb[x] != nb[i as int]);
                        }
                        if nb.contains(k) && k != name@ {
                            let j = choose|j: int| 0 <= j < nb.len() && nb[j] == k;
                            let x = if j < i { j } else { j - 1 };
                            assert(na[x] == k);
                        }
                    }
                    assert forall|k: Seq<char>| #[trigger] m.dom().contains(k) implies m[k]
                        == old_map.remove(name@)[k] by {
                        fold_facts(after, k);
                        fold_facts(before, k);
                        let j = choose|j: int| 0 <= j < na.len() && na[j] == k;
                        let x = if j < i { j } else { j + 1 };
                        assert(after[j] == before[x]);
                    }
                    assert(m =~= old_map.remove(name@));
                }
                self.entries = e;
            },
        }
    }

    /// Puts a count under a name, in place of what stood there.
    pub fn insert(&mut self, name: &str, tally: Tally)
        ensures
            final(self)@ == old(self)@.insert(name@, tally),
    {
        let ghost old_map = self@;
        self.remove(name);
        proof {
            use_type_invariant(&*self);
        }
        let ghost before = self.entries@;
        let ghost mid = self@;
        let mut e: Vec<(String, Tally)> = Vec::new();
        core::mem::swap(&mut e, &mut self.entries);
        e.push((copy(name), tally));
        proof {
            let after = e@;
            fold_facts(before, name@);
            assert(names_of(after) =~= names_of(before).push(name@));
            assert(after.drop_last() =~= before);
            assert(!mid.dom().contains(name@));
            assert(names_of(after).no_duplicates());
            assert(mid.insert(name@, tally) =~= old_map.insert(name@, tally));
        }
        self.entries = e;
    }

    /// Keeps only what is younger than `span` nanoseconds.
    pub fn retain_recent(&mut self, now: i64, span: i64)
        ensures
            final(self)@ == recent_only(old(self)@, now as int, span as int),
    {
        proof {
            use_type_invariant(&*self);
        }
        let ghost before = self.entries@;
        let ghost old_map = self@;
        let mut out = Ledger::new();
        let mut i: usize = 0;
        while i < self.entries.len()
            invariant
                i <= self.entries@.len(),
                self.entries@ == before,
                names_of(before).no_duplicates(),
                out@ == recent_only(fold_entries(before.take(i as int)), now as int, span as int),
            decreases self.entries@.len() - i,
        {
            let ghost m = fold_entries(before.take(i as int));
            let tally = self.entries[i].1;
            proof {
                assert(before.take(i + 1).drop_last() =~= before.take(i as int));
                assert(names_of(before.take(i as int)) =~= names_of(before).take(i as int));
                fold_facts(before.take(i as int), before[i as int].0@);
                if names_of(before.take(i as int)).contains(before[i as int].0@) {
                    let j = choose|j: int|
                        0 <= j < i && names_of(before.take(i as int))[j] == before[i as int].0@;
                    assert(names_of(before)[j] == names_of(before)[i as int]);
                }
            }
            if (now as i128) - (tally.since as i128) < (span as i128) {
                out.insert(&self.entries[i].0, tally);
            }
            i += 1;
            assert(out@ =~= recent_only(
                fold_entries(before.take(i as int)),
                now as int,
                span as int,
            ));
        }
        assert(before.take(i as int) =~= before);
        *self = out;
    }
}

proof fn fold_len(s: Seq<(String, Tally)>)
    requires
        names_of(s).no_duplicates(),
    ensures
        fold_entries(s).dom().finite(),
        fold_entries(s).dom().len() == s.len(),
    decreases s.len(),
{
    if s.len() > 0 {
        let t = s.drop_last();
        assert(names_of(t) =~= names_of(s).drop_last());
        fold_len(t);
        fold_facts(t, s.last().0@);
        if names_of(t).contains(s.last().0@) {
            let i = choose|i: int| 0 <= i < t.len() && names_of(t)[i] == s.last().0@;
            assert(names_of(s)[i] == names_of(s)[s.len() - 1]);
        }
    }
}

/// The entries that are younger than `span` nanoseconds.
pub open spec fn recent_only(m: Map<Seq<char>, Tally>, now: int, span: int) -> Map<Seq<char>, Tally> {
    m.restrict(Set::new(|k: Seq<char>| is_recent(m[k].since as int, now, span)))
}

/// `uuid::Uuid::new_v4` and its `Display`: a random identifier in hyphenated form, which is 36
/// characters long. No two calls need agree.
#[verifier::external_body]
pub(crate) fn random_token() -> (r: String)
    ensures
        r@.len() == 36,
{
    uuid::Uuid::new_v4().to_string()
}

/// How long a session lasts, in nanoseconds.
pub const SESSION_SPAN: i64 = 86_400_000_000_000;

/// The sessions after a new one with the given token began: old ones are dropped.
pub open spec fn with_session(m: Map<Seq<char>, Tally>, token: Seq<char>, now: i64) -> Map<Seq<char>, Tally> {
    recent_only(m, now as int, SESSION_SPAN as int).insert(token, Tally { count: 0, since: now })
}

/// Whether a token is that of a session that has not run out.
pub open spec fn is_valid_session(m: Map<Seq<char>, Tally>, token: Seq<char>, now: i64) -> bool {
    m.dom().contains(token) && is_recent(m[token].since as int, now as int, SESSION_SPAN as int)
}

/// The sessions of the administrator.
#[derive(Debug)]
pub struct AdminSessionStore {
    sessions: Ledger,
}

impl AdminSessionStore {
    /// When each session began.
    pub closed spec fn view(self) -> Map<Seq<char>, Tally> {
        self.sessions@
    }

    /// A store without sessions.
    pub fn new() -> (r: AdminSessionStore)
        ensures
            r@ == Map::<Seq<char>, Tally>::empty(),
    {
        AdminSessionStore { sessions: Ledger::new() }
    }

    /// Begins a session with a given token.
    pub fn begin_session(&mut self, token: &str, now: i64)
        ensures
            final(self)@ == with_session(old(self)@, token@, now),
    {
        self.sessions.retain_recent(now, SESSION_SPAN);
        self.sessions.insert(token, Tally { count: 0, since: now });
    }

    /// Begins a session and returns its token, which is random.
    pub fn create_session(&mut self, now: i64) -> (r: String)
        ensures
            final(self)@ == with_session(old(self)@, r@, now),
            r@.len() == 36,
    {
        let token = random_token();
        self.begin_session(&token, now);
        token
    }

    /// Whether a token is that of a session; a session that has run out is forgotten.
    pub fn validate_session(&mut self, token: &str, now: i64) -> (r: bool)
        ensures
            r == is_valid_session(old(self)@, token@, now),
            final(self)@ == (if is_valid_session(old(self)@, token@, now) {
                old(self)@
            } else {
                old(self)@.remove(token@)
            }),
    {
        let ghost before = self@;
        match self.sessions.get(token) {
            Some(t) => {
                if (now as i128) - (t.since as i128) < (SESSION_SPAN as i128) {
                    true
                } else {
                    self.sessions.remove(token);
                    false
                }
            },
            None => {
                assert(before.remove(token@) =~= before);
                false
            },
        }
    }

    /// Ends a session.
    pub fn remove_session(&mut self, token: &str)
        ensures
            final(self)@ == old(self)@.remove(token@),
    {
        self.sessions.remove(token);
    }
}

impl Default for AdminSessionStore {
    fn default() -> (r: AdminSessionStore)
        ensures
            r@ == Map::<Seq<char>, Tally>::empty(),
    {
        AdminSessionStore::new()
    }
}

/// A session is valid from when it begins until its time has run out, and no longer; beginning
/// another session does not end it early.
pub proof fn sessions_last_their_time(
    m: Map<Seq<char>, Tally>,
    token: Seq<char>,
    other: Seq<char>,
    began: i64,
    later: i64,
    asked: i64,
)
    requires
        began <= later <= asked,
        other != token,
        later - began < SESSION_SPAN,
    ensures
        is_valid_session(with_session(m, token, began), token, asked) <==> asked - began
            < SESSION_SPAN,
        is_valid_session(
            with_session(with_session(m, token, began), other, later),
            token,
            asked,
        ) <==> asked - began < SESSION_SPAN,
        !is_valid_session(with_session(m, token, began).remove(token), token, asked),
{
}

/// The window in which failed logins count, in nanoseconds.
pub const FAIL_WINDOW: i64 = 60_000_000_000;

/// The name under which all failures count.
pub open spec fn global_name() -> Seq<char> {
    "global"@
}

/// Whether a name has reached its limit in the current window.
pub open spec fn is_blocked(m: Map<Seq<char>, Tally>, name: Seq<char>, limit: u32, now: i64) -> bool {
    m.dom().contains(name) && is_recent(m[name].since as int, now as int, FAIL_WINDOW as int)
        && m[name].count >= limit
}

/// How many whole seconds are left of the window of a name, at least one.
pub open spec fn seconds_left(m: Map<Seq<char>, Tally>, name: Seq<char>, now: i64) -> int {
    let left = (FAIL_WINDOW - (now - m[name].since)) / 1_000_000_000;
    if left < 1 {
        1
    } else {
        left
    }
}

/// Whether a login from an address may be tried, else how many seconds to wait.
pub open spec fn login_check(m: Map<Seq<char>, Tally>, ip: Seq<char>, now: i64) -> Result<(), int> {
    if is_blocked(m, ip, LOGIN_FAIL_MAX_PER_IP, now) {
        Err(seconds_left(m, ip, now))
    } else if is_blocked(m, global_name(), LOGIN_FAIL_MAX_GLOBAL, now) {
        Err(seconds_left(m, global_name(), now))
    } else {
        Ok(())
    }
}

/// A failure counted under one name: a new window begins where the last one is over. The count
/// stops at the largest number.
pub open spec fn counted(m: Map<Seq<char>, Tally>, name: Seq<char>, now: i64) -> Map<Seq<char>, Tally> {
    if m.dom().contains(name) && is_recent(m[name].since as int, now as int, FAIL_WINDOW as int) {
        m.insert(
            name,
            Tally {
                count: if m[name].count == u32::MAX {
                    u32::MAX
                } else {
                    (m[name].count + 1) as u32
                },
                since: m[name].since,
            },
        )
    } else {
        m.insert(name, Tally { count: 1, since: now })
    }
}

/// A failure of an address, counted for it and for all. Where too many names are remembered,
/// those whose window is over are dropped first.
pub open spec fn with_failure(m: Map<Seq<char>, Tally>, ip: Seq<char>, now: i64) -> Map<Seq<char>, Tally> {
    let kept = if m.dom().len() > LOGIN_RATE_LIMIT_MAX_ENTRIES {
        recent_only(m, now as int, FAIL_WINDOW as int)
    } else {
        m
    };
    counted(counted(kept, ip, now), global_name(), now)
}

/// Limits failed logins, for each address and for all together, so that made-up addresses do
/// not help.
#[derive(Debug)]
pub struct LoginRateLimiter {
    attempts: Ledger,
}

impl LoginRateLimiter {
    /// The failures under names.
    pub closed spec fn view(self) -> Map<Seq<char>, Tally> {
        self.attempts@
    }

    /// A limiter that has seen no failure.
    pub fn new() -> (r: LoginRateLimiter)
        ensures
            r@ == Map::<Seq<char>, Tally>::empty(),
    {
        LoginRateLimiter { attempts: Ledger::new() }
    }

    fn check_name(&self, name: &str, limit: u32, now: i64) -> (r: Option<i64>)
        ensures
            match r {
                Some(n) => is_blocked(self@, name@, limit, now) && n == seconds_left(
                    self@,
                    name@,
                    now,
                ),
                None => !is_blocked(self@, name@, limit, now),
            },
    {
        match self.attempts.get(name) {
            Some(t) => {
                let passed: i128 = (now as i128) - (t.since as i128);
                if passed < (FAIL_WINDOW as i128) && t.count >= limit {
                    let left: i128 = ((FAIL_WINDOW as i128) - passed) / 1_000_000_000;
                    if left < 1 {
                        Some(1)
                    } else {
                        assert(left <= 0x7fff_ffff_ffff_ffff);
                        Some(left as i64)
                    }
                } else {
                    None
                }
            },
            None => None,
        }
    }

    /// Whether a login from an address may be tried, else how many seconds to wait.
    pub fn check(&self, ip: &str, now: i64) -> (r: Result<(), i64>)
        ensures
            match r {
                Ok(()) => login_check(self@, ip@, now) is Ok,
                Err(n) => login_check(self@, ip@, now) == Err::<(), int>(n as int),
            },
    {
        match self.check_name(ip, LOGIN_FAIL_MAX_PER_IP, now) {
            Some(n) => Err(n),
            None => match self.check_name("global", LOGIN_FAIL_MAX_GLOBAL, now) {
                Some(n) => Err(n),
                None => Ok(()),
            },
        }
    }

    fn count(&mut self, name: &str, now: i64)
        ensures
            final(self)@ == counted(old(self)@, name@, now),
    {
        let tally = match self.attempts.get(name) {
            Some(t) => {
                if (now as i128) - (t.since as i128) < (FAIL_WINDOW as i128) {
                    let count: u32 = if t.count == u32::MAX {
                        u32::MAX
                    } else {
                        t.count + 1
                    };
                    Tally { count, since: t.since }
                } else {
                    Tally { count: 1, since: now }
                }
            },
            None => Tally { count: 1, since: now },
        };
        self.attempts.insert(name, tally);
    }

    /// Counts a failed login from an address.
    pub fn record_failure(&mut self, ip: &str, now: i64)
        ensures
            final(self)@ == with_failure(old(self)@, ip@, now),
    {
        if self.attempts.len() > LOGIN_RATE_LIMIT_MAX_ENTRIES {
            self.attempts.retain_recent(now, FAIL_WINDOW);
        }
        self.count(ip, now);
        self.count("global", now);
    }

    /// Forgets the failures of an address.
    pub fn clear(&mut self, ip: &str)
        ensures
            final(self)@ == old(self)@.remove(ip@),
    {
        self.attempts.remove(ip);
    }
}

impl Default for LoginRateLimiter {
    fn default() -> (r: LoginRateLimiter)
        ensures
            r@ == Map::<Seq<char>, Tally>::empty(),
    {
        LoginRateLimiter::new()
    }
}

/// What a row of failures of an address leaves.
pub open spec fn with_failures(m: Map<Seq<char>, Tally>, ip: Seq<char>, times: Seq<i64>) -> Map<
    Seq<char>,
    Tally,
>
    decreases times.len(),
{
    if times.len() == 0 {
        m
    } else {
        with_failure(with_failures(m, ip, times.drop_last()), ip, times.last())
    }
}

proof fn failures_add_up(ip: Seq<char>, times: Seq<i64>)
    requires
        ip != global_name(),
        0 < times.len() <= u32::MAX,
        forall|i: int| 0 <= i < times.len() ==> 0 <= #[trigger] times[i] - times[0] < FAIL_WINDOW,
    ensures
        ({
            let m = with_failures(Map::empty(), ip, times);
            &&& m.dom() == set![ip, global_name()]
            &&& m[ip] == (Tally { count: times.len() as u32, since: times[0] })
            &&& m[global_name()] == (Tally { count: times.len() as u32, since: times[0] })
        }),
    decreases times.len(),
{
    let t = times.drop_last();
    let empty = Map::<Seq<char>, Tally>::empty();
    if t.len() == 0 {
        assert(with_failures(empty, ip, t) == empty);
        assert(with_failures(empty, ip, times).dom() =~= set![ip, global_name()]);
    } else {
        assert forall|i: int| 0 <= i < t.len() implies 0 <= #[trigger] t[i] - t[0] < FAIL_WINDOW by {
            assert(0 <= times[i] - times[0] < FAIL_WINDOW);
        }
        failures_add_up(ip, t);
        let m = with_failures(empty, ip, t);
        assert(m.dom().len() <= 2);
        assert(0 <= times[times.len() - 1] - times[0] < FAIL_WINDOW);
        assert(with_failures(empty, ip, times).dom() =~= set![ip, global_name()]);
    }
}

/// As many failures as the limit allows, in one window, block the address for the rest of the
/// window; forgetting them lifts this; other addresses stay free until the limit for all is
/// reached, and then none is.
pub proof fn failures_block(ip: Seq<char>, other: Seq<char>, times: Seq<i64>, now: i64)
    requires
        ip != global_name(),
        other != global_name(),
        other != ip,
        LOGIN_FAIL_MAX_PER_IP <= times.len() <= u32::MAX,
        forall|i: int| 0 <= i < times.len() ==> 0 <= #[trigger] times[i] - times[0] < FAIL_WINDOW,
        0 <= now - times[0] < FAIL_WINDOW,
    ensures
        ({
            let m = with_failures(Map::empty(), ip, times);
            &&& login_check(m, ip, now) is Err
            &&& login_check(m, other, now) is Err <==> times.len() >= LOGIN_FAIL_MAX_GLOBAL
            &&& login_check(m.remove(ip), ip, now) is Err <==> times.len() >= LOGIN_FAIL_MAX_GLOBAL
        }),
{
    failures_add_up(ip, times);
}

/// What a row of failures of several addresses leaves, each given with its time.
pub open spec fn with_all_failures(m: Map<Seq<char>, Tally>, s: Seq<(Seq<char>, i64)>) -> Map<
    Seq<char>,
    Tally,
>
    decreases s.len(),
{
    if s.len() == 0 {
        m
    } else {
        with_failure(with_all_failures(m, s.drop_last()), s.last().0, s.last().1)
    }
}

/// How many of the failures are those of an address.
pub open spec fn failures_of(s: Seq<(Seq<char>, i64)>, ip: Seq<char>) -> nat
    decreases s.len(),
{
    if s.len() == 0 {
        0
    } else {
        failures_of(s.drop_last(), ip) + if s.last().0 == ip {
            1nat
        } else {
            0nat
        }
    }
}

/// Whether failures of addresses fall into the window that begins with the first of them.
pub open spec fn in_one_window(s: Seq<(Seq<char>, i64)>) -> bool {
    &&& forall|i: int| 0 <= i < s.len() ==> (#[trigger] s[i]).0 != global_name()
    &&& forall|i: int| 0 <= i < s.len() ==> 0 <= (#[trigger] s[i]).1 - s[0].1 < FAIL_WINDOW
}

proof fn all_failures_add_up(s: Seq<(Seq<char>, i64)>, ip: Seq<char>)
    requires
        in_one_window(s),
        0 < s.len() <= u32::MAX,
        ip != global_name(),
    ensures
        ({
            let m = with_all_failures(Map::empty(), s);
            &&& m.dom().contains(global_name())
            &&& m[global_name()] == (Tally { count: s.len() as u32, since: s[0].1 })
            &&& forall|k: Seq<char>| #[trigger]
                m.dom().contains(k) ==> 0 <= m[k].since - s[0].1 < FAIL_WINDOW
            &&& failures_of(s, ip) <= s.len()
            &&& m.dom().contains(ip) <==> failures_of(s, ip) > 0
            &&& m.dom().contains(ip) ==> m[ip].count == failures_of(s, ip)
        }),
    decreases s.len(),
{
    reveal_with_fuel(failures_of, 2);
    let t = s.drop_last();
    let empty = Map::<Seq<char>, Tally>::empty();
    let (name, now) = s.last();
    assert(s[s.len() - 1].0 != global_name());
    assert(0 <= s[s.len() - 1].1 - s[0].1 < FAIL_WINDOW);
    if t.len() == 0 {
        assert(with_all_failures(empty, t) == empty);
        assert(failures_of(t, ip) == 0);
    } else {
        assert forall|i: int| 0 <= i < t.len() implies (#[trigger] t[i]).0 != global_name() && 0
            <= t[i].1 - t[0].1 < FAIL_WINDOW by {
            assert(s[i].0 != global_name());
            assert(0 <= s[i].1 - s[0].1 < FAIL_WINDOW);
        }
        all_failures_add_up(t, ip);
        let m = with_all_failures(empty, t);
        assert(recent_only(m, now as int, FAIL_WINDOW as int) =~= m);
    }
}

/// Failures of several addresses in one window: an address is blocked for the rest of the window
/// just where its own failures reach its limit or all failures together reach theirs.
pub proof fn failures_of_all_block(s: Seq<(Seq<char>, i64)>, ip: Seq<char>, now: i64)
    requires
        in_one_window(s),
        0 < s.len() <= u32::MAX,
        ip != global_name(),
        0 <= now - s[0].1 < FAIL_WINDOW,
    ensures
        login_check(with_all_failures(Map::empty(), s), ip, now) is Err <==> failures_of(s, ip)
            >= LOGIN_FAIL_MAX_PER_IP || s.len() >= LOGIN_FAIL_MAX_GLOBAL,
{
    all_failures_add_up(s, ip);
}

/// When the window is over the address may try again.
pub proof fn blocks_end(m: Map<Seq<char>, Tally>, ip: Seq<char>, now: i64)
    requires
        m.dom().contains(ip) ==> now - m[ip].since >= FAIL_WINDOW,
        m.dom().contains(global_name()) ==> now - m[global_name()].since >= FAIL_WINDOW,
    ensures
        login_check(m, ip, now) is Ok,
{
}

} // verus!
