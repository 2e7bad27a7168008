//! The notification ledger: which message headers were injected into an agent's
//! terminal and which of them the agent has consumed since, so that a retry of a
//! consumed message can be held back.
//!
//! Instants are nanoseconds on a monotonic clock.
use crate::clock::{clock_start, nanos_since};
use crate::table::{kept, Key, Table};
use crate::text::{begins_with, same, split_ascii_space, starts_with, tokens, views};
use vstd::prelude::*;

verus! {

/// How long an entry counts, in seconds.
pub const IDEMPOTENCY_WINDOW_SECS: u64 = 600;

/// How long an entry counts, in nanoseconds.
pub const IDEMPOTENCY_WINDOW_NANOS: u64 = 600_000_000_000;

/// The delivery state of one message.
#[derive(Debug, Clone, Copy)]
pub struct Entry {
    pub injected_at: u64,
    pub consumed: bool,
}

/// A message, as seen by one agent.
#[derive(Debug)]
pub struct MessageKey {
    pub agent: String,
    pub msg_id: String,
}

impl Key for MessageKey {
    type Held = (Seq<char>, Seq<char>);

    open spec fn held(&self) -> (Seq<char>, Seq<char>) {
        (self.agent@, self.msg_id@)
    }

    fn same_key(&self, other: &Self) -> (r: bool) {
        same(self.agent.as_str(), other.agent.as_str()) && same(
            self.msg_id.as_str(),
            other.msg_id.as_str(),
        )
    }
}

/// The contents of a ledger: an entry for each agent and message.
pub type LedgerMap = Map<(Seq<char>, Seq<char>), Entry>;

/// The time from `at` to `now`, none if `now` is earlier.
pub open spec fn age(now: u64, at: u64) -> int {
    if now >= at {
        now - at
    } else {
        0
    }
}

/// Whether an entry still counts at `now`.
pub open spec fn fresh(e: Entry, now: u64) -> bool {
    age(now, e.injected_at) < IDEMPOTENCY_WINDOW_NANOS
}

/// The ledger after an injection at `at`: the entry's time is `at`, and it is
/// consumed only if it was before.
pub open spec fn injected(m: LedgerMap, key: (Seq<char>, Seq<char>), at: u64) -> LedgerMap {
    m.insert(
        key,
        Entry { injected_at: at, consumed: m.dom().contains(key) && m[key].consumed },
    )
}

/// The ledger after the agent has consumed the message; an unknown message
/// changes nothing.
pub open spec fn consumed(m: LedgerMap, key: (Seq<char>, Seq<char>)) -> LedgerMap {
    if m.dom().contains(key) {
        m.insert(key, Entry { injected_at: m[key].injected_at, consumed: true })
    } else {
        m
    }
}

/// Whether a retry of the message is held back at `now`.
pub open spec fn suppressed(m: LedgerMap, key: (Seq<char>, Seq<char>), now: u64) -> bool {
    m.dom().contains(key) && m[key].consumed && fresh(m[key], now)
}

/// The entries that still count at `now`.
pub open spec fn fresh_at(now: u64) -> spec_fn((Seq<char>, Seq<char>), Entry) -> bool {
    |k: (Seq<char>, Seq<char>), e: Entry| fresh(e, now)
}

/// The ledger without the entries that no longer count at `now`.
pub open spec fn swept(m: LedgerMap, now: u64) -> LedgerMap {
    kept(m, fresh_at(now))
}

fn is_fresh(e: &Entry, now: u64) -> (r: bool)
    ensures
        r == fresh(*e, now),
{
    now.saturating_sub(e.injected_at) < IDEMPOTENCY_WINDOW_NANOS
}

fn key_of(agent: &str, msg_id: &str) -> (k: MessageKey)
    ensures
        k.held() == (agent@, msg_id@),
{
    MessageKey { agent: String::from_str(agent), msg_id: String::from_str(msg_id) }
}

/// The delivery state of each message that was injected lately.
pub struct Ledger {
    start: std::time::Instant,
    state: Table<MessageKey, Entry>,
}

impl View for Ledger {
    type V = LedgerMap;

    closed spec fn view(&self) -> LedgerMap {
        self.state@
    }
}

impl Default for Ledger {
    /// The empty ledger.
    fn default() -> (l: Self)
        ensures
            l@ == LedgerMap::empty(),
    {
        Ledger { start: clock_start(), state: Table::new() }
    }
}

impl Ledger {
    /// Nanoseconds on this ledger's clock, which starts with the ledger. How much has
    /// passed is up to the machine; nothing is claimed of it.
    pub fn now(&self) -> (now: u64) {
        nanos_since(&self.start)
    }

    /// Records that the header of a message was injected just now.
    pub fn record_inject(&mut self, agent: &str, msg_id: &str)
        ensures
            exists|at: u64| final(self)@ == #[trigger] injected(old(self)@, (agent@, msg_id@), at),
    {
        let at: u64 = self.now();
        self.record_inject_at(agent, msg_id, at);
    }

    /// Records that the header of a message was injected at `at`.
    pub fn record_inject_at(&mut self, agent: &str, msg_id: &str, at: u64)
        ensures
            final(self)@ == injected(old(self)@, (agent@, msg_id@), at),
    {
        let key = key_of(agent, msg_id);
        let was_consumed: bool = match self.state.get(&key) {
            Some(e) => e.consumed,
            None => false,
        };
        self.state.insert(key, Entry { injected_at: at, consumed: was_consumed });
    }

    /// Records that the agent has consumed a message.
    pub fn mark_consumed(&mut self, agent: &str, msg_id: &str)
        ensures
            final(self)@ == consumed(old(self)@, (agent@, msg_id@)),
    {
        let key = key_of(agent, msg_id);
        let at: Option<u64> = match self.state.get(&key) {
            Some(e) => Some(e.injected_at),
            None => None,
        };
        if let Some(injected_at) = at {
            self.state.insert(key, Entry { injected_at, consumed: true });
        }
    }

    /// Whether a retry of the message is to be held back now.
    pub fn should_suppress_reinject(&self, agent: &str, msg_id: &str) -> (r: bool)
        ensures
            exists|now: u64| r == #[trigger] suppressed(self@, (agent@, msg_id@), now),
    {
        let now: u64 = self.now();
        self.should_suppress_reinject_at(agent, msg_id, now)
    }

    /// Whether a retry of the message is to be held back at `now`.
    pub fn should_suppress_reinject_at(&self, agent: &str, msg_id: &str, now: u64) -> (r: bool)
        ensures
            r == suppressed(self@, (agent@, msg_id@), now),
    {
        let key = key_of(agent, msg_id);
        match self.state.get(&key) {
            Some(e) => e.consumed && is_fresh(e, now),
            None => false,
        }
    }

    /// Drops the entries that no longer count.
    pub fn sweep_expired(&mut self)
        ensures
            exists|now: u64| final(self)@ == #[trigger] swept(old(self)@, now),
    {
        let now: u64 = self.now();
        let _dropped: usize = self.sweep_expired_at(now);
    }

    /// Drops the entries that no longer count at `now` and says how many.
    pub fn sweep_expired_at(&mut self, now: u64) -> (dropped: usize)
        ensures
            final(self)@ == swept(old(self)@, now),
            old(self)@.dom().finite(),
            dropped == old(self)@.dom().len() - final(self)@.dom().len(),
    {
        let keep = |_k: &MessageKey, e: &Entry| -> (b: bool)
            ensures
                b == fresh(*e, now),
        {
            is_fresh(e, now)
        };
        self.state.retain(keep, Ghost(fresh_at(now)))
    }

    /// The number of entries.
    pub fn len(&self) -> (n: usize)
        ensures
            self@.dom().finite(),
            n == self@.dom().len(),
    {
        self.state.len()
    }
}

/// The first token that begins with `id=`, without that prefix.
pub open spec fn first_id(toks: Seq<Seq<char>>) -> Option<Seq<char>>
    decreases toks.len(),
{
    if toks.len() == 0 {
        None
    } else if begins_with(toks[0], seq!['i', 'd', '=']) {
        Some(toks[0].skip(3))
    } else {
        first_id(toks.drop_first())
    }
}

/// The message id that a header carries: what follows `id=` in the first token
/// that begins so, unless that is empty.
pub open spec fn header_msg_id(text: Seq<char>) -> Option<Seq<char>> {
    match first_id(tokens(text)) {
        Some(v) => if v.len() > 0 {
            Some(v)
        } else {
            None
        },
        None => None,
    }
}

/// The message id that a header carries.
pub fn extract_msg_id_from_header(text: &str) -> (r: Option<String>)
    ensures
        crate::text::opt_view(r) == header_msg_id(text@),
{
    let toks = split_ascii_space(text);
    let ghost all = views(toks@);
    proof {
        reveal_strlit("id=");
        assert("id="@ =~= seq!['i', 'd', '=']);
    }
    let mut i: usize = 0;
    assert(all.skip(0) =~= all);
    while i < toks.len()
        invariant
            all == views(toks@),
            all == tokens(text@),
            "id="@ == seq!['i', 'd', '='],
            i <= toks@.len(),
            first_id(all) == first_id(all.skip(i as int)),
        decreases toks@.len() - i,
    {
        let tok = toks[i].as_str();
        assert(all[i as int] == tok@);
        assert(all.skip(i as int).drop_first() =~= all.skip(i + 1));
        if starts_with(tok, "id=") {
            let n: usize = tok.unicode_len();
            let value = tok.substring_char(3, n);
            assert(value@ =~= tok@.skip(3));
            if n > 3 {
                return Some(String::from_str(value));
            }
            return None;
        }
        i = i + 1;
    }
    None
}

/// A message suppresses nothing until it has been consumed.
pub proof fn law_fresh_injection_never_suppresses(
    m: LedgerMap,
    key: (Seq<char>, Seq<char>),
    at: u64,
    now: u64,
)
    requires
        !m.dom().contains(key),
    ensures
        !suppressed(injected(m, key, at), key, now),
{
}

/// A message that was injected and then consumed is suppressed for exactly the
/// length of the window.
pub proof fn law_consumed_suppresses_within_window(
    m: LedgerMap,
    key: (Seq<char>, Seq<char>),
    at: u64,
    now: u64,
)
    ensures
        suppressed(consumed(injected(m, key, at), key), key, now) <==> age(now, at)
            < IDEMPOTENCY_WINDOW_NANOS,
{
}

/// Injecting again keeps the consumed flag and restarts the window.
pub proof fn law_reinjection_keeps_consumed(
    m: LedgerMap,
    key: (Seq<char>, Seq<char>),
    at: u64,
    now: u64,
)
    ensures
        suppressed(injected(m, key, at), key, now) <==> (m.dom().contains(key)
            && m[key].consumed && age(now, at) < IDEMPOTENCY_WINDOW_NANOS),
{
}

/// What happens to one message leaves the others as they were.
pub proof fn law_messages_are_independent(
    m: LedgerMap,
    key: (Seq<char>, Seq<char>),
    other: (Seq<char>, Seq<char>),
    at: u64,
    now: u64,
)
    requires
        key != other,
    ensures
        suppressed(injected(m, key, at), other, now) == suppressed(m, other, now),
        suppressed(consumed(m, key), other, now) == suppressed(m, other, now),
{
}

/// A sweep changes no answer, neither now nor later.
pub proof fn law_sweep_changes_no_answer(
    m: LedgerMap,
    key: (Seq<char>, Seq<char>),
    swept_at: u64,
    now: u64,
)
    requires
        swept_at <= now,
    ensures
        suppressed(swept(m, swept_at), key, now) == suppressed(m, key, now),
{
}

/// Consuming a message twice, or one that was never injected, changes nothing more.
pub proof fn law_consume_is_idempotent(m: LedgerMap, key: (Seq<char>, Seq<char>))
    ensures
        consumed(consumed(m, key), key) == consumed(m, key),
        !m.dom().contains(key) ==> consumed(m, key) == m,
{
    assert(consumed(consumed(m, key), key) =~= consumed(m, key));
}

/// An injection records when it was made and leaves the other messages alone; consuming
/// leaves the time alone. A retry is held back exactly if its message was consumed and its
/// last injection is less than ten minutes old.
pub proof fn law_what_the_ledger_holds(
    m: LedgerMap,
    key: (Seq<char>, Seq<char>),
    other: (Seq<char>, Seq<char>),
    at: u64,
    now: u64,
)
    requires
        other != key,
    ensures
        injected(m, key, at).dom() == m.dom().insert(key),
        injected(m, key, at)[key].injected_at == at,
        injected(m, key, at)[key].consumed <==> m.dom().contains(key) && m[key].consumed,
        injected(m, key, at)[other] == m[other],
        consumed(m, key).dom() == m.dom(),
        m.dom().contains(key) ==> consumed(m, key)[key].consumed && consumed(m, key)[key].injected_at
            == m[key].injected_at,
        consumed(m, key)[other] == m[other],
        suppressed(m, key, now) <==> m.dom().contains(key) && m[key].consumed && now
            - m[key].injected_at < 600_000_000_000,
        IDEMPOTENCY_WINDOW_NANOS == IDEMPOTENCY_WINDOW_SECS * 1_000_000_000,
{
    assert(consumed(m, key).dom() =~= m.dom());
}

/// A sweep drops exactly the entries that are ten minutes old or older, and leaves the
/// others as they were.
pub proof fn law_what_a_sweep_drops(m: LedgerMap, key: (Seq<char>, Seq<char>), now: u64)
    ensures
        swept(m, now).dom().contains(key) <==> m.dom().contains(key) && now - m[key].injected_at
            < 600_000_000_000,
        swept(m, now).dom().contains(key) ==> swept(m, now)[key] == m[key],
{
}

/// The id of a header is what follows `id=` in the first token that begins so; a header
/// without such a token, or with nothing behind it, has none.
pub proof fn law_where_the_id_of_a_header_stands(text: Seq<char>, i: int)
    requires
        0 <= i <= tokens(text).len(),
        forall|j: int|
            0 <= j < i ==> !begins_with(#[trigger] tokens(text)[j], seq!['i', 'd', '=']),
    ensures
        i == tokens(text).len() ==> header_msg_id(text) is None,
        i < tokens(text).len() && begins_with(tokens(text)[i], seq!['i', 'd', '=']) ==> {
            let id = tokens(text)[i].skip(3);
            &&& id.len() > 0 ==> header_msg_id(text) == Some(id)
            &&& id.len() == 0 ==> header_msg_id(text) is None
        },
{
    lemma_first_id(tokens(text), i);
}

proof fn lemma_first_id(toks: Seq<Seq<char>>, i: int)
    requires
        0 <= i <= toks.len(),
        forall|j: int| 0 <= j < i ==> !begins_with(#[trigger] toks[j], seq!['i', 'd', '=']),
    ensures
        i == toks.len() ==> first_id(toks) is None,
        i < toks.len() && begins_with(toks[i], seq!['i', 'd', '=']) ==> first_id(toks) == Some(
            toks[i].skip(3),
        ),
    decreases toks.len(),
{
    if i > 0 {
        let rest = toks.drop_first();
        assert(!begins_with(toks[0], seq!['i', 'd', '=']));
        assert forall|j: int| 0 <= j < i - 1 implies !begins_with(
            #[trigger] rest[j],
            seq!['i', 'd', '='],
        ) by {
            assert(rest[j] == toks[j + 1]);
        }
        lemma_first_id(rest, i - 1);
        assert(i < toks.len() ==> rest[i - 1] == toks[i]);
    }
}

/// Two messages are the same exactly if they are of the same agent and have the same id.
pub proof fn law_which_messages_are_the_same(a: MessageKey, b: MessageKey)
    ensures
        a.held() == b.held() <==> a.agent@ == b.agent@ && a.msg_id@ == b.msg_id@,
{
}

} // verus!
