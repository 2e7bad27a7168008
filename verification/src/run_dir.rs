//! Run directories and daemon identities.
//!
//! Each daemon publishes `run/<pid>/.daemon`, which holds its process id, the
//! second it booted and the start token of its process. The token tells a
//! daemon from an unrelated process that was later given the same id.
use crate::text::{
    decimal, fields, is_digit, is_white_space, parse_at_most, parsed, same, split_on,
    trim, trimmed, trimmed_end, trimmed_start, u64_text, views,
};
use vstd::prelude::*;

verus! {

/// A path with one more part; `/` stands between the two unless it is there
/// already or there is nothing before it.
pub open spec fn joined(base: Seq<char>, part: Seq<char>) -> Seq<char> {
    if base.len() == 0 || base.last() == '/' {
        base + part
    } else {
        base + seq!['/'] + part
    }
}

/// A path with one more (relative) part.
pub fn join_path(base: &str, part: &str) -> (r: String)
    ensures
        r@ == joined(base@, part@),
{
    let n: usize = base.unicode_len();
    let mut r: String = String::from_str(base);
    if n > 0 && base.get_char(n - 1) != '/' {
        r.push('/');
        assert(r@ =~= base@ + seq!['/']);
    }
    r.append(part);
    r
}

/// The run directory of the daemon with this process id.
pub fn run_dir_for_pid(home: &str, pid: u32) -> (r: String)
    ensures
        r@ == joined(joined(home@, "run"@), decimal(pid as nat)),
{
    let run = join_path(home, "run");
    let id = u64_text(pid as u64);
    join_path(run.as_str(), id.as_str())
}

/// The identity record of a daemon: process id, boot second, start token (`0`
/// where the token is unknown).
pub open spec fn identity(pid: u32, boot_unix: u64, token: Option<u64>) -> Seq<char> {
    decimal(pid as nat) + seq![':'] + decimal(boot_unix as nat) + seq![':'] + decimal(
        (match token {
            Some(t) => t,
            None => 0,
        }) as nat,
    )
}

/// The identity record of a daemon.
pub fn daemon_identity(pid: u32, boot_unix: u64, token: Option<u64>) -> (r: String)
    ensures
        r@ == identity(pid, boot_unix, token),
{
    let mut r = u64_text(pid as u64);
    r.push(':');
    assert(r@ =~= decimal(pid as nat) + seq![':']);
    let boot = u64_text(boot_unix);
    r.append(boot.as_str());
    let ghost upto = r@;
    r.push(':');
    assert(r@ =~= upto + seq![':']);
    let t: u64 = match token {
        Some(t) => t,
        None => 0,
    };
    let tail = u64_text(t);
    r.append(tail.as_str());
    r
}

/// The fields of an identity record.
pub open spec fn identity_fields(content: Seq<char>) -> Seq<Seq<char>> {
    fields(trimmed(content), ':')
}

/// The number in field `i` of a record, where it has one of at most `max`.
pub open spec fn field_number(content: Seq<char>, i: int, max: nat) -> Option<nat> {
    if i < identity_fields(content).len() {
        parsed(identity_fields(content)[i], max)
    } else {
        None
    }
}

/// The process id that a record names; a record without a second field names none.
pub open spec fn recorded_pid(content: Seq<char>) -> Option<nat> {
    if identity_fields(content).len() >= 2 {
        field_number(content, 0, u32::MAX as nat)
    } else {
        None
    }
}

/// The boot second that a record names.
pub open spec fn recorded_boot(content: Seq<char>) -> Option<nat> {
    field_number(content, 1, u64::MAX as nat)
}

/// The start token that a record names; records of old have none.
pub open spec fn recorded_token(content: Seq<char>) -> Option<nat> {
    field_number(content, 2, u64::MAX as nat)
}

/// The number that an optional machine integer stands for.
pub open spec fn number(n: Option<u64>) -> Option<nat> {
    match n {
        Some(v) => Some(v as nat),
        None => None,
    }
}

fn record_fields(content: &str) -> (r: Vec<String>)
    ensures
        views(r@) == identity_fields(content@),
{
    let t = trim(content);
    split_on(t.as_str(), ':')
}

fn number_at(parts: &Vec<String>, i: usize, max: u64) -> (r: Option<u64>)
    ensures
        number(r) == (if i < parts@.len() {
            parsed(views(parts@)[i as int], max as nat)
        } else {
            None
        }),
{
    if i < parts.len() {
        parse_at_most(parts[i].as_str(), max)
    } else {
        None
    }
}

/// The process id in a record.
pub fn read_daemon_pid(content: &str) -> (r: Option<u32>)
    ensures
        match r {
            Some(p) => recorded_pid(content@) == Some(p as nat),
            None => recorded_pid(content@) is None,
        },
{
    let parts = record_fields(content);
    if parts.len() < 2 {
        return None;
    }
    match number_at(&parts, 0, u32::MAX as u64) {
        Some(p) => {
            assert(p <= u32::MAX);
            Some(p as u32)
        },
        None => None,
    }
}

/// The boot second in a record.
pub fn read_daemon_boot_unix(content: &str) -> (r: Option<u64>)
    ensures
        number(r) == recorded_boot(content@),
{
    let parts = record_fields(content);
    number_at(&parts, 1, u64::MAX)
}

/// The start token in a record.
pub fn read_daemon_start_token(content: &str) -> (r: Option<u64>)
    ensures
        number(r) == recorded_token(content@),
{
    let parts = record_fields(content);
    number_at(&parts, 2, u64::MAX)
}

/// What is known of one entry of the `run` directory.
pub struct RunEntry {
    /// The name of the entry.
    pub name: String,
    /// Whether the process with that id is alive.
    pub alive: bool,
    /// What its `.daemon` file holds, where it can be read.
    pub record: Option<String>,
    /// The start token of the process, where it can be read.
    pub current_token: Option<u64>,
}

/// What is done with one entry of the `run` directory.
#[derive(Debug, Clone, Copy, PartialEq, Eq, Structural)]
pub enum RunDirVerdict {
    /// Not a run directory, or not promoted yet: left alone.
    Skip,
    /// Its daemon is gone, or another process has its id.
    Remove,
    /// Its daemon is the one to talk to.
    Accept,
}

/// What is done with one entry.
pub open spec fn verdict(e: RunEntry) -> RunDirVerdict {
    if parsed(e.name@, u32::MAX as nat) is None {
        RunDirVerdict::Skip
    } else if !e.alive {
        RunDirVerdict::Remove
    } else if e.record is None {
        RunDirVerdict::Skip
    } else if identity_fields(e.record->0@)[0] != e.name@ {
        RunDirVerdict::Remove
    } else if recorded_token(e.record->0@) is Some && e.current_token is Some && recorded_token(
        e.record->0@,
    )->0 != e.current_token->0 {
        RunDirVerdict::Remove
    } else {
        RunDirVerdict::Accept
    }
}

/// Decides what is done with one entry of the `run` directory.
pub fn judge_run_dir(e: &RunEntry) -> (r: RunDirVerdict)
    ensures
        r == verdict(*e),
{
    if parse_at_most(e.name.as_str(), u32::MAX as u64).is_none() {
        return RunDirVerdict::Skip;
    }
    if !e.alive {
        return RunDirVerdict::Remove;
    }
    match &e.record {
        None => RunDirVerdict::Skip,
        Some(content) => {
            let parts = record_fields(content.as_str());
            proof {
                crate::text::lemma_fields_nonempty(trimmed(content@), ':');
            }
            assert(views(parts@)[0] == parts@[0]@);
            if !same(parts[0].as_str(), e.name.as_str()) {
                return RunDirVerdict::Remove;
            }
            match (number_at(&parts, 2, u64::MAX), e.current_token) {
                (Some(recorded), Some(current)) => if recorded != current {
                    RunDirVerdict::Remove
                } else {
                    RunDirVerdict::Accept
                },
                _ => RunDirVerdict::Accept,
            }
        },
    }
}

/// Which run directory is active, and which are to be removed.
pub struct RunDirScan {
    pub active: Option<usize>,
    pub stale: Vec<usize>,
}

/// The positions of the stale entries among the first `n`, in order.
pub open spec fn stale_before(entries: Seq<RunEntry>, n: int) -> Seq<int>
    decreases n,
{
    if n <= 0 {
        Seq::empty()
    } else if verdict(entries[n - 1]) == RunDirVerdict::Remove {
        stale_before(entries, n - 1).push(n - 1)
    } else {
        stale_before(entries, n - 1)
    }
}

/// Positions, as plain numbers.
pub open spec fn positions(s: Seq<usize>) -> Seq<int> {
    s.map_values(|i: usize| i as int)
}

/// Finds the active run directory among the entries: the first that is accepted.
/// Entries after it are not looked at; the stale ones before it are listed.
pub fn find_active_run_dir(entries: &Vec<RunEntry>) -> (r: RunDirScan)
    ensures
        match r.active {
            Some(a) => {
                &&& a < entries@.len()
                &&& verdict(entries@[a as int]) == RunDirVerdict::Accept
                &&& forall|i: int|
                    0 <= i < a ==> verdict(#[trigger] entries@[i]) != RunDirVerdict::Accept
                &&& positions(r.stale@) == stale_before(entries@, a as int)
            },
            None => {
                &&& forall|i: int|
                    0 <= i < entries@.len() ==> verdict(#[trigger] entries@[i])
                        != RunDirVerdict::Accept
                &&& positions(r.stale@) == stale_before(entries@, entries@.len() as int)
            },
        },
{
    let mut stale: Vec<usize> = Vec::new();
    let mut i: usize = 0;
    assert(positions(stale@) =~= stale_before(entries@, 0));
    while i < entries.len()
        invariant
            i <= entries@.len(),
            forall|j: int| 0 <= j < i ==> verdict(#[trigger] entries@[j]) != RunDirVerdict::Accept,
            positions(stale@) == stale_before(entries@, i as int),
        decreases entries@.len() - i,
    {
        let ghost before = positions(stale@);
        match judge_run_dir(&entries[i]) {
            RunDirVerdict::Accept => {
                return RunDirScan { active: Some(i), stale };
            },
            RunDirVerdict::Remove => {
                stale.push(i);
                assert(positions(stale@) =~= before.push(i as int));
            },
            RunDirVerdict::Skip => {},
        }
        i = i + 1;
    }
    RunDirScan { active: None, stale }
}

/// Whether a run directory is swept at startup: it is one, and its daemon is
/// either dead or does not answer.
pub fn sweep_stale_run_dirs(name: &str, alive: bool, answers: bool) -> (r: bool)
    ensures
        r == (parsed(name@, u32::MAX as nat) is Some && !(alive && answers)),
{
    parse_at_most(name, u32::MAX as u64).is_some() && !(alive && answers)
}

// ---------------------------------------------------------------------------
// Laws
// ---------------------------------------------------------------------------

proof fn lemma_fields_without(s: Seq<char>, sep: char)
    requires
        forall|i: int| 0 <= i < s.len() ==> s[i] != sep,
    ensures
        fields(s, sep) == seq![s],
    decreases s.len(),
{
    if s.len() == 0 {
        assert(s =~= Seq::<char>::empty());
    } else {
        lemma_fields_without(s.drop_last(), sep);
        assert(fields(s, sep) =~= seq![s]) by {
            assert(s.drop_last().push(s.last()) =~= s);
            assert(seq![s.drop_last()].drop_last() =~= Seq::<Seq<char>>::empty());
        }
    }
}

proof fn lemma_fields_join(a: Seq<char>, b: Seq<char>, sep: char)
    ensures
        fields(a + seq![sep] + b, sep) == fields(a, sep) + fields(b, sep),
    decreases b.len(),
{
    let s = a + seq![sep] + b;
    if b.len() == 0 {
        assert(s.drop_last() =~= a);
        assert(s.last() == sep);
        assert(b =~= Seq::<char>::empty());
        assert(fields(s, sep) =~= fields(a, sep) + fields(b, sep));
    } else {
        lemma_fields_join(a, b.drop_last(), sep);
        crate::text::lemma_fields_nonempty(b.drop_last(), sep);
        assert(s.drop_last() =~= a + seq![sep] + b.drop_last());
        assert(s.last() == b.last());
        let fa = fields(a, sep);
        let fb = fields(b.drop_last(), sep);
        assert((fa + fb).drop_last() =~= fa + fb.drop_last());
        assert((fa + fb).last() == fb.last());
        assert(fields(s, sep) =~= fa + fields(b, sep));
    }
}

proof fn lemma_no_space_no_trim(s: Seq<char>)
    requires
        s.len() > 0,
        !is_white_space(s[0]),
        !is_white_space(s.last()),
    ensures
        trimmed(s) == s,
{
    assert(trimmed_start(s) == s);
    assert(trimmed_end(s) == s);
}

proof fn lemma_identity_fields(pid: u32, boot_unix: u64, token: Option<u64>)
    ensures
        identity_fields(identity(pid, boot_unix, token)) == seq![
            decimal(pid as nat),
            decimal(boot_unix as nat),
            decimal(
                (match token {
                    Some(t) => t,
                    None => 0,
                }) as nat,
            ),
        ],
{
    let a = decimal(pid as nat);
    let b = decimal(boot_unix as nat);
    let t = (match token {
        Some(t) => t,
        None => 0,
    }) as nat;
    let c = decimal(t);
    crate::text::lemma_decimal_is_digits(pid as nat);
    crate::text::lemma_decimal_is_digits(boot_unix as nat);
    crate::text::lemma_decimal_is_digits(t);
    let s = identity(pid, boot_unix, token);
    assert(s =~= (a + seq![':'] + b) + seq![':'] + c);
    assert(s[0] == a[0]);
    assert(s.last() == c.last());
    assert(is_digit(a[0]));
    assert(is_digit(c[c.len() - 1]));
    lemma_no_space_no_trim(s);
    lemma_fields_join(a + seq![':'] + b, c, ':');
    lemma_fields_join(a, b, ':');
    assert forall|i: int| 0 <= i < a.len() implies a[i] != ':' by {
        assert(is_digit(a[i]));
    }
    assert forall|i: int| 0 <= i < b.len() implies b[i] != ':' by {
        assert(is_digit(b[i]));
    }
    assert forall|i: int| 0 <= i < c.len() implies c[i] != ':' by {
        assert(is_digit(c[i]));
    }
    lemma_fields_without(a, ':');
    lemma_fields_without(b, ':');
    lemma_fields_without(c, ':');
    assert(seq![a] + seq![b] + seq![c] =~= seq![a, b, c]);
}

/// Reading an identity record back gives what was written; an unknown token reads
/// as zero.
pub proof fn law_identity_read_back(pid: u32, boot_unix: u64, token: Option<u64>)
    ensures
        recorded_pid(identity(pid, boot_unix, token)) == Some(pid as nat),
        recorded_boot(identity(pid, boot_unix, token)) == Some(boot_unix as nat),
        recorded_token(identity(pid, boot_unix, token)) == Some(
            (match token {
                Some(t) => t,
                None => 0,
            }) as nat,
        ),
{
    lemma_identity_fields(pid, boot_unix, token);
    crate::text::lemma_decimal_round_trip(pid as nat, u32::MAX as nat);
    crate::text::lemma_decimal_round_trip(boot_unix as nat, u64::MAX as nat);
    crate::text::lemma_decimal_round_trip(
        (match token {
            Some(t) => t,
            None => 0,
        }) as nat,
        u64::MAX as nat,
    );
}

/// A live daemon that published its identity is accepted as long as its token
/// cannot be read or is the recorded one; with any other token the entry counts
/// as a recycled process id.
pub proof fn law_own_identity_is_accepted(e: RunEntry, pid: u32, boot_unix: u64, token: u64)
    requires
        e.name@ == decimal(pid as nat),
        e.alive,
        e.record is Some,
        e.record->0@ == identity(pid, boot_unix, Some(token)),
    ensures
        e.current_token is None ==> verdict(e) == RunDirVerdict::Accept,
        e.current_token == Some(token) ==> verdict(e) == RunDirVerdict::Accept,
        e.current_token is Some && e.current_token->0 != token ==> verdict(e)
            == RunDirVerdict::Remove,
{
    law_identity_read_back(pid, boot_unix, Some(token));
    lemma_identity_fields(pid, boot_unix, Some(token));
    crate::text::lemma_decimal_round_trip(pid as nat, u32::MAX as nat);
}

/// A successor that has not published its identity yet is never the active
/// daemon, and is not removed either while it lives.
pub proof fn law_unpromoted_is_invisible(e: RunEntry)
    requires
        e.record is None,
    ensures
        verdict(e) != RunDirVerdict::Accept,
        e.alive ==> verdict(e) == RunDirVerdict::Skip,
{
}

/// The record of one process id never makes another one's directory active.
pub proof fn law_foreign_record_is_removed(e: RunEntry, pid: u32, boot_unix: u64, token: Option<u64>)
    requires
        parsed(e.name@, u32::MAX as nat) is Some,
        e.name@ != decimal(pid as nat),
        e.record is Some,
        e.record->0@ == identity(pid, boot_unix, token),
    ensures
        verdict(e) == RunDirVerdict::Remove,
{
    lemma_identity_fields(pid, boot_unix, token);
}

/// A path and one more part have exactly one slash between them where the path has a last
/// part; nothing is put before the part of an empty path.
pub proof fn law_how_paths_are_joined(base: Seq<char>, part: Seq<char>)
    ensures
        joined(Seq::empty(), part) == part,
        joined(base.push('/'), part) == base.push('/') + part,
        base.len() > 0 && base.last() != '/' ==> joined(base, part) == base.push('/') + part,
{
    assert(Seq::<char>::empty() + part =~= part);
    assert(base + seq!['/'] + part =~= base.push('/') + part);
}

/// An identity record is the process id, the boot second and the start token, parted by
/// colons; an unknown token is written as zero.
pub proof fn law_how_an_identity_is_written(pid: u32, boot_unix: u64, token: u64)
    ensures
        identity(pid, boot_unix, Some(token)) == decimal(pid as nat) + seq![':'] + decimal(
            boot_unix as nat,
        ) + seq![':'] + decimal(token as nat),
        identity(pid, boot_unix, None) == identity(pid, boot_unix, Some(0)),
{
}

/// What a record names are its fields between colons, without the white space round the
/// whole: the process id only where a second field is there.
pub proof fn law_what_a_record_names(content: Seq<char>)
    ensures
        ({
            let f = fields(trimmed(content), ':');
            &&& recorded_pid(content) == (if f.len() >= 2 {
                parsed(f[0], u32::MAX as nat)
            } else {
                None
            })
            &&& recorded_boot(content) == (if f.len() >= 2 {
                parsed(f[1], u64::MAX as nat)
            } else {
                None
            })
            &&& recorded_token(content) == (if f.len() >= 3 {
                parsed(f[2], u64::MAX as nat)
            } else {
                None
            })
        }),
{
}

/// An entry that is no process id is left alone, as is a live one without a record; one
/// whose process is dead is removed, and of the others one is accepted exactly if its
/// record begins with its own name and names no other token than the process has.
pub proof fn law_what_becomes_of_a_run_directory(e: RunEntry)
    ensures
        ({
            let is_pid = parsed(e.name@, u32::MAX as nat) is Some;
            let own = fields(trimmed(e.record->0@), ':')[0] == e.name@;
            let recycled = recorded_token(e.record->0@) is Some && e.current_token is Some
                && recorded_token(e.record->0@)->0 != e.current_token->0;
            &&& verdict(e) == RunDirVerdict::Skip <==> !is_pid || (e.alive && e.record is None)
            &&& verdict(e) == RunDirVerdict::Accept <==> is_pid && e.alive && e.record is Some
                && own && !recycled
            &&& verdict(e) == RunDirVerdict::Remove <==> is_pid && (!e.alive || (e.record is Some
                && (!own || recycled)))
        }),
{
}

/// The stale entries that a scan lists are exactly those before its end that are to be
/// removed, in order.
pub proof fn law_the_stale_are_listed(entries: Seq<RunEntry>, n: int)
    requires
        0 <= n <= entries.len(),
    ensures
        ({
            let at = stale_before(entries, n);
            &&& forall|i: int, j: int| 0 <= i < j < at.len() ==> #[trigger] at[i] < #[trigger] at[j]
            &&& forall|i: int| 0 <= i < at.len() ==> 0 <= #[trigger] at[i] < n
            &&& forall|k: int|
                0 <= k < n ==> (at.contains(k) <==> verdict(#[trigger] entries[k])
                    == RunDirVerdict::Remove)
        }),
    decreases n,
{
    if n > 0 {
        law_the_stale_are_listed(entries, n - 1);
        let before = stale_before(entries, n - 1);
        assert(!before.contains(n - 1));
        if verdict(entries[n - 1]) == RunDirVerdict::Remove {
            assert forall|k: int| 0 <= k < n implies (stale_before(entries, n).contains(k)
                <==> verdict(#[trigger] entries[k]) == RunDirVerdict::Remove) by {
                crate::positions::lemma_pushed(before, n - 1, k);
            }
        }
    }
}

} // verus!
