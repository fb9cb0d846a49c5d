use vstd::prelude::*;
use vstd::string::StrSliceExecFns;
use vstd::string::StringExecFns;

use crate::errors::{FromanError, FromanResult};
use crate::text::{spec_substitute, substitute};

verus! {

// A worker descriptor: the static identity of one configured worker (name,
// working directory, command, queue namespace, backend variant) plus its
// mutable runtime state (process handle, scheduled termination time).  The
// control loop owns every descriptor and is the only writer of its state.

/// The queue-backend connection, declared so that probe signatures can carry
/// it.  Relies on redis::Connection being an ordinary owned connection
/// handle.
#[verifier::external_type_specification]
#[verifier::external_body]
pub struct ExRedisConnection(redis::Connection);

/// The two queue-backend variants a worker can be bound to.
#[derive(Clone, Copy, Debug, PartialEq, Eq, Structural)]
pub enum WorkerKind {
    /// The at-rest list queue: queue names registered in a set, no in-flight
    /// signal.
    Resque,
    /// The live registry queue: queues found by key pattern, plus a schedule
    /// and per-process busy bookkeeping.
    Sidekiq,
}

/// One configured worker.
#[derive(Debug)]
pub struct Worker {
    /// Display name; stable identity component.
    pub app: String,
    /// Working directory, absolute or relative to the configuration file's
    /// directory.
    pub path: String,
    /// Queue-key namespace; empty for the root namespace.
    pub namespace: String,
    /// The backend-specific command string, substituted into the global
    /// command template.
    pub command: String,
    /// Which backend variant the demand probes query.
    pub kind: WorkerKind,
    /// OS identifier of the running process, while one is believed alive.
    pub process: Option<u32>,
    /// When the process is to be terminated, while a stop is pending.
    pub terminate_at: Option<i64>,
}

/// The fields that never change after construction.
pub open spec fn same_identity(a: Worker, b: Worker) -> bool {
    &&& a.app == b.app
    &&& a.path == b.path
    &&& a.namespace == b.namespace
    &&& a.command == b.command
    &&& a.kind == b.kind
}

/// A key under this worker's namespace: the key itself in the root
/// namespace, else prefixed with `namespace` and a colon.
pub open spec fn spec_namespaced(namespace: Seq<char>, key: Seq<char>) -> Seq<char> {
    if namespace.len() == 0 {
        key
    } else {
        namespace + ":"@ + key
    }
}

/// The sum of a sequence of integers.
pub open spec fn sum_ints(s: Seq<int>) -> int
    decreases s.len(),
{
    if s.len() == 0 {
        0
    } else {
        sum_ints(s.drop_last()) + s.last()
    }
}

/// What `parse_shell_words` returns: the POSIX shell-word splitting of a
/// string, honoring quoting and backslash escapes.
pub uninterp spec fn shell_words(s: Seq<char>) -> Seq<Seq<char>>;

/// A word break the shell-word parser never consumes as a separator: it
/// splits at a tab, newline or carriage return but moves past spaces only,
/// so on such a character it stops making progress and yields empty words
/// forever.
pub open spec fn unconsumed_break(c: char) -> bool {
    c == '\t' || c == '\n' || c == '\r'
}

/// Whether every character of `s` is ASCII.
pub open spec fn ascii_only(s: Seq<char>) -> bool {
    forall|i: int| 0 <= i < s.len() ==> (#[trigger] s[i]) <= '\u{7f}'
}

/// The strings the shell-word parser handles: none of the word breaks it
/// cannot consume, and backslashes only in all-ASCII text.  The parser
/// unescapes byte-wise and drops the byte after an unrecognized escape, so a
/// backslash before a multi-byte character leaves invalid UTF-8 and aborts
/// the per-word re-validation; without any backslash no byte is ever
/// dropped.
pub open spec fn shell_splittable(s: Seq<char>) -> bool {
    &&& (forall|i: int| 0 <= i < s.len() ==> !(#[trigger] unconsumed_break(s[i])))
    &&& (ascii_only(s) || (forall|i: int| 0 <= i < s.len() ==> (#[trigger] s[i]) != '\\'))
}

/// Relies on cmdline_words_parser::parse_posix: splits a string into words
/// by the POSIX shell rules (whitespace separation, single and double
/// quotes, backslash escapes), a function of the string alone.  Admitted are
/// only the strings the parser is known to handle (`shell_splittable`): on a
/// tab, newline or carriage return its iterator stops advancing and never
/// ends, and an escape applied to a multi-byte character aborts its UTF-8
/// re-validation.
#[verifier::external_body]
fn parse_shell_words(s: &str) -> (r: Vec<String>)
    requires
        shell_splittable(s@),
    ensures
        r.deep_view() == shell_words(s@),
{
    let mut buffer = s.to_owned();
    cmdline_words_parser::parse_posix(&mut buffer).map(|word| word.to_string()).collect()
}

/// Whether the shell-word parser handles `s`: no word break it cannot
/// consume, and backslashes only when every character is ASCII.
fn is_shell_splittable(s: &Vec<char>) -> (r: bool)
    ensures
        r == shell_splittable(s@),
{
    let n = s.len();
    let mut all_ascii = true;
    let mut any_backslash = false;
    let mut any_break = false;
    let mut i: usize = 0;
    while i < n
        invariant
            n == s@.len(),
            i <= n,
            all_ascii == (forall|k: int| 0 <= k < i ==> (#[trigger] s@[k]) <= '\u{7f}'),
            any_backslash == !(forall|k: int| 0 <= k < i ==> (#[trigger] s@[k]) != '\\'),
            any_break == !(forall|k: int| 0 <= k < i ==> !(#[trigger] unconsumed_break(s@[k]))),
        decreases n - i,
    {
        let c = s[i];
        proof {
            assert(s@[i as int] == c);
            assert(unconsumed_break(c) == (c == '\t' || c == '\n' || c == '\r'));
        }
        if c == '\t' || c == '\n' || c == '\r' {
            any_break = true;
        }
        if c == '\\' {
            any_backslash = true;
        }
        if c > '\u{7f}' {
            all_ascii = false;
        }
        i = i + 1;
    }
    !any_break && (all_ascii || !any_backslash)
}

/// Relies on redis::Commands::keys (the KEYS command): the names of the keys
/// matching the pattern, as the backend holds them at the time of the call.
#[verifier::external_body]
fn redis_keys(conn: &mut redis::Connection, pattern: &str) -> (r: Result<
    Vec<String>,
    redis::RedisError,
>) {
    redis::Commands::keys(conn, pattern)
}

/// Relies on redis::Commands::smembers (the SMEMBERS command): the members
/// of the set at the key, as the backend holds them at the time of the call.
#[verifier::external_body]
fn redis_smembers(conn: &mut redis::Connection, key: &str) -> (r: Result<
    Vec<String>,
    redis::RedisError,
>) {
    redis::Commands::smembers(conn, key)
}

/// Relies on redis::Commands::llen (the LLEN command): the length of the
/// list at the key, which is never negative (the crate reads it as an
/// unsigned count).
#[verifier::external_body]
fn redis_llen(conn: &mut redis::Connection, key: &str) -> (r: Result<i64, redis::RedisError>)
    ensures
        r matches Ok(v) ==> 0 <= v,
{
    redis::Commands::llen(conn, key)
}

/// Relies on redis::Commands::zcount (the ZCOUNT command): how many members
/// of the sorted set at the key have a score in the given range, which is
/// never negative (the crate reads it as an unsigned count).
#[verifier::external_body]
fn redis_zcount(conn: &mut redis::Connection, key: &str, min: &str, max: &str) -> (r: Result<
    i64,
    redis::RedisError,
>)
    ensures
        r matches Ok(v) ==> 0 <= v,
{
    redis::Commands::zcount(conn, key, min, max)
}

/// Relies on redis::Commands::hget (the HGET command): the value of the
/// field in the hash at the key, read as an integer; a missing field or a
/// non-numeric value comes back as an error.
#[verifier::external_body]
fn redis_hget_int(conn: &mut redis::Connection, key: &str, field: &str) -> (r: Result<
    i64,
    redis::RedisError,
>) {
    redis::Commands::hget(conn, key, field)
}

/// Relies on nix::sys::signal::kill: sends SIGINT, the interrupt signal, to
/// the process with the given identifier.
#[verifier::external_body]
fn send_interrupt(pid: i32) -> (r: Result<(), nix::errno::Errno>) {
    nix::sys::signal::kill(nix::unistd::Pid::from_raw(pid), nix::sys::signal::Signal::SIGINT)
}

/// Relies on nix::sys::wait::waitpid: blocks until the process with the
/// given identifier has exited.
#[verifier::external_body]
fn wait_for_exit(pid: i32) -> (r: Result<(), nix::errno::Errno>) {
    match nix::sys::wait::waitpid(nix::unistd::Pid::from_raw(pid), None) {
        Ok(_) => Ok(()),
        Err(e) => Err(e),
    }
}

/// The total of a vector of counts, none of them negative.
fn total_count(counts: &Vec<i64>) -> (r: i128)
    requires
        forall|j: int| 0 <= j < counts@.len() ==> 0 <= #[trigger] counts@[j],
    ensures
        r == sum_ints(counts@.map_values(|v: i64| v as int)),
        0 <= r <= counts@.len() * 0x8000_0000_0000_0000,
{
    let n = counts.len();
    let mut total: i128 = 0;
    let mut i: usize = 0;
    proof {
        assert(counts@.subrange(0, 0).map_values(|v: i64| v as int) =~= Seq::<int>::empty());
    }
    while i < n
        invariant
            n == counts@.len(),
            i <= n,
            forall|j: int| 0 <= j < counts@.len() ==> 0 <= #[trigger] counts@[j],
            total == sum_ints(counts@.subrange(0, i as int).map_values(|v: i64| v as int)),
            0 <= total <= i * 0x8000_0000_0000_0000,
        decreases n - i,
    {
        proof {
            let m = counts@.subrange(0, i + 1).map_values(|v: i64| v as int);
            assert(m.drop_last() =~= counts@.subrange(0, i as int).map_values(|v: i64| v as int));
            assert(m.last() == counts@[i as int] as int);
        }
        total = total + counts[i] as i128;
        i = i + 1;
    }
    proof {
        assert(counts@.subrange(0, n as int) =~= counts@);
    }
    total
}

/// The pending total of the at-rest list queue: the sum of the lengths of
/// the registered queues.
pub fn resque_pending_count(queue_lengths: &Vec<i64>) -> (r: i128)
    requires
        forall|j: int| 0 <= j < queue_lengths@.len() ==> 0 <= #[trigger] queue_lengths@[j],
    ensures
        r == sum_ints(queue_lengths@.map_values(|v: i64| v as int)),
        0 <= r,
{
    total_count(queue_lengths)
}

/// The pending total of the live registry queue: the sum of the lengths of
/// the matched queues, plus the count of scheduled items.
pub fn sidekiq_pending_count(queue_lengths: &Vec<i64>, schedule_count: i64) -> (r: i128)
    requires
        forall|j: int| 0 <= j < queue_lengths@.len() ==> 0 <= #[trigger] queue_lengths@[j],
        0 <= schedule_count,
    ensures
        r == sum_ints(queue_lengths@.map_values(|v: i64| v as int)) + schedule_count,
        0 <= r,
{
    let n = queue_lengths.len();
    let queues_total = total_count(queue_lengths);
    proof {
        assert(queues_total <= n * 0x8000_0000_0000_0000);
    }
    queues_total + schedule_count as i128
}

/// The total of the per-process busy counts of the live registry queue.
pub fn busy_count(busy_counts: &Vec<i64>) -> (r: i128)
    ensures
        r == sum_ints(busy_counts@.map_values(|v: i64| v as int)),
{
    let n = busy_counts.len();
    let mut total: i128 = 0;
    let mut i: usize = 0;
    proof {
        assert(busy_counts@.subrange(0, 0).map_values(|v: i64| v as int) =~= Seq::<int>::empty());
    }
    while i < n
        invariant
            n == busy_counts@.len(),
            i <= n,
            total == sum_ints(busy_counts@.subrange(0, i as int).map_values(|v: i64| v as int)),
            -(i * 0x8000_0000_0000_0000) <= total <= i * 0x8000_0000_0000_0000,
        decreases n - i,
    {
        proof {
            let m = busy_counts@.subrange(0, i + 1).map_values(|v: i64| v as int);
            assert(m.drop_last() =~= busy_counts@.subrange(0, i as int).map_values(
                |v: i64| v as int,
            ));
            assert(m.last() == busy_counts@[i as int] as int);
        }
        total = total + busy_counts[i] as i128;
        i = i + 1;
    }
    proof {
        assert(busy_counts@.subrange(0, n as int) =~= busy_counts@);
    }
    total
}

/// The demand boolean of the live registry queue: whether the matched queue
/// lengths and the schedule count add up to any pending work.
pub fn sidekiq_work_pending(queue_lengths: &Vec<i64>, schedule_count: i64) -> (b: bool)
    requires
        forall|j: int| 0 <= j < queue_lengths@.len() ==> 0 <= #[trigger] queue_lengths@[j],
        0 <= schedule_count,
    ensures
        b == (sum_ints(queue_lengths@.map_values(|v: i64| v as int)) + schedule_count > 0),
{
    sidekiq_pending_count(queue_lengths, schedule_count) > 0
}

/// The demand boolean of the at-rest list queue: whether the registered
/// queue lengths add up to any pending work.
pub fn resque_work_pending(queue_lengths: &Vec<i64>) -> (b: bool)
    requires
        forall|j: int| 0 <= j < queue_lengths@.len() ==> 0 <= #[trigger] queue_lengths@[j],
    ensures
        b == (sum_ints(queue_lengths@.map_values(|v: i64| v as int)) > 0),
{
    resque_pending_count(queue_lengths) > 0
}

/// The in-progress boolean of the live registry queue: whether the
/// per-process busy counts add up to anything being worked on.
pub fn sidekiq_work_in_progress(busy_counts: &Vec<i64>) -> (b: bool)
    ensures
        b == (sum_ints(busy_counts@.map_values(|v: i64| v as int)) > 0),
{
    busy_count(busy_counts) > 0
}

impl Worker {
    /// The descriptor invariant: a scheduled termination time exists only
    /// while a process does.
    pub open spec fn wf(&self) -> bool {
        self.terminate_at is Some ==> self.process is Some
    }

    /// The worker's display name.
    pub fn app(&self) -> (r: &String)
        ensures
            r@ == self.app@,
    {
        &self.app
    }

    /// The worker's working directory, as configured.
    pub fn path(&self) -> (r: &String)
        ensures
            r@ == self.path@,
    {
        &self.path
    }

    /// The worker's backend-specific command string.
    pub fn command(&self) -> (r: &String)
        ensures
            r@ == self.command@,
    {
        &self.command
    }

    /// The backend tag, spelled as the configuration file spells it.
    pub fn kind(&self) -> (r: &'static str)
        ensures
            self.kind is Sidekiq ==> r@ == "sidekiq"@,
            self.kind is Resque ==> r@ == "resque"@,
    {
        match self.kind {
            WorkerKind::Sidekiq => "sidekiq",
            WorkerKind::Resque => "resque",
        }
    }

    /// The worker's queue-key namespace.
    pub fn namespace(&self) -> (r: String)
        ensures
            r@ == self.namespace@,
    {
        self.namespace.clone()
    }

    /// The running process's handle, if one is believed alive.
    pub fn process(&self) -> (r: &Option<u32>)
        ensures
            *r == self.process,
    {
        &self.process
    }

    /// The scheduled termination time, if a stop is pending.
    pub fn terminate_at(&self) -> (r: &Option<i64>)
        ensures
            *r == self.terminate_at,
    {
        &self.terminate_at
    }

    /// Replaces the process handle.
    pub fn set_process(&mut self, process: Option<u32>)
        ensures
            same_identity(*old(self), *final(self)),
            final(self).process == process,
            final(self).terminate_at == old(self).terminate_at,
    {
        self.process = process;
    }

    /// Replaces the scheduled termination time.
    pub fn set_terminate_at(&mut self, terminate_at: Option<i64>)
        ensures
            same_identity(*old(self), *final(self)),
            final(self).process == old(self).process,
            final(self).terminate_at == terminate_at,
    {
        self.terminate_at = terminate_at;
    }

    /// The OS identifier of the running process, or 0 when there is none.
    pub fn process_id(&self) -> (r: u32)
        ensures
            r == (match self.process {
                Some(pid) => pid,
                None => 0u32,
            }),
    {
        match self.process {
            Some(pid) => pid,
            None => 0,
        }
    }

    /// The key under this worker's namespace.
    pub fn namespaced(&self, key: &str) -> (r: String)
        ensures
            r@ == spec_namespaced(self.namespace@, key@),
    {
        if self.namespace.as_str().is_empty() {
            key.to_owned()
        } else {
            let r = self.namespace.clone().concat(":").concat(key);
            proof {
                assert(r@ =~= spec_namespaced(self.namespace@, key@));
            }
            r
        }
    }

    /// The program and argument list to launch for this worker: the command
    /// template with `%s` replaced by the worker's command string, split into
    /// shell words; the first word is the program, the rest its arguments.
    /// Yields nothing when the filled template holds no word at all, or when
    /// it is outside the domain the shell-word parser handles (a tab,
    /// newline or carriage return, or a backslash in non-ASCII text).
    pub fn command_binary_and_args(&self, command_template: &str) -> (r: Option<(String, Vec<String>)>)
        ensures
            ({
                let filled = spec_substitute(command_template@, self.command@);
                let words = shell_words(filled);
                match r {
                    Some((program, args)) => {
                        &&& shell_splittable(filled)
                        &&& words.len() > 0
                        &&& program@ == words[0]
                        &&& args.deep_view() == words.drop_first()
                    },
                    None => !shell_splittable(filled) || words.len() == 0,
                }
            }),
    {
        let filled = substitute(command_template, self.command.as_str());
        let filled_chars = crate::text::str_to_chars(filled.as_str());
        if !is_shell_splittable(&filled_chars) {
            return None;
        }
        let mut words = parse_shell_words(filled.as_str());
        if words.len() == 0 {
            proof {
                assert(shell_words(spec_substitute(command_template@, self.command@)).len() == 0);
            }
            None
        } else {
            let ghost words0 = words.deep_view();
            let program = words.remove(0);
            proof {
                assert(program@ == words0[0]);
                assert(words.deep_view() =~~= words0.drop_first());
            }
            Some((program, words))
        }
    }

    /// Whether the backend shows pending work for this worker.
    ///
    /// The at-rest variant sums the lengths of the queues registered in the
    /// `queues` set; the live registry variant sums the lengths of the queues
    /// matching `queue:*` and adds the count of scheduled items with score in
    /// `[0, +inf)`.  An individual length read that fails counts as zero; a
    /// failing top-level existence query fails the probe.
    pub fn work_to_do(&self, conn: &mut redis::Connection) -> (r: FromanResult<bool>)
        ensures
            r matches Err(e) ==> e is RedisError,
    {
        match self.kind {
            WorkerKind::Sidekiq => {
                let queue_key = self.namespaced("queue:*");
                let queues = match redis_keys(conn, queue_key.as_str()) {
                    Ok(queues) => queues,
                    Err(e) => {
                        return Err(FromanError::RedisError(e));
                    },
                };
                let mut counts: Vec<i64> = Vec::new();
                let mut i: usize = 0;
                while i < queues.len()
                    invariant
                        forall|j: int| 0 <= j < counts@.len() ==> 0 <= #[trigger] counts@[j],
                    decreases queues.len() - i,
                {
                    let count = match redis_llen(conn, queues[i].as_str()) {
                        Ok(count) => count,
                        Err(_) => 0,
                    };
                    counts.push(count);
                    i = i + 1;
                }
                let schedule_queue_key = self.namespaced("schedule");
                let schedule_count = match redis_zcount(
                    conn,
                    schedule_queue_key.as_str(),
                    "0",
                    "+inf",
                ) {
                    Ok(count) => count,
                    Err(_) => 0,
                };
                Ok(sidekiq_work_pending(&counts, schedule_count))
            },
            WorkerKind::Resque => {
                let queues_key = self.namespaced("queues");
                let queues = match redis_smembers(conn, queues_key.as_str()) {
                    Ok(queues) => queues,
                    Err(e) => {
                        return Err(FromanError::RedisError(e));
                    },
                };
                let mut counts: Vec<i64> = Vec::new();
                let mut i: usize = 0;
                while i < queues.len()
                    invariant
                        forall|j: int| 0 <= j < counts@.len() ==> 0 <= #[trigger] counts@[j],
                    decreases queues.len() - i,
                {
                    let queue_name = String::from_str("queue:").concat(queues[i].as_str());
                    let queue_key = self.namespaced(queue_name.as_str());
                    let count = match redis_llen(conn, queue_key.as_str()) {
                        Ok(count) => count,
                        Err(_) => 0,
                    };
                    counts.push(count);
                    i = i + 1;
                }
                Ok(resque_work_pending(&counts))
            },
        }
    }

    /// Whether the backend shows work currently being processed for this
    /// worker.
    ///
    /// The at-rest variant exposes no in-flight signal, so its answer is
    /// always `false`.  The live registry variant sums the `busy` field of
    /// every registered process record, a missing or unreadable field
    /// counting as zero.
    pub fn work_being_done(&self, conn: &mut redis::Connection) -> (r: FromanResult<bool>)
        ensures
            r matches Err(e) ==> e is RedisError,
            self.kind is Resque ==> (r matches Ok(b) && b == false),
    {
        match self.kind {
            WorkerKind::Sidekiq => {
                let processes_key = self.namespaced("processes");
                let processes = match redis_smembers(conn, processes_key.as_str()) {
                    Ok(processes) => processes,
                    Err(e) => {
                        return Err(FromanError::RedisError(e));
                    },
                };
                let mut busy_counts: Vec<i64> = Vec::new();
                let mut i: usize = 0;
                while i < processes.len()
                    decreases processes.len() - i,
                {
                    let record_key = self.namespaced(processes[i].as_str());
                    let busy = match redis_hget_int(conn, record_key.as_str(), "busy") {
                        Ok(busy) => busy,
                        Err(_) => 0,
                    };
                    busy_counts.push(busy);
                    i = i + 1;
                }
                Ok(sidekiq_work_in_progress(&busy_counts))
            },
            WorkerKind::Resque => {
                // The at-rest backend keeps no in-flight bookkeeping.
                Ok(false)
            },
        }
    }

    /// Sends the interrupt signal to this worker's process and waits until
    /// it has exited, then clears both the process handle and the scheduled
    /// termination time together.
    pub fn stop_process(&mut self) -> (r: FromanResult<()>)
        requires
            old(self).process is Some,
        ensures
            same_identity(*old(self), *final(self)),
            r is Ok ==> final(self).process is None && final(self).terminate_at is None,
            r matches Err(e) ==> e is SignalError && *final(self) == *old(self),
    {
        let pid = self.process_id() as i32;
        match send_interrupt(pid) {
            Ok(_) => {},
            Err(e) => {
                return Err(FromanError::SignalError(e));
            },
        }
        match wait_for_exit(pid) {
            Ok(_) => {},
            Err(e) => {
                return Err(FromanError::SignalError(e));
            },
        }
        self.process = None;
        self.terminate_at = None;
        Ok(())
    }
}

} // verus!
