use vstd::prelude::*;
use vstd::string::StrSliceExecFns;
use vstd::string::StringExecFns;

use crate::colors::{colorize, spec_colorize};
use crate::config::Config;
use crate::errors::FromanResult;
use crate::text::{
    chars_to_string, push_char, spec_split, spec_strip_nul, spec_trim, split_char, str_to_chars,
    strip_nul, trim_chars,
};
use crate::workers::{same_identity, Worker};

verus! {

// The control loop's engine.  Every tick, for every worker in configuration
// order, the demand probes are combined into one boolean and the per-worker
// state machine below is evaluated; the caller performs the side effect the
// evaluation asks for (spawn a process, or stop the running one).

/// The single demand signal of a tick: pending work or work in progress.
pub open spec fn spec_has_demand(pending: bool, in_progress: bool) -> bool {
    pending || in_progress
}

/// The side effect one state-machine evaluation owes.
#[derive(Clone, Copy, Debug, PartialEq, Eq, Structural)]
pub enum WorkAction {
    /// Nothing to do: the worker's state already matches the demand.
    Nothing,
    /// The worker is idle and demand appeared: a process must be started and
    /// recorded with `set_process`.
    Start,
    /// The grace period has run out: the running process must be stopped
    /// with `stop_process`.
    Stop,
}

/// One evaluation of the per-worker state machine: how a descriptor moves
/// from `pre` to `post` when demand is `demand` at time `now`, and which
/// side effect the control loop owes.
///
/// The three states are: idle (no process), running (process, no scheduled
/// termination), and pending stop (process and a scheduled termination).
/// Demand keeps or makes the worker running; absence of demand first arms a
/// termination time one grace period away, then asks for a stop once that
/// time has been reached.
pub open spec fn tick_transition(
    pre: Worker,
    post: Worker,
    demand: bool,
    now: int,
    grace: int,
    action: WorkAction,
) -> bool {
    &&& same_identity(pre, post)
    &&& post.process == pre.process
    &&& if demand {
        if pre.process is Some {
            // Running or pending stop: demand sustains it; any pending stop
            // is cancelled without touching the process.
            post.terminate_at is None && action is Nothing
        } else {
            // Idle: a process must be started.
            post.terminate_at == pre.terminate_at && action is Start
        }
    } else {
        if pre.process is None {
            // Idle without demand: nothing changes.
            post.terminate_at == pre.terminate_at && action is Nothing
        } else {
            match pre.terminate_at {
                // Running: arm the termination timer one grace period away.
                None => (post.terminate_at matches Some(t) && t == now + grace) && action
                    is Nothing,
                // Pending stop: wait out the grace period, then stop.
                Some(t) => post.terminate_at == pre.terminate_at && if now < t {
                    action is Nothing
                } else {
                    action is Stop
                },
            }
        }
    }
}

/// Advances one worker's state machine by one tick, with the demand signal
/// already combined, and returns the side effect the caller must perform.
pub fn step(worker: &mut Worker, demand: bool, now: i64, grace: u16) -> (action: WorkAction)
    requires
        now + grace <= i64::MAX,
    ensures
        tick_transition(*old(worker), *final(worker), demand, now as int, grace as int, action),
{
    if demand {
        if worker.process.is_some() {
            worker.set_terminate_at(None);
            WorkAction::Nothing
        } else {
            WorkAction::Start
        }
    } else {
        if worker.process.is_some() {
            match worker.terminate_at {
                Some(t) => if t <= now {
                    WorkAction::Stop
                } else {
                    WorkAction::Nothing
                },
                None => {
                    worker.set_terminate_at(Some(now + grace as i64));
                    WorkAction::Nothing
                },
            }
        } else {
            WorkAction::Nothing
        }
    }
}

/// The control loop's engine, bound to the global configuration.
pub struct Runner<'a> {
    pub config: &'a Config,
}

impl<'a> Runner<'a> {
    /// A new engine over the given configuration.
    pub fn new(config: &'a Config) -> (r: Runner<'a>)
        ensures
            r.config == config,
    {
        Runner { config }
    }

    /// One tick of the control loop for one worker: probes the backend for
    /// pending and in-flight work, advances the state machine on their
    /// disjunction, and reports the side effect owed.  A failing probe
    /// leaves the descriptor untouched and aborts the whole tick.
    pub fn work(&self, worker: &mut Worker, conn: &mut redis::Connection, now: i64) -> (r:
        FromanResult<WorkAction>)
        requires
            now + self.config.timeout <= i64::MAX,
        ensures
            same_identity(*old(worker), *final(worker)),
            final(worker).process == old(worker).process,
            old(worker).wf() ==> final(worker).wf(),
            (match r {
                Ok(action) => exists|pending: bool, in_progress: bool|
                    {
                        &&& (old(worker).kind is Resque ==> in_progress == false)
                        &&& tick_transition(
                            *old(worker),
                            *final(worker),
                            spec_has_demand(pending, in_progress),
                            now as int,
                            self.config.timeout as int,
                            action,
                        )
                    },
                Err(e) => e is RedisError && *final(worker) == *old(worker),
            }),
            (r matches Ok(action) && action is Start) ==> old(worker).process is None
                && *final(worker) == *old(worker),
            (r matches Ok(action) && action is Stop) ==> old(worker).process is Some && (old(
                worker,
            ).terminate_at matches Some(t) && t <= now),
    {
        let pending = match worker.work_to_do(conn) {
            Ok(b) => b,
            Err(e) => {
                return Err(e);
            },
        };
        let mut in_progress = false;
        if !pending {
            in_progress = match worker.work_being_done(conn) {
                Ok(b) => b,
                Err(e) => {
                    return Err(e);
                },
            };
        }
        let demand = pending || in_progress;
        let action = step(worker, demand, now, self.config.timeout);
        proof {
            assert(demand == spec_has_demand(pending, in_progress));
            assert(tick_transition(
                *old(worker),
                *worker,
                spec_has_demand(pending, in_progress),
                now as int,
                self.config.timeout as int,
                action,
            ));
        }
        Ok(action)
    }

    /// The width of the label gutter: the length of the longest worker name
    /// across the configured workers.
    pub fn get_label_size(&self, workers: &Vec<Worker>) -> (r: usize)
        requires
            workers@.len() > 0,
        ensures
            forall|i: int| 0 <= i < workers@.len() ==> #[trigger] workers@[i].app@.len() <= r,
            exists|i: int| 0 <= i < workers@.len() && #[trigger] workers@[i].app@.len() == r,
    {
        let mut max: usize = workers[0].app.as_str().unicode_len();
        let mut i: usize = 1;
        while i < workers.len()
            invariant
                1 <= i <= workers@.len(),
                forall|k: int| 0 <= k < i ==> #[trigger] workers@[k].app@.len() <= max,
                exists|k: int| 0 <= k < i && #[trigger] workers@[k].app@.len() == max,
            decreases workers@.len() - i,
        {
            let len = workers[i].app.as_str().unicode_len();
            if len > max {
                max = len;
            }
            i = i + 1;
        }
        max
    }
}

/// `text` right-justified in a field of `width` characters, padded with
/// spaces on the left.
pub open spec fn spec_left_pad(text: Seq<char>, width: int) -> Seq<char> {
    Seq::new(
        if width >= text.len() {
            (width - text.len()) as nat
        } else {
            0
        },
        |i: int| ' ',
    ) + text
}

/// Right-justifies `text` in a field of `length` characters.
pub fn left_pad(text: &str, length: usize) -> (r: String)
    requires
        text@.len() <= length,
    ensures
        r@ == spec_left_pad(text@, length as int),
        r@.len() == length,
{
    let n = text.unicode_len();
    let pad = length - n;
    let mut r = String::new();
    let mut i: usize = 0;
    while i < pad
        invariant
            i <= pad,
            r@ == Seq::new(i as nat, |k: int| ' '),
        decreases pad - i,
    {
        push_char(&mut r, ' ');
        i = i + 1;
        proof {
            assert(r@ =~= Seq::new(i as nat, |k: int| ' '));
        }
    }
    r.append(text);
    proof {
        assert(r@ =~= spec_left_pad(text@, length as int));
    }
    r
}

/// One console line of forwarded worker output: the color-tagged,
/// right-justified label, a separating colon, then the line itself.
pub open spec fn spec_log_line(
    label: Seq<char>,
    label_size: int,
    color: Seq<char>,
    line: Seq<char>,
) -> Seq<char> {
    spec_colorize(spec_left_pad(label, label_size), color) + ": "@ + line
}

/// The console lines that a sequence of raw lines produces: one formatted
/// line for each raw line that is not blank (blank: nothing but whitespace).
pub open spec fn spec_format_lines(
    label: Seq<char>,
    label_size: int,
    color: Seq<char>,
    lines: Seq<Seq<char>>,
) -> Seq<Seq<char>>
    decreases lines.len(),
{
    if lines.len() == 0 {
        Seq::empty()
    } else {
        let rest = spec_format_lines(label, label_size, color, lines.drop_first());
        if spec_trim(lines[0]).len() == 0 {
            rest
        } else {
            seq![spec_log_line(label, label_size, color, lines[0])] + rest
        }
    }
}

/// The console lines a forwarded message produces: none when the message is
/// blank; otherwise the message is trimmed, split into lines, and every
/// non-blank line is labeled.
pub open spec fn spec_log_lines(
    label: Seq<char>,
    label_size: int,
    color: Seq<char>,
    message: Seq<char>,
) -> Seq<Seq<char>> {
    if spec_trim(message).len() == 0 {
        Seq::empty()
    } else {
        spec_format_lines(label, label_size, color, spec_split(spec_trim(message), '\n'))
    }
}

/// Formats a forwarded message into console lines, one per non-blank line
/// of the trimmed message, each prefixed with the worker's padded label in
/// its color.
pub fn log_lines(label: &str, label_size: usize, color: &str, message: &str) -> (r: Vec<String>)
    requires
        label@.len() <= label_size,
    ensures
        r.deep_view() == spec_log_lines(label@, label_size as int, color@, message@),
{
    let chars = str_to_chars(message);
    let trimmed = trim_chars(&chars);
    let mut r: Vec<String> = Vec::new();
    if trimmed.len() == 0 {
        proof {
            assert(r.deep_view() =~~= spec_log_lines(
                label@,
                label_size as int,
                color@,
                message@,
            ));
        }
        return r;
    }
    let pieces = split_char(&trimmed, '\n');
    let padded = left_pad(label, label_size);
    let prefix = colorize(padded.as_str(), color);
    let ghost lines = spec_split(spec_trim(message@), '\n');
    let mut i: usize = 0;
    proof {
        assert(lines.skip(0) =~= lines);
        assert(r.deep_view() + spec_format_lines(label@, label_size as int, color@, lines)
            =~~= spec_format_lines(label@, label_size as int, color@, lines));
    }
    while i < pieces.len()
        invariant
            label@.len() <= label_size,
            pieces.deep_view() == lines,
            i <= lines.len(),
            prefix@ == spec_colorize(spec_left_pad(label@, label_size as int), color@),
            spec_format_lines(label@, label_size as int, color@, lines) == r.deep_view()
                + spec_format_lines(label@, label_size as int, color@, lines.skip(i as int)),
        decreases pieces@.len() - i,
    {
        proof {
            let tail = lines.skip(i as int);
            assert(tail.len() > 0);
            assert(tail[0] == lines[i as int]);
            assert(tail.drop_first() =~= lines.skip(i + 1));
            assert(pieces.deep_view()[i as int] == pieces@[i as int].deep_view());
            assert(pieces@[i as int].deep_view() =~= pieces@[i as int]@);
        }
        let piece = &pieces[i];
        let piece_trimmed = trim_chars(piece);
        proof {
            assert(piece@ == lines[i as int]);
            assert(piece_trimmed@ == spec_trim(lines[i as int]));
        }
        if piece_trimmed.len() > 0 {
            let line_text = chars_to_string(piece);
            let line = prefix.clone().concat(": ").concat(line_text.as_str());
            let ghost r0 = r.deep_view();
            r.push(line);
            proof {
                assert(spec_trim(lines[i as int]).len() != 0);
                assert(spec_format_lines(label@, label_size as int, color@, lines.skip(i as int))
                    == seq![spec_log_line(label@, label_size as int, color@, lines[i as int])]
                    + spec_format_lines(label@, label_size as int, color@, lines.skip(i + 1)));
                assert(line@ =~= spec_log_line(
                    label@,
                    label_size as int,
                    color@,
                    lines[i as int],
                ));
                assert(r.deep_view() =~~= r0.push(line@));
                assert(spec_format_lines(label@, label_size as int, color@, lines)
                    =~~= r.deep_view() + spec_format_lines(
                    label@,
                    label_size as int,
                    color@,
                    lines.skip(i + 1),
                ));
            }
        } else {
            proof {
                assert(spec_trim(lines[i as int]).len() == 0);
                assert(spec_format_lines(label@, label_size as int, color@, lines.skip(i as int))
                    == spec_format_lines(label@, label_size as int, color@, lines.skip(i + 1)));
                assert(spec_format_lines(label@, label_size as int, color@, lines)
                    =~~= r.deep_view() + spec_format_lines(
                    label@,
                    label_size as int,
                    color@,
                    lines.skip(i + 1),
                ));
            }
        }
        i = i + 1;
    }
    proof {
        assert(lines.skip(lines.len() as int) =~= Seq::<Seq<char>>::empty());
        assert(r.deep_view() =~~= spec_log_lines(label@, label_size as int, color@, message@));
    }
    r
}

/// What `decode_lossy` returns: the text that lenient UTF-8 decoding makes
/// of a byte sequence.
pub uninterp spec fn utf8_lossy(bytes: Seq<u8>) -> Seq<char>;

/// Relies on String::from_utf8_lossy: decodes bytes as UTF-8 with invalid
/// sequences replaced by the replacement character, a function of the bytes
/// alone.
#[verifier::external_body]
fn decode_lossy(bytes: &[u8]) -> (r: String)
    ensures
        r@ == utf8_lossy(bytes@),
{
    String::from_utf8_lossy(bytes).into_owned()
}

/// The console lines for one chunk read from a spawned process's output
/// stream: the chunk is decoded leniently, NUL characters are stripped, and
/// the result is formatted like any forwarded message.
pub fn render_chunk(label: &str, label_size: usize, color: &str, chunk: &[u8]) -> (r: Vec<String>)
    requires
        label@.len() <= label_size,
    ensures
        r.deep_view() == spec_log_lines(
            label@,
            label_size as int,
            color@,
            spec_strip_nul(utf8_lossy(chunk@)),
        ),
{
    let decoded = decode_lossy(chunk);
    let chars = str_to_chars(decoded.as_str());
    let cleaned = strip_nul(&chars);
    let text = chars_to_string(&cleaned);
    log_lines(label, label_size, color, text.as_str())
}

// Laws of the state machine, stated over `tick_transition` exactly as the
// supervisor's `step` establishes it.

/// Without demand a tick never starts a process: an idle worker is left
/// untouched, and a running one is moved toward a stop (its termination
/// timer armed) rather than restarted.
pub proof fn lemma_no_demand_never_starts(
    pre: Worker,
    post: Worker,
    now: int,
    grace: int,
    action: WorkAction,
)
    requires
        tick_transition(pre, post, false, now, grace, action),
    ensures
        !(action is Start),
        pre.process is None ==> post == pre && action is Nothing,
        pre.process is Some && pre.terminate_at is None ==> (post.terminate_at matches Some(t)
            && t == now + grace),
{
}

/// Sustained demand never spawns a second process: a tick with demand on a
/// worker whose process is alive asks for nothing and leaves that same
/// process running, with no stop pending.
pub proof fn lemma_spawn_suppression(
    pre: Worker,
    post: Worker,
    now: int,
    grace: int,
    action: WorkAction,
)
    requires
        tick_transition(pre, post, true, now, grace, action),
        pre.process is Some,
    ensures
        action is Nothing,
        post.process == pre.process,
        post.terminate_at is None,
{
}

/// Demand renewed while a stop is pending cancels the stop and keeps the
/// original process instance untouched: no signal, no respawn.
pub proof fn lemma_renewed_demand_keeps_process(
    pre: Worker,
    post: Worker,
    now: int,
    grace: int,
    action: WorkAction,
    pid: u32,
)
    requires
        tick_transition(pre, post, true, now, grace, action),
        pre.process == Some(pid),
        pre.terminate_at is Some,
    ensures
        post.process == Some(pid),
        post.terminate_at is None,
        action is Nothing,
{
}

/// A worker whose stop is pending is told to stop exactly when the
/// scheduled termination time has been reached, and not before.
pub proof fn lemma_stop_exactly_at_deadline(
    pre: Worker,
    post: Worker,
    now: int,
    grace: int,
    action: WorkAction,
    t: i64,
)
    requires
        tick_transition(pre, post, false, now, grace, action),
        pre.process is Some,
        pre.terminate_at == Some(t),
    ensures
        action is Stop <==> now >= t,
{
}

/// A tick preserves the descriptor invariant: a scheduled termination time
/// exists only while a process does.
pub proof fn lemma_tick_preserves_wf(
    pre: Worker,
    post: Worker,
    demand: bool,
    now: int,
    grace: int,
    action: WorkAction,
)
    requires
        tick_transition(pre, post, demand, now, grace, action),
        pre.wf(),
    ensures
        post.wf(),
{
}

} // verus!
