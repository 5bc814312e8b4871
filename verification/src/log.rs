use vstd::prelude::*;

verus! {

/// The character for a single decimal digit.
pub open spec fn digit_char(d: nat) -> char {
    if d == 0 {
        '0'
    } else if d == 1 {
        '1'
    } else if d == 2 {
        '2'
    } else if d == 3 {
        '3'
    } else if d == 4 {
        '4'
    } else if d == 5 {
        '5'
    } else if d == 6 {
        '6'
    } else if d == 7 {
        '7'
    } else if d == 8 {
        '8'
    } else {
        '9'
    }
}

/// The decimal digit string of a natural number, most significant digit first,
/// with no leading zeroes (zero itself is the single digit `0`).
pub open spec fn dec_digits(n: nat) -> Seq<char>
    decreases n,
{
    if n < 10 {
        seq![digit_char(n)]
    } else {
        dec_digits(n / 10).push(digit_char(n % 10))
    }
}

/// The decimal string of an integer: a minus sign before the digits when negative.
pub open spec fn int_string(i: int) -> Seq<char> {
    if i < 0 {
        seq!['-'] + dec_digits((-i) as nat)
    } else {
        dec_digits(i as nat)
    }
}

/// The digit characters of a digit sequence read back to front; used to relate
/// least-significant-first digit extraction to the printed order.
pub open spec fn rev_digit_chars(ds: Seq<u8>) -> Seq<char>
    decreases ds.len(),
{
    if ds.len() == 0 {
        Seq::empty()
    } else {
        seq![digit_char(ds.last() as nat)] + rev_digit_chars(ds.drop_last())
    }
}

proof fn lemma_rev_digit_chars(ds: Seq<u8>)
    ensures
        rev_digit_chars(ds).len() == ds.len(),
        forall|j: int|
            0 <= j < ds.len() ==> rev_digit_chars(ds)[j] == digit_char(
                ds[ds.len() - 1 - j] as nat,
            ),
    decreases ds.len(),
{
    if ds.len() > 0 {
        lemma_rev_digit_chars(ds.drop_last());
        assert forall|j: int| 0 <= j < ds.len() implies rev_digit_chars(ds)[j] == digit_char(
            ds[ds.len() - 1 - j] as nat,
        ) by {
            if j > 0 {
                assert(rev_digit_chars(ds)[j] == rev_digit_chars(ds.drop_last())[j - 1]);
                assert(ds.drop_last()[ds.len() - 1 - j] == ds[ds.len() - 1 - j]);
            }
        }
    }
}

fn digit_str(d: u8) -> (r: &'static str)
    requires
        d < 10,
    ensures
        r@ == seq![digit_char(d as nat)],
{
    proof {
        reveal_strlit("0");
        reveal_strlit("1");
        reveal_strlit("2");
        reveal_strlit("3");
        reveal_strlit("4");
        reveal_strlit("5");
        reveal_strlit("6");
        reveal_strlit("7");
        reveal_strlit("8");
        reveal_strlit("9");
    }
    let r: &'static str = match d {
        0 => "0",
        1 => "1",
        2 => "2",
        3 => "3",
        4 => "4",
        5 => "5",
        6 => "6",
        7 => "7",
        8 => "8",
        _ => "9",
    };
    proof {
        assert(r@ =~= seq![digit_char(d as nat)]);
    }
    r
}

/// Renders an unsigned number as its decimal digit string.
pub fn u64_to_string(n: u64) -> (r: String)
    ensures
        r@ == dec_digits(n as nat),
{
    let mut digits: Vec<u8> = Vec::new();
    let mut m: u64 = n;
    loop
        invariant_except_break
            forall|i: int| 0 <= i < digits@.len() ==> digits@[i] < 10,
            digits@.len() == 0 ==> m == n,
            digits@.len() > 0 ==> m > 0,
            digits@.len() > 0 ==> dec_digits(n as nat) == dec_digits(m as nat) + rev_digit_chars(
                digits@,
            ),
        ensures
            dec_digits(n as nat) == rev_digit_chars(digits@),
            forall|i: int| 0 <= i < digits@.len() ==> digits@[i] < 10,
        decreases m,
    {
        let ghost prev_digits = digits@;
        let ghost m0 = m as nat;
        let d: u8 = (m % 10) as u8;
        digits.push(d);
        proof {
            assert(digits@.last() == d);
            assert(digits@.drop_last() =~= prev_digits);
            assert(rev_digit_chars(digits@) == seq![digit_char(d as nat)] + rev_digit_chars(
                prev_digits,
            ));
            if m0 >= 10 {
                assert(dec_digits(m0) == dec_digits(m0 / 10).push(digit_char(m0 % 10)));
                assert(dec_digits(m0) =~= dec_digits(m0 / 10) + seq![digit_char(d as nat)]);
                assert(dec_digits(n as nat) =~= dec_digits(m0 / 10) + rev_digit_chars(digits@));
            } else {
                assert(dec_digits(m0) =~= seq![digit_char(d as nat)]);
                assert(dec_digits(n as nat) =~= rev_digit_chars(digits@));
            }
        }
        m = m / 10;
        if m == 0 {
            proof {
                if digits@.len() > 1 {
                    assert(dec_digits(n as nat) == dec_digits(m0) + rev_digit_chars(
                        digits@.drop_last(),
                    ));
                }
            }
            break ;
        }
    }
    let mut r = String::new();
    let mut i: usize = digits.len();
    proof {
        lemma_rev_digit_chars(digits@);
    }
    while i > 0
        invariant
            i <= digits@.len(),
            forall|k: int| 0 <= k < digits@.len() ==> digits@[k] < 10,
            rev_digit_chars(digits@).len() == digits@.len(),
            forall|j: int|
                0 <= j < digits@.len() ==> rev_digit_chars(digits@)[j] == digit_char(
                    digits@[digits@.len() - 1 - j] as nat,
                ),
            r@ == rev_digit_chars(digits@).take(digits@.len() - i),
            dec_digits(n as nat) == rev_digit_chars(digits@),
        decreases i,
    {
        i = i - 1;
        let s = digit_str(digits[i]);
        r.append(s);
        proof {
            let rev = rev_digit_chars(digits@);
            let len = digits@.len() as int;
            assert(rev[len - 1 - i] == digit_char(digits@[i as int] as nat));
            assert(rev.take(len - i) =~= rev.take(len - i - 1).push(rev[len - i - 1]));
        }
    }
    proof {
        assert(rev_digit_chars(digits@).take(digits@.len() as int) =~= rev_digit_chars(digits@));
    }
    r
}

/// Renders a signed number as its decimal string, with a leading minus sign
/// when it is negative.
pub fn i32_to_string(n: i32) -> (r: String)
    ensures
        r@ == int_string(n as int),
{
    proof {
        reveal_strlit("-");
    }
    if n < 0 {
        let wide: i64 = n as i64;
        let mag: u64 = (-wide) as u64;
        let digits = u64_to_string(mag);
        let mut r = "-".to_owned();
        r.append(digits.as_str());
        proof {
            assert(r@ =~= seq!['-'] + dec_digits(mag as nat));
        }
        r
    } else {
        u64_to_string(n as u64)
    }
}

/// What the process runner reports when a child process ends: the exit code,
/// if one is available, and the signal that ended the process, if any.
#[derive(Clone, Copy, Debug, PartialEq, Eq)]
pub struct TerminatedPayload {
    pub code: Option<i32>,
    pub signal: Option<i32>,
}

/// A termination counts as successful when the process was ended by a signal,
/// or no exit code is available, or the exit code is exactly zero.
pub open spec fn termination_successful(payload: TerminatedPayload) -> bool {
    payload.signal is Some || payload.code is None || payload.code == Some(0i32)
}

/// Classifies a finished child process as a successful or failed termination.
pub fn is_process_termination_successful(payload: &TerminatedPayload) -> (r: bool)
    ensures
        r == termination_successful(*payload),
{
    match payload.signal {
        Some(_) => true,
        None => match payload.code {
            None => true,
            Some(c) => c == 0,
        },
    }
}

/// The summary of one finished child process, as delivered to the sink.
#[derive(Clone, Copy, Debug, PartialEq, Eq)]
pub struct ProcessResult {
    pub code: Option<i32>,
    pub success: bool,
}

/// The log line that a process termination summary renders to.
pub open spec fn process_result_message(pr: ProcessResult) -> Seq<char> {
    match pr.code {
        Some(c) => "Process exited with code "@ + int_string(c as int),
        None => "Process exited"@,
    }
}

impl ProcessResult {
    /// Builds the summary for a termination report, classifying it as
    /// successful or not.
    pub fn from_terminated_payload(payload: &TerminatedPayload) -> (r: ProcessResult)
        ensures
            r.code == payload.code,
            r.success == termination_successful(*payload),
    {
        ProcessResult { code: payload.code, success: is_process_termination_successful(payload) }
    }

    /// Renders the summary as a log line.
    pub fn to_message(&self) -> (r: String)
        ensures
            r@ == process_result_message(*self),
    {
        match self.code {
            Some(c) => {
                let mut r = "Process exited with code ".to_owned();
                let digits = i32_to_string(c);
                r.append(digits.as_str());
                r
            },
            None => "Process exited".to_owned(),
        }
    }
}

/// A message for the textual log stream of one operation.
#[derive(Clone, Debug)]
pub struct LogPayload {
    pub message: String,
}

/// A named progress step of one operation, with the total step count when the
/// operation announces one (for determinate progress displays).
#[derive(Clone, Debug)]
pub struct ProgressPayload {
    pub message: String,
    pub step: Option<u32>,
    pub max_step: Option<u32>,
}

/// Builds the log, progress and process-exit events of one operation. Each
/// `emit_*` method returns the event topic and its payload; an adapter outside
/// the library forwards them, in order, to whatever transport is in use.
#[derive(Clone, Debug)]
pub struct LogEmitter {
    pub key: String,
    pub max_progress_step: Option<u32>,
}

impl LogEmitter {
    /// An emitter for an operation with no announced step count.
    pub fn new(key: &str) -> (r: LogEmitter)
        ensures
            r.key@ == key@,
            r.max_progress_step is None,
    {
        LogEmitter { key: key.to_owned(), max_progress_step: None }
    }

    /// An emitter for an operation with a known total number of steps.
    pub fn stepped(key: &str, max_progress_step: u32) -> (r: LogEmitter)
        ensures
            r.key@ == key@,
            r.max_progress_step == Some(max_progress_step),
    {
        LogEmitter { key: key.to_owned(), max_progress_step: Some(max_progress_step) }
    }

    /// A plain log line.
    pub fn emit_log(&self, msg: &str) -> (r: (String, LogPayload))
        ensures
            r.0@ == "log:"@ + self.key@,
            r.1.message@ == msg@,
    {
        ("log:".to_owned().concat(self.key.as_str()), LogPayload { message: msg.to_owned() })
    }

    /// An indeterminate progress message.
    pub fn emit_progress(&self, message: &str) -> (r: (String, ProgressPayload))
        ensures
            r.0@ == "progress:"@ + self.key@,
            r.1.message@ == message@,
            r.1.step is None,
            r.1.max_step == self.max_progress_step,
    {
        (
            "progress:".to_owned().concat(self.key.as_str()),
            ProgressPayload {
                message: message.to_owned(),
                step: None,
                max_step: self.max_progress_step,
            },
        )
    }

    /// A progress message pinned to one step of the announced total.
    pub fn emit_progress_stepped(&self, step: u32, message: &str) -> (r: (String, ProgressPayload))
        ensures
            r.0@ == "progress:"@ + self.key@,
            r.1.message@ == message@,
            r.1.step == Some(step),
            r.1.max_step == self.max_progress_step,
    {
        (
            "progress:".to_owned().concat(self.key.as_str()),
            ProgressPayload {
                message: message.to_owned(),
                step: Some(step),
                max_step: self.max_progress_step,
            },
        )
    }

    /// The process-exit summary event.
    pub fn emit_process_closure(&self, payload: &ProcessResult) -> (r: (String, ProcessResult))
        ensures
            r.0@ == "process-exit:"@ + self.key@,
            r.1 == *payload,
    {
        ("process-exit:".to_owned().concat(self.key.as_str()), *payload)
    }
}

/// One event from a supervised child process's output stream.
#[derive(Clone, Debug)]
pub enum CommandEvent {
    Stderr(Vec<u8>),
    Stdout(Vec<u8>),
    Error(String),
    Terminated(TerminatedPayload),
    Other,
}

/// What decoding raw process output as UTF-8 yields: the text, or the decode
/// error's display text.
pub uninterp spec fn utf8_decoded(bytes: Seq<u8>) -> Result<Seq<char>, Seq<char>>;

/// Relies on String::from_utf8: decodes the bytes as UTF-8 text, or reports a
/// decode error; the outcome depends on the bytes alone.
#[verifier::external_body]
pub(crate) fn decode_utf8(bytes: Vec<u8>) -> (r: Result<String, String>)
    ensures
        r matches Ok(s) ==> utf8_decoded(bytes@) matches Ok(t) && s@ == t,
        r matches Err(m) ==> utf8_decoded(bytes@) matches Err(t) && m@ == t,
{
    String::from_utf8(bytes).map_err(|e| e.to_string())
}

/// The log line that one process output event renders to.
pub open spec fn event_log_line(e: CommandEvent) -> Seq<char> {
    match e {
        CommandEvent::Stderr(b) => match utf8_decoded(b@) {
            Ok(s) => s,
            Err(m) => "Failed to decode output"@ + ": "@ + m,
        },
        CommandEvent::Stdout(b) => match utf8_decoded(b@) {
            Ok(s) => s,
            Err(m) => "Failed to decode output"@ + ": "@ + m,
        },
        CommandEvent::Error(m) => m@,
        CommandEvent::Terminated(p) => process_result_message(
            ProcessResult { code: p.code, success: termination_successful(p) },
        ),
        CommandEvent::Other => Seq::empty(),
    }
}

/// The termination summary that one process output event carries, if any.
pub open spec fn event_terminated_result(e: CommandEvent) -> Option<ProcessResult> {
    match e {
        CommandEvent::Terminated(p) => Some(
            ProcessResult { code: p.code, success: termination_successful(p) },
        ),
        _ => None,
    }
}

/// Turns one event from a child process's output stream into the log line to
/// forward, and, for a termination event, the process summary to report.
pub fn process_event_log(event: CommandEvent) -> (r: (String, Option<ProcessResult>))
    ensures
        r.0@ == event_log_line(event),
        r.1 == event_terminated_result(event),
{
    match event {
        CommandEvent::Stderr(b) => {
            match decode_utf8(b) {
                Ok(s) => (s, None),
                Err(m) => (err_to_string("Failed to decode output", m.as_str()), None),
            }
        },
        CommandEvent::Stdout(b) => {
            match decode_utf8(b) {
                Ok(s) => (s, None),
                Err(m) => (err_to_string("Failed to decode output", m.as_str()), None),
            }
        },
        CommandEvent::Error(m) => (m, None),
        CommandEvent::Terminated(p) => {
            let result = ProcessResult::from_terminated_payload(&p);
            (result.to_message(), Some(result))
        },
        CommandEvent::Other => (String::new(), None),
    }
}

/// Joins a description and an error's text as `description: error`.
pub fn err_to_string(msg: &str, err: &str) -> (r: String)
    ensures
        r@ == msg@ + ": "@ + err@,
{
    msg.to_owned().concat(": ").concat(err)
}

/// Wraps a description and an error's text as a failed result.
pub fn format_error<F>(msg: &str, err: &str) -> (r: Result<F, String>)
    ensures
        r matches Err(m) && m@ == msg@ + ": "@ + err@,
{
    Err(err_to_string(msg, err))
}

} // verus!
