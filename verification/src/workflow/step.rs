//! The policy of a single step: its condition, its limits, the delay before
//! a retry, and what an attempt amounts to.

use super::{bindings, ExecutionStatus, StepRecord, Variable, WorkflowEngine, WorkflowStep};
use crate::config::WorkflowConfig;
use crate::text::{lemma_replaced_whole, replace_text, replaced};
use crate::time::Timestamp;
use vstd::arithmetic::power2::{lemma2_to64, lemma_pow2_strictly_increases, lemma_pow2_unfold, pow2};
use vstd::prelude::*;
use vstd::string::StringExecFns;
use vstd::string::StrSliceExecFns;

verus! {

/// The text that stands for the variable `name` in a condition.
pub open spec fn marker(name: Seq<char>) -> Seq<char> {
    seq!['$'] + name
}

/// `text` after the markers of the first `k` variables have given way to
/// their values, one variable after the other.
pub open spec fn substituted(
    text: Seq<char>,
    variables: Seq<(Seq<char>, Seq<char>)>,
    k: int,
) -> Seq<char>
    decreases k,
{
    if k <= 0 {
        text
    } else {
        replaced(
            substituted(text, variables, k - 1),
            marker(variables[k - 1].0),
            variables[k - 1].1,
        )
    }
}

/// Whether `c` is `letter`, in either case. `letter` is a lower-case letter.
pub open spec fn is_letter(c: char, letter: char) -> bool {
    c == letter || c as int == letter as int - 32
}

/// Whether `text` reads `true`, whatever the case of its letters.
pub open spec fn says_true(text: Seq<char>) -> bool {
    &&& text.len() == 4
    &&& is_letter(text[0], 't')
    &&& is_letter(text[1], 'r')
    &&& is_letter(text[2], 'u')
    &&& is_letter(text[3], 'e')
}

/// Whether a step with this condition runs. A condition without a variable
/// marker always holds; any other holds where it reads `true` once the
/// variables are substituted.
pub open spec fn condition_holds(
    condition: Seq<char>,
    variables: Seq<(Seq<char>, Seq<char>)>,
) -> bool {
    condition.contains('$') ==> says_true(
        substituted(condition, variables, variables.len() as int),
    )
}

/// A condition that is the marker of the one variable there is holds
/// exactly if the value of that variable reads `true`.
pub proof fn lemma_flag_decides(name: Seq<char>, value: Seq<char>)
    ensures
        condition_holds(marker(name), seq![(name, value)]) == says_true(value),
{
    let variables = seq![(name, value)];
    assert(marker(name)[0] == '$');
    assert(marker(name).contains('$'));
    lemma_replaced_whole(marker(name), value);
    reveal_with_fuel(substituted, 2);
    assert(substituted(marker(name), variables, 1) == replaced(marker(name), marker(name), value));
}

/// Retries allowed to `step` after its first try.
pub open spec fn retry_limit(step: WorkflowStep, config: WorkflowConfig) -> u32 {
    match step.retry_count {
        Some(n) => n,
        None => config.retry_attempts,
    }
}

/// Seconds allowed to one attempt of `step`.
pub open spec fn time_limit(step: WorkflowStep, config: WorkflowConfig) -> u64 {
    match step.timeout {
        Some(seconds) => seconds,
        None => config.timeout_seconds,
    }
}

/// Seconds to wait before attempt number `attempt`: two to the power of
/// `attempt`, and the largest number of seconds there is where that power
/// has no room in 64 bits.
pub open spec fn backoff(attempt: nat) -> nat {
    if attempt < 64 {
        pow2(attempt)
    } else {
        u64::MAX as nat
    }
}

/// How an attempt to run the command of a step ended.
#[derive(Clone, Debug, PartialEq, Eq)]
pub enum AttemptResult {
    /// The command ran to its end.
    Exited { success: bool, stdout: String, stderr: String },
    /// The command did not run to its end: it could not be started, or its
    /// time was up. The message says which.
    Interrupted(String),
}

impl AttemptResult {
    /// Whether the attempt counts as a success.
    pub open spec fn succeeded(self) -> bool {
        self matches AttemptResult::Exited { success, .. } && success
    }

    /// What the command wrote to its standard output.
    pub open spec fn output(self) -> Seq<char> {
        match self {
            AttemptResult::Exited { stdout, .. } => stdout@,
            AttemptResult::Interrupted(_) => Seq::empty(),
        }
    }

    /// The message of a failed attempt.
    pub open spec fn failure(self) -> Seq<char> {
        match self {
            AttemptResult::Exited { stderr, .. } => "Command failed: "@ + stderr@,
            AttemptResult::Interrupted(message) => message@,
        }
    }

    /// The captured output of a successful attempt, or the message of a
    /// failed one.
    pub fn outcome(self) -> (r: Result<String, String>)
        ensures
            match r {
                Ok(output) => self.succeeded() && output@ == self.output(),
                Err(message) => !self.succeeded() && message@ == self.failure(),
            },
    {
        match self {
            AttemptResult::Exited { success, stdout, stderr } => {
                if success {
                    Ok(stdout)
                } else {
                    let mut message = String::from_str("Command failed: ");
                    message.append(stderr.as_str());
                    Err(message)
                }
            },
            AttemptResult::Interrupted(message) => Err(message),
        }
    }
}

impl StepRecord {
    /// The record of a step taken up at `now`, before anything is known of
    /// it but that it runs.
    pub open spec fn opened(step_id: Seq<char>, now: Timestamp) -> StepRecord {
        StepRecord {
            step_id,
            status: ExecutionStatus::Running,
            started_at: now,
            completed_at: None,
            output: None,
            error_message: None,
            retry_count: 0,
        }
    }

    /// The record closed with `status` at `now`.
    pub open spec fn closed(self, status: ExecutionStatus, now: Timestamp) -> StepRecord {
        StepRecord { status, completed_at: Some(now), ..self }
    }
}

proof fn lemma_take_contains(s: Seq<char>, i: int, c: char)
    requires
        0 <= i < s.len(),
    ensures
        s.take(i + 1).contains(c) <==> s.take(i).contains(c) || s[i] == c,
{
    let longer = s.take(i + 1);
    let shorter = s.take(i);
    if shorter.contains(c) {
        let t = choose|t: int| 0 <= t < shorter.len() && shorter[t] == c;
        assert(longer[t] == c);
    }
    if s[i] == c {
        assert(longer[i] == c);
    }
    if longer.contains(c) {
        let t = choose|t: int| 0 <= t < longer.len() && longer[t] == c;
        if t < i {
            assert(shorter[t] == c);
        }
    }
}

/// Whether `text` holds a variable marker.
pub fn has_marker(text: &str) -> (r: bool)
    ensures
        r == text@.contains('$'),
{
    broadcast use vstd::string::group_string_axioms;

    let mut found = false;
    for c in it: text.chars()
        invariant
            it.seq() == text@,
            found == text@.take(it.index()).contains('$'),
    {
        proof {
            lemma_take_contains(text@, it.index(), '$');
        }
        if c == '$' {
            found = true;
        }
    }
    assert(text@.take(text@.len() as int) == text@);
    found
}

/// Whether `text` reads `true`, whatever the case of its letters.
pub fn reads_true(text: &str) -> (r: bool)
    ensures
        r == says_true(text@),
{
    if text.unicode_len() != 4 {
        return false;
    }
    let t = text.get_char(0);
    let r = text.get_char(1);
    let u = text.get_char(2);
    let e = text.get_char(3);
    (t == 't' || t == 'T') && (r == 'r' || r == 'R') && (u == 'u' || u == 'U') && (e == 'e' || e
        == 'E')
}

/// Seconds to wait before attempt number `attempt`.
pub fn backoff_seconds(attempt: u32) -> (seconds: u64)
    ensures
        seconds == backoff(attempt as nat),
{
    if attempt >= 64 {
        return u64::MAX;
    }
    let mut seconds: u64 = 1;
    let mut i: u32 = 0;
    proof {
        lemma2_to64();
    }
    while i < attempt
        invariant
            i <= attempt < 64,
            seconds == pow2(i as nat),
        decreases attempt - i,
    {
        proof {
            lemma_pow2_unfold((i + 1) as nat);
            lemma_pow2_strictly_increases((i + 1) as nat, 64);
            lemma2_to64();
        }
        seconds = seconds * 2;
        i = i + 1;
    }
    seconds
}

impl WorkflowEngine {
    /// Retries allowed to `step` after its first try: its own setting, else
    /// the engine's.
    pub fn max_retries(&self, step: &WorkflowStep) -> (n: u32)
        ensures
            n == retry_limit(*step, self.config),
    {
        match step.retry_count {
            Some(n) => n,
            None => self.config.retry_attempts,
        }
    }

    /// Seconds allowed to one attempt of `step`: its own setting, else the
    /// engine's.
    pub fn timeout_for(&self, step: &WorkflowStep) -> (seconds: u64)
        ensures
            seconds == time_limit(*step, self.config),
    {
        match step.timeout {
            Some(seconds) => seconds,
            None => self.config.timeout_seconds,
        }
    }

    /// Puts the value of each variable in the place of its marker, one
    /// variable after the other in the order of `variables`.
    pub fn substitute(&self, condition: &str, variables: &[Variable]) -> (text: String)
        ensures
            text@ == substituted(condition@, bindings(variables@), variables@.len() as int),
    {
        let mut text = String::from_str(condition);
        let mut k: usize = 0;
        while k < variables.len()
            invariant
                k <= variables@.len(),
                text@ == substituted(condition@, bindings(variables@), k as int),
            decreases variables@.len() - k,
        {
            let mut pattern = String::from_str("$");
            pattern.append(variables[k].name.as_str());
            proof {
                reveal_strlit("$");
                assert(pattern@ == marker(bindings(variables@)[k as int].0));
            }
            text = replace_text(text.as_str(), pattern.as_str(), variables[k].value.as_str());
            k = k + 1;
        }
        text
    }

    /// Decides whether a step with this condition runs.
    pub fn evaluate_condition(&self, condition: &str, variables: &[Variable]) -> (holds: bool)
        ensures
            holds == condition_holds(condition@, bindings(variables@)),
    {
        if has_marker(condition) {
            let text = self.substitute(condition, variables);
            reads_true(text.as_str())
        } else {
            true
        }
    }
}

} // verus!
