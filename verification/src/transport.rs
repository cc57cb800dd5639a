//! What a bounded command left behind, as far as it may be shown.

use vstd::prelude::*;
use vstd::string::*;

use crate::capture::after_control_sequence;
use crate::lifecycle::CloseOutcome;
use crate::model::OwnershipProof;
use crate::text::{
    chars_of, collapse_whitespace, collapsed, contains_text, control, is_control, occurs,
    replace_all, replaced, shorten, shortened,
};
use crate::uuids::{lemma_simple_round_trip, simple_text};

verus! {

/// How long a transport may take, in seconds.
pub const LIFECYCLE_TRANSPORT_TIMEOUT_SECONDS: u64 = 3;

/// The outcome of a command with a deadline and bounded output.
#[derive(Debug, PartialEq, Eq)]
pub enum BoundedOutput {
    Completed {
        success: bool,
        /// The exit status, as a reader sees it.
        status: String,
        stdout: String,
        stdout_truncated: bool,
        stderr: String,
        stderr_truncated: bool,
    },
    TimedOut,
    Cancelled,
    /// The command could not be started, and why.
    SpawnError(String),
    Error,
}

/// What follows an operating system command whose introducer has been read:
/// everything behind a BEL or an escape, and a backslash behind the escape.
pub open spec fn after_title_sequence(rest: Seq<char>) -> Seq<char>
    decreases rest.len(),
{
    if rest.len() == 0 {
        rest
    } else if rest[0] == '\x07' {
        rest.drop_first()
    } else if rest[0] == '\x1b' {
        if rest.len() > 1 && rest[1] == '\\' {
            rest.skip(2)
        } else {
            rest.drop_first()
        }
    } else {
        after_title_sequence(rest.drop_first())
    }
}

/// What follows an escape sequence whose escape character has been read.
pub open spec fn after_short_escape(rest: Seq<char>) -> Seq<char> {
    if rest.len() == 0 {
        rest
    } else if rest[0] == '[' {
        after_control_sequence(rest.drop_first())
    } else if rest[0] == ']' {
        after_title_sequence(rest.drop_first())
    } else {
        rest.drop_first()
    }
}

/// An escape sequence ends at or before the end of the text.
pub proof fn lemma_after_short_escape_len(rest: Seq<char>)
    ensures
        after_control_sequence(rest).len() <= rest.len(),
        after_title_sequence(rest).len() <= rest.len(),
        after_short_escape(rest).len() <= rest.len(),
    decreases rest.len(),
{
    if rest.len() > 0 {
        lemma_after_short_escape_len(rest.drop_first());
    }
}

/// Text without escape sequences, in which each control character is a space.
pub open spec fn without_escapes(input: Seq<char>) -> Seq<char>
    decreases input.len(),
    via without_escapes_decreases
{
    if input.len() == 0 {
        Seq::empty()
    } else if input[0] == '\x1b' {
        without_escapes(after_short_escape(input.drop_first()))
    } else if control(input[0]) {
        seq![' '] + without_escapes(input.drop_first())
    } else {
        seq![input[0]] + without_escapes(input.drop_first())
    }
}

#[via_fn]
proof fn without_escapes_decreases(input: Seq<char>) {
    if input.len() > 0 {
        lemma_after_short_escape_len(input.drop_first());
    }
}

/// The index in `chars` behind the escape sequence whose escape character
/// stands just before `from`.
fn skip_escape(chars: &Vec<char>, from: usize) -> (next: usize)
    requires
        from <= chars@.len(),
    ensures
        from <= next <= chars@.len(),
        chars@.skip(next as int) == after_short_escape(chars@.skip(from as int)),
{
    if from == chars.len() {
        return from;
    }
    let ghost rest = chars@.skip(from as int);
    let kind = chars[from];
    assert(rest[0] == kind);
    let mut at: usize = from + 1;
    assert(rest.drop_first() =~= chars@.skip(at as int));
    if kind == '[' {
        while at < chars.len()
            invariant
                from < at <= chars@.len(),
                after_short_escape(rest) == after_control_sequence(chars@.skip(at as int)),
                rest == chars@.skip(from as int),
            decreases chars.len() - at,
        {
            let c = chars[at];
            assert(chars@.skip(at as int)[0] == c);
            assert(chars@.skip(at as int).drop_first() =~= chars@.skip(at + 1));
            at += 1;
            if '@' <= c && c <= '~' {
                return at;
            }
        }
    } else if kind == ']' {
        while at < chars.len()
            invariant
                from < at <= chars@.len(),
                after_short_escape(rest) == after_title_sequence(chars@.skip(at as int)),
                rest == chars@.skip(from as int),
            decreases chars.len() - at,
        {
            let c = chars[at];
            let ghost tail = chars@.skip(at as int);
            assert(tail[0] == c);
            assert(tail.drop_first() =~= chars@.skip(at + 1));
            at += 1;
            if c == '\x07' {
                return at;
            }
            if c == '\x1b' {
                if at < chars.len() && chars[at] == '\\' {
                    assert(tail[1] == '\\');
                    assert(tail.skip(2) =~= chars@.skip(at + 1));
                    return at + 1;
                }
                assert(tail.len() > 1 ==> tail[1] == chars@[at as int]);
                return at;
            }
        }
    }
    at
}

/// `input` without escape sequences, each control character a space.
pub(crate) fn strip_escapes(input: &str) -> (output: String)
    ensures
        output@ == without_escapes(input@),
{
    let chars = chars_of(input);
    let mut output = String::new();
    let mut at: usize = 0;
    assert(chars@.skip(0) =~= chars@);
    while at < chars.len()
        invariant
            at <= chars@.len(),
            chars@ == input@,
            without_escapes(input@) == output@ + without_escapes(chars@.skip(at as int)),
        decreases chars.len() - at,
    {
        let ghost rest = chars@.skip(at as int);
        let ghost before = output@;
        let c = chars[at];
        assert(rest[0] == c);
        assert(rest.drop_first() =~= chars@.skip(at + 1));
        if c == '\x1b' {
            at = skip_escape(&chars, at + 1);
        } else {
            let shown = if is_control(c) {
                ' '
            } else {
                c
            };
            output.push(shown);
            at += 1;
            assert(output@ + without_escapes(chars@.skip(at as int)) =~= before + (seq![shown]
                + without_escapes(chars@.skip(at as int))));
        }
    }
    assert(output@ + without_escapes(chars@.skip(at as int)) =~= output@);
    output
}

/// Text in which every mention of the proof is redacted.
pub open spec fn redacted(text: Seq<char>, ownership_proof: Seq<char>) -> Seq<char> {
    let hidden = "[redacted ownership proof]"@;
    replaced(
        replaced(
            replaced(text, "TETHER_OWNERSHIP_PROOF="@ + ownership_proof, hidden),
            ownership_proof,
            hidden,
        ),
        "TETHER_OWNERSHIP_PROOF"@,
        hidden,
    )
}

/// The detail of a transport failure: redacted, without escapes, on one line,
/// and bounded.
pub open spec fn transport_detail(text: Seq<char>, ownership_proof: Seq<char>) -> Seq<char> {
    shortened(collapsed(without_escapes(redacted(text, ownership_proof))), 240)
}

/// The detail of a transport failure, as far as it may be shown.
pub fn sanitize_transport_detail(text: &str, ownership_proof: &OwnershipProof) -> (detail: String)
    ensures
        detail@ == transport_detail(text@, simple_text(ownership_proof@)),
{
    let shown = ownership_proof.to_string();
    proof {
        lemma_simple_round_trip(ownership_proof@);
        reveal_strlit("TETHER_OWNERSHIP_PROOF");
    }
    let hidden = "[redacted ownership proof]";
    let assignment = "TETHER_OWNERSHIP_PROOF=".to_owned().concat(shown.as_str());
    let text = replace_all(text, assignment.as_str(), hidden);
    let text = replace_all(text.as_str(), shown.as_str(), hidden);
    let text = replace_all(text.as_str(), "TETHER_OWNERSHIP_PROOF", hidden);
    let text = strip_escapes(text.as_str());
    let text = collapse_whitespace(text.as_str());
    shorten(text.as_str(), 240)
}

/// What a transport failure says.
pub open spec fn transport_error_text(output: BoundedOutput, ownership_proof: Seq<char>) -> Seq<char> {
    match output {
        BoundedOutput::TimedOut => "transport timed out after 3 seconds"@,
        BoundedOutput::Cancelled => "transport was cancelled"@,
        BoundedOutput::SpawnError(reason) => "spawn transport: "@ + reason@,
        BoundedOutput::Error => "transport failed"@,
        BoundedOutput::Completed { status, stderr, stderr_truncated, .. } => {
            let detail = transport_detail(stderr@, ownership_proof);
            let truncation = if stderr_truncated {
                " [stderr truncated]"@
            } else {
                ""@
            };
            if detail.len() == 0 {
                "transport failed with status "@ + status@ + truncation
            } else {
                "transport failed with status "@ + status@ + ": "@ + detail + truncation
            }
        },
    }
}

/// What a transport failure says.
pub fn bounded_transport_error(output: &BoundedOutput, ownership_proof: &OwnershipProof) -> (text:
    String)
    ensures
        text@ == transport_error_text(*output, simple_text(ownership_proof@)),
{
    match output {
        BoundedOutput::TimedOut => "transport timed out after 3 seconds".to_owned(),
        BoundedOutput::Cancelled => "transport was cancelled".to_owned(),
        BoundedOutput::SpawnError(reason) => "spawn transport: ".to_owned().concat(
            reason.as_str(),
        ),
        BoundedOutput::Error => "transport failed".to_owned(),
        BoundedOutput::Completed { status, stderr, stderr_truncated, .. } => {
            let detail = sanitize_transport_detail(stderr.as_str(), ownership_proof);
            let truncation = if *stderr_truncated {
                " [stderr truncated]"
            } else {
                ""
            };
            let start = "transport failed with status ".to_owned().concat(status.as_str());
            if detail.as_str().is_empty() {
                start.concat(truncation)
            } else {
                start.concat(": ").concat(detail.as_str()).concat(truncation)
            }
        },
    }
}

/// What came of closing a workload. `guard` is the text by which the backend
/// says that it found another owner.
pub fn close_outcome(output: BoundedOutput, guard: &str, ownership_proof: &OwnershipProof) -> (outcome:
    CloseOutcome)
    ensures
        match output {
            BoundedOutput::Completed { success, stdout, .. } => if success && stdout@.len() == 0 {
                outcome == CloseOutcome::Closed
            } else if occurs(stdout@, guard@) {
                outcome == CloseOutcome::GuardRejected
            } else {
                outcome is Failed && outcome->Failed_0@ == transport_error_text(
                    output,
                    simple_text(ownership_proof@),
                )
            },
            _ => outcome is Failed && outcome->Failed_0@ == transport_error_text(
                output,
                simple_text(ownership_proof@),
            ),
        },
{
    if let BoundedOutput::Completed { success, stdout, .. } = &output {
        if *success && stdout.as_str().is_empty() {
            return CloseOutcome::Closed;
        }
        if contains_text(stdout.as_str(), guard) {
            return CloseOutcome::GuardRejected;
        }
    }
    CloseOutcome::Failed(bounded_transport_error(&output, ownership_proof))
}

} // verus!
