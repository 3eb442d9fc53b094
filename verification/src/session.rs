//! The exchange between the library and the code that runs external programs.
//!
//! An operation that needs the output of external programs is a state machine:
//! each step either asks for one more program run ([`Step::Run`]) or finishes
//! ([`Step::Done`]). The caller runs the program, hands back its [`Outcome`], and
//! continues with the returned state.
use crate::text::{chars_of, dec_repr, push_char, push_dec, trim, trim_exec};
use crate::{result_view, Error, ErrorView, Result};
use vstd::prelude::*;
use vstd::string::StringExecFns;
use vstd::utf8::{decode_utf8, valid_utf8};

verus! {

/// A program run that an operation asks for.
#[derive(Debug, Clone, PartialEq, Eq)]
pub enum Invocation {
    /// `networksetup` with these arguments.
    Networksetup(Vec<String>),
    /// `route -n get default`.
    DefaultRoute,
}

pub enum InvocationView {
    Networksetup(Seq<Seq<char>>),
    DefaultRoute,
}

impl View for Invocation {
    type V = InvocationView;

    open spec fn view(&self) -> InvocationView {
        match self {
            Invocation::Networksetup(args) => InvocationView::Networksetup(args.deep_view()),
            Invocation::DefaultRoute => InvocationView::DefaultRoute,
        }
    }
}

/// How a requested program run ended.
#[derive(Debug, Clone, PartialEq, Eq)]
pub enum Outcome {
    /// The program could not be started; the I/O error's message.
    SpawnFailed(String),
    /// The program ran to its end.
    Exited { success: bool, code: Option<i32>, stdout: Vec<u8>, stderr: Vec<u8> },
}

pub enum OutcomeView {
    SpawnFailed(Seq<char>),
    Exited { success: bool, code: Option<i32>, stdout: Seq<u8>, stderr: Seq<u8> },
}

impl View for Outcome {
    type V = OutcomeView;

    open spec fn view(&self) -> OutcomeView {
        match self {
            Outcome::SpawnFailed(m) => OutcomeView::SpawnFailed(m@),
            Outcome::Exited { success, code, stdout, stderr } => OutcomeView::Exited {
                success: *success,
                code: *code,
                stdout: stdout@,
                stderr: stderr@,
            },
        }
    }
}

/// One step of an operation: run a program and resume with state `S`, or finish.
pub enum Step<S, T> {
    Run(S, Invocation),
    Done(Result<T>),
}

pub enum StepView<SV, TV> {
    Run(SV, InvocationView),
    Done(std::result::Result<TV, ErrorView>),
}

impl<S: View, T: View> View for Step<S, T> {
    type V = StepView<S::V, T::V>;

    open spec fn view(&self) -> StepView<S::V, T::V> {
        match self {
            Step::Run(s, i) => StepView::Run(s@, i@),
            Step::Done(r) => StepView::Done(result_view(*r)),
        }
    }
}

// ---------------------------------------------------------------------------
// Decoding program output
// ---------------------------------------------------------------------------

/// What `String::from_utf8_lossy` makes of these bytes.
pub uninterp spec fn utf8_lossy(bytes: Seq<u8>) -> Seq<char>;

/// `String::from_utf8_lossy`: the text of the bytes, with each invalid sequence
/// replaced by U+FFFD. Stated: the result is `utf8_lossy` of the bytes, and valid
/// UTF-8 is decoded unchanged (the function then borrows the input as it is).
#[verifier::external_body]
pub(crate) fn decode_lossy(bytes: &[u8]) -> (s: String)
    ensures
        s@ == utf8_lossy(bytes@),
        valid_utf8(bytes@) ==> s@ == decode_utf8(bytes@),
{
    String::from_utf8_lossy(bytes).into_owned()
}

/// `std::str::from_utf8`: the text of the bytes if they are valid UTF-8.
#[verifier::external_body]
pub(crate) fn decode_strict(bytes: &[u8]) -> (r: Option<String>)
    ensures
        r is Some <==> valid_utf8(bytes@),
        r matches Some(s) ==> s@ == decode_utf8(bytes@),
{
    match std::str::from_utf8(bytes) {
        Ok(s) => Some(s.to_owned()),
        Err(_) => None,
    }
}

/// What `format!("{:?}", items)` writes for a list of strings.
pub uninterp spec fn debug_text_of_strings(items: Seq<Seq<char>>) -> Seq<char>;

/// The `Debug` text of a list of strings (`["a", "b"]`, with string escapes).
#[verifier::external_body]
pub(crate) fn debug_strings(items: &Vec<String>) -> (r: String)
    ensures
        r@ == debug_text_of_strings(items.deep_view()),
{
    format!("{:?}", items)
}

// ---------------------------------------------------------------------------
// networksetup results
// ---------------------------------------------------------------------------

/// The decimal text of a signed integer.
pub open spec fn signed_repr(n: int) -> Seq<char> {
    if n < 0 {
        seq!['-'] + dec_repr((-n) as nat)
    } else {
        dec_repr(n as nat)
    }
}

/// The `Debug` text of an exit code: `Some(n)` or `None`.
pub open spec fn code_repr(code: Option<i32>) -> Seq<char> {
    match code {
        Some(c) => "Some("@ + signed_repr(c as int) + ")"@,
        None => "None"@,
    }
}

/// The non-empty ones of the trimmed standard output and error, joined by `" | "`.
pub open spec fn failure_detail(stdout: Seq<char>, stderr: Seq<char>) -> Seq<char> {
    let a = trim(stdout);
    let b = trim(stderr);
    if a.len() > 0 && b.len() > 0 {
        a + " | "@ + b
    } else if a.len() > 0 {
        a
    } else {
        b
    }
}

/// What a `networksetup` run with `args` yields: its decoded standard output when
/// it exited successfully; otherwise a command error that names the arguments, the
/// exit code and what the program printed; an I/O error when it could not start.
pub open spec fn networksetup_result(args: Seq<Seq<char>>, o: OutcomeView) -> std::result::Result<
    Seq<char>,
    ErrorView,
> {
    match o {
        OutcomeView::SpawnFailed(m) => Err(ErrorView::Io(m)),
        OutcomeView::Exited { success, code, stdout, stderr } => {
            if success {
                Ok(utf8_lossy(stdout))
            } else {
                Err(
                    ErrorView::Command(
                        failure_message(debug_text_of_strings(args), code, utf8_lossy(stdout), utf8_lossy(stderr)),
                    ),
                )
            }
        },
    }
}

fn push_str_exec(s: &mut String, t: &str)
    ensures
        final(s)@ == old(s)@ + t@,
{
    s.append(t);
}

fn push_code(s: &mut String, code: Option<i32>)
    ensures
        final(s)@ == old(s)@ + code_repr(code),
{
    match code {
        Some(c) => {
            push_str_exec(s, "Some(");
            if c < 0 {
                push_char(s, '-');
                let m: u32 = if c == i32::MIN {
                    2147483648u32
                } else {
                    (-c) as u32
                };
                push_dec(s, m);
            } else {
                push_dec(s, c as u32);
            }
            push_str_exec(s, ")");
            assert(s@ =~= old(s)@ + code_repr(code));
        },
        None => {
            push_str_exec(s, "None");
        },
    }
}

/// The message of a failed `networksetup` run, given the `Debug` text of its
/// arguments, its exit code and its decoded standard output and error.
pub open spec fn failure_message(args_debug: Seq<char>, code: Option<i32>, stdout: Seq<char>, stderr: Seq<char>) -> Seq<
    char,
> {
    "networksetup "@ + args_debug + " exited "@ + code_repr(code) + ": "@ + failure_detail(stdout, stderr)
}

/// Writes the message of a failed `networksetup` run (see `failure_message`).
pub fn failure_message_of(args_debug: &str, code: Option<i32>, stdout: &str, stderr: &str) -> (r: String)
    ensures
        r@ == failure_message(args_debug@, code, stdout@, stderr@),
{
    let a = trim_exec(&chars_of(stdout));
    let b = trim_exec(&chars_of(stderr));
    let mut msg = String::new();
    push_str_exec(&mut msg, "networksetup ");
    push_str_exec(&mut msg, args_debug);
    push_str_exec(&mut msg, " exited ");
    push_code(&mut msg, code);
    push_str_exec(&mut msg, ": ");
    if a.len() > 0 && b.len() > 0 {
        crate::text::push_chars(&mut msg, &a);
        push_str_exec(&mut msg, " | ");
        crate::text::push_chars(&mut msg, &b);
    } else if a.len() > 0 {
        crate::text::push_chars(&mut msg, &a);
    } else {
        crate::text::push_chars(&mut msg, &b);
    }
    assert(msg@ =~= failure_message(args_debug@, code, stdout@, stderr@));
    msg
}

/// The outcome of a `networksetup` run as a result (see `networksetup_result`).
pub fn check_networksetup(args: &Vec<String>, o: &Outcome) -> (r: Result<String>)
    ensures
        result_view(r) == networksetup_result(args.deep_view(), o@),
{
    match o {
        Outcome::SpawnFailed(m) => Err(Error::Io(m.clone())),
        Outcome::Exited { success, code, stdout, stderr } => {
            let out = decode_lossy(stdout.as_slice());
            if *success {
                return Ok(out);
            }
            let err = decode_lossy(stderr.as_slice());
            let d = debug_strings(args);
            Err(Error::Command(failure_message_of(d.as_str(), *code, out.as_str(), err.as_str())))
        },
    }
}

} // verus!
