//! The calls of the control utility: their argument lists, and what the
//! outcome of a call means.

use crate::vcp::{code_text, decimal_text, format_code, format_value};
use vstd::prelude::*;
use vstd::string::*;

verus! {

/// The texts of a list of strings, in order.
pub open spec fn texts(v: Seq<String>) -> Seq<Seq<char>> {
    v.map_values(|s: String| s@)
}

/// The arguments that ask for the listing of the displays.
pub open spec fn detect_args() -> Seq<Seq<char>> {
    seq!["detect"@]
}

/// The arguments that ask for the capabilities of the display `key`.
pub open spec fn capabilities_args(key: Seq<char>) -> Seq<Seq<char>> {
    seq!["capabilities"@, "--display"@, key]
}

/// The arguments that ask for the value of the setting `code` of the
/// display `key`.
pub open spec fn getvcp_args(code: u8, key: Seq<char>) -> Seq<Seq<char>> {
    seq!["getvcp"@, code_text(code), "--display"@, key]
}

/// The arguments that set the setting `code` of the display `key` to `value`.
pub open spec fn setvcp_args(code: Seq<char>, value: u32, key: Seq<char>) -> Seq<Seq<char>> {
    seq!["setvcp"@, code, decimal_text(value as nat), "--display"@, key]
}

/// The arguments that ask for the help text.
pub open spec fn help_args() -> Seq<Seq<char>> {
    seq!["--help"@]
}

/// What the message of a failed call starts with.
pub open spec fn failure_prefix() -> Seq<char> {
    "ddcutil failed: "@
}

/// Why a call of the control utility gave no output.
#[derive(Debug)]
pub enum ProcessError {
    /// The utility could not be started; the text says why.
    Spawn(String),
    /// The utility ended with a status other than zero; the text is what
    /// it wrote to its error stream.
    Failed(String),
}

/// What a call of the control utility left behind.
#[derive(Debug)]
pub struct ProcessOutput {
    /// Whether the exit status was zero.
    pub success: bool,
    pub stdout: String,
    pub stderr: String,
}

impl ProcessError {
    /// The message of the error, as text.
    pub open spec fn message_text(&self) -> Seq<char> {
        match self {
            ProcessError::Spawn(cause) => cause@,
            ProcessError::Failed(stderr) => failure_prefix() + stderr@,
        }
    }

    /// The message of the error.
    pub fn message(&self) -> (m: String)
        ensures
            m@ == self.message_text(),
    {
        match self {
            ProcessError::Spawn(cause) => cause.clone(),
            ProcessError::Failed(stderr) => {
                let mut m = "ddcutil failed: ".to_owned();
                m.append(stderr.as_str());
                m
            },
        }
    }
}

/// The outcome of a call, as plain text: the output, or the message of
/// the error.
pub open spec fn outcome_text(r: Result<String, ProcessError>) -> Result<Seq<char>, Seq<char>> {
    match r {
        Ok(out) => Ok(out@),
        Err(e) => Err(e.message_text()),
    }
}

/// What a call of the control utility means: its output if it was started
/// and ended with status zero, and an error in every other case.
pub fn process_result(spawned: Result<ProcessOutput, String>) -> (r: Result<String, ProcessError>)
    ensures
        r == match spawned {
            Ok(out) => if out.success {
                Ok::<String, ProcessError>(out.stdout)
            } else {
                Err(ProcessError::Failed(out.stderr))
            },
            Err(cause) => Err(ProcessError::Spawn(cause)),
        },
{
    match spawned {
        Ok(out) => if out.success {
            Ok(out.stdout)
        } else {
            Err(ProcessError::Failed(out.stderr))
        },
        Err(cause) => Err(ProcessError::Spawn(cause)),
    }
}

/// The name under which the control utility is called.
pub fn program() -> (name: String)
    ensures
        name@ == "ddcutil"@,
{
    "ddcutil".to_owned()
}

/// The arguments that ask for the listing of the displays.
pub fn detect_command() -> (args: Vec<String>)
    ensures
        texts(args@) == detect_args(),
{
    let mut args: Vec<String> = Vec::new();
    args.push("detect".to_owned());
    assert(texts(args@) =~= detect_args());
    args
}

/// The arguments that ask for the capabilities of the display `key`.
pub fn capabilities_command(key: &str) -> (args: Vec<String>)
    ensures
        texts(args@) == capabilities_args(key@),
{
    let mut args: Vec<String> = Vec::new();
    args.push("capabilities".to_owned());
    args.push("--display".to_owned());
    args.push(key.to_owned());
    assert(texts(args@) =~= capabilities_args(key@));
    args
}

/// The arguments that ask for the value of the setting `code` of the
/// display `key`.
pub fn getvcp_command(code: u8, key: &str) -> (args: Vec<String>)
    ensures
        texts(args@) == getvcp_args(code, key@),
{
    let mut args: Vec<String> = Vec::new();
    args.push("getvcp".to_owned());
    args.push(format_code(code));
    args.push("--display".to_owned());
    args.push(key.to_owned());
    assert(texts(args@) =~= getvcp_args(code, key@));
    args
}

/// The arguments that set the setting `code` of the display `key` to `value`.
pub fn setvcp_command(code: &str, value: u32, key: &str) -> (args: Vec<String>)
    ensures
        texts(args@) == setvcp_args(code@, value, key@),
{
    let mut args: Vec<String> = Vec::new();
    args.push("setvcp".to_owned());
    args.push(code.to_owned());
    args.push(format_value(value));
    args.push("--display".to_owned());
    args.push(key.to_owned());
    assert(texts(args@) =~= setvcp_args(code@, value, key@));
    args
}

/// The arguments that ask for the help text.
pub fn help_command() -> (args: Vec<String>)
    ensures
        texts(args@) == help_args(),
{
    let mut args: Vec<String> = Vec::new();
    args.push("--help".to_owned());
    assert(texts(args@) =~= help_args());
    args
}

} // verus!
