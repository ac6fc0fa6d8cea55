//! The invocation of the platform's probe utility.

use crate::text::{chars_of, decimal, decimal_string};
use crate::unicode::{char_is_alphanumeric, is_alphanumeric};
use vstd::prelude::*;

verus! {

/// The family of system that the probe utility runs on.
#[derive(Clone, Copy, PartialEq, Eq, Debug, Structural)]
pub enum Platform {
    Windows,
    Other,
}

/// Why a probe could not be started.
#[derive(Clone, Copy, PartialEq, Eq, Debug, Structural)]
pub enum ProbeError {
    /// The address holds a character outside the permitted set.
    InvalidAddress,
    /// The probe utility could not be launched.
    SpawnFailure,
    /// The launched probe offers no output to read.
    StreamUnavailable,
}

/// How the start of a probe went wrong.
#[derive(Clone, Copy, PartialEq, Eq, Debug, Structural)]
pub enum SpawnFault {
    /// The probe utility could not be launched.
    NotLaunched,
    /// The probe was launched, but offers no output to read.
    NoOutput,
}

impl SpawnFault {
    /// The error that reports this fault.
    pub open spec fn error(self) -> ProbeError {
        match self {
            SpawnFault::NotLaunched => ProbeError::SpawnFailure,
            SpawnFault::NoOutput => ProbeError::StreamUnavailable,
        }
    }
}

impl ProbeError {
    /// The message that goes with this error.
    pub fn message(&self) -> (r: &'static str)
        ensures
            r@ == match *self {
                ProbeError::InvalidAddress => "Invalid address format"@,
                ProbeError::SpawnFailure => "Failed to spawn ping"@,
                ProbeError::StreamUnavailable => "Failed to get stdout"@,
            },
    {
        match self {
            ProbeError::InvalidAddress => "Invalid address format",
            ProbeError::SpawnFailure => "Failed to spawn ping",
            ProbeError::StreamUnavailable => "Failed to get stdout",
        }
    }
}

/// `c` may stand in an address: a letter, a number, `.`, `-` or `:`.
pub open spec fn permitted(c: char) -> bool {
    is_alphanumeric(c) || c == '.' || c == '-' || c == ':'
}

/// Every character of `address` may stand in an address.
pub open spec fn valid_address(address: Seq<char>) -> bool {
    forall|i: int| 0 <= i < address.len() ==> permitted(#[trigger] address[i])
}

/// Whether `c` may stand in an address.
pub fn is_permitted(c: char) -> (r: bool)
    ensures
        r == permitted(c),
{
    char_is_alphanumeric(c) || c == '.' || c == '-' || c == ':'
}

/// Whether every character of `address` may stand in an address.
pub fn is_valid_address(address: &str) -> (r: bool)
    ensures
        r == valid_address(address@),
{
    let chars = chars_of(address);
    let mut i: usize = 0;
    while i < chars.len()
        invariant
            i <= chars.len(),
            chars@ == address@,
            forall|j: int| 0 <= j < i ==> permitted(#[trigger] address@[j]),
        decreases chars.len() - i,
    {
        if !is_permitted(chars[i]) {
            return false;
        }
        i += 1;
    }
    true
}

/// The program, its arguments and how it is to be run.
#[derive(Debug, PartialEq, Eq)]
pub struct ProbeCommand {
    /// The probe utility, by name.
    pub program: String,
    /// The count flag, the number of cycles and the address.
    pub args: Vec<String>,
    /// The probe's output is handed to the caller through a pipe.
    pub capture_output: bool,
    /// The probe is run without a window of its own.
    pub hide_window: bool,
}

/// A `ProbeCommand` with its texts as sequences of characters.
pub ghost struct CommandText {
    pub program: Seq<char>,
    pub args: Seq<Seq<char>>,
    pub capture_output: bool,
    pub hide_window: bool,
}

impl View for ProbeCommand {
    type V = CommandText;

    open spec fn view(&self) -> CommandText {
        CommandText {
            program: self.program@,
            args: self.args.deep_view(),
            capture_output: self.capture_output,
            hide_window: self.hide_window,
        }
    }
}

/// The flag by which the probe utility of `platform` takes its cycle count.
pub open spec fn count_flag(platform: Platform) -> Seq<char> {
    match platform {
        Platform::Windows => "-n"@,
        Platform::Other => "-c"@,
    }
}

/// The invocation that probes `address` for `count` cycles on `platform`:
/// `ping`, the count flag, the count in decimal and the address, with the
/// output captured and, on Windows, no window.
pub open spec fn command_for(address: Seq<char>, count: u32, platform: Platform) -> CommandText {
    CommandText {
        program: "ping"@,
        args: seq![count_flag(platform), decimal(count as nat), address],
        capture_output: true,
        hide_window: platform == Platform::Windows,
    }
}

/// Builds the invocation that probes `address` for `count` cycles, or
/// refuses an address that holds a character outside the permitted set.
pub fn build_command(address: &str, count: u32, platform: Platform) -> (r: Result<
    ProbeCommand,
    ProbeError,
>)
    ensures
        valid_address(address@) ==> r is Ok && r.unwrap()@ == command_for(
            address@,
            count,
            platform,
        ),
        !valid_address(address@) ==> r == Err::<ProbeCommand, ProbeError>(
            ProbeError::InvalidAddress,
        ),
{
    if !is_valid_address(address) {
        return Err(ProbeError::InvalidAddress);
    }
    let flag = match platform {
        Platform::Windows => "-n",
        Platform::Other => "-c",
    };
    let mut args: Vec<String> = Vec::new();
    args.push(String::from_str(flag));
    args.push(decimal_string(count));
    args.push(String::from_str(address));
    let command = ProbeCommand {
        program: String::from_str("ping"),
        args,
        capture_output: true,
        hide_window: platform == Platform::Windows,
    };
    proof {
        assert(command@.args =~= command_for(address@, count, platform).args);
    }
    Ok(command)
}

} // verus!
