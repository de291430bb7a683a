//! The configuration tool: how the command line of a lookup is made up, and
//! what is made of the outcome of running it. Running the command is the
//! caller's part.

use vstd::prelude::*;
use vstd::string::*;
use vstd::utf8::{decode_utf8, valid_utf8};
use crate::text::{append_signed_decimal, signed_decimal, trim_end, trimmed_end};

verus! {

/// The text that `String::from_utf8_lossy` makes of `bytes`.
pub uninterp spec fn utf8_lossy(bytes: Seq<u8>) -> Seq<char>;

/// Decodes `bytes` as UTF-8.
///
/// Trusted: calls `String::from_utf8`, which succeeds exactly on valid UTF-8
/// and then gives the text that the bytes encode.
#[verifier::external_body]
fn decode(bytes: &Vec<u8>) -> (text: Option<String>)
    ensures
        text is Some == valid_utf8(bytes@),
        text matches Some(t) ==> t@ == decode_utf8(bytes@),
{
    String::from_utf8(bytes.clone()).ok()
}

/// Decodes `bytes` as UTF-8, with a replacement character for each part
/// that is no valid UTF-8.
///
/// Trusted: calls `String::from_utf8_lossy`. The contract claims that the
/// text depends on the bytes alone, and that valid UTF-8 is decoded as it
/// stands.
#[verifier::external_body]
fn decode_lossy(bytes: &Vec<u8>) -> (text: String)
    ensures
        text@ == utf8_lossy(bytes@),
        valid_utf8(bytes@) ==> text@ == decode_utf8(bytes@),
{
    String::from_utf8_lossy(bytes).into_owned()
}

/// Why a lookup failed.
#[derive(Debug, Clone)]
pub enum ClioError {
    /// The command could not be run; the text is the system's message.
    IoError(String),
    /// The command ended with a status other than success: the exit code,
    /// -1 where there is none, and what it wrote to standard error.
    CommandFailed(i32, String),
    /// The command wrote something other than UTF-8 to standard output.
    InvalidUtf8,
}

/// A failure as the contracts see it.
pub enum ClioFailure {
    IoError(Seq<char>),
    CommandFailed(i32, Seq<char>),
    InvalidUtf8,
}

impl View for ClioError {
    type V = ClioFailure;

    open spec fn view(&self) -> ClioFailure {
        match self {
            ClioError::IoError(text) => ClioFailure::IoError(text@),
            ClioError::CommandFailed(code, text) => ClioFailure::CommandFailed(*code, text@),
            ClioError::InvalidUtf8 => ClioFailure::InvalidUtf8,
        }
    }
}

/// The message of a failure.
pub open spec fn failure_message(failure: ClioFailure) -> Seq<char> {
    match failure {
        ClioFailure::IoError(text) => "Command execution failed: "@ + text,
        ClioFailure::CommandFailed(code, text) => "Non-zero exit status (code="@ + signed_decimal(
            code as int,
        ) + "): "@ + text,
        ClioFailure::InvalidUtf8 => "Invalid UTF-8 output"@,
    }
}

impl ClioError {
    /// The message of the failure.
    pub fn message(&self) -> (text: String)
        ensures
            text@ == failure_message(self@),
    {
        let mut text = String::new();
        match self {
            ClioError::IoError(reason) => {
                text.append("Command execution failed: ");
                text.append(reason.as_str());
                assert(text@ =~= failure_message(self@));
            },
            ClioError::CommandFailed(code, stderr) => {
                text.append("Non-zero exit status (code=");
                append_signed_decimal(&mut text, *code);
                text.append("): ");
                text.append(stderr.as_str());
                assert(text@ =~= failure_message(self@));
            },
            ClioError::InvalidUtf8 => {
                text.append("Invalid UTF-8 output");
                assert(text@ =~= failure_message(self@));
            },
        }
        text
    }
}

/// What a command left behind when it ended.
#[derive(Debug, Clone)]
pub struct CommandOutput {
    /// The exit code; none where a signal ended the command.
    pub code: Option<i32>,
    /// What the command wrote to standard output.
    pub stdout: Vec<u8>,
    /// What the command wrote to standard error.
    pub stderr: Vec<u8>,
}

/// The outcome of an attempt to run a command.
#[derive(Debug, Clone)]
pub enum Ran {
    /// The command ran and ended.
    Ended(CommandOutput),
    /// The command could not be run; the text is the system's message.
    NotRun(String),
}

/// What a lookup gives for an outcome: the standard output as text without
/// the white space at its end where the command ran, ended with exit code 0
/// and wrote UTF-8; else the failure.
pub open spec fn output_of(ran: Ran) -> Result<Seq<char>, ClioFailure> {
    match ran {
        Ran::NotRun(reason) => Err(ClioFailure::IoError(reason@)),
        Ran::Ended(output) => if output.code != Some(0i32) {
            Err(
                ClioFailure::CommandFailed(
                    match output.code {
                        Some(code) => code,
                        None => -1i32,
                    },
                    utf8_lossy(output.stderr@),
                ),
            )
        } else if !valid_utf8(output.stdout@) {
            Err(ClioFailure::InvalidUtf8)
        } else {
            Ok(trimmed_end(decode_utf8(output.stdout@)))
        },
    }
}

/// The outputs of the first `upto` outcomes, or the first failure among
/// them.
pub open spec fn outputs_of(outcomes: Seq<Ran>, upto: int) -> Result<Seq<Seq<char>>, ClioFailure>
    decreases upto,
{
    if upto <= 0 {
        Ok(Seq::<Seq<char>>::empty())
    } else {
        match outputs_of(outcomes, upto - 1) {
            Err(failure) => Err(failure),
            Ok(outputs) => match output_of(outcomes[upto - 1]) {
                Err(failure) => Err(failure),
                Ok(output) => Ok(outputs.push(output)),
            },
        }
    }
}

/// A lookup as the contracts see it.
pub struct ClioToolView {
    /// The name of the lookup, such as `get_conf`.
    pub command: Seq<char>,
    /// The path that is looked up.
    pub path: Seq<char>,
    /// The program to run, where it is not the default.
    pub binary_path: Option<Seq<char>>,
}

/// The program that is run where no other is set.
pub open spec fn default_program() -> Seq<char> {
    "clio-tool"@
}

/// One lookup with the configuration tool.
#[derive(Debug, Clone)]
pub struct ClioTool {
    command: String,
    path: String,
    binary_path: Option<String>,
}

impl View for ClioTool {
    type V = ClioToolView;

    closed spec fn view(&self) -> ClioToolView {
        ClioToolView {
            command: self.command@,
            path: self.path@,
            binary_path: match self.binary_path {
                Some(p) => Some(p@),
                None => None,
            },
        }
    }
}

/// What comes next in a lookup of several paths.
#[derive(Debug)]
pub enum MgetStep {
    /// This lookup is to be run, and its outcome added to the outcomes.
    Run(ClioTool),
    /// All is done: the outputs in the order of the paths, or the first
    /// failure.
    Done(Result<Vec<String>, ClioError>),
}

impl ClioTool {
    /// The lookup called `command` of `path`, run with the default program.
    pub fn new(command: &str, path: &str) -> (tool: Self)
        ensures
            tool@ == (ClioToolView { command: command@, path: path@, binary_path: None }),
    {
        ClioTool { command: command.to_owned(), path: path.to_owned(), binary_path: None }
    }

    /// The same lookup, run with the program at `path`.
    pub fn binary(self, path: &str) -> (tool: Self)
        ensures
            tool@ == (ClioToolView { binary_path: Some(path@), ..self@ }),
    {
        let mut tool = self;
        tool.binary_path = Some(path.to_owned());
        tool
    }

    /// The program to run: the one that was set, else the default.
    pub fn program(&self) -> (program: String)
        ensures
            program@ == (match self@.binary_path {
                Some(p) => p,
                None => default_program(),
            }),
    {
        match &self.binary_path {
            Some(p) => p.clone(),
            None => "clio-tool".to_owned(),
        }
    }

    /// The arguments to run the program with: the name of the lookup, then
    /// the path.
    pub fn arguments(&self) -> (arguments: Vec<String>)
        ensures
            arguments.deep_view() == seq![self@.command, self@.path],
    {
        let mut arguments: Vec<String> = Vec::new();
        arguments.push(self.command.clone());
        arguments.push(self.path.clone());
        assert(arguments.deep_view() =~= seq![self@.command, self@.path]);
        arguments
    }

    /// The failure of a command that ended with a status other than
    /// success; none where the exit code is 0.
    pub fn failure_of(output: &CommandOutput) -> (failure: Option<ClioError>)
        ensures
            output.code == Some(0i32) ==> failure is None,
            output.code != Some(0i32) ==> (failure matches Some(e) && e@
                == ClioFailure::CommandFailed(
                match output.code {
                    Some(code) => code,
                    None => -1i32,
                },
                utf8_lossy(output.stderr@),
            )),
    {
        match output.code {
            Some(0) => None,
            Some(code) => Some(ClioError::CommandFailed(code, decode_lossy(&output.stderr))),
            None => Some(ClioError::CommandFailed(-1, decode_lossy(&output.stderr))),
        }
    }

    /// Checks the outcome of running the lookup: the output where the
    /// command ran and ended with exit code 0, else the failure.
    pub fn execute(&self, ran: Ran) -> (checked: Result<CommandOutput, ClioError>)
        ensures
            match ran {
                Ran::NotRun(reason) => checked matches Err(e) && e@ == ClioFailure::IoError(
                    reason@,
                ),
                Ran::Ended(output) => if output.code == Some(0i32) {
                    checked == Ok::<CommandOutput, ClioError>(output)
                } else {
                    checked matches Err(e) && output_of(ran) == Err::<Seq<char>, ClioFailure>(e@)
                },
            },
    {
        match ran {
            Ran::NotRun(reason) => Err(ClioError::IoError(reason)),
            Ran::Ended(output) => match Self::failure_of(&output) {
                Some(e) => Err(e),
                None => Ok(output),
            },
        }
    }

    /// What the lookup gives for the outcome of running it: the standard
    /// output as text, without the white space at its end, or the failure.
    pub fn get_output(&self, ran: &Ran) -> (output: Result<String, ClioError>)
        ensures
            match output_of(*ran) {
                Ok(text) => output matches Ok(t) && t@ == text,
                Err(failure) => output matches Err(e) && e@ == failure,
            },
    {
        match ran {
            Ran::NotRun(reason) => Err(ClioError::IoError(reason.clone())),
            Ran::Ended(ended) => match Self::failure_of(ended) {
                Some(e) => Err(e),
                None => match decode(&ended.stdout) {
                    None => Err(ClioError::InvalidUtf8),
                    Some(text) => Ok(trim_end(text.as_str())),
                },
            },
        }
    }

    /// The lookup of the configuration value at `path`.
    pub fn get_conf(path: &str) -> (tool: Self)
        ensures
            tool@ == (ClioToolView { command: "get_conf"@, path: path@, binary_path: None }),
    {
        Self::new("get_conf", path)
    }

    /// The lookup of one host of the service at `path`.
    pub fn get_host(path: &str) -> (tool: Self)
        ensures
            tool@ == (ClioToolView { command: "get_host"@, path: path@, binary_path: None }),
    {
        Self::new("get_host", path)
    }

    /// The lookup of all hosts of the service at `path`.
    pub fn get_allhost(path: &str) -> (tool: Self)
        ensures
            tool@ == (ClioToolView { command: "get_allhost"@, path: path@, binary_path: None }),
    {
        Self::new("get_allhost", path)
    }

    /// The lookup of the keys below `path`.
    pub fn get_batch_keys(path: &str) -> (tool: Self)
        ensures
            tool@ == (ClioToolView { command: "get_batch_keys"@, path: path@, binary_path: None }),
    {
        Self::new("get_batch_keys", path)
    }

    /// One step of looking up the configuration values at `paths`, given
    /// the outcomes of the lookups run so far, in the order of the paths.
    /// The first failure ends the lookup; so do the outputs of all paths.
    /// Else the lookup of the next path is to be run.
    pub fn mget_conf(paths: &Vec<String>, outcomes: &Vec<Ran>) -> (step: MgetStep)
        ensures
            match outputs_of(outcomes@, vstd::math::min(paths.len() as int, outcomes.len() as int)) {
                Err(failure) => step matches MgetStep::Done(Err(e)) && e@ == failure,
                Ok(outputs) => if outcomes.len() >= paths.len() {
                    step matches MgetStep::Done(Ok(values)) && values.deep_view() == outputs
                } else {
                    step matches MgetStep::Run(tool) && tool@ == (ClioToolView {
                        command: "get_conf"@,
                        path: paths@[outcomes.len() as int]@,
                        binary_path: None,
                    })
                },
            },
    {
        let mut values: Vec<String> = Vec::new();
        let mut i: usize = 0;
        assert(values.deep_view() =~= Seq::<Seq<char>>::empty());
        while i < paths.len() && i < outcomes.len()
            invariant
                i <= paths.len(),
                i <= outcomes.len(),
                outputs_of(outcomes@, i as int) == Ok::<Seq<Seq<char>>, ClioFailure>(
                    values.deep_view(),
                ),
            decreases paths.len() - i,
        {
            let tool = Self::get_conf(paths[i].as_str());
            let ghost before = values.deep_view();
            match tool.get_output(&outcomes[i]) {
                Ok(value) => {
                    values.push(value);
                    assert(values.deep_view() =~= before.push(value@));
                },
                Err(e) => {
                    proof {
                        lemma_failure_stays(
                            outcomes@,
                            i + 1,
                            vstd::math::min(paths.len() as int, outcomes.len() as int),
                        );
                    }
                    return MgetStep::Done(Err(e));
                },
            }
            i = i + 1;
        }
        if outcomes.len() >= paths.len() {
            MgetStep::Done(Ok(values))
        } else {
            MgetStep::Run(Self::get_conf(paths[outcomes.len()].as_str()))
        }
    }
}

proof fn lemma_failure_stays(outcomes: Seq<Ran>, from: int, upto: int)
    requires
        from <= upto,
        outputs_of(outcomes, from) is Err,
    ensures
        outputs_of(outcomes, upto) == outputs_of(outcomes, from),
    decreases upto - from,
{
    if from < upto {
        lemma_failure_stays(outcomes, from, upto - 1);
    }
}

} // verus!
