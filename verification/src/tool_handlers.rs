//! What the code-navigation tools decide: which payloads they accept, what a
//! failed step tells the model, and what they answer.
//!
//! Parsing arguments, touching the index and the file system, and rendering
//! results as JSON are the caller's work; these functions take their outcomes.
use vstd::prelude::*;
use crate::code_nav::{Lang, lang_of_name, QueryMatch, Symbol};
use crate::text::{lowercase, push_str};

verus! {

/// How a tool is invoked.
#[derive(Debug, Clone, Copy, PartialEq, Eq)]
pub enum ToolKind {
    Function,
}

/// What a tool call carries: function-call arguments as JSON text, or any
/// other kind of payload.
#[derive(Debug, Clone, PartialEq, Eq)]
pub enum ToolPayload {
    Function { arguments: String },
    Other,
}

/// An error reported back to the model as the tool's answer.
#[derive(Debug, Clone, PartialEq, Eq)]
pub enum FunctionCallError {
    RespondToModel(String),
}

/// A tool's answer: text for the model and whether the call succeeded.
#[derive(Debug, Clone, PartialEq, Eq)]
pub enum ToolOutput {
    Function { content: String, success: Option<bool> },
}

/// The text an error tells the model.
pub open spec fn error_text(e: FunctionCallError) -> Seq<char> {
    match e {
        FunctionCallError::RespondToModel(m) => m@,
    }
}

/// An answer's text and success flag.
pub open spec fn output_view(o: ToolOutput) -> (Seq<char>, Option<bool>) {
    match o {
        ToolOutput::Function { content, success } => (content@, success),
    }
}

/// `<prefix>: <detail>`.
pub open spec fn prefixed(prefix: Seq<char>, detail: Seq<char>) -> Seq<char> {
    prefix + ": "@ + detail
}

/// The error for a failure, `<prefix>: <detail>`.
fn respond(prefix: &str, detail: &str) -> (r: FunctionCallError)
    ensures
        error_text(r) == prefixed(prefix@, detail@),
{
    let mut m = String::new();
    push_str(&mut m, prefix);
    push_str(&mut m, ": ");
    push_str(&mut m, detail);
    proof {
        reveal_strlit(": ");
        assert(m@ =~= prefixed(prefix@, detail@));
    }
    FunctionCallError::RespondToModel(m)
}

/// The payload check every tool makes.
pub open spec fn payload_arguments(tool: Seq<char>, payload: ToolPayload) -> Result<Seq<char>, Seq<char>> {
    match payload {
        ToolPayload::Function { arguments } => Ok(arguments@),
        ToolPayload::Other => Err(tool + " handler received unsupported payload"@),
    }
}

/// The view of an arguments-or-error result.
pub open spec fn arguments_view(r: Result<String, FunctionCallError>) -> Result<Seq<char>, Seq<char>> {
    match r {
        Ok(a) => Ok(a@),
        Err(e) => Err(error_text(e)),
    }
}

fn function_arguments(tool: &str, payload: ToolPayload) -> (r: Result<String, FunctionCallError>)
    ensures
        arguments_view(r) == payload_arguments(tool@, payload),
{
    match payload {
        ToolPayload::Function { arguments } => Ok(arguments),
        ToolPayload::Other => {
            let mut m = String::new();
            push_str(&mut m, tool);
            push_str(&mut m, " handler received unsupported payload");
            Err(FunctionCallError::RespondToModel(m))
        },
    }
}

/// The error for arguments that do not parse, given the parser's account
/// of the problem.
pub fn argument_error(detail: &str) -> (r: FunctionCallError)
    ensures
        error_text(r) == prefixed("failed to parse function arguments"@, detail@),
{
    respond("failed to parse function arguments", detail)
}

/// What a listing tool answers: a fixed text and failure when nothing was
/// found, else the rendered listing, or an error when rendering failed.
pub open spec fn listing_answer(
    found: bool,
    rendered: Result<Seq<char>, Seq<char>>,
    empty_text: Seq<char>,
    what: Seq<char>,
) -> Result<(Seq<char>, Option<bool>), Seq<char>> {
    if !found {
        Ok((empty_text, Some(false)))
    } else {
        match rendered {
            Ok(text) => Ok((text, Some(true))),
            Err(e) => Err(prefixed("failed to serialize "@ + what, e)),
        }
    }
}

/// The view of a tool's result.
pub open spec fn result_view(r: Result<ToolOutput, FunctionCallError>) -> Result<(Seq<char>, Option<bool>), Seq<char>> {
    match r {
        Ok(o) => Ok(output_view(o)),
        Err(e) => Err(error_text(e)),
    }
}

pub open spec fn rendered_view(r: Result<String, String>) -> Result<Seq<char>, Seq<char>> {
    match r {
        Ok(t) => Ok(t@),
        Err(e) => Err(e@),
    }
}

fn listing(found: bool, rendered: Result<String, String>, empty_text: &str, what: &str) -> (r: Result<ToolOutput, FunctionCallError>)
    ensures
        result_view(r) == listing_answer(found, rendered_view(rendered), empty_text@, what@),
{
    if !found {
        Ok(ToolOutput::Function { content: empty_text.to_string(), success: Some(false) })
    } else {
        match rendered {
            Ok(text) => Ok(ToolOutput::Function { content: text, success: Some(true) }),
            Err(e) => {
                let mut p = String::new();
                push_str(&mut p, "failed to serialize ");
                push_str(&mut p, what);
                let r = respond(p.as_str(), e.as_str());
                proof {
                    reveal_strlit("failed to serialize ");
                }
                Err(r)
            },
        }
    }
}

/// How a step of a tool can fail: with an error, or because the task that
/// ran it panicked.
#[derive(Debug, Clone, PartialEq, Eq)]
pub enum StepFailure {
    Failed(String),
    Panicked(String),
}

/// The steps of the symbol listing, in the order they run.
#[derive(Debug, Clone, Copy, PartialEq, Eq)]
pub enum SymbolsStep {
    OpenIndex,
    ReadMtimes,
    Scan,
    UpdateIndex,
    Prune,
    Query,
}

/// What the model is told when a step of the symbol listing fails.
pub open spec fn symbols_failure_text(step: SymbolsStep, failure: StepFailure) -> Seq<char> {
    match failure {
        StepFailure::Panicked(d) => prefixed("code_symbols task panicked"@, d@),
        StepFailure::Failed(d) => prefixed(
            match step {
                SymbolsStep::OpenIndex => "failed to open code-nav index"@,
                SymbolsStep::ReadMtimes => "failed to read index mtimes"@,
                SymbolsStep::Scan => "code_symbols scan failed"@,
                SymbolsStep::UpdateIndex => "index update failed"@,
                SymbolsStep::Prune => "index prune failed"@,
                SymbolsStep::Query => "failed to query index"@,
            },
            d@,
        ),
    }
}

/// Lists the symbols of a project, refreshed for the files that changed.
pub struct CodeSymbolsHandler;

impl CodeSymbolsHandler {
    pub fn kind(&self) -> (r: ToolKind)
        ensures
            r == ToolKind::Function,
    {
        ToolKind::Function
    }

    /// The call's arguments; only function calls are accepted.
    pub fn arguments(&self, payload: ToolPayload) -> (r: Result<String, FunctionCallError>)
        ensures
            arguments_view(r) == payload_arguments("code_symbols"@, payload),
    {
        function_arguments("code_symbols", payload)
    }

    /// The language the listing is limited to: the one named, in any case,
    /// or none when no name, or an unknown one, is given.
    pub fn lang_filter(&self, lang: Option<String>) -> (r: Option<Lang>)
        ensures
            r == (match lang {
                Some(s) => lang_of_name(lowercase(s@)),
                None => None,
            }),
    {
        match lang {
            Some(s) => Lang::from_str(s.as_str()),
            None => None,
        }
    }

    /// The error a failed step ends the listing with.
    pub fn failure(&self, step: SymbolsStep, failure: StepFailure) -> (r: FunctionCallError)
        ensures
            error_text(r) == symbols_failure_text(step, failure),
    {
        match failure {
            StepFailure::Panicked(d) => respond("code_symbols task panicked", d.as_str()),
            StepFailure::Failed(d) => {
                let prefix = match step {
                    SymbolsStep::OpenIndex => "failed to open code-nav index",
                    SymbolsStep::ReadMtimes => "failed to read index mtimes",
                    SymbolsStep::Scan => "code_symbols scan failed",
                    SymbolsStep::UpdateIndex => "index update failed",
                    SymbolsStep::Prune => "index prune failed",
                    SymbolsStep::Query => "failed to query index",
                };
                respond(prefix, d.as_str())
            },
        }
    }

    /// The answer for the symbols found under the search path, given their
    /// rendering as JSON.
    pub fn answer(&self, symbols: &Vec<Symbol>, rendered: Result<String, String>) -> (r: Result<ToolOutput, FunctionCallError>)
        ensures
            result_view(r) == listing_answer(
                symbols.len() > 0,
                rendered_view(rendered),
                "No symbols found."@,
                "symbols"@,
            ),
    {
        listing(symbols.len() > 0, rendered, "No symbols found.", "symbols")
    }
}

/// What the model is told when running a structural query fails.
pub open spec fn query_failure_text(failure: StepFailure) -> Seq<char> {
    match failure {
        StepFailure::Panicked(d) => prefixed("code_query task panicked"@, d@),
        StepFailure::Failed(d) => prefixed("code_query failed"@, d@),
    }
}

/// The error for a language name that names no language.
pub open spec fn unknown_language_text(name: Seq<char>) -> Seq<char> {
    "unknown language "@ + debug_text(name) + "; supported: bash, c, cpp, go, javascript, python, rust, typescript"@
}

/// The quoted, escaped form in which `Debug` shows a string.
pub uninterp spec fn debug_text(s: Seq<char>) -> Seq<char>;

/// Shows a string as `Debug` does (`<str as Debug>::fmt`): quoted, with
/// quotes, backslashes and control characters escaped.
#[verifier::external_body]
fn debug_str(s: &str) -> (r: String)
    ensures
        r@ == debug_text(s@),
{
    format!("{:?}", s)
}

/// Runs a tree-sitter query over the files of one language.
pub struct CodeQueryHandler;

impl CodeQueryHandler {
    pub fn kind(&self) -> (r: ToolKind)
        ensures
            r == ToolKind::Function,
    {
        ToolKind::Function
    }

    /// The call's arguments; only function calls are accepted.
    pub fn arguments(&self, payload: ToolPayload) -> (r: Result<String, FunctionCallError>)
        ensures
            arguments_view(r) == payload_arguments("code_query"@, payload),
    {
        function_arguments("code_query", payload)
    }

    /// The language the query is for, by name in any case; an unknown name
    /// is an error that lists the supported ones.
    pub fn language(&self, lang: &str) -> (r: Result<Lang, FunctionCallError>)
        ensures
            lang_of_name(lowercase(lang@)) matches Some(l) ==> r == Ok::<Lang, FunctionCallError>(l),
            lang_of_name(lowercase(lang@)) is None ==> (r matches Err(e) && error_text(e) == unknown_language_text(lang@)),
    {
        match Lang::from_str(lang) {
            Some(l) => Ok(l),
            None => {
                let mut m = String::new();
                push_str(&mut m, "unknown language ");
                let q = debug_str(lang);
                push_str(&mut m, q.as_str());
                push_str(&mut m, "; supported: bash, c, cpp, go, javascript, python, rust, typescript");
                proof {
                    reveal_strlit("unknown language ");
                    reveal_strlit("; supported: bash, c, cpp, go, javascript, python, rust, typescript");
                }
                Err(FunctionCallError::RespondToModel(m))
            },
        }
    }

    /// The error a failed query run ends the call with.
    pub fn failure(&self, failure: StepFailure) -> (r: FunctionCallError)
        ensures
            error_text(r) == query_failure_text(failure),
    {
        match failure {
            StepFailure::Panicked(d) => respond("code_query task panicked", d.as_str()),
            StepFailure::Failed(d) => respond("code_query failed", d.as_str()),
        }
    }

    /// The answer for the matches found, given their rendering as JSON.
    pub fn answer(&self, matches: &Vec<QueryMatch>, rendered: Result<String, String>) -> (r: Result<ToolOutput, FunctionCallError>)
        ensures
            result_view(r) == listing_answer(
                matches.len() > 0,
                rendered_view(rendered),
                "No matches found."@,
                "matches"@,
            ),
    {
        listing(matches.len() > 0, rendered, "No matches found.", "matches")
    }
}

/// The steps of (re)building the index.
#[derive(Debug, Clone, Copy, PartialEq, Eq)]
pub enum InitStep {
    Reset,
    Warm,
}

/// The steps an initialisation runs, in order: a reset first when asked
/// for, then warming the index.
pub open spec fn init_steps_spec(reset: bool) -> Seq<InitStep> {
    if reset {
        seq![InitStep::Reset, InitStep::Warm]
    } else {
        seq![InitStep::Warm]
    }
}

/// What the model is told when an initialisation step fails.
pub open spec fn init_failure_text(step: InitStep, detail: Seq<char>) -> Seq<char> {
    match step {
        InitStep::Reset => prefixed("code_nav_init reset failed"@, detail),
        InitStep::Warm => prefixed("code_nav_init warm failed"@, detail),
    }
}

/// The answer once every step succeeded.
pub open spec fn init_done_text(reset: bool) -> Seq<char> {
    if reset {
        "Index reset and rebuilt successfully."@
    } else {
        "Index is up to date."@
    }
}

/// Builds or refreshes the index of the project around the working
/// directory.
pub struct CodeNavInitHandler;

impl CodeNavInitHandler {
    pub fn kind(&self) -> (r: ToolKind)
        ensures
            r == ToolKind::Function,
    {
        ToolKind::Function
    }

    /// The call's arguments; only function calls are accepted.
    pub fn arguments(&self, payload: ToolPayload) -> (r: Result<String, FunctionCallError>)
        ensures
            arguments_view(r) == payload_arguments("code_nav_init"@, payload),
    {
        function_arguments("code_nav_init", payload)
    }

    /// The steps to run for the `reset` argument.
    pub fn steps(&self, reset: bool) -> (r: Vec<InitStep>)
        ensures
            r@ == init_steps_spec(reset),
    {
        let r = if reset {
            vec![InitStep::Reset, InitStep::Warm]
        } else {
            vec![InitStep::Warm]
        };
        assert(r@ =~= init_steps_spec(reset));
        r
    }

    /// The error a failed step ends the call with.
    pub fn failure(&self, step: InitStep, detail: &str) -> (r: FunctionCallError)
        ensures
            error_text(r) == init_failure_text(step, detail@),
    {
        match step {
            InitStep::Reset => respond("code_nav_init reset failed", detail),
            InitStep::Warm => respond("code_nav_init warm failed", detail),
        }
    }

    /// The answer once every step succeeded.
    pub fn answer(&self, reset: bool) -> (r: ToolOutput)
        ensures
            output_view(r) == (init_done_text(reset), Some(true)),
    {
        let text = if reset {
            "Index reset and rebuilt successfully."
        } else {
            "Index is up to date."
        };
        ToolOutput::Function { content: text.to_string(), success: Some(true) }
    }
}

} // verus!
