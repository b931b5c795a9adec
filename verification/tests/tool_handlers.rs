use nidex::code_nav::{Lang, QueryMatch, Symbol, SymbolKind};
use nidex::tool_handlers::{
    argument_error, CodeNavInitHandler, CodeQueryHandler, CodeSymbolsHandler, FunctionCallError, InitStep,
    StepFailure, SymbolsStep, ToolKind, ToolOutput, ToolPayload,
};

fn message(e: FunctionCallError) -> String {
    match e {
        FunctionCallError::RespondToModel(m) => m,
    }
}

fn payload(args: &str) -> ToolPayload {
    ToolPayload::Function { arguments: args.to_string() }
}

#[test]
fn handlers_take_function_calls_only() {
    assert_eq!(CodeSymbolsHandler.kind(), ToolKind::Function);
    assert_eq!(CodeSymbolsHandler.arguments(payload("{}")), Ok("{}".to_string()));
    assert_eq!(
        message(CodeSymbolsHandler.arguments(ToolPayload::Other).unwrap_err()),
        "code_symbols handler received unsupported payload"
    );
    assert_eq!(
        message(CodeQueryHandler.arguments(ToolPayload::Other).unwrap_err()),
        "code_query handler received unsupported payload"
    );
    assert_eq!(
        message(CodeNavInitHandler.arguments(ToolPayload::Other).unwrap_err()),
        "code_nav_init handler received unsupported payload"
    );
    assert_eq!(CodeNavInitHandler.arguments(payload("{\"reset\":true}")), Ok("{\"reset\":true}".to_string()));
}

#[test]
fn argument_errors_explain_the_problem() {
    assert_eq!(message(argument_error("missing field `query`")), "failed to parse function arguments: missing field `query`");
}

#[test]
fn symbol_listing_filters_by_language_name() {
    assert_eq!(CodeSymbolsHandler.lang_filter(Some("Rust".to_string())), Some(Lang::Rust));
    assert_eq!(CodeSymbolsHandler.lang_filter(Some("klingon".to_string())), None);
    assert_eq!(CodeSymbolsHandler.lang_filter(None), None);
}

#[test]
fn symbol_listing_failures_name_their_step() {
    let f = |s, d: &str| message(CodeSymbolsHandler.failure(s, StepFailure::Failed(d.to_string())));
    assert_eq!(f(SymbolsStep::OpenIndex, "locked"), "failed to open code-nav index: locked");
    assert_eq!(f(SymbolsStep::ReadMtimes, "x"), "failed to read index mtimes: x");
    assert_eq!(f(SymbolsStep::Scan, "io"), "code_symbols scan failed: io");
    assert_eq!(f(SymbolsStep::UpdateIndex, "y"), "index update failed: y");
    assert_eq!(f(SymbolsStep::Prune, "z"), "index prune failed: z");
    assert_eq!(f(SymbolsStep::Query, "q"), "failed to query index: q");
    assert_eq!(
        message(CodeSymbolsHandler.failure(SymbolsStep::Scan, StepFailure::Panicked("join".to_string()))),
        "code_symbols task panicked: join"
    );
}

#[test]
fn symbol_listing_answers() {
    let none: Vec<Symbol> = vec![];
    assert_eq!(
        CodeSymbolsHandler.answer(&none, Ok("[]".to_string())),
        Ok(ToolOutput::Function { content: "No symbols found.".to_string(), success: Some(false) })
    );
    let some = vec![Symbol { name: "Foo".to_string(), kind: SymbolKind::Struct, file: "a.rs".to_string(), line: 1 }];
    assert_eq!(
        CodeSymbolsHandler.answer(&some, Ok("[{\"name\":\"Foo\"}]".to_string())),
        Ok(ToolOutput::Function { content: "[{\"name\":\"Foo\"}]".to_string(), success: Some(true) })
    );
    assert_eq!(
        message(CodeSymbolsHandler.answer(&some, Err("bad".to_string())).unwrap_err()),
        "failed to serialize symbols: bad"
    );
}

#[test]
fn queries_need_a_known_language() {
    assert_eq!(CodeQueryHandler.language("TypeScript"), Ok(Lang::TypeScript));
    assert_eq!(
        message(CodeQueryHandler.language("cobol").unwrap_err()),
        "unknown language \"cobol\"; supported: bash, c, cpp, go, javascript, python, rust, typescript"
    );
    assert_eq!(
        message(CodeQueryHandler.language("a\"b").unwrap_err()),
        "unknown language \"a\\\"b\"; supported: bash, c, cpp, go, javascript, python, rust, typescript"
    );
}

#[test]
fn query_failures_and_answers() {
    assert_eq!(message(CodeQueryHandler.failure(StepFailure::Failed("syntax".to_string()))), "code_query failed: syntax");
    assert_eq!(
        message(CodeQueryHandler.failure(StepFailure::Panicked("p".to_string()))),
        "code_query task panicked: p"
    );
    let none: Vec<QueryMatch> = vec![];
    assert_eq!(
        CodeQueryHandler.answer(&none, Ok("[]".to_string())),
        Ok(ToolOutput::Function { content: "No matches found.".to_string(), success: Some(false) })
    );
    let one = vec![QueryMatch {
        capture: "@f".to_string(),
        text: "main".to_string(),
        file: "m.go".to_string(),
        start_line: 1,
        end_line: 2,
    }];
    assert_eq!(
        message(CodeQueryHandler.answer(&one, Err("e".to_string())).unwrap_err()),
        "failed to serialize matches: e"
    );
    assert_eq!(
        CodeQueryHandler.answer(&one, Ok("[1]".to_string())),
        Ok(ToolOutput::Function { content: "[1]".to_string(), success: Some(true) })
    );
}

#[test]
fn index_initialisation() {
    assert_eq!(CodeNavInitHandler.steps(true), vec![InitStep::Reset, InitStep::Warm]);
    assert_eq!(CodeNavInitHandler.steps(false), vec![InitStep::Warm]);
    assert_eq!(message(CodeNavInitHandler.failure(InitStep::Reset, "busy")), "code_nav_init reset failed: busy");
    assert_eq!(message(CodeNavInitHandler.failure(InitStep::Warm, "io")), "code_nav_init warm failed: io");
    assert_eq!(
        CodeNavInitHandler.answer(true),
        ToolOutput::Function { content: "Index reset and rebuilt successfully.".to_string(), success: Some(true) }
    );
    assert_eq!(
        CodeNavInitHandler.answer(false),
        ToolOutput::Function { content: "Index is up to date.".to_string(), success: Some(true) }
    );
}
