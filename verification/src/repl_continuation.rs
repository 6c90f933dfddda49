//! Whether the input of an interactive session is complete.

use crate::text::{same_text, starts_with};
use ruff_python_ast::token::TokenKind;
use ruff_python_parser::{InterpolatedStringErrorType, LexicalErrorType, ParseErrorType};
use vstd::prelude::*;
use vstd::slice::slice_subrange;
use vstd::utf8::{encode_utf8, is_char_boundary};

verus! {

/// What to do with the input that was collected.
#[derive(Clone, Copy, Debug, PartialEq, Eq, Structural)]
pub enum ReplContinuationMode {
    /// It can run now.
    Complete,
    /// It needs more lines.
    IncompleteImplicit,
    /// It opened a block, which a blank line ends.
    IncompleteBlock,
}

/// What a parser found wrong with source.
#[derive(Debug)]
pub enum SourceErrorKind {
    /// An error with a message.
    Message(String),
    /// Another token was expected where the source ends.
    EndOfFile,
    /// The source ends inside a bracket or behind a backslash.
    LexicalEnd,
    /// A string is not closed.
    UnclosedString,
    /// A format string with triple quotes is not closed, found by the lexer.
    LexicalFormatString,
    /// A template string with triple quotes is not closed, found by the lexer.
    LexicalTemplateString,
    /// A format string with triple quotes is not closed.
    FormatString,
    /// A template string with triple quotes is not closed.
    TemplateString,
    /// Anything else.
    Unnamed,
}

/// The first error of source, and the bytes that it is about.
#[derive(Debug)]
pub struct SourceError {
    pub start: usize,
    pub end: usize,
    pub kind: SourceErrorKind,
}

/// What a parser found wrong with source, as a mathematical value.
#[verifier::ext_equal]
pub enum SourceKindModel {
    Message(Seq<char>),
    EndOfFile,
    LexicalEnd,
    UnclosedString,
    LexicalFormatString,
    LexicalTemplateString,
    FormatString,
    TemplateString,
    Unnamed,
}

/// The first error of source as a mathematical value.
#[verifier::ext_equal]
pub struct SourceErrorModel {
    pub start: usize,
    pub end: usize,
    pub kind: SourceKindModel,
}

impl View for SourceErrorKind {
    type V = SourceKindModel;

    open spec fn view(&self) -> SourceKindModel {
        match *self {
            SourceErrorKind::Message(text) => SourceKindModel::Message(text@),
            SourceErrorKind::EndOfFile => SourceKindModel::EndOfFile,
            SourceErrorKind::LexicalEnd => SourceKindModel::LexicalEnd,
            SourceErrorKind::UnclosedString => SourceKindModel::UnclosedString,
            SourceErrorKind::LexicalFormatString => SourceKindModel::LexicalFormatString,
            SourceErrorKind::LexicalTemplateString => SourceKindModel::LexicalTemplateString,
            SourceErrorKind::FormatString => SourceKindModel::FormatString,
            SourceErrorKind::TemplateString => SourceKindModel::TemplateString,
            SourceErrorKind::Unnamed => SourceKindModel::Unnamed,
        }
    }
}

impl View for SourceError {
    type V = SourceErrorModel;

    open spec fn view(&self) -> SourceErrorModel {
        SourceErrorModel { start: self.start, end: self.end, kind: self.kind@ }
    }
}

/// An error that may be missing, as a mathematical value.
pub open spec fn error_model(error: Option<SourceError>) -> Option<SourceErrorModel> {
    match error {
        Some(error) => Some(error@),
        None => None,
    }
}

/// The first error that the module parser reports for source, or nothing for a
/// module.
pub uninterp spec fn module_error(source: Seq<char>) -> Option<SourceErrorModel>;

/// `ruff_python_parser::parse_module`: the first error that it reports, with
/// the range of bytes that it gives and the errors that an unfinished input
/// can have told apart. Which sources are modules, and where an error is
/// reported, is left to the parser; it depends on the source alone. The parser
/// takes no source of four gigabytes or more.
#[verifier::external_body]
fn parse_error(source: &str) -> (error: Option<SourceError>)
    requires
        encode_utf8(source@).len() <= u32::MAX,
    ensures
        error_model(error) == module_error(source@),
{
    let Err(error) = ruff_python_parser::parse_module(source) else { return None };
    let kind = match error.error {
        ParseErrorType::OtherError(text) => SourceErrorKind::Message(text),
        ParseErrorType::ExpectedToken { found: TokenKind::EndOfFile, .. } => SourceErrorKind::EndOfFile,
        ParseErrorType::Lexical(LexicalErrorType::Eof) => SourceErrorKind::LexicalEnd,
        ParseErrorType::Lexical(LexicalErrorType::UnclosedStringError) => SourceErrorKind::UnclosedString,
        ParseErrorType::Lexical(LexicalErrorType::FStringError(InterpolatedStringErrorType::UnterminatedTripleQuotedString)) => SourceErrorKind::LexicalFormatString,
        ParseErrorType::Lexical(LexicalErrorType::TStringError(InterpolatedStringErrorType::UnterminatedTripleQuotedString)) => SourceErrorKind::LexicalTemplateString,
        ParseErrorType::FStringError(InterpolatedStringErrorType::UnterminatedTripleQuotedString) => SourceErrorKind::FormatString,
        ParseErrorType::TStringError(InterpolatedStringErrorType::UnterminatedTripleQuotedString) => SourceErrorKind::TemplateString,
        _ => SourceErrorKind::Unnamed,
    };
    Some(SourceError { start: error.location.start().to_usize(), end: error.location.end().to_usize(), kind })
}

/// The first quote from `at` on.
pub open spec fn first_quote(bytes: Seq<u8>, at: int) -> Option<int>
    decreases bytes.len() - at,
{
    if at < 0 || at >= bytes.len() {
        None
    } else if bytes[at] == 39 || bytes[at] == 34 {
        Some(at)
    } else {
        first_quote(bytes, at + 1)
    }
}

/// The first quote is followed by two more of its kind.
pub open spec fn triple_quoted(bytes: Seq<u8>) -> bool {
    match first_quote(bytes, 0) {
        None => false,
        Some(at) => at + 3 <= bytes.len() && bytes[at + 1] == bytes[at] && bytes[at + 2] == bytes[at],
    }
}

/// Says whether the first quote is followed by two more of its kind.
pub fn starts_with_triple_quote(bytes: &[u8]) -> (triple: bool)
    ensures
        triple == triple_quoted(bytes@),
{
    let total: usize = bytes.len();
    let mut at: usize = 0;
    while at < total
        invariant
            at <= total == bytes@.len(),
            first_quote(bytes@, at as int) == first_quote(bytes@, 0),
        decreases total - at,
    {
        let byte: u8 = bytes[at];
        if byte == 39 || byte == 34 {
            return total - at >= 3 && bytes[at + 1] == byte && bytes[at + 2] == byte;
        }
        at = at + 1;
    }
    false
}

/// The bytes of a range of source, or none where the range does not lie
/// between characters of it.
pub open spec fn range_of(bytes: Seq<u8>, start: usize, end: usize) -> Seq<u8> {
    if start <= end <= bytes.len() && is_char_boundary(bytes, start as int) && is_char_boundary(bytes, end as int) {
        bytes.subrange(start as int, end as int)
    } else {
        Seq::empty()
    }
}

/// What to do with source that has this error.
pub open spec fn mode_for(source: Seq<char>, error: Option<SourceErrorModel>) -> ReplContinuationMode {
    let bytes = encode_utf8(source);
    match error {
        None => ReplContinuationMode::Complete,
        Some(error) => match error.kind {
            SourceKindModel::Message(text) => if "Expected an indented block after "@.is_prefix_of(text) {
                ReplContinuationMode::IncompleteBlock
            } else if text == "Expected class, function definition or async function definition after decorator"@
                && error.start == error.end && error.start == bytes.len() {
                ReplContinuationMode::IncompleteImplicit
            } else {
                ReplContinuationMode::Complete
            },
            SourceKindModel::UnclosedString => if triple_quoted(range_of(bytes, error.start, error.end)) {
                ReplContinuationMode::IncompleteImplicit
            } else {
                ReplContinuationMode::Complete
            },
            SourceKindModel::Unnamed => ReplContinuationMode::Complete,
            _ => ReplContinuationMode::IncompleteImplicit,
        },
    }
}

/// Says what to do with source that has this error.
pub fn continuation_mode(source: &str, error: &Option<SourceError>) -> (mode: ReplContinuationMode)
    ensures
        mode == mode_for(source@, error_model(*error)),
{
    let error = match error {
        Some(error) => error,
        None => return ReplContinuationMode::Complete,
    };
    let bytes = source.as_bytes();
    match &error.kind {
        SourceErrorKind::Message(text) => {
            if starts_with(text.as_str(), "Expected an indented block after ") {
                ReplContinuationMode::IncompleteBlock
            } else if same_text(
                text.as_str(),
                "Expected class, function definition or async function definition after decorator",
            ) && error.start == error.end && error.start == bytes.len() {
                ReplContinuationMode::IncompleteImplicit
            } else {
                ReplContinuationMode::Complete
            }
        },
        SourceErrorKind::UnclosedString => {
            let triple: bool = if error.start <= error.end && error.end <= bytes.len() && source.is_char_boundary(
                error.start,
            ) && source.is_char_boundary(error.end) {
                starts_with_triple_quote(slice_subrange(bytes, error.start, error.end))
            } else {
                assert(!triple_quoted(Seq::<u8>::empty()));
                false
            };
            if triple {
                ReplContinuationMode::IncompleteImplicit
            } else {
                ReplContinuationMode::Complete
            }
        },
        SourceErrorKind::Unnamed => ReplContinuationMode::Complete,
        _ => ReplContinuationMode::IncompleteImplicit,
    }
}

/// Says whether source is complete or needs more input. Brackets, strings with
/// triple quotes and decorators go on; the header of a block waits for a blank
/// line. Everything else runs, or shows its error, at once.
pub fn detect_repl_continuation_mode(source: &str) -> (mode: ReplContinuationMode)
    requires
        encode_utf8(source@).len() <= u32::MAX,
    ensures
        mode == mode_for(source@, module_error(source@)),
{
    let error = parse_error(source);
    continuation_mode(source, &error)
}

/// A module is complete.
pub proof fn law_module_is_complete(source: Seq<char>)
    ensures
        module_error(source) is None ==> mode_for(source, module_error(source)) == ReplContinuationMode::Complete,
{
}

/// Only source with an error is continued, and only a missing block waits for
/// a blank line.
pub proof fn law_blocks_need_a_message(source: Seq<char>, error: Option<SourceErrorModel>)
    ensures
        mode_for(source, error) == ReplContinuationMode::IncompleteBlock ==> error is Some
            && error->Some_0.kind is Message && "Expected an indented block after "@.is_prefix_of(
            error->Some_0.kind->Message_0,
        ),
        mode_for(source, error) != ReplContinuationMode::Complete ==> error is Some,
{
}

/// Which errors ask for more lines: a block that has not begun asks for a block,
/// and source that ends inside brackets or a string in triple quotes asks for the
/// rest. A string in single quotes that is not closed, and any other error, is
/// final.
pub proof fn law_what_asks_for_more(source: Seq<char>, start: usize, end: usize, after: Seq<char>, body: Seq<u8>)
    requires
        body.len() >= 3,
        start <= end <= encode_utf8(source).len(),
        is_char_boundary(encode_utf8(source), start as int),
        is_char_boundary(encode_utf8(source), end as int),
        encode_utf8(source).subrange(start as int, end as int) == body,
    ensures
        mode_for(
            source,
            Some(
                SourceErrorModel {
                    start,
                    end,
                    kind: SourceKindModel::Message("Expected an indented block after "@ + after),
                },
            ),
        ) == ReplContinuationMode::IncompleteBlock,
        mode_for(source, Some(SourceErrorModel { start, end, kind: SourceKindModel::EndOfFile }))
            == ReplContinuationMode::IncompleteImplicit,
        mode_for(source, Some(SourceErrorModel { start, end, kind: SourceKindModel::Unnamed }))
            == ReplContinuationMode::Complete,
        (body[0] == 34 || body[0] == 39) && body[1] == body[0] && body[2] == body[0] ==> mode_for(
            source,
            Some(SourceErrorModel { start, end, kind: SourceKindModel::UnclosedString }),
        ) == ReplContinuationMode::IncompleteImplicit,
        (body[0] == 34 || body[0] == 39) && body[1] != body[0] ==> mode_for(
            source,
            Some(SourceErrorModel { start, end, kind: SourceKindModel::UnclosedString }),
        ) == ReplContinuationMode::Complete,
{
    let lead = "Expected an indented block after "@;
    assert(lead.is_prefix_of(lead + after));
}

} // verus!
