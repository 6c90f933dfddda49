//! Template strings as parsed.
//!
//! A template string does not build text. It builds a template that holds the
//! literal segments and one interpolation per replacement field, so that a
//! consumer can inspect each substituted expression before it decides how to
//! render it.

use crate::ast::{ConversionFlag, ExprLoc, FStringPart};
use crate::names::StringId;
use vstd::prelude::*;

verus! {

/// A parsed template string. Its two lists line up: there is one more string
/// than there are interpolations.
pub struct ParsedTemplate {
    /// Literal segments, including the empty ones between adjacent
    /// interpolations and at the ends.
    pub strings: Vec<StringId>,
    /// One entry per replacement field, in source order.
    pub interpolations: Vec<TemplateInterpolation>,
}

/// One replacement field of a template string.
///
/// Everything except the expression is data about the field: a template
/// string never converts or formats.
pub struct TemplateInterpolation {
    /// The expression to evaluate.
    pub expr: Box<ExprLoc>,
    /// Source text of the expression.
    pub expression: StringId,
    /// The conversion that the field names.
    pub conversion: ConversionFlag,
    /// The parts of the format spec.
    pub format_spec: Vec<FStringPart>,
}

} // verus!
