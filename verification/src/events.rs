//! The lexer event contract: typed dependency events and warnings, as the
//! stylesheet lexer reports them for one module source, in source order and
//! with byte ranges.
//!
//! The lexer itself is an external collaborator; the library consumes its
//! event stream through a trusted boundary and all processing of the events
//! is verified.

use vstd::prelude::*;

verus! {

/// One typed dependency event with byte offsets into the module source.
#[derive(Debug)]
pub enum DependencyEvent {
    /// A `url(...)` or image-set reference.
    Url { request: String, start: u32, end: u32, is_function: bool },
    /// An `@import` rule.
    Import { request: String, start: u32, end: u32 },
    /// A literal text replacement requested by the lexer.
    Replace { content: String, start: u32, end: u32 },
    /// A scoped class selector; `name` still carries the leading `.`.
    LocalClass { name: String, start: u32, end: u32 },
    /// A scoped id selector; `name` still carries the leading `#`.
    LocalId { name: String, start: u32, end: u32 },
    /// A scoped `@keyframes` reference.
    LocalKeyframes { name: String, start: u32, end: u32 },
    /// A scoped `@keyframes` declaration.
    LocalKeyframesDecl { name: String, start: u32, end: u32 },
    /// A `composes: <names> [from <source>];` declaration applied to the
    /// listed local classes.
    Composes {
        local_classes: Vec<String>,
        names: Vec<String>,
        from: Option<String>,
        start: u32,
        end: u32,
    },
    /// An ICSS `:export` value declaration.
    IcssExportValue { prop: String, value: String },
    /// Any event kind the extractor does not act on.
    Ignored,
}

/// One lexer warning with its byte range; `not_preceded_at_import` marks
/// the misplaced-`@import` warning, which is escalated to an error.
#[derive(Debug)]
pub struct LexWarning {
    pub start: u32,
    pub end: u32,
    pub message: String,
    pub not_preceded_at_import: bool,
}

/// The dependency events the lexer reports for this source text in the
/// given mode, in source order.  The lexer is deterministic: the events are
/// a function of the text and the mode alone.
pub uninterp spec fn lexed_events(source: Seq<char>, local: bool) -> Seq<DependencyEvent>;

/// The warnings the lexer reports for this source text in the given mode,
/// in source order.
pub uninterp spec fn lexed_warnings(source: Seq<char>, local: bool) -> Seq<LexWarning>;

#[verifier::external_type_specification]
#[verifier::external_body]
pub struct ExDependency<'s>(css_module_lexer::Dependency<'s>);

#[verifier::external_type_specification]
#[verifier::external_body]
pub struct ExWarning<'s>(css_module_lexer::Warning<'s>);

/// Relies on `css_module_lexer::Dependency`: moves each request-shaped
/// variant's fields into the library's event type; other variants are
/// passed on.
#[verifier::external_body]
fn event_of_lexer(d: css_module_lexer::Dependency<'_>) -> DependencyEvent {
    match d {
        css_module_lexer::Dependency::Url { request, range, kind } => DependencyEvent::Url { request: request.to_string(), start: range.start, end: range.end, is_function: matches!(kind, css_module_lexer::UrlRangeKind::Function) },
        css_module_lexer::Dependency::Import { request, range, .. } => DependencyEvent::Import { request: request.to_string(), start: range.start, end: range.end },
        css_module_lexer::Dependency::Replace { content, range } => DependencyEvent::Replace { content: content.to_string(), start: range.start, end: range.end },
        other => event_of_locals(other),
    }
}

/// Relies on `css_module_lexer::Dependency`: moves each scoped-name
/// variant's fields into the library's event type; other variants are
/// passed on.
#[verifier::external_body]
fn event_of_locals(d: css_module_lexer::Dependency<'_>) -> DependencyEvent {
    match d {
        css_module_lexer::Dependency::LocalClass { name, range, .. } => DependencyEvent::LocalClass { name: name.to_string(), start: range.start, end: range.end },
        css_module_lexer::Dependency::LocalId { name, range, .. } => DependencyEvent::LocalId { name: name.to_string(), start: range.start, end: range.end },
        css_module_lexer::Dependency::LocalKeyframes { name, range } => DependencyEvent::LocalKeyframes { name: name.to_string(), start: range.start, end: range.end },
        css_module_lexer::Dependency::LocalKeyframesDecl { name, range } => DependencyEvent::LocalKeyframesDecl { name: name.to_string(), start: range.start, end: range.end },
        other => event_of_rest(other),
    }
}

/// Relies on `css_module_lexer::Dependency`: moves the composition and
/// ICSS export variants' fields into the library's event type; every other
/// variant becomes `Ignored`.
#[verifier::external_body]
fn event_of_rest(d: css_module_lexer::Dependency<'_>) -> DependencyEvent {
    match d {
        css_module_lexer::Dependency::Composes { local_classes, names, from, range } => DependencyEvent::Composes { local_classes: local_classes.iter().map(|s| s.to_string()).collect(), names: names.iter().map(|s| s.to_string()).collect(), from: from.map(|s| s.to_string()), start: range.start, end: range.end },
        css_module_lexer::Dependency::ICSSExportValue { prop, value } => DependencyEvent::IcssExportValue { prop: prop.to_string(), value: value.to_string() },
        _ => DependencyEvent::Ignored,
    }
}

/// Relies on `css_module_lexer::Warning`: moves the range, the displayed
/// message and the `NotPrecededAtImport` classification into the library's
/// warning type.
#[verifier::external_body]
fn warning_of_lexer(w: &css_module_lexer::Warning<'_>) -> LexWarning {
    LexWarning {
        start: w.range().start,
        end: w.range().end,
        message: w.to_string(),
        not_preceded_at_import: matches!(w.kind(), css_module_lexer::WarningKind::NotPrecededAtImport),
    }
}

/// Relies on `css_module_lexer::collect_dependencies`: the dependencies and
/// warnings it reports for this source text, in source order, converted to
/// the library's event types.
#[verifier::external_body]
pub fn lex_source(source: &str, local: bool) -> (r: (Vec<DependencyEvent>, Vec<LexWarning>))
    ensures
        r.0@ == lexed_events(source@, local),
        r.1@ == lexed_warnings(source@, local),
{
    let mode = if local { css_module_lexer::Mode::Local } else { css_module_lexer::Mode::Css };
    let (deps, warnings) = css_module_lexer::collect_dependencies(source, mode);
    (deps.into_iter().map(event_of_lexer).collect(), warnings.iter().map(warning_of_lexer).collect())
}

} // verus!
