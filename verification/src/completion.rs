//! Labels for the completions the language server offers, highlighted by kind.
use vstd::prelude::*;
use crate::text::opt_string_view;
use vstd::utf8::encode_utf8;

verus! {

/// The kind of an LSP completion.
#[derive(Debug, PartialEq)]
pub enum CompletionKind {
    Text,
    Method,
    Function,
    Constructor,
    Field,
    Variable,
    Class,
    Interface,
    Module,
    Property,
    Unit,
    Value,
    Enum,
    Keyword,
    Snippet,
    Color,
    File,
    Reference,
    Folder,
    EnumMember,
    Constant,
    Struct,
    Event,
    Operator,
    TypeParameter,
    Other(i32),
}

/// The parts of an LSP completion that its label is made of.
#[derive(Debug, PartialEq)]
pub struct Completion {
    pub label: String,
    pub detail: Option<String>,
    pub kind: Option<CompletionKind>,
}

/// A range of bytes, from `start` (inclusive) to `end` (exclusive).
#[derive(Debug, PartialEq)]
pub struct Range {
    pub start: u32,
    pub end: u32,
}

/// A span within a code label.
#[derive(Debug, PartialEq)]
pub enum CodeLabelSpan {
    /// A range into the parsed code.
    CodeRange(Range),
    /// Literal text, with the name of the highlight to show it with.
    Literal { text: String, highlight_name: Option<String> },
}

/// A label to show for a completion.
#[derive(Debug, PartialEq)]
pub struct CodeLabel {
    /// The source code to parse with Tree-sitter.
    pub code: String,
    /// The spans to display in the label.
    pub spans: Vec<CodeLabelSpan>,
    /// The range of the displayed label to include when filtering.
    pub filter_range: Range,
}

/// The mathematical value of a span.
pub enum SpanView {
    CodeRange { start: u32, end: u32 },
    Literal { text: Seq<char>, highlight_name: Option<Seq<char>> },
}

/// The mathematical value of a label.
pub struct LabelView {
    pub code: Seq<char>,
    pub spans: Seq<SpanView>,
    pub filter_start: u32,
    pub filter_end: u32,
}

impl View for CodeLabelSpan {
    type V = SpanView;

    open spec fn view(&self) -> SpanView {
        match self {
            CodeLabelSpan::CodeRange(r) => SpanView::CodeRange { start: r.start, end: r.end },
            CodeLabelSpan::Literal { text, highlight_name } => SpanView::Literal {
                text: text@,
                highlight_name: opt_string_view(*highlight_name),
            },
        }
    }
}

impl View for CodeLabel {
    type V = LabelView;

    open spec fn view(&self) -> LabelView {
        LabelView {
            code: self.code@,
            spans: self.spans@.map_values(|s: CodeLabelSpan| s@),
            filter_start: self.filter_range.start,
            filter_end: self.filter_range.end,
        }
    }
}

impl CodeLabelSpan {
    /// A span of literal text.
    pub fn literal(text: String, highlight_name: Option<String>) -> (r: CodeLabelSpan)
        ensures
            r@ == (SpanView::Literal { text: text@, highlight_name: opt_string_view(highlight_name) }),
    {
        CodeLabelSpan::Literal { text, highlight_name }
    }
}

/// The highlight a completion of kind `k` is shown with; kinds without one get no label.
pub open spec fn spec_highlight_name(k: CompletionKind) -> Option<Seq<char>> {
    match k {
        CompletionKind::Class | CompletionKind::Interface => Some("type"@),
        CompletionKind::Constructor => Some("constructor"@),
        CompletionKind::Constant => Some("constant"@),
        CompletionKind::Function | CompletionKind::Method => Some("function"@),
        CompletionKind::Property | CompletionKind::Field => Some("property"@),
        CompletionKind::Variable => Some("variable"@),
        CompletionKind::Keyword => Some("keyword"@),
        CompletionKind::Enum => Some("enum"@),
        CompletionKind::Module => Some("module"@),
        _ => None,
    }
}

/// The label for a completion: its name in the highlight of its kind, followed, when it has
/// a detail, by a space and the detail in the `detail` highlight; filtering covers the name:
/// its length in UTF-8 bytes, as `str::len` gives it, cut to the `u32` of a label range. Completions without a kind, or of a kind
/// without a highlight, get no label.
pub open spec fn spec_label_for_completion(c: Completion) -> Option<LabelView> {
    match c.kind {
        None => None,
        Some(k) => match spec_highlight_name(k) {
            None => None,
            Some(h) => {
                let name_span = SpanView::Literal { text: c.label@, highlight_name: Some(h) };
                Some(
                    LabelView {
                        code: Seq::empty(),
                        spans: match c.detail {
                            Some(d) => seq![
                                name_span,
                                SpanView::Literal { text: " "@, highlight_name: None },
                                SpanView::Literal {
                                    text: d@,
                                    highlight_name: Some("detail"@),
                                },
                            ],
                            None => seq![name_span],
                        },
                        filter_start: 0,
                        filter_end: (encode_utf8(c.label@).len() as usize) as u32,
                    },
                )
            },
        },
    }
}

/// The highlight a completion of kind `kind` is shown with, if any.
pub fn highlight_name(kind: &CompletionKind) -> (r: Option<&'static str>)
    ensures
        match (r, spec_highlight_name(*kind)) {
            (Some(x), Some(y)) => x@ == y,
            (None, None) => true,
            _ => false,
        },
{
    match kind {
        CompletionKind::Class | CompletionKind::Interface => Some("type"),
        CompletionKind::Constructor => Some("constructor"),
        CompletionKind::Constant => Some("constant"),
        CompletionKind::Function | CompletionKind::Method => Some("function"),
        CompletionKind::Property | CompletionKind::Field => Some("property"),
        CompletionKind::Variable => Some("variable"),
        CompletionKind::Keyword => Some("keyword"),
        CompletionKind::Enum => Some("enum"),
        CompletionKind::Module => Some("module"),
        _ => None,
    }
}

/// The label Zed shows for a completion (see `spec_label_for_completion`).
pub fn label_for_completion(completion: Completion) -> (r: Option<CodeLabel>)
    ensures
        match (r, spec_label_for_completion(completion)) {
            (Some(l), Some(v)) => l@ == v,
            (None, None) => true,
            _ => false,
        },
{
    let ghost c = completion;
    let highlight = match &completion.kind {
        Some(kind) => match highlight_name(kind) {
            Some(h) => h,
            None => return None,
        },
        None => return None,
    };
    let len = completion.label.as_str().len();
    let ghost label = completion.label@;
    let name_span = CodeLabelSpan::literal(completion.label, Some(highlight.to_owned()));
    let ghost name_view = name_span@;
    let spans = match completion.detail {
        Some(detail) => {
            let v = vec![
                name_span,
                CodeLabelSpan::literal(" ".to_owned(), None),
                CodeLabelSpan::literal(detail, Some("detail".to_owned())),
            ];
            v
        },
        None => vec![name_span],
    };
    let end = #[verifier::truncate] (len as u32);
    let r = CodeLabel { code: String::new(), spans, filter_range: Range { start: 0, end } };
    assert(r@.spans =~= spec_label_for_completion(c)->0.spans);
    assert(r@.code =~= spec_label_for_completion(c)->0.code);
    Some(r)
}

} // verus!

verus! {

/// The name span a label starts with: the completion's name in highlight `h`.
pub open spec fn labelled_as(c: Completion, h: Seq<char>) -> bool {
    spec_label_for_completion(c) matches Some(l) && l.spans.len() > 0 && l.spans[0]
        == SpanView::Literal { text: c.label@, highlight_name: Some(h) }
}

/// Completions are labelled by kind: classes and interfaces as types, constructors,
/// constants, functions and methods as functions, properties and fields as properties,
/// variables, keywords, enums and modules each in their own highlight, the name coming
/// first; every other kind, and a completion without a kind, gets no label. A label's name
/// is followed by a space and the detail in the `detail` highlight when there is one, and by
/// nothing otherwise; filtering starts at the name, and no code is parsed.
pub proof fn lemma_label_by_kind(c: Completion)
    ensures
        spec_label_for_completion(c) is Some <==> (c.kind matches Some(k) && (k is Class
            || k is Interface || k is Constructor || k is Constant || k is Function
            || k is Method || k is Property || k is Field || k is Variable || k is Keyword
            || k is Enum || k is Module)),
        (c.kind matches Some(k) && (k is Class || k is Interface)) ==> labelled_as(c, "type"@),
        c.kind matches Some(k) && k is Constructor ==> labelled_as(c, "constructor"@),
        c.kind matches Some(k) && k is Constant ==> labelled_as(c, "constant"@),
        (c.kind matches Some(k) && (k is Function || k is Method)) ==> labelled_as(
            c,
            "function"@,
        ),
        (c.kind matches Some(k) && (k is Property || k is Field)) ==> labelled_as(
            c,
            "property"@,
        ),
        c.kind matches Some(k) && k is Variable ==> labelled_as(c, "variable"@),
        c.kind matches Some(k) && k is Keyword ==> labelled_as(c, "keyword"@),
        c.kind matches Some(k) && k is Enum ==> labelled_as(c, "enum"@),
        c.kind matches Some(k) && k is Module ==> labelled_as(c, "module"@),
        spec_label_for_completion(c) matches Some(l) ==> {
            &&& l.code.len() == 0
            &&& l.filter_start == 0
            &&& match c.detail {
                Some(d) => l.spans.len() == 3 && l.spans[1] == (SpanView::Literal {
                    text: " "@,
                    highlight_name: None,
                }) && l.spans[2] == (SpanView::Literal {
                    text: d@,
                    highlight_name: Some("detail"@),
                }),
                None => l.spans.len() == 1,
            }
        },
{
}

} // verus!
