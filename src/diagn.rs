use vstd::prelude::*;

verus! {

/// A source location: a file handle and a byte range within that file.
#[derive(Clone, Copy, Debug, PartialEq, Eq)]
pub struct Span {
    pub file_handle: u16,
    pub start: usize,
    pub end: usize,
}

/// What a diagnostic says. The human-readable text is rendered by the caller.
#[derive(Debug)]
pub enum Message {
    /// The expression did not yield an integer.
    ExpectedInteger,
    /// The address still changed on the last permitted pass.
    AddressDidNotConverge,
    /// The address lies before the bank's start or past its end.
    AddressOutOfBankRange,
    /// The scaled bank offset does not fit a native `usize`.
    ValueOutOfSupportedRange,
    /// No file of that name is known.
    FileNotFound(String),
    /// Every file handle is already in use.
    ExhaustedFileHandles,
    /// Text composed by the caller, such as an I/O failure.
    Custom(String),
}

/// One recorded error, with the location it is attributed to, if any.
#[derive(Debug)]
pub struct Diagnostic {
    pub message: Message,
    pub span: Option<Span>,
}

/// The diagnostic recorded for `message` at `span`.
pub open spec fn diagnostic(message: Message, span: Option<Span>) -> Diagnostic {
    Diagnostic { message, span }
}

/// The diagnostic sink: an append-only list of errors.
pub struct Report {
    diagnostics: Vec<Diagnostic>,
}

impl View for Report {
    type V = Seq<Diagnostic>;

    closed spec fn view(&self) -> Seq<Diagnostic> {
        self.diagnostics@
    }
}

impl Report {
    pub fn new() -> (r: Report)
        ensures
            r@ == Seq::<Diagnostic>::empty(),
    {
        Report { diagnostics: Vec::new() }
    }

    /// Records an error that is not attributed to any location.
    pub fn error(&mut self, message: Message)
        ensures
            final(self)@ == old(self)@.push(diagnostic(message, None)),
    {
        self.diagnostics.push(Diagnostic { message, span: None });
    }

    /// Records an error attributed to `span`.
    pub fn error_span(&mut self, message: Message, span: Span)
        ensures
            final(self)@ == old(self)@.push(diagnostic(message, Some(span))),
    {
        self.diagnostics.push(Diagnostic { message, span: Some(span) });
    }

    pub fn len(&self) -> (r: usize)
        ensures
            r == self@.len(),
    {
        self.diagnostics.len()
    }

    pub fn has_errors(&self) -> (r: bool)
        ensures
            r == (self@.len() > 0),
    {
        self.diagnostics.len() > 0
    }

    pub fn get(&self, i: usize) -> (r: &Diagnostic)
        requires
            i < self@.len(),
        ensures
            *r == self@[i as int],
    {
        &self.diagnostics[i]
    }
}

/// Records `message` at `span` when a location is known, and without one otherwise.
pub fn report_error(report: &mut Report, span: Option<Span>, message: Message)
    ensures
        final(report)@ == old(report)@.push(diagnostic(message, span)),
{
    match span {
        Some(span) => report.error_span(message, span),
        None => report.error(message),
    }
}

} // verus!
