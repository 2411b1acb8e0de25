//! The terminal value of one search execution, and the channel consumer's
//! reading of it.

use vstd::prelude::*;

verus! {

/// Why a search delivered no lines.
#[derive(Clone, Copy, Debug, PartialEq, Eq, Structural)]
pub enum ErrorKind {
    /// The transcript file does not exist or could not be opened.
    FileNotFound,
    /// The transcript could not be read to its end.
    IoError,
    /// The execution context went away without delivering a result.
    ChannelClosed,
}

/// What one search execution came to: the matching lines in scan order, or a
/// failure. Produced exactly once per request.
#[derive(Debug)]
pub enum SearchOutcome {
    Success(Vec<String>),
    Failure(ErrorKind),
}

/// A search outcome at the specification level.
pub enum OutcomeView {
    Success(Seq<Seq<char>>),
    Failure(ErrorKind),
}

impl View for SearchOutcome {
    type V = OutcomeView;

    open spec fn view(&self) -> OutcomeView {
        match self {
            SearchOutcome::Success(lines) => OutcomeView::Success(lines.deep_view()),
            SearchOutcome::Failure(kind) => OutcomeView::Failure(*kind),
        }
    }
}

/// The error text rendered for `kind`. A closed channel reports exactly like
/// a read failure.
pub open spec fn spec_error_text(kind: ErrorKind) -> Seq<char> {
    match kind {
        ErrorKind::FileNotFound => "Error searching: file not found"@,
        ErrorKind::IoError => "Error searching: could not read the file"@,
        ErrorKind::ChannelClosed => "Error searching: could not read the file"@,
    }
}

impl ErrorKind {
    /// The error text shown on the results surface.
    pub fn message(&self) -> (r: String)
        ensures
            r@ == spec_error_text(*self),
    {
        match self {
            ErrorKind::FileNotFound => "Error searching: file not found".to_owned(),
            ErrorKind::IoError => "Error searching: could not read the file".to_owned(),
            ErrorKind::ChannelClosed => "Error searching: could not read the file".to_owned(),
        }
    }
}

/// A closed channel and a read failure render the same report.
pub proof fn lemma_channel_closed_reports_like_io_error()
    ensures
        spec_error_text(ErrorKind::ChannelClosed) == spec_error_text(ErrorKind::IoError),
{
}

/// What the consumer makes of the channel's yield: the value, if the producer
/// sent one, and a closed-channel failure if the producer went away without
/// sending.
pub fn resolve_received(msg: Option<SearchOutcome>) -> (out: SearchOutcome)
    ensures
        (msg matches Some(o) ==> out == o),
        (msg is None ==> out@ == OutcomeView::Failure(ErrorKind::ChannelClosed)),
{
    match msg {
        Some(o) => o,
        None => SearchOutcome::Failure(ErrorKind::ChannelClosed),
    }
}

} // verus!
