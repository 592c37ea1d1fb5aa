//! Errors that end a stage or a run.
use crate::table::Duplicate;
use vstd::prelude::*;

verus! {

/// A failed call of a language model.
#[derive(Debug, PartialEq)]
pub struct LlmError {
    pub message: String,
    /// Another provider may serve the request.
    pub failover_eligible: bool,
    pub retryable: bool,
}

pub struct LlmErrorView {
    pub message: Seq<char>,
    pub failover_eligible: bool,
    pub retryable: bool,
}

impl View for LlmError {
    type V = LlmErrorView;

    open spec fn view(&self) -> LlmErrorView {
        LlmErrorView {
            message: self.message@,
            failover_eligible: self.failover_eligible,
            retryable: self.retryable,
        }
    }
}

impl DeepView for LlmError {
    type V = LlmErrorView;

    open spec fn deep_view(&self) -> LlmErrorView {
        self@
    }
}

/// The last output of a process.
#[derive(Debug, PartialEq)]
pub struct ExecOutputTail {
    pub stdout: Option<String>,
    pub stderr: Option<String>,
    pub stdout_truncated: bool,
    pub stderr_truncated: bool,
}

pub struct TailView {
    pub stdout: Option<Seq<char>>,
    pub stderr: Option<Seq<char>>,
    pub stdout_truncated: bool,
    pub stderr_truncated: bool,
}

impl View for ExecOutputTail {
    type V = TailView;

    open spec fn view(&self) -> TailView {
        TailView {
            stdout: self.stdout.deep_view(),
            stderr: self.stderr.deep_view(),
            stdout_truncated: self.stdout_truncated,
            stderr_truncated: self.stderr_truncated,
        }
    }
}

impl DeepView for ExecOutputTail {
    type V = TailView;

    open spec fn deep_view(&self) -> TailView {
        self@
    }
}

impl Duplicate for ExecOutputTail {
    fn duplicate(&self) -> (r: Self) {
        ExecOutputTail {
            stdout: self.stdout.duplicate(),
            stderr: self.stderr.duplicate(),
            stdout_truncated: self.stdout_truncated,
            stderr_truncated: self.stderr_truncated,
        }
    }
}

/// A failed handler: what failed, what caused it, and the last output of the
/// process that failed.
#[derive(Debug, PartialEq)]
pub struct HandlerError {
    pub message: String,
    pub causes: Vec<String>,
    pub exec_output_tail: Option<ExecOutputTail>,
}

pub struct HandlerView {
    pub message: Seq<char>,
    pub causes: Seq<Seq<char>>,
    pub exec_output_tail: Option<TailView>,
}

impl View for HandlerError {
    type V = HandlerView;

    open spec fn view(&self) -> HandlerView {
        HandlerView {
            message: self.message@,
            causes: self.causes.deep_view(),
            exec_output_tail: self.exec_output_tail.deep_view(),
        }
    }
}

/// What ends a stage or a run.
#[derive(Debug, PartialEq)]
pub enum Error {
    Parse(String),
    Validation(String),
    Precondition(String),
    Handler(HandlerError),
    Io(String),
    Llm(LlmError),
    OutputSchemaValidation(String),
    Cancelled,
}

pub enum ErrorView {
    Parse(Seq<char>),
    Validation(Seq<char>),
    Precondition(Seq<char>),
    Handler(HandlerView),
    Io(Seq<char>),
    Llm(LlmErrorView),
    OutputSchemaValidation(Seq<char>),
    Cancelled,
}

impl View for Error {
    type V = ErrorView;

    open spec fn view(&self) -> ErrorView {
        match self {
            Error::Parse(s) => ErrorView::Parse(s@),
            Error::Validation(s) => ErrorView::Validation(s@),
            Error::Precondition(s) => ErrorView::Precondition(s@),
            Error::Handler(h) => ErrorView::Handler(h@),
            Error::Io(s) => ErrorView::Io(s@),
            Error::Llm(e) => ErrorView::Llm(e@),
            Error::OutputSchemaValidation(s) => ErrorView::OutputSchemaValidation(s@),
            Error::Cancelled => ErrorView::Cancelled,
        }
    }
}

impl DeepView for Error {
    type V = ErrorView;

    open spec fn deep_view(&self) -> ErrorView {
        self@
    }
}

/// A failed handler of which nothing but a message is known.
pub open spec fn handler_error(message: Seq<char>) -> ErrorView {
    ErrorView::Handler(HandlerView { message, causes: Seq::empty(), exec_output_tail: None })
}

/// A failed handler with the chain of its causes.
pub open spec fn handler_caused(
    message: Seq<char>,
    causes: Seq<Seq<char>>,
    tail: Option<TailView>,
) -> ErrorView {
    ErrorView::Handler(HandlerView { message, causes, exec_output_tail: tail })
}

impl ErrorView {
    /// Whether a new attempt may succeed.
    pub open spec fn retryable(self) -> bool {
        match self {
            ErrorView::Handler(_) | ErrorView::Io(_) => true,
            ErrorView::Llm(e) => e.retryable,
            _ => false,
        }
    }
}

impl Error {
    pub fn handler(message: &str) -> (r: Error)
        ensures
            r@ == handler_error(message@),
    {
        let causes: Vec<String> = Vec::new();
        assert(causes.deep_view() =~= Seq::empty());
        Error::Handler(
            HandlerError { message: message.to_owned(), causes, exec_output_tail: None },
        )
    }

    /// A failed handler, with what caused it, the nearest cause first, and the
    /// last output of a process.
    pub fn handler_with_source(
        message: &str,
        causes: Vec<String>,
        tail: Option<ExecOutputTail>,
    ) -> (r: Error)
        ensures
            r@ == handler_caused(message@, causes.deep_view(), tail.deep_view()),
    {
        Error::Handler(HandlerError { message: message.to_owned(), causes, exec_output_tail: tail })
    }

    /// A failed handler, with the last output of a process.
    pub fn handler_with_exec_output_tail(message: &str, tail: Option<ExecOutputTail>) -> (r: Error)
        ensures
            r@ == ErrorView::Handler(
                (HandlerView {
                    message: message@,
                    causes: Seq::empty(),
                    exec_output_tail: tail.deep_view(),
                }),
            ),
    {
        let causes: Vec<String> = Vec::new();
        assert(causes.deep_view() =~= Seq::empty());
        Error::Handler(HandlerError { message: message.to_owned(), causes, exec_output_tail: tail })
    }

    /// Whether a new attempt may succeed.
    pub fn is_retryable(&self) -> (r: bool)
        ensures
            r == self@.retryable(),
    {
        match self {
            Error::Handler(_) | Error::Io(_) => true,
            Error::Llm(e) => e.retryable,
            _ => false,
        }
    }
}

/// A new attempt may mend a failed handler, a failed read or write, and an error of
/// a model that says so; nothing else.
pub proof fn lemma_what_may_be_tried_again(e: ErrorView)
    ensures
        e.retryable() <==> e is Handler || e is Io || (e matches ErrorView::Llm(l) && l.retryable),
{
}


} // verus!
