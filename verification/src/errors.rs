//! The error type of the crate: a description, with an optional explanation,
//! an optional underlying error and optional captured output.

use vstd::prelude::*;
use vstd::string::StringExecFns;

verus! {

/// An error with the context that explains it.
#[derive(Debug)]
pub struct Error {
    description: String,
    explanation: Option<String>,
    source: Option<Box<Error>>,
    output: Option<String>,
}

/// The content of an [`Error`].
pub struct ErrorView {
    pub description: Seq<char>,
    pub explanation: Option<Seq<char>>,
    pub source: Option<Box<ErrorView>>,
    pub output: Option<Seq<char>>,
}

pub open spec fn text_view(text: Option<String>) -> Option<Seq<char>> {
    match text {
        Some(s) => Some(s@),
        None => None,
    }
}

impl Error {
    /// The content of the error.
    pub closed spec fn content(self) -> ErrorView
        decreases self,
    {
        ErrorView {
            description: self.description@,
            explanation: text_view(self.explanation),
            source: match self.source {
                Some(inner) => Some(Box::new((*inner).content())),
                None => None,
            },
            output: text_view(self.output),
        }
    }
}

impl View for Error {
    type V = ErrorView;

    open spec fn view(&self) -> ErrorView {
        self.content()
    }
}

/// An error that carries only a description.
pub open spec fn plain(description: Seq<char>) -> ErrorView {
    ErrorView { description, explanation: None, source: None, output: None }
}

/// What adding context to an error gives: an error without a description
/// takes the context as its description; any other becomes the source of a
/// new error.
pub open spec fn contextualized(error: ErrorView, description: Seq<char>) -> ErrorView {
    if error.description.len() == 0 {
        ErrorView { description, ..error }
    } else {
        ErrorView { source: Some(Box::new(error)), ..plain(description) }
    }
}

/// The text shown for an error: its description, then its source after a
/// colon, then its explanation after an empty line.
pub open spec fn rendered(error: ErrorView) -> Seq<char>
    decreases error,
{
    error.description + (match error.source {
        Some(inner) => seq![':', ' '] + rendered(*inner),
        None => Seq::empty(),
    }) + (match error.explanation {
        Some(text) => seq!['\n', '\n'] + text,
        None => Seq::empty(),
    })
}

impl Error {
    pub fn new(description: &str) -> (error: Error)
        ensures
            error@ == plain(description@),
    {
        Error {
            description: description.to_owned(),
            explanation: None,
            source: None,
            output: None,
        }
    }

    pub fn from_source(source: Error) -> (error: Error)
        ensures
            error@ == (ErrorView { source: Some(Box::new(source@)), ..plain(Seq::empty()) }),
    {
        let error = Error::new("").with_source(source);
        proof {
            reveal_strlit("");
            assert(""@ =~= Seq::<char>::empty());
        }
        error
    }

    pub fn with_source(self, source: Error) -> (error: Error)
        ensures
            error@ == (ErrorView { source: Some(Box::new(source@)), ..self@ }),
    {
        let mut error = self;
        error.source = Some(Box::new(source));
        error
    }

    pub fn with_explanation(self, explanation: &str) -> (error: Error)
        ensures
            error@ == (ErrorView { explanation: Some(explanation@), ..self@ }),
    {
        let mut error = self;
        error.explanation = Some(explanation.to_owned());
        error
    }

    pub fn with_output(self, output: &str) -> (error: Error)
        ensures
            error@ == (ErrorView { output: Some(output@), ..self@ }),
    {
        let mut error = self;
        error.output = Some(output.to_owned());
        error
    }

    pub fn description(&self) -> (description: &str)
        ensures
            description@ == self@.description,
    {
        self.description.as_str()
    }

    pub fn source(&self) -> (source: Option<&Error>)
        ensures
            match source {
                Some(inner) => self@.source == Some(Box::new(inner@)),
                None => self@.source is None,
            },
    {
        match &self.source {
            Some(inner) => Some(&**inner),
            None => None,
        }
    }

    pub fn explanation(&self) -> (explanation: Option<&str>)
        ensures
            match explanation {
                Some(text) => self@.explanation == Some(text@),
                None => self@.explanation is None,
            },
    {
        match &self.explanation {
            Some(text) => Some(text.as_str()),
            None => None,
        }
    }

    pub fn output(&self) -> (output: Option<&str>)
        ensures
            match output {
                Some(text) => self@.output == Some(text@),
                None => self@.output is None,
            },
    {
        match &self.output {
            Some(text) => Some(text.as_str()),
            None => None,
        }
    }

    pub fn with_context(self, description: &str) -> (error: Error)
        ensures
            error@ == contextualized(self@, description@),
    {
        if self.description.as_str().is_empty() {
            let mut error = self;
            error.description = description.to_owned();
            error
        } else {
            Error::new(description).with_source(self)
        }
    }

    /// The text shown for the error.
    pub fn to_string(&self) -> (text: String)
        ensures
            text@ == rendered(self@),
        decreases self,
    {
        let mut text = self.description.clone();
        match &self.source {
            Some(inner) => {
                text.append(": ");
                let shown = inner.to_string();
                text.append(shown.as_str());
            },
            None => {},
        }
        match &self.explanation {
            Some(explanation) => {
                text.append("\n\n");
                text.append(explanation.as_str());
            },
            None => {},
        }
        proof {
            reveal_strlit(": ");
            reveal_strlit("\n\n");
            assert(": "@ =~= seq![':', ' ']);
            assert("\n\n"@ =~= seq!['\n', '\n']);
            assert(text@ =~= rendered(self@));
        }
        text
    }
}

/// Whether `r` is `wanted`: the same text, or an error with the same content.
pub open spec fn is_text_or_error(r: Result<String, Error>, wanted: Result<Seq<char>, ErrorView>) -> bool {
    match (r, wanted) {
        (Ok(text), Ok(wanted)) => text@ == wanted,
        (Err(error), Err(wanted)) => error@ == wanted,
        _ => false,
    }
}

/// Adding context to the error of a result.
pub trait ErrorContext: Sized {
    /// Whether `after` is `self` with `description` added as context to its
    /// error, if it has one.
    spec fn context_added(self, description: Seq<char>, after: Self) -> bool;

    /// Whether `after` is `self` with `description` added as context to its
    /// error, if it has one, and `explanation` set as the explanation.
    spec fn full_context_added(
        self,
        description: Seq<char>,
        explanation: Seq<char>,
        after: Self,
    ) -> bool;

    fn with_context(self, description: &str) -> (after: Self)
        ensures
            self.context_added(description@, after),
    ;

    fn with_full_context(self, description: &str, explanation: &str) -> (after: Self)
        ensures
            self.full_context_added(description@, explanation@, after),
    ;
}

impl<T> ErrorContext for Result<T, Error> {
    open spec fn context_added(self, description: Seq<char>, after: Self) -> bool {
        match (self, after) {
            (Ok(before), Ok(value)) => value == before,
            (Err(before), Err(error)) => error@ == contextualized(before@, description),
            _ => false,
        }
    }

    open spec fn full_context_added(
        self,
        description: Seq<char>,
        explanation: Seq<char>,
        after: Self,
    ) -> bool {
        match (self, after) {
            (Ok(before), Ok(value)) => value == before,
            (Err(before), Err(error)) => error@ == (ErrorView {
                explanation: Some(explanation),
                ..contextualized(before@, description)
            }),
            _ => false,
        }
    }

    fn with_context(self, description: &str) -> (after: Self) {
        match self {
            Ok(value) => Ok(value),
            Err(error) => Err(error.with_context(description)),
        }
    }

    fn with_full_context(self, description: &str, explanation: &str) -> (after: Self) {
        match self {
            Ok(value) => Ok(value),
            Err(error) => Err(error.with_context(description).with_explanation(explanation)),
        }
    }
}

} // verus!
