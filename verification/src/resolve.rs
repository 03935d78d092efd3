//! Resolution of one specifier: what is asked of the path resolver, and what
//! its answer means.

use crate::failure::occurs_in;
use crate::paths::{parent, parent_directory};
use vstd::prelude::*;

verus! {

/// A question for the path resolver: where `specifier` leads from
/// `directory`.
#[derive(Debug, PartialEq, Eq)]
pub struct ResolveRequest {
    pub directory: String,
    pub specifier: String,
}

/// The mathematical content of a [`ResolveRequest`].
pub struct ResolveRequestView {
    pub directory: Seq<char>,
    pub specifier: Seq<char>,
}

impl View for ResolveRequest {
    type V = ResolveRequestView;

    open spec fn view(&self) -> ResolveRequestView {
        ResolveRequestView { directory: self.directory@, specifier: self.specifier@ }
    }
}

/// A specifier could not be mapped to a file.
#[derive(Debug, PartialEq, Eq)]
pub struct ResolutionFailure {
    /// The path of the importing module.
    pub importer: String,
    /// The specifier as written in the importing module.
    pub importee: String,
}

/// The mathematical content of a [`ResolutionFailure`].
pub struct ResolutionFailureView {
    pub importer: Seq<char>,
    pub importee: Seq<char>,
}

impl View for ResolutionFailure {
    type V = ResolutionFailureView;

    open spec fn view(&self) -> ResolutionFailureView {
        ResolutionFailureView { importer: self.importer@, importee: self.importee@ }
    }
}

impl ResolutionFailureView {
    /// The failure in words; it names the importer and the importee.
    pub open spec fn message(self) -> Seq<char> {
        "Failed to resolve importer: \""@ + self.importer + "\", importee: \""@ + self.importee
            + "\""@
    }
}

/// The words for a failed resolution name the importer and the importee.
pub proof fn lemma_message_names_both(failure: ResolutionFailureView)
    ensures
        occurs_in(failure.importer, failure.message()),
        occurs_in(failure.importee, failure.message()),
{
    let text = failure.message();
    let first = "Failed to resolve importer: \""@.len() as int;
    let second = first + failure.importer.len() + "\", importee: \""@.len();
    assert(text.subrange(first, first + failure.importer.len()) == failure.importer);
    assert(text.subrange(second, second + failure.importee.len()) == failure.importee);
}

impl ResolutionFailure {
    /// The failure in words; it names the importer and the importee.
    pub fn message(&self) -> (text: String)
        ensures
            text@ == self@.message(),
    {
        let mut text = String::from_str("Failed to resolve importer: \"");
        text.append(self.importer.as_str());
        text.append("\", importee: \"");
        text.append(self.importee.as_str());
        text.append("\"");
        text
    }
}

/// What resolving `importee` from the module at `importer` asks of the path
/// resolver: the importee, looked up from the directory that holds the
/// importer. An importer without a parent directory cannot import.
pub open spec fn request_for(importer: Seq<char>, importee: Seq<char>) -> Result<
    ResolveRequestView,
    ResolutionFailureView,
> {
    match parent_directory(importer) {
        Some(directory) => Ok(ResolveRequestView { directory, specifier: importee }),
        None => Err(ResolutionFailureView { importer, importee }),
    }
}

/// What the path resolver's answer means for the importer: the resolved
/// path, or a failure that names importer and importee.
pub open spec fn outcome_for(
    importer: Seq<char>,
    importee: Seq<char>,
    answer: Result<Seq<char>, Seq<char>>,
) -> Result<Seq<char>, ResolutionFailureView> {
    match answer {
        Ok(path) => Ok(path),
        Err(_) => Err(ResolutionFailureView { importer, importee }),
    }
}

/// The view of a request or of the failure to make one.
pub open spec fn request_view(request: Result<ResolveRequest, ResolutionFailure>) -> Result<
    ResolveRequestView,
    ResolutionFailureView,
> {
    match request {
        Ok(request) => Ok(request@),
        Err(failure) => Err(failure@),
    }
}

/// The view of a resolved path or of the failure to find one.
pub open spec fn outcome_view(outcome: Result<String, ResolutionFailure>) -> Result<
    Seq<char>,
    ResolutionFailureView,
> {
    match outcome {
        Ok(path) => Ok(path@),
        Err(failure) => Err(failure@),
    }
}

/// The view of the path resolver's answer: a path, or a message.
pub open spec fn answer_view(answer: Result<String, String>) -> Result<Seq<char>, Seq<char>> {
    match answer {
        Ok(path) => Ok(path@),
        Err(message) => Err(message@),
    }
}

/// Prepares the resolution of `importee` as seen from the module at
/// `importer`.
pub fn resolve_request(importer: &str, importee: &str) -> (request: Result<
    ResolveRequest,
    ResolutionFailure,
>)
    ensures
        request_view(request) == request_for(importer@, importee@),
{
    match parent(importer) {
        Some(directory) => Ok(ResolveRequest { directory, specifier: String::from_str(importee) }),
        None => Err(
            ResolutionFailure {
                importer: String::from_str(importer),
                importee: String::from_str(importee),
            },
        ),
    }
}

/// Turns the path resolver's answer into the result of the resolution.
pub fn resolve_outcome(
    importer: &str,
    importee: &str,
    answer: Result<String, String>,
) -> (outcome: Result<String, ResolutionFailure>)
    ensures
        outcome_view(outcome) == outcome_for(importer@, importee@, answer_view(answer)),
{
    match answer {
        Ok(path) => Ok(path),
        Err(_) => Err(
            ResolutionFailure {
                importer: String::from_str(importer),
                importee: String::from_str(importee),
            },
        ),
    }
}

} // verus!
