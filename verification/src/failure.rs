//! The ways in which counting a module graph fails.

use vstd::prelude::*;

verus! {

/// Why a traversal was given up. Every failure ends the traversal; nothing
/// is retried and no partial count is handed out.
#[derive(Debug, PartialEq, Eq)]
pub enum GraphFailure {
    /// A specifier could not be mapped to a file. For an entry point the
    /// importer is the base directory.
    Resolve { importer: String, importee: String, message: String },
    /// A resolved path cannot be expressed relative to the base directory.
    Unrelated { path: String, base_path: String },
    /// The path of a module has no file extension.
    MissingExtension { path: String },
    /// The file of a module could not be read.
    Read { base_path: String, module: String },
    /// The extension of a module is none of JavaScript's or TypeScript's.
    UnknownSourceKind { path: String },
    /// The source text of a module could not be parsed.
    Parse { path: String },
    /// The path of an importing module has no parent directory.
    NoParent { importer: String },
}

/// The mathematical content of a [`GraphFailure`].
pub enum GraphFailureView {
    Resolve { importer: Seq<char>, importee: Seq<char>, message: Seq<char> },
    Unrelated { path: Seq<char>, base_path: Seq<char> },
    MissingExtension { path: Seq<char> },
    Read { base_path: Seq<char>, module: Seq<char> },
    UnknownSourceKind { path: Seq<char> },
    Parse { path: Seq<char> },
    NoParent { importer: Seq<char> },
}

impl View for GraphFailure {
    type V = GraphFailureView;

    open spec fn view(&self) -> GraphFailureView {
        match self {
            GraphFailure::Resolve { importer, importee, message } => GraphFailureView::Resolve {
                importer: importer@,
                importee: importee@,
                message: message@,
            },
            GraphFailure::Unrelated { path, base_path } => GraphFailureView::Unrelated {
                path: path@,
                base_path: base_path@,
            },
            GraphFailure::MissingExtension { path } => GraphFailureView::MissingExtension {
                path: path@,
            },
            GraphFailure::Read { base_path, module } => GraphFailureView::Read {
                base_path: base_path@,
                module: module@,
            },
            GraphFailure::UnknownSourceKind { path } => GraphFailureView::UnknownSourceKind {
                path: path@,
            },
            GraphFailure::Parse { path } => GraphFailureView::Parse { path: path@ },
            GraphFailure::NoParent { importer } => GraphFailureView::NoParent {
                importer: importer@,
            },
        }
    }
}

impl GraphFailureView {
    /// The failure in words. A failed resolution names the importer, the
    /// importee and what the resolver said; a failed read names the base
    /// directory directly followed by the module.
    pub open spec fn message(self) -> Seq<char> {
        match self {
            GraphFailureView::Resolve { importer, importee, message } =>
                "Failed to resolve importer: \""@ + importer + "\", importee: \""@ + importee
                    + "\", message: \""@ + message + "\""@,
            GraphFailureView::Unrelated { path, base_path } => "Failed to relate path: \""@ + path
                + "\", base: \""@ + base_path + "\""@,
            GraphFailureView::MissingExtension { path } => "Failed to get extension of: \""@ + path
                + "\""@,
            GraphFailureView::Read { base_path, module } => "Failed to read file: \""@ + base_path
                + module + "\""@,
            GraphFailureView::UnknownSourceKind { path } => "Failed to get source type of: \""@
                + path + "\""@,
            GraphFailureView::Parse { path } => "Failed to parse file: \""@ + path + "\""@,
            GraphFailureView::NoParent { importer } => "Failed to get parent path of: \""@
                + importer + "\""@,
        }
    }
}

/// Whether `part` stands somewhere in `text`, unbroken.
pub open spec fn occurs_in(part: Seq<char>, text: Seq<char>) -> bool {
    exists|at: int|
        0 <= at && at + part.len() <= text.len() && #[trigger] text.subrange(
            at,
            at + part.len(),
        ) == part
}

/// The words for a failed resolution name the importer and the importee and
/// hold what the resolver said.
pub proof fn lemma_resolve_message_names_both(
    importer: Seq<char>,
    importee: Seq<char>,
    message: Seq<char>,
)
    ensures
        occurs_in(importer, (GraphFailureView::Resolve { importer, importee, message }).message()),
        occurs_in(importee, (GraphFailureView::Resolve { importer, importee, message }).message()),
        occurs_in(message, (GraphFailureView::Resolve { importer, importee, message }).message()),
{
    let text = (GraphFailureView::Resolve { importer, importee, message }).message();
    let opening = "Failed to resolve importer: \""@;
    let middle = "\", importee: \""@;
    let closing = "\", message: \""@;
    let first = opening.len() as int;
    let second = first + importer.len() + middle.len();
    let third = second + importee.len() + closing.len();
    assert(text.subrange(first, first + importer.len()) == importer);
    assert(text.subrange(second, second + importee.len()) == importee);
    assert(text.subrange(third, third + message.len()) == message);
}

/// `opening`, then `subject`, then a closing quote.
fn quoted(opening: &str, subject: &str) -> (text: String)
    ensures
        text@ == opening@ + subject@ + "\""@,
{
    let mut text = String::from_str(opening);
    text.append(subject);
    text.append("\"");
    text
}

impl GraphFailure {
    /// The failure in words.
    pub fn message(&self) -> (text: String)
        ensures
            text@ == self@.message(),
    {
        match self {
            GraphFailure::Resolve { importer, importee, message } => {
                let mut text = String::from_str("Failed to resolve importer: \"");
                text.append(importer.as_str());
                text.append("\", importee: \"");
                text.append(importee.as_str());
                text.append("\", message: \"");
                text.append(message.as_str());
                text.append("\"");
                text
            },
            GraphFailure::Unrelated { path, base_path } => {
                let mut text = String::from_str("Failed to relate path: \"");
                text.append(path.as_str());
                text.append("\", base: \"");
                text.append(base_path.as_str());
                text.append("\"");
                text
            },
            GraphFailure::MissingExtension { path } => quoted(
                "Failed to get extension of: \"",
                path.as_str(),
            ),
            GraphFailure::Read { base_path, module } => {
                let mut text = String::from_str("Failed to read file: \"");
                text.append(base_path.as_str());
                text.append(module.as_str());
                text.append("\"");
                text
            },
            GraphFailure::UnknownSourceKind { path } => quoted(
                "Failed to get source type of: \"",
                path.as_str(),
            ),
            GraphFailure::Parse { path } => quoted("Failed to parse file: \"", path.as_str()),
            GraphFailure::NoParent { importer } => quoted(
                "Failed to get parent path of: \"",
                importer.as_str(),
            ),
        }
    }
}

} // verus!
