//! The errors of the library.
use vstd::prelude::*;

verus! {

/// Everything that can go wrong in the library.
#[derive(Debug)]
pub enum Error {
    /// An error reported by a service outside the library (environment,
    /// file system, database, dictionary), with its message.
    Outside(String),
    /// The text is not a non-negative decimal number that fits in `usize`.
    InvalidNumber(String),
    /// A cursor position without a `.` between line and column.
    CursorWithoutDot,
    /// The line of a cursor position is not a number.
    InvalidCursorStart,
    /// The column of a cursor position is not a number.
    InvalidCursorEnd,
    /// A range without a `|` before its face.
    RangeWithoutFace,
    /// A range without a `,` between its two ends.
    RangeWithoutComma,
    /// An option that should be `true` or `false`.
    InvalidBoolean(String),
    /// A line of the spelling buffer without `: ` after the path.
    SelectionWithoutPath,
    /// A line of the spelling buffer without a space between range and word.
    SelectionWithoutWord,
    /// A path without an extension.
    NoExtension,
    /// A path without a file name.
    NoFileName,
    /// The selection holds only blanks.
    BlankSelection,
    /// The selection is a word of the dictionary.
    NotAnError(String),
    /// The dictionary has no suggestion.
    NoSuggestions,
    /// The user chose to quit.
    Interrupted,
    /// An extension that was never added.
    UnknownExtension(String),
    /// A file that was never added.
    UnknownFile(String),
    /// A project that already exists.
    ProjectExists(String),
    /// A project that does not exist.
    UnknownProject(String),
    /// An ignore list that does not exist.
    NoSuchList,
    /// Two paths that have no relative path between them.
    CannotDiffPaths(String, String),
    /// `--relative-path` was given without `--project-path`.
    RelativePathWithoutProject,
    /// `--extension` was given with `--project-path`.
    ExtensionWithProject,
    /// Neither a file name, nor a project path and a relative path.
    InvalidSkipArguments,
    /// The check found spelling errors.
    SpellingErrors,
    /// Some errors were skipped during an interactive check.
    SkippedErrors,
    /// A choice that is not handled yet.
    NotImplemented(String),
    /// An answer that is not one of the offered choices.
    UnexpectedAnswer(String),
    /// A word to remove that is not in the global ignore list.
    NotIgnored,
    /// A word to remove that is not in the ignore list of the extension.
    NotIgnoredForExtension,
    /// A word to remove that is not in the ignore list of the path.
    NotIgnoredForPath,
    /// A file name to unskip that is not skipped.
    FileNameNotSkipped,
    /// A path to unskip that is not skipped.
    PathNotSkipped,
}

/// The message of an error, as a sequence of characters.
pub open spec fn message(e: Error) -> Seq<char> {
    match e {
        Error::Outside(m) => m@,
        Error::InvalidNumber(v) => "could not parse '"@ + v@ + "' as a positive number"@,
        Error::CursorWithoutDot => "cursor should contain '.'"@,
        Error::InvalidCursorStart => "could not parse cursor start as an integer"@,
        Error::InvalidCursorEnd => "could not parse cursor end as an integer"@,
        Error::RangeWithoutFace => "range spec should contain a face"@,
        Error::RangeWithoutComma => "range spec should contain ','"@,
        Error::InvalidBoolean(v) => "expected 'true' or 'false', got '"@ + v@ + "'"@,
        Error::SelectionWithoutPath => "line selection should contain :"@,
        Error::SelectionWithoutWord => "expected at least two words after the path name in line selection"@,
        Error::NoExtension => "File has no extension"@,
        Error::NoFileName => "no file name"@,
        Error::BlankSelection => "Selection is blank"@,
        Error::NotAnError(w) => "Selection: `"@ + w@ + "` is not an error"@,
        Error::NoSuggestions => "No suggestions found"@,
        Error::Interrupted => "Interrupted by user"@,
        Error::UnknownExtension(x) => "Unknown ext: "@ + x@,
        Error::UnknownFile(x) => "Unknown file: "@ + x@,
        Error::ProjectExists(p) => "Project in '"@ + p@ + "' already exists"@,
        Error::UnknownProject(p) => "Could not get project ID for "@ + p@,
        Error::NoSuchList => "no such key"@,
        Error::CannotDiffPaths(a, b) => "Could not diff paths '"@ + a@ + "' and '"@ + b@ + "'"@,
        Error::RelativePathWithoutProject => "Cannot use --relative-path without --project-path"@,
        Error::ExtensionWithProject => "--extension is incompatible with --project-path"@,
        Error::InvalidSkipArguments => "Either use --file-name OR --project-path and --relative-path"@,
        Error::SpellingErrors => "Found spelling errors"@,
        Error::SkippedErrors => "Some errors were skipped"@,
        Error::NotImplemented(m) => "Not implemented: "@ + m@,
        Error::UnexpectedAnswer(a) => "Unexpected answer: "@ + a@,
        Error::NotIgnored => "word was not globally ignored"@,
        Error::NotIgnoredForExtension => "word was not in the ignore list for the given extension"@,
        Error::NotIgnoredForPath => "word was not in the ignore list for the given project and path"@,
        Error::FileNameNotSkipped => "this file name was not skipped"@,
        Error::PathNotSkipped => "this path was not skipped"@,
    }
}

/// `a` followed by `b` and `c`.
fn concat3(a: &str, b: &str, c: &str) -> (r: String)
    ensures
        r@ == a@ + b@ + c@,
{
    let s = String::from_str(a);
    let s = s.concat(b);
    s.concat(c)
}

impl Error {
    /// The message of the error.
    pub fn to_string(&self) -> (r: String)
        ensures
            r@ == message(*self),
    {
        match self {
            Error::Outside(m) => m.clone(),
            Error::InvalidNumber(v) => concat3(
                "could not parse '",
                v.as_str(),
                "' as a positive number",
            ),
            Error::CursorWithoutDot => String::from_str("cursor should contain '.'"),
            Error::InvalidCursorStart => String::from_str(
                "could not parse cursor start as an integer",
            ),
            Error::InvalidCursorEnd => String::from_str("could not parse cursor end as an integer"),
            Error::RangeWithoutFace => String::from_str("range spec should contain a face"),
            Error::RangeWithoutComma => String::from_str("range spec should contain ','"),
            Error::InvalidBoolean(v) => concat3(
                "expected 'true' or 'false', got '",
                v.as_str(),
                "'",
            ),
            Error::SelectionWithoutPath => String::from_str("line selection should contain :"),
            Error::SelectionWithoutWord => String::from_str(
                "expected at least two words after the path name in line selection",
            ),
            Error::NoExtension => String::from_str("File has no extension"),
            Error::NoFileName => String::from_str("no file name"),
            Error::BlankSelection => String::from_str("Selection is blank"),
            Error::NotAnError(w) => concat3("Selection: `", w.as_str(), "` is not an error"),
            Error::NoSuggestions => String::from_str("No suggestions found"),
            Error::Interrupted => String::from_str("Interrupted by user"),
            Error::UnknownExtension(x) => String::from_str("Unknown ext: ").concat(x.as_str()),
            Error::UnknownFile(x) => String::from_str("Unknown file: ").concat(x.as_str()),
            Error::ProjectExists(p) => concat3("Project in '", p.as_str(), "' already exists"),
            Error::UnknownProject(p) => String::from_str("Could not get project ID for ").concat(
                p.as_str(),
            ),
            Error::NoSuchList => String::from_str("no such key"),
            Error::CannotDiffPaths(a, b) => {
                let s = concat3("Could not diff paths '", a.as_str(), "' and '");
                s.concat(b.as_str()).concat("'")
            },
            Error::RelativePathWithoutProject => String::from_str(
                "Cannot use --relative-path without --project-path",
            ),
            Error::ExtensionWithProject => String::from_str(
                "--extension is incompatible with --project-path",
            ),
            Error::InvalidSkipArguments => String::from_str(
                "Either use --file-name OR --project-path and --relative-path",
            ),
            Error::SpellingErrors => String::from_str("Found spelling errors"),
            Error::SkippedErrors => String::from_str("Some errors were skipped"),
            Error::NotImplemented(m) => String::from_str("Not implemented: ").concat(m.as_str()),
            Error::UnexpectedAnswer(a) => String::from_str("Unexpected answer: ").concat(a.as_str()),
            Error::NotIgnored => String::from_str("word was not globally ignored"),
            Error::NotIgnoredForExtension => String::from_str(
                "word was not in the ignore list for the given extension",
            ),
            Error::NotIgnoredForPath => String::from_str(
                "word was not in the ignore list for the given project and path",
            ),
            Error::FileNameNotSkipped => String::from_str("this file name was not skipped"),
            Error::PathNotSkipped => String::from_str("this path was not skipped"),
        }
    }
}

} // verus!
