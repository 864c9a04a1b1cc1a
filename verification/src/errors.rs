use vstd::prelude::*;

verus! {

/// The ways a resolution can fail. Every failure aborts the whole
/// resolution: no partial document is ever handed back.
#[derive(Clone, Copy, Debug, PartialEq, Eq, Structural)]
pub enum ResolveError {
    /// A referenced file could not be opened or read.
    Io,
    /// A directive opening token was found with no closing `>` after it.
    MalformedDirective,
    /// A directive span holds fewer than two `"` characters, so no
    /// source path can be extracted from it.
    MissingSource,
    /// The extracted source path does not lead to a readable file.
    PathResolution,
    /// The resolution's guard against documents that transitively pull
    /// themselves in: more replacements were needed than the caller
    /// allowed for.
    ExpansionLimit,
}

impl ResolveError {
    /// A short human-readable description of the failure.
    pub fn describe(&self) -> (r: &'static str)
        ensures
            self is Io ==> r@ == "failed to read referenced file"@,
            self is MalformedDirective ==> r@ == "unterminated directive"@,
            self is MissingSource ==> r@ == "No src for element"@,
            self is PathResolution ==> r@ == "cannot resolve referenced path"@,
            self is ExpansionLimit ==> r@ == "too many nested replacements"@,
    {
        match self {
            ResolveError::Io => "failed to read referenced file",
            ResolveError::MalformedDirective => "unterminated directive",
            ResolveError::MissingSource => "No src for element",
            ResolveError::PathResolution => "cannot resolve referenced path",
            ResolveError::ExpansionLimit => "too many nested replacements",
        }
    }
}

} // verus!
