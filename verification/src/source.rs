//! Where the lines of a load come from.

use crate::error::{ErrorKind, LoadError};
use crate::text::{begins_with, starts_with};
use vstd::prelude::*;
use vstd::string::*;

verus! {

/// The origin of a load's lines.
#[derive(Clone, Debug, PartialEq, Eq)]
pub enum SourceSpec {
    /// A file at this path of the local file system.
    LocalPath(String),
    /// The body of the response that fetching this address gives.
    RemoteUrl(String),
    /// The standard input of the process.
    Stdin,
}

/// What a [`SourceSpec`] stands for.
pub enum SourceView {
    LocalPath(Seq<char>),
    RemoteUrl(Seq<char>),
    Stdin,
}

impl View for SourceSpec {
    type V = SourceView;

    open spec fn view(&self) -> SourceView {
        match self {
            SourceSpec::LocalPath(path) => SourceView::LocalPath(path@),
            SourceSpec::RemoteUrl(url) => SourceView::RemoteUrl(url@),
            SourceSpec::Stdin => SourceView::Stdin,
        }
    }
}

/// Whether `text` is the address of a remote source: it begins with `http://` or `https://`.
pub open spec fn is_url(text: Seq<char>) -> bool {
    begins_with(text, "http://"@) || begins_with(text, "https://"@)
}

/// The text shown for a source that names neither a file that is there nor an address.
pub open spec fn missing_source_text(name: Seq<char>) -> Seq<char> {
    "cannot open file: "@ + name + " does not exist"@
}

/// The source that the argument `load` names. None names the standard input. A path that
/// exists, which the caller has looked up, names a file, whatever it looks like. Otherwise
/// an address names a remote source, and anything else is a path that is not there.
pub open spec fn source_of(load: Option<Seq<char>>, path_exists: bool) -> Option<SourceView> {
    match load {
        None => Some(SourceView::Stdin),
        Some(name) => if path_exists {
            Some(SourceView::LocalPath(name))
        } else if is_url(name) {
            Some(SourceView::RemoteUrl(name))
        } else {
            None
        },
    }
}

impl SourceSpec {
    /// Resolves the argument `load` into a source. `path_exists` says whether `load`, taken as
    /// a path, exists in the local file system; it is not looked at where `load` is `None`.
    pub fn resolve(load: Option<&str>, path_exists: bool) -> (out: Result<SourceSpec, LoadError>)
        ensures
            match out {
                Ok(source) => source_of(load.deep_view(), path_exists) == Some(source@),
                Err(error) => source_of(load.deep_view(), path_exists) is None && error.kind
                    == ErrorKind::Source && error.message@ == missing_source_text(load->0@),
            },
    {
        match load {
            None => Ok(SourceSpec::Stdin),
            Some(name) => {
                if path_exists {
                    Ok(SourceSpec::LocalPath(String::from_str(name)))
                } else if starts_with(name, "http://") || starts_with(name, "https://") {
                    Ok(SourceSpec::RemoteUrl(String::from_str(name)))
                } else {
                    let mut message = String::from_str("cannot open file: ");
                    message.append(name);
                    message.append(" does not exist");
                    Err(LoadError::source(message))
                }
            },
        }
    }
}

} // verus!
