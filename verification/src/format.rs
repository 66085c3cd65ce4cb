//! The file formats that a load can read.

use crate::text::chars_of;
use vstd::prelude::*;

verus! {

/// The format of the source.
#[derive(Clone, Copy, Debug, PartialEq, Eq, Structural)]
pub enum FileFormat {
    /// Records of comma-separated values, one to a line.
    CSV,
}

/// What `from_str` answers to a name that is no format.
pub open spec fn unknown_format_text() -> Seq<char> {
    "no match for profile"@
}

impl FileFormat {
    /// The format that `s` names: `csv`, in exactly this spelling, names [`FileFormat::CSV`],
    /// and nothing else names a format.
    pub fn from_str(s: &str) -> (out: Result<FileFormat, &'static str>)
        ensures
            match out {
                Ok(format) => s@ == "csv"@ && format == FileFormat::CSV,
                Err(message) => s@ != "csv"@ && message@ == unknown_format_text(),
            },
    {
        proof {
            reveal_strlit("csv");
        }
        let name = chars_of(s);
        if name.len() == 3 && name[0] == 'c' && name[1] == 's' && name[2] == 'v' {
            Ok(FileFormat::CSV)
        } else {
            Err("no match for profile")
        }
    }
}

} // verus!
