//! Where the work log is kept.

use vstd::prelude::*;
use vstd::string::StringExecFns;

verus! {

/// What the command line says of the place of the log.
#[derive(Clone, Debug)]
pub struct Args {
    /// Where to save the log file.
    pub log_to: String,
}

/// One of the two drives that can hold the log.
#[derive(Clone, Copy, Debug, PartialEq, Eq, Structural)]
pub enum LogLocation {
    C,
    D,
}

/// The lower-case form that `str::to_lowercase` gives a text.
pub uninterp spec fn lowercase(text: Seq<char>) -> Seq<char>;

/// `str::to_lowercase` turns each character into its lower-case form as
/// Unicode defines it. The result is a function of the text alone; it is
/// named `lowercase` and nothing more is claimed of it.
pub assume_specification[ str::to_lowercase ](s: &str) -> (lower: String)
    ensures
        lower@ == lowercase(s@),
;

impl LogLocation {
    /// The drive that `s` names: `C` for a text whose lower-case form is
    /// `c`, and `D` for every other text.
    pub open spec fn named_by(s: Seq<char>) -> LogLocation {
        if lowercase(s) == seq!['c'] {
            LogLocation::C
        } else {
            LogLocation::D
        }
    }

    /// The drive that `s` names. Every text names one: what is not `c`, in
    /// either case, names `D`.
    pub fn from_str(s: &str) -> (location: LogLocation)
        ensures
            location == Self::named_by(s@),
    {
        let lower = s.to_lowercase();
        LogLocation::from_lowercase(lower.as_str())
    }

    /// The drive that a text names whose lower-case form is `lower`.
    pub fn from_lowercase(lower: &str) -> (location: LogLocation)
        ensures
            location == if lower@ == seq!['c'] {
                LogLocation::C
            } else {
                LogLocation::D
            },
    {
        if lower.unicode_len() == 1 && lower.get_char(0) == 'c' {
            assert(lower@ =~= seq!['c']);
            LogLocation::C
        } else {
            LogLocation::D
        }
    }
}

/// The path of the log on the given drive.
pub fn get_log_path(location: LogLocation) -> (path: String)
    ensures
        path@ == match location {
            LogLocation::C => "C:\\focus_log.txt"@,
            LogLocation::D => "D:\\focus_log.txt"@,
        },
{
    match location {
        LogLocation::C => String::from_str("C:\\focus_log.txt"),
        LogLocation::D => String::from_str("D:\\focus_log.txt"),
    }
}

/// The name of the log inside a directory.
pub open spec fn default_log_name() -> Seq<char> {
    "focus_log.txt"@
}

/// The file that holds the log for a configured path: the path itself, or
/// the log's default name inside it where the path ends in a separator or
/// is known to be a directory.
pub open spec fn log_file(path: Seq<char>, is_directory: bool, separator: char) -> Seq<char> {
    if path.len() > 0 && path.last() == separator {
        path + default_log_name()
    } else if is_directory {
        path.push(separator) + default_log_name()
    } else {
        path
    }
}

/// The file to write the log to, for the configured `path`.
///
/// The caller says whether the path is a directory on disk and which
/// character separates the parts of a path on this system.
pub fn log_file_path(path: &str, is_directory: bool, separator: char) -> (file: String)
    ensures
        file@ == log_file(path@, is_directory, separator),
{
    let n = path.unicode_len();
    let mut file = String::from_str(path);
    if n > 0 && path.get_char(n - 1) == separator {
        file.append("focus_log.txt");
    } else if is_directory {
        file.push(separator);
        file.append("focus_log.txt");
    }
    file
}

} // verus!
