//! What the command-line tools decide: which format a choice stands for,
//! whether the paths of a conversion are acceptable, and in how many places
//! two lists of transactions differ.

use crate::models::{option_text, record_views, TransactionView, YPBankTransaction};
use crate::strings::{chars_eq_str, lowercase, str_to_chars, to_lower};
use crate::supported::YPFormatSupported;
use vstd::prelude::*;

verus! {

/// The format of a file, as chosen on the command line.
#[derive(Debug, Clone, Copy, PartialEq, Eq, Structural)]
pub enum FileFormat {
    /// Comma-separated values (`*.csv`).
    Csv,
    /// The binary format (`*.bin`).
    Bin,
    /// The text-block format (`*.txt`).
    Txt,
}

impl FileFormat {
    /// The library's format that the choice stands for.
    pub open spec fn format(self) -> YPFormatSupported {
        match self {
            FileFormat::Csv => YPFormatSupported::Csv,
            FileFormat::Bin => YPFormatSupported::Binary,
            FileFormat::Txt => YPFormatSupported::Text,
        }
    }

    /// The library's format that the choice stands for.
    pub fn to_parsers_fmt(self) -> (f: YPFormatSupported)
        ensures
            f == self.format(),
    {
        match self {
            FileFormat::Csv => YPFormatSupported::Csv,
            FileFormat::Bin => YPFormatSupported::Binary,
            FileFormat::Txt => YPFormatSupported::Text,
        }
    }

    /// Whether `extension`, in any letter case, is the extension of the
    /// format.
    pub fn matches_extension(self, extension: &str) -> (r: bool)
        ensures
            r == (lowercase(extension@) == self.format().name()),
    {
        let chars = str_to_chars(extension);
        let lower = to_lower(chars.as_slice());
        chars_eq_str(lower.as_slice(), self.to_parsers_fmt().as_str())
    }
}

/// What is known of the two paths of a conversion.
#[derive(Debug, Clone, Copy, PartialEq, Eq, Structural)]
pub struct PathFacts {
    /// The input path and the output path are the same.
    pub same_path: bool,
    /// The input path is an existing file.
    pub input_is_file: bool,
    /// The output path is an existing directory.
    pub output_is_dir: bool,
    /// The output path is an existing file.
    pub output_is_file: bool,
    /// The extension of the output path is that of the output format.
    pub extension_matches: bool,
}

/// Why the paths of a conversion are refused.
#[derive(Debug, Clone, Copy, PartialEq, Eq, Structural)]
pub enum PathFault {
    SamePath,
    InputNotFound,
    OutputIsDirectory,
    OutputExists,
    ExtensionMismatch,
}

/// The verdict on the paths of a conversion. The first of these decides:
/// equal paths, a missing input file, an output path that is a directory, an
/// output file that exists while overwriting is off, and an extension that
/// does not match while matching is strict. Paths that pass come with the
/// note whether the extension should be warned about.
pub open spec fn paths_verdict(facts: PathFacts, no_overwrite: bool, strict_ext: bool) -> Result<
    bool,
    PathFault,
> {
    if facts.same_path {
        Err(PathFault::SamePath)
    } else if !facts.input_is_file {
        Err(PathFault::InputNotFound)
    } else if facts.output_is_dir {
        Err(PathFault::OutputIsDirectory)
    } else if facts.output_is_file && no_overwrite {
        Err(PathFault::OutputExists)
    } else if !facts.extension_matches && strict_ext {
        Err(PathFault::ExtensionMismatch)
    } else {
        Ok(!facts.extension_matches)
    }
}

/// Decides whether the paths of a conversion are acceptable.
pub fn validate_paths(facts: PathFacts, no_overwrite: bool, strict_ext: bool) -> (r: Result<
    bool,
    PathFault,
>)
    ensures
        r == paths_verdict(facts, no_overwrite, strict_ext),
{
    if facts.same_path {
        return Err(PathFault::SamePath);
    }
    if !facts.input_is_file {
        return Err(PathFault::InputNotFound);
    }
    if facts.output_is_dir {
        return Err(PathFault::OutputIsDirectory);
    }
    if facts.output_is_file && no_overwrite {
        return Err(PathFault::OutputExists);
    }
    if !facts.extension_matches {
        if strict_ext {
            return Err(PathFault::ExtensionMismatch);
        }
        return Ok(true);
    }
    Ok(false)
}

impl PathFault {
    /// The message that the user is shown.
    pub open spec fn text(self) -> Seq<char> {
        match self {
            PathFault::SamePath => "The input file and the output file cannot be the same path."@,
            PathFault::InputNotFound => "The input file was not found or is not a valid file."@,
            PathFault::OutputIsDirectory => "The target path must be a file, not a directory."@,
            PathFault::OutputExists =>
                "The output file already exists, and overwriting is disabled by the `--not-overwrite` flag."@,
            PathFault::ExtensionMismatch =>
                "Output file extension does not match the selected format."@,
        }
    }

    /// The message that the user is shown.
    pub fn message(&self) -> (s: &'static str)
        ensures
            s@ == self.text(),
    {
        match self {
            PathFault::SamePath => "The input file and the output file cannot be the same path.",
            PathFault::InputNotFound => "The input file was not found or is not a valid file.",
            PathFault::OutputIsDirectory => "The target path must be a file, not a directory.",
            PathFault::OutputExists =>
                "The output file already exists, and overwriting is disabled by the `--not-overwrite` flag.",
            PathFault::ExtensionMismatch =>
                "Output file extension does not match the selected format.",
        }
    }
}

/// Number of places `i` below `n` at which `left` and `right` differ.
pub open spec fn differing(left: Seq<TransactionView>, right: Seq<TransactionView>, n: int) -> nat
    decreases n,
{
    if n <= 0 {
        0
    } else {
        differing(left, right, n - 1) + if left[n - 1] != right[n - 1] {
            1nat
        } else {
            0nat
        }
    }
}

/// Number of mismatches between two lists: the places at which both hold a
/// transaction and the two differ, and the places that only the longer list
/// has.
pub open spec fn mismatches(left: Seq<TransactionView>, right: Seq<TransactionView>) -> nat {
    if left.len() <= right.len() {
        (differing(left, right, left.len() as int) + (right.len() - left.len())) as nat
    } else {
        (differing(left, right, right.len() as int) + (left.len() - right.len())) as nat
    }
}

/// Whether two optional strings hold the same text, or are both absent.
fn same_description(a: &Option<String>, b: &Option<String>) -> (r: bool)
    ensures
        r == (option_text(*a) == option_text(*b)),
{
    match a {
        Some(x) => match b {
            Some(y) => *x == *y,
            None => false,
        },
        None => match b {
            Some(_) => false,
            None => true,
        },
    }
}

/// Whether two transactions are equal field for field.
pub fn same_transaction(a: &YPBankTransaction, b: &YPBankTransaction) -> (r: bool)
    ensures
        r == (a@ == b@),
{
    a.tx_id == b.tx_id && a.tx_type == b.tx_type && a.from_user_id == b.from_user_id
        && a.to_user_id == b.to_user_id && a.amount == b.amount && a.timestamp == b.timestamp
        && a.status == b.status && same_description(&a.description, &b.description)
}

/// Counts the mismatches between two lists of transactions, place by place.
pub fn compare_sides(left: &[YPBankTransaction], right: &[YPBankTransaction]) -> (count: u64)
    ensures
        count == mismatches(record_views(left@), record_views(right@)),
        count == 0 <==> record_views(left@) == record_views(right@),
{
    let ghost l = record_views(left@);
    let ghost r = record_views(right@);
    let length: usize = if left.len() <= right.len() { left.len() } else { right.len() };
    let mut counter: usize = 0;
    let mut i: usize = 0;
    while i < length
        invariant
            i <= length,
            length <= left.len(),
            length <= right.len(),
            l == record_views(left@),
            r == record_views(right@),
            counter == differing(l, r, i as int),
            counter <= i,
            counter == 0 <==> forall|j: int| 0 <= j < i ==> l[j] == r[j],
        decreases length - i,
    {
        proof {
            assert(l[i as int] == left@[i as int]@);
            assert(r[i as int] == right@[i as int]@);
        }
        if !same_transaction(&left[i], &right[i]) {
            counter += 1;
        }
        i += 1;
    }
    let rest: usize = if left.len() <= right.len() {
        right.len() - left.len()
    } else {
        left.len() - right.len()
    };
    proof {
        assert(l.len() == left.len() && r.len() == right.len());
        if counter == 0 && rest == 0 {
            assert(l =~= r);
        }
        if l == r {
            assert(rest == 0);
            assert(counter == 0);
        }
    }
    (counter + rest) as u64
}

} // verus!
