//! The skip filter applied to test fixture files: a fixture is skipped
//! when its directory maps the file name directly, or when one of the
//! directory's regular-expression patterns matches it.

use vstd::prelude::*;

verus! {

/// Whether the pattern is a valid regular expression.
pub uninterp spec fn regex_valid(pattern: Seq<char>) -> bool;

/// Whether the pattern, read as a regular expression, matches the text.
pub uninterp spec fn regex_match_of(pattern: Seq<char>, text: Seq<char>) -> bool;

/// Relies on `regex::Regex::new` and `regex::Regex::is_match`: whether the
/// pattern, read as a regular expression, matches the text; `None` exactly
/// when the pattern is not a valid regular expression. Both results are
/// functions of the two strings alone.
#[verifier::external_body]
fn regex_matches(pattern: &str, text: &str) -> (r: Option<bool>)
    ensures
        (r is Some) == regex_valid(pattern@),
        r matches Some(b) ==> b == regex_match_of(pattern@, text@),
{
    match regex::Regex::new(pattern) {
        Ok(re) => Some(re.is_match(text)),
        Err(_) => None,
    }
}

/// The list holds the file name.
pub open spec fn list_has_name(list: Seq<String>, file: Seq<char>) -> bool {
    exists|j: int| 0 <= j < list.len() && (#[trigger] list[j])@ == file
}

/// Some entry for the directory lists the file name.
pub open spec fn name_skipped(entries: Seq<(String, Vec<String>)>, dir: Seq<char>, file: Seq<char>) -> bool {
    exists|i: int|
        0 <= i < entries.len() && (#[trigger] entries[i]).0@ == dir && list_has_name(
            entries[i].1@,
            file,
        )
}

/// Some valid pattern of the list matches the file name.
pub open spec fn list_regex_match(list: Seq<String>, file: Seq<char>) -> bool {
    exists|j: int|
        0 <= j < list.len() && regex_valid((#[trigger] list[j])@) && regex_match_of(
            list[j]@,
            file,
        )
}

/// Every pattern of the list is a valid regular expression.
pub open spec fn list_all_valid(list: Seq<String>) -> bool {
    forall|j: int| 0 <= j < list.len() ==> regex_valid((#[trigger] list[j])@)
}

/// Some entry for the directory has a valid pattern matching the file.
pub open spec fn regex_skipped(entries: Seq<(String, Vec<String>)>, dir: Seq<char>, file: Seq<char>) -> bool {
    exists|i: int|
        0 <= i < entries.len() && (#[trigger] entries[i]).0@ == dir && list_regex_match(
            entries[i].1@,
            file,
        )
}

/// Every pattern of every entry for the directory is valid.
pub open spec fn regexes_all_valid(entries: Seq<(String, Vec<String>)>, dir: Seq<char>) -> bool {
    forall|i: int|
        0 <= i < entries.len() && (#[trigger] entries[i]).0@ == dir ==> list_all_valid(
            entries[i].1@,
        )
}

/// A fixture is skipped when its directory lists its name, or a pattern
/// of its directory matches its name.
pub open spec fn spec_skipped(filter: Filter, dir: Seq<char>, file: Seq<char>) -> bool {
    name_skipped(filter.filename@, dir, file) || regex_skipped(filter.regex@, dir, file)
}

/// The filter applied to the test fixture files.
pub struct Filter {
    /// Directories mapped to the file names that are skipped.
    pub filename: Vec<(String, Vec<String>)>,
    /// Directories mapped to the patterns whose matches are skipped.
    pub regex: Vec<(String, Vec<String>)>,
}

impl Filter {
    pub fn new(filename: Vec<(String, Vec<String>)>, regex: Vec<(String, Vec<String>)>) -> (r:
        Filter)
        ensures
            r.filename == filename,
            r.regex == regex,
    {
        Filter { filename, regex }
    }

    /// Whether the file at `dir_name`/`file_name` is skipped:
    /// `Some(true)` or `Some(false)` as [`spec_skipped`] says, `None` only
    /// when an invalid pattern had to be consulted before a decision.
    pub fn is_skipped(&self, dir_name: &String, file_name: &String) -> (r: Option<bool>)
        ensures
            name_skipped(self.filename@, dir_name@, file_name@) ==> r == Some(true),
            r matches Some(b) ==> (!name_skipped(self.filename@, dir_name@, file_name@) ==> b
                == regex_skipped(self.regex@, dir_name@, file_name@)),
            (r is None) ==> !regexes_all_valid(self.regex@, dir_name@),
            regexes_all_valid(self.regex@, dir_name@) ==> (r is Some),
            r matches Some(b) ==> b == spec_skipped(*self, dir_name@, file_name@),
    {
        if Self::find_name_skip(&self.filename, dir_name, file_name) {
            return Some(true);
        }
        Self::regex_scan(&self.regex, dir_name, file_name)
    }

    /// Whether some entry for the directory lists the file name.
    fn find_name_skip(entries: &Vec<(String, Vec<String>)>, dir: &String, file: &String) -> (r:
        bool)
        ensures
            r == name_skipped(entries@, dir@, file@),
    {
        let mut i: usize = 0;
        while i < entries.len()
            invariant
                0 <= i <= entries@.len(),
                forall|k: int|
                    0 <= k < i ==> !((#[trigger] entries@[k]).0@ == dir@ && list_has_name(
                        entries@[k].1@,
                        file@,
                    )),
            decreases entries@.len() - i,
        {
            let entry = &entries[i];
            if entry.0 == *dir {
                let list = &entry.1;
                let mut j: usize = 0;
                while j < list.len()
                    invariant
                        0 <= j <= list@.len(),
                        0 <= i < entries@.len(),
                        entries@[i as int].0@ == dir@,
                        *list == entries@[i as int].1,
                        forall|k: int| 0 <= k < j ==> (#[trigger] list@[k])@ != file@,
                    decreases list@.len() - j,
                {
                    if list[j] == *file {
                        proof {
                            assert(list_has_name(list@, file@));
                        }
                        return true;
                    }
                    j = j + 1;
                }
            }
            i = i + 1;
        }
        false
    }

    /// Scans the directory's pattern lists in order.
    fn regex_scan(entries: &Vec<(String, Vec<String>)>, dir: &String, file: &String) -> (r:
        Option<bool>)
        ensures
            r matches Some(b) ==> b == regex_skipped(entries@, dir@, file@),
            (r is None) ==> !regexes_all_valid(entries@, dir@),
            regexes_all_valid(entries@, dir@) ==> (r is Some),
    {
        let mut i: usize = 0;
        while i < entries.len()
            invariant
                0 <= i <= entries@.len(),
                forall|k: int|
                    0 <= k < i && (#[trigger] entries@[k]).0@ == dir@ ==> (list_all_valid(
                        entries@[k].1@,
                    ) && !list_regex_match(entries@[k].1@, file@)),
            decreases entries@.len() - i,
        {
            let entry = &entries[i];
            if entry.0 == *dir {
                let list = &entry.1;
                let mut j: usize = 0;
                while j < list.len()
                    invariant
                        0 <= j <= list@.len(),
                        0 <= i < entries@.len(),
                        entries@[i as int].0@ == dir@,
                        *list == entries@[i as int].1,
                        forall|k: int|
                            0 <= k < j ==> (regex_valid((#[trigger] list@[k])@)
                                && !regex_match_of(list@[k]@, file@)),
                    decreases list@.len() - j,
                {
                    match regex_matches(list[j].as_str(), file.as_str()) {
                        None => {
                            proof {
                                assert(!list_all_valid(list@));
                                assert(!regexes_all_valid(entries@, dir@));
                            }
                            return None;
                        },
                        Some(true) => {
                            proof {
                                assert(list_regex_match(list@, file@));
                                assert(regex_skipped(entries@, dir@, file@));
                            }
                            return Some(true);
                        },
                        Some(false) => {},
                    }
                    j = j + 1;
                }
            }
            i = i + 1;
        }
        proof {
            if regex_skipped(entries@, dir@, file@) {
                let k = choose|k: int|
                    0 <= k < entries@.len() && (#[trigger] entries@[k]).0@ == dir@
                        && list_regex_match(entries@[k].1@, file@);
                assert(false);
            }
        }
        Some(false)
    }
}

} // verus!
