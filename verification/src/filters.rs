//! File-name filters.
//!
//! A [`FileFilter`] either accepts every name or accepts exactly the names
//! whose extension — the substring after the last `.` — equals a
//! configured string. A name with no `.` has no extension and never
//! matches an extension filter; a configured extension may be written with
//! or without its leading `.` (`".txt"` and `"txt"` mean the same).

use vstd::prelude::*;

verus! {

/// The substring of `name` after its last `.`, or `None` when `name`
/// holds no `.` at all.
pub open spec fn suffix_after_last_dot(name: Seq<char>) -> Option<Seq<char>>
    decreases name.len(),
{
    if name.len() == 0 {
        None
    } else if name.last() == '.' {
        Some(Seq::empty())
    } else {
        match suffix_after_last_dot(name.drop_last()) {
            Some(s) => Some(s.push(name.last())),
            None => None,
        }
    }
}

/// A configured extension with one leading `.` removed, so that `".txt"`
/// and `"txt"` configure the same filter.
pub open spec fn normalized_ext(ext: Seq<char>) -> Seq<char> {
    if ext.len() > 0 && ext[0] == '.' {
        ext.skip(1)
    } else {
        ext
    }
}

/// When `name[j]` is the last `.` of `name`, the extension is exactly the
/// characters after position `j`.
proof fn lemma_suffix_from_last_dot(name: Seq<char>, j: int)
    requires
        0 <= j < name.len(),
        name[j] == '.',
        forall|k: int| j < k < name.len() ==> name[k] != '.',
    ensures
        suffix_after_last_dot(name) == Some(name.subrange(j + 1, name.len() as int)),
    decreases name.len(),
{
    if j == name.len() - 1 {
        assert(name.subrange(j + 1, name.len() as int) =~= Seq::<char>::empty());
    } else {
        let shorter = name.drop_last();
        lemma_suffix_from_last_dot(shorter, j);
        assert(shorter.subrange(j + 1, shorter.len() as int).push(name.last()) =~= name.subrange(
            j + 1,
            name.len() as int,
        ));
    }
}

/// A name with no `.` has no extension.
proof fn lemma_suffix_none(name: Seq<char>)
    requires
        forall|k: int| 0 <= k < name.len() ==> name[k] != '.',
    ensures
        suffix_after_last_dot(name) is None,
    decreases name.len(),
{
    if name.len() > 0 {
        lemma_suffix_none(name.drop_last());
    }
}

/// Accepts the names whose extension equals the configured string.
#[derive(Clone, Debug)]
pub struct ExtensionFilter {
    pub ext: String,
}

impl ExtensionFilter {
    /// Builds the filter, dropping one leading `.` from the configured
    /// extension if it carries one.
    pub fn new(ext: &str) -> (r: ExtensionFilter)
        ensures
            r.ext@ == normalized_ext(ext@),
    {
        let len = ext.unicode_len();
        if len > 0 && ext.get_char(0) == '.' {
            ExtensionFilter { ext: ext.substring_char(1, len).to_owned() }
        } else {
            ExtensionFilter { ext: ext.to_owned() }
        }
    }

    /// True exactly when the substring of `file_name` after its last `.`
    /// equals the configured extension; a name with no `.` never matches.
    pub fn apply(&self, file_name: &str) -> (r: bool)
        ensures
            r == (suffix_after_last_dot(file_name@) == Some(self.ext@)),
    {
        let len = file_name.unicode_len();
        let mut last_dot: Option<usize> = None;
        let mut i: usize = 0;
        while i < len
            invariant
                len == file_name@.len(),
                0 <= i <= len,
                match last_dot {
                    Some(j) => j < i && file_name@[j as int] == '.' && forall|k: int|
                        j < k < i ==> file_name@[k] != '.',
                    None => forall|k: int| 0 <= k < i ==> file_name@[k] != '.',
                },
            decreases len - i,
        {
            if file_name.get_char(i) == '.' {
                last_dot = Some(i);
            }
            i = i + 1;
        }
        match last_dot {
            None => {
                proof {
                    lemma_suffix_none(file_name@);
                }
                false
            },
            Some(j) => {
                proof {
                    lemma_suffix_from_last_dot(file_name@, j as int);
                }
                let suffix = file_name.substring_char(j + 1, len).to_owned();
                self.ext.eq(&suffix)
            },
        }
    }
}

/// A predicate over a file name: accept every name, or accept exactly the
/// names with a given extension.
#[derive(Clone, Debug)]
pub enum FileFilter {
    AcceptAll,
    Extension(ExtensionFilter),
}

impl FileFilter {
    /// Whether the filter accepts `name`.
    pub open spec fn spec_matches(&self, name: Seq<char>) -> bool {
        match self {
            FileFilter::AcceptAll => true,
            FileFilter::Extension(f) => suffix_after_last_dot(name) == Some(f.ext@),
        }
    }

    /// Applies the filter to one file name.
    pub fn apply(&self, file_name: &str) -> (r: bool)
        ensures
            r == self.spec_matches(file_name@),
    {
        match self {
            FileFilter::AcceptAll => true,
            FileFilter::Extension(filter) => filter.apply(file_name),
        }
    }

    /// Builds the filter that accepts exactly the names with extension
    /// `ext` (written with or without its leading `.`).
    pub fn extension(ext: &str) -> (r: FileFilter)
        ensures
            r matches FileFilter::Extension(f) && f.ext@ == normalized_ext(ext@),
    {
        FileFilter::Extension(ExtensionFilter::new(ext))
    }
}

} // verus!
