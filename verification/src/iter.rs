//! Enumeration of candidate file paths.
//!
//! The enumerator is a state machine driven by its caller. Single-file
//! mode yields its one configured path and is then exhausted. Tree mode
//! keeps an explicit stack of pending directories and a buffer of matched
//! file paths: each [`FileNames::next_step`] call either yields a buffered
//! path, asks the caller to list the next pending directory, or signals
//! exhaustion. The caller performs the listing and hands its entries back
//! through [`FileNames::accept_entries`], which buffers exactly the file
//! entries the filter accepts and stacks the sub-directories when
//! recursion is on; every other entry kind is skipped. Directories whose
//! listing fails are simply never fed back, which skips them.

use vstd::prelude::*;
use crate::filters::FileFilter;

verus! {

/// What kind of filesystem object a directory entry is.
#[derive(Clone, Copy, Debug, PartialEq, Eq, Structural)]
pub enum EntryKind {
    File,
    Dir,
    Other,
}

/// One entry of a directory listing, as the caller saw it: the entry's
/// full path and its kind.
#[derive(Clone, Debug)]
pub struct ListingEntry {
    pub path: String,
    pub kind: EntryKind,
}

/// What the enumeration asks of its caller next: use a yielded file path,
/// list a directory and feed the entries back, or stop.
#[derive(Debug)]
pub enum Step {
    Yield(String),
    ListDir(String),
    Done,
}

/// The views of a vector of path strings.
pub open spec fn paths_view(v: Seq<String>) -> Seq<Seq<char>> {
    v.map_values(|s: String| s@)
}

/// The paths of the file entries that the filter accepts, in listing
/// order.
pub open spec fn matching_files(entries: Seq<ListingEntry>, filter: FileFilter) -> Seq<Seq<char>>
    decreases entries.len(),
{
    if entries.len() == 0 {
        Seq::empty()
    } else {
        matching_files(entries.drop_last(), filter) + (if entries.last().kind is File
            && filter.spec_matches(entries.last().path@) {
            seq![entries.last().path@]
        } else {
            Seq::empty()
        })
    }
}

/// The paths of the directory entries, in listing order.
pub open spec fn sub_dirs(entries: Seq<ListingEntry>) -> Seq<Seq<char>>
    decreases entries.len(),
{
    if entries.len() == 0 {
        Seq::empty()
    } else {
        sub_dirs(entries.drop_last()) + (if entries.last().kind is Dir {
            seq![entries.last().path@]
        } else {
            Seq::empty()
        })
    }
}

/// Single-file mode: yields its one path, then signals exhaustion.
#[derive(Debug)]
pub struct SingleFileName {
    pub file_name: Option<String>,
}

/// Tree mode: a stack of pending directories (`cur_dir` is the root while
/// still unvisited), a buffer of matched file paths, the filter, and the
/// recursion flag.
#[derive(Debug)]
pub struct MultipleFileNames {
    pub cur_dir: Option<String>,
    pub filter: FileFilter,
    pub all_dirs: Vec<String>,
    pub cur_dir_files: Vec<String>,
    pub recursive: bool,
}

/// How one decision step changes a single-file enumerator: the pending
/// path, if any, is yielded and cleared; afterwards every step is `Done`.
pub open spec fn single_step_spec(pre: SingleFileName, post: SingleFileName, r: Step) -> bool {
    &&& post.file_name is None
    &&& match pre.file_name {
        Some(f) => r == Step::Yield(f),
        None => r is Done,
    }
}

/// How one decision step changes a tree-mode enumerator. The pending root
/// is first absorbed into the directory stack; then a buffered file path
/// is yielded from the top of the buffer, or, with an empty buffer, the
/// top pending directory is handed out for listing, or, with both empty,
/// the enumeration is done.
pub open spec fn tree_step_spec(pre: MultipleFileNames, post: MultipleFileNames, r: Step) -> bool {
    let dirs0 = match pre.cur_dir {
        Some(root) => pre.all_dirs@.push(root),
        None => pre.all_dirs@,
    };
    &&& post.filter == pre.filter
    &&& post.recursive == pre.recursive
    &&& post.cur_dir is None
    &&& match r {
        Step::Yield(p) => {
            &&& pre.cur_dir_files@.len() > 0
            &&& p == pre.cur_dir_files@.last()
            &&& post.cur_dir_files@ == pre.cur_dir_files@.drop_last()
            &&& post.all_dirs@ == dirs0
        },
        Step::ListDir(d) => {
            &&& pre.cur_dir_files@.len() == 0
            &&& dirs0.len() > 0
            &&& d == dirs0.last()
            &&& post.all_dirs@ == dirs0.drop_last()
            &&& post.cur_dir_files@.len() == 0
        },
        Step::Done => {
            &&& pre.cur_dir_files@.len() == 0
            &&& dirs0.len() == 0
            &&& post.all_dirs@.len() == 0
            &&& post.cur_dir_files@.len() == 0
        },
    }
}

/// How feeding one directory's listing changes a tree-mode enumerator:
/// the buffer gains exactly the file entries the filter accepts, in
/// listing order; the stack gains exactly the sub-directories when
/// recursion is on and nothing otherwise; no other entry leaves a trace.
pub open spec fn tree_accept_spec(
    pre: MultipleFileNames,
    post: MultipleFileNames,
    entries: Seq<ListingEntry>,
) -> bool {
    &&& post.filter == pre.filter
    &&& post.recursive == pre.recursive
    &&& post.cur_dir == pre.cur_dir
    &&& paths_view(post.cur_dir_files@) == paths_view(pre.cur_dir_files@) + matching_files(
        entries,
        pre.filter,
    )
    &&& paths_view(post.all_dirs@) == paths_view(pre.all_dirs@) + (if pre.recursive {
        sub_dirs(entries)
    } else {
        Seq::<Seq<char>>::empty()
    })
}

/// The directories a tree-mode enumerator has still to visit, topmost
/// last, the pending root on top.
pub open spec fn pending_dirs_view(m: MultipleFileNames) -> Seq<Seq<char>> {
    paths_view(m.all_dirs@) + (match m.cur_dir {
        Some(root) => seq![root@],
        None => Seq::<Seq<char>>::empty(),
    })
}

/// The views of a sequence of directory listings.
pub open spec fn listings_view(listings: Seq<Vec<ListingEntry>>) -> Seq<Seq<ListingEntry>> {
    listings.map_values(|v: Vec<ListingEntry>| v@)
}

/// Every file path a tree-mode enumeration yields over a whole run, when
/// its k-th directory listing is answered with `listings[k]`: from each
/// listing exactly the file entries the filter accepts — never a
/// directory entry — and from the sub-directories only when recursion is
/// on. Listings that are never answered (`listings` too short) contribute
/// nothing, like directories whose listing failed.
pub open spec fn run_yields(
    dirs: Seq<Seq<char>>,
    listings: Seq<Seq<ListingEntry>>,
    filter: FileFilter,
    recursive: bool,
) -> Seq<Seq<char>>
    decreases listings.len(),
{
    if dirs.len() == 0 || listings.len() == 0 {
        Seq::empty()
    } else {
        let entries = listings.first();
        let rest_dirs = dirs.drop_last() + (if recursive {
            sub_dirs(entries)
        } else {
            Seq::<Seq<char>>::empty()
        });
        matching_files(entries, filter).reverse() + run_yields(
            rest_dirs,
            listings.drop_first(),
            filter,
            recursive,
        )
    }
}

impl SingleFileName {
    /// An enumerator that will yield exactly `file_name`, once.
    pub fn new(file_name: String) -> (r: SingleFileName)
        ensures
            r.file_name == Some(file_name),
    {
        SingleFileName { file_name: Some(file_name) }
    }
}

impl MultipleFileNames {
    /// Decides the next move of the tree-mode enumeration.
    pub fn next_step(&mut self) -> (r: Step)
        ensures
            tree_step_spec(*old(self), *final(self), r),
    {
        let pending = self.cur_dir.take();
        if let Some(dir) = pending {
            self.all_dirs.push(dir);
        }
        match self.cur_dir_files.pop() {
            Some(file) => Step::Yield(file),
            None => match self.all_dirs.pop() {
                Some(dir) => Step::ListDir(dir),
                None => Step::Done,
            },
        }
    }

    /// Takes one directory's listing: buffers the accepted file entries,
    /// stacks the sub-directories when recursion is on, skips the rest.
    pub fn accept_entries(&mut self, entries: &Vec<ListingEntry>)
        ensures
            tree_accept_spec(*old(self), *final(self), entries@),
    {
        let mut i: usize = 0;
        proof {
            assert(entries@.subrange(0, 0) =~= Seq::<ListingEntry>::empty());
            assert(paths_view(self.cur_dir_files@) + Seq::<Seq<char>>::empty() =~= paths_view(
                self.cur_dir_files@,
            ));
            assert(paths_view(self.all_dirs@) + Seq::<Seq<char>>::empty() =~= paths_view(
                self.all_dirs@,
            ));
        }
        while i < entries.len()
            invariant
                0 <= i <= entries@.len(),
                self.filter == old(self).filter,
                self.recursive == old(self).recursive,
                self.cur_dir == old(self).cur_dir,
                paths_view(self.cur_dir_files@) == paths_view(old(self).cur_dir_files@)
                    + matching_files(entries@.subrange(0, i as int), old(self).filter),
                paths_view(self.all_dirs@) == paths_view(old(self).all_dirs@) + (if old(
                    self,
                ).recursive {
                    sub_dirs(entries@.subrange(0, i as int))
                } else {
                    Seq::<Seq<char>>::empty()
                }),
            decreases entries@.len() - i,
        {
            proof {
                assert(entries@.subrange(0, i + 1).drop_last() =~= entries@.subrange(0, i as int));
                assert(entries@.subrange(0, i + 1).last() == entries@[i as int]);
            }
            let entry = &entries[i];
            let ghost files0 = self.cur_dir_files@;
            let ghost dirs0 = self.all_dirs@;
            match entry.kind {
                EntryKind::Dir => {
                    if self.recursive {
                        self.all_dirs.push(entry.path.clone());
                        proof {
                            assert(paths_view(self.all_dirs@) =~= paths_view(dirs0).push(
                                entry.path@,
                            ));
                            assert(paths_view(old(self).all_dirs@) + sub_dirs(
                                entries@.subrange(0, i + 1),
                            ) =~= paths_view(self.all_dirs@));
                        }
                    }
                },
                EntryKind::File => {
                    if self.filter.apply(entry.path.as_str()) {
                        self.cur_dir_files.push(entry.path.clone());
                        proof {
                            assert(paths_view(self.cur_dir_files@) =~= paths_view(files0).push(
                                entry.path@,
                            ));
                            assert(paths_view(old(self).cur_dir_files@) + matching_files(
                                entries@.subrange(0, i + 1),
                                old(self).filter,
                            ) =~= paths_view(self.cur_dir_files@));
                        }
                    }
                },
                EntryKind::Other => {},
            }
            proof {
                assert(matching_files(entries@.subrange(0, i + 1), old(self).filter)
                    =~= matching_files(entries@.subrange(0, i as int), old(self).filter) + (if entries@[i as int].kind is File
                    && old(self).filter.spec_matches(entries@[i as int].path@) {
                    seq![entries@[i as int].path@]
                } else {
                    Seq::<Seq<char>>::empty()
                }));
                assert(sub_dirs(entries@.subrange(0, i + 1)) =~= sub_dirs(
                    entries@.subrange(0, i as int),
                ) + (if entries@[i as int].kind is Dir {
                    seq![entries@[i as int].path@]
                } else {
                    Seq::<Seq<char>>::empty()
                }));
                if !(entries@[i as int].kind is File && old(self).filter.spec_matches(
                    entries@[i as int].path@,
                )) {
                    assert(paths_view(self.cur_dir_files@) =~= paths_view(old(self).cur_dir_files@)
                        + matching_files(entries@.subrange(0, i + 1), old(self).filter));
                }
                if !(entries@[i as int].kind is Dir && old(self).recursive) {
                    assert(paths_view(self.all_dirs@) =~= paths_view(old(self).all_dirs@) + (if old(
                        self,
                    ).recursive {
                        sub_dirs(entries@.subrange(0, i + 1))
                    } else {
                        Seq::<Seq<char>>::empty()
                    }));
                }
            }
            i = i + 1;
        }
        proof {
            assert(entries@.subrange(0, entries@.len() as int) =~= entries@);
        }
    }

    /// Runs the enumeration to exhaustion as a pure simulation of the
    /// caller's loop: the k-th directory listing the enumeration asks for
    /// is answered with `listings[k]`, and a listing with no answer left
    /// stands for one that failed and was skipped. The returned paths are
    /// the already buffered ones followed by exactly [`run_yields`] of the
    /// pending directories and the listings: the whole-run form of the
    /// per-step contracts.
    pub fn run_to_end(self, listings: &Vec<Vec<ListingEntry>>) -> (r: Vec<String>)
        ensures
            paths_view(r@) == paths_view(self.cur_dir_files@).reverse() + run_yields(
                pending_dirs_view(self),
                listings_view(listings@),
                self.filter,
                self.recursive,
            ),
    {
        let ghost lv = listings_view(listings@);
        let ghost total = paths_view(self.cur_dir_files@).reverse() + run_yields(
            pending_dirs_view(self),
            lv,
            self.filter,
            self.recursive,
        );
        let mut m = self;
        let mut yielded: Vec<String> = Vec::new();
        let mut next: usize = 0;
        proof {
            assert(lv.skip(0) =~= lv);
            assert(paths_view(yielded@) =~= Seq::<Seq<char>>::empty());
            assert(paths_view(yielded@) + (paths_view(m.cur_dir_files@).reverse() + run_yields(
                pending_dirs_view(m),
                lv.skip(0),
                m.filter,
                m.recursive,
            )) =~= total);
        }
        loop
            invariant
                m.filter == self.filter,
                m.recursive == self.recursive,
                next <= listings@.len(),
                lv == listings_view(listings@),
                lv.len() == listings@.len(),
                paths_view(yielded@) + (paths_view(m.cur_dir_files@).reverse() + run_yields(
                    pending_dirs_view(m),
                    lv.skip(next as int),
                    m.filter,
                    m.recursive,
                )) == total,
            ensures
                paths_view(yielded@) == total,
            decreases
                    listings@.len() - next,
                    pending_dirs_view(m).len() + m.cur_dir_files@.len(),
        {
            let ghost pre = m;
            let ghost dirs0 = pending_dirs_view(pre);
            let ghost files0 = paths_view(pre.cur_dir_files@);
            let ghost yielded0 = paths_view(yielded@);
            let ghost rest = lv.skip(next as int);
            match m.next_step() {
                Step::Yield(path) => {
                    proof {
                        assert(pending_dirs_view(m) =~= dirs0);
                        assert(paths_view(m.cur_dir_files@) =~= files0.drop_last());
                        assert(path@ == files0.last());
                    }
                    yielded.push(path);
                    proof {
                        assert(paths_view(yielded@) =~= yielded0.push(files0.last()));
                        assert(yielded0.push(files0.last()) + (files0.drop_last().reverse()
                            + run_yields(dirs0, rest, self.filter, self.recursive)) =~= yielded0 + (
                        files0.reverse() + run_yields(dirs0, rest, self.filter, self.recursive)));
                    }
                },
                Step::ListDir(_dir) => {
                    proof {
                        assert(files0.len() == 0);
                        assert(files0.reverse() =~= Seq::<Seq<char>>::empty());
                        assert(dirs0.len() > 0);
                        assert(pending_dirs_view(m) =~= dirs0.drop_last());
                        assert(paths_view(m.cur_dir_files@).len() == 0);
                    }
                    if next < listings.len() {
                        let ghost mid = m;
                        let entries = &listings[next];
                        m.accept_entries(entries);
                        proof {
                            assert(entries@ == lv[next as int]);
                            assert(rest.first() == lv[next as int]);
                            assert(rest.drop_first() =~= lv.skip(next + 1));
                            assert(paths_view(m.cur_dir_files@) =~= matching_files(
                                entries@,
                                self.filter,
                            ));
                            assert(pending_dirs_view(m) =~= dirs0.drop_last() + (
                            if self.recursive {
                                sub_dirs(entries@)
                            } else {
                                Seq::<Seq<char>>::empty()
                            }));
                            assert(run_yields(dirs0, rest, self.filter, self.recursive)
                                == matching_files(entries@, self.filter).reverse() + run_yields(
                                pending_dirs_view(m),
                                lv.skip(next + 1),
                                self.filter,
                                self.recursive,
                            ));
                            assert(yielded0 + (matching_files(entries@, self.filter).reverse()
                                + run_yields(
                                pending_dirs_view(m),
                                lv.skip(next + 1),
                                self.filter,
                                self.recursive,
                            )) =~= yielded0 + (Seq::<Seq<char>>::empty() + run_yields(
                                dirs0,
                                rest,
                                self.filter,
                                self.recursive,
                            )));
                        }
                        next = next + 1;
                    } else {
                        proof {
                            assert(rest.len() == 0);
                            assert(run_yields(dirs0, rest, self.filter, self.recursive)
                                == Seq::<Seq<char>>::empty());
                            assert(run_yields(
                                pending_dirs_view(m),
                                rest,
                                self.filter,
                                self.recursive,
                            ) == Seq::<Seq<char>>::empty());
                        }
                    }
                },
                Step::Done => {
                    proof {
                        assert(files0.len() == 0 && dirs0.len() == 0);
                        assert(files0.reverse() =~= Seq::<Seq<char>>::empty());
                        assert(run_yields(dirs0, rest, self.filter, self.recursive)
                            == Seq::<Seq<char>>::empty());
                        assert(yielded0 + (Seq::<Seq<char>>::empty() + Seq::<Seq<char>>::empty())
                            =~= yielded0);
                    }
                    break;
                },
            }
        }
        yielded
    }
}

/// The enumerator: single-file mode or tree mode.
#[derive(Debug)]
pub enum FileNames {
    Single(SingleFileName),
    Multiple(MultipleFileNames),
}

impl FileNames {
    /// Builds the enumerator from the caller's configuration: an explicit
    /// file path selects single-file mode and every other option is
    /// ignored; otherwise tree mode starts at `dir` (or at `"./"`), with
    /// an extension filter when `ext` is given and accepting every name
    /// otherwise.
    pub fn new(file_name: Option<String>, dir: Option<String>, ext: Option<String>, recursive: bool) -> (r:
        FileNames)
        ensures
            match file_name {
                Some(f) => r == FileNames::Single(SingleFileName { file_name: Some(f) }),
                None => {
                    &&& r matches FileNames::Multiple(m)
                    &&& m.recursive == recursive
                    &&& m.all_dirs@.len() == 0
                    &&& m.cur_dir_files@.len() == 0
                    &&& m.cur_dir matches Some(d) && (match dir {
                        Some(given) => d == given,
                        None => d@ == "./"@,
                    })
                    &&& match ext {
                        Some(e) => m.filter matches FileFilter::Extension(f) && f.ext@
                            == crate::filters::normalized_ext(e@),
                        None => m.filter is AcceptAll,
                    }
                },
            },
    {
        if let Some(file_name) = file_name {
            return FileNames::Single(SingleFileName::new(file_name));
        }
        let cur_dir = match dir {
            Some(dir) => dir,
            None => "./".to_owned(),
        };
        let filter = match ext {
            Some(ext) => FileFilter::extension(ext.as_str()),
            None => FileFilter::AcceptAll,
        };
        FileNames::Multiple(
            MultipleFileNames {
                cur_dir: Some(cur_dir),
                filter,
                all_dirs: Vec::new(),
                cur_dir_files: Vec::new(),
                recursive,
            },
        )
    }

    /// Builds a tree-mode enumerator directly from a root directory (or
    /// `"./"`), a filter, and the recursion flag.
    pub fn generate(dir: Option<String>, pattern: FileFilter, recursive: bool) -> (r: FileNames)
        ensures
            r matches FileNames::Multiple(m) && {
                &&& m.filter == pattern
                &&& m.recursive == recursive
                &&& m.all_dirs@.len() == 0
                &&& m.cur_dir_files@.len() == 0
                &&& m.cur_dir matches Some(d) && (match dir {
                    Some(given) => d == given,
                    None => d@ == "./"@,
                })
            },
    {
        let cur_dir = match dir {
            Some(dir) => dir,
            None => "./".to_owned(),
        };
        FileNames::Multiple(
            MultipleFileNames {
                cur_dir: Some(cur_dir),
                filter: pattern,
                all_dirs: Vec::new(),
                cur_dir_files: Vec::new(),
                recursive,
            },
        )
    }

    /// Decides the next move of the enumeration, in either mode.
    pub fn next_step(&mut self) -> (r: Step)
        ensures
            match *old(self) {
                FileNames::Single(s) => *final(self) matches FileNames::Single(s2)
                    && single_step_spec(s, s2, r),
                FileNames::Multiple(m) => *final(self) matches FileNames::Multiple(m2)
                    && tree_step_spec(m, m2, r),
            },
    {
        match self {
            FileNames::Single(file_name) => match file_name.file_name.take() {
                Some(f) => Step::Yield(f),
                None => Step::Done,
            },
            FileNames::Multiple(file_names) => file_names.next_step(),
        }
    }

    /// Hands one directory's listing back to a tree-mode enumeration; a
    /// single-file enumeration never asks for one and ignores it.
    pub fn accept_entries(&mut self, entries: &Vec<ListingEntry>)
        ensures
            match *old(self) {
                FileNames::Single(s) => *final(self) == *old(self),
                FileNames::Multiple(m) => *final(self) matches FileNames::Multiple(m2)
                    && tree_accept_spec(m, m2, entries@),
            },
    {
        match self {
            FileNames::Single(_) => {},
            FileNames::Multiple(file_names) => file_names.accept_entries(entries),
        }
    }
}

/// Single-file mode yields exactly its configured path once, whatever the
/// filter or recursion settings would say, and signals exhaustion on every
/// later step.
pub proof fn lemma_single_yields_once(
    pre: SingleFileName,
    mid: SingleFileName,
    post: SingleFileName,
    first: Step,
    second: Step,
    f: String,
)
    requires
        pre.file_name == Some(f),
        single_step_spec(pre, mid, first),
        single_step_spec(mid, post, second),
    ensures
        first == Step::Yield(f),
        second is Done,
        post.file_name is None,
{
}

} // verus!
