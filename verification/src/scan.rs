//! Discovery: from what the enumeration of the search directories gave to the
//! flat registry of proxy records.
//!
//! Opening and walking a directory is the caller's part. Each directory comes
//! in as a [`Listing`], each thing the walk gave as an [`Entry`]; a directory
//! that could not be opened and an entry that could not be read are values
//! like any other, and they yield no record.

use vstd::prelude::*;
use vstd::seq_lib::lemma_flatten_concat;
use crate::names::PREFIX;
use crate::proxy::{
    all_well_named, final_component, final_component_of, proxy_views, well_named, Proxy, ProxyView,
};

verus! {

/// What is known of one readable directory entry, as plain values.
pub struct CandidateView {
    pub path: Seq<char>,
    pub file_name: Option<Seq<char>>,
    pub regular: bool,
    pub executable: bool,
}

/// What one step of a directory's enumeration gave: a candidate, or nothing.
pub type EntryView = Option<CandidateView>;

/// What scanning one directory gave: its entries in enumeration order, or
/// nothing where the directory could not be opened.
pub type ListingView = Option<Seq<EntryView>>;

/// What is known of one readable directory entry. Its file name is the
/// final component of its path.
#[derive(Debug)]
pub struct Candidate {
    path: String,
    file_name: Option<String>,
    regular: bool,
    executable: bool,
}

impl View for Candidate {
    type V = CandidateView;

    closed spec fn view(&self) -> CandidateView {
        CandidateView {
            path: self.path@,
            file_name: match self.file_name {
                Some(name) => Some(name@),
                None => None,
            },
            regular: self.regular,
            executable: self.executable,
        }
    }
}

/// One step of a directory's enumeration.
#[derive(Debug)]
pub enum Entry {
    /// The enumeration failed at this entry.
    Unreadable,
    /// The entry's path is not valid Unicode.
    NotUnicode,
    /// The entry was read.
    Seen(Candidate),
}

impl View for Entry {
    type V = EntryView;

    /// The candidate that the step gave, if it gave one.
    open spec fn view(&self) -> EntryView {
        match self {
            Entry::Seen(candidate) => Some(candidate@),
            _ => None,
        }
    }
}

/// What scanning one directory of the search path gave.
#[derive(Debug)]
pub enum Listing {
    /// The directory is missing, is no directory, or may not be read.
    Unopened,
    /// The direct children, in the order in which the enumeration gave them.
    Opened(Vec<Entry>),
}

impl View for Listing {
    type V = ListingView;

    open spec fn view(&self) -> ListingView {
        match self {
            Listing::Unopened => None,
            Listing::Opened(entries) => Some(entry_views(entries@)),
        }
    }
}

/// The views of a sequence of entries, in order.
pub open spec fn entry_views(entries: Seq<Entry>) -> Seq<EntryView> {
    entries.map_values(|e: Entry| e@)
}

/// The views of a sequence of listings, in order.
pub open spec fn listing_views(listings: Seq<Listing>) -> Seq<ListingView> {
    listings.map_values(|l: Listing| l@)
}

/// Whether a candidate becomes a proxy record: it is a regular file, the
/// process may execute it, and its file name begins with the naming prefix.
pub open spec fn admits(candidate: CandidateView) -> bool {
    &&& candidate.regular
    &&& candidate.executable
    &&& candidate.file_name is Some
    &&& PREFIX@.is_prefix_of(candidate.file_name.unwrap())
}

/// The record that one step of an enumeration yields, if any.
pub open spec fn record_of(entry: EntryView) -> Option<ProxyView> {
    match entry {
        Some(candidate) if admits(candidate) => Some(
            ProxyView { path: candidate.path, file_name: candidate.file_name.unwrap() },
        ),
        _ => None,
    }
}

/// The records that the entries of one directory yield, in enumeration order.
pub open spec fn records_in(entries: Seq<EntryView>) -> Seq<ProxyView> {
    entries.filter_map(|e: EntryView| record_of(e))
}

/// The records that one directory yields: none where it could not be opened.
pub open spec fn records_of(listing: ListingView) -> Seq<ProxyView> {
    match listing {
        Some(entries) => records_in(entries),
        None => Seq::empty(),
    }
}

/// The registry: the records of all directories, in the order of the
/// directories and, within one, in enumeration order. Nothing is removed.
pub open spec fn registry_of(listings: Seq<ListingView>) -> Seq<ProxyView> {
    listings.map_values(|l: ListingView| records_of(l)).flatten()
}

/// Calls `is_executable::is_executable` on `path`. The answer depends on what
/// is on disk at the time of the call, so nothing is claimed of it; a path
/// whose metadata cannot be read is answered with `false` there.
#[verifier::external_body]
fn may_execute(path: &str) -> (allowed: bool) {
    is_executable::is_executable(path)
}

impl Candidate {
    #[verifier::type_invariant]
    spec fn named_by_path(&self) -> bool {
        self@.file_name == final_component_of(self@.path)
    }

    /// The candidate for the entry at `path`. `file_type` says whether the
    /// entry is a regular file, where the enumeration could tell; an entry
    /// whose type could not be read counts as none. `may_execute` is the
    /// answer to whether the process may execute the file at `path`; it
    /// counts only for a regular file. The file name is the final component
    /// of `path`.
    pub fn new(path: &str, file_type: Option<bool>, may_execute: bool) -> (candidate: Candidate)
        ensures
            candidate@ == (CandidateView {
                path: path@,
                file_name: final_component_of(path@),
                regular: file_type == Some(true),
                executable: file_type == Some(true) && may_execute,
            }),
    {
        let regular = match file_type {
            Some(is_file) => is_file,
            None => false,
        };
        Candidate {
            path: path.to_owned(),
            file_name: final_component(path),
            regular,
            executable: regular && may_execute,
        }
    }

    /// Looks at the entry at `path`, of which `file_type` says what it says
    /// to [`Candidate::new`]. A regular file is probed for execute
    /// permission, and the answer of the probe decides whether it is
    /// executable; anything else is not probed and is not executable.
    pub fn inspect(path: &str, file_type: Option<bool>) -> (candidate: Candidate)
        ensures
            candidate@.path == path@,
            candidate@.file_name == final_component_of(path@),
            candidate@.regular == (file_type == Some(true)),
            candidate@.executable ==> candidate@.regular,
    {
        let answer = match file_type {
            Some(true) => may_execute(path),
            _ => false,
        };
        Candidate::new(path, file_type, answer)
    }

    /// The entry's path.
    pub fn path(&self) -> (path: &str)
        ensures
            path@ == self@.path,
    {
        self.path.as_str()
    }

    /// The final component of the path, where it has one.
    pub fn file_name(&self) -> (name: Option<&str>)
        ensures
            match name {
                Some(text) => Some(text@),
                None => None,
            } == self@.file_name,
            self@.file_name == final_component_of(self@.path),
    {
        proof {
            use_type_invariant(self);
        }
        match &self.file_name {
            Some(name) => Some(name.as_str()),
            None => None,
        }
    }

    /// Whether the entry itself is a regular file.
    pub fn is_regular(&self) -> (regular: bool)
        ensures
            regular == self@.regular,
    {
        self.regular
    }

    /// Whether the entry is a regular file that the process may execute.
    pub fn is_executable(&self) -> (executable: bool)
        ensures
            executable == self@.executable,
    {
        self.executable
    }

    /// The record for this candidate, where it is admitted.
    pub fn to_proxy(&self) -> (made: Option<Proxy>)
        ensures
            match made {
                Some(proxy) => Some(proxy@),
                None => None,
            } == record_of(Some(self@)),
            made is Some ==> well_named(made.unwrap()@),
    {
        proof {
            use_type_invariant(self);
        }
        if !(self.regular && self.executable) {
            return None;
        }
        Proxy::new(self.path.clone())
    }
}

/// Collects the proxy records of one directory: of the entries that were read,
/// those that are regular files, may be executed and are named with the
/// prefix, in enumeration order. A directory that could not be opened and an
/// entry that could not be read yield nothing. The file name of every record
/// is the final component of its path and begins with the prefix.
pub fn find_binaries(listing: &Listing) -> (found: Vec<Proxy>)
    ensures
        proxy_views(found@) == records_of(listing@),
        all_well_named(proxy_views(found@)),
{
    let mut buffer: Vec<Proxy> = Vec::new();
    match listing {
        Listing::Unopened => {
            assert(proxy_views(buffer@) =~= Seq::<ProxyView>::empty());
        },
        Listing::Opened(entries) => {
            let ghost all = entry_views(entries@);
            let ghost pick = |e: EntryView| record_of(e);
            assert(proxy_views(buffer@) =~= all.take(0).filter_map(pick));
            let mut i: usize = 0;
            while i < entries.len()
                invariant
                    i <= entries.len(),
                    all == entry_views(entries@),
                    pick == |e: EntryView| record_of(e),
                    proxy_views(buffer@) == all.take(i as int).filter_map(pick),
                    all_well_named(proxy_views(buffer@)),
                decreases entries.len() - i,
            {
                let ghost before = proxy_views(buffer@);
                proof {
                    assert(all.take(i + 1).drop_last() =~= all.take(i as int));
                    assert(all.take(i + 1).last() == entries@[i as int]@);
                }
                match &entries[i] {
                    Entry::Seen(candidate) => {
                        match candidate.to_proxy() {
                            Some(proxy) => {
                                buffer.push(proxy);
                                assert(proxy_views(buffer@) =~= before + seq![proxy@]);
                            },
                            None => {},
                        }
                    },
                    _ => {},
                }
                i += 1;
            }
            assert(all.take(i as int) =~= all);
        },
    }
    buffer
}

/// Builds the registry from the listings of the search directories, in their
/// order. Records that share a target name all stay. The file name of every
/// record is the final component of its path and begins with the prefix.
pub fn collect_proxies(listings: &Vec<Listing>) -> (registry: Vec<Proxy>)
    ensures
        proxy_views(registry@) == registry_of(listing_views(listings@)),
        all_well_named(proxy_views(registry@)),
{
    let mut registry: Vec<Proxy> = Vec::new();
    let ghost all = listing_views(listings@);
    let ghost each = |l: ListingView| records_of(l);
    assert(proxy_views(registry@) =~= all.take(0).map_values(each).flatten());
    let mut i: usize = 0;
    while i < listings.len()
        invariant
            i <= listings.len(),
            all == listing_views(listings@),
            each == |l: ListingView| records_of(l),
            proxy_views(registry@) == all.take(i as int).map_values(each).flatten(),
            all_well_named(proxy_views(registry@)),
        decreases listings.len() - i,
    {
        let ghost before = proxy_views(registry@);
        let mut found = find_binaries(&listings[i]);
        let ghost added = proxy_views(found@);
        registry.append(&mut found);
        proof {
            let done = all.take(i as int).map_values(each);
            let one = seq![records_of(all[i as int])];
            assert(all.take(i + 1).map_values(each) =~= done + one);
            lemma_flatten_concat(done, one);
            one.lemma_flatten_one_element();
            assert(proxy_views(registry@) =~= before + added);
        }
        i += 1;
    }
    assert(all.take(i as int) =~= all);
    registry
}

} // verus!
