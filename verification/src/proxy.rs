//! The proxy record: one discovered executable that a request can be
//! dispatched to.

use vstd::prelude::*;
use camino::Utf8Path;
use crate::names::{target_name, target_name_of, Platform, PREFIX};
use crate::text::{same_text, starts_with};

verus! {

/// What a proxy record holds, as plain sequences of characters.
pub struct ProxyView {
    /// Where the executable lies.
    pub path: Seq<char>,
    /// Its base file name as found on disk, prefix and suffix included.
    pub file_name: Seq<char>,
}

impl ProxyView {
    /// The target name that the record answers to on `platform`.
    pub open spec fn target_name(self, platform: Platform) -> Seq<char> {
        target_name_of(self.file_name, platform)
    }

    /// Whether the record answers to `requested`: the two names are equal,
    /// character by character.
    pub open spec fn is_target(self, requested: Seq<char>, platform: Platform) -> bool {
        self.target_name(platform) == requested
    }
}

/// The final component of the path `path` as camino's `Utf8Path::file_name`
/// gives it, if the path has one. Paths fall into components by the rules of
/// the platform that the library is built for.
pub uninterp spec fn final_component_of(path: Seq<char>) -> Option<Seq<char>>;

/// Calls camino's `Utf8Path::file_name` on `path` and copies the answer.
/// The answer depends on the path alone; it goes by the name
/// [`final_component_of`], and nothing more is claimed of it.
#[verifier::external_body]
pub(crate) fn final_component(path: &str) -> (name: Option<String>)
    ensures
        match name {
            Some(found) => final_component_of(path@) == Some(found@),
            None => final_component_of(path@) is None,
        },
{
    Utf8Path::new(path).file_name().map(String::from)
}

/// Whether `record` is named as a record must be: its file name is the final
/// component of its path and begins with the naming prefix.
pub open spec fn well_named(record: ProxyView) -> bool {
    &&& final_component_of(record.path) == Some(record.file_name)
    &&& PREFIX@.is_prefix_of(record.file_name)
}

/// Whether every record of `records` is named as a record must be.
pub open spec fn all_well_named(records: Seq<ProxyView>) -> bool {
    forall|i: int| 0 <= i < records.len() ==> well_named(#[trigger] records[i])
}

/// A discovered executable whose file name begins with the naming prefix.
/// The file name is the final component of the path. A record is never
/// changed once it is made.
#[derive(Debug)]
pub struct Proxy {
    path: String,
    file_name: String,
}

impl View for Proxy {
    type V = ProxyView;

    closed spec fn view(&self) -> ProxyView {
        ProxyView { path: self.path@, file_name: self.file_name@ }
    }
}

impl Proxy {
    #[verifier::type_invariant]
    spec fn named_by_convention(&self) -> bool {
        well_named(self@)
    }

    /// Makes the record of the executable at `path`. Its file name is the
    /// final component of `path`. There is a record exactly where the path
    /// has a final component and that begins with the naming prefix.
    pub fn new(path: String) -> (made: Option<Proxy>)
        ensures
            made is Some <==> final_component_of(path@) is Some && PREFIX@.is_prefix_of(
                final_component_of(path@).unwrap(),
            ),
            made is Some ==> made.unwrap()@ == (ProxyView {
                path: path@,
                file_name: final_component_of(path@).unwrap(),
            }),
            made is Some ==> well_named(made.unwrap()@),
    {
        match final_component(path.as_str()) {
            Some(file_name) => {
                if starts_with(file_name.as_str(), PREFIX) {
                    Some(Proxy { path, file_name })
                } else {
                    None
                }
            },
            None => None,
        }
    }

    /// Where the executable lies. The final component of the path is the
    /// record's file name.
    pub fn path(&self) -> (path: &str)
        ensures
            path@ == self@.path,
            final_component_of(path@) == Some(self@.file_name),
    {
        proof {
            use_type_invariant(self);
        }
        self.path.as_str()
    }

    /// The base file name as found on disk. It begins with the naming prefix.
    pub fn file_name(&self) -> (name: &str)
        ensures
            name@ == self@.file_name,
            well_named(self@),
    {
        proof {
            use_type_invariant(self);
        }
        self.file_name.as_str()
    }

    /// The target name: the file name without the naming prefix and without
    /// the platform's suffix.
    pub fn target_name(&self, platform: Platform) -> (name: &str)
        ensures
            name@ == self@.target_name(platform),
    {
        target_name(self.file_name.as_str(), platform)
    }

    /// Whether this record answers to `expected_name`.
    pub fn is_target(&self, expected_name: &str, platform: Platform) -> (matches: bool)
        ensures
            matches == self@.is_target(expected_name@, platform),
    {
        same_text(self.target_name(platform), expected_name)
    }
}

/// The views of a sequence of proxy records, in order.
pub open spec fn proxy_views(proxies: Seq<Proxy>) -> Seq<ProxyView> {
    proxies.map_values(|p: Proxy| p@)
}

impl Clone for Proxy {
    fn clone(&self) -> (copy: Proxy)
        ensures
            copy@ == self@,
            well_named(copy@),
    {
        proof {
            use_type_invariant(self);
        }
        Proxy { path: self.path.clone(), file_name: self.file_name.clone() }
    }
}

} // verus!
