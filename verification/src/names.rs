//! The naming convention: `<prefix><target name>[<platform suffix>]`.

use vstd::prelude::*;
use vstd::string::StrSliceExecFns;
use crate::text::{ends_with, starts_with};

verus! {

/// The literal that every dispatchable executable's file name begins with.
pub const PREFIX: &'static str = "jsonlines-";

/// The platform family the dispatcher runs on. It decides how a search path is
/// split and whether executables carry a suffix.
#[derive(Clone, Copy, Debug, PartialEq, Eq, Structural)]
pub enum Platform {
    /// Search paths are joined by `:`; executables carry no suffix.
    Posix,
    /// Search paths are joined by `;`; executables end in `.exe`.
    Windows,
}

impl Platform {
    /// The character that separates the directories of a search path.
    pub open spec fn spec_separator(self) -> char {
        match self {
            Platform::Posix => ':',
            Platform::Windows => ';',
        }
    }

    /// The suffix that executables conventionally carry; empty where there is none.
    pub open spec fn spec_suffix(self) -> Seq<char> {
        match self {
            Platform::Posix => Seq::empty(),
            Platform::Windows => seq!['.', 'e', 'x', 'e'],
        }
    }

    /// The character that separates the directories of a search path.
    pub fn separator(self) -> (c: char)
        ensures
            c == self.spec_separator(),
    {
        match self {
            Platform::Posix => ':',
            Platform::Windows => ';',
        }
    }

    /// The suffix that executables conventionally carry; empty where there is none.
    pub fn suffix(self) -> (s: &'static str)
        ensures
            s@ == self.spec_suffix(),
    {
        match self {
            Platform::Posix => {
                proof {
                    reveal_strlit("");
                }
                assert(""@ =~= Seq::<char>::empty());
                ""
            },
            Platform::Windows => {
                proof {
                    reveal_strlit(".exe");
                }
                assert(".exe"@ =~= seq!['.', 'e', 'x', 'e']);
                ".exe"
            },
        }
    }
}

/// `name` without `prefix` at its front, where it begins with `prefix`;
/// `name` itself otherwise.
pub open spec fn without_prefix(name: Seq<char>, prefix: Seq<char>) -> Seq<char> {
    if prefix.is_prefix_of(name) {
        name.skip(prefix.len() as int)
    } else {
        name
    }
}

/// `name` without `suffix` at its end, where it ends with `suffix`;
/// `name` itself otherwise.
pub open spec fn without_suffix(name: Seq<char>, suffix: Seq<char>) -> Seq<char> {
    if suffix.is_suffix_of(name) {
        name.take(name.len() - suffix.len())
    } else {
        name
    }
}

/// The target name that a file name stands for: the file name with the naming
/// prefix removed from the front and the platform's suffix removed from the end.
pub open spec fn target_name_of(file_name: Seq<char>, platform: Platform) -> Seq<char> {
    without_suffix(without_prefix(file_name, PREFIX@), platform.spec_suffix())
}

/// Removes `prefix` from the front of `name` where it stands there.
pub fn strip_prefix<'a>(name: &'a str, prefix: &str) -> (rest: &'a str)
    ensures
        rest@ == without_prefix(name@, prefix@),
{
    if starts_with(name, prefix) {
        name.substring_char(prefix.unicode_len(), name.unicode_len())
    } else {
        name
    }
}

/// Removes `suffix` from the end of `name` where it stands there.
pub fn strip_suffix<'a>(name: &'a str, suffix: &str) -> (rest: &'a str)
    ensures
        rest@ == without_suffix(name@, suffix@),
{
    if ends_with(name, suffix) {
        name.substring_char(0, name.unicode_len() - suffix.unicode_len())
    } else {
        name
    }
}

/// Derives the target name from a file name.
pub fn target_name(file_name: &str, platform: Platform) -> (name: &str)
    ensures
        name@ == target_name_of(file_name@, platform),
{
    strip_suffix(strip_prefix(file_name, PREFIX), platform.suffix())
}

} // verus!
