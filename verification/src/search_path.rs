//! The search path: one string of directory paths joined by the platform's
//! separator.

use vstd::prelude::*;
use vstd::string::StrSliceExecFns;
use crate::error::{Error, Unavailable};
use crate::names::Platform;
use crate::text::{chars_of, string_views};

verus! {

/// The pieces that `separator` cuts `value` into, in order, empty ones
/// included: one more piece than `value` holds separators.
pub open spec fn segments(value: Seq<char>, separator: char) -> Seq<Seq<char>>
    decreases value.len(),
{
    if value.len() == 0 {
        seq![Seq::empty()]
    } else {
        let before = segments(value.drop_last(), separator);
        if value.last() == separator {
            before.push(Seq::empty())
        } else {
            before.drop_last().push(before.last().push(value.last()))
        }
    }
}

/// The directories that a search path names: its pieces, in order, without
/// the empty ones.
pub open spec fn directories(value: Seq<char>, separator: char) -> Seq<Seq<char>> {
    segments(value, separator).filter(|piece: Seq<char>| piece.len() > 0)
}

/// There is always at least one piece.
pub proof fn lemma_segments_nonempty(value: Seq<char>, separator: char)
    ensures
        segments(value, separator).len() >= 1,
    decreases value.len(),
{
    if value.len() > 0 {
        lemma_segments_nonempty(value.drop_last(), separator);
    }
}

/// No piece holds the separator.
pub proof fn lemma_segments_hold_no_separator(value: Seq<char>, separator: char)
    ensures
        forall|i: int, k: int|
            0 <= i < segments(value, separator).len() && 0 <= k < segments(
                value,
                separator,
            )[i].len() ==> segments(value, separator)[i][k] != separator,
    decreases value.len(),
{
    if value.len() > 0 {
        lemma_segments_hold_no_separator(value.drop_last(), separator);
        lemma_segments_nonempty(value.drop_last(), separator);
    }
}

/// The pieces `pieces` with `separator` between each two of them.
pub open spec fn joined(pieces: Seq<Seq<char>>, separator: char) -> Seq<char>
    decreases pieces.len(),
{
    if pieces.len() == 0 {
        Seq::empty()
    } else if pieces.len() == 1 {
        pieces[0]
    } else {
        joined(pieces.drop_last(), separator) + seq![separator] + pieces.last()
    }
}

/// Nothing is lost in splitting: the pieces, joined by the separator, are the
/// value.
pub proof fn lemma_segments_rejoin(value: Seq<char>, separator: char)
    ensures
        joined(segments(value, separator), separator) == value,
    decreases value.len(),
{
    if value.len() == 0 {
        assert(joined(segments(value, separator), separator) =~= value);
    } else {
        let before = segments(value.drop_last(), separator);
        let now = segments(value, separator);
        lemma_segments_rejoin(value.drop_last(), separator);
        lemma_segments_nonempty(value.drop_last(), separator);
        assert(value =~= value.drop_last().push(value.last()));
        if value.last() == separator {
            assert(now.drop_last() =~= before);
            assert(joined(now, separator) =~= value);
        } else if before.len() == 1 {
            assert(joined(now, separator) =~= value);
        } else {
            assert(now.drop_last() =~= before.drop_last());
            assert(joined(now, separator) =~= value);
        }
    }
}

/// Splits a search path into its directories, in order. Empty pieces are
/// dropped.
pub fn split_path(value: &str, separator: char) -> (dirs: Vec<String>)
    ensures
        string_views(dirs@) == directories(value@, separator),
{
    let chars = chars_of(value);
    let n: usize = chars.len();
    let ghost kept = |piece: Seq<char>| piece.len() > 0;
    let mut dirs: Vec<String> = Vec::new();
    let mut start: usize = 0;
    let mut i: usize = 0;
    proof {
        reveal(Seq::filter);
        assert(value@.take(0) =~= Seq::<char>::empty());
        assert(value@.subrange(0, 0) =~= Seq::<char>::empty());
        assert(segments(value@.take(0), separator).drop_last() =~= Seq::<Seq<char>>::empty());
        assert(string_views(dirs@) =~= Seq::<Seq<char>>::empty());
    }
    while i < n
        invariant
            chars@ == value@,
            n == chars@.len(),
            start <= i <= n,
            kept == |piece: Seq<char>| piece.len() > 0,
            segments(value@.take(i as int), separator).len() >= 1,
            segments(value@.take(i as int), separator).last() == value@.subrange(
                start as int,
                i as int,
            ),
            string_views(dirs@) == segments(value@.take(i as int), separator).drop_last().filter(
                kept,
            ),
        decreases n - i,
    {
        let ghost before = segments(value@.take(i as int), separator);
        let ghost views = string_views(dirs@);
        proof {
            assert(value@.take(i + 1).drop_last() =~= value@.take(i as int));
            assert(value@.take(i + 1).last() == chars@[i as int]);
        }
        if chars[i] == separator {
            proof {
                reveal(Seq::filter);
                assert(before.push(Seq::empty()).drop_last() =~= before);
                assert(before =~= before.drop_last().push(before.last()));
            }
            if start < i {
                let piece = value.substring_char(start, i);
                dirs.push(piece.to_owned());
                assert(string_views(dirs@) =~= views.push(piece@));
            }
            start = i + 1;
            assert(value@.subrange(start as int, i + 1) =~= Seq::<char>::empty());
        } else {
            proof {
                let grown = before.last().push(chars@[i as int]);
                assert(before.drop_last().push(grown).drop_last() =~= before.drop_last());
                assert(value@.subrange(start as int, i + 1) =~= grown);
            }
        }
        i += 1;
    }
    proof {
        reveal(Seq::filter);
        let all = segments(value@, separator);
        assert(value@.take(n as int) =~= value@);
        assert(all =~= all.drop_last().push(all.last()));
    }
    if start < n {
        let ghost views = string_views(dirs@);
        let piece = value.substring_char(start, n);
        dirs.push(piece.to_owned());
        assert(string_views(dirs@) =~= views.push(piece@));
    }
    dirs
}

/// The directories of a search path on `platform`.
pub fn search_directories(value: &str, platform: Platform) -> (dirs: Vec<String>)
    ensures
        string_views(dirs@) == directories(value@, platform.spec_separator()),
{
    split_path(value, platform.separator())
}

/// The directories to scan, from what reading the search-path variable gave.
/// An unavailable variable is the error; every value that was read splits
/// into directories, however many of them exist.
pub fn collect_path_env(lookup: Result<String, Unavailable>, platform: Platform) -> (dirs: Result<
    Vec<String>,
    Error,
>)
    ensures
        match lookup {
            Ok(value) => dirs is Ok && string_views(dirs.unwrap()@) == directories(
                value@,
                platform.spec_separator(),
            ),
            Err(why) => dirs == Err::<Vec<String>, Error>(Error::EnvironmentError(why)),
        },
{
    match lookup {
        Ok(value) => Ok(search_directories(value.as_str(), platform)),
        Err(why) => Err(Error::EnvironmentError(why)),
    }
}

} // verus!
