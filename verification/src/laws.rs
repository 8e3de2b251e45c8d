//! What holds of discovery and dispatch as a whole.

use vstd::prelude::*;
use vstd::seq_lib::lemma_flatten_concat;
use crate::dispatch::first_match;
use crate::front::listing_of;
use crate::names::{target_name_of, without_suffix, Platform, PREFIX};
use crate::proxy::{proxy_views, Proxy, ProxyView};
use crate::scan::{
    admits, listing_views, record_of, records_in, records_of, registry_of, EntryView, Listing,
    ListingView,
};

verus! {

/// The target names of a registry, in its order.
pub open spec fn target_names(registry: Seq<ProxyView>, platform: Platform) -> Seq<Seq<char>> {
    registry.map_values(|record: ProxyView| record.target_name(platform))
}

/// Resolution is exact and takes the first: the place found holds a record
/// whose target name equals the requested name, character by character, and
/// no record before it does; no place is found exactly when no record's
/// target name equals the requested name.
pub proof fn lemma_first_match(registry: Seq<ProxyView>, requested: Seq<char>, platform: Platform)
    ensures
        match first_match(registry, requested, platform) {
            Some(i) => {
                &&& 0 <= i < registry.len()
                &&& registry[i].target_name(platform) == requested
                &&& forall|j: int| 0 <= j < i ==> registry[j].target_name(platform) != requested
            },
            None => forall|j: int|
                0 <= j < registry.len() ==> registry[j].target_name(platform) != requested,
        },
    decreases registry.len(),
{
    if registry.len() > 0 && !registry.first().is_target(requested, platform) {
        let rest = registry.drop_first();
        lemma_first_match(rest, requested, platform);
        assert(forall|j: int| 1 <= j < registry.len() ==> registry[j] == rest[j - 1]);
    }
}

/// A registry that is two registries in a row resolves in the first where
/// the first holds a record that answers, and in the second otherwise.
pub proof fn lemma_first_match_in_a_row(
    first: Seq<ProxyView>,
    second: Seq<ProxyView>,
    requested: Seq<char>,
    platform: Platform,
)
    ensures
        first_match(first + second, requested, platform) == match first_match(
            first,
            requested,
            platform,
        ) {
            Some(i) => Some(i),
            None => match first_match(second, requested, platform) {
                Some(i) => Some(first.len() + i),
                None => None,
            },
        },
    decreases first.len(),
{
    if first.len() == 0 {
        assert(first + second =~= second);
    } else {
        assert((first + second).drop_first() =~= first.drop_first() + second);
        lemma_first_match_in_a_row(first.drop_first(), second, requested, platform);
    }
}

/// The registry of directories in a row is the registries of the two parts
/// in a row.
pub proof fn lemma_registry_in_a_row(
    earlier: Seq<ListingView>,
    later: Seq<ListingView>,
)
    ensures
        registry_of(earlier + later) == registry_of(earlier) + registry_of(later),
{
    let each = |l: ListingView| records_of(l);
    assert((earlier + later).map_values(each) =~= earlier.map_values(each) + later.map_values(
        each,
    ));
    lemma_flatten_concat(earlier.map_values(each), later.map_values(each));
}

/// The first match wins: where directories that come earlier on the search
/// path hold a record that answers to the requested name, the request
/// resolves to the first such record among them, whatever the directories
/// that come later hold.
pub proof fn lemma_earlier_directory_wins(
    earlier: Seq<ListingView>,
    later: Seq<ListingView>,
    requested: Seq<char>,
    platform: Platform,
)
    requires
        exists|i: int|
            0 <= i < registry_of(earlier).len() && registry_of(earlier)[i].target_name(platform)
                == requested,
    ensures
        first_match(registry_of(earlier + later), requested, platform) is Some,
        first_match(registry_of(earlier + later), requested, platform) == first_match(
            registry_of(earlier),
            requested,
            platform,
        ),
        first_match(registry_of(earlier + later), requested, platform).unwrap() < registry_of(
            earlier,
        ).len(),
{
    lemma_registry_in_a_row(earlier, later);
    lemma_first_match(registry_of(earlier), requested, platform);
    lemma_first_match_in_a_row(registry_of(earlier), registry_of(later), requested, platform);
}

/// A search path none of whose directories can be opened gives an empty
/// registry, and its listing has no line.
pub proof fn lemma_no_directory_no_record(
    listings: Seq<ListingView>,
    platform: Platform,
)
    requires
        forall|d: int| 0 <= d < listings.len() ==> listings[d] is None,
    ensures
        registry_of(listings) == Seq::<ProxyView>::empty(),
        listing_of(registry_of(listings), platform) == Seq::<Seq<char>>::empty(),
    decreases listings.len(),
{
    let each = |l: ListingView| records_of(l);
    if listings.len() > 0 {
        lemma_no_directory_no_record(listings.drop_first(), platform);
        assert(listings.map_values(each).drop_first() =~= listings.drop_first().map_values(each));
        assert(registry_of(listings) =~= Seq::<ProxyView>::empty());
    }
    assert(listing_of(registry_of(listings), platform) =~= Seq::<Seq<char>>::empty());
}

/// Building the registry anew from the same state of the directories gives
/// the same target names in the same order.
pub proof fn lemma_rebuilt_registry_has_same_names(
    once: Seq<Proxy>,
    again: Seq<Proxy>,
    before: Seq<Listing>,
    after: Seq<Listing>,
    platform: Platform,
)
    requires
        listing_views(before) == listing_views(after),
        proxy_views(once) == registry_of(listing_views(before)),
        proxy_views(again) == registry_of(listing_views(after)),
    ensures
        target_names(proxy_views(once), platform) == target_names(proxy_views(again), platform),
{
}

/// The records of entries in a row are the records of the two parts in a row.
pub proof fn lemma_records_in_a_row(
    front: Seq<EntryView>,
    back: Seq<EntryView>,
)
    ensures
        records_in(front + back) == records_in(front) + records_in(back),
    decreases back.len(),
{
    if back.len() == 0 {
        assert(front + back =~= front);
        assert(records_in(front) + records_in(back) =~= records_in(front));
    } else {
        assert((front + back).drop_last() =~= front + back.drop_last());
        assert((front + back).last() == back.last());
        lemma_records_in_a_row(front, back.drop_last());
        assert(records_in(front + back) =~= records_in(front) + records_in(back));
    }
}

/// The place in a directory's records at which the record of entry `e`
/// stands, if the entry yields one: the number of records that the entries
/// before it yield.
pub open spec fn place_in(entries: Seq<EntryView>, e: int) -> int {
    records_in(entries.take(e)).len() as int
}

/// An entry that yields a record has that record among the directory's
/// records, at its place.
pub proof fn lemma_record_of_entry(entries: Seq<EntryView>, e: int)
    requires
        0 <= e < entries.len(),
        record_of(entries[e]) is Some,
    ensures
        0 <= place_in(entries, e) < records_in(entries).len(),
        records_in(entries)[place_in(entries, e)] == record_of(entries[e]).unwrap(),
{
    let one = seq![entries[e]];
    assert(entries =~= entries.take(e) + one + entries.skip(e + 1));
    lemma_records_in_a_row(entries.take(e) + one, entries.skip(e + 1));
    lemma_records_in_a_row(entries.take(e), one);
    assert(one.drop_last() =~= Seq::<EntryView>::empty());
    assert(records_in(one.drop_last()) =~= Seq::<ProxyView>::empty());
    assert(records_in(one) =~= seq![record_of(entries[e]).unwrap()]);
}

/// Every record of a directory is the record of one of its entries, and
/// stands at that entry's place.
pub proof fn lemma_entry_of_record(entries: Seq<EntryView>, j: int)
    requires
        0 <= j < records_in(entries).len(),
    ensures
        exists|e: int|
            0 <= e < entries.len() && record_of(#[trigger] entries[e]) == Some(
                records_in(entries)[j],
            ) && place_in(entries, e) == j,
    decreases entries.len(),
{
    let init = entries.drop_last();
    if j < records_in(init).len() {
        lemma_entry_of_record(init, j);
        let e = choose|e: int|
            0 <= e < init.len() && record_of(#[trigger] init[e]) == Some(records_in(init)[j])
                && place_in(init, e) == j;
        assert(init.take(e) =~= entries.take(e));
        assert(entries[e] == init[e]);
    } else {
        let e = entries.len() - 1;
        assert(entries.take(e) =~= init);
        assert(record_of(entries[e]) == Some(records_in(entries)[j]));
    }
}

/// An entry's place does not fall as the entry comes later, and an entry
/// that yields a record stands before the place of every later entry.
pub proof fn lemma_places_in_order(entries: Seq<EntryView>, e1: int, e2: int)
    requires
        0 <= e1 <= e2 <= entries.len(),
    ensures
        place_in(entries, e1) <= place_in(entries, e2),
        e1 < e2 && record_of(entries[e1]) is Some ==> place_in(entries, e1) < place_in(
            entries,
            e2,
        ),
{
    let upto = entries.take(e2);
    assert(upto.take(e1) =~= entries.take(e1));
    assert(upto =~= upto.take(e1) + upto.skip(e1));
    lemma_records_in_a_row(upto.take(e1), upto.skip(e1));
    if e1 < e2 && record_of(entries[e1]) is Some {
        lemma_record_of_entry(upto, e1);
    }
}

/// The registry of one directory is that directory's records.
pub proof fn lemma_registry_of_one(listing: ListingView)
    ensures
        registry_of(seq![listing]) == records_of(listing),
{
    let each = |l: ListingView| records_of(l);
    seq![listing].map_values(each).lemma_flatten_one_element();
}

/// The place in the registry at which the record of entry `e` of directory
/// `d` stands, if the entry yields one.
pub open spec fn place_of(listings: Seq<ListingView>, d: int, e: int) -> int {
    registry_of(listings.take(d)).len() + place_in(listings[d].unwrap(), e)
}

/// Whether `e` is an entry of directory `d` that yields a record.
pub open spec fn yields(listings: Seq<ListingView>, d: int, e: int) -> bool {
    &&& 0 <= d < listings.len()
    &&& listings[d] is Some
    &&& 0 <= e < listings[d].unwrap().len()
    &&& record_of(listings[d].unwrap()[e]) is Some
}

/// Nothing is lost: an entry that yields a record has that record in the
/// registry, at its place.
pub proof fn lemma_record_of_listed_entry(
    listings: Seq<ListingView>,
    d: int,
    e: int,
)
    requires
        yields(listings, d, e),
    ensures
        0 <= place_of(listings, d, e) < registry_of(listings).len(),
        registry_of(listings)[place_of(listings, d, e)] == record_of(
            listings[d].unwrap()[e],
        ).unwrap(),
{
    let one = seq![listings[d]];
    assert(listings =~= listings.take(d) + one + listings.skip(d + 1));
    lemma_registry_in_a_row(listings.take(d) + one, listings.skip(d + 1));
    lemma_registry_in_a_row(listings.take(d), one);
    lemma_registry_of_one(listings[d]);
    lemma_record_of_entry(listings[d].unwrap(), e);
}

/// Nothing is made up: every record of the registry is the record of an
/// entry of one of the directories, and stands at that entry's place.
pub proof fn lemma_listed_entry_of_record(
    listings: Seq<ListingView>,
    j: int,
)
    requires
        0 <= j < registry_of(listings).len(),
    ensures
        exists|d: int, e: int|
            #![trigger yields(listings, d, e)]
            yields(listings, d, e) && record_of(listings[d].unwrap()[e]) == Some(
                registry_of(listings)[j],
            ) && place_of(listings, d, e) == j,
    decreases listings.len(),
{
    if listings.len() == 0 {
        lemma_no_directory_no_record(listings, Platform::Posix);
    } else {
        let init = listings.drop_last();
        let last = listings.last();
        assert(listings =~= init + seq![last]);
        lemma_registry_in_a_row(init, seq![last]);
        lemma_registry_of_one(last);
        if j < registry_of(init).len() {
            lemma_listed_entry_of_record(init, j);
            let (d, e) = choose|d: int, e: int|
                #![trigger yields(init, d, e)]
                yields(init, d, e) && record_of(init[d].unwrap()[e]) == Some(registry_of(init)[j])
                    && place_of(init, d, e) == j;
            assert(init.take(d) =~= listings.take(d));
            assert(listings[d] == init[d]);
            assert(yields(listings, d, e));
        } else {
            let d = listings.len() - 1;
            let k = j - registry_of(init).len();
            lemma_entry_of_record(last.unwrap(), k);
            let e = choose|e: int|
                0 <= e < last.unwrap().len() && record_of(#[trigger] last.unwrap()[e]) == Some(
                    records_in(last.unwrap())[k],
                ) && place_in(last.unwrap(), e) == k;
            assert(listings.take(d) =~= init);
            assert(yields(listings, d, e));
        }
    }
}

/// A file that is named with the prefix, lies in a scanned directory and may
/// be executed has a record in the registry, and that record's target name
/// is the file name without the prefix and without the platform's suffix.
/// Where no other entry yields a record of that target name, it is the only
/// record that answers to it.
pub proof fn lemma_placed_file_has_one_record(
    listings: Seq<ListingView>,
    d: int,
    e: int,
    platform: Platform,
) -> (k: int)
    requires
        0 <= d < listings.len(),
        listings[d] is Some,
        0 <= e < listings[d].unwrap().len(),
        listings[d].unwrap()[e] is Some,
        admits(listings[d].unwrap()[e].unwrap()),
        forall|d2: int, e2: int|
            #![trigger yields(listings, d2, e2)]
            yields(listings, d2, e2) && (d2 != d || e2 != e) ==> record_of(
                listings[d2].unwrap()[e2],
            ).unwrap().target_name(platform) != record_of(
                listings[d].unwrap()[e],
            ).unwrap().target_name(platform),
    ensures
        0 <= k < registry_of(listings).len(),
        registry_of(listings)[k] == (ProxyView {
            path: listings[d].unwrap()[e].unwrap().path,
            file_name: listings[d].unwrap()[e].unwrap().file_name.unwrap(),
        }),
        registry_of(listings)[k].target_name(platform) == without_suffix(
            listings[d].unwrap()[e].unwrap().file_name.unwrap().skip(PREFIX@.len() as int),
            platform.spec_suffix(),
        ),
        forall|j: int|
            0 <= j < registry_of(listings).len() && j != k ==> registry_of(
                listings,
            )[j].target_name(platform) != registry_of(listings)[k].target_name(platform),
{
    let registry = registry_of(listings);
    let k = place_of(listings, d, e);
    assert(yields(listings, d, e));
    lemma_record_of_listed_entry(listings, d, e);
    assert forall|j: int| 0 <= j < registry.len() && j != k implies registry[j].target_name(
        platform,
    ) != registry[k].target_name(platform) by {
        lemma_listed_entry_of_record(listings, j);
        let (d2, e2) = choose|d2: int, e2: int|
            #![trigger yields(listings, d2, e2)]
            yields(listings, d2, e2) && record_of(listings[d2].unwrap()[e2]) == Some(registry[j])
                && place_of(listings, d2, e2) == j;
        assert(d2 != d || e2 != e);
    }
    k
}

/// A file named with the prefix answers to what follows the prefix, where
/// that does not itself end in the platform's suffix.
pub proof fn lemma_prefixed_name_answers(rest: Seq<char>, platform: Platform)
    requires
        without_suffix(rest, platform.spec_suffix()) == rest,
    ensures
        PREFIX@.is_prefix_of(PREFIX@ + rest),
        target_name_of(PREFIX@ + rest, platform) == rest,
{
    let whole = PREFIX@ + rest;
    assert(whole.subrange(0, PREFIX@.len() as int) =~= PREFIX@);
    assert(whole.skip(PREFIX@.len() as int) =~= rest);
}

/// The first match wins, for a search path of two directories that both hold
/// an executable regular file named with the prefix and `name`: every record
/// of the first directory stands before every record of the second, and a
/// request for `name` resolves to a record of the first directory that
/// answers to `name`, at or before the place of that directory's file. Where
/// no earlier entry of the first directory answers to `name`, it resolves to
/// that very file, by its path.
///
/// The file must answer to `name`: on a platform whose executables carry a
/// suffix, a `name` that itself ends in the suffix is left out.
pub proof fn lemma_first_directory_wins(
    first: Seq<EntryView>,
    second: Seq<EntryView>,
    e1: int,
    e2: int,
    name: Seq<char>,
    platform: Platform,
) -> (found: int)
    requires
        0 <= e1 < first.len(),
        first[e1] is Some,
        first[e1].unwrap().regular,
        first[e1].unwrap().executable,
        first[e1].unwrap().file_name == Some(PREFIX@ + name),
        0 <= e2 < second.len(),
        second[e2] is Some,
        second[e2].unwrap().regular,
        second[e2].unwrap().executable,
        second[e2].unwrap().file_name == Some(PREFIX@ + name),
        without_suffix(name, platform.spec_suffix()) == name,
    ensures
        registry_of(seq![Some(first), Some(second)]) == records_in(first) + records_in(second),
        first_match(registry_of(seq![Some(first), Some(second)]), name, platform) == Some(found),
        0 <= found <= place_in(first, e1) < records_in(first).len(),
        registry_of(seq![Some(first), Some(second)])[found] == records_in(first)[found],
        records_in(first)[found].target_name(platform) == name,
        (forall|e: int|
            0 <= e < e1 && record_of(#[trigger] first[e]) is Some ==> record_of(
                first[e],
            ).unwrap().target_name(platform) != name) ==> found == place_in(first, e1)
            && records_in(first)[found].path == first[e1].unwrap().path,
{
    let listings = seq![Some(first), Some(second)];
    let ours = records_in(first);
    let place = place_in(first, e1);
    assert(listings =~= seq![Some(first)] + seq![Some(second)]);
    lemma_registry_in_a_row(seq![Some(first)], seq![Some(second)]);
    lemma_registry_of_one(Some(first));
    lemma_registry_of_one(Some(second));
    lemma_prefixed_name_answers(name, platform);
    lemma_record_of_entry(first, e1);
    lemma_first_match(ours, name, platform);
    lemma_first_match_in_a_row(ours, records_in(second), name, platform);
    let found = first_match(ours, name, platform).unwrap();
    if forall|e: int|
        0 <= e < e1 && record_of(#[trigger] first[e]) is Some ==> record_of(
            first[e],
        ).unwrap().target_name(platform) != name {
        if found < place {
            lemma_entry_of_record(first, found);
            let e = choose|e: int|
                0 <= e < first.len() && record_of(#[trigger] first[e]) == Some(ours[found])
                    && place_in(first, e) == found;
            if e1 <= e {
                lemma_places_in_order(first, e1, e);
            }
            assert(e < e1);
        }
    }
    found
}

} // verus!
