//! Exporting and importing `drive-data.json`.
//!
//! Two codecs write the file. The typed one reads its rows through
//! [`RouteRow`], so that the column list stands in one place; what it writes is
//! what the compatible one writes. This module holds what an export decides;
//! the caller queries the store and serialises.

use vstd::prelude::*;
use vstd::string::*;

use crate::order;
use crate::row;
use crate::row::DecodeError;
use crate::row::BlobsView;
use crate::row::DecodedBlobs;
use crate::row::EncodedBlobs;
use crate::row::Route;
use crate::row::RouteAggregates;
use crate::row::RouteRow;
use crate::row::RouteView;
use crate::row::RowError;
use crate::row::SqlCell;
use crate::text;

verus! {

/// The codec that a normal installation runs.
#[derive(Debug, Clone, Copy, PartialEq, Eq, Structural)]
pub struct JsonCompatCodec;

/// The codec that reads rows through [`RouteRow`].
#[derive(Debug, Clone, Copy, PartialEq, Eq, Structural)]
pub struct TypedCodec;

/// A codec for `drive-data.json`.
#[derive(Debug, Clone, Copy, PartialEq, Eq, Structural)]
pub enum Codec {
    JsonCompat(JsonCompatCodec),
    Typed(TypedCodec),
}

/// Pick a codec from the experimental flag.
pub fn select_codec(experimental: bool) -> (res: Codec)
    ensures
        res == (if experimental {
            Codec::Typed(TypedCodec)
        } else {
            Codec::JsonCompat(JsonCompatCodec)
        }),
{
    if experimental {
        Codec::Typed(TypedCodec)
    } else {
        Codec::JsonCompat(JsonCompatCodec)
    }
}

// ---------------------------------------------------------------------------
// The envelope
// ---------------------------------------------------------------------------

/// The tags of one drive.
#[derive(Debug, Clone, PartialEq, Eq)]
pub struct DriveTags {
    pub drive_key: String,
    pub tags: Vec<String>,
}

/// What a row of the tag table says: a drive and one of its tags.
pub open spec fn tag_rows(rows: Seq<(String, String)>) -> Seq<(Seq<char>, Seq<char>)> {
    rows.map_values(|r: (String, String)| (r.0@, r.1@))
}

/// What a list of tagged drives says.
pub open spec fn tag_groups(groups: Seq<DriveTags>) -> Seq<(Seq<char>, Seq<Seq<char>>)> {
    groups.map_values(|g: DriveTags| (g.drive_key@, text::views(g.tags@)))
}

/// The tags of a drive, in the order of the rows.
pub open spec fn tags_for(rows: Seq<(Seq<char>, Seq<char>)>, key: Seq<char>) -> Seq<Seq<char>>
    decreases rows.len(),
{
    if rows.len() == 0 {
        Seq::empty()
    } else {
        let before = tags_for(rows.drop_last(), key);
        if rows.last().0 == key {
            before.push(rows.last().1)
        } else {
            before
        }
    }
}

/// The keys are in order and no key stands there twice.
pub open spec fn keys_ascend(groups: Seq<(Seq<char>, Seq<Seq<char>>)>) -> bool {
    forall|i: int, j: int|
        0 <= i < j < groups.len() ==> order::lex_le((#[trigger] groups[i]).0, (
        #[trigger] groups[j]).0) && groups[i].0 != groups[j].0
}

/// Some group has this key.
pub open spec fn has_group(groups: Seq<(Seq<char>, Seq<Seq<char>>)>, key: Seq<char>) -> bool {
    exists|i: int| 0 <= i < groups.len() && (#[trigger] groups[i]).0 == key
}

/// `groups` is `rows` by drive: each drive that has a tag stands there once, in
/// the order of the keys, with all of its tags in the order of the rows.
pub open spec fn groups_rows(
    groups: Seq<(Seq<char>, Seq<Seq<char>>)>,
    rows: Seq<(Seq<char>, Seq<char>)>,
) -> bool {
    &&& keys_ascend(groups)
    &&& forall|i: int|
        0 <= i < groups.len() ==> (#[trigger] groups[i]).1 == tags_for(rows, groups[i].0)
            && groups[i].1.len() > 0
    &&& forall|i: int| 0 <= i < rows.len() ==> has_group(groups, (#[trigger] rows[i]).0)
}

/// The position of the first group whose key does not come before `key`.
fn group_position(groups: &Vec<DriveTags>, key: &str) -> (res: usize)
    requires
        keys_ascend(tag_groups(groups@)),
    ensures
        res <= groups.len(),
        forall|i: int|
            0 <= i < res ==> order::lex_le((#[trigger] tag_groups(groups@)[i]).0, key@)
                && tag_groups(groups@)[i].0 != key@,
        forall|i: int|
            res <= i < groups.len() ==> order::lex_le(
                key@,
                (#[trigger] tag_groups(groups@)[i]).0,
            ),
{
    let ghost g = tag_groups(groups@);
    let ghost r = order::lex_order();
    proof {
        order::lemma_lex_order();
    }
    let mut i: usize = 0;
    while i < groups.len() && !order::text_le(key, &groups[i].drive_key)
        invariant
            i <= groups.len(),
            g == tag_groups(groups@),
            r == order::lex_order(),
            vstd::relations::total_ordering(r),
            forall|j: int|
                0 <= j < i ==> order::lex_le((#[trigger] g[j]).0, key@) && g[j].0 != key@,
        decreases groups.len() - i,
    {
        assert(g[i as int].0 == groups@[i as int].drive_key@);
        assert(r(g[i as int].0, key@) || r(key@, g[i as int].0));
        assert(r(key@, key@));
        i += 1;
    }
    proof {
        assert forall|j: int| i <= j < groups.len() implies order::lex_le(
            key@,
            (#[trigger] g[j]).0,
        ) by {
            assert(g[i as int].0 == groups@[i as int].drive_key@);
            assert(r(key@, g[i as int].0));
            if j > i {
                assert(r(g[i as int].0, g[j].0));
            }
        }
    }
    i
}

proof fn lemma_tags_for_absent(rows: Seq<(Seq<char>, Seq<char>)>, key: Seq<char>)
    requires
        forall|i: int| 0 <= i < rows.len() ==> (#[trigger] rows[i]).0 != key,
    ensures
        tags_for(rows, key) == Seq::<Seq<char>>::empty(),
    decreases rows.len(),
{
    if rows.len() > 0 {
        assert forall|i: int| 0 <= i < rows.drop_last().len() implies (
        #[trigger] rows.drop_last()[i]).0 != key by {
            assert(rows[i].0 != key);
        }
        lemma_tags_for_absent(rows.drop_last(), key);
    }
}

/// Group the rows of the tag table by drive.
pub fn group_drive_tags(rows: &Vec<(String, String)>) -> (res: Vec<DriveTags>)
    ensures
        groups_rows(tag_groups(res@), tag_rows(rows@)),
{
    let ghost all = tag_rows(rows@);
    let mut out: Vec<DriveTags> = Vec::new();
    let mut i: usize = 0;
    while i < rows.len()
        invariant
            i <= rows.len(),
            all == tag_rows(rows@),
            groups_rows(tag_groups(out@), all.take(i as int)),
        decreases rows.len() - i,
    {
        let ghost before = tag_groups(out@);
        let ghost seen = all.take(i as int);
        let ghost now = all.take(i + 1);
        let key = rows[i].0.clone();
        let tag = rows[i].1.clone();
        let ghost k = key@;
        let ghost t = tag@;
        assert(now =~= seen.push((k, t)));
        let at = group_position(&out, &key);
        let known = at < out.len() && text::same_text(&out[at].drive_key, &key);
        if known {
            let mut group = out.remove(at);
            let ghost old_tags = text::views(group.tags@);
            group.tags.push(tag);
            assert(text::views(group.tags@) =~= old_tags.push(t));
            out.insert(at, group);
            assert(before[at as int].0 == k);
            assert(tag_groups(out@) =~= before.update(at as int, (k, old_tags.push(t))));
        } else {
            let mut tags: Vec<String> = Vec::new();
            tags.push(tag);
            assert(text::views(tags@) =~= seq![t]);
            out.insert(at, DriveTags { drive_key: key, tags });
            assert(tag_groups(out@) =~= before.insert(at as int, (k, seq![t])));
        }
        proof {
            lemma_grouped_one_more(before, seen, now, k, t, at as int, known, tag_groups(out@));
        }
        i += 1;
    }
    assert(all.take(i as int) =~= all);
    out
}

proof fn lemma_grouped_one_more(
    before: Seq<(Seq<char>, Seq<Seq<char>>)>,
    seen: Seq<(Seq<char>, Seq<char>)>,
    now: Seq<(Seq<char>, Seq<char>)>,
    k: Seq<char>,
    t: Seq<char>,
    at: int,
    known: bool,
    after: Seq<(Seq<char>, Seq<Seq<char>>)>,
)
    requires
        groups_rows(before, seen),
        now == seen.push((k, t)),
        0 <= at <= before.len(),
        forall|i: int|
            0 <= i < at ==> order::lex_le((#[trigger] before[i]).0, k) && before[i].0 != k,
        forall|i: int| at <= i < before.len() ==> order::lex_le(k, (#[trigger] before[i]).0),
        known == (at < before.len() && before[at].0 == k),
        known ==> after == before.update(at, (k, before[at].1.push(t))),
        !known ==> after == before.insert(at, (k, seq![t])),
    ensures
        groups_rows(after, now),
{
    let r = order::lex_order();
    order::lemma_lex_order();
    assert(now.drop_last() =~= seen);
    if known {
        assert forall|i: int| 0 <= i < after.len() implies (#[trigger] after[i]).1 == tags_for(
            now,
            after[i].0,
        ) && after[i].1.len() > 0 by {
            assert(before[i].1 == tags_for(seen, before[i].0));
        }
        assert forall|i: int| 0 <= i < now.len() implies has_group(
            after,
            (#[trigger] now[i]).0,
        ) by {
            if i < seen.len() {
                assert(has_group(before, seen[i].0));
                let j = choose|j: int| 0 <= j < before.len() && (#[trigger] before[j]).0
                    == seen[i].0;
                assert(after[j].0 == seen[i].0);
            } else {
                assert(after[at].0 == k);
            }
        }
    } else {
        // A later key differs from `k`: it does not come before the key at
        // `at`, which differs from `k` and does not come before it.
        assert forall|i: int| at <= i < before.len() implies (#[trigger] before[i]).0 != k by {
            if i > at && before[i].0 == k {
                assert(r(before[at].0, before[i].0));
                assert(r(k, before[at].0));
            }
        }
        assert forall|i: int| 0 <= i < seen.len() implies (#[trigger] seen[i]).0 != k by {
            assert(has_group(before, seen[i].0));
            let j = choose|j: int| 0 <= j < before.len() && (#[trigger] before[j]).0 == seen[i].0;
            assert(before[j].0 != k);
        }
        lemma_tags_for_absent(seen, k);
        assert forall|i: int, j: int| 0 <= i < j < after.len() implies order::lex_le(
            (#[trigger] after[i]).0,
            (#[trigger] after[j]).0,
        ) && after[i].0 != after[j].0 by {
            if i < at && j < at {
                assert(after[i] == before[i] && after[j] == before[j]);
            } else if i < at && j > at {
                assert(after[i] == before[i] && after[j] == before[j - 1]);
            } else if i > at {
                assert(after[i] == before[i - 1] && after[j] == before[j - 1]);
            } else if i == at {
                assert(after[j] == before[j - 1]);
            } else {
                assert(after[i] == before[i]);
            }
        }
        assert forall|i: int| 0 <= i < after.len() implies (#[trigger] after[i]).1 == tags_for(
            now,
            after[i].0,
        ) && after[i].1.len() > 0 by {
            if i < at {
                assert(after[i] == before[i]);
                assert(before[i].1 == tags_for(seen, before[i].0));
            } else if i > at {
                assert(after[i] == before[i - 1]);
                assert(before[i - 1].1 == tags_for(seen, before[i - 1].0));
            } else {
                assert(tags_for(now, k) =~= seq![t]);
            }
        }
        assert forall|i: int| 0 <= i < now.len() implies has_group(
            after,
            (#[trigger] now[i]).0,
        ) by {
            if i < seen.len() {
                assert(has_group(before, seen[i].0));
                let j = choose|j: int| 0 <= j < before.len() && (#[trigger] before[j]).0
                    == seen[i].0;
                if j < at {
                    assert(after[j].0 == seen[i].0);
                } else {
                    assert(after[j + 1].0 == seen[i].0);
                }
            } else {
                assert(after[at].0 == k);
            }
        }
    }
}

/// The names of the processed files, in order.
pub fn sort_processed_files(files: &Vec<String>) -> (res: Vec<String>)
    ensures
        text::views(res@) == order::sorted(text::views(files@)),
{
    order::sort_names(files)
}

/// The top of the file: the processed files, and the tags where there are any.
/// The routes stand between the two.
#[derive(Debug, Clone, PartialEq, Eq)]
pub struct Envelope {
    pub processed_files: Vec<String>,
    /// `None` leaves the tags out of the file.
    pub drive_tags: Option<Vec<DriveTags>>,
}

/// The envelope is made of these rows of the tables of processed files and of
/// tags.
pub open spec fn envelopes(
    files: Seq<Seq<char>>,
    tags: Seq<(Seq<char>, Seq<char>)>,
    envelope: Envelope,
) -> bool {
    &&& text::views(envelope.processed_files@) == order::sorted(files)
    &&& match envelope.drive_tags {
        Some(groups) => tags.len() > 0 && groups_rows(tag_groups(groups@), tags),
        None => tags.len() == 0,
    }
}

/// Put together what stands around the routes, from the rows of the tables of
/// processed files and of tags.
pub fn envelope(files: &Vec<String>, tags: &Vec<(String, String)>) -> (res: Envelope)
    ensures
        envelopes(text::views(files@), tag_rows(tags@), res),
{
    let groups = group_drive_tags(tags);
    proof {
        if tags@.len() > 0 {
            assert(has_group(tag_groups(groups@), tag_rows(tags@)[0].0));
        } else if groups@.len() > 0 {
            assert(tag_groups(groups@)[0].1 == tags_for(
                tag_rows(tags@),
                tag_groups(groups@)[0].0,
            ));
        }
    }
    let drive_tags = if groups.len() > 0 {
        Some(groups)
    } else {
        None
    };
    Envelope { processed_files: sort_processed_files(files), drive_tags }
}

// ---------------------------------------------------------------------------
// The routes
// ---------------------------------------------------------------------------

/// Why the next route could not be read.
#[derive(Debug, Clone, PartialEq, Eq)]
pub enum StreamError {
    /// The row does not have the columns of a route.
    Row(RowError),
    /// A BLOB of the row cannot be decoded.
    Blob(DecodeError),
}

/// What [`next_route`] may answer about the cells of a row: the route, where the
/// row has all its columns and its BLOBs decode, and otherwise the first fault.
pub open spec fn reads_route<D: FnOnce(&RouteRow) -> DecodedBlobs>(
    decode: D,
    cells: Seq<SqlCell>,
    res: Result<Route, StreamError>,
) -> bool {
    match res {
        Ok(route) => exists|r: RouteRow, blobs: DecodedBlobs|
            row::row_reads(r, cells) && #[trigger] call_ensures(decode, (&r,), blobs)
                && row::decode_fault(blobs) is None && route@ == row::route_of(r, blobs),
        Err(StreamError::Row(e)) => row::fails_with(cells, e),
        Err(StreamError::Blob(e)) => exists|r: RouteRow, blobs: DecodedBlobs|
            row::row_reads(r, cells) && #[trigger] call_ensures(decode, (&r,), blobs) && (
            row::decode_fault(blobs) matches Some((what, cause)) && e.context@ == "decode "@ + what
                + " "@ + r.file@ && e.cause@ == cause),
    }
}

/// Read the next route from the cells of its row. `decode` decodes the BLOBs of
/// a row; it is only asked about a row that has all its columns.
pub fn next_route<D: FnOnce(&RouteRow) -> DecodedBlobs>(cells: &Vec<SqlCell>, decode: D) -> (res:
    Result<Route, StreamError>)
    requires
        forall|r: &RouteRow|
            row::row_reads(*r, cells@) ==> #[trigger] call_requires(decode, (r,)),
    ensures
        reads_route(decode, cells@, res),
{
    let r = match RouteRow::from_row(cells) {
        Ok(r) => r,
        Err(e) => {
            return Err(StreamError::Row(e));
        },
    };
    let blobs = decode(&r);
    assert(call_ensures(decode, (&r,), blobs));
    match r.to_route(blobs) {
        Ok(route) => Ok(route),
        Err(e) => Err(StreamError::Blob(e)),
    }
}

/// What an export says when it fails: what was being done, and what went wrong.
#[derive(Debug, Clone, PartialEq, Eq)]
pub struct ExportError {
    pub context: String,
    pub cause: String,
}

/// How an export ends.
pub open spec fn export_ends(
    route_failure: Option<String>,
    serialised: Result<(), String>,
    res: Result<(), ExportError>,
) -> bool {
    match (route_failure, serialised) {
        (Some(cause), _) => res matches Err(e) && e.context@
            == "export_typed: streaming route read failed"@ && e.cause@ == cause@,
        (None, Err(cause)) => res matches Err(e) && e.context@ == "serialize JSON"@ && e.cause@
            == cause@,
        (None, Ok(_)) => res is Ok,
    }
}

/// How an export ends. A serialiser only knows that the stream of routes broke
/// off, so where reading a route failed that failure is the one to tell.
pub fn export_outcome(route_failure: Option<String>, serialised: Result<(), String>) -> (res:
    Result<(), ExportError>)
    ensures
        export_ends(route_failure, serialised, res),
{
    match route_failure {
        Some(cause) => Err(
            ExportError {
                context: "export_typed: streaming route read failed".to_owned(),
                cause,
            },
        ),
        None => match serialised {
            Ok(_) => Ok(()),
            Err(cause) => Err(ExportError { context: "serialize JSON".to_owned(), cause }),
        },
    }
}

// ---------------------------------------------------------------------------
// Laws
// ---------------------------------------------------------------------------

proof fn lemma_group_known(
    groups: Seq<(Seq<char>, Seq<Seq<char>>)>,
    rows: Seq<(Seq<char>, Seq<char>)>,
    i: int,
)
    requires
        groups_rows(groups, rows),
        0 <= i < groups.len(),
    ensures
        exists|j: int| 0 <= j < rows.len() && (#[trigger] rows[j]).0 == groups[i].0,
{
    assert(groups[i].1 == tags_for(rows, groups[i].0));
    if forall|j: int| 0 <= j < rows.len() ==> (#[trigger] rows[j]).0 != groups[i].0 {
        lemma_tags_for_absent(rows, groups[i].0);
    }
}

proof fn lemma_same_keys(
    a: Seq<(Seq<char>, Seq<Seq<char>>)>,
    b: Seq<(Seq<char>, Seq<Seq<char>>)>,
)
    requires
        keys_ascend(a),
        keys_ascend(b),
        forall|i: int| 0 <= i < a.len() ==> has_group(b, (#[trigger] a[i]).0),
        forall|i: int| 0 <= i < b.len() ==> has_group(a, (#[trigger] b[i]).0),
    ensures
        a.len() == b.len(),
        forall|i: int| 0 <= i < a.len() ==> (#[trigger] a[i]).0 == b[i].0,
    decreases a.len(),
{
    let r = order::lex_order();
    order::lemma_lex_order();
    if a.len() == 0 {
        if b.len() > 0 {
            assert(has_group(a, b[0].0));
        }
    } else {
        assert(has_group(b, a.last().0));
        let j = choose|j: int| 0 <= j < b.len() && (#[trigger] b[j]).0 == a.last().0;
        assert(has_group(a, b.last().0));
        let i = choose|i: int| 0 <= i < a.len() && (#[trigger] a[i]).0 == b.last().0;
        assert(a.last().0 == b.last().0) by {
            if i < a.len() - 1 && j < b.len() - 1 {
                assert(r(a[i].0, a[a.len() - 1].0));
                assert(r(b[j].0, b[b.len() - 1].0));
            }
        }
        let (x, y) = (a.drop_last(), b.drop_last());
        assert forall|m: int| 0 <= m < x.len() implies has_group(y, (#[trigger] x[m]).0) by {
            assert(has_group(b, a[m].0));
            let n = choose|n: int| 0 <= n < b.len() && (#[trigger] b[n]).0 == a[m].0;
            assert(a[m].0 != a[a.len() - 1].0);
            assert(y[n] == b[n]);
        }
        assert forall|m: int| 0 <= m < y.len() implies has_group(x, (#[trigger] y[m]).0) by {
            assert(has_group(a, b[m].0));
            let n = choose|n: int| 0 <= n < a.len() && (#[trigger] a[n]).0 == b[m].0;
            assert(b[m].0 != b[b.len() - 1].0);
            assert(x[n] == a[n]);
        }
        lemma_same_keys(x, y);
        assert forall|m: int| 0 <= m < a.len() implies (#[trigger] a[m]).0 == b[m].0 by {
            if m < a.len() - 1 {
                assert(x[m].0 == y[m].0);
            }
        }
    }
}

/// A stored route is read back: where the cells hold the row that was made of a
/// route, and `decode` undoes the coding of that route's BLOBs, the next route
/// is that route, with its normalized file name.
pub proof fn law_stored_route_is_read_back<D: FnOnce(&RouteRow) -> DecodedBlobs>(
    r: RouteView,
    a: RouteAggregates,
    file: Seq<char>,
    encoded: EncodedBlobs,
    now: i64,
    stored: RouteRow,
    cells: Seq<SqlCell>,
    decode: D,
    res: Result<Route, StreamError>,
)
    requires
        stored.params() == row::params_of(r, a, file, encoded, now),
        cells.len() == 55,
        forall|i: int| 0 <= i < 55 ==> row::stores(#[trigger] cells[i], stored.params()[i]),
        forall|back: RouteRow, blobs: DecodedBlobs|
            back.blobs() == encoded@ && #[trigger] call_ensures(decode, (&back,), blobs)
                ==> row::decodes_to(blobs, r),
        reads_route(decode, cells, res),
    ensures
        res matches Ok(route) && route@ == (RouteView { file, ..r }),
{
    row::law_written_row_reads_back(stored, cells);
    assert forall|back: RouteRow, blobs: DecodedBlobs|
        row::row_reads(back, cells) && #[trigger] call_ensures(
            decode,
            (&back,),
            blobs,
        ) implies row::decode_fault(blobs) is None && row::route_of(back, blobs) == (RouteView {
        file,
        ..r
    }) by {
        row::lemma_row_holds_the_route(r, a, file, encoded, now, back, blobs);
        row::law_route_survives_its_row(
            r,
            a,
            file,
            encoded,
            now,
            back,
            |b: BlobsView| blobs,
        );
    }
}

/// The tags of the drives can be grouped in one way only, so the file does not
/// depend on how the grouping is done.
pub proof fn law_one_grouping(
    a: Seq<(Seq<char>, Seq<Seq<char>>)>,
    b: Seq<(Seq<char>, Seq<Seq<char>>)>,
    rows: Seq<(Seq<char>, Seq<char>)>,
)
    requires
        groups_rows(a, rows),
        groups_rows(b, rows),
    ensures
        a == b,
{
    assert forall|i: int| 0 <= i < a.len() implies has_group(b, (#[trigger] a[i]).0) by {
        lemma_group_known(a, rows, i);
    }
    assert forall|i: int| 0 <= i < b.len() implies has_group(a, (#[trigger] b[i]).0) by {
        lemma_group_known(b, rows, i);
    }
    lemma_same_keys(a, b);
    assert forall|i: int| 0 <= i < a.len() implies a[i] == b[i] by {
        assert(a[i].0 == b[i].0);
        assert(a[i].1 == tags_for(rows, a[i].0));
        assert(b[i].1 == tags_for(rows, b[i].0));
    }
    assert(a =~= b);
}

/// The tags of a drive are those of its rows, in the order of the rows.
pub proof fn law_tags_come_in_row_order(
    rows: Seq<(Seq<char>, Seq<char>)>,
    key: Seq<char>,
    tag: Seq<char>,
    other: Seq<char>,
)
    ensures
        tags_for(Seq::empty(), key) == Seq::<Seq<char>>::empty(),
        tags_for(rows.push((key, tag)), key) == tags_for(rows, key).push(tag),
        other != key ==> tags_for(rows.push((other, tag)), key) == tags_for(rows, key),
{
    assert(rows.push((key, tag)).drop_last() =~= rows);
    assert(rows.push((other, tag)).drop_last() =~= rows);
}

proof fn lemma_tags_for_members(rows: Seq<(Seq<char>, Seq<char>)>, key: Seq<char>, tag: Seq<char>)
    ensures
        tags_for(rows, key).contains(tag) <==> rows.contains((key, tag)),
    decreases rows.len(),
{
    if rows.len() > 0 {
        let (front, last) = (rows.drop_last(), rows.last());
        let (before, all) = (tags_for(front, key), tags_for(rows, key));
        lemma_tags_for_members(front, key, tag);
        if all.contains(tag) {
            let i = choose|i: int| 0 <= i < all.len() && all[i] == tag;
            if i < before.len() {
                assert(before[i] == tag);
                let j = choose|j: int| 0 <= j < front.len() && front[j] == (key, tag);
                assert(rows[j] == (key, tag));
            } else {
                assert(rows[rows.len() - 1] == (key, tag));
            }
        }
        if rows.contains((key, tag)) {
            let j = choose|j: int| 0 <= j < rows.len() && rows[j] == (key, tag);
            if j < front.len() {
                assert(front[j] == (key, tag));
                let i = choose|i: int| 0 <= i < before.len() && before[i] == tag;
                assert(all[i] == tag);
            } else {
                assert(all.last() == tag);
            }
        }
    }
}

/// The file has every tag of the table under its drive, and no others; the
/// drives stand in the order of their keys, each once. The processed files are
/// those of the table, in order. Tags are left out of the file exactly where the
/// table has none.
pub proof fn law_envelope_holds_the_tables(
    files: Seq<Seq<char>>,
    tags: Seq<(Seq<char>, Seq<char>)>,
    envelope: Envelope,
    key: Seq<char>,
    tag: Seq<char>,
    i: int,
    j: int,
)
    requires
        envelopes(files, tags, envelope),
    ensures
        envelope.drive_tags is None <==> tags.len() == 0,
        envelope.drive_tags matches Some(groups) ==> {
            let g = tag_groups(groups@);
            &&& tags.contains((key, tag)) <==> exists|n: int|
                0 <= n < g.len() && (#[trigger] g[n]).0 == key && g[n].1.contains(tag)
            &&& 0 <= i < j < g.len() ==> order::lex_le(g[i].0, g[j].0) && g[i].0 != g[j].0
            &&& 0 <= i < g.len() ==> g[i].1 == tags_for(tags, g[i].0)
        },
        ({
            let shown = text::views(envelope.processed_files@);
            &&& shown.to_multiset() == files.to_multiset()
            &&& 0 <= i <= j < shown.len() ==> order::lex_le(shown[i], shown[j])
        }),
{
    order::law_sorting_orders_and_keeps(files, i, j);
    match envelope.drive_tags {
        Some(groups) => {
            let g = tag_groups(groups@);
            lemma_tags_for_members(tags, key, tag);
            if tags.contains((key, tag)) {
                let m = choose|m: int| 0 <= m < tags.len() && tags[m] == (key, tag);
                assert(has_group(g, tags[m].0));
                let n = choose|n: int| 0 <= n < g.len() && (#[trigger] g[n]).0 == key;
                assert(g[n].1 == tags_for(tags, g[n].0));
            }
            if exists|n: int| 0 <= n < g.len() && (#[trigger] g[n]).0 == key && g[n].1.contains(
                tag,
            ) {
                let n = choose|n: int|
                    0 <= n < g.len() && (#[trigger] g[n]).0 == key && g[n].1.contains(tag);
                assert(g[n].1 == tags_for(tags, g[n].0));
            }
        },
        None => {},
    }
}

/// An export succeeds exactly where every route was read and the file was
/// written; a route that could not be read is told before anything that the
/// serialiser says, and each failure tells its cause.
pub proof fn law_unread_routes_are_told_first(
    route_failure: Option<String>,
    serialised: Result<(), String>,
    res: Result<(), ExportError>,
)
    requires
        export_ends(route_failure, serialised, res),
    ensures
        res is Ok <==> route_failure is None && serialised is Ok,
        route_failure matches Some(cause) ==> (res matches Err(e) && e.cause@ == cause@ && e.context@
            == "export_typed: streaming route read failed"@),
        route_failure is None ==> (serialised matches Err(cause) ==> (res matches Err(e) && e.cause@
            == cause@ && e.context@ == "serialize JSON"@)),
{
}

/// What is told of a row that is no route: the first column that does not fit,
/// or, where they all do, the first BLOB that cannot be decoded, with the file
/// that it belongs to.
pub proof fn law_unreadable_rows_are_told<D: FnOnce(&RouteRow) -> DecodedBlobs>(
    decode: D,
    cells: Seq<SqlCell>,
    res: Result<Route, StreamError>,
)
    requires
        reads_route(decode, cells, res),
    ensures
        res matches Err(StreamError::Row(e)) <==> exists|i: int|
            0 <= i < 55 && (#[trigger] row::fault_at(cells, i)) is Some,
        res matches Err(StreamError::Blob(e)) ==> (cells[0] matches SqlCell::Text(file) && (
        e.context@ == "decode points "@ + file@ || e.context@ == "decode speeds "@ + file@
            || e.context@ == "decode accel "@ + file@ || e.context@ == "decode gear_runs "@
            + file@)),
        res matches Ok(route) ==> (cells[0] matches SqlCell::Text(file) && file@ == route@.file),
{
    reveal_strlit("decode ");
    reveal_strlit(" ");
    reveal_strlit("points");
    reveal_strlit("speeds");
    reveal_strlit("accel");
    reveal_strlit("gear_runs");
    reveal_strlit("decode points ");
    reveal_strlit("decode speeds ");
    reveal_strlit("decode accel ");
    reveal_strlit("decode gear_runs ");
    assert("decode "@ + "points"@ + " "@ =~= "decode points "@);
    assert("decode "@ + "speeds"@ + " "@ =~= "decode speeds "@);
    assert("decode "@ + "accel"@ + " "@ =~= "decode accel "@);
    assert("decode "@ + "gear_runs"@ + " "@ =~= "decode gear_runs "@);
    assert forall|r: RouteRow| #[trigger] row::row_reads(r, cells) implies (
    cells[0] matches SqlCell::Text(file) && file@ == r.file@) && forall|i: int|
        0 <= i < 55 ==> (#[trigger] row::fault_at(cells, i)) is None by {
        row::law_cells_fill_their_fields(r, cells);
        assert forall|i: int| 0 <= i < 55 implies (#[trigger] row::fault_at(
            cells,
            i,
        )) is None by {
            assert(row::read_as(row::COLUMN_KINDS@[i], cells[i]) == Some(r.params()[i]));
        }
    }
}

/// The rows and groups of tags say what they hold, in order.
pub proof fn law_tags_say_what_they_hold(
    rows: Seq<(String, String)>,
    groups: Seq<DriveTags>,
    i: int,
)
    ensures
        tag_rows(rows).len() == rows.len(),
        0 <= i < rows.len() ==> tag_rows(rows)[i] == (rows[i].0@, rows[i].1@),
        tag_groups(groups).len() == groups.len(),
        0 <= i < groups.len() ==> tag_groups(groups)[i] == (
            groups[i].drive_key@,
            text::views(groups[i].tags@),
        ),
{
}

} // verus!
