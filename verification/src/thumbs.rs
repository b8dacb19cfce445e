//! Thumbnails in the file browser: which listed entries get one requested,
//! how long a request is waited for before it may be repeated, and the
//! base64 text the browser shows them from.

use vstd::prelude::*;
use crate::filesystem::{lowercase, to_lowercase, FsEntry, FsEntryType};
use crate::fs_provider::last_dot;
use crate::preview::{base64_encoded, encode_base64};
use crate::strmap::StrMap;
use crate::text::chars_of;

verus! {

/// How long a thumbnail request is waited for, in milliseconds.
pub const THUMBNAIL_REQUEST_WAIT_MS: u64 = 5000;

/// The thumbnails as the file browser holds them: each path with the
/// base64 text of its picture, in the store's order.
pub fn encoded_thumbnails(thumbnails: &StrMap<Vec<u8>>) -> (r: Vec<(String, String)>)
    requires
        thumbnails.wf(),
        forall|k: Seq<char>| #[trigger] thumbnails@.contains_key(k) ==> thumbnails@[k]@.len() <= usize::MAX / 2,
    ensures
        r@.len() == thumbnails@.dom().len(),
        forall|i: int| 0 <= i < r@.len() ==> thumbnails@.contains_key(#[trigger] r@[i].0@)
            && r@[i].1@ == base64_encoded(thumbnails@[r@[i].0@]@),
        forall|k: Seq<char>| #[trigger] thumbnails@.contains_key(k) ==> exists|i: int|
            0 <= i < r@.len() && #[trigger] r@[i].0@ == k,
{
    proof {
        thumbnails.lemma_pairs();
        thumbnails.lemma_len();
    }
    let mut r: Vec<(String, String)> = Vec::new();
    let mut i: usize = 0;
    while i < thumbnails.len()
        invariant
            0 <= i <= thumbnails.pairs().len(),
            thumbnails.wf(),
            forall|k: Seq<char>| #[trigger] thumbnails@.contains_key(k) ==> thumbnails@[k]@.len() <= usize::MAX / 2,
            r@.len() == i,
            forall|j: int| 0 <= j < i ==> (#[trigger] r@[j]).0@ == thumbnails.pairs()[j].0
                && r@[j].1@ == base64_encoded(thumbnails.pairs()[j].1@),
        decreases thumbnails.pairs().len() - i,
    {
        proof {
            thumbnails.lemma_pairs();
        }
        let k = thumbnails.key_at(i);
        let v = thumbnails.value_at(i);
        assert(thumbnails@.contains_key(thumbnails.pairs()[i as int].0));
        let enc = encode_base64(v.as_slice());
        r.push((k.clone(), enc));
        i = i + 1;
    }
    proof {
        thumbnails.lemma_pairs();
        thumbnails.lemma_len();
        assert forall|j: int| 0 <= j < r@.len() implies thumbnails@.contains_key(#[trigger] r@[j].0@)
            && r@[j].1@ == base64_encoded(thumbnails@[r@[j].0@]@) by {
            assert(thumbnails@.contains_key(thumbnails.pairs()[j].0));
        }
        assert forall|k: Seq<char>| #[trigger] thumbnails@.contains_key(k) implies exists|j: int|
            0 <= j < r@.len() && #[trigger] r@[j].0@ == k by {
            let j = choose|j: int| 0 <= j < thumbnails.pairs().len() && #[trigger] thumbnails.pairs()[j].0 == k;
            assert(r@[j].0@ == k);
        }
    }
    r
}

/// What follows the last `.` of a name, or the whole name without one.
pub open spec fn last_dot_segment(name: Seq<char>) -> Seq<char> {
    match last_dot(name) {
        Some(i) => name.skip(i + 1),
        None => name,
    }
}

/// The extensions of the pictures the browser asks thumbnails for.
pub open spec fn is_browser_image_extension(e: Seq<char>) -> bool {
    ||| e == "jpg"@
    ||| e == "jpeg"@
    ||| e == "png"@
    ||| e == "gif"@
    ||| e == "webp"@
    ||| e == "bmp"@
}

/// Whether a listed entry gets a thumbnail requested: a file whose name
/// ends in a picture extension (in any case), with no thumbnail yet and no
/// request still awaited.
pub open spec fn wants_thumbnail_request(
    e: FsEntry,
    have: Set<Seq<char>>,
    requested: Set<Seq<char>>,
) -> bool {
    &&& is_browser_image_extension(lowercase(last_dot_segment(e.name@)))
    &&& e.entry_type == FsEntryType::File
    &&& !have.contains(e.path@)
    &&& !requested.contains(e.path@)
}

/// The paths asked for, in listing order.
pub open spec fn thumbnail_requests_spec(
    entries: Seq<FsEntry>,
    have: Set<Seq<char>>,
    requested: Set<Seq<char>>,
) -> Seq<Seq<char>>
    decreases entries.len(),
{
    if entries.len() == 0 {
        Seq::empty()
    } else {
        let rest = thumbnail_requests_spec(entries.drop_last(), have, requested);
        if wants_thumbnail_request(entries.last(), have, requested) {
            rest.push(entries.last().path@)
        } else {
            rest
        }
    }
}

/// The awaited requests after `paths` were asked for at `now`.
pub open spec fn marked_requested(m: Map<Seq<char>, u64>, paths: Seq<Seq<char>>, now: u64) -> Map<Seq<char>, u64>
    decreases paths.len(),
{
    if paths.len() == 0 {
        m
    } else {
        marked_requested(m, paths.drop_last(), now).insert(paths.last(), now)
    }
}

fn last_dot_segment_chars(cs: &Vec<char>) -> (r: Vec<char>)
    ensures
        r@ == last_dot_segment(cs@),
{
    let mut j = cs.len();
    assert(cs@.take(j as int) =~= cs@);
    while j > 0 && cs[j - 1] != '.'
        invariant
            0 <= j <= cs@.len(),
            last_dot(cs@) == last_dot(cs@.take(j as int)),
        decreases j,
    {
        assert(cs@.take(j as int).drop_last() =~= cs@.take(j - 1));
        j = j - 1;
    }
    if j == 0 {
        assert(cs@.take(0) =~= Seq::<char>::empty());
    } else {
        assert(cs@.take(j as int).last() == '.');
    }
    let start = j;
    let mut r: Vec<char> = Vec::new();
    let mut i = start;
    while i < cs.len()
        invariant
            start <= i <= cs@.len(),
            r@ == cs@.subrange(start as int, i as int),
        decreases cs@.len() - i,
    {
        r.push(cs[i]);
        assert(cs@.subrange(start as int, i + 1) =~= cs@.subrange(start as int, i as int).push(cs@[i as int]));
        i = i + 1;
    }
    assert(cs@.subrange(start as int, cs@.len() as int) =~= cs@.skip(start as int));
    r
}

fn is_browser_image(name: &String) -> (b: bool)
    ensures
        b == is_browser_image_extension(lowercase(last_dot_segment(name@))),
{
    let cs = chars_of(name.as_str());
    let seg = last_dot_segment_chars(&cs);
    let mut seg_text = String::new();
    crate::text::push_chars(&mut seg_text, seg.as_slice());
    let e = to_lowercase(seg_text.as_str());
    e == String::from_str("jpg") || e == String::from_str("jpeg") || e == String::from_str("png")
        || e == String::from_str("gif") || e == String::from_str("webp") || e == String::from_str("bmp")
}

/// The listed entries that get a thumbnail requested, given the paths that
/// have one (`have`) and the requests still awaited (`requested`); each is
/// recorded as requested at `now`. Returns the paths to ask for, in listing
/// order.
pub fn request_thumbnails<V>(
    entries: &Vec<FsEntry>,
    have: &StrMap<V>,
    requested: &mut StrMap<u64>,
    now: u64,
) -> (paths: Vec<String>)
    requires
        have.wf(),
        old(requested).wf(),
    ensures
        final(requested).wf(),
        paths@.map_values(|p: String| p@) == thumbnail_requests_spec(
            entries@,
            have@.dom(),
            old(requested)@.dom(),
        ),
        final(requested)@ == marked_requested(old(requested)@, paths@.map_values(|p: String| p@), now),
{
    let ghost req0 = requested@.dom();
    let mut paths: Vec<String> = Vec::new();
    let mut i: usize = 0;
    while i < entries.len()
        invariant
            0 <= i <= entries@.len(),
            have.wf(),
            requested.wf(),
            requested@ == old(requested)@,
            req0 == old(requested)@.dom(),
            paths@.map_values(|p: String| p@) == thumbnail_requests_spec(entries@.take(i as int), have@.dom(), req0),
        decreases entries@.len() - i,
    {
        let e = &entries[i];
        assert(entries@.take(i + 1).drop_last() =~= entries@.take(i as int));
        assert(entries@.take(i + 1).last() == entries@[i as int]);
        let wanted = is_browser_image(&e.name) && matches!(e.entry_type, FsEntryType::File)
            && !have.contains_key(e.path.as_str()) && !requested.contains_key(e.path.as_str());
        if wanted {
            paths.push(e.path.clone());
            assert(paths@.map_values(|p: String| p@) =~= thumbnail_requests_spec(entries@.take(i as int), have@.dom(), req0).push(e.path@));
        }
        i = i + 1;
    }
    assert(entries@.take(entries@.len() as int) =~= entries@);
    let ghost m0 = requested@;
    let mut j: usize = 0;
    while j < paths.len()
        invariant
            0 <= j <= paths@.len(),
            requested.wf(),
            requested@ == marked_requested(m0, paths@.map_values(|p: String| p@).take(j as int), now),
        decreases paths@.len() - j,
    {
        let ghost ps = paths@.map_values(|p: String| p@);
        assert(ps.take(j + 1).drop_last() =~= ps.take(j as int));
        assert(ps.take(j + 1).last() == paths@[j as int]@);
        requested.insert(paths[j].clone(), now);
        j = j + 1;
    }
    assert(paths@.map_values(|p: String| p@).take(paths@.len() as int) =~= paths@.map_values(|p: String| p@));
    paths
}

/// Forgets the requests made `THUMBNAIL_REQUEST_WAIT_MS` or more before
/// `now`, so that they may be repeated; a request stamped later than `now`
/// is kept.
pub fn expire_thumbnail_requests(requested: &mut StrMap<u64>, now: u64)
    requires
        old(requested).wf(),
    ensures
        final(requested).wf(),
        forall|k: Seq<char>| #[trigger] final(requested)@.contains_key(k) <==> old(requested)@.contains_key(k)
            && (if now >= old(requested)@[k] { now - old(requested)@[k] } else { 0 }) < THUMBNAIL_REQUEST_WAIT_MS,
        forall|k: Seq<char>| #[trigger] final(requested)@.contains_key(k) ==> final(requested)@[k] == old(requested)@[k],
{
    let ghost orig = requested@;
    let mut i: usize = 0;
    while i < requested.len()
        invariant
            requested.wf(),
            0 <= i <= requested.pairs().len(),
            forall|k: Seq<char>| #[trigger] requested@.contains_key(k) ==> orig.contains_key(k) && requested@[k] == orig[k],
            forall|k: Seq<char>| orig.contains_key(k) && (if now >= orig[k] { now - orig[k] } else { 0 })
                < THUMBNAIL_REQUEST_WAIT_MS ==> #[trigger] requested@.contains_key(k),
            forall|j: int| 0 <= j < i ==> (if now >= #[trigger] requested.pairs()[j].1 { now - requested.pairs()[j].1 } else { 0 })
                < THUMBNAIL_REQUEST_WAIT_MS,
        decreases requested.pairs().len() - i,
    {
        proof {
            requested.lemma_pairs();
        }
        let ghost before = requested.pairs();
        let ghost before_map = requested@;
        let t = *requested.value_at(i);
        let age: u64 = if now >= t { now - t } else { 0 };
        if age < THUMBNAIL_REQUEST_WAIT_MS {
            i = i + 1;
        } else {
            requested.remove_at(i);
            proof {
                assert forall|j: int| 0 <= j < i implies (if now >= #[trigger] requested.pairs()[j].1 { now - requested.pairs()[j].1 } else { 0 })
                    < THUMBNAIL_REQUEST_WAIT_MS by {
                    assert(requested.pairs()[j] == before[j]);
                }
                assert forall|q: Seq<char>| orig.contains_key(q) && (if now >= orig[q] { now - orig[q] } else { 0 })
                    < THUMBNAIL_REQUEST_WAIT_MS implies #[trigger] requested@.contains_key(q) by {
                    assert(before_map.contains_key(q));
                    if q == before[i as int].0 {
                        assert(before_map[q] == before[i as int].1);
                    }
                }
            }
        }
    }
    proof {
        requested.lemma_pairs();
        assert forall|q: Seq<char>| #[trigger] requested@.contains_key(q) implies (if now >= orig[q] { now - orig[q] } else { 0 })
            < THUMBNAIL_REQUEST_WAIT_MS by {
            let j = choose|j: int| 0 <= j < requested.pairs().len() && #[trigger] requested.pairs()[j].0 == q;
            assert(requested@[requested.pairs()[j].0] == requested.pairs()[j].1);
        }
    }
}

} // verus!
