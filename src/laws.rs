//! Properties of the classifier and of the selection, proved over their specs.
use vstd::prelude::*;
use crate::keys::{
    decimal, digit, expected_key_of, extension_matches, file_name_of, has_marker, has_thumb_tag,
    identifier_of, marker, raw_extension_of, thumb_tag, thumbnail_key,
};
use crate::selection::{
    candidate_pred, candidates_of, existing_of, existing_pred, is_candidate, is_existing,
    lacks_thumbnail, resize_targets, target_pred,
};
use crate::text::{
    lacks, last_index, lemma_last_index_append_holding, lemma_last_index_append_lacking,
    lemma_last_index_bounds, occurs_at,
};

verus! {

/// A key without an extension never passes the extension filter, whatever the
/// configured target.
pub proof fn lemma_no_extension_never_matches(k: Seq<char>, target: Option<Seq<char>>)
    requires
        raw_extension_of(k) is None,
    ensures
        !extension_matches(k, target),
{
}

/// A key that carries the marker of some size is a thumbnail.
pub proof fn lemma_marker_implies_thumbnail(k: Seq<char>, size: nat)
    requires
        has_marker(k, size),
    ensures
        has_thumb_tag(k),
{
    let i = choose|i: int| occurs_at(k, marker(size), i);
    let m = marker(size);
    assert(m.subrange(0, 6) =~= thumb_tag());
    assert(k.subrange(i, i + 6) =~= m.subrange(0, 6));
    assert(occurs_at(k, thumb_tag(), i));
}

proof fn lemma_decimal_lacks(n: nat, c: char)
    requires
        forall|d: nat| d < 10 ==> digit(d) != c,
    ensures
        lacks(decimal(n), c),
    decreases n,
{
    if n >= 10 {
        lemma_decimal_lacks(n / 10, c);
    }
}

/// The part of a thumbnail key after the identifier's `/`.
spec fn thumb_tail(name: Seq<char>, size: nat) -> Seq<char> {
    marker(size) + seq!['_'] + name
}

proof fn lemma_marker_lacks(size: nat, c: char)
    requires
        forall|d: nat| d < 10 ==> digit(d) != c,
        c != 't' && c != 'h' && c != 'u' && c != 'm' && c != 'b' && c != '_' && c != 'x',
    ensures
        lacks(marker(size) + seq!['_'], c),
{
    lemma_decimal_lacks(size, c);
    let d = decimal(size);
    assert(marker(size) + seq!['_'] =~= thumb_tag() + d + seq!['x'] + d + seq!['_']);
}

proof fn lemma_tail_lacks(name: Seq<char>, size: nat, c: char)
    requires
        forall|d: nat| d < 10 ==> digit(d) != c,
        c != 't' && c != 'h' && c != 'u' && c != 'm' && c != 'b' && c != '_' && c != 'x',
        lacks(name, c),
    ensures
        lacks(thumb_tail(name, size), c),
{
    lemma_marker_lacks(size, c);
    assert(thumb_tail(name, size) =~= (marker(size) + seq!['_']) + name);
}

/// Where the identifier and file name hold no `/`, the thumbnail key splits
/// back into them at its last `/`.
proof fn lemma_thumbnail_key_last_slash(p: Seq<char>, id: Seq<char>, name: Seq<char>, size: nat)
    requires
        lacks(name, '/'),
    ensures
        last_index(thumbnail_key(p, id, name, size), '/') == p.len() + 1 + id.len(),
        thumbnail_key(p, id, name, size) == (p + seq!['/'] + id + seq!['/']) + thumb_tail(
            name,
            size,
        ),
{
    let head = p + seq!['/'] + id + seq!['/'];
    lemma_tail_lacks(name, size, '/');
    assert(thumbnail_key(p, id, name, size) =~= head + thumb_tail(name, size));
    lemma_last_index_append_lacking(head, thumb_tail(name, size), '/');
    assert(head.last() == '/');
}

/// Thumbnail keys of distinct identifier and file name pairs differ, for a
/// fixed prefix and size; each pair has one thumbnail key.
pub proof fn lemma_thumbnail_key_injective(
    prefix: Seq<char>,
    size: nat,
    id1: Seq<char>,
    name1: Seq<char>,
    id2: Seq<char>,
    name2: Seq<char>,
)
    requires
        lacks(id1, '/'),
        lacks(name1, '/'),
        lacks(id2, '/'),
        lacks(name2, '/'),
        thumbnail_key(prefix, id1, name1, size) == thumbnail_key(prefix, id2, name2, size),
    ensures
        id1 == id2,
        name1 == name2,
{
    let k = thumbnail_key(prefix, id1, name1, size);
    lemma_thumbnail_key_last_slash(prefix, id1, name1, size);
    lemma_thumbnail_key_last_slash(prefix, id2, name2, size);
    let a: int = prefix.len() + 1int;
    assert(id1 =~= k.subrange(a, a + id1.len() as int));
    assert(id2 =~= k.subrange(a, a + id2.len() as int));
    let m = marker(size).len() + 1;
    assert(k.len() == a + id1.len() + 1 + m + name1.len());
    assert(name1 =~= k.subrange(k.len() - name1.len(), k.len() as int));
    assert(name2 =~= k.subrange(k.len() - name2.len(), k.len() as int));
}

/// The extension of a file name.
spec fn name_extension(n: Seq<char>) -> Option<Seq<char>> {
    let d = last_index(n, '.');
    if d < 0 {
        None
    } else {
        Some(n.subrange(d + 1, n.len() as int))
    }
}

/// Text without `.` put in front of a file name with an extension keeps the
/// extension.
proof fn lemma_name_extension_after(m: Seq<char>, n: Seq<char>)
    requires
        lacks(m, '.'),
        last_index(n, '.') >= 0,
    ensures
        name_extension(m + n) == name_extension(n),
{
    lemma_last_index_append_holding(m, n, '.');
    lemma_last_index_bounds(n, '.');
    let d = last_index(n, '.');
    assert((m + n).subrange(m.len() + d + 1, (m + n).len() as int) =~= n.subrange(
        d + 1,
        n.len() as int,
    ));
}

/// The file name of a key holds no `/`.
pub proof fn lemma_file_name_lacks_slash(k: Seq<char>)
    ensures
        lacks(file_name_of(k), '/'),
{
    lemma_last_index_bounds(k, '/');
}

/// The expected thumbnail key of a candidate passes the same extension filter,
/// is a thumbnail of the configured size, and so is no candidate itself.
pub proof fn lemma_expected_key_is_existing(
    k: Seq<char>,
    target: Option<Seq<char>>,
    prefix: Seq<char>,
    size: nat,
)
    requires
        is_candidate(k, target),
        expected_key_of(k, prefix, size) is Some,
    ensures
        is_existing(expected_key_of(k, prefix, size)->0, target, size),
        has_thumb_tag(expected_key_of(k, prefix, size)->0),
{
    let t = expected_key_of(k, prefix, size)->0;
    let id = identifier_of(k);
    let name = file_name_of(k);
    lemma_file_name_lacks_slash(k);
    lemma_thumbnail_key_last_slash(prefix, id, name, size);
    let head = prefix + seq!['/'] + id + seq!['/'];
    assert(t.subrange(head.len() as int, t.len() as int) =~= thumb_tail(name, size));
    assert(file_name_of(t) == thumb_tail(name, size));
    // the extension of the thumbnail is that of the source
    let mt = marker(size) + seq!['_'];
    lemma_marker_lacks(size, '.');
    assert(thumb_tail(name, size) =~= mt + name);
    lemma_name_extension_after(mt, name);
    assert(raw_extension_of(t) == raw_extension_of(k));
    // the marker stands right after the identifier's `/`
    let m = marker(size);
    assert(t.subrange(head.len() as int, (head.len() + m.len()) as int) =~= m);
    assert(occurs_at(t, m, head.len() as int));
    lemma_marker_implies_thumbnail(t, size);
}

/// The thumbnails that one run stores: the expected key of each target.
pub open spec fn stored_thumbnails(targets: Seq<Seq<char>>, prefix: Seq<char>, size: nat) -> Seq<
    Seq<char>,
> {
    targets.map_values(|c: Seq<char>| expected_key_of(c, prefix, size)->0)
}

/// Once a run has stored the thumbnail of each of its targets, a second run
/// over the same sources selects nothing: whatever order the store lists its
/// keys in, provided it lists exactly the keys of the first listing and the
/// stored thumbnails.
pub proof fn lemma_second_run_selects_nothing(
    keys: Seq<Seq<char>>,
    keys2: Seq<Seq<char>>,
    target: Option<Seq<char>>,
    prefix: Seq<char>,
    size: nat,
)
    requires
        forall|k: Seq<char>|
            #[trigger] keys2.contains(k) <==> (keys.contains(k) || stored_thumbnails(
                resize_targets(keys, target, prefix, size),
                prefix,
                size,
            ).contains(k)),
    ensures
        resize_targets(keys2, target, prefix, size) == Seq::<Seq<char>>::empty(),
{
    broadcast use Seq::lemma_filter_pred, Seq::lemma_filter_contains, Seq::lemma_filter_contains_rev;

    let cp = candidate_pred(target);
    let ep = existing_pred(target, size);
    let cands = candidates_of(keys, target);
    let ex1 = existing_of(keys, target, size);
    let targets = resize_targets(keys, target, prefix, size);
    let thumbs = stored_thumbnails(targets, prefix, size);
    let cands2 = candidates_of(keys2, target);
    let ex2 = existing_of(keys2, target, size);
    // each stored thumbnail is an existing thumbnail and no candidate
    assert forall|j: int| 0 <= j < thumbs.len() implies is_existing(thumbs[j], target, size)
        && !is_candidate(thumbs[j], target) by {
        let c = targets[j];
        assert(targets.contains(c));
        assert(cands.contains(c));
        let i = choose|i: int| 0 <= i < cands.len() && cands[i] == c;
        assert(cp(cands[i]));
        assert(target_pred(ex1, prefix, size)(targets[j]));
        lemma_expected_key_is_existing(c, target, prefix, size);
    }
    // a listed existing thumbnail is among those of the second listing
    assert forall|t: Seq<char>| keys2.contains(t) && is_existing(t, target, size) implies #[trigger] ex2.contains(
        t,
    ) by {
        let j = choose|j: int| 0 <= j < keys2.len() && keys2[j] == t;
        assert(ep(keys2[j]));
    }
    let still_lacking = target_pred(ex2, prefix, size);
    assert forall|i: int| 0 <= i < cands2.len() implies !still_lacking(cands2[i]) by {
        let c = cands2[i];
        assert(cands2.contains(c));
        assert(keys2.contains(c));
        assert(cp(c));
        if thumbs.contains(c) {
            let j = choose|j: int| 0 <= j < thumbs.len() && thumbs[j] == c;
            assert(!is_candidate(thumbs[j], target));
        }
        assert(keys.contains(c));
        let q = choose|q: int| 0 <= q < keys.len() && keys[q] == c;
        assert(cands.contains(keys[q]));
        if let Some(t) = expected_key_of(c, prefix, size) {
            if ex1.contains(t) {
                assert(keys.contains(t));
                assert(ep(t));
                assert(keys2.contains(t));
            } else {
                assert(target_pred(ex1, prefix, size)(c));
                assert(targets.contains(c));
                let j = choose|j: int| 0 <= j < targets.len() && targets[j] == c;
                assert(thumbs[j] == t);
                assert(thumbs.contains(t));
                assert(keys2.contains(t));
                assert(is_existing(thumbs[j], target, size));
            }
            assert(ex2.contains(t));
        }
    }
    let r = cands2.filter(still_lacking);
    if r.len() > 0 {
        assert(still_lacking(r[0]));
        assert(r.contains(r[0]));
        assert(cands2.contains(r[0]));
    }
    assert(r =~= Seq::<Seq<char>>::empty());
}

} // verus!
