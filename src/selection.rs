//! Selection of the resize targets from a paged listing of keys: the sources
//! that pass the extension filter, are no thumbnails, and whose expected
//! thumbnail is not among the keys listed.
use vstd::prelude::*;
use crate::keys::{
    expected_key_of, expected_thumbnail_key, extension_matches, has_marker, has_thumb_tag,
    is_any_thumbnail, is_thumbnail_marker_present, matches_target_extension,
};

verus! {

/// The job configuration that one invocation receives.
pub struct InputEvent {
    pub bucket_name: String,
    pub prefix: String,
    pub tgt_size: u32,
    pub tgt_ext: Option<String>,
}

impl InputEvent {
    pub fn new(bucket_name: String, prefix: String, tgt_size: u32, tgt_ext: Option<String>) -> (r:
        InputEvent)
        ensures
            r.bucket_name == bucket_name,
            r.prefix == prefix,
            r.tgt_size == tgt_size,
            r.tgt_ext == tgt_ext,
    {
        InputEvent { bucket_name, prefix, tgt_size, tgt_ext }
    }
}

/// The optional target extension as characters.
pub open spec fn ext_view(e: Option<String>) -> Option<Seq<char>> {
    match e {
        Some(t) => Some(t@),
        None => None,
    }
}

/// The characters of each key.
pub open spec fn key_views(v: Seq<String>) -> Seq<Seq<char>> {
    v.map_values(|s: String| s@)
}

/// A source eligible for resizing: it passes the extension filter and is no
/// thumbnail of any size.
pub open spec fn is_candidate(k: Seq<char>, target: Option<Seq<char>>) -> bool {
    extension_matches(k, target) && !has_thumb_tag(k)
}

/// An existing thumbnail of the configured size.
pub open spec fn is_existing(k: Seq<char>, target: Option<Seq<char>>, size: nat) -> bool {
    extension_matches(k, target) && has_marker(k, size)
}

pub open spec fn candidate_pred(target: Option<Seq<char>>) -> spec_fn(Seq<char>) -> bool {
    |k: Seq<char>| is_candidate(k, target)
}

pub open spec fn existing_pred(target: Option<Seq<char>>, size: nat) -> spec_fn(Seq<char>) -> bool {
    |k: Seq<char>| is_existing(k, target, size)
}

/// A candidate whose expected thumbnail key can be formed and is not listed.
pub open spec fn lacks_thumbnail(
    c: Seq<char>,
    existing: Seq<Seq<char>>,
    prefix: Seq<char>,
    size: nat,
) -> bool {
    match expected_key_of(c, prefix, size) {
        Some(t) => !existing.contains(t),
        None => false,
    }
}

pub open spec fn target_pred(existing: Seq<Seq<char>>, prefix: Seq<char>, size: nat) -> spec_fn(
    Seq<char>,
) -> bool {
    |c: Seq<char>| lacks_thumbnail(c, existing, prefix, size)
}

/// The candidates among `keys`, in listing order.
pub open spec fn candidates_of(keys: Seq<Seq<char>>, target: Option<Seq<char>>) -> Seq<Seq<char>> {
    keys.filter(candidate_pred(target))
}

/// The existing thumbnails of `size` among `keys`, in listing order.
pub open spec fn existing_of(keys: Seq<Seq<char>>, target: Option<Seq<char>>, size: nat) -> Seq<
    Seq<char>,
> {
    keys.filter(existing_pred(target, size))
}

/// The resize targets of a whole listing, in listing order.
pub open spec fn resize_targets(
    keys: Seq<Seq<char>>,
    target: Option<Seq<char>>,
    prefix: Seq<char>,
    size: nat,
) -> Seq<Seq<char>> {
    candidates_of(keys, target).filter(
        target_pred(existing_of(keys, target, size), prefix, size),
    )
}

/// The resize targets accumulated over the pages of one listing.
pub struct Selection {
    prefix: String,
    size: u32,
    target: Option<String>,
    candidates: Vec<String>,
    existing: Vec<String>,
    seen: Ghost<Seq<Seq<char>>>,
}

impl Selection {
    /// The keys of all pages added so far, in order.
    pub closed spec fn seen(&self) -> Seq<Seq<char>> {
        self.seen@
    }

    pub closed spec fn prefix(&self) -> Seq<char> {
        self.prefix@
    }

    pub closed spec fn size(&self) -> nat {
        self.size as nat
    }

    pub closed spec fn target(&self) -> Option<Seq<char>> {
        ext_view(self.target)
    }

    pub closed spec fn wf(&self) -> bool {
        &&& key_views(self.candidates@) == candidates_of(self.seen@, self.target())
        &&& key_views(self.existing@) == existing_of(self.seen@, self.target(), self.size())
    }

    /// An empty selection for the configuration of `event`.
    pub fn new(event: &InputEvent) -> (r: Selection)
        ensures
            r.wf(),
            r.seen() == Seq::<Seq<char>>::empty(),
            r.prefix() == event.prefix@,
            r.size() == event.tgt_size as nat,
            r.target() == ext_view(event.tgt_ext),
    {
        let r = Selection {
            prefix: event.prefix.clone(),
            size: event.tgt_size,
            target: event.tgt_ext.clone(),
            candidates: Vec::new(),
            existing: Vec::new(),
            seen: Ghost(Seq::empty()),
        };
        proof {
            reveal(Seq::filter);
            assert(key_views(r.candidates@) =~= Seq::<Seq<char>>::empty());
            assert(key_views(r.existing@) =~= Seq::<Seq<char>>::empty());
        }
        r
    }

    /// Takes in the keys of one page of the listing.
    pub fn add_page(&mut self, keys: &Vec<String>)
        requires
            old(self).wf(),
        ensures
            final(self).wf(),
            final(self).seen() == old(self).seen() + key_views(keys@),
            final(self).prefix() == old(self).prefix(),
            final(self).size() == old(self).size(),
            final(self).target() == old(self).target(),
    {
        let ghost start = self.seen@;
        let mut i: usize = 0;
        while i < keys.len()
            invariant
                self.wf(),
                i <= keys.len(),
                self.seen@ == start + key_views(keys@).subrange(0, i as int),
                self.prefix() == old(self).prefix(),
                self.size() == old(self).size(),
                self.target() == old(self).target(),
            decreases keys.len() - i,
        {
            let k = &keys[i];
            let ghost before = self.seen@;
            let ghost after = before.push(k@);
            let cand = matches_target_extension(k.as_str(), &self.target) && !is_any_thumbnail(
                k.as_str(),
            );
            let exist = matches_target_extension(k.as_str(), &self.target)
                && is_thumbnail_marker_present(k.as_str(), self.size);
            if cand {
                self.candidates.push(k.clone());
            }
            if exist {
                self.existing.push(k.clone());
            }
            proof {
                reveal(Seq::filter);
                assert(after.drop_last() =~= before);
                assert(after.last() == k@);
                assert(key_views(self.candidates@) =~= candidates_of(after, self.target()));
                assert(key_views(self.existing@) =~= existing_of(
                    after,
                    self.target(),
                    self.size(),
                ));
                assert(start + key_views(keys@).subrange(0, i + 1) =~= after);
                self.seen = Ghost(after);
            }
            i = i + 1;
        }
        assert(key_views(keys@).subrange(0, keys.len() as int) =~= key_views(keys@));
    }

    /// The resize targets of the keys added so far: the candidates, in listing
    /// order, whose expected thumbnail key can be formed and is not among the
    /// existing thumbnails of all pages.
    pub fn targets(&self) -> (r: Vec<String>)
        requires
            self.wf(),
        ensures
            key_views(r@) == resize_targets(self.seen(), self.target(), self.prefix(), self.size()),
    {
        let ghost cands = key_views(self.candidates@);
        let ghost ex = key_views(self.existing@);
        let ghost p = target_pred(ex, self.prefix(), self.size());
        let mut r: Vec<String> = Vec::new();
        let mut i: usize = 0;
        while i < self.candidates.len()
            invariant
                self.wf(),
                i <= self.candidates.len(),
                cands == key_views(self.candidates@),
                ex == key_views(self.existing@),
                p == target_pred(ex, self.prefix(), self.size()),
                key_views(r@) == cands.subrange(0, i as int).filter(p),
            decreases self.candidates.len() - i,
        {
            let c = &self.candidates[i];
            let keep = match expected_thumbnail_key(c.as_str(), self.prefix.as_str(), self.size) {
                Ok(t) => !contains_key(&self.existing, &t),
                Err(_) => false,
            };
            proof {
                reveal(Seq::filter);
                assert(cands.subrange(0, i + 1).drop_last() =~= cands.subrange(0, i as int));
                assert(cands.subrange(0, i + 1).last() == c@);
                assert(keep == p(c@));
            }
            if keep {
                r.push(c.clone());
            }
            proof {
                assert(key_views(r@) =~= cands.subrange(0, i + 1).filter(p));
            }
            i = i + 1;
        }
        assert(cands.subrange(0, self.candidates.len() as int) =~= cands);
        r
    }
}

/// What the listing does after a page has been taken in.
pub enum ListingStep {
    /// Request the page that starts at this continuation cursor.
    FetchPage(String),
    /// The listing is complete: process these resize targets, in order.
    Process(Vec<String>),
}

impl Selection {
    /// Takes in one page of the listing and the continuation cursor that came
    /// with it. The targets are given out only once no cursor is left, so that
    /// thumbnails listed on any page count for the sources of every page.
    pub fn on_page(&mut self, keys: &Vec<String>, next_cursor: Option<String>) -> (r: ListingStep)
        requires
            old(self).wf(),
        ensures
            final(self).wf(),
            final(self).seen() == old(self).seen() + key_views(keys@),
            final(self).prefix() == old(self).prefix(),
            final(self).size() == old(self).size(),
            final(self).target() == old(self).target(),
            match next_cursor {
                Some(c) => r == ListingStep::FetchPage(c),
                None => r matches ListingStep::Process(t) && key_views(t@) == resize_targets(
                    final(self).seen(),
                    final(self).target(),
                    final(self).prefix(),
                    final(self).size(),
                ),
            },
    {
        self.add_page(keys);
        match next_cursor {
            Some(c) => ListingStep::FetchPage(c),
            None => ListingStep::Process(self.targets()),
        }
    }
}

/// Whether `key` is among `keys`.
fn contains_key(keys: &Vec<String>, key: &String) -> (r: bool)
    ensures
        r == key_views(keys@).contains(key@),
{
    let mut i: usize = 0;
    while i < keys.len()
        invariant
            i <= keys.len(),
            forall|j: int| 0 <= j < i ==> keys@[j]@ != key@,
        decreases keys.len() - i,
    {
        if keys[i] == *key {
            assert(key_views(keys@)[i as int] == key@);
            return true;
        }
        i = i + 1;
    }
    assert forall|j: int| 0 <= j < keys.len() implies key_views(keys@)[j] != key@ by {}
    false
}

/// The resize targets of a listing given as one sequence of keys.
pub fn select_targets(event: &InputEvent, keys: &Vec<String>) -> (r: Vec<String>)
    ensures
        key_views(r@) == resize_targets(
            key_views(keys@),
            ext_view(event.tgt_ext),
            event.prefix@,
            event.tgt_size as nat,
        ),
{
    let mut s = Selection::new(event);
    s.add_page(keys);
    assert(s.seen() =~= key_views(keys@));
    s.targets()
}

} // verus!
