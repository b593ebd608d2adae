//! Classification of object keys by the thumbnail naming convention: a
//! thumbnail of `prefix/.../id/name.ext` at size `S` is stored under
//! `prefix/id/thumb_SxS_name.ext`.
use vstd::prelude::*;
use crate::text::{
    chars_of, contains_chars, contains_seq, find_last, last_index, slice_chars, string_of,
};

verus! {

/// Why a key cannot be classified.
#[derive(Debug, Clone, Copy, PartialEq, Eq, Structural)]
pub enum KeyError {
    /// The key is empty, or has no folder segment in front of its file name.
    MalformedKey,
}

/// What `str::to_lowercase` makes of a text.
pub uninterp spec fn lower_of(s: Seq<char>) -> Seq<char>;

/// Relies on `str::to_lowercase`: the result depends on the characters alone.
#[verifier::external_body]
fn lowercase(s: &str) -> (r: String)
    ensures
        r@ == lower_of(s@),
{
    s.to_lowercase()
}

/// The last `/`-delimited segment of `k`.
pub open spec fn file_name_of(k: Seq<char>) -> Seq<char> {
    k.subrange(last_index(k, '/') + 1, k.len() as int)
}

/// The text after the last `.` of the file name, as it stands in the key.
pub open spec fn raw_extension_of(k: Seq<char>) -> Option<Seq<char>> {
    let n = file_name_of(k);
    let d = last_index(n, '.');
    if d < 0 {
        None
    } else {
        Some(n.subrange(d + 1, n.len() as int))
    }
}

/// The extensions accepted when no target extension is configured.
pub open spec fn default_extension(e: Seq<char>) -> bool {
    e == seq!['j', 'p', 'g'] || e == seq!['j', 'p', 'e', 'g'] || e == seq!['p', 'n', 'g']
}

/// Whether a lowercased extension is accepted under a lowercased target.
pub open spec fn extension_accepted(ext: Seq<char>, target: Option<Seq<char>>) -> bool {
    match target {
        Some(t) => ext == t,
        None => default_extension(ext),
    }
}

/// The configured target extension, lowercased.
pub open spec fn lower_target(target: Option<Seq<char>>) -> Option<Seq<char>> {
    match target {
        Some(t) => Some(lower_of(t)),
        None => None,
    }
}

/// Whether key `k` passes the extension filter for `target`.
pub open spec fn extension_matches(k: Seq<char>, target: Option<Seq<char>>) -> bool {
    match raw_extension_of(k) {
        Some(e) => extension_accepted(lower_of(e), lower_target(target)),
        None => false,
    }
}

/// The character of decimal digit `d`.
pub open spec fn digit(d: nat) -> char {
    if d == 0 {
        '0'
    } else if d == 1 {
        '1'
    } else if d == 2 {
        '2'
    } else if d == 3 {
        '3'
    } else if d == 4 {
        '4'
    } else if d == 5 {
        '5'
    } else if d == 6 {
        '6'
    } else if d == 7 {
        '7'
    } else if d == 8 {
        '8'
    } else {
        '9'
    }
}

/// The decimal digits of `n`, without leading zeros.
pub open spec fn decimal(n: nat) -> Seq<char>
    decreases n,
{
    if n < 10 {
        seq![digit(n)]
    } else {
        decimal(n / 10).push(digit(n % 10))
    }
}

/// The text `thumb_` that starts every thumbnail marker.
pub open spec fn thumb_tag() -> Seq<char> {
    seq!['t', 'h', 'u', 'm', 'b', '_']
}

/// The marker `thumb_{size}x{size}` of thumbnails of the given size.
pub open spec fn marker(size: nat) -> Seq<char> {
    thumb_tag() + decimal(size) + seq!['x'] + decimal(size)
}

/// Key `k` carries the marker of thumbnails of `size`.
pub open spec fn has_marker(k: Seq<char>, size: nat) -> bool {
    contains_seq(k, marker(size))
}

/// Key `k` carries the marker of a thumbnail of any size.
pub open spec fn has_thumb_tag(k: Seq<char>) -> bool {
    contains_seq(k, thumb_tag())
}

/// The thumbnail key for identifier `id` and file name `name`.
pub open spec fn thumbnail_key(prefix: Seq<char>, id: Seq<char>, name: Seq<char>, size: nat) -> Seq<
    char,
> {
    prefix + seq!['/'] + id + seq!['/'] + marker(size) + seq!['_'] + name
}

/// The identifier segment of `k`: the one in front of its file name.
pub open spec fn identifier_of(k: Seq<char>) -> Seq<char> {
    file_name_of(k.subrange(0, last_index(k, '/')))
}

/// The key under which the thumbnail of `k` is expected, where `k` has an
/// identifier segment.
pub open spec fn expected_key_of(k: Seq<char>, prefix: Seq<char>, size: nat) -> Option<Seq<char>> {
    if last_index(k, '/') < 0 {
        None
    } else {
        Some(thumbnail_key(prefix, identifier_of(k), file_name_of(k), size))
    }
}

fn digit_char(d: u32) -> (r: char)
    requires
        d < 10,
    ensures
        r == digit(d as nat),
{
    let table: Vec<char> = vec!['0', '1', '2', '3', '4', '5', '6', '7', '8', '9'];
    table[d as usize]
}

/// The decimal digits of `n`.
pub fn decimal_chars(n: u32) -> (r: Vec<char>)
    ensures
        r@ == decimal(n as nat),
    decreases n,
{
    if n < 10 {
        vec![digit_char(n)]
    } else {
        let mut r = decimal_chars(n / 10);
        r.push(digit_char(n % 10));
        r
    }
}

fn thumb_tag_chars() -> (r: Vec<char>)
    ensures
        r@ == thumb_tag(),
{
    let r: Vec<char> = vec!['t', 'h', 'u', 'm', 'b', '_'];
    assert(r@ =~= thumb_tag());
    r
}

fn marker_chars(size: u32) -> (r: Vec<char>)
    ensures
        r@ == marker(size as nat),
{
    let mut r = thumb_tag_chars();
    let d = decimal_chars(size);
    let mut i: usize = 0;
    let ghost start = r@;
    while i < d.len()
        invariant
            i <= d.len(),
            r@ == start + d@.subrange(0, i as int),
        decreases d.len() - i,
    {
        r.push(d[i]);
        assert(r@ =~= start + d@.subrange(0, i + 1));
        i = i + 1;
    }
    r.push('x');
    let ghost mid = r@;
    let mut i: usize = 0;
    while i < d.len()
        invariant
            i <= d.len(),
            r@ == mid + d@.subrange(0, i as int),
        decreases d.len() - i,
    {
        r.push(d[i]);
        assert(r@ =~= mid + d@.subrange(0, i + 1));
        i = i + 1;
    }
    assert(r@ =~= marker(size as nat));
    r
}

/// The last `/`-delimited segment of `key`.
pub fn file_name(key: &str) -> (r: Result<String, KeyError>)
    ensures
        match r {
            Ok(n) => key@.len() > 0 && n@ == file_name_of(key@),
            Err(e) => key@.len() == 0 && e == KeyError::MalformedKey,
        },
{
    let k = chars_of(key);
    if k.len() == 0 {
        return Err(KeyError::MalformedKey);
    }
    Ok(string_of(&file_name_chars(&k)))
}

fn file_name_chars(k: &Vec<char>) -> (r: Vec<char>)
    ensures
        r@ == file_name_of(k@),
{
    proof {
        crate::text::lemma_last_index_bounds(k@, '/');
    }
    match find_last(k, '/') {
        Some(i) => slice_chars(k, i + 1, k.len()),
        None => slice_chars(k, 0, k.len()),
    }
}

fn raw_extension_chars(k: &Vec<char>) -> (r: Option<Vec<char>>)
    ensures
        match r {
            Some(e) => raw_extension_of(k@) == Some(e@),
            None => raw_extension_of(k@) is None,
        },
{
    let n = file_name_chars(k);
    proof {
        crate::text::lemma_last_index_bounds(n@, '.');
    }
    match find_last(&n, '.') {
        Some(d) => Some(slice_chars(&n, d + 1, n.len())),
        None => None,
    }
}

/// The lowercased text after the last `.` of the file name of `key`, if any.
pub fn extension_of(key: &str) -> (r: Option<String>)
    ensures
        match raw_extension_of(key@) {
            Some(e) => r is Some && r->0@ == lower_of(e),
            None => r is None,
        },
{
    let k = chars_of(key);
    match raw_extension_chars(&k) {
        Some(e) => Some(lowercase(string_of(&e).as_str())),
        None => None,
    }
}

/// Whether a lowercased extension passes the filter of a lowercased target
/// extension; with no target, `jpg`, `jpeg` and `png` pass.
pub fn extension_accepted_exec(ext: &Vec<char>, target: &Option<Vec<char>>) -> (r: bool)
    ensures
        r == extension_accepted(
            ext@,
            match target {
                Some(t) => Some(t@),
                None => None,
            },
        ),
{
    match target {
        Some(t) => {
            let r = equal_chars(ext, t);
            r
        },
        None => {
            let jpg: Vec<char> = vec!['j', 'p', 'g'];
            let jpeg: Vec<char> = vec!['j', 'p', 'e', 'g'];
            let png: Vec<char> = vec!['p', 'n', 'g'];
            assert(jpg@ =~= seq!['j', 'p', 'g']);
            assert(jpeg@ =~= seq!['j', 'p', 'e', 'g']);
            assert(png@ =~= seq!['p', 'n', 'g']);
            equal_chars(ext, &jpg) || equal_chars(ext, &jpeg) || equal_chars(ext, &png)
        },
    }
}

pub(crate) fn equal_chars(a: &Vec<char>, b: &Vec<char>) -> (r: bool)
    ensures
        r == (a@ == b@),
{
    if a.len() != b.len() {
        return false;
    }
    let mut i: usize = 0;
    while i < a.len()
        invariant
            a.len() == b.len(),
            i <= a.len(),
            forall|j: int| 0 <= j < i ==> a@[j] == b@[j],
        decreases a.len() - i,
    {
        if a[i] != b[i] {
            return false;
        }
        i = i + 1;
    }
    assert(a@ =~= b@);
    true
}

/// Whether `key` passes the extension filter: its lowercased extension equals
/// the lowercased `target` where one is set, else is `jpg`, `jpeg` or `png`.
/// A key without an extension never passes.
pub fn matches_target_extension(key: &str, target: &Option<String>) -> (r: bool)
    ensures
        r == extension_matches(
            key@,
            match target {
                Some(t) => Some(t@),
                None => None,
            },
        ),
{
    match extension_of(key) {
        None => false,
        Some(e) => {
            let lt: Option<Vec<char>> = match target {
                Some(t) => Some(chars_of(lowercase(t.as_str()).as_str())),
                None => None,
            };
            extension_accepted_exec(&chars_of(e.as_str()), &lt)
        },
    }
}

/// Whether `key` contains the marker `thumb_{size}x{size}`.
pub fn is_thumbnail_marker_present(key: &str, size: u32) -> (r: bool)
    ensures
        r == has_marker(key@, size as nat),
{
    contains_chars(&chars_of(key), &marker_chars(size))
}

/// Whether `key` contains `thumb_`, the start of every thumbnail marker.
pub fn is_any_thumbnail(key: &str) -> (r: bool)
    ensures
        r == has_thumb_tag(key@),
{
    contains_chars(&chars_of(key), &thumb_tag_chars())
}

/// The key `prefix/id/thumb_{size}x{size}_name` of the thumbnail of `key`,
/// where `id` and `name` are its last two segments.
pub fn expected_thumbnail_key(key: &str, prefix: &str, size: u32) -> (r: Result<String, KeyError>)
    ensures
        match expected_key_of(key@, prefix@, size as nat) {
            Some(t) => r == Ok::<String, KeyError>(r->Ok_0) && r->Ok_0@ == t,
            None => r == Err::<String, KeyError>(KeyError::MalformedKey),
        },
{
    let k = chars_of(key);
    match find_last(&k, '/') {
        None => Err(KeyError::MalformedKey),
        Some(s) => {
            let parent = slice_chars(&k, 0, s);
            let id = file_name_chars(&parent);
            let name = file_name_chars(&k);
            let mut out = chars_of(prefix);
            let ghost p = out@;
            out.push('/');
            append_chars(&mut out, &id);
            out.push('/');
            append_chars(&mut out, &marker_chars(size));
            out.push('_');
            append_chars(&mut out, &name);
            assert(out@ =~= thumbnail_key(p, id@, name@, size as nat));
            Ok(string_of(&out))
        },
    }
}

fn append_chars(out: &mut Vec<char>, s: &Vec<char>)
    ensures
        final(out)@ == old(out)@ + s@,
{
    let ghost start = out@;
    let mut i: usize = 0;
    while i < s.len()
        invariant
            i <= s.len(),
            out@ == start + s@.subrange(0, i as int),
        decreases s.len() - i,
    {
        out.push(s[i]);
        assert(out@ =~= start + s@.subrange(0, i + 1));
        i = i + 1;
    }
    assert(s@.subrange(0, s.len() as int) =~= s@);
}

} // verus!
