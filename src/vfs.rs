//! Directory listing helpers for remote browsing: splitting listings into
//! chunks for the wire, and keeping requested paths inside an allowed base.

use vstd::prelude::*;
use vstd::multiset::Multiset;
use crate::error::CoreError;
use crate::types::{DirEntry, NetworkMessage};

verus! {

/// Entries per `DirChunk` message.
pub const DIR_CHUNK_SIZE: usize = 150;

/// Most entries listed for one directory.
pub const MAX_DIR_ENTRIES: usize = 10_000;

/// Errors of directory browsing.
#[derive(Debug, Clone, PartialEq, Eq)]
pub enum VfsError {
    IoError(String),
    PathNotFound(String),
    NotADirectory(String),
    PermissionDenied(String),
}

/// The library error a browsing error stands for.
pub open spec fn core_error_of(e: VfsError) -> CoreError {
    match e {
        VfsError::PathNotFound(p) => CoreError::PathNotFound(p),
        VfsError::NotADirectory(p) => CoreError::NotADirectory(p),
        VfsError::PermissionDenied(p) => CoreError::PermissionDenied(p),
        VfsError::IoError(m) => CoreError::VfsIoError(m),
    }
}

impl From<VfsError> for CoreError {
    fn from(e: VfsError) -> (r: CoreError)
        ensures
            r == core_error_of(e),
    {
        match e {
            VfsError::PathNotFound(p) => CoreError::PathNotFound(p),
            VfsError::NotADirectory(p) => CoreError::NotADirectory(p),
            VfsError::PermissionDenied(p) => CoreError::PermissionDenied(p),
            VfsError::IoError(m) => CoreError::VfsIoError(m),
        }
    }
}

impl vstd::std_specs::convert::FromSpecImpl<VfsError> for CoreError {
    open spec fn obeys_from_spec() -> bool {
        true
    }

    open spec fn from_spec(e: VfsError) -> CoreError {
        core_error_of(e)
    }
}

/// `s` cut into consecutive pieces of `n` elements; the last may be shorter.
pub open spec fn chunks_of<T>(s: Seq<T>, n: nat) -> Seq<Seq<T>>
    recommends
        n > 0,
    decreases s.len(),
    when n > 0
{
    if s.len() == 0 {
        seq![]
    } else if s.len() <= n {
        seq![s]
    } else {
        seq![s.subrange(0, n as int)] + chunks_of(s.subrange(n as int, s.len() as int), n)
    }
}

/// Splits `entries` into chunks of `chunk_size`, in order.
pub fn chunk_entries(entries: Vec<DirEntry>, chunk_size: usize) -> (chunks: Vec<Vec<DirEntry>>)
    requires
        chunk_size > 0,
    ensures
        chunks@.map_values(|c: Vec<DirEntry>| c@) == chunks_of(entries@, chunk_size as nat),
{
    let ghost all = entries@;
    let mut rest = entries;
    let mut chunks: Vec<Vec<DirEntry>> = Vec::new();
    while rest.len() > 0
        invariant
            chunk_size > 0,
            chunks@.map_values(|c: Vec<DirEntry>| c@) + chunks_of(rest@, chunk_size as nat) == chunks_of(
                all,
                chunk_size as nat,
            ),
        decreases rest@.len(),
    {
        let ghost before = rest@;
        let ghost views = chunks@.map_values(|c: Vec<DirEntry>| c@);
        if rest.len() <= chunk_size {
            let last = rest.split_off(0);
            chunks.push(last);
            proof {
                assert(last@ =~= before);
                assert(chunks_of(rest@, chunk_size as nat) =~= Seq::<Seq<DirEntry>>::empty());
                assert(chunks@.map_values(|c: Vec<DirEntry>| c@) =~= views.push(before));
                assert(chunks_of(before, chunk_size as nat) =~= seq![before]);
                assert(views + seq![before] =~= views.push(before) + Seq::<Seq<DirEntry>>::empty());
            }
        } else {
            let tail = rest.split_off(chunk_size);
            let head = rest;
            rest = tail;
            chunks.push(head);
            proof {
                assert(head@ =~= before.subrange(0, chunk_size as int));
                assert(rest@ =~= before.subrange(chunk_size as int, before.len() as int));
                assert(chunks@.map_values(|c: Vec<DirEntry>| c@) =~= views.push(head@));
                assert(views + (seq![head@] + chunks_of(rest@, chunk_size as nat)) =~= views.push(head@)
                    + chunks_of(rest@, chunk_size as nat));
            }
        }
    }
    proof {
        assert(chunks_of(rest@, chunk_size as nat) =~= Seq::<Seq<DirEntry>>::empty());
        assert(chunks@.map_values(|c: Vec<DirEntry>| c@) + Seq::<Seq<DirEntry>>::empty()
            =~= chunks@.map_values(|c: Vec<DirEntry>| c@));
    }
    chunks
}

/// The pieces a listing is sent in: at most the entry limit, in chunks,
/// and one empty chunk for an empty directory.
pub open spec fn listing_chunks(entries: Seq<DirEntry>) -> Seq<Seq<DirEntry>> {
    let kept = if entries.len() > MAX_DIR_ENTRIES {
        entries.subrange(0, MAX_DIR_ENTRIES as int)
    } else {
        entries
    };
    if kept.len() == 0 {
        seq![Seq::empty()]
    } else {
        chunks_of(kept, DIR_CHUNK_SIZE as nat)
    }
}

proof fn lemma_chunks_count<T>(s: Seq<T>, n: nat)
    requires
        n > 0,
    ensures
        chunks_of(s, n).len() <= s.len(),
    decreases s.len(),
{
    if s.len() > n {
        lemma_chunks_count(s.subrange(n as int, s.len() as int), n);
    }
}

/// The `DirChunk` messages answering a listing: chunk `i` of the pieces,
/// numbered, with the total and whether more follow.
pub fn dir_chunk_messages(entries: Vec<DirEntry>) -> (msgs: Vec<NetworkMessage>)
    ensures
        msgs@.len() == listing_chunks(entries@).len(),
        forall|i: int|
            0 <= i < msgs@.len() ==> (#[trigger] msgs@[i] matches NetworkMessage::DirChunk {
                chunk_index,
                total_chunks,
                entries: es,
                has_more,
            } && chunk_index == i && total_chunks == msgs@.len() && es@ == listing_chunks(entries@)[i]
                && has_more == (i + 1 < msgs@.len())),
{
    let mut kept = entries;
    if kept.len() > MAX_DIR_ENTRIES {
        kept.truncate(MAX_DIR_ENTRIES);
    }
    let ghost kv = kept@;
    assert(kv =~= (if entries@.len() > MAX_DIR_ENTRIES {
        entries@.subrange(0, MAX_DIR_ENTRIES as int)
    } else {
        entries@
    }));
    let mut chunks = if kept.len() == 0 {
        let mut one: Vec<Vec<DirEntry>> = Vec::new();
        one.push(Vec::new());
        assert(one@.map_values(|c: Vec<DirEntry>| c@) =~= seq![Seq::<DirEntry>::empty()]);
        one
    } else {
        chunk_entries(kept, DIR_CHUNK_SIZE)
    };
    let ghost pieces = chunks@.map_values(|c: Vec<DirEntry>| c@);
    assert(pieces == listing_chunks(entries@));
    proof {
        if kv.len() > 0 {
            lemma_chunks_count(kv, DIR_CHUNK_SIZE as nat);
        }
    }
    let total = chunks.len();
    assert(total <= MAX_DIR_ENTRIES);
    let mut rev: Vec<NetworkMessage> = Vec::new();
    let mut n = total;
    while n > 0
        invariant
            n <= total,
            total == pieces.len(),
            total <= MAX_DIR_ENTRIES,
            chunks@.len() == n,
            forall|j: int| 0 <= j < n ==> #[trigger] chunks@[j]@ == pieces[j],
            rev@.len() == total - n,
            forall|k: int|
                0 <= k < rev@.len() ==> (#[trigger] rev@[k] matches NetworkMessage::DirChunk {
                    chunk_index,
                    total_chunks,
                    entries: es,
                    has_more,
                } && chunk_index == total - 1 - k && total_chunks == total && es@ == pieces[total - 1 - k]
                    && has_more == (total - 1 - k + 1 < total)),
        decreases n,
    {
        let chunk = chunks.pop().unwrap();
        n = n - 1;
        rev.push(NetworkMessage::DirChunk {
            chunk_index: n as u32,
            total_chunks: total as u32,
            entries: chunk,
            has_more: n + 1 < total,
        });
    }
    let mut msgs: Vec<NetworkMessage> = Vec::new();
    while rev.len() > 0
        invariant
            total == pieces.len(),
            rev@.len() + msgs@.len() == total,
            forall|k: int|
                0 <= k < rev@.len() ==> (#[trigger] rev@[k] matches NetworkMessage::DirChunk {
                    chunk_index,
                    total_chunks,
                    entries: es,
                    has_more,
                } && chunk_index == total - 1 - k && total_chunks == total && es@ == pieces[total - 1 - k]
                    && has_more == (total - 1 - k + 1 < total)),
            forall|i: int|
                0 <= i < msgs@.len() ==> (#[trigger] msgs@[i] matches NetworkMessage::DirChunk {
                    chunk_index,
                    total_chunks,
                    entries: es,
                    has_more,
                } && chunk_index == i && total_chunks == total && es@ == pieces[i] && has_more == (i + 1
                    < total)),
        decreases rev@.len(),
    {
        let m = rev.pop().unwrap();
        msgs.push(m);
    }
    msgs
}

/// Lexicographic order of names by code point.
pub open spec fn name_le(a: Seq<char>, b: Seq<char>) -> bool
    decreases a.len(),
{
    if a.len() == 0 {
        true
    } else if b.len() == 0 {
        false
    } else if (a[0] as u32) != (b[0] as u32) {
        (a[0] as u32) < (b[0] as u32)
    } else {
        name_le(a.drop_first(), b.drop_first())
    }
}

/// Listing order: directories first, then by name.
pub open spec fn listed_before(a: DirEntry, b: DirEntry) -> bool {
    (a.is_dir && !b.is_dir) || (a.is_dir == b.is_dir && name_le(a.name@, b.name@))
}

/// Every entry comes no later than those after it.
pub open spec fn in_listing_order(s: Seq<DirEntry>) -> bool {
    forall|i: int, j: int| 0 <= i < j < s.len() ==> listed_before(s[i], s[j])
}

proof fn lemma_name_le_total(a: Seq<char>, b: Seq<char>)
    ensures
        name_le(a, b) || name_le(b, a),
    decreases a.len(),
{
    if a.len() > 0 && b.len() > 0 && (a[0] as u32) == (b[0] as u32) {
        lemma_name_le_total(a.drop_first(), b.drop_first());
    }
}

proof fn lemma_name_le_trans(a: Seq<char>, b: Seq<char>, c: Seq<char>)
    requires
        name_le(a, b),
        name_le(b, c),
    ensures
        name_le(a, c),
    decreases a.len(),
{
    if a.len() > 0 && b.len() > 0 && c.len() > 0 && (a[0] as u32) == (b[0] as u32) && (b[0] as u32) == (c[0] as u32) {
        lemma_name_le_trans(a.drop_first(), b.drop_first(), c.drop_first());
    }
}

proof fn lemma_listed_total(a: DirEntry, b: DirEntry)
    ensures
        listed_before(a, b) || listed_before(b, a),
{
    lemma_name_le_total(a.name@, b.name@);
}

proof fn lemma_listed_trans(a: DirEntry, b: DirEntry, c: DirEntry)
    requires
        listed_before(a, b),
        listed_before(b, c),
    ensures
        listed_before(a, c),
{
    if a.is_dir == b.is_dir && b.is_dir == c.is_dir {
        lemma_name_le_trans(a.name@, b.name@, c.name@);
    }
}

fn name_le_exec(a: &String, b: &String) -> (r: bool)
    ensures
        r == name_le(a@, b@),
{
    let la = a.as_str().unicode_len();
    let lb = b.as_str().unicode_len();
    let mut i: usize = 0;
    assert(a@.skip(0) =~= a@);
    assert(b@.skip(0) =~= b@);
    loop
        invariant
            la == a@.len(),
            lb == b@.len(),
            i <= la,
            i <= lb,
            name_le(a@, b@) == name_le(a@.skip(i as int), b@.skip(i as int)),
        decreases la - i,
    {
        if i == la {
            return true;
        }
        if i == lb {
            return false;
        }
        let ca = a.as_str().get_char(i);
        let cb = b.as_str().get_char(i);
        assert(a@.skip(i as int)[0] == ca);
        assert(b@.skip(i as int)[0] == cb);
        if (ca as u32) != (cb as u32) {
            return (ca as u32) < (cb as u32);
        }
        assert(a@.skip(i as int).drop_first() =~= a@.skip(i + 1));
        assert(b@.skip(i as int).drop_first() =~= b@.skip(i + 1));
        i += 1;
    }
}

fn listed_before_exec(a: &DirEntry, b: &DirEntry) -> (r: bool)
    ensures
        r == listed_before(*a, *b),
{
    if a.is_dir != b.is_dir {
        a.is_dir
    } else {
        name_le_exec(&a.name, &b.name)
    }
}

/// Orders a listing: directories first, then by name.
pub fn sort_entries(entries: Vec<DirEntry>) -> (sorted: Vec<DirEntry>)
    ensures
        in_listing_order(sorted@),
        sorted@.to_multiset() == entries@.to_multiset(),
{
    broadcast use vstd::seq_lib::group_to_multiset_ensures, vstd::multiset::group_multiset_properties;

    let mut rest = entries;
    let mut sorted: Vec<DirEntry> = Vec::new();
    assert(sorted@.to_multiset() =~= Multiset::<DirEntry>::empty()) by {
        vstd::multiset::lemma_multiset_empty_len(sorted@.to_multiset());
    }
    while rest.len() > 0
        invariant
            in_listing_order(sorted@),
            sorted@.to_multiset().add(rest@.to_multiset()) == entries@.to_multiset(),
        decreases rest@.len(),
    {
        let ghost before_rest = rest@;
        let e = rest.pop().unwrap();
        proof {
            assert(before_rest =~= rest@.push(e));
        }
        let mut lo: usize = 0;
        let mut hi: usize = sorted.len();
        while lo < hi
            invariant
                lo <= hi <= sorted@.len(),
                in_listing_order(sorted@),
                forall|i: int| 0 <= i < lo ==> !listed_before(e, #[trigger] sorted@[i]),
                forall|i: int| hi <= i < sorted@.len() ==> listed_before(e, #[trigger] sorted@[i]),
            decreases hi - lo,
        {
            let mid = lo + (hi - lo) / 2;
            if listed_before_exec(&e, &sorted[mid]) {
                proof {
                    assert forall|i: int| mid <= i < sorted@.len() implies listed_before(e, #[trigger] sorted@[i]) by {
                        if i > mid {
                            lemma_listed_trans(e, sorted@[mid as int], sorted@[i]);
                        }
                    }
                }
                hi = mid;
            } else {
                proof {
                    assert forall|i: int| 0 <= i < mid + 1 implies !listed_before(e, #[trigger] sorted@[i]) by {
                        if i < mid && listed_before(e, sorted@[i]) {
                            lemma_listed_trans(e, sorted@[i], sorted@[mid as int]);
                        }
                    }
                }
                lo = mid + 1;
            }
        }
        let ghost old_sorted = sorted@;
        sorted.insert(lo, e);
        proof {
            assert(sorted@ =~= old_sorted.insert(lo as int, e));
            assert forall|i: int, j: int| 0 <= i < j < sorted@.len() implies listed_before(sorted@[i], sorted@[j]) by {
                let p = lo as int;
                if i < p && j == p {
                    lemma_listed_total(e, old_sorted[i]);
                } else if i == p && j > p {
                    assert(sorted@[j] == old_sorted[j - 1]);
                } else if i < p && j > p {
                    assert(sorted@[j] == old_sorted[j - 1]);
                } else if i > p {
                    assert(sorted@[i] == old_sorted[i - 1]);
                    assert(sorted@[j] == old_sorted[j - 1]);
                }
            }
            vstd::seq_lib::to_multiset_insert(old_sorted, lo as int, e);
            vstd::seq_lib::to_multiset_build(rest@, e);
            assert(sorted@.to_multiset() == old_sorted.to_multiset().insert(e));
            assert(before_rest.to_multiset() == rest@.to_multiset().insert(e));
            assert(sorted@.to_multiset().add(rest@.to_multiset()) =~= old_sorted.to_multiset().add(
                before_rest.to_multiset(),
            ));
        }
    }
    proof {
        assert(rest@.to_multiset() =~= Multiset::<DirEntry>::empty()) by {
            vstd::multiset::lemma_multiset_empty_len(rest@.to_multiset());
        }
        assert(sorted@.to_multiset().add(Multiset::<DirEntry>::empty()) =~= sorted@.to_multiset());
    }
    sorted
}

/// Whether canonical path `p` is `base` or lies below it.
pub open spec fn is_within(p: Seq<char>, base: Seq<char>) -> bool {
    p == base || (p.len() > base.len() && p.subrange(0, base.len() as int) == base && (p[base.len() as int]
        == '/' || (base.len() > 0 && base.last() == '/')))
}

/// Whether canonical path `p` is `base` or lies below it, comparing whole
/// components.
pub fn path_within(p: &str, base: &str) -> (r: bool)
    ensures
        r == is_within(p@, base@),
{
    let pn = p.unicode_len();
    let bn = base.unicode_len();
    if pn < bn {
        assert(p@ != base@ ==> !is_within(p@, base@));
        return false;
    }
    let mut i: usize = 0;
    while i < bn
        invariant
            i <= bn,
            bn == base@.len(),
            pn == p@.len(),
            bn <= pn,
            forall|j: int| 0 <= j < i ==> p@[j] == base@[j],
        decreases bn - i,
    {
        if p.get_char(i) != base.get_char(i) {
            assert(p@.subrange(0, bn as int)[i as int] != base@[i as int]);
            assert(p@ != base@);
            return false;
        }
        i += 1;
    }
    assert(p@.subrange(0, bn as int) =~= base@);
    if pn == bn {
        assert(p@ =~= base@);
        return true;
    }
    if p.get_char(bn) == '/' {
        return true;
    }
    bn > 0 && base.get_char(bn - 1) == '/'
}

/// Relies on `std::path::Path::canonicalize`: the absolute form of `p` with
/// links and `.`/`..` resolved, read from the file system; `None` when that
/// fails. Nothing is promised of the result, which depends on the disk.
#[verifier::external_body]
fn canonical_form(p: &str) -> (r: Option<String>) {
    std::path::Path::new(p).canonicalize().ok().map(|c| c.to_string_lossy().into_owned())
}

/// Accepts `path` when its canonical form lies within that of
/// `allowed_base` (the base as given when it cannot be resolved).
pub fn validate_path(path: &str, allowed_base: &str) -> (r: Result<(), VfsError>)
    ensures
        r is Ok || (r matches Err(VfsError::PathNotFound(p)) && p@ == path@) || (r matches Err(
            VfsError::PermissionDenied(_),
        )),
{
    let canonical = match canonical_form(path) {
        Some(c) => c,
        None => return Err(VfsError::PathNotFound(String::from_str(path))),
    };
    let allowed = match canonical_form(allowed_base) {
        Some(c) => c,
        None => String::from_str(allowed_base),
    };
    if path_within(canonical.as_str(), allowed.as_str()) {
        Ok(())
    } else {
        Err(VfsError::PermissionDenied(String::from_str("Path traversal not allowed")))
    }
}

} // verus!
