//! The file-transfer engine's logic: directory listings (filtering,
//! path joining and ordering), chunked transfer bookkeeping with monotone
//! progress, and the sizes and dates shown beside entries.
//!
//! The remote file subsystem itself is an outside collaborator; the worker
//! that talks to it hands plain values in and out of these functions.

use vstd::prelude::*;

use crate::text::{
    dec_digits, digit_char, is_dot_name, lemma_lex_le_total, lemma_lex_le_trans, lex_le, push_char,
    push_dec, str_le,
};

verus! {

/// One entry of a directory listing.
pub struct SftpEntry {
    pub name: String,
    pub path: String,
    pub is_dir: bool,
    pub size: u64,
    pub modified: Option<u64>,
}

/// What a listing shows of one raw remote entry, before its full path is
/// built: the plain values the remote subsystem reports.
pub struct RawDirEntry {
    pub name: String,
    pub is_dir: bool,
    pub size: u64,
    pub modified: Option<u64>,
}

/// The mathematical content of a listing entry.
pub struct EntryV {
    pub name: Seq<char>,
    pub path: Seq<char>,
    pub is_dir: bool,
    pub size: u64,
    pub modified: Option<u64>,
}

impl View for SftpEntry {
    type V = EntryV;

    open spec fn view(&self) -> EntryV {
        EntryV {
            name: self.name@,
            path: self.path@,
            is_dir: self.is_dir,
            size: self.size,
            modified: self.modified,
        }
    }
}

/// The mathematical content of a raw entry.
pub struct RawV {
    pub name: Seq<char>,
    pub is_dir: bool,
    pub size: u64,
    pub modified: Option<u64>,
}

impl View for RawDirEntry {
    type V = RawV;

    open spec fn view(&self) -> RawV {
        RawV { name: self.name@, is_dir: self.is_dir, size: self.size, modified: self.modified }
    }
}

// ---- Paths ----

/// A path with its trailing separators removed.
pub open spec fn trim_slashes(s: Seq<char>) -> Seq<char>
    decreases s.len(),
{
    if s.len() > 0 && s.last() == '/' {
        trim_slashes(s.drop_last())
    } else {
        s
    }
}

/// The full path of an entry: the parent without trailing separators, one
/// separator, and the name — the root produces no doubled separator.
pub open spec fn joined_path(parent: Seq<char>, name: Seq<char>) -> Seq<char> {
    trim_slashes(parent) + seq!['/'] + name
}

/// Join a parent path and an entry name.
pub fn entry_path(parent: &str, name: &str) -> (r: String)
    ensures
        r@ == joined_path(parent@, name@),
{
    let mut n = parent.unicode_len();
    proof {
        assert(parent@.take(parent@.len() as int) =~= parent@);
    }
    while n > 0 && parent.get_char(n - 1) == '/'
        invariant
            n <= parent@.len(),
            trim_slashes(parent@) == trim_slashes(parent@.take(n as int)),
        decreases n,
    {
        proof {
            assert(parent@.take(n as int).last() == parent@[n - 1]);
            assert(parent@.take(n as int).drop_last() =~= parent@.take(n - 1));
        }
        n = n - 1;
    }
    proof {
        if n > 0 {
            assert(parent@.take(n as int).last() == parent@[n - 1]);
        }
        assert(trim_slashes(parent@.take(n as int)) == parent@.take(n as int));
    }
    let stem = parent.substring_char(0, n);
    let mut r = String::new();
    r.append(stem);
    r.append("/");
    r.append(name);
    proof {
        reveal_strlit("/");
        assert("/"@ =~= seq!['/']);
        assert(r@ =~= joined_path(parent@, name@));
    }
    r
}

/// The last path component: what follows the final separator, with
/// trailing separators ignored.
pub open spec fn base_name(s: Seq<char>) -> Seq<char>
    decreases s.len(),
{
    if s.len() == 0 {
        s
    } else if s.last() == '/' {
        base_name(s.drop_last())
    } else if exists|i: int| 0 <= i < s.len() && s[i] == '/' {
        base_name_from(s, s.len() - 1)
    } else {
        s
    }
}

/// The suffix after the last separator at or before position `i`.
pub open spec fn base_name_from(s: Seq<char>, i: int) -> Seq<char>
    decreases i + 1,
{
    if i < 0 {
        s
    } else if s[i] == '/' {
        s.skip(i + 1)
    } else {
        base_name_from(s, i - 1)
    }
}

/// The display name of a transferred file: its last path component.
pub fn file_display_name(path: &str) -> (r: String)
    ensures
        r@ == base_name(path@),
{
    let mut n = path.unicode_len();
    proof {
        assert(path@.take(path@.len() as int) =~= path@);
    }
    while n > 0 && path.get_char(n - 1) == '/'
        invariant
            n <= path@.len(),
            base_name(path@) == base_name(path@.take(n as int)),
        decreases n,
    {
        proof {
            assert(path@.take(n as int).last() == path@[n - 1]);
            assert(path@.take(n as int).drop_last() =~= path@.take(n - 1));
        }
        n = n - 1;
    }
    let ghost t = path@.take(n as int);
    let mut start = n;
    while start > 0 && path.get_char(start - 1) != '/'
        invariant
            start <= n,
            n <= path@.len(),
            t == path@.take(n as int),
            forall|k: int| start <= k < n ==> #[trigger] path@[k] != '/',
        decreases start,
    {
        start = start - 1;
    }
    let r = path.substring_char(start, n);
    let out = String::from_str(r);
    proof {
        lemma_base_name_at(t, start as int);
        assert(out@ =~= base_name(path@));
    }
    out
}

proof fn lemma_base_name_at(t: Seq<char>, start: int)
    requires
        0 <= start <= t.len(),
        t.len() == 0 || t.last() != '/',
        forall|k: int| start <= k < t.len() ==> #[trigger] t[k] != '/',
        start > 0 ==> t[start - 1] == '/',
    ensures
        base_name(t) == t.skip(start),
{
    if t.len() == 0 {
        assert(t.skip(0) =~= t);
    } else if start == 0 {
        assert(forall|i: int| 0 <= i < t.len() ==> #[trigger] t[i] != '/');
        assert(t.skip(0) =~= t);
    } else {
        assert(t[start - 1] == '/');
        lemma_base_name_from(t, t.len() - 1, start);
    }
}

proof fn lemma_base_name_from(t: Seq<char>, i: int, start: int)
    requires
        0 < start <= i + 1,
        i < t.len(),
        t[start - 1] == '/',
        forall|k: int| start <= k < t.len() ==> #[trigger] t[k] != '/',
    ensures
        base_name_from(t, i) == t.skip(start),
    decreases i,
{
    if i == start - 1 {
    } else {
        assert(t[i] != '/');
        lemma_base_name_from(t, i - 1, start);
    }
}

// ---- Listing ----

/// The entry an accepted raw entry becomes under a parent path.
pub open spec fn made_entry(parent: Seq<char>, r: RawV) -> EntryV {
    EntryV {
        name: r.name,
        path: joined_path(parent, r.name),
        is_dir: r.is_dir,
        size: r.size,
        modified: r.modified,
    }
}

/// Whether a raw entry is kept: the two directory self-references are not.
pub open spec fn keeps(r: RawV) -> bool {
    r.name != seq!['.'] && r.name != seq!['.', '.']
}

/// The entries a listing keeps, in raw order, with their paths built.
pub open spec fn kept_entries(parent: Seq<char>, raw: Seq<RawV>) -> Seq<EntryV>
    decreases raw.len(),
{
    if raw.len() == 0 {
        Seq::empty()
    } else if keeps(raw[0]) {
        seq![made_entry(parent, raw[0])] + kept_entries(parent, raw.skip(1))
    } else {
        kept_entries(parent, raw.skip(1))
    }
}

/// The listing order: directories first, then lexicographically by name.
pub open spec fn entry_le_v(a: EntryV, b: EntryV) -> bool {
    if a.is_dir != b.is_dir {
        a.is_dir
    } else {
        lex_le(a.name, b.name)
    }
}

/// Compare two entries in listing order.
pub fn entry_le(a: &SftpEntry, b: &SftpEntry) -> (r: bool)
    ensures
        r == entry_le_v(a@, b@),
{
    if a.is_dir != b.is_dir {
        a.is_dir
    } else {
        str_le(a.name.as_str(), b.name.as_str())
    }
}

/// The views of a listing.
pub open spec fn entry_views(s: Seq<SftpEntry>) -> Seq<EntryV> {
    s.map_values(|e: SftpEntry| e@)
}

/// The views of the raw entries.
pub open spec fn raw_views(s: Seq<RawDirEntry>) -> Seq<RawV> {
    s.map_values(|e: RawDirEntry| e@)
}

/// Build a directory listing: the self-references `.` and `..` are
/// excluded, every kept entry's path is the parent joined with its name
/// (the root producing no doubled separator), and the result is sorted
/// directories-first, then by name — a permutation of the kept entries.
pub fn build_listing(parent: &str, raw: Vec<RawDirEntry>) -> (out: Vec<SftpEntry>)
    ensures
        forall|i: int| 0 <= i < out@.len() ==> {
            &&& (#[trigger] out@[i])@.name != seq!['.']
            &&& out@[i]@.name != seq!['.', '.']
            &&& out@[i]@.path == joined_path(parent@, out@[i]@.name)
        },
        forall|i: int, j: int| 0 <= i < j < out@.len() ==> entry_le_v(
            #[trigger] out@[i]@,
            #[trigger] out@[j]@,
        ),
        entry_views(out@).to_multiset() == kept_entries(parent@, raw_views(raw@)).to_multiset(),
{
    broadcast use vstd::seq_lib::group_to_multiset_ensures;
    broadcast use vstd::multiset::group_multiset_axioms;

    let ghost rv = raw_views(raw@);
    let ghost target = kept_entries(parent@, rv);
    let mut mid: Vec<SftpEntry> = Vec::new();
    let mut rest_raw = raw;
    proof {
        assert(raw_views(rest_raw@) =~= rv.skip(0));
        assert(entry_views(mid@) + kept_entries(parent@, rv.skip(0)) =~= target);
    }
    let ghost k: int = 0;
    while rest_raw.len() > 0
        invariant
            0 <= k <= rv.len(),
            raw_views(rest_raw@) =~= rv.skip(k),
            rest_raw@.len() == rv.len() - k,
            entry_views(mid@) + kept_entries(parent@, rv.skip(k)) =~= target,
            forall|i: int| 0 <= i < mid@.len() ==> {
                &&& (#[trigger] mid@[i])@.name != seq!['.']
                &&& mid@[i]@.name != seq!['.', '.']
                &&& mid@[i]@.path == joined_path(parent@, mid@[i]@.name)
            },
        decreases rest_raw@.len(),
    {
        let ghost rr0 = rest_raw@;
        let e = rest_raw.remove(0);
        proof {
            assert(raw_views(rr0)[0] == rr0[0]@);
            assert(e@ == rv.skip(k)[0]);
            assert forall|t: int| 0 <= t < rest_raw@.len() implies raw_views(rest_raw@)[t] == rv.skip(
                k + 1,
            )[t] by {
                assert(rest_raw@[t] == rr0[t + 1]);
                assert(raw_views(rr0)[t + 1] == rr0[t + 1]@);
            }
            assert(raw_views(rest_raw@) =~= rv.skip(k + 1));
            assert(rv.skip(k).skip(1) =~= rv.skip(k + 1));
        }
        if !is_dot_name(e.name.as_str()) {
            let path = entry_path(parent, e.name.as_str());
            let entry = SftpEntry {
                name: e.name,
                path: path,
                is_dir: e.is_dir,
                size: e.size,
                modified: e.modified,
            };
            proof {
                assert(entry@ == made_entry(parent@, rv.skip(k)[0]));
                assert(keeps(rv.skip(k)[0]));
                assert(kept_entries(parent@, rv.skip(k)) == seq![made_entry(parent@, rv.skip(k)[0])]
                    + kept_entries(parent@, rv.skip(k).skip(1)));
            }
            mid.push(entry);
            proof {
                assert(entry_views(mid@) + kept_entries(parent@, rv.skip(k + 1)) =~= target);
            }
        } else {
            proof {
                assert(!keeps(rv.skip(k)[0]));
                assert(kept_entries(parent@, rv.skip(k)) == kept_entries(parent@, rv.skip(k).skip(1)));
                assert(entry_views(mid@) + kept_entries(parent@, rv.skip(k + 1)) =~= target);
            }
        }
        proof {
            k = k + 1;
        }
    }
    proof {
        assert(rv.skip(k).len() == 0);
        assert(kept_entries(parent@, rv.skip(k)) =~= Seq::<EntryV>::empty());
        assert(entry_views(mid@) =~= target);
    }
    // Sort by repeatedly extracting a least remaining entry.
    let mut rest = mid;
    let mut out: Vec<SftpEntry> = Vec::new();
    proof {
        assert(entry_views(out@).to_multiset().add(entry_views(rest@).to_multiset())
            =~= target.to_multiset()) by {
            assert(entry_views(out@) =~= Seq::<EntryV>::empty());
            assert(entry_views(out@).to_multiset().len() == 0);
        }
    }
    while rest.len() > 0
        invariant
            entry_views(out@).to_multiset().add(entry_views(rest@).to_multiset())
                == target.to_multiset(),
            forall|i: int, j: int| 0 <= i < j < out@.len() ==> entry_le_v(
                #[trigger] out@[i]@,
                #[trigger] out@[j]@,
            ),
            forall|i: int, j: int| 0 <= i < out@.len() && 0 <= j < rest@.len() ==> entry_le_v(
                #[trigger] out@[i]@,
                #[trigger] rest@[j]@,
            ),
            forall|i: int| 0 <= i < out@.len() ==> {
                &&& (#[trigger] out@[i])@.name != seq!['.']
                &&& out@[i]@.name != seq!['.', '.']
                &&& out@[i]@.path == joined_path(parent@, out@[i]@.name)
            },
            forall|i: int| 0 <= i < rest@.len() ==> {
                &&& (#[trigger] rest@[i])@.name != seq!['.']
                &&& rest@[i]@.name != seq!['.', '.']
                &&& rest@[i]@.path == joined_path(parent@, rest@[i]@.name)
            },
        decreases rest@.len(),
    {
        let mut mi: usize = 0;
        let mut j: usize = 1;
        proof {
            lemma_entry_le_total(rest@[0]@, rest@[0]@);
        }
        while j < rest.len()
            invariant
                mi < j <= rest@.len(),
                rest@.len() > 0,
                forall|t: int| 0 <= t < j ==> entry_le_v(rest@[mi as int]@, #[trigger] rest@[t]@),
            decreases rest@.len() - j,
        {
            if !entry_le(&rest[mi], &rest[j]) {
                proof {
                    lemma_entry_le_total(rest@[mi as int]@, rest@[j as int]@);
                    assert forall|t: int| 0 <= t < j + 1 implies entry_le_v(
                        rest@[j as int]@,
                        #[trigger] rest@[t]@,
                    ) by {
                        if t < j {
                            lemma_entry_le_trans(rest@[j as int]@, rest@[mi as int]@, rest@[t]@);
                        } else {
                            lemma_entry_le_total(rest@[j as int]@, rest@[j as int]@);
                        }
                    }
                }
                mi = j;
            }
            j = j + 1;
        }
        let ghost rest_v0 = entry_views(rest@);
        let ghost out_v0 = entry_views(out@);
        let ghost rest_s0 = rest@;
        let picked = rest.remove(mi);
        proof {
            assert(picked@ == rest_v0[mi as int]);
            assert(entry_views(rest@) =~= rest_v0.remove(mi as int));
            assert(rest_v0.contains(rest_v0[mi as int]));
        }
        out.push(picked);
        proof {
            out_v0.to_multiset_ensures();
            rest_v0.to_multiset_ensures();
            assert(entry_views(out@) =~= out_v0.push(picked@));
            assert(entry_views(out@).to_multiset() == (out_v0.push(picked@)).to_multiset());
            assert(entry_views(out@).to_multiset() =~= out_v0.to_multiset().insert(picked@));
            assert(entry_views(rest@).to_multiset() == (rest_v0.remove(mi as int)).to_multiset());
            assert(entry_views(rest@).to_multiset() =~= rest_v0.to_multiset().remove(picked@));
            assert(entry_views(out@).to_multiset().add(entry_views(rest@).to_multiset())
                =~= out_v0.to_multiset().add(rest_v0.to_multiset()));
            assert forall|i: int, j: int| 0 <= i < out@.len() && 0 <= j < rest@.len()
                implies entry_le_v(#[trigger] out@[i]@, #[trigger] rest@[j]@) by {
                assert(rest@[j] == (if j < mi {
                    rest_s0[j]
                } else {
                    rest_s0[j + 1]
                }));
                if i < out@.len() - 1 {
                } else {
                    assert(out@[i] == picked);
                }
            }
        }
    }
    proof {
        assert(entry_views(rest@).to_multiset().len() == 0) by {
            assert(entry_views(rest@) =~= Seq::<EntryV>::empty());
        }
        assert(entry_views(out@).to_multiset() =~= target.to_multiset());
    }
    out
}

// ---- Chunked transfers ----

/// Transfers stream in fixed chunks of this many bytes.
pub const CHUNK_SIZE: usize = 262144;

/// The chunks a byte sequence streams as: full chunks, then the remainder.
pub open spec fn chunks_of(s: Seq<u8>) -> Seq<Seq<u8>>
    decreases s.len(),
{
    if s.len() == 0 {
        Seq::empty()
    } else if s.len() <= CHUNK_SIZE {
        seq![s]
    } else {
        seq![s.take(CHUNK_SIZE as int)] + chunks_of(s.skip(CHUNK_SIZE as int))
    }
}

/// Assembling the chunks of a sequence reproduces it exactly: the
/// round-trip law of chunked transfers. It follows that the chunk lengths
/// sum to the content length, so a monotone progress count that adds each
/// chunk reaches the total at completion.
pub proof fn lemma_chunks_round_trip(s: Seq<u8>)
    ensures
        chunks_of(s).flatten() == s,
    decreases s.len(),
{
    if s.len() == 0 {
        assert(chunks_of(s).flatten() =~= s);
    } else if s.len() <= CHUNK_SIZE {
        assert(seq![s].drop_first() =~= Seq::<Seq<u8>>::empty());
        assert(seq![s].flatten() == seq![s][0] + seq![s].drop_first().flatten());
        assert(Seq::<Seq<u8>>::empty().flatten() =~= Seq::<u8>::empty());
        assert(seq![s][0] == s);
        assert(s + Seq::<u8>::empty() =~= s);
        assert(chunks_of(s).flatten() =~= s);
    } else {
        let head = s.take(CHUNK_SIZE as int);
        let tail = s.skip(CHUNK_SIZE as int);
        lemma_chunks_round_trip(tail);
        assert((seq![head] + chunks_of(tail)).drop_first() =~= chunks_of(tail));
        assert((seq![head] + chunks_of(tail))[0] == head);
        assert((seq![head] + chunks_of(tail)).flatten() == (seq![head] + chunks_of(tail))[0] + (
        seq![head] + chunks_of(tail)).drop_first().flatten());
        assert(head + tail =~= s);
    }
}

/// Every chunk is at most the chunk size, and only the last is smaller.
pub proof fn lemma_chunk_sizes(s: Seq<u8>)
    ensures
        forall|i: int| 0 <= i < chunks_of(s).len() ==> #[trigger] chunks_of(s)[i].len()
            <= CHUNK_SIZE,
        forall|i: int| 0 <= i < chunks_of(s).len() - 1 ==> #[trigger] chunks_of(s)[i].len()
            == CHUNK_SIZE,
    decreases s.len(),
{
    if s.len() == 0 {
    } else if s.len() <= CHUNK_SIZE {
        assert(chunks_of(s) == seq![s]);
        assert(chunks_of(s)[0] == s);
    } else {
        let tail = s.skip(CHUNK_SIZE as int);
        lemma_chunk_sizes(tail);
        assert(chunks_of(s) == seq![s.take(CHUNK_SIZE as int)] + chunks_of(tail));
        assert forall|i: int| 0 <= i < chunks_of(s).len() implies #[trigger] chunks_of(s)[i].len()
            <= CHUNK_SIZE by {
            if i == 0 {
                assert(chunks_of(s)[0] == s.take(CHUNK_SIZE as int));
            } else {
                assert(chunks_of(s)[i] == chunks_of(tail)[i - 1]);
            }
        }
        assert forall|i: int| 0 <= i < chunks_of(s).len() - 1 implies #[trigger] chunks_of(
            s,
        )[i].len() == CHUNK_SIZE by {
            if i == 0 {
                assert(chunks_of(s)[0] == s.take(CHUNK_SIZE as int));
            } else {
                assert(chunks_of(s)[i] == chunks_of(tail)[i - 1]);
            }
        }
    }
}

/// Split content into transfer chunks.
pub fn split_chunks(data: &Vec<u8>) -> (out: Vec<Vec<u8>>)
    ensures
        out@.map_values(|c: Vec<u8>| c@) == chunks_of(data@),
{
    let mut out: Vec<Vec<u8>> = Vec::new();
    let n = data.len();
    let mut i: usize = 0;
    proof {
        assert(data@.skip(0) =~= data@);
        assert(out@.map_values(|c: Vec<u8>| c@) + chunks_of(data@.skip(0)) =~= chunks_of(data@));
    }
    while i < n
        invariant
            n == data@.len(),
            i <= n,
            out@.map_values(|c: Vec<u8>| c@) + chunks_of(data@.skip(i as int)) =~= chunks_of(
                data@,
            ),
        decreases n - i,
    {
        let ghost pre = out@.map_values(|c: Vec<u8>| c@);
        let end = if n - i > CHUNK_SIZE {
            i + CHUNK_SIZE
        } else {
            n
        };
        let mut chunk: Vec<u8> = Vec::new();
        let mut j = i;
        while j < end
            invariant
                i <= j <= end <= n,
                n == data@.len(),
                chunk@ =~= data@.subrange(i as int, j as int),
            decreases end - j,
        {
            chunk.push(data[j]);
            proof {
                assert(chunk@ =~= data@.subrange(i as int, j + 1));
            }
            j = j + 1;
        }
        proof {
            if n - i > CHUNK_SIZE {
                assert(chunk@ =~= data@.skip(i as int).take(CHUNK_SIZE as int));
                assert(data@.skip(i as int).skip(CHUNK_SIZE as int) =~= data@.skip(
                    i + CHUNK_SIZE,
                ));
                assert(chunks_of(data@.skip(i as int)) == seq![chunk@] + chunks_of(data@.skip(
                    i as int,
                ).skip(CHUNK_SIZE as int)));
            } else {
                assert(chunk@ =~= data@.skip(i as int));
                assert(chunks_of(data@.skip(i as int)) == seq![data@.skip(i as int)]);
            }
        }
        out.push(chunk);
        proof {
            assert(out@.map_values(|c: Vec<u8>| c@) =~= pre.push(chunk@));
            assert(out@.map_values(|c: Vec<u8>| c@) + chunks_of(data@.skip(end as int)) =~= chunks_of(
                data@,
            ));
        }
        i = end;
    }
    proof {
        assert(data@.skip(n as int) =~= Seq::<u8>::empty());
        assert(chunks_of(data@.skip(n as int)) =~= Seq::<Seq<u8>>::empty());
        assert(out@.map_values(|c: Vec<u8>| c@) =~= chunks_of(data@));
    }
    out
}

/// Reassemble transfer chunks into the full content.
pub fn assemble_chunks(chunks: &Vec<Vec<u8>>) -> (out: Vec<u8>)
    ensures
        out@ == chunks@.map_values(|c: Vec<u8>| c@).flatten(),
{
    let ghost cv = chunks@.map_values(|c: Vec<u8>| c@);
    let mut out: Vec<u8> = Vec::new();
    let n = chunks.len();
    proof {
        assert(cv.skip(0) =~= cv);
        assert(out@ + cv.skip(0).flatten() =~= cv.flatten());
    }
    for i in 0..n
        invariant
            n == chunks@.len(),
            cv == chunks@.map_values(|c: Vec<u8>| c@),
            out@ + cv.skip(i as int).flatten() =~= cv.flatten(),
    {
        let ghost pre = out@;
        let chunk = &chunks[i];
        let m = chunk.len();
        for j in 0..m
            invariant
                m == chunk@.len(),
                out@ =~= pre + chunk@.take(j as int),
            {
            out.push(chunk[j]);
            proof {
                assert(pre + chunk@.take(j + 1) =~= (pre + chunk@.take(j as int)).push(
                    chunk@[j as int],
                ));
            }
        }
        proof {
            assert(chunk@.take(m as int) =~= chunk@);
            assert(cv.skip(i as int).drop_first() =~= cv.skip(i + 1));
            assert(cv.skip(i as int)[0] == chunk@);
            assert(cv.skip(i as int).flatten() == chunk@ + cv.skip(i + 1).flatten());
            assert(out@ + cv.skip(i + 1).flatten() =~= cv.flatten());
        }
    }
    proof {
        assert(cv.skip(n as int) =~= Seq::<Seq<u8>>::empty());
        assert(out@ =~= cv.flatten());
    }
    out
}

// ---- Transfer progress ----

/// The progress of one transfer: the total is set once, the transferred
/// count never decreases, and the end state is either done or failed.
pub struct TransferState {
    pub name: String,
    pub total: u64,
    pub transferred: u64,
    pub done: bool,
    pub failed: bool,
    pub is_upload: bool,
}

impl TransferState {
    /// A fresh transfer: nothing moved yet, neither done nor failed.
    pub fn new(name: &str, total: u64, is_upload: bool) -> (r: Self)
        ensures
            r.name@ == name@,
            r.total == total,
            r.transferred == 0,
            !r.done,
            !r.failed,
            r.is_upload == is_upload,
    {
        TransferState {
            name: name.to_owned(),
            total: total,
            transferred: 0,
            done: false,
            failed: false,
            is_upload: is_upload,
        }
    }

    /// Record the total once it is discovered, only where none was known.
    pub fn discover_total(&mut self, total: u64)
        ensures
            *final(self) == (TransferState {
                total: if old(self).total == 0 {
                    total
                } else {
                    old(self).total
                },
                ..*old(self)
            }),
    {
        if self.total == 0 {
            self.total = total;
        }
    }

    /// Record progress after one chunk; the count never moves backwards.
    pub fn record_transferred(&mut self, transferred: u64)
        requires
            transferred >= old(self).transferred,
        ensures
            *final(self) == (TransferState { transferred: transferred, ..*old(self) }),
    {
        self.transferred = transferred;
    }

    /// Mark the transfer complete.
    pub fn mark_done(&mut self)
        ensures
            *final(self) == (TransferState { done: true, ..*old(self) }),
    {
        self.done = true;
    }

    /// Mark the transfer failed; the worker goes on serving requests.
    pub fn mark_failed(&mut self)
        ensures
            *final(self) == (TransferState { failed: true, ..*old(self) }),
    {
        self.failed = true;
    }
}

// ---- Requests and browser state ----

/// One operation the single background worker performs, in submission
/// order.
pub enum SftpRequest {
    ListDir(String),
    Download { remote: String, local: String },
    Upload { local: String, remote: String },
    Mkdir(String),
    Remove(String),
    Rename { from: String, to: String },
}

/// One answer of the worker.
pub enum SftpResponse {
    DirListing(String, Vec<SftpEntry>),
    Error(String),
    Success(String),
}

/// The browser's own state: what the panel shows between polls.
pub struct BrowserState {
    pub current_path: String,
    pub entries: Vec<SftpEntry>,
    pub error: Option<String>,
    pub loading: bool,
    pub status_message: Option<String>,
}

impl BrowserState {
    /// A fresh browser at the root, waiting for its first listing.
    pub fn new() -> (r: Self)
        ensures
            r.current_path@ == seq!['/'],
            r.entries@.len() == 0,
            r.error is None,
            r.loading,
            r.status_message is None,
    {
        let root = String::from_str("/");
        proof {
            reveal_strlit("/");
        }
        BrowserState {
            current_path: root,
            entries: Vec::new(),
            error: None,
            loading: true,
            status_message: None,
        }
    }

    /// Start a navigation: the panel shows a spinner and the old error is
    /// cleared; the returned request asks the worker for the listing.
    pub fn begin_navigate(&mut self, path: &str) -> (req: SftpRequest)
        ensures
            *final(self) == (BrowserState { loading: true, error: None, ..*old(self) }),
            req matches SftpRequest::ListDir(p) && p@ == path@,
    {
        self.loading = true;
        self.error = None;
        SftpRequest::ListDir(path.to_owned())
    }

    /// Apply one worker answer: a listing replaces the entries wholesale,
    /// an error is shown, and a completed mutating operation asks for the
    /// current directory to be listed again so the panel stays consistent.
    pub fn apply_response(&mut self, resp: SftpResponse) -> (refresh: Option<SftpRequest>)
        ensures
            match resp {
                SftpResponse::DirListing(p, es) => *final(self) == (BrowserState {
                    current_path: p,
                    entries: es,
                    loading: false,
                    ..*old(self)
                }) && refresh is None,
                SftpResponse::Error(e) => *final(self) == (BrowserState {
                    error: Some(e),
                    loading: false,
                    ..*old(self)
                }) && refresh is None,
                SftpResponse::Success(msg) => *final(self) == (BrowserState {
                    status_message: Some(msg),
                    ..*old(self)
                }) && (refresh matches Some(r) && r matches SftpRequest::ListDir(p) && p@
                    == final(self).current_path@),
            },
    {
        match resp {
            SftpResponse::DirListing(p, es) => {
                self.current_path = p;
                self.entries = es;
                self.loading = false;
                None
            },
            SftpResponse::Error(e) => {
                self.error = Some(e);
                self.loading = false;
                None
            },
            SftpResponse::Success(msg) => {
                self.status_message = Some(msg);
                let p = self.current_path.clone();
                Some(SftpRequest::ListDir(p))
            },
        }
    }
}

/// Prepare a download: the transfer is named after the remote file and
/// sized from the remote metadata the caller discovered.
pub fn begin_download(remote: &str, local: &str, size: u64) -> (r: (SftpRequest, TransferState))
    ensures
        r.0 matches SftpRequest::Download { remote: rr, local: ll } && rr@ == remote@ && ll@
            == local@,
        r.1.name@ == base_name(remote@),
        r.1.total == size,
        r.1.transferred == 0,
        !r.1.done,
        !r.1.failed,
        !r.1.is_upload,
{
    let name = file_display_name(remote);
    let st = TransferState::new(name.as_str(), size, false);
    (SftpRequest::Download { remote: remote.to_owned(), local: local.to_owned() }, st)
}

/// Prepare an upload: the transfer is named after the local file and sized
/// from the local metadata the caller read.
pub fn begin_upload(local: &str, remote: &str, size: u64) -> (r: (SftpRequest, TransferState))
    ensures
        r.0 matches SftpRequest::Upload { local: ll, remote: rr } && rr@ == remote@ && ll@
            == local@,
        r.1.name@ == base_name(local@),
        r.1.total == size,
        r.1.transferred == 0,
        !r.1.done,
        !r.1.failed,
        r.1.is_upload,
{
    let name = file_display_name(local);
    let st = TransferState::new(name.as_str(), size, true);
    (SftpRequest::Upload { local: local.to_owned(), remote: remote.to_owned() }, st)
}

// ---- Display formatting ----

/// The size text shown beside a file: bytes below one kibibyte, then
/// tenths of kibibytes and mebibytes, then hundredths of gibibytes, each
/// rounded half-up.
pub open spec fn size_text(b: int) -> Seq<char> {
    if b < 1024 {
        dec_digits(b) + seq!['B']
    } else if b < 1048576 {
        let t = (b * 10 + 512) / 1024;
        dec_digits(t / 10) + seq!['.'] + seq![digit_char(t % 10)] + seq!['K']
    } else if b < 1073741824 {
        let t = (b * 10 + 524288) / 1048576;
        dec_digits(t / 10) + seq!['.'] + seq![digit_char(t % 10)] + seq!['M']
    } else {
        let h = (b * 100 + 536870912) / 1073741824;
        dec_digits(h / 100) + seq!['.'] + seq![digit_char((h / 10) % 10), digit_char(h % 10)]
            + seq!['G']
    }
}

/// Render a byte count for display.
pub fn format_size(bytes: u64) -> (r: String)
    ensures
        r@ == size_text(bytes as int),
{
    let mut s = String::new();
    if bytes < 1024 {
        push_dec(&mut s, bytes);
        push_char(&mut s, 'B');
        proof {
            assert(s@ =~= size_text(bytes as int));
        }
    } else if bytes < 1048576 {
        let t = (bytes * 10 + 512) / 1024;
        push_dec(&mut s, t / 10);
        push_char(&mut s, '.');
        push_char(&mut s, (0x30 + (t % 10) as u8) as char);
        push_char(&mut s, 'K');
        proof {
            assert(s@ =~= size_text(bytes as int));
        }
    } else if bytes < 1073741824 {
        let t = (bytes * 10 + 524288) / 1048576;
        push_dec(&mut s, t / 10);
        push_char(&mut s, '.');
        push_char(&mut s, (0x30 + (t % 10) as u8) as char);
        push_char(&mut s, 'M');
        proof {
            assert(s@ =~= size_text(bytes as int));
        }
    } else {
        let h128: u128 = (bytes as u128 * 100 + 536870912) / 1073741824;
        let h: u64 = h128 as u64;
        proof {
            assert(h as int == (bytes as int * 100 + 536870912) / 1073741824);
        }
        push_dec(&mut s, h / 100);
        push_char(&mut s, '.');
        push_char(&mut s, (0x30 + ((h / 10) % 10) as u8) as char);
        push_char(&mut s, (0x30 + (h % 10) as u8) as char);
        push_char(&mut s, 'G');
        proof {
            assert(s@ =~= size_text(bytes as int));
        }
    }
    s
}

/// A decimal rendering padded with leading zeros to at least two places.
pub open spec fn two_digits(n: int) -> Seq<char> {
    if n < 10 {
        seq!['0'] + dec_digits(n)
    } else {
        dec_digits(n)
    }
}

/// The date shown beside an entry, from seconds since the epoch, using
/// flat 365-day years and 30-day months.
pub open spec fn timestamp_text(ts: int) -> Seq<char> {
    let days = ts / 86400;
    let years = 1970 + days / 365;
    let rem = days % 365;
    let months = rem / 30 + 1;
    let day = rem % 30 + 1;
    dec_digits(years) + seq!['-'] + two_digits(months) + seq!['-'] + two_digits(day)
}

/// Render a modification time for display.
pub fn format_timestamp(ts: u64) -> (r: String)
    ensures
        r@ == timestamp_text(ts as int),
{
    let days = ts / 86400;
    let years = 1970 + days / 365;
    let rem = days % 365;
    let months = rem / 30 + 1;
    let day = rem % 30 + 1;
    let mut s = String::new();
    push_dec(&mut s, years);
    push_char(&mut s, '-');
    if months < 10 {
        push_char(&mut s, '0');
    }
    push_dec(&mut s, months);
    push_char(&mut s, '-');
    if day < 10 {
        push_char(&mut s, '0');
    }
    push_dec(&mut s, day);
    proof {
        assert(s@ =~= timestamp_text(ts as int));
    }
    s
}

/// The order is total.
pub proof fn lemma_entry_le_total(a: EntryV, b: EntryV)
    ensures
        entry_le_v(a, b) || entry_le_v(b, a),
{
    if a.is_dir == b.is_dir {
        lemma_lex_le_total(a.name, b.name);
    }
}

/// The order is transitive.
pub proof fn lemma_entry_le_trans(a: EntryV, b: EntryV, c: EntryV)
    requires
        entry_le_v(a, b),
        entry_le_v(b, c),
    ensures
        entry_le_v(a, c),
{
    if a.is_dir == b.is_dir && b.is_dir == c.is_dir {
        lemma_lex_le_trans(a.name, b.name, c.name);
    }
}

} // verus!
