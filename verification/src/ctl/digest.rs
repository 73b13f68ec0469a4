//! Freshness digest: xxhash64 over the watched files, cached as lowercase
//! hex so `init` can decide between "no Nix evaluation" and "re-eval".

use std::hash::Hasher;

use twox_hash::XxHash64;
use vstd::prelude::*;
use vstd::utf8::encode_utf8;

use crate::number;
use crate::order;
use crate::text::{self, is_space, trimmed, views};

verus! {

/// Whether the cached env dump still matches the watched files.
#[derive(Clone, Copy, Debug, PartialEq, Eq, Structural)]
pub enum Freshness {
    /// Hash file present and equal to the computed digest.
    Fresh,
    /// Env dump present but the hash differs or is unreadable.
    Stale,
    /// No env dump in the cache at all.
    Missing,
}

// ---------------------------------------------------------------------------
// The hasher
// ---------------------------------------------------------------------------

/// `twox_hash::XxHash64`, a streaming hasher.
#[verifier::external_type_specification]
#[verifier::external_body]
pub struct ExXxHash64(twox_hash::XxHash64);

/// The bytes that were written into a hasher, first to last.
pub uninterp spec fn hashed(h: XxHash64) -> Seq<u8>;

/// The seed that a hasher was made with.
pub uninterp spec fn seed(h: XxHash64) -> u64;

/// The 64-bit xxHash of some bytes under a seed.
pub uninterp spec fn xxhash64(seed: u64, bytes: Seq<u8>) -> u64;

/// `XxHash64::default`: a hasher of seed 0 that nothing was written into.
#[verifier::external_body]
fn hasher_new() -> (h: XxHash64)
    ensures
        seed(h) == 0,
        hashed(h) == Seq::<u8>::empty(),
{
    XxHash64::default()
}

/// `Hasher::write` on a `XxHash64`: takes the bytes in after those it has.
/// Its count of them has 64 bits.
#[verifier::external_body]
fn hasher_write(h: &mut XxHash64, bytes: &[u8])
    requires
        hashed(*old(h)).len() + bytes@.len() <= u64::MAX,
    ensures
        seed(*final(h)) == seed(*old(h)),
        hashed(*final(h)) == hashed(*old(h)) + bytes@,
{
    h.write(bytes);
}

/// `Hasher::finish` on a `XxHash64`: the hash, under its seed, of all bytes
/// written, however they were split. Named `xxhash64`.
#[verifier::external_body]
fn hasher_finish(h: &XxHash64) -> (r: u64)
    ensures
        r == xxhash64(seed(*h), hashed(*h)),
{
    h.finish()
}

// ---------------------------------------------------------------------------
// Records
// ---------------------------------------------------------------------------

/// What comes before a file's contents: relative path, NUL, exists flag, NUL.
pub open spec fn record_head(path: Seq<char>, present: bool) -> Seq<u8> {
    encode_utf8(path) + seq![0u8, if present {
        0x31u8
    } else {
        0x30u8
    }, 0u8]
}

/// One record: head, then the contents of a file that exists.
pub open spec fn record(path: Seq<char>, contents: Option<Seq<u8>>) -> Seq<u8> {
    match contents {
        Some(bytes) => record_head(path, true) + bytes,
        None => record_head(path, false),
    }
}

/// The records of `paths` in their order, where `at` says what each file
/// holds.
pub open spec fn records(
    paths: Seq<Seq<char>>,
    at: spec_fn(Seq<char>) -> Option<Seq<u8>>,
) -> Seq<u8>
    decreases paths.len(),
{
    if paths.len() == 0 {
        Seq::empty()
    } else {
        records(paths.drop_last(), at) + record(paths.last(), at(paths.last()))
    }
}

/// The digest of the watched files `paths`: xxhash64, seed 0, over one record
/// per file, sorted by path, as 16 lowercase hex digits.
pub open spec fn digest_of(
    paths: Seq<Seq<char>>,
    at: spec_fn(Seq<char>) -> Option<Seq<u8>>,
) -> Seq<char> {
    number::hex_padded(xxhash64(0, records(order::sorted(paths), at)) as nat, 16)
}

/// A digest in the making: the caller opens the files in the order given and
/// feeds their contents piece by piece, so that a large file is never held
/// in full.
pub struct Digester {
    /// The watched files in the order of their records.
    pub entries: Vec<String>,
    /// The record that is written, or comes next.
    pub next: usize,
    /// The record's head is written and its contents are awaited.
    pub open: bool,
    /// Bytes written so far.
    pub length: u64,
    pub hasher: XxHash64,
}

impl Digester {
    /// The bytes written so far.
    pub open spec fn bytes(self) -> Seq<u8> {
        hashed(self.hasher)
    }

    /// The position is within the list, the count is right, and the hasher
    /// has seed 0.
    pub open spec fn wf(self) -> bool {
        &&& self.next <= self.entries.len()
        &&& self.open ==> self.next < self.entries.len()
        &&& seed(self.hasher) == 0
        &&& self.length == self.bytes().len()
    }

    /// A digest of `entries` with no record written.
    pub fn new(entries: &Vec<String>) -> (d: Self)
        ensures
            d.wf(),
            views(d.entries@) == order::sorted(views(entries@)),
            d.next == 0,
            !d.open,
            d.bytes() == Seq::<u8>::empty(),
    {
        Digester {
            entries: order::sort(entries),
            next: 0,
            open: false,
            length: 0,
            hasher: hasher_new(),
        }
    }

    /// The watched file to open next; `None` when all records are written.
    pub fn next_entry(&self) -> (r: Option<String>)
        requires
            self.wf(),
        ensures
            match r {
                Some(entry) => self.next < self.entries@.len() && entry@
                    == self.entries@[self.next as int]@,
                None => self.next == self.entries@.len(),
            },
    {
        if self.next < self.entries.len() {
            Some(self.entries[self.next].clone())
        } else {
            None
        }
    }

    /// Whether the hasher's count has room for `more` bytes.
    pub fn has_room(&self, more: usize) -> (r: bool)
        requires
            self.wf(),
        ensures
            r == (self.bytes().len() + more <= u64::MAX),
    {
        more as u64 <= u64::MAX - self.length
    }

    /// Write the head of the next record: the file is there, and its contents
    /// follow, or it is not.
    pub fn begin(&mut self, present: bool)
        requires
            old(self).wf(),
            !old(self).open,
            old(self).next < old(self).entries.len(),
            old(self).bytes().len() + record_head(
                old(self).entries@[old(self).next as int]@,
                present,
            ).len() <= u64::MAX,
        ensures
            final(self).wf(),
            final(self).entries == old(self).entries,
            final(self).open == present,
            final(self).next == if present {
                old(self).next as int
            } else {
                old(self).next + 1
            },
            final(self).bytes() == old(self).bytes() + record_head(
                old(self).entries@[old(self).next as int]@,
                present,
            ),
    {
        let ghost before = self.bytes();
        let path = self.entries[self.next].as_str().as_bytes_vec();
        let flag: u8 = if present {
            0x31
        } else {
            0x30
        };
        let mark: Vec<u8> = vec![0u8, flag, 0u8];
        hasher_write(&mut self.hasher, path.as_slice());
        hasher_write(&mut self.hasher, mark.as_slice());
        proof {
            assert(self.bytes() =~= before + record_head(
                self.entries@[self.next as int]@,
                present,
            ));
        }
        self.length = self.length + path.len() as u64 + 3;
        if present {
            self.open = true;
        } else {
            self.next = self.next + 1;
        }
    }

    /// Take in the next piece of the open file's contents.
    pub fn feed(&mut self, piece: &[u8])
        requires
            old(self).wf(),
            old(self).open,
            old(self).bytes().len() + piece@.len() <= u64::MAX,
        ensures
            final(self).wf(),
            final(self).entries == old(self).entries,
            final(self).open,
            final(self).next == old(self).next,
            final(self).bytes() == old(self).bytes() + piece@,
    {
        hasher_write(&mut self.hasher, piece);
        self.length = self.length + piece.len() as u64;
    }

    /// The open file has no more contents.
    pub fn end(&mut self)
        requires
            old(self).wf(),
            old(self).open,
        ensures
            final(self).wf(),
            final(self).entries == old(self).entries,
            !final(self).open,
            final(self).next == old(self).next + 1,
            final(self).bytes() == old(self).bytes(),
    {
        self.open = false;
        self.next = self.next + 1;
    }

    /// The digest of all bytes written, as 16 lowercase hex digits without a
    /// trailing newline.
    pub fn finish(&self) -> (out: String)
        requires
            self.wf(),
        ensures
            out@ == number::hex_padded(xxhash64(0, self.bytes()) as nat, 16),
    {
        number::format_hex_padded(hasher_finish(&self.hasher), 16)
    }
}

/// What the watched files hold.
pub struct Contents {
    /// Path and contents; `None` for a file that is not there.
    pub files: Vec<(String, Option<Vec<u8>>)>,
}

/// The contents of the first entry for `path`; nothing where there is none.
pub open spec fn contents_at(
    files: Seq<(String, Option<Vec<u8>>)>,
    path: Seq<char>,
) -> Option<Seq<u8>>
    decreases files.len(),
{
    if files.len() == 0 {
        None
    } else if files[0].0@ == path {
        match files[0].1 {
            Some(bytes) => Some(bytes@),
            None => None,
        }
    } else {
        contents_at(files.drop_first(), path)
    }
}

impl Contents {
    /// What each file holds.
    pub open spec fn at(self) -> spec_fn(Seq<char>) -> Option<Seq<u8>> {
        |path: Seq<char>| contents_at(self.files@, path)
    }

    /// Position of the first entry for `path` that is there, or none.
    fn find(&self, path: &str) -> (r: Option<usize>)
        ensures
            match r {
                Some(i) => i < self.files@.len() && self.files@[i as int].1 is Some && contents_at(
                    self.files@,
                    path@,
                ) == Some(self.files@[i as int].1->0@),
                None => contents_at(self.files@, path@) is None,
            },
    {
        let mut i: usize = 0;
        proof {
            assert(self.files@.skip(0) =~= self.files@);
        }
        while i < self.files.len()
            invariant
                i <= self.files@.len(),
                contents_at(self.files@.skip(i as int), path@) == contents_at(self.files@, path@),
            decreases self.files@.len() - i,
        {
            proof {
                assert(self.files@.skip(i as int)[0] == self.files@[i as int]);
                assert(self.files@.skip(i as int).drop_first() =~= self.files@.skip(i + 1));
            }
            if text::same(self.files[i].0.as_str(), path) {
                if self.files[i].1.is_some() {
                    return Some(i);
                } else {
                    return None;
                }
            }
            i = i + 1;
        }
        None
    }
}

proof fn lemma_records_grow(
    paths: Seq<Seq<char>>,
    at: spec_fn(Seq<char>) -> Option<Seq<u8>>,
    n: int,
)
    requires
        0 <= n < paths.len(),
    ensures
        records(paths.take(n + 1), at) == records(paths.take(n), at) + record(
            paths[n],
            at(paths[n]),
        ),
        records(paths.take(n), at).len() + record(paths[n], at(paths[n])).len() <= records(
            paths,
            at,
        ).len(),
    decreases paths.len() - n,
{
    assert(paths.take(n + 1).drop_last() =~= paths.take(n));
    if n + 1 < paths.len() {
        lemma_records_grow(paths, at, n + 1);
    } else {
        assert(paths.take(n + 1) =~= paths);
    }
}

/// The digest of `entries`, whose contents are all at hand.
pub fn compute(entries: &Vec<String>, contents: &Contents) -> (out: String)
    requires
        records(order::sorted(views(entries@)), contents.at()).len() <= u64::MAX,
    ensures
        out@ == digest_of(views(entries@), contents.at()),
{
    let ghost paths = order::sorted(views(entries@));
    let ghost at = contents.at();
    let mut digester = Digester::new(entries);
    proof {
        assert(paths.take(0) =~= Seq::<Seq<char>>::empty());
    }
    while digester.next < digester.entries.len()
        invariant
            digester.wf(),
            !digester.open,
            views(digester.entries@) == paths,
            at == contents.at(),
            digester.bytes() == records(paths.take(digester.next as int), at),
            records(paths, at).len() <= u64::MAX,
        decreases digester.entries@.len() - digester.next,
    {
        let ghost n = digester.next as int;
        let ghost before = digester.bytes();
        let path = digester.entries[digester.next].clone();
        proof {
            assert(paths[n] == path@);
            lemma_records_grow(paths, at, n);
        }
        match contents.find(path.as_str()) {
            Some(i) => {
                if let Some(bytes) = &contents.files[i].1 {
                    digester.begin(true);
                    digester.feed(bytes.as_slice());
                    digester.end();
                    proof {
                        assert(digester.bytes() =~= before + record(paths[n], at(paths[n])));
                    }
                }
            },
            None => {
                digester.begin(false);
            },
        }
    }
    proof {
        assert(paths.take(digester.next as int) =~= paths);
    }
    digester.finish()
}

/// The digest does not depend on the order in which the files are listed.
pub proof fn law_digest_ignores_entry_order(
    a: Seq<Seq<char>>,
    b: Seq<Seq<char>>,
    at: spec_fn(Seq<char>) -> Option<Seq<u8>>,
)
    requires
        a.to_multiset() == b.to_multiset(),
    ensures
        digest_of(a, at) == digest_of(b, at),
{
    order::lemma_text_order();
    b.lemma_sort_by_ensures(order::by_text());
    order::lemma_is_sorted(a, order::sorted(b));
}

/// Only the paths and the contents count: files that hold the same give the
/// same digest, whatever else changed about them.
pub proof fn law_same_contents_same_digest(
    paths: Seq<Seq<char>>,
    before: spec_fn(Seq<char>) -> Option<Seq<u8>>,
    after: spec_fn(Seq<char>) -> Option<Seq<u8>>,
)
    requires
        forall|i: int|
            0 <= i < paths.len() ==> before(#[trigger] paths[i]) == after(paths[i]),
    ensures
        digest_of(paths, before) == digest_of(paths, after),
{
    let s = order::sorted(paths);
    order::lemma_text_order();
    paths.lemma_sort_by_ensures(order::by_text());
    assert forall|i: int| 0 <= i < s.len() implies before(#[trigger] s[i]) == after(s[i]) by {
        assert(s.contains(s[i]));
        assert(paths.contains(s[i]));
    }
    lemma_same_records(s, before, after);
}

proof fn lemma_same_records(
    paths: Seq<Seq<char>>,
    before: spec_fn(Seq<char>) -> Option<Seq<u8>>,
    after: spec_fn(Seq<char>) -> Option<Seq<u8>>,
)
    requires
        forall|i: int|
            0 <= i < paths.len() ==> before(#[trigger] paths[i]) == after(paths[i]),
    ensures
        records(paths, before) == records(paths, after),
    decreases paths.len(),
{
    if paths.len() > 0 {
        let front = paths.drop_last();
        assert forall|i: int| 0 <= i < front.len() implies before(#[trigger] front[i]) == after(
            front[i],
        ) by {
            assert(front[i] == paths[i]);
        }
        lemma_same_records(front, before, after);
        assert(before(paths[paths.len() - 1]) == after(paths[paths.len() - 1]));
    }
}

/// A hex digit is no white space.
proof fn lemma_hex_char(d: int)
    requires
        0 <= d < 16,
    ensures
        !is_space(number::hex_char(d)),
        ('0' <= number::hex_char(d) && number::hex_char(d) <= '9') || ('a' <= number::hex_char(d)
            && number::hex_char(d) <= 'f'),
{
}

/// Padded hexadecimal text has its width, and holds hex digits only.
pub proof fn law_digest_is_lowercase_hex(n: nat, width: nat)
    ensures
        number::hex_padded(n, width).len() == width,
        forall|i: int|
            0 <= i < width ==> {
                let c = #[trigger] number::hex_padded(n, width)[i];
                !is_space(c) && (('0' <= c && c <= '9') || ('a' <= c && c <= 'f'))
            },
    decreases width,
{
    if width > 0 {
        let before = number::hex_padded(n / 16, (width - 1) as nat);
        law_digest_is_lowercase_hex(n / 16, (width - 1) as nat);
        lemma_hex_char((n % 16) as int);
        assert forall|i: int| 0 <= i < width implies {
            let c = #[trigger] number::hex_padded(n, width)[i];
            !is_space(c) && (('0' <= c && c <= '9') || ('a' <= c && c <= 'f'))
        } by {
            if i < width - 1 {
                assert(number::hex_padded(n, width)[i] == before[i]);
            }
        }
    }
}

// ---------------------------------------------------------------------------
// Freshness
// ---------------------------------------------------------------------------

/// Whether the cache is fresh, from what is in it and what the watched files
/// come to now; `None` for what cannot be read or computed.
pub open spec fn freshness(
    has_dump: bool,
    cached: Option<Seq<char>>,
    digest: Option<Seq<char>>,
) -> Freshness {
    if !has_dump {
        Freshness::Missing
    } else if cached is Some && digest is Some && trimmed(cached->0) == digest->0 {
        Freshness::Fresh
    } else {
        Freshness::Stale
    }
}

/// Compare the computed digest against the cached one: the env dump missing
/// is `Missing`, a matching hash is `Fresh`, everything else is `Stale`, a
/// digest that cannot be computed among it. The cached hash is trimmed, so
/// that a trailing newline reads as fresh.
pub fn check(has_dump: bool, cached: Option<&str>, digest: Option<&str>) -> (r: Freshness)
    ensures
        r == freshness(
            has_dump,
            match cached {
                Some(s) => Some(s@),
                None => None,
            },
            match digest {
                Some(s) => Some(s@),
                None => None,
            },
        ),
{
    if !has_dump {
        return Freshness::Missing;
    }
    match (cached, digest) {
        (Some(cached), Some(digest)) => if text::same(text::trim(cached).as_str(), digest) {
            Freshness::Fresh
        } else {
            Freshness::Stale
        },
        _ => Freshness::Stale,
    }
}

/// The word for a freshness.
pub open spec fn freshness_word(freshness: Freshness) -> Seq<char> {
    match freshness {
        Freshness::Fresh => "fresh"@,
        Freshness::Stale => "stale"@,
        Freshness::Missing => "missing"@,
    }
}

impl Freshness {
    /// The word for it, as `status` prints it.
    pub fn word(self) -> (out: &'static str)
        ensures
            out@ == freshness_word(self),
    {
        match self {
            Freshness::Fresh => "fresh",
            Freshness::Stale => "stale",
            Freshness::Missing => "missing",
        }
    }
}

/// Text without white space is its own trimmed form, with or without line
/// feeds behind it.
proof fn lemma_trim_plain(s: Seq<char>)
    requires
        forall|i: int| 0 <= i < s.len() ==> !is_space(#[trigger] s[i]),
    ensures
        trimmed(s) == s,
        trimmed(s.push('\n')) == s,
{
    if s.len() > 0 {
        assert(!is_space(s[0]));
        assert(!is_space(s[s.len() - 1]));
        assert(s.push('\n')[0] == s[0]);
        assert(s.push('\n').drop_last() =~= s);
        reveal_with_fuel(text::trim_end, 2);
    } else {
        let n = s.push('\n');
        assert(n.drop_first() =~= s);
        reveal_with_fuel(text::trim_start, 2);
    }
}

/// A digest that was stored reads as fresh for as long as the watched files
/// come to the same one, also with a line feed behind it. With no env dump
/// nothing is fresh, and nothing that cannot be computed is.
pub proof fn law_stored_digest_reads_fresh(hash: u64, cached: Option<Seq<char>>)
    ensures
        ({
            let digest = number::hex_padded(hash as nat, 16);
            &&& freshness(true, Some(digest), Some(digest)) == Freshness::Fresh
            &&& freshness(true, Some(digest.push('\n')), Some(digest)) == Freshness::Fresh
            &&& freshness(false, cached, Some(digest)) == Freshness::Missing
            &&& freshness(true, cached, None) == Freshness::Stale
            &&& freshness(true, None, Some(digest)) == Freshness::Stale
        }),
{
    let digest = number::hex_padded(hash as nat, 16);
    law_digest_is_lowercase_hex(hash as nat, 16);
    assert forall|i: int| 0 <= i < digest.len() implies !is_space(#[trigger] digest[i]) by {
        assert(!is_space(number::hex_padded(hash as nat, 16)[i]));
    }
    lemma_trim_plain(digest);
}

/// What is hashed: one record per file, in the order of the paths. A record
/// is the path, a NUL, `1` or `0` for a file that is there or is not, a NUL,
/// and the contents of one that is.
pub proof fn law_every_file_is_hashed(
    paths: Seq<Seq<char>>,
    path: Seq<char>,
    at: spec_fn(Seq<char>) -> Option<Seq<u8>>,
)
    ensures
        records(Seq::empty(), at) == Seq::<u8>::empty(),
        at(path) matches Some(bytes) ==> records(paths.push(path), at) == records(paths, at)
            + encode_utf8(path) + seq![0u8, 49u8, 0u8] + bytes,
        at(path) is None ==> records(paths.push(path), at) == records(paths, at) + encode_utf8(path)
            + seq![0u8, 48u8, 0u8],
{
    assert(paths.push(path).drop_last() =~= paths);
    if let Some(bytes) = at(path) {
        assert(records(paths.push(path), at) =~= records(paths, at) + encode_utf8(path) + seq![
            0u8,
            49u8,
            0u8,
        ] + bytes);
    } else {
        assert(records(paths.push(path), at) =~= records(paths, at) + encode_utf8(path) + seq![
            0u8,
            48u8,
            0u8,
        ]);
    }
}

/// The digest is the hash of the records, under seed 0 and with the paths in
/// order, in 16 hexadecimal digits.
pub proof fn law_digest_reads_as_the_hash(
    paths: Seq<Seq<char>>,
    at: spec_fn(Seq<char>) -> Option<Seq<u8>>,
)
    ensures
        digest_of(paths, at).len() == 16,
        number::read_hex(digest_of(paths, at)) == xxhash64(0, records(order::sorted(paths), at)),
{
    let hash = xxhash64(0, records(order::sorted(paths), at)) as nat;
    assert(vstd::arithmetic::power::pow(16, 16) == 0x1_0000_0000_0000_0000) by {
        reveal_with_fuel(vstd::arithmetic::power::pow, 17);
    }
    number::law_hex_reads_back(hash, 16);
}

/// A changed file changes what is hashed: where one watched file holds other
/// bytes, came or went, and every other holds the same, the records differ.
pub proof fn law_changed_file_changes_the_records(
    front: Seq<Seq<char>>,
    path: Seq<char>,
    back: Seq<Seq<char>>,
    before: spec_fn(Seq<char>) -> Option<Seq<u8>>,
    after: spec_fn(Seq<char>) -> Option<Seq<u8>>,
)
    requires
        before(path) != after(path),
        forall|i: int| 0 <= i < front.len() ==> before(#[trigger] front[i]) == after(front[i]),
        forall|i: int| 0 <= i < back.len() ==> before(#[trigger] back[i]) == after(back[i]),
    ensures
        records(front + seq![path] + back, before) != records(front + seq![path] + back, after),
{
    lemma_same_records(front, before, after);
    lemma_same_records(back, before, after);
    lemma_records_join(front + seq![path], back, before);
    lemma_records_join(front + seq![path], back, after);
    assert(front + seq![path] =~= front.push(path));
    assert(front.push(path).drop_last() =~= front);
    let p = records(front, before);
    let s = records(back, before);
    let x = record(path, before(path));
    let y = record(path, after(path));
    let all_x = p + x + s;
    let all_y = p + y + s;
    let n = encode_utf8(path).len() as int;
    let m = p.len() as int;
    if all_x == all_y {
        assert(all_x.len() == m + x.len() + s.len());
        assert(all_y.len() == m + y.len() + s.len());
        assert(x.len() == y.len());
        assert(x =~= all_x.subrange(m, m + x.len()));
        assert(y =~= all_y.subrange(m, m + y.len()));
        assert(x == y);
        assert(x[n + 1] == y[n + 1]);
        assert(before(path) is Some <==> after(path) is Some);
        if before(path) is Some {
            assert(x.skip(n + 3) =~= before(path)->0);
            assert(y.skip(n + 3) =~= after(path)->0);
        }
        assert(false);
    }
}

proof fn lemma_records_join(
    a: Seq<Seq<char>>,
    b: Seq<Seq<char>>,
    at: spec_fn(Seq<char>) -> Option<Seq<u8>>,
)
    ensures
        records(a + b, at) == records(a, at) + records(b, at),
    decreases b.len(),
{
    if b.len() == 0 {
        assert(a + b =~= a);
        assert(records(a, at) + records(b, at) =~= records(a, at));
    } else {
        lemma_records_join(a, b.drop_last(), at);
        assert((a + b).drop_last() =~= a + b.drop_last());
        assert(records(a + b, at) =~= records(a, at) + records(b, at));
    }
}

/// What a file holds is what the first entry for it says, and a file without
/// an entry is not there.
pub proof fn law_first_contents_count(contents: Contents, i: int, path: Seq<char>)
    requires
        0 <= i <= contents.files@.len(),
        i < contents.files@.len() ==> contents.files@[i].0@ == path,
        forall|j: int| 0 <= j < i ==> (#[trigger] contents.files@[j]).0@ != path,
    ensures
        contents.at()(path) == if i < contents.files@.len() && contents.files@[i].1 is Some {
            Some(contents.files@[i].1->0@)
        } else {
            None
        },
{
    lemma_first_contents(contents.files@, i, path);
}

proof fn lemma_first_contents(files: Seq<(String, Option<Vec<u8>>)>, i: int, path: Seq<char>)
    requires
        0 <= i <= files.len(),
        i < files.len() ==> files[i].0@ == path,
        forall|j: int| 0 <= j < i ==> (#[trigger] files[j]).0@ != path,
    ensures
        contents_at(files, path) == if i < files.len() && files[i].1 is Some {
            Some(files[i].1->0@)
        } else {
            None
        },
    decreases i,
{
    if i > 0 {
        assert(files[0].0@ != path);
        let rest = files.drop_first();
        assert forall|j: int| 0 <= j < i - 1 implies (#[trigger] rest[j]).0@ != path by {
            assert(rest[j] == files[j + 1]);
        }
        lemma_first_contents(rest, i - 1, path);
    }
}

/// With an env dump, the cache is fresh exactly where the stored digest,
/// white space round it aside, is the computed one; it is stale otherwise.
/// Without one it is missing, whatever is stored.
pub proof fn law_freshness_compares_the_digests(
    front: Seq<char>,
    stored: Seq<char>,
    back: Seq<char>,
    computed: Seq<char>,
    has_dump: bool,
)
    requires
        forall|i: int| 0 <= i < front.len() ==> is_space(#[trigger] front[i]),
        forall|i: int| 0 <= i < back.len() ==> is_space(#[trigger] back[i]),
        stored.len() > 0 ==> !is_space(stored[0]) && !is_space(stored.last()),
    ensures
        freshness(has_dump, Some(front + stored + back), Some(computed)) == if !has_dump {
            Freshness::Missing
        } else if stored == computed {
            Freshness::Fresh
        } else {
            Freshness::Stale
        },
        freshness(has_dump, None, Some(computed)) == if has_dump {
            Freshness::Stale
        } else {
            Freshness::Missing
        },
        freshness(has_dump, Some(stored), None) == if has_dump {
            Freshness::Stale
        } else {
            Freshness::Missing
        },
        freshness(has_dump, None, None) == if has_dump {
            Freshness::Stale
        } else {
            Freshness::Missing
        },
        freshness_word(Freshness::Fresh) == "fresh"@,
        freshness_word(Freshness::Stale) == "stale"@,
        freshness_word(Freshness::Missing) == "missing"@,
{
    text::law_trim_keeps_the_middle(front, stored, back);
}

} // verus!
