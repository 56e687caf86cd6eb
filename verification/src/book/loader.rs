//! The XRBK v1 binary book format: a 16-byte header (magic `XRBK`, version,
//! record count, flags; integers little-endian) followed by one 16-byte
//! record per entry (hash, move, weight, score, two padding bytes). Files
//! are read and written by the caller; this module turns entries into bytes
//! and bytes into entries.
use vstd::prelude::*;
use super::opening::{holds, strict, Book, Entry};

verus! {

/// Name given to entries read from a book file.
pub const LOADED: &'static str = "Dynamic Book";

/// The header of a book file.
#[derive(Clone, Copy, Debug, PartialEq, Eq)]
pub struct Header {
    /// Magic bytes, `XRBK`.
    pub magic: [u8; 4],
    /// Format version.
    pub version: u32,
    /// Number of records.
    pub count: u32,
    /// Feature flags.
    pub flags: u32,
}

/// The magic bytes `XRBK`.
pub open spec fn spec_magic() -> Seq<u8> {
    seq![88u8, 82u8, 66u8, 75u8]
}

impl Header {
    /// The magic bytes `XRBK`.
    pub const MAGIC: [u8; 4] = [88, 82, 66, 75];
    /// The format version.
    pub const VERSION: u32 = 1;

    /// The header of a file of `count` records.
    pub fn new(count: u32) -> (r: Self)
        ensures
            r.magic@ == spec_magic(),
            r.version == 1,
            r.count == count,
            r.flags == 0,
    {
        let r = Self { magic: [88, 82, 66, 75], version: 1, count, flags: 0 };
        assert(r.magic@ =~= spec_magic());
        r
    }

    /// Whether the magic bytes and version are those of this format.
    pub fn valid(&self) -> (r: bool)
        ensures
            r == (self.magic@ == spec_magic() && self.version == 1),
    {
        let ok = self.magic[0] == 88 && self.magic[1] == 82 && self.magic[2] == 66 && self.magic[3]
            == 75;
        if ok {
            assert(self.magic@ =~= spec_magic());
        } else {
            assert(self.magic@ != spec_magic()) by {
                if self.magic@ == spec_magic() {
                    assert(self.magic@[0] == spec_magic()[0]);
                    assert(self.magic@[1] == spec_magic()[1]);
                    assert(self.magic@[2] == spec_magic()[2]);
                    assert(self.magic@[3] == spec_magic()[3]);
                }
            }
        }
        ok && self.version == 1
    }
}

/// One record of a book file.
#[derive(Clone, Copy, Debug, PartialEq, Eq)]
pub struct Record {
    /// Position hash.
    pub hash: u64,
    /// Packed move.
    pub mv: u16,
    /// Weight.
    pub weight: u16,
    /// Score.
    pub score: i16,
    /// Padding.
    pub pad: [u8; 2],
}

impl Record {
    /// The book entry of the record.
    pub fn entry(&self) -> (r: Entry)
        ensures
            r == (Entry { hash: self.hash, mv: self.mv, weight: self.weight, name: LOADED }),
    {
        Entry::new(self.hash, self.mv, self.weight, LOADED)
    }

    /// The record of a book entry, with score 0.
    pub fn from_entry(entry: &Entry) -> (r: Self)
        ensures
            r.hash == entry.hash && r.mv == entry.mv && r.weight == entry.weight && r.score == 0,
            r.pad[0] == 0 && r.pad[1] == 0,
    {
        Self { hash: entry.hash, mv: entry.mv, weight: entry.weight, score: 0, pad: [0; 2] }
    }
}

/// Why book bytes were refused.
#[derive(Clone, Copy, Debug, PartialEq, Eq, Structural)]
pub enum Fault {
    /// The bytes end before the header or a record does.
    Truncated,
    /// The magic bytes or version are wrong.
    Invalid,
}

/// Little-endian value of the two bytes at `at`.
pub open spec fn le16(b: Seq<u8>, at: int) -> int {
    b[at] + b[at + 1] * 256
}

/// Little-endian value of the four bytes at `at`.
pub open spec fn le32(b: Seq<u8>, at: int) -> int {
    le16(b, at) + le16(b, at + 2) * 65536
}

/// Little-endian value of the eight bytes at `at`.
pub open spec fn le64(b: Seq<u8>, at: int) -> int {
    le32(b, at) + le32(b, at + 4) * 4294967296
}

/// Little-endian bytes of a 16-bit value.
#[verifier::opaque]
pub open spec fn bytes16(x: int) -> Seq<u8> {
    seq![(x % 256) as u8, (x / 256 % 256) as u8]
}

/// Little-endian bytes of a 32-bit value.
pub open spec fn bytes32(x: int) -> Seq<u8> {
    bytes16(x % 65536) + bytes16(x / 65536 % 65536)
}

/// Little-endian bytes of a 64-bit value.
pub open spec fn bytes64(x: int) -> Seq<u8> {
    bytes32(x % 4294967296) + bytes32(x / 4294967296 % 4294967296)
}

/// The bytes of the record of `e`.
pub open spec fn record_bytes(e: Entry) -> Seq<u8> {
    bytes64(e.hash as int) + bytes16(e.mv as int) + bytes16(e.weight as int) + seq![0u8, 0u8, 0u8, 0u8]
}

/// The bytes of the records of the first `n` entries.
pub open spec fn records_bytes(es: Seq<Entry>, n: nat) -> Seq<u8>
    decreases n,
{
    if n == 0 {
        seq![]
    } else {
        records_bytes(es, (n - 1) as nat) + record_bytes(es[n - 1])
    }
}

/// The bytes of a book file holding `es`; the header's count is the number
/// of entries truncated to 32 bits.
pub open spec fn book_bytes(es: Seq<Entry>) -> Seq<u8> {
    spec_magic() + bytes32(1) + bytes32((es.len() as u32) as int) + bytes32(0) + records_bytes(es, es.len())
}

/// The entry read from the record at `at`.
pub open spec fn entry_at(b: Seq<u8>, at: int) -> Entry {
    Entry { hash: le64(b, at) as u64, mv: le16(b, at + 8) as u16, weight: le16(b, at + 10) as u16, name: LOADED }
}

/// What reading book bytes gives: the entries of the records that the
/// header announces, or why the bytes were refused. Bytes past the last
/// record are ignored.
pub open spec fn decoded(b: Seq<u8>) -> Result<Seq<Entry>, Fault> {
    if b.len() < 16 {
        Err(Fault::Truncated)
    } else if b.subrange(0, 4) != spec_magic() || le32(b, 4) != 1 {
        Err(Fault::Invalid)
    } else if b.len() < 16 + 16 * le32(b, 8) {
        Err(Fault::Truncated)
    } else {
        Ok(Seq::new(le32(b, 8) as nat, |i: int| entry_at(b, 16 + 16 * i)))
    }
}

fn push16(out: &mut Vec<u8>, x: u16)
    ensures
        final(out)@ == old(out)@ + bytes16(x as int),
{
    assert(x / 256 < 256) by (nonlinear_arith)
        requires
            x < 65536,
    ;
    out.push((x % 256) as u8);
    out.push((x / 256) as u8);
    reveal(bytes16);
    assert(final(out)@ =~= old(out)@ + bytes16(x as int));
}

pub(crate) fn push32(out: &mut Vec<u8>, x: u32)
    ensures
        final(out)@ == old(out)@ + bytes32(x as int),
{
    assert(x / 65536 < 65536) by (nonlinear_arith)
        requires
            x < 4294967296,
    ;
    let lo = (x % 65536) as u16;
    let hi = (x / 65536) as u16;
    assert(lo as int == (x as int) % 65536);
    assert(hi as int == (x as int) / 65536 % 65536);
    let ghost o = out@;
    push16(out, lo);
    push16(out, hi);
    assert(final(out)@ =~= o + bytes16(lo as int) + bytes16(hi as int));
    assert(bytes32(x as int) == bytes16(lo as int) + bytes16(hi as int));
}

fn push64(out: &mut Vec<u8>, x: u64)
    ensures
        final(out)@ == old(out)@ + bytes64(x as int),
{
    assert(x / 4294967296 < 4294967296) by (nonlinear_arith)
        requires
            x < 18446744073709551616,
    ;
    let lo = (x % 4294967296) as u32;
    let hi = (x / 4294967296) as u32;
    assert(lo as int == (x as int) % 4294967296);
    assert(hi as int == (x as int) / 4294967296 % 4294967296);
    let ghost o = out@;
    push32(out, lo);
    push32(out, hi);
    assert(final(out)@ =~= o + bytes32(lo as int) + bytes32(hi as int));
    assert(bytes64(x as int) == bytes32(lo as int) + bytes32(hi as int));
}

fn read16(b: &[u8], at: usize) -> (r: u16)
    requires
        at + 2 <= b@.len(),
    ensures
        r == le16(b@, at as int),
{
    b[at] as u16 + (b[at + 1] as u16) * 256
}

pub(crate) fn read32(b: &[u8], at: usize) -> (r: u32)
    requires
        at + 4 <= b@.len(),
    ensures
        r == le32(b@, at as int),
{
    let _n = b.len();
    let lo = read16(b, at) as u32;
    let hi = read16(b, at + 2) as u32;
    assert(lo + hi * 65536 <= 4294967295) by (nonlinear_arith)
        requires
            lo <= 65535,
            hi <= 65535,
    ;
    lo + hi * 65536
}

fn read64(b: &[u8], at: usize) -> (r: u64)
    requires
        at + 8 <= b@.len(),
    ensures
        r == le64(b@, at as int),
{
    let _n = b.len();
    let lo = read32(b, at) as u64;
    let hi = read32(b, at + 4) as u64;
    assert(lo + hi * 4294967296 <= 18446744073709551615) by (nonlinear_arith)
        requires
            lo <= 4294967295,
            hi <= 4294967295,
    ;
    lo + hi * 4294967296
}

/// Reading and writing the XRBK v1 book format.
pub struct Loader;

impl Loader {
    /// The bytes of a book file holding `entries`.
    pub fn encode_xrbk(entries: &[Entry]) -> (r: Vec<u8>)
        ensures
            r@ == book_bytes(entries@),
    {
        let header = Header::new(entries.len() as u32);
        let mut out: Vec<u8> = Vec::new();
        out.push(header.magic[0]);
        out.push(header.magic[1]);
        out.push(header.magic[2]);
        out.push(header.magic[3]);
        push32(&mut out, header.version);
        push32(&mut out, header.count);
        push32(&mut out, header.flags);
        let ghost head = out@;
        assert(head =~= spec_magic() + bytes32(1) + bytes32((entries@.len() as u32) as int) + bytes32(0));
        let mut i: usize = 0;
        while i < entries.len()
            invariant
                i <= entries@.len(),
                out@ == head + records_bytes(entries@, i as nat),
            decreases entries@.len() - i,
        {
            let record = Record::from_entry(&entries[i]);
            push64(&mut out, record.hash);
            push16(&mut out, record.mv);
            push16(&mut out, record.weight);
            out.push(0);
            out.push(0);
            out.push(0);
            out.push(0);
            assert(out@ =~= head + records_bytes(entries@, (i + 1) as nat));
            i += 1;
        }
        out
    }

    /// Loads the book file `bytes` into the learnt moves of `book`, replacing
    /// them; returns how many entries the file holds, or why it was refused,
    /// leaving `book` as it was.
    pub fn import(book: &mut Book, bytes: &[u8]) -> (r: Result<usize, Fault>)
        ensures
            match decoded(bytes@) {
                Ok(es) => {
                    &&& r == Ok::<usize, Fault>(es.len() as usize)
                    &&& strict(final(book).dynamic@)
                    &&& forall|i: int| 0 <= i < final(book).dynamic@.len() ==> es.contains(#[trigger] final(book).dynamic@[i])
                    &&& forall|i: int| 0 <= i < es.len() ==> holds(final(book).dynamic@, #[trigger] es[i].hash)
                    &&& final(book).entries == old(book).entries
                },
                Err(f) => r == Err::<usize, Fault>(f) && *final(book) == *old(book),
            },
    {
        match Self::decode_xrbk(bytes) {
            Ok(entries) => {
                let count = entries.len();
                book.load_batch(entries);
                Ok(count)
            },
            Err(f) => Err(f),
        }
    }

    /// The entries of a book file's bytes, or why they were refused.
    pub fn decode_xrbk(bytes: &[u8]) -> (r: Result<Vec<Entry>, Fault>)
        ensures
            match r {
                Ok(v) => decoded(bytes@) == Ok::<Seq<Entry>, Fault>(v@),
                Err(f) => decoded(bytes@) == Err::<Seq<Entry>, Fault>(f),
            },
    {
        if bytes.len() < 16 {
            return Err(Fault::Truncated);
        }
        let header = Header {
            magic: [bytes[0], bytes[1], bytes[2], bytes[3]],
            version: read32(bytes, 4),
            count: read32(bytes, 8),
            flags: read32(bytes, 12),
        };
        assert(header.magic@ =~= bytes@.subrange(0, 4));
        if !header.valid() {
            return Err(Fault::Invalid);
        }
        let count = header.count as usize;
        if (bytes.len() - 16) / 16 < count {
            return Err(Fault::Truncated);
        }
        let rest = bytes.len() - 16;
        assert(16 * count <= rest) by (nonlinear_arith)
            requires
                count <= rest / 16,
        ;
        let mut entries: Vec<Entry> = Vec::new();
        let mut i: usize = 0;
        let total = bytes.len();
        while i < count
            invariant
                total == bytes@.len(),
                count == le32(bytes@, 8),
                16 + 16 * count <= bytes@.len(),
                i <= count,
                entries@ == Seq::new(i as nat, |k: int| entry_at(bytes@, 16 + 16 * k)),
            decreases count - i,
        {
            let at = 16 + 16 * i;
            let hash = read64(bytes, at);
            let mv = read16(bytes, at + 8);
            let weight = read16(bytes, at + 10);
            entries.push(Entry::new(hash, mv, weight, LOADED));
            assert(entries@ =~= Seq::new((i + 1) as nat, |k: int| entry_at(bytes@, 16 + 16 * k)));
            i += 1;
        }
        Ok(entries)
    }
}

proof fn lemma_b16(x: int)
    requires
        0 <= x < 65536,
    ensures
        bytes16(x).len() == 2,
        le16(bytes16(x), 0) == x,
{
    reveal(bytes16);
    assert(x / 256 < 256) by (nonlinear_arith)
        requires
            0 <= x < 65536,
    ;
    assert(x % 256 + (x / 256) * 256 == x) by (nonlinear_arith);
}

pub(crate) proof fn lemma_b32(x: int)
    requires
        0 <= x < 4294967296,
    ensures
        bytes32(x).len() == 4,
        le32(bytes32(x), 0) == x,
{
    let lo = x % 65536;
    let hi = x / 65536 % 65536;
    assert(x / 65536 < 65536) by (nonlinear_arith)
        requires
            0 <= x < 4294967296,
    ;
    lemma_b16(lo);
    lemma_b16(hi);
    let c = bytes32(x);
    assert(c == bytes16(lo) + bytes16(hi));
    assert(le16(c, 0) == le16(bytes16(lo), 0));
    assert(le16(c, 2) == le16(bytes16(hi), 0));
    assert((x % 65536) + (x / 65536) * 65536 == x) by (nonlinear_arith);
}

proof fn lemma_b64(x: int)
    requires
        0 <= x < 18446744073709551616,
    ensures
        bytes64(x).len() == 8,
        le64(bytes64(x), 0) == x,
{
    let lo = x % 4294967296;
    let hi = x / 4294967296 % 4294967296;
    assert(x / 4294967296 < 4294967296) by (nonlinear_arith)
        requires
            0 <= x < 18446744073709551616,
    ;
    lemma_b32(lo);
    lemma_b32(hi);
    let c = bytes64(x);
    assert(c == bytes32(lo) + bytes32(hi));
    assert(le32(c, 0) == le32(bytes32(lo), 0));
    assert(le32(c, 4) == le32(bytes32(hi), 0));
    assert((x % 4294967296) + (x / 4294967296) * 4294967296 == x) by (nonlinear_arith);
}

proof fn lemma_records(es: Seq<Entry>, n: nat)
    requires
        n <= es.len(),
    ensures
        records_bytes(es, n).len() == 16 * n,
        forall|i: int, k: int|
            0 <= i < n && 0 <= k < 16 ==> #[trigger] records_bytes(es, n)[16 * i + k] == record_bytes(
                es[i],
            )[k],
    decreases n,
{
    if n > 0 {
        lemma_records(es, (n - 1) as nat);
        let e = es[n - 1];
        lemma_b64(e.hash as int);
        lemma_b16(e.mv as int);
        lemma_b16(e.weight as int);
        assert(record_bytes(e).len() == 16);
        assert forall|i: int, k: int|
            0 <= i < n && 0 <= k < 16 implies #[trigger] records_bytes(es, n)[16 * i + k] == record_bytes(
                es[i],
            )[k] by {
            if i < n - 1 {
                assert(records_bytes(es, (n - 1) as nat)[16 * i + k] == record_bytes(es[i])[k]);
            }
        }
    }
}

proof fn lemma_entry_at(b: Seq<u8>, at: int, e: Entry)
    requires
        0 <= at,
        at + 16 <= b.len(),
        forall|k: int| 0 <= k < 16 ==> #[trigger] b[at + k] == record_bytes(e)[k],
    ensures
        entry_at(b, at) == (Entry { hash: e.hash, mv: e.mv, weight: e.weight, name: LOADED }),
{
    lemma_b64(e.hash as int);
    lemma_b16(e.mv as int);
    lemma_b16(e.weight as int);
    let r = record_bytes(e);
    let h = bytes64(e.hash as int);
    let m = bytes16(e.mv as int);
    let w = bytes16(e.weight as int);
    assert(b[at + 0] == r[0]);
    assert(b[at + 1] == r[1]);
    assert(b[at + 2] == r[2]);
    assert(b[at + 3] == r[3]);
    assert(b[at + 4] == r[4]);
    assert(b[at + 5] == r[5]);
    assert(b[at + 6] == r[6]);
    assert(b[at + 7] == r[7]);
    assert(b[at + 8] == r[8]);
    assert(b[at + 9] == r[9]);
    assert(b[at + 10] == r[10]);
    assert(b[at + 11] == r[11]);
    assert(r[0] == h[0]);
    assert(r[1] == h[1]);
    assert(r[2] == h[2]);
    assert(r[3] == h[3]);
    assert(r[4] == h[4]);
    assert(r[5] == h[5]);
    assert(r[6] == h[6]);
    assert(r[7] == h[7]);
    assert(r[8] == m[0]);
    assert(r[10] == w[0]);
    assert(r[9] == m[1]);
    assert(r[11] == w[1]);
    assert(le16(b, at) == le16(h, 0));
    assert(le16(b, at + 2) == le16(h, 2));
    assert(le16(b, at + 4) == le16(h, 4));
    assert(le16(b, at + 6) == le16(h, 6));
    assert(le64(b, at) == le64(h, 0));
    assert(le16(b, at + 8) == le16(m, 0));
    assert(le16(b, at + 10) == le16(w, 0));
}

/// Reading back what was written gives the entries that were written, each
/// named as a loaded entry: `decode_xrbk` undoes `encode_xrbk` for any list
/// of at most 2^32 - 1 entries.
pub proof fn lemma_decode_encode(es: Seq<Entry>)
    requires
        es.len() <= 4294967295,
    ensures
        decoded(book_bytes(es)) == Ok::<Seq<Entry>, Fault>(
            es.map_values(|e: Entry| Entry { hash: e.hash, mv: e.mv, weight: e.weight, name: LOADED }),
        ),
{
    let n = es.len();
    let b = book_bytes(es);
    let head = spec_magic() + bytes32(1) + bytes32((n as u32) as int) + bytes32(0);
    let recs = records_bytes(es, n);
    lemma_b32(1);
    lemma_b32(n as int);
    lemma_b32(0);
    lemma_records(es, n);
    assert(head.len() == 16);
    assert(b == head + recs);
    assert(b.subrange(0, 4) =~= spec_magic());
    assert(le32(b, 4) == le32(bytes32(1), 0));
    assert(le32(b, 8) == le32(bytes32(n as int), 0));
    assert(le32(b, 8) == n);
    let want = es.map_values(|e: Entry| Entry { hash: e.hash, mv: e.mv, weight: e.weight, name: LOADED });
    let got = Seq::new(n, |i: int| entry_at(b, 16 + 16 * i));
    assert forall|i: int| 0 <= i < n implies #[trigger] got[i] == want[i] by {
        assert forall|k: int| 0 <= k < 16 implies #[trigger] b[(16 + 16 * i) + k] == record_bytes(es[i])[k] by {
            assert(b[(16 + 16 * i) + k] == recs[16 * i + k]);
        }
        lemma_entry_at(b, 16 + 16 * i, es[i]);
    }
    assert(got =~= want);
}

} // verus!
