//! Directory listings produced by the host, one entry at a time.
use vstd::prelude::*;
use vstd::bytes::*;
use vstd::slice::*;
use vstd::utf8::*;

verus! {

/// The longest entry name, in bytes, that the host writes.
pub const MAX_NAME_SIZE: usize = 256;

/// The size of the area the host writes an entry into: depth (4 bytes),
/// name length (2 bytes), then up to `MAX_NAME_SIZE` bytes of name.
pub const ENTRY_BUFFER_SIZE: usize = 4 + 2 + MAX_NAME_SIZE;

/// A listing of a directory that the host keeps open under `id`.
pub struct DirIterator {
    id: i64,
}

/// One entry of a listing: its name and its depth below the listed
/// directory.
#[derive(Debug, Clone)]
pub struct DirIteratorEntry {
    pub name: String,
    pub depth: u32,
}

/// What fetching the next entry takes.
#[derive(Debug, Clone, Copy, PartialEq, Eq, Structural)]
pub enum DirStep {
    /// The listing is exhausted.
    Finished,
    /// Ask the host to write the next entry into a buffer of
    /// `ENTRY_BUFFER_SIZE` bytes and hand it to `finish_next`.
    FetchEntry,
}

/// The length of the name that an entry record announces.
pub open spec fn entry_name_len(record: Seq<u8>) -> nat {
    spec_u16_from_le_bytes(record.subrange(4, 6)) as nat
}

/// Whether an entry record holds the whole name it announces.
pub open spec fn entry_fits(record: Seq<u8>) -> bool {
    &&& record.len() >= 6
    &&& 6 + entry_name_len(record) <= record.len()
}

/// The bytes of the name in an entry record.
pub open spec fn entry_name_bytes(record: Seq<u8>) -> Seq<u8> {
    record.subrange(6, 6 + entry_name_len(record) as int)
}

/// The depth and name that an entry record holds; `None` when the name is
/// not UTF-8.
pub open spec fn decode_entry(record: Seq<u8>) -> Option<(u32, Seq<char>)> {
    if valid_utf8(entry_name_bytes(record)) {
        Some((spec_u32_from_le_bytes(record.subrange(0, 4)), decode_utf8(entry_name_bytes(record))))
    } else {
        None
    }
}

/// How the host lays out an entry: depth, name length, name bytes, all
/// integers little-endian.
pub open spec fn entry_encoding(depth: u32, name: Seq<char>) -> Seq<u8> {
    spec_u32_to_le_bytes(depth) + spec_u16_to_le_bytes(encode_utf8(name).len() as u16)
        + encode_utf8(name)
}

/// An entry laid out by the host reads back as the same depth and name,
/// whatever follows it in the buffer, provided the name's UTF-8 form fits
/// the 16-bit length field.
pub proof fn lemma_entry_round_trip(depth: u32, name: Seq<char>, rest: Seq<u8>)
    requires
        encode_utf8(name).len() < 0x10000,
    ensures
        entry_fits(entry_encoding(depth, name) + rest),
        decode_entry(entry_encoding(depth, name) + rest) == Some((depth, name)),
{
    broadcast use encode_utf8_valid_utf8, encode_utf8_decode_utf8;

    lemma_auto_spec_u16_to_from_le_bytes();
    lemma_auto_spec_u32_to_from_le_bytes();
    let bytes = encode_utf8(name);
    let d = spec_u32_to_le_bytes(depth);
    let l = spec_u16_to_le_bytes(bytes.len() as u16);
    let record = entry_encoding(depth, name) + rest;
    assert(record =~= d + l + bytes + rest);
    assert(record.subrange(0, 4) =~= d);
    assert(record.subrange(4, 6) =~= l);
    assert((bytes.len() as u16) as nat == bytes.len());
    assert(entry_name_len(record) == bytes.len());
    assert(entry_name_bytes(record) =~= bytes);
}

/// A string is the UTF-8 decoding of any bytes that are its UTF-8 encoding:
/// such bytes are valid UTF-8, and decoding them gives back the string
/// character for character. So a name whose bytes were checked against the
/// host's record is the record's name, whatever produced the string.
pub proof fn lemma_name_of_host_bytes(bytes: Seq<u8>, name: Seq<char>)
    requires
        encode_utf8(name) == bytes,
    ensures
        valid_utf8(bytes),
        decode_utf8(bytes) == name,
{
    encode_utf8_valid_utf8(name);
    encode_utf8_decode_utf8(name);
}

/// Whether two byte slices hold the same bytes.
fn same_bytes(a: &[u8], b: &[u8]) -> (same: bool)
    ensures
        same == (a@ == b@),
{
    if a.len() != b.len() {
        return false;
    }
    let n = a.len();
    let mut i: usize = 0;
    while i < n
        invariant
            i <= n,
            n == a@.len(),
            n == b@.len(),
            a@.take(i as int) == b@.take(i as int),
        decreases n - i,
    {
        if a[i] != b[i] {
            assert(a@[i as int] != b@[i as int]);
            return false;
        }
        assert(a@.take(i + 1) =~= a@.take(i as int).push(a@[i as int]));
        assert(b@.take(i + 1) =~= b@.take(i as int).push(b@[i as int]));
        i = i + 1;
    }
    assert(a@ =~= a@.take(n as int));
    assert(b@ =~= b@.take(n as int));
    true
}

/// `String::from_utf8` from std: `Some` exactly when the bytes are valid
/// UTF-8, and then the string holds the characters they encode.
#[verifier::external_body]
fn string_from_utf8(bytes: Vec<u8>) -> (r: Option<String>)
    ensures
        r is Some <==> valid_utf8(bytes@),
        r matches Some(s) ==> s@ == decode_utf8(bytes@),
{
    String::from_utf8(bytes).ok()
}

impl DirIterator {
    pub closed spec fn id_spec(&self) -> i64 {
        self.id
    }

    /// The listing that the host opened under `id`.
    pub fn from_id(id: i64) -> (it: DirIterator)
        ensures
            it.id_spec() == id,
    {
        DirIterator { id }
    }

    pub fn id(&self) -> (r: i64)
        ensures
            r == self.id_spec(),
    {
        self.id
    }

    /// The flag the host expects for a recursive or a flat listing.
    pub fn recursive_flag(recursive: bool) -> (flag: u8)
        ensures
            flag == (if recursive { 1u8 } else { 0u8 }),
    {
        if recursive {
            1
        } else {
            0
        }
    }

    /// Whether the host's answer to "is there another entry" means that one
    /// must be fetched.
    pub fn next_step(has_next: u8) -> (step: DirStep)
        ensures
            step == DirStep::Finished <==> has_next == 0,
    {
        if has_next == 0 {
            DirStep::Finished
        } else {
            DirStep::FetchEntry
        }
    }

    /// Whether `record` holds the whole name that it announces, which
    /// `finish_next` needs.
    pub fn record_fits(record: &[u8]) -> (fits: bool)
        ensures
            fits == entry_fits(record@),
    {
        if record.len() < 6 {
            return false;
        }
        let name_size = u16_from_le_bytes(slice_subrange(record, 4, 6)) as usize;
        record.len() - 6 >= name_size
    }

    /// The entry that the host wrote into `record`, given the host's success
    /// flag: nothing when the host failed or the name is not UTF-8.
    pub fn finish_next(success: u8, record: &[u8]) -> (entry: Option<DirIteratorEntry>)
        requires
            success != 0 ==> entry_fits(record@),
        ensures
            success == 0 ==> entry is None,
            success != 0 ==> (entry is Some <==> decode_entry(record@) is Some),
            entry matches Some(e) ==> decode_entry(record@) == Some((e.depth, e.name@)),
            entry matches Some(e) ==> encode_utf8(e.name@) == entry_name_bytes(record@),
            entry matches Some(e) ==> e.depth == spec_u32_from_le_bytes(record@.subrange(0, 4)),
    {
        if success == 0 {
            return None;
        }
        let (depth_bytes, tail) = record.split_at(4);
        let depth = u32_from_le_bytes(depth_bytes);
        let (name_size_bytes, tail) = tail.split_at(2);
        let name_size = u16_from_le_bytes(name_size_bytes) as usize;
        assert(depth_bytes@ =~= record@.subrange(0, 4));
        assert(name_size_bytes@ =~= record@.subrange(4, 6));
        let name_bytes = slice_subrange(tail, 0, name_size);
        assert(name_bytes@ =~= entry_name_bytes(record@));
        match string_from_utf8(slice_to_vec(name_bytes)) {
            Some(name) => {
                // The name is accepted only if its UTF-8 bytes are exactly the
                // record's name bytes, which fixes it character for character.
                if same_bytes(name.as_str().as_bytes(), name_bytes) {
                    proof {
                        lemma_name_of_host_bytes(name_bytes@, name@);
                    }
                    Some(DirIteratorEntry { name, depth })
                } else {
                    // A decoding of valid UTF-8 encodes back to the same bytes,
                    // so std's conversion never lands here.
                    proof {
                        decode_utf8_encode_utf8(name_bytes@);
                    }
                    None
                }
            },
            None => None,
        }
    }
}

} // verus!
