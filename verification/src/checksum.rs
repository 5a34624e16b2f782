//! Identifiers of game files: the CRC32 of the first bytes of the file.

use vstd::prelude::*;

verus! {

/// How many leading bytes of a game file take part in its identifier (8 MiB).
pub const HASHED_PREFIX_LEN: usize = 8388608;

/// The CRC32 (IEEE) checksum that `crc32fast` computes over a byte sequence.
pub uninterp spec fn crc32_of(data: Seq<u8>) -> u32;

/// Calls `crc32fast::hash`. Trusted: its result is the CRC32 of exactly the bytes handed
/// to it, a function of those bytes alone; which number that is is not stated here.
#[verifier::external_body]
fn crc32(data: &[u8]) -> (r: u32)
    ensures
        r == crc32_of(data@),
{
    crc32fast::hash(data)
}

/// The bytes that decide a file's identifier: its first `HASHED_PREFIX_LEN` bytes.
pub open spec fn hashed_prefix(content: Seq<u8>) -> Seq<u8> {
    if content.len() <= HASHED_PREFIX_LEN {
        content
    } else {
        content.take(HASHED_PREFIX_LEN as int)
    }
}

/// The identifier of a game whose file holds `content`: the CRC32 of its first 8 MiB.
pub fn get_id(content: &[u8]) -> (id: u32)
    ensures
        id == crc32_of(hashed_prefix(content@)),
        content@.len() <= HASHED_PREFIX_LEN ==> id == crc32_of(content@),
        content@.len() > HASHED_PREFIX_LEN ==> id == crc32_of(content@.take(HASHED_PREFIX_LEN as int)),
{
    if content.len() <= HASHED_PREFIX_LEN {
        crc32(content)
    } else {
        let (prefix, _rest) = content.split_at(HASHED_PREFIX_LEN);
        crc32(prefix)
    }
}

/// Two files that agree on their first 8 MiB have the same identifier, whatever
/// follows.
pub proof fn law_id_reads_only_prefix(a: Seq<u8>, b: Seq<u8>)
    requires
        a.len() >= HASHED_PREFIX_LEN,
        b.len() >= HASHED_PREFIX_LEN,
        a.take(HASHED_PREFIX_LEN as int) == b.take(HASHED_PREFIX_LEN as int),
    ensures
        crc32_of(hashed_prefix(a)) == crc32_of(hashed_prefix(b)),
{
    if a.len() == HASHED_PREFIX_LEN {
        assert(a =~= a.take(HASHED_PREFIX_LEN as int));
    }
    if b.len() == HASHED_PREFIX_LEN {
        assert(b =~= b.take(HASHED_PREFIX_LEN as int));
    }
}


/// A file of at most 8 MiB is identified by the CRC32 of all its bytes; a longer one
/// by the CRC32 of exactly its first 8 MiB.
pub proof fn law_id_covers_whole_small_file(content: Seq<u8>)
    ensures
        content.len() <= HASHED_PREFIX_LEN ==> crc32_of(hashed_prefix(content)) == crc32_of(content),
        content.len() > HASHED_PREFIX_LEN ==> hashed_prefix(content).len() == HASHED_PREFIX_LEN
            && forall|i: int| 0 <= i < HASHED_PREFIX_LEN ==> #[trigger] hashed_prefix(content)[i] == content[i],
        hashed_prefix(content).len() <= content.len(),
{
}

} // verus!
