//! The structured description of a transfer, as the metadata reader supplies it.

use vstd::prelude::*;

verus! {

/// Whether one piece is downloaded.
#[derive(Debug, PartialEq)]
pub struct PieceStatus {
    pub downloaded: bool,
}

/// The `info` part of a transfer's description.
#[derive(Debug, PartialEq)]
pub struct TorrentMetadataInfo {
    pub pieces: Vec<u8>,
    pub piece_length: i64,
    pub length: i64,
    pub name: String,
}

/// A transfer's description and its local progress.
#[derive(Debug, PartialEq)]
pub struct TorrentMetadata {
    pub info: TorrentMetadataInfo,
    pub info_hash: Vec<u8>,
    pub announce: String,
    pub pieces_status: Vec<PieceStatus>,
    pub file_path: String,
    pub peer_id: String,
}

/// Whether every piece of the description is downloaded.
pub fn check_all_pieces_downloaded(metadata: &mut TorrentMetadata) -> (r: bool)
    ensures
        r == forall|i: int| 0 <= i < old(metadata).pieces_status@.len() ==> (#[trigger] old(
            metadata,
        ).pieces_status@[i]).downloaded,
        *final(metadata) == *old(metadata),
{
    let mut k: usize = 0;
    while k < metadata.pieces_status.len()
        invariant
            k <= metadata.pieces_status@.len(),
            forall|i: int| 0 <= i < k ==> (#[trigger] metadata.pieces_status@[i]).downloaded,
        decreases metadata.pieces_status@.len() - k,
    {
        if !metadata.pieces_status[k].downloaded {
            return false;
        }
        k = k + 1;
    }
    true
}

/// Splits the concatenated piece digests of a description into one 20-byte
/// digest per piece; a length that is not a multiple of 20 gives `None`.
pub fn split_piece_hashes(pieces: &[u8]) -> (r: Option<Vec<[u8; 20]>>)
    ensures
        r is Some <==> pieces@.len() % 20 == 0,
        r matches Some(v) ==> v@.len() == pieces@.len() / 20 && forall|k: int|
            0 <= k < v@.len() ==> #[trigger] v@[k]@ == pieces@.subrange(20 * k, 20 * k + 20),
{
    let n = pieces.len();
    if n % 20 != 0 {
        return None;
    }
    let count = n / 20;
    let mut hashes: Vec<[u8; 20]> = Vec::new();
    let mut k: usize = 0;
    while k < count
        invariant
            n == pieces@.len(),
            count == n / 20,
            20 * count == n,
            k <= count,
            hashes@.len() == k,
            forall|m: int| 0 <= m < k ==> #[trigger] hashes@[m]@ == pieces@.subrange(20 * m, 20 * m + 20),
        decreases count - k,
    {
        let start = k * 20;
        let mut h = [0u8; 20];
        let mut j: usize = 0;
        while j < 20
            invariant
                start == 20 * k,
                start + 20 <= n,
                n == pieces@.len(),
                j <= 20,
                forall|m: int| 0 <= m < j ==> h@[m] == pieces@[start + m],
            decreases 20 - j,
        {
            h[j] = pieces[start + j];
            j = j + 1;
        }
        assert(h@ =~= pieces@.subrange(20 * k, 20 * k + 20));
        hashes.push(h);
        k = k + 1;
    }
    Some(hashes)
}

/// A field of a bencoded dictionary, as far as a computation reads it.
#[derive(Debug, PartialEq)]
pub enum Field<T> {
    /// The key is absent.
    Missing,
    /// The key holds a value of another kind.
    Mismatched,
    /// The key holds this value.
    Present(T),
}

/// A signed length read as unsigned, as a two's-complement cast reads it.
pub open spec fn unsigned_of(n: i64) -> u64 {
    if n >= 0 {
        n as u64
    } else {
        (n + 0x1_0000_0000_0000_0000int) as u64
    }
}

fn as_unsigned(n: i64) -> (r: u64)
    ensures
        r == unsigned_of(n),
{
    if n >= 0 {
        n as u64
    } else {
        ((n + i64::MAX + 1) as u64) + 0x8000_0000_0000_0000u64
    }
}

/// The bytes that a file entry counts for: its integer length read as
/// unsigned, or nothing where the entry has no integer length.
pub open spec fn file_bytes(entry: Option<i64>) -> int {
    match entry {
        Some(n) => unsigned_of(n) as int,
        None => 0,
    }
}

/// The sum of the lengths of file entries.
pub open spec fn files_total(entries: Seq<Option<i64>>) -> int
    decreases entries.len(),
{
    if entries.len() == 0 {
        0
    } else {
        files_total(entries.drop_last()) + file_bytes(entries.last())
    }
}

/// The size of a transfer's content: the `length` of a single-file
/// description, read as unsigned; without one, the sum of the lengths of
/// its `files`, where an entry without an integer length counts nothing.
pub fn total_size(length: Field<i64>, file_lengths: Field<Vec<Option<i64>>>) -> (r: Result<u64, String>)
    ensures
        length matches Field::Present(n) ==> r == Ok::<u64, String>(unsigned_of(n)),
        length is Mismatched ==> r is Err,
        length is Missing ==> match file_lengths {
            Field::Present(files) => (r is Ok <==> files_total(files@) <= u64::MAX) && (r matches Ok(t)
                ==> t == files_total(files@)),
            _ => r is Err,
        },
{
    match length {
        Field::Present(n) => Ok(as_unsigned(n)),
        Field::Mismatched => Err("Invalid or missing 'length' field in torrent data".to_owned()),
        Field::Missing => match file_lengths {
            Field::Present(files) => {
                let mut total: u64 = 0;
                let mut k: usize = 0;
                while k < files.len()
                    invariant
                        length is Missing,
                        file_lengths == Field::Present(files),
                        k <= files@.len(),
                        total == files_total(files@.subrange(0, k as int)),
                    decreases files@.len() - k,
                {
                    assert(files@.subrange(0, k + 1).drop_last() =~= files@.subrange(0, k as int));
                    let add: u64 = match files[k] {
                        Some(n) => as_unsigned(n),
                        None => 0,
                    };
                    assert(total + add == files_total(files@.subrange(0, k + 1)));
                    if add > u64::MAX - total {
                        proof {
                            lemma_files_total_grows(files@, k + 1);
                        }
                        return Err("Total size of the files overflows".to_owned());
                    }
                    total = total + add;
                    k = k + 1;
                }
                assert(files@.subrange(0, k as int) =~= files@);
                Ok(total)
            },
            _ => Err("Invalid or missing 'files' field in torrent data".to_owned()),
        },
    }
}

/// The total of a prefix of file entries never exceeds the total of all of them.
proof fn lemma_files_total_grows(entries: Seq<Option<i64>>, k: int)
    requires
        0 <= k <= entries.len(),
    ensures
        files_total(entries.subrange(0, k)) <= files_total(entries),
    decreases entries.len() - k,
{
    if k < entries.len() {
        lemma_files_total_grows(entries, k + 1);
        assert(entries.subrange(0, k + 1).drop_last() =~= entries.subrange(0, k));
    } else {
        assert(entries.subrange(0, k) =~= entries);
    }
}

} // verus!
