//! Reading a stretch of a reference sequence back from the index: which
//! stretch to ask for, and what the answer says.

use vstd::prelude::*;
use vstd::string::StringExecFns;

verus! {

/// The index flag that says the index holds no sequences.
pub const NO_SEQ_FLAG: i32 = 2;

/// Why no sequence came back.
#[derive(Debug, Clone, Copy, PartialEq, Eq, Structural)]
pub enum IndexSeqError {
    /// The aligner has no index.
    NoIndex,
    /// The index holds no sequences.
    NoSequence,
    /// The index has no reference of that name.
    UnknownReference,
    /// The stretch asked for is empty or starts past the reference's end.
    BadCoordinates,
    /// The index gave a code that stands for no base.
    UnknownBase,
}

/// The stretch of a reference to read: from `start`, up to and not including
/// `end`.
#[derive(Debug, Clone, Copy, PartialEq, Eq, Structural)]
pub struct Span {
    /// The first position.
    pub start: i32,
    /// The position after the last.
    pub end: i32,
}

/// Whether the index can give sequences back at all.
pub open spec fn index_readable(has_index: bool, map_flags: i64, index_flags: i32) -> Result<
    (),
    IndexSeqError,
> {
    if !has_index {
        Err(IndexSeqError::NoIndex)
    } else if (map_flags & crate::options::CIGAR_FLAG != 0) && (index_flags & NO_SEQ_FLAG != 0) {
        Err(IndexSeqError::NoSequence)
    } else {
        Ok(())
    }
}

/// The stretch to read of a reference of length `len` when `start` and
/// `end` are asked for: an end before the start of the reference, or past
/// its end, means its end.
pub open spec fn span_of(start: i32, end: i32, len: i32) -> Result<Span, IndexSeqError> {
    if start >= len || start >= end {
        Err(IndexSeqError::BadCoordinates)
    } else if end < 0 || end > len {
        Ok(Span { start, end: len })
    } else {
        Ok(Span { start, end })
    }
}

/// The base that a code of the index stands for.
pub open spec fn base_char(code: u8) -> Option<char> {
    if code == 0 {
        Some('A')
    } else if code == 1 {
        Some('C')
    } else if code == 2 {
        Some('G')
    } else if code == 3 {
        Some('T')
    } else if code == 4 {
        Some('N')
    } else {
        None
    }
}

/// Every code stands for a base.
pub open spec fn all_bases(codes: Seq<u8>) -> bool {
    forall|i: int| 0 <= i < codes.len() ==> base_char(#[trigger] codes[i]) is Some
}

/// The bases that the codes stand for.
pub open spec fn bases_of(codes: Seq<u8>) -> Seq<char> {
    Seq::new(codes.len(), |i: int| base_char(codes[i])->0)
}

impl IndexSeqError {
    /// What went wrong, in words.
    pub fn message(&self) -> (text: &'static str)
        ensures
            text@ == (match *self {
                IndexSeqError::NoIndex => "No index"@,
                IndexSeqError::NoSequence => "No sequence in this index"@,
                IndexSeqError::UnknownReference => "Could not find reference in index"@,
                IndexSeqError::BadCoordinates => "Funky start and end coords"@,
                IndexSeqError::UnknownBase => "Got an unknown char, not {ACGTN}"@,
            }),
    {
        match self {
            IndexSeqError::NoIndex => "No index",
            IndexSeqError::NoSequence => "No sequence in this index",
            IndexSeqError::UnknownReference => "Could not find reference in index",
            IndexSeqError::BadCoordinates => "Funky start and end coords",
            IndexSeqError::UnknownBase => "Got an unknown char, not {ACGTN}",
        }
    }
}

impl Span {
    /// The number of positions in the stretch.
    pub fn len(&self) -> (len: u64)
        ensures
            len == (if self.start < self.end {
                self.end - self.start
            } else {
                0
            }),
    {
        if self.start < self.end {
            (self.end as i64 - self.start as i64) as u64
        } else {
            0
        }
    }
}

/// Whether the index can give sequences back at all.
pub fn check_index(has_index: bool, map_flags: i64, index_flags: i32) -> (readable: Result<
    (),
    IndexSeqError,
>)
    ensures
        readable == index_readable(has_index, map_flags, index_flags),
{
    if !has_index {
        return Err(IndexSeqError::NoIndex);
    }
    if (map_flags & crate::options::CIGAR_FLAG != 0) && (index_flags & NO_SEQ_FLAG != 0) {
        return Err(IndexSeqError::NoSequence);
    }
    Ok(())
}

/// The place of a reference among the `n_seq` of the index, from what the
/// lookup of its name gave: a negative number, or one past the last place,
/// says that there is no such reference.
pub fn check_reference(found: i32, n_seq: u32) -> (place: Result<u32, IndexSeqError>)
    ensures
        place == (if 0 <= found < n_seq {
            Ok::<u32, IndexSeqError>(found as u32)
        } else {
            Err::<u32, IndexSeqError>(IndexSeqError::UnknownReference)
        }),
{
    if found < 0 {
        return Err(IndexSeqError::UnknownReference);
    }
    let place: u32 = found as u32;
    if place >= n_seq {
        return Err(IndexSeqError::UnknownReference);
    }
    Ok(place)
}

/// The stretch to read of a reference of length `len`.
pub fn clamp_span(start: i32, end: i32, len: i32) -> (span: Result<Span, IndexSeqError>)
    ensures
        span == span_of(start, end, len),
        span matches Ok(found) ==> found.start < found.end <= len,
{
    if start >= len || start >= end {
        return Err(IndexSeqError::BadCoordinates);
    }
    if end < 0 || end > len {
        Ok(Span { start, end: len })
    } else {
        Ok(Span { start, end })
    }
}

/// The text of one base.
fn base_text(code: u8) -> (text: &'static str)
    requires
        code <= 4,
    ensures
        base_char(code) == Some(text@[0]),
        text@.len() == 1,
{
    proof {
        reveal_strlit("A");
        reveal_strlit("C");
        reveal_strlit("G");
        reveal_strlit("T");
        reveal_strlit("N");
    }
    if code == 0 {
        "A"
    } else if code == 1 {
        "C"
    } else if code == 2 {
        "G"
    } else if code == 3 {
        "T"
    } else {
        "N"
    }
}

/// The sequence that the codes read from the index stand for. It fails if
/// any code stands for no base.
pub fn decode_bases(codes: &Vec<u8>) -> (decoded: Result<String, IndexSeqError>)
    ensures
        all_bases(codes@) <==> decoded is Ok,
        decoded matches Ok(text) ==> text@ == bases_of(codes@),
        decoded matches Err(error) ==> error == IndexSeqError::UnknownBase,
{
    let mut out = String::new();
    let mut i: usize = 0;
    while i < codes.len()
        invariant
            i <= codes@.len(),
            all_bases(codes@.take(i as int)),
            out@ == bases_of(codes@.take(i as int)),
        decreases codes@.len() - i,
    {
        let code = codes[i];
        if code > 4 {
            assert(base_char(codes@[i as int]) is None);
            return Err(IndexSeqError::UnknownBase);
        }
        out.append(base_text(code));
        proof {
            let next = codes@.take(i + 1);
            assert forall|k: int| 0 <= k < next.len() implies base_char(#[trigger] next[k])
                is Some by {
                if k < i {
                    assert(codes@.take(i as int)[k] == next[k]);
                }
            }
            assert(out@ =~= bases_of(next)) by {
                assert forall|k: int| 0 <= k < i implies bases_of(codes@.take(i as int))[k]
                    == bases_of(next)[k] by {
                    assert(codes@.take(i as int)[k] == next[k]);
                }
            }
        }
        i += 1;
    }
    assert(codes@.take(i as int) =~= codes@);
    Ok(out)
}

} // verus!
