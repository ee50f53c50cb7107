//! Alignment records.

use crate::text::{decimal, push_decimal, push_signed_decimal, signed_decimal};
use vstd::prelude::*;
use vstd::string::StringExecFns;

verus! {

/// Which strand of the reference an alignment lies on.
#[derive(Debug, PartialEq, Eq, Copy, Clone, Structural)]
pub enum Strand {
    /// Maps to the forward strand
    Forward,
    /// Maps to the reverse strand
    Reverse,
}

/// Result of an alignment.
#[derive(Debug, Clone, PartialEq, Eq)]
#[allow(non_snake_case)]
pub struct Mapping {
    /// Mapping start on the query DNA sequence
    pub query_start: i32,
    /// Mapping end on the query DNA sequence
    pub query_end: i32,
    /// DNA strand the mapping is on (forward or reverse)
    pub strand: Strand,
    /// The name of the chromosome/contig mapped to
    pub target_name: String,
    /// Length of the target contig mapped to
    pub target_len: i32,
    /// Mapping start on the contig mapped to
    pub target_start: i32,
    /// Mapping end on the contig mapped to
    pub target_end: i32,
    /// Match length of the alignment
    pub match_len: i32,
    /// Block length of the alignment (includes gaps)
    pub block_len: i32,
    /// Alignment quality between 0-255, with 255 for missing.
    pub mapq: u32,
    /// Alignment is primary or not
    pub is_primary: bool,
    /// The CIGAR operations/numbers of the alignment
    pub cigar: Vec<(u32, u8)>,
    /// Total number of matches, mismatches and gaps in the alignment
    pub NM: i32,
    /// MD string of the alignment
    pub MD: Option<String>,
    /// CIGAR string
    pub cs: Option<String>,
}

/// The highest operation code that a CIGAR may hold.
pub const MAX_CIGAR_OP: u8 = 8;

/// A CIGAR holds an operation code that stands for no operation.
#[derive(Debug, Clone, Copy, PartialEq, Eq, Structural)]
pub struct InvalidCigar {
    /// The place of the first such code.
    pub index: usize,
    /// The code found there.
    pub op: u8,
}

/// The sign of a strand.
pub open spec fn strand_text(strand: Strand) -> Seq<char> {
    match strand {
        Strand::Forward => seq!['+'],
        Strand::Reverse => seq!['-'],
    }
}

/// The letter of a CIGAR operation.
pub open spec fn op_char(op: u8) -> char {
    if op == 0 {
        'M'
    } else if op == 1 {
        'I'
    } else if op == 2 {
        'D'
    } else if op == 3 {
        'N'
    } else if op == 4 {
        'S'
    } else if op == 5 {
        'H'
    } else if op == 6 {
        'P'
    } else if op == 7 {
        '='
    } else {
        'X'
    }
}

/// A CIGAR as text: for each operation its length in decimal, then its
/// letter.
pub open spec fn cigar_text(cigar: Seq<(u32, u8)>) -> Seq<char>
    decreases cigar.len(),
{
    if cigar.len() == 0 {
        Seq::empty()
    } else {
        cigar_text(cigar.drop_last()) + decimal(cigar.last().0 as nat).push(
            op_char(cigar.last().1),
        )
    }
}

/// Every operation code of the CIGAR stands for an operation.
pub open spec fn cigar_valid(cigar: Seq<(u32, u8)>) -> bool {
    forall|i: int| 0 <= i < cigar.len() ==> (#[trigger] cigar[i]).1 <= MAX_CIGAR_OP
}

/// Whether an alignment is the primary one, as a PAF tag.
pub open spec fn primary_tag(is_primary: bool) -> Seq<char> {
    if is_primary {
        "tp:A:P"@
    } else {
        "tp:A:S"@
    }
}

/// A mapping as a line of PAF, without the query's name and length: the
/// fields in order, each followed by a tab, then the CIGAR tag.
pub open spec fn paf_text(mapping: Mapping) -> Seq<char> {
    signed_decimal(mapping.query_start as int) + seq!['\t'] + signed_decimal(
        mapping.query_end as int,
    ) + seq!['\t'] + strand_text(mapping.strand) + seq!['\t'] + mapping.target_name@ + seq![
        '\t',
    ] + signed_decimal(mapping.target_len as int) + seq!['\t'] + signed_decimal(
        mapping.target_start as int,
    ) + seq!['\t'] + signed_decimal(mapping.target_end as int) + seq!['\t'] + signed_decimal(
        mapping.match_len as int,
    ) + seq!['\t'] + signed_decimal(mapping.block_len as int) + seq!['\t'] + decimal(
        mapping.mapq as nat,
    ) + seq!['\t'] + primary_tag(mapping.is_primary) + seq!['\t'] + "cg:Z:"@ + cigar_text(
        mapping.cigar@,
    )
}

impl Strand {
    /// The strand's sign: `+` for forward, `-` for reverse.
    pub fn symbol(&self) -> (text: &'static str)
        ensures
            text@ == strand_text(*self),
    {
        proof {
            reveal_strlit("+");
            reveal_strlit("-");
        }
        let text = match self {
            Strand::Forward => "+",
            Strand::Reverse => "-",
        };
        assert(text@ =~= strand_text(*self));
        text
    }
}

/// The letter of a CIGAR operation, as text.
fn op_text(op: u8) -> (text: &'static str)
    requires
        op <= MAX_CIGAR_OP,
    ensures
        text@ == seq![op_char(op)],
{
    proof {
        reveal_strlit("M");
        reveal_strlit("I");
        reveal_strlit("D");
        reveal_strlit("N");
        reveal_strlit("S");
        reveal_strlit("H");
        reveal_strlit("P");
        reveal_strlit("=");
        reveal_strlit("X");
    }
    let text = if op == 0 {
        "M"
    } else if op == 1 {
        "I"
    } else if op == 2 {
        "D"
    } else if op == 3 {
        "N"
    } else if op == 4 {
        "S"
    } else if op == 5 {
        "H"
    } else if op == 6 {
        "P"
    } else if op == 7 {
        "="
    } else {
        "X"
    };
    assert(text@ =~= seq![op_char(op)]);
    text
}

impl Mapping {
    /// The name of the contig mapped to.
    pub fn get_target_name(&self) -> (name: String)
        ensures
            name == self.target_name,
    {
        self.target_name.clone()
    }

    /// The length of the contig mapped to.
    pub fn get_target_len(&self) -> (len: i32)
        ensures
            len == self.target_len,
    {
        self.target_len
    }

    /// Where the mapping starts on the reference.
    pub fn get_target_start(&self) -> (start: i32)
        ensures
            start == self.target_start,
    {
        self.target_start
    }

    /// Where the mapping ends on the reference.
    pub fn get_target_end(&self) -> (end: i32)
        ensures
            end == self.target_end,
    {
        self.target_end
    }

    /// Where the mapping starts on the query.
    pub fn get_query_start(&self) -> (start: i32)
        ensures
            start == self.query_start,
    {
        self.query_start
    }

    /// Where the mapping ends on the query.
    pub fn get_query_end(&self) -> (end: i32)
        ensures
            end == self.query_end,
    {
        self.query_end
    }

    /// The strand as a number: 1 for forward, -1 for reverse.
    pub fn get_strand(&self) -> (strand: i32)
        ensures
            strand == (if self.strand == Strand::Forward {
                1i32
            } else {
                -1i32
            }),
    {
        match self.strand {
            Strand::Forward => 1,
            Strand::Reverse => -1,
        }
    }

    /// The length of the alignment block.
    pub fn get_block_len(&self) -> (len: i32)
        ensures
            len == self.block_len,
    {
        self.block_len
    }

    /// The number of matching bases.
    pub fn get_match_len(&self) -> (len: i32)
        ensures
            len == self.match_len,
    {
        self.match_len
    }

    /// Whether this is a primary mapping.
    pub fn get_is_primary(&self) -> (primary: bool)
        ensures
            primary == self.is_primary,
    {
        self.is_primary
    }

    /// The CIGAR as text. It fails on the first operation code that stands
    /// for no operation.
    pub fn get_cigar_str(&self) -> (text: Result<String, InvalidCigar>)
        ensures
            cigar_valid(self.cigar@) <==> text is Ok,
            text matches Ok(cigar) ==> cigar@ == cigar_text(self.cigar@),
            text matches Err(error) ==> {
                &&& error.index < self.cigar@.len()
                &&& error.op == self.cigar@[error.index as int].1
                &&& error.op > MAX_CIGAR_OP
                &&& cigar_valid(self.cigar@.take(error.index as int))
            },
    {
        let mut out = String::new();
        let mut i: usize = 0;
        while i < self.cigar.len()
            invariant
                i <= self.cigar@.len(),
                cigar_valid(self.cigar@.take(i as int)),
                out@ == cigar_text(self.cigar@.take(i as int)),
            decreases self.cigar@.len() - i,
        {
            let (len, op) = self.cigar[i];
            if op > MAX_CIGAR_OP {
                return Err(InvalidCigar { index: i, op });
            }
            push_decimal(&mut out, len as u64);
            out.append(op_text(op));
            proof {
                let next = self.cigar@.take(i + 1);
                assert(next.drop_last() =~= self.cigar@.take(i as int));
                assert(next.last() == self.cigar@[i as int]);
                assert(out@ =~= cigar_text(next));
                assert forall|k: int| 0 <= k < next.len() implies (#[trigger] next[k]).1
                    <= MAX_CIGAR_OP by {
                    if k < i {
                        assert(self.cigar@.take(i as int)[k] == next[k]);
                    }
                }
            }
            i += 1;
        }
        assert(self.cigar@.take(i as int) =~= self.cigar@);
        Ok(out)
    }

    /// The mapping as a line of PAF, without the query's name and length. It
    /// fails where the CIGAR does.
    pub fn paf(&self) -> (line: Result<String, InvalidCigar>)
        ensures
            cigar_valid(self.cigar@) <==> line is Ok,
            line matches Ok(text) ==> text@ == paf_text(*self),
            line matches Err(error) ==> {
                &&& error.index < self.cigar@.len()
                &&& error.op == self.cigar@[error.index as int].1
                &&& error.op > MAX_CIGAR_OP
                &&& cigar_valid(self.cigar@.take(error.index as int))
            },
    {
        let cigar = match self.get_cigar_str() {
            Err(error) => {
                return Err(error);
            },
            Ok(cigar) => cigar,
        };
        proof {
            reveal_strlit("\t");
        }
        let mut out = String::new();
        push_signed_decimal(&mut out, self.query_start);
        out.append("\t");
        push_signed_decimal(&mut out, self.query_end);
        out.append("\t");
        out.append(self.strand.symbol());
        out.append("\t");
        out.append(self.target_name.as_str());
        out.append("\t");
        push_signed_decimal(&mut out, self.target_len);
        out.append("\t");
        push_signed_decimal(&mut out, self.target_start);
        out.append("\t");
        push_signed_decimal(&mut out, self.target_end);
        out.append("\t");
        push_signed_decimal(&mut out, self.match_len);
        out.append("\t");
        push_signed_decimal(&mut out, self.block_len);
        out.append("\t");
        push_decimal(&mut out, self.mapq as u64);
        out.append("\t");
        out.append(if self.is_primary {
            "tp:A:P"
        } else {
            "tp:A:S"
        });
        out.append("\t");
        out.append("cg:Z:");
        out.append(cigar.as_str());
        assert(out@ =~= paf_text(*self));
        Ok(out)
    }
}

} // verus!
