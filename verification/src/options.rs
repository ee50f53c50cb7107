//! The settings of an aligner, as far as a caller can override them.

use vstd::prelude::*;

verus! {

/// The mapping flag that asks for the alignment itself, not only for where
/// it lies.
pub const CIGAR_FLAG: i64 = 4;

/// A batch size under which an index is read in one piece.
pub const WHOLE_INDEX: u64 = 0x7fff_ffff_ffff_ffff;

/// The index settings that a caller can override.
#[derive(Debug, Clone, Copy, PartialEq, Eq)]
pub struct IndexOptions {
    /// The k-mer size.
    pub k: i16,
    /// The minimizer window size.
    pub w: i16,
    /// The number of bases to read into one part of the index.
    pub batch_size: u64,
}

/// The mapping settings that a caller can override.
#[derive(Debug, Clone, Copy, PartialEq, Eq)]
pub struct MapOptions {
    /// The mapping flags.
    pub flag: i64,
    /// The minimum number of minimizers on a chain.
    pub min_cnt: i32,
    /// The minimum chaining score.
    pub min_chain_score: i32,
    /// The minimum score of an alignment.
    pub min_dp_max: i32,
    /// The bandwidth.
    pub bw: i32,
    /// The number of secondary alignments to keep.
    pub best_n: i32,
    /// The maximum fragment length.
    pub max_frag_len: i32,
    /// The score of a match.
    pub a: i32,
    /// The penalty of a mismatch.
    pub b: i32,
    /// The penalty of opening a gap.
    pub q: i32,
    /// The penalty of extending a gap.
    pub e: i32,
    /// The penalty of opening a long gap.
    pub q2: i32,
    /// The penalty of extending a long gap.
    pub e2: i32,
    /// The score of a match with an ambiguous base.
    pub sc_ambi: i32,
}

/// What a caller asks to be different from the defaults.
#[derive(Debug, Clone, PartialEq, Eq)]
pub struct Overrides {
    /// The k-mer size.
    pub k: Option<usize>,
    /// The minimizer window size.
    pub w: Option<usize>,
    /// The minimum number of minimizers on a chain.
    pub min_cnt: Option<usize>,
    /// The minimum chaining score.
    pub min_chain_score: Option<usize>,
    /// The minimum score of an alignment.
    pub min_dp_score: Option<usize>,
    /// The bandwidth.
    pub bw: Option<usize>,
    /// The number of secondary alignments to keep.
    pub best_n: Option<usize>,
    /// The maximum fragment length.
    pub max_frag_len: Option<usize>,
    /// Mapping flags to set on top of the others.
    pub extra_flags: Option<usize>,
    /// The scoring scheme: match, mismatch, gap open, gap extension, then,
    /// if given, long gap open and extension, then, if given, the score for
    /// ambiguous bases.
    pub scoring: Option<Vec<i32>>,
}

/// Why no aligner was made.
#[derive(Debug, Clone, Copy, PartialEq, Eq, Structural)]
pub enum NewError {
    /// An index was to be built from a sequence, or written out.
    NotImplemented,
    /// No index was named.
    NoIndex,
}

/// `value`, or `current` where nothing is asked for. A value too large for
/// the setting keeps its low 32 bits.
pub open spec fn or_current(value: Option<usize>, current: i32) -> i32 {
    match value {
        Some(value) => value as i32,
        None => current,
    }
}

/// `value`, or `current` where nothing is asked for. A value too large for
/// the setting keeps its low 16 bits.
pub open spec fn or_current_short(value: Option<usize>, current: i16) -> i16 {
    match value {
        Some(value) => value as i16,
        None => current,
    }
}

/// The index settings under `overrides`: an index is always read in one
/// piece.
pub open spec fn tuned_index(index: IndexOptions, overrides: Overrides) -> IndexOptions {
    IndexOptions {
        k: or_current_short(overrides.k, index.k),
        w: or_current_short(overrides.w, index.w),
        batch_size: index.batch_size | WHOLE_INDEX,
    }
}

/// The mapping flags under `extra`: the alignment is always asked for.
pub open spec fn tuned_flags(flag: i64, extra: Option<usize>) -> i64 {
    match extra {
        Some(extra) => (flag | CIGAR_FLAG) | (extra as i64),
        None => flag | CIGAR_FLAG,
    }
}

/// The mapping settings under `overrides`.
///
/// A scoring scheme of fewer than four numbers changes nothing. One of four
/// or five sets the four basic scores and makes long gaps cost what short
/// ones do. From six on the long gaps have their own; from seven on the
/// ambiguous bases too.
pub open spec fn tuned_map(map: MapOptions, overrides: Overrides) -> MapOptions {
    let basic = MapOptions {
        flag: tuned_flags(map.flag, overrides.extra_flags),
        min_cnt: or_current(overrides.min_cnt, map.min_cnt),
        min_chain_score: or_current(overrides.min_chain_score, map.min_chain_score),
        min_dp_max: or_current(overrides.min_dp_score, map.min_dp_max),
        bw: or_current(overrides.bw, map.bw),
        best_n: or_current(overrides.best_n, map.best_n),
        max_frag_len: or_current(overrides.max_frag_len, map.max_frag_len),
        ..map
    };
    match overrides.scoring {
        Some(scoring) if scoring@.len() >= 4 => MapOptions {
            a: scoring@[0],
            b: scoring@[1],
            q: scoring@[2],
            e: scoring@[3],
            q2: if scoring@.len() >= 6 {
                scoring@[4]
            } else {
                scoring@[2]
            },
            e2: if scoring@.len() >= 6 {
                scoring@[5]
            } else {
                scoring@[3]
            },
            sc_ambi: if scoring@.len() >= 7 {
                scoring@[6]
            } else {
                map.sc_ambi
            },
            ..basic
        },
        _ => basic,
    }
}

/// How many numbers of a scoring scheme of `len` numbers are read: none of
/// fewer than four, the four basic scores of four or five, six of six, and
/// seven of any more.
pub open spec fn scoring_read(len: nat) -> nat {
    if len < 4 {
        0
    } else if len < 6 {
        4
    } else if len < 7 {
        6
    } else {
        7
    }
}

/// How many numbers of a scoring scheme of `len` numbers are read.
pub fn scoring_wanted(len: usize) -> (wanted: usize)
    ensures
        wanted == scoring_read(len as nat),
        wanted <= len,
{
    if len < 4 {
        0
    } else if len < 6 {
        4
    } else if len < 7 {
        6
    } else {
        7
    }
}

/// Only the numbers of a scoring scheme that are read matter: two sets of
/// overrides that differ in nothing but what follows them give the same
/// settings.
pub proof fn lemma_scoring_prefix_suffices(map: MapOptions, whole: Overrides, cut: Overrides)
    requires
        whole.scoring matches Some(scheme) && cut.scoring matches Some(read) && read@
            == scheme@.take(scoring_read(scheme@.len()) as int),
        cut.extra_flags == whole.extra_flags,
        cut.min_cnt == whole.min_cnt,
        cut.min_chain_score == whole.min_chain_score,
        cut.min_dp_score == whole.min_dp_score,
        cut.bw == whole.bw,
        cut.best_n == whole.best_n,
        cut.max_frag_len == whole.max_frag_len,
    ensures
        tuned_map(map, cut) == tuned_map(map, whole),
{
}

/// Puts what the caller asks for in place of the defaults.
pub fn tune(overrides: &Overrides, index: &mut IndexOptions, map: &mut MapOptions)
    ensures
        *final(index) == tuned_index(*old(index), *overrides),
        *final(map) == tuned_map(*old(map), *overrides),
{
    map.flag = map.flag | CIGAR_FLAG;
    index.batch_size = index.batch_size | WHOLE_INDEX;
    if let Some(k) = overrides.k {
        index.k = k as i16;
    }
    if let Some(w) = overrides.w {
        index.w = w as i16;
    }
    if let Some(min_cnt) = overrides.min_cnt {
        map.min_cnt = min_cnt as i32;
    }
    if let Some(min_chain_score) = overrides.min_chain_score {
        map.min_chain_score = min_chain_score as i32;
    }
    if let Some(min_dp_score) = overrides.min_dp_score {
        map.min_dp_max = min_dp_score as i32;
    }
    if let Some(bw) = overrides.bw {
        map.bw = bw as i32;
    }
    if let Some(best_n) = overrides.best_n {
        map.best_n = best_n as i32;
    }
    if let Some(max_frag_len) = overrides.max_frag_len {
        map.max_frag_len = max_frag_len as i32;
    }
    if let Some(extra_flags) = overrides.extra_flags {
        map.flag = map.flag | (extra_flags as i64);
    }
    if let Some(scoring) = &overrides.scoring {
        if scoring.len() >= 4 {
            map.a = scoring[0];
            map.b = scoring[1];
            map.q = scoring[2];
            map.e = scoring[3];
            map.q2 = map.q;
            map.e2 = map.e;
            if scoring.len() >= 6 {
                map.q2 = scoring[4];
                map.e2 = scoring[5];
                if scoring.len() >= 7 {
                    map.sc_ambi = scoring[6];
                }
            }
        }
    }
}

/// Whether an aligner can be made from what the caller names: an index to
/// read, and neither a sequence to index nor a file to write the index to.
pub fn index_request(has_seq: bool, has_index_out: bool, has_index_in: bool) -> (request: Result<
    (),
    NewError,
>)
    ensures
        request == (if has_seq || has_index_out {
            Err::<(), NewError>(NewError::NotImplemented)
        } else if !has_index_in {
            Err::<(), NewError>(NewError::NoIndex)
        } else {
            Ok::<(), NewError>(())
        }),
{
    if has_seq {
        return Err(NewError::NotImplemented);
    }
    if has_index_out {
        return Err(NewError::NotImplemented);
    }
    if !has_index_in {
        return Err(NewError::NoIndex);
    }
    Ok(())
}

} // verus!
