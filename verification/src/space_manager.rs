use vstd::prelude::*;
use crate::error::RomError;

verus! {

/// The value of a byte that nothing uses.
pub const FREE_BYTE: u8 = 0xFF;

/// Finds unused space in an image. It keeps no state: every search scans the
/// image anew.
pub struct SpaceManager {}

/// Where a search that was asked to start at `search_start` begins: at the
/// next multiple of four.
pub open spec fn aligned_start(search_start: int) -> int {
    (search_start + 3) / 4 * 4
}

/// The length of the run that a request for `needed_size` bytes looks for. A
/// request for no bytes is served like a request for one.
pub open spec fn run_length(needed_size: int) -> int {
    if needed_size <= 0 {
        1
    } else {
        needed_size
    }
}

/// Whether `len` free bytes lie in `data` from offset `at` on.
pub open spec fn is_free_run(data: Seq<u8>, at: int, len: int) -> bool {
    &&& 0 <= at
    &&& at + len <= data.len()
    &&& forall|i: int| at <= i < at + len ==> data[i] == FREE_BYTE
}

/// Whether `at` is the first offset from `from` on at which `len` free bytes
/// lie.
pub open spec fn is_first_free_run(data: Seq<u8>, from: int, len: int, at: int) -> bool {
    &&& from <= at
    &&& is_free_run(data, at, len)
    &&& forall|o: int| from <= o < at ==> !is_free_run(data, o, len)
}

/// Whether `result` is what a search of `data` for `needed_size` free bytes
/// from `search_start` answers: the first run that is long enough, or
/// `OutOfBounds` where the search starts at or past the end of the data or
/// meets no such run.
pub open spec fn is_search_result(
    data: Seq<u8>,
    needed_size: int,
    search_start: int,
    result: Result<usize, RomError>,
) -> bool {
    match result {
        Ok(at) => search_start < data.len() && is_first_free_run(
            data,
            aligned_start(search_start),
            run_length(needed_size),
            at as int,
        ),
        Err(e) => e == RomError::OutOfBounds && (search_start >= data.len() || forall|o: int|
            aligned_start(search_start) <= o ==> !is_free_run(data, o, run_length(needed_size))),
    }
}

impl SpaceManager {
    /// Looks for `needed_size` free bytes in a row, from `search_start`
    /// rounded up to a multiple of four, and returns where the first such run
    /// starts.
    pub fn find_free_space(data: &[u8], needed_size: usize, search_start: usize) -> (result:
        Result<usize, RomError>)
        ensures
            is_search_result(data@, needed_size as int, search_start as int, result),
    {
        if search_start >= data.len() {
            return Err(RomError::OutOfBounds);
        }
        let ghost from = aligned_start(search_start as int);
        let ghost len = run_length(needed_size as int);
        let rem: usize = search_start % 4;
        let pad: usize = if rem == 0 {
            0
        } else {
            4 - rem
        };
        assert(from == search_start + pad);
        if data.len() - search_start <= pad {
            return Err(RomError::OutOfBounds);
        }
        let mut i: usize = search_start + pad;
        let mut consecutive_ff: usize = 0;
        let mut start_index: usize = 0;
        while i < data.len()
            invariant
                from <= i <= data@.len(),
                from == aligned_start(search_start as int),
                len == run_length(needed_size as int),
                consecutive_ff <= i - from,
                consecutive_ff < len,
                consecutive_ff > 0 ==> start_index == i - consecutive_ff,
                forall|j: int| i - consecutive_ff <= j < i ==> data@[j] == FREE_BYTE,
                forall|o: int| from <= o < i - consecutive_ff ==> !is_free_run(data@, o, len),
            decreases data@.len() - i,
        {
            if data[i] == FREE_BYTE {
                if consecutive_ff == 0 {
                    start_index = i;
                }
                consecutive_ff += 1;
                if consecutive_ff >= needed_size {
                    return Ok(start_index);
                }
            } else {
                assert forall|o: int| from <= o < i + 1 implies !is_free_run(data@, o, len) by {
                    if o >= i - consecutive_ff && o + len <= data@.len() {
                        assert(o <= i < o + len);
                    }
                }
                consecutive_ff = 0;
            }
            i += 1;
        }
        assert forall|o: int| from <= o implies !is_free_run(data@, o, len) by {
            if o >= i - consecutive_ff {
                assert(o + len > data@.len());
            }
        }
        Err(RomError::OutOfBounds)
    }
}

/// Where the first run of free bytes that is long enough starts at `at`, a
/// search answers `at`.
pub proof fn lemma_search_finds_first_run(
    data: Seq<u8>,
    needed_size: int,
    search_start: int,
    at: int,
    result: Result<usize, RomError>,
)
    requires
        0 <= search_start < data.len(),
        is_first_free_run(data, aligned_start(search_start), run_length(needed_size), at),
        is_search_result(data, needed_size, search_start, result),
    ensures
        result matches Ok(found) && found == at,
{
}

/// A search has at most one answer.
pub proof fn lemma_search_result_is_unique(
    data: Seq<u8>,
    needed_size: int,
    search_start: int,
    first: Result<usize, RomError>,
    second: Result<usize, RomError>,
)
    requires
        is_search_result(data, needed_size, search_start, first),
        is_search_result(data, needed_size, search_start, second),
    ensures
        first == second,
{
}

} // verus!
