use vstd::prelude::*;

verus! {

/// A source of randomness, supplied by the caller of every generation
/// operation.
///
/// The generation engine is written against this capability alone, so it is
/// verified for every value a source may hand back; a seeded, deterministic
/// source reproduces the same language and the same names call for call.
///
/// The distributions the methods are expected to draw from are part of the
/// capability's documented behaviour, not of the verified contracts: the
/// engine's correctness never depends on them, only the statistical flavour
/// of the output does.
pub trait RandomSource {
    /// An unbiased boolean.
    fn coin(&mut self) -> bool;

    /// True with probability `percent / 100`: a uniform draw from `[0, 1)`
    /// compared against the threshold.
    fn chance(&mut self, percent: u8) -> bool;

    /// A uniform draw from the half-open range `lo..hi`.
    fn range_u8(&mut self, lo: u8, hi: u8) -> (r: u8)
        requires
            lo < hi,
        ensures
            lo <= r < hi,
    ;

    /// A uniform draw from the half-open range `lo..hi`.
    fn range_usize(&mut self, lo: usize, hi: usize) -> (r: usize)
        requires
            lo < hi,
        ensures
            lo <= r < hi,
    ;

    /// An index below `len`, biased toward 0: a uniform draw `u` from
    /// `[0, 1)` is squared, scaled by `len` and floored, so that low indices
    /// (the front of a frequency-ranked list) come up more often.
    fn biased_index(&mut self, len: usize) -> (r: usize)
        requires
            1 <= len,
        ensures
            r < len,
    ;

    /// A count in `lo..lo + width`, biased toward `lo`: a uniform draw `u`
    /// from `[0, 1)` is squared, scaled by `width`, offset by `lo` and
    /// floored, so that small counts come up more often.
    fn biased_count(&mut self, lo: u8, width: u8) -> (r: u8)
        requires
            1 <= width,
            lo + width <= u8::MAX,
        ensures
            lo <= r < lo + width,
    ;
}

} // verus!
