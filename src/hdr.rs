use hdrhistogram::Histogram as HdrHistogram;

use vstd::multiset::Multiset;
use vstd::prelude::*;

verus! {

/// An HDR histogram of `u64` samples.
///
/// The histogram itself is hidden from verification; `samples` and `bounds` describe it, and
/// the functions below are the only operations the library performs on it.  The field is
/// open so that consumers of a snapshot can read percentiles from it (verification cannot
/// name the histogram's type in a signature, so no getter can hand it out).
#[verifier::external_body]
#[derive(Debug, PartialEq)]
pub struct Distribution {
    pub hdr: HdrHistogram<u64>,
}

/// The samples that an HDR histogram counts, each at its value level: one entry per count in
/// each of its levels.
pub uninterp spec fn samples(h: Distribution) -> Multiset<u64>;

/// The configuration of an HDR histogram: lowest discernible value, highest trackable value,
/// significant digits.
pub uninterp spec fn bounds(h: Distribution) -> (u64, u64, u8);

/// The level at which a histogram of configuration `cfg` counts the value `v`: the lowest
/// value equivalent to `v` at that precision, after clamping `v` into range.
pub uninterp spec fn level_of(cfg: (u64, u64, u8), v: u64) -> u64;

/// Whether the histogram grows its range on demand (auto-resize).
pub uninterp spec fn resizes(h: Distribution) -> bool;

/// The max statistic of an HDR histogram: the highest value it has tracked, 0 at
/// first.  `clear` keeps it.
pub uninterp spec fn peak(h: Distribution) -> u64;

/// Relies on `Histogram::new_with_bounds`: an empty histogram with the given configuration.
/// Its argument checks all pass for a lowest value of 1, a highest value of at least 2 and
/// at most 5 significant digits.
#[verifier::external_body]
pub(crate) fn hdr_new_with_bounds(low: u64, high: u64, sigfig: u8) -> (r: Option<Distribution>)
    ensures
        r matches Some(h) ==> samples(h) =~= Multiset::empty() && bounds(h) == (low, high, sigfig)
            && peak(h) == 0 && !resizes(h),
        (low == 1 && high >= 2 && sigfig <= 5) ==> r is Some,
{
    HdrHistogram::new_with_bounds(low, high, sigfig).ok().map(|hdr| Distribution { hdr })
}

/// Relies on `Histogram::new_from`: an empty histogram configured as `source` is, resizing
/// as `source` does.
#[verifier::external_body]
pub(crate) fn hdr_new_from(source: &Distribution) -> (r: Distribution)
    ensures
        samples(r) =~= Multiset::empty(),
        bounds(r) == bounds(*source),
        peak(r) == 0,
        resizes(r) == resizes(*source),
{
    Distribution { hdr: HdrHistogram::new_from(&source.hdr) }
}

/// Relies on `Histogram::saturating_record`: the value is recorded, clamped into range, and
/// the call cannot fail; it is counted at its level and never resizes the histogram.  With a
/// lowest value of 1 the max statistic moves to the value
/// itself when that is higher, so it stays below `u64::MAX` while the values do.
#[verifier::external_body]
pub(crate) fn hdr_saturating_record(h: &mut Distribution, value: u64)
    ensures
        samples(*final(h)) == samples(*old(h)).insert(level_of(bounds(*old(h)), value)),
        bounds(*final(h)) == bounds(*old(h)),
        resizes(*final(h)) == resizes(*old(h)),
        bounds(*old(h)).0 == 1 && value < u64::MAX && peak(*old(h)) < u64::MAX ==> peak(*final(h))
            < u64::MAX,
{
    h.hdr.saturating_record(value)
}

/// Relies on `Histogram::clear`: the contents are dropped, the configuration and the max
/// statistic are kept.
#[verifier::external_body]
pub(crate) fn hdr_clear(h: &mut Distribution)
    ensures
        samples(*final(h)) =~= Multiset::empty(),
        bounds(*final(h)) == bounds(*old(h)),
        peak(*final(h)) == peak(*old(h)),
        resizes(*final(h)) == resizes(*old(h)),
{
    h.hdr.clear()
}

/// Relies on `Histogram::add`: on failure `h` is left as it was.  Between histograms of the
/// same configuration that do not resize, the counts are added level by level, so the
/// samples of `source` join those of `h`.  A histogram that resizes may grow its range.  `add` refuses a source whose max statistic lies above
/// the top value level of `h`.  For histograms configured alike, from 1 to `u64::MAX`, that
/// top level is `u64::MAX - 1` (the level's upper end saturates), so a source whose max
/// statistic is below `u64::MAX` is accepted, and the max statistic of `h` then moves at
/// most to that level.
#[verifier::external_body]
pub(crate) fn hdr_add(h: &mut Distribution, source: &Distribution) -> (r: bool)
    ensures
        (r && bounds(*old(h)) == bounds(*source) && !resizes(*old(h)) && !resizes(*source))
            ==> samples(*final(h)) == samples(*old(h)).add(samples(*source)),
        !r ==> samples(*final(h)) == samples(*old(h)) && bounds(*final(h)) == bounds(*old(h)),
        !resizes(*old(h)) ==> bounds(*final(h)) == bounds(*old(h)),
        resizes(*final(h)) == resizes(*old(h)),
        (bounds(*old(h)) == bounds(*source) && !resizes(*old(h)) && !resizes(*source) && bounds(
            *old(h),
        ).0 == 1 && bounds(*old(h)).1 == u64::MAX && peak(*source) < u64::MAX) ==> r,
        (bounds(*old(h)) == bounds(*source) && !resizes(*old(h)) && !resizes(*source) && bounds(
            *old(h),
        ).0 == 1 && peak(*old(h)) < u64::MAX && peak(*source) < u64::MAX) ==> peak(*final(h))
            < u64::MAX,
{
    h.hdr.add(&source.hdr).is_ok()
}

/// Relies on `Histogram::len`: the number of samples, saturating at `u64::MAX`.
#[verifier::external_body]
pub(crate) fn hdr_len(h: &Distribution) -> (r: u64)
    ensures
        r == saturating_len(samples(*h).len()),
{
    h.hdr.len()
}

pub open spec fn saturating_len(n: nat) -> u64 {
    if n >= u64::MAX {
        u64::MAX
    } else {
        n as u64
    }
}

} // verus!
