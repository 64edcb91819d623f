//! Virtual-memory statistics of an address space.
//!
//! | Counter | Changes |
//! |---|---|
//! | `vss_pages` | up with every mapping, down with every unmapping |
//! | `peak_vss_pages`, `peak_rss_pages` | never down, except with a fresh image |
//!
//! The current size is signed, so that one unmapping too many never turns it
//! into a huge number: what is read is never below zero.

use vstd::prelude::*;

verus! {

/// All statistics of one address space.
///
/// The fields are private: the methods keep the high-water marks monotone.
#[derive(Debug)]
pub struct ProcessVmStat {
    vss_pages: i64,
    peak_vss_pages: u64,
    peak_rss_pages: u64,
}

/// The counters, as a specification value.
pub ghost struct VmStatView {
    /// The balance of mapped and unmapped pages.
    pub vss: i64,
    /// The highest virtual size.
    pub peak_vss: u64,
    /// The highest resident size, which is taken to be the virtual size.
    pub peak_rss: u64,
}

impl View for ProcessVmStat {
    type V = VmStatView;

    closed spec fn view(&self) -> VmStatView {
        VmStatView {
            vss: self.vss_pages,
            peak_vss: self.peak_vss_pages,
            peak_rss: self.peak_rss_pages,
        }
    }
}

/// The larger of two page counts.
pub open spec fn max_pages(a: int, b: int) -> int {
    if a >= b {
        a
    } else {
        b
    }
}

impl VmStatView {
    /// The counters of an address space without mappings.
    pub open spec fn empty() -> VmStatView {
        VmStatView { vss: 0, peak_vss: 0, peak_rss: 0 }
    }

    /// The current size as it is reported.
    pub open spec fn current(self) -> int {
        max_pages(0, self.vss as int)
    }

    /// The counters after `pages` more pages have been mapped.
    pub open spec fn mapped(self, pages: u64) -> VmStatView {
        let new_vss = self.current() + pages;
        VmStatView {
            vss: self.vss.wrapping_add(pages as i64),
            peak_vss: max_pages(self.peak_vss as int, new_vss) as u64,
            peak_rss: max_pages(self.peak_rss as int, new_vss) as u64,
        }
    }

    /// The counters after `pages` pages have been unmapped.
    pub open spec fn unmapped(self, pages: u64) -> VmStatView {
        VmStatView { vss: self.vss.wrapping_sub(pages as i64), ..self }
    }

    /// The counters of a copy of this address space: both high-water marks
    /// start at the size that was copied.
    pub open spec fn seeded(self) -> VmStatView {
        VmStatView {
            vss: self.current() as i64,
            peak_vss: self.current() as u64,
            peak_rss: self.current() as u64,
        }
    }

    /// No high-water mark is below the current size.
    pub open spec fn peaks_cover_current(self) -> bool {
        self.current() <= self.peak_vss && self.current() <= self.peak_rss
    }
}

impl ProcessVmStat {
    /// The statistics of an address space without mappings.
    pub fn new() -> (r: Self)
        ensures
            r@ == VmStatView::empty(),
    {
        ProcessVmStat { vss_pages: 0, peak_vss_pages: 0, peak_rss_pages: 0 }
    }

    /// The current virtual size in pages.
    pub fn vss_pages(&self) -> (r: u64)
        ensures
            r == self@.current(),
    {
        if self.vss_pages > 0 {
            self.vss_pages as u64
        } else {
            0
        }
    }

    /// The highest virtual size in pages.
    pub fn peak_vss_pages(&self) -> (r: u64)
        ensures
            r == self@.peak_vss,
    {
        self.peak_vss_pages
    }

    /// The highest resident size in pages.
    pub fn peak_rss_pages(&self) -> (r: u64)
        ensures
            r == self@.peak_rss,
    {
        self.peak_rss_pages
    }

    /// Accounts for `pages` newly mapped pages and raises the high-water
    /// marks. To be called after the mapping has succeeded, so that a failed
    /// one does not raise them.
    pub fn on_map(&mut self, pages: u64)
        requires
            old(self)@.current() + pages <= u64::MAX,
        ensures
            final(self)@ == old(self)@.mapped(pages),
    {
        let new_vss: u64 = self.vss_pages() + pages;
        self.vss_pages = self.vss_pages.wrapping_add(pages as i64);
        if new_vss > self.peak_vss_pages {
            self.peak_vss_pages = new_vss;
        }
        if new_vss > self.peak_rss_pages {
            self.peak_rss_pages = new_vss;
        }
    }

    /// Accounts for `pages` unmapped pages. The high-water marks stay.
    pub fn on_unmap(&mut self, pages: u64)
        ensures
            final(self)@ == old(self)@.unmapped(pages),
    {
        self.vss_pages = self.vss_pages.wrapping_sub(pages as i64);
    }

    /// Resets everything, for a fresh image: a new image starts with new
    /// high-water marks.
    pub fn on_clear(&mut self)
        ensures
            final(self)@ == VmStatView::empty(),
    {
        self.vss_pages = 0;
        self.peak_vss_pages = 0;
        self.peak_rss_pages = 0;
    }

    /// Takes over the statistics for a copy of the address space of `parent`.
    /// The high-water marks start at the size that was copied.
    pub fn seed_from(&mut self, parent: &Self)
        ensures
            final(self)@ == parent@.seeded(),
    {
        let vss: u64 = parent.vss_pages();
        self.vss_pages = vss as i64;
        self.peak_vss_pages = vss;
        self.peak_rss_pages = vss;
    }
}

impl Default for ProcessVmStat {
    fn default() -> (r: Self)
        ensures
            r@ == VmStatView::empty(),
    {
        ProcessVmStat::new()
    }
}

/// Neither mapping nor unmapping lowers a high-water mark.
pub proof fn law_peaks_never_fall(v: VmStatView, pages: u64)
    requires
        v.current() + pages <= u64::MAX,
    ensures
        v.mapped(pages).peak_vss >= v.peak_vss,
        v.mapped(pages).peak_rss >= v.peak_rss,
        v.unmapped(pages).peak_vss == v.peak_vss,
        v.unmapped(pages).peak_rss == v.peak_rss,
{
}

/// The high-water marks stay at or above the current size, as long as the
/// signed balance itself does not overflow.
pub proof fn law_peaks_cover_current(v: VmStatView, pages: u64)
    requires
        v.peaks_cover_current(),
        pages <= i64::MAX,
    ensures
        VmStatView::empty().peaks_cover_current(),
        v.seeded().peaks_cover_current(),
        v.vss + pages <= i64::MAX ==> v.mapped(pages).peaks_cover_current(),
        v.vss - pages >= i64::MIN ==> v.unmapped(pages).peaks_cover_current(),
{
}

/// Unmapping what was mapped restores the current size.
pub proof fn law_unmap_undoes_map(v: VmStatView, pages: u64)
    ensures
        v.mapped(pages).unmapped(pages).vss == v.vss,
        v.mapped(pages).unmapped(pages).current() == v.current(),
{
}

/// One unmapping too many is read as zero, never as a huge number.
pub proof fn law_excess_unmapping_reads_as_zero(v: VmStatView, pages: u64)
    requires
        v.vss <= pages <= i64::MAX,
        v.vss - pages >= i64::MIN,
    ensures
        v.unmapped(pages).current() == 0,
{
}

/// The larger of two counts.
pub open spec fn larger(a: u64, b: int) -> int {
    if b > a {
        b
    } else {
        a as int
    }
}

/// What was mapped is added to the size, and both marks are raised to what it was
/// with that, if they were lower. If more was unmapped than mapped before, the
/// size is less than that.
pub proof fn law_mapping_counts(
    stat: &mut ProcessVmStat,
    pages: u64,
    size: u64,
    vss: u64,
    rss: u64,
    new_size: u64,
    new_vss: u64,
    new_rss: u64,
)
    requires
        call_ensures(ProcessVmStat::vss_pages, (old(stat),), size),
        call_ensures(ProcessVmStat::peak_vss_pages, (old(stat),), vss),
        call_ensures(ProcessVmStat::peak_rss_pages, (old(stat),), rss),
        size + pages <= i64::MAX,
        call_ensures(ProcessVmStat::on_map, (stat, pages), ()),
        call_ensures(ProcessVmStat::vss_pages, (final(stat),), new_size),
        call_ensures(ProcessVmStat::peak_vss_pages, (final(stat),), new_vss),
        call_ensures(ProcessVmStat::peak_rss_pages, (final(stat),), new_rss),
    ensures
        size > 0 ==> new_size == size + pages,
        new_size <= size + pages,
        new_vss == larger(vss, size + pages),
        new_rss == larger(rss, size + pages),
{
}

/// What was unmapped is taken from the size, which is not below zero, and the
/// marks stay.
pub proof fn law_unmapping_counts(
    stat: &mut ProcessVmStat,
    pages: u64,
    size: u64,
    vss: u64,
    rss: u64,
    new_size: u64,
    new_vss: u64,
    new_rss: u64,
)
    requires
        pages <= i64::MAX,
        call_ensures(ProcessVmStat::vss_pages, (old(stat),), size),
        call_ensures(ProcessVmStat::peak_vss_pages, (old(stat),), vss),
        call_ensures(ProcessVmStat::peak_rss_pages, (old(stat),), rss),
        call_ensures(ProcessVmStat::on_unmap, (stat, pages), ()),
        call_ensures(ProcessVmStat::vss_pages, (final(stat),), new_size),
        call_ensures(ProcessVmStat::peak_vss_pages, (final(stat),), new_vss),
        call_ensures(ProcessVmStat::peak_rss_pages, (final(stat),), new_rss),
    ensures
        size >= pages && size > 0 ==> new_size == size - pages,
        0 < size < pages ==> new_size == 0,
        new_vss == vss && new_rss == rss,
{
}

/// What is mapped and unmapped again counts for nothing in the size.
pub proof fn law_mapping_and_unmapping_cancel_out(
    stat: &mut ProcessVmStat,
    later: &mut ProcessVmStat,
    pages: u64,
    size: u64,
    new_size: u64,
)
    requires
        call_ensures(ProcessVmStat::vss_pages, (old(stat),), size),
        call_ensures(ProcessVmStat::on_map, (stat, pages), ()),
        *old(later) == *final(stat),
        call_ensures(ProcessVmStat::on_unmap, (later, pages), ()),
        call_ensures(ProcessVmStat::vss_pages, (final(later),), new_size),
    ensures
        new_size == size,
{
    law_unmap_undoes_map(old(stat)@, pages);
}

/// A new address space, and one that was cleared for an image, has neither size
/// nor marks.
pub proof fn law_fresh_spaces_are_empty(
    new: ProcessVmStat,
    usual: ProcessVmStat,
    cleared: &mut ProcessVmStat,
    of: &ProcessVmStat,
    size: u64,
    vss: u64,
    rss: u64,
)
    requires
        call_ensures(ProcessVmStat::new, (), new),
        call_ensures(<ProcessVmStat as Default>::default, (), usual),
        call_ensures(ProcessVmStat::on_clear, (cleared,), ()),
        *of == new || *of == usual || *of == *final(cleared),
        call_ensures(ProcessVmStat::vss_pages, (of,), size),
        call_ensures(ProcessVmStat::peak_vss_pages, (of,), vss),
        call_ensures(ProcessVmStat::peak_rss_pages, (of,), rss),
    ensures
        size == 0 && vss == 0 && rss == 0,
{
}

/// A copy of an address space has its size, and so have both marks of the copy.
pub proof fn law_copy_has_the_size_of_its_parent(
    stat: &mut ProcessVmStat,
    parent: &ProcessVmStat,
    of_parent: u64,
    size: u64,
    vss: u64,
    rss: u64,
)
    requires
        call_ensures(ProcessVmStat::vss_pages, (parent,), of_parent),
        call_ensures(ProcessVmStat::seed_from, (stat, parent), ()),
        call_ensures(ProcessVmStat::vss_pages, (final(stat),), size),
        call_ensures(ProcessVmStat::peak_vss_pages, (final(stat),), vss),
        call_ensures(ProcessVmStat::peak_rss_pages, (final(stat),), rss),
    ensures
        size == of_parent && vss == of_parent && rss == of_parent,
{
}

} // verus!
