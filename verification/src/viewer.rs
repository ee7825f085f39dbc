//! Page navigation and zoom of the document viewer.
use vstd::prelude::*;

verus! {

/// The page shown and its zoom, in percent of the fitted width.
#[derive(Clone, Copy, Debug, PartialEq, Eq, Structural)]
pub struct Viewport {
    pub page_index: u32,
    pub zoom_percent: i32,
}

/// The smallest zoom the viewer allows.
pub const MIN_ZOOM_PERCENT: i32 = 10;

/// The largest zoom the viewer allows.
pub const MAX_ZOOM_PERCENT: i32 = 800;

/// The zoom that fits the page to the window width.
pub const FIT_ZOOM_PERCENT: i32 = 100;

/// `value` clamped into the allowed zoom range.
pub open spec fn clamp_zoom(value: int) -> int {
    if value < MIN_ZOOM_PERCENT {
        MIN_ZOOM_PERCENT as int
    } else if value > MAX_ZOOM_PERCENT {
        MAX_ZOOM_PERCENT as int
    } else {
        value
    }
}

/// The viewport a freshly opened document starts at.
pub open spec fn first_viewport() -> Viewport {
    Viewport { page_index: 0, zoom_percent: FIT_ZOOM_PERCENT }
}

/// A viewport lies inside a document of `page_count` pages: its page exists
/// (or it is the first page of an empty document) and its zoom is allowed.
pub open spec fn within_document(v: Viewport, page_count: u32) -> bool {
    &&& (v.page_index == 0 || v.page_index < page_count)
    &&& MIN_ZOOM_PERCENT <= v.zoom_percent <= MAX_ZOOM_PERCENT
}

/// One page back, unless already on the first page.
pub open spec fn previous_viewport(v: Viewport) -> Option<Viewport> {
    if v.page_index == 0 {
        None
    } else {
        Some(Viewport { page_index: (v.page_index - 1) as u32, zoom_percent: v.zoom_percent })
    }
}

/// One page forward, unless already on the last page.
pub open spec fn next_viewport(v: Viewport, page_count: u32) -> Option<Viewport> {
    if v.page_index + 1 >= page_count {
        None
    } else {
        Some(Viewport { page_index: (v.page_index + 1) as u32, zoom_percent: v.zoom_percent })
    }
}

/// The zoom changed by `delta` percentage points, clamped to the allowed range.
pub open spec fn zoomed_viewport(v: Viewport, delta: int) -> Viewport {
    Viewport { page_index: v.page_index, zoom_percent: clamp_zoom(v.zoom_percent + delta) as i32 }
}

/// The zoom reset to the fitted width.
pub open spec fn fitted_viewport(v: Viewport) -> Viewport {
    Viewport { page_index: v.page_index, zoom_percent: FIT_ZOOM_PERCENT }
}

/// The given page, if the document has it.
pub open spec fn viewport_at(v: Viewport, page_count: u32, page_index: u32) -> Option<Viewport> {
    if page_index >= page_count {
        None
    } else {
        Some(Viewport { page_index, zoom_percent: v.zoom_percent })
    }
}

/// Where the viewer stands in the open document.
#[derive(Debug)]
pub struct ViewerState {
    viewport: Viewport,
    page_count: u32,
}

impl ViewerState {
    #[verifier::type_invariant]
    spec fn inside(self) -> bool {
        within_document(self.viewport, self.page_count)
    }

    /// The viewport currently shown.
    pub closed spec fn current(self) -> Viewport {
        self.viewport
    }

    /// The number of pages of the open document.
    pub closed spec fn pages(self) -> u32 {
        self.page_count
    }

    /// A new document of `page_count` pages, shown from its first page at
    /// the fitted zoom.
    pub fn opened(&mut self, page_count: u32) -> (r: Viewport)
        ensures
            final(self).pages() == page_count,
            final(self).current() == first_viewport(),
            r == first_viewport(),
            within_document(final(self).current(), final(self).pages()),
    {
        *self = ViewerState {
            viewport: Viewport { page_index: 0, zoom_percent: FIT_ZOOM_PERCENT },
            page_count,
        };
        self.viewport
    }

    /// Moves one page back; `None`, with nothing changed, on the first page.
    pub fn previous_page(&mut self) -> (r: Option<Viewport>)
        ensures
            r == previous_viewport(old(self).current()),
            final(self).pages() == old(self).pages(),
            final(self).current() == match r {
                Some(v) => v,
                None => old(self).current(),
            },
            within_document(final(self).current(), final(self).pages()),
    {
        proof {
            use_type_invariant(&*self);
        }
        if self.viewport.page_index == 0 {
            return None;
        }
        self.viewport = Viewport {
            page_index: self.viewport.page_index - 1,
            zoom_percent: self.viewport.zoom_percent,
        };
        Some(self.viewport)
    }

    /// Moves one page forward; `None`, with nothing changed, on the last page.
    pub fn next_page(&mut self) -> (r: Option<Viewport>)
        ensures
            r == next_viewport(old(self).current(), old(self).pages()),
            final(self).pages() == old(self).pages(),
            final(self).current() == match r {
                Some(v) => v,
                None => old(self).current(),
            },
            within_document(final(self).current(), final(self).pages()),
    {
        proof {
            use_type_invariant(&*self);
        }
        if self.viewport.page_index as u64 + 1 >= self.page_count as u64 {
            return None;
        }
        self.viewport = Viewport {
            page_index: self.viewport.page_index + 1,
            zoom_percent: self.viewport.zoom_percent,
        };
        Some(self.viewport)
    }

    /// Changes the zoom by `delta` points, never below 10 % or above 800 %.
    pub fn zoom_by(&mut self, delta: i32) -> (r: Viewport)
        requires
            old(self).current().zoom_percent + delta <= i32::MAX,
        ensures
            r == zoomed_viewport(old(self).current(), delta as int),
            final(self).current() == r,
            final(self).pages() == old(self).pages(),
            within_document(final(self).current(), final(self).pages()),
    {
        proof {
            use_type_invariant(&*self);
        }
        let sum: i32 = self.viewport.zoom_percent + delta;
        let zoom: i32 = if sum < MIN_ZOOM_PERCENT {
            MIN_ZOOM_PERCENT
        } else if sum > MAX_ZOOM_PERCENT {
            MAX_ZOOM_PERCENT
        } else {
            sum
        };
        self.viewport = Viewport { page_index: self.viewport.page_index, zoom_percent: zoom };
        self.viewport
    }

    /// Returns to the fitted width.
    pub fn fit_width(&mut self) -> (r: Viewport)
        ensures
            r == fitted_viewport(old(self).current()),
            final(self).current() == r,
            final(self).pages() == old(self).pages(),
            within_document(final(self).current(), final(self).pages()),
    {
        proof {
            use_type_invariant(&*self);
        }
        self.viewport = Viewport {
            page_index: self.viewport.page_index,
            zoom_percent: FIT_ZOOM_PERCENT,
        };
        self.viewport
    }

    /// Shows page `page_index`; `None`, with nothing changed, when the
    /// document has no such page.
    pub fn go_to(&mut self, page_index: u32) -> (r: Option<Viewport>)
        ensures
            r == viewport_at(old(self).current(), old(self).pages(), page_index),
            final(self).pages() == old(self).pages(),
            final(self).current() == match r {
                Some(v) => v,
                None => old(self).current(),
            },
            within_document(final(self).current(), final(self).pages()),
    {
        proof {
            use_type_invariant(&*self);
        }
        if page_index >= self.page_count {
            return None;
        }
        self.viewport = Viewport { page_index, zoom_percent: self.viewport.zoom_percent };
        Some(self.viewport)
    }
}

impl Default for ViewerState {
    /// No document: the first page at the fitted zoom, with no pages.
    fn default() -> (r: Self)
        ensures
            r.current() == first_viewport(),
            r.pages() == 0,
    {
        ViewerState {
            viewport: Viewport { page_index: 0, zoom_percent: FIT_ZOOM_PERCENT },
            page_count: 0,
        }
    }
}

/// Navigation never leaves the document: from a viewport inside it, every
/// move, zoom and jump the viewer offers lands inside it again.
pub proof fn law_moves_stay_inside(v: Viewport, page_count: u32, delta: int, target: u32)
    requires
        within_document(v, page_count),
    ensures
        previous_viewport(v) matches Some(w) ==> within_document(w, page_count),
        next_viewport(v, page_count) matches Some(w) ==> within_document(w, page_count),
        within_document(zoomed_viewport(v, delta), page_count),
        within_document(fitted_viewport(v), page_count),
        viewport_at(v, page_count, target) matches Some(w) ==> within_document(w, page_count),
        within_document(first_viewport(), page_count),
{
}

/// Going forward a page and back again returns to the same viewport, and
/// so does going back and then forward.
pub proof fn law_next_and_previous_undo_each_other(v: Viewport, page_count: u32)
    requires
        within_document(v, page_count),
    ensures
        next_viewport(v, page_count) matches Some(w) ==> previous_viewport(w) == Some(v),
        previous_viewport(v) matches Some(w) ==> next_viewport(w, page_count) == Some(v),
{
}

/// Fitting the width is idempotent and forgets any earlier zoom: whatever
/// zoom came before, fitting gives the same viewport.
pub proof fn law_fit_width_forgets_zoom(v: Viewport, delta: int)
    ensures
        fitted_viewport(fitted_viewport(v)) == fitted_viewport(v),
        fitted_viewport(zoomed_viewport(v, delta)) == fitted_viewport(v),
        fitted_viewport(v).zoom_percent == FIT_ZOOM_PERCENT,
{
}

/// A jump succeeds exactly on the document's pages, and a successful jump
/// keeps the zoom.
pub proof fn law_go_to_exactly_the_existing_pages(v: Viewport, page_count: u32, target: u32)
    ensures
        viewport_at(v, page_count, target) is Some <==> target < page_count,
        viewport_at(v, page_count, target) matches Some(w) ==> w.page_index == target
            && w.zoom_percent == v.zoom_percent,
{
}

} // verus!
