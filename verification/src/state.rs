//! The stateful-widget state store: selection and scroll records that
//! outlive a single render call.
//!
//! A host keeps one of these records per stateful widget and lends it,
//! exclusively and briefly, to one render call at a time. In stateful
//! mode the record's selection is authoritative and the render pass
//! writes the scroll offset it settled on back into the record, so the
//! next frame (and the host) see the updated position.

use vstd::prelude::*;

verus! {

pub open spec fn min_nat(a: int, b: int) -> int {
    if a <= b {
        a
    } else {
        b
    }
}

/// The scroll offset a stateful render settles on: the previous offset,
/// moved just far enough to keep the (clamped) selection visible in a
/// viewport of `viewport` rows over `len` items.
pub open spec fn spec_resolve_offset(
    offset: int,
    selected: Option<usize>,
    len: int,
    viewport: int,
) -> int {
    if len <= 0 {
        0
    } else {
        let clamped = min_nat(offset, len - 1);
        match selected {
            Option::None => clamped,
            Option::Some(s) => {
                let sel = min_nat(s as int, len - 1);
                if viewport <= 0 {
                    clamped
                } else if sel < clamped {
                    sel
                } else if sel >= clamped + viewport {
                    sel + 1 - viewport
                } else {
                    clamped
                }
            },
        }
    }
}

/// Computes the post-render scroll offset for a list- or table-like
/// widget. The offset moves only as far as visibility of the selection
/// demands; with no selection it is merely clamped into the content.
pub fn resolve_offset(offset: usize, selected: Option<usize>, len: usize, viewport: usize) -> (r:
    usize)
    ensures
        r == spec_resolve_offset(offset as int, selected, len as int, viewport as int),
        len == 0 ==> r == 0,
        len > 0 ==> r < len,
        // The selection, clamped into the content, ends up visible.
        (len > 0 && viewport > 0 && selected is Some) ==> {
            let sel = min_nat(selected->0 as int, len - 1);
            r <= sel < r + viewport
        },
{
    if len == 0 {
        return 0;
    }
    let clamped: usize = if offset <= len - 1 {
        offset
    } else {
        len - 1
    };
    match selected {
        Option::None => clamped,
        Option::Some(s) => {
            let sel: usize = if s <= len - 1 {
                s
            } else {
                len - 1
            };
            if viewport == 0 {
                clamped
            } else if sel < clamped {
                sel
            } else if sel - clamped >= viewport {
                sel + 1 - viewport
            } else {
                clamped
            }
        },
    }
}

/// The scroll offset with `pad` context rows kept visible around the
/// selection: the window is pulled the least distance that shows the
/// rows from `pad` above the selection to `pad` below it (the padding
/// capped at half the viewport so the window can always comply). With
/// no padding this is exactly `spec_resolve_offset`.
pub open spec fn spec_resolve_offset_padded(
    offset: int,
    selected: Option<usize>,
    len: int,
    viewport: int,
    pad: int,
) -> int {
    if len <= 0 {
        0
    } else {
        let clamped = min_nat(offset, len - 1);
        match selected {
            Option::None => clamped,
            Option::Some(s) => {
                let sel = min_nat(s as int, len - 1);
                if viewport <= 0 {
                    clamped
                } else {
                    let pad_eff = min_nat(pad, (viewport - 1) / 2);
                    let lo = if sel - pad_eff >= 0 {
                        sel - pad_eff
                    } else {
                        0
                    };
                    let hi = min_nat(sel + pad_eff, len - 1);
                    let low_bound = if hi + 1 - viewport >= 0 {
                        hi + 1 - viewport
                    } else {
                        0
                    };
                    if clamped < low_bound {
                        low_bound
                    } else if clamped > lo {
                        lo
                    } else {
                        clamped
                    }
                }
            },
        }
    }
}

/// Without padding, the padded resolution is the plain one.
pub proof fn lemma_resolve_offset_padded_zero(
    offset: int,
    selected: Option<usize>,
    len: int,
    viewport: int,
)
    requires
        0 <= offset,
    ensures
        spec_resolve_offset_padded(offset, selected, len, viewport, 0) == spec_resolve_offset(
            offset,
            selected,
            len,
            viewport,
        ),
{
    if len > 0 && viewport > 0 {
        match selected {
            Option::Some(s) => {
                let clamped = min_nat(offset, len - 1);
                let sel = min_nat(s as int, len - 1);
                assert(min_nat(0, (viewport - 1) / 2) == 0);
                if sel < clamped {
                    assert(spec_resolve_offset_padded(offset, selected, len, viewport, 0) == sel);
                } else if sel >= clamped + viewport {
                    assert(spec_resolve_offset_padded(offset, selected, len, viewport, 0) == sel
                        + 1 - viewport);
                } else {
                    assert(spec_resolve_offset_padded(offset, selected, len, viewport, 0)
                        == clamped);
                }
            },
            Option::None => {},
        }
    }
}

/// Computes the padded post-render scroll offset.
pub fn resolve_offset_padded(
    offset: usize,
    selected: Option<usize>,
    len: usize,
    viewport: usize,
    pad: usize,
) -> (r: usize)
    ensures
        r == spec_resolve_offset_padded(
            offset as int,
            selected,
            len as int,
            viewport as int,
            pad as int,
        ),
        len == 0 ==> r == 0,
        len > 0 ==> r < len,
        // The selection itself is always visible.
        (len > 0 && viewport > 0 && selected is Some) ==> {
            let sel = min_nat(selected->0 as int, len - 1);
            r <= sel < r + viewport
        },
{
    if len == 0 {
        return 0;
    }
    let clamped: usize = if offset <= len - 1 {
        offset
    } else {
        len - 1
    };
    match selected {
        Option::None => clamped,
        Option::Some(s) => {
            let sel: usize = if s <= len - 1 {
                s
            } else {
                len - 1
            };
            if viewport == 0 {
                clamped
            } else {
                let half: usize = (viewport - 1) / 2;
                let pad_eff: usize = if pad <= half {
                    pad
                } else {
                    half
                };
                let lo: usize = if sel >= pad_eff {
                    sel - pad_eff
                } else {
                    0
                };
                let hi: usize = if pad_eff <= len - 1 - sel {
                    sel + pad_eff
                } else {
                    len - 1
                };
                let low_bound: usize = if hi + 1 >= viewport {
                    hi + 1 - viewport
                } else {
                    0
                };
                if clamped < low_bound {
                    low_bound
                } else if clamped > lo {
                    lo
                } else {
                    clamped
                }
            }
        },
    }
}

/// Stateful round trip, fresh state: starting from offset 0 with
/// selection `k` over `len` items and a viewport of `h` rows, the
/// resolved offset keeps `k` visible and is the least offset that does.
pub proof fn lemma_fresh_offset_minimal(k: int, len: int, h: int)
    requires
        0 <= k < len,
        0 < h,
        k <= usize::MAX,
    ensures
        ({
            let r = spec_resolve_offset(0, Option::Some(k as usize), len, h);
            &&& r <= k < r + h
            &&& forall|o: int| #![trigger o + h] 0 <= o < r ==> !(o <= k < o + h)
        }),
{
}

/// Selection and scroll position of a list widget.
#[derive(Clone, Copy, Debug, PartialEq, Eq, Structural)]
pub struct ListState {
    pub selection: Option<usize>,
    pub scroll_offset: usize,
}

impl ListState {
    /// A fresh state with an optional initial selection and offset 0.
    pub fn new(selected: Option<usize>) -> (r: ListState)
        ensures
            r.selection == selected,
            r.scroll_offset == 0,
    {
        ListState { selection: selected, scroll_offset: 0 }
    }

    /// Sets the selection; `None` deselects. The offset is untouched.
    pub fn select(&mut self, index: Option<usize>)
        ensures
            final(self).selection == index,
            final(self).scroll_offset == old(self).scroll_offset,
    {
        self.selection = index;
    }

    /// The current selection.
    pub fn selected(&self) -> (r: Option<usize>)
        ensures
            r == self.selection,
    {
        self.selection
    }

    /// The current scroll offset. After a stateful render this is the
    /// position the render pass settled on.
    pub fn offset(&self) -> (r: usize)
        ensures
            r == self.scroll_offset,
    {
        self.scroll_offset
    }

    /// Moves the selection down by `amount`, saturating; an empty
    /// selection counts as item 0.
    pub fn scroll_down_by(&mut self, amount: u16)
        ensures
            final(self).selection == Option::Some(
                (if old(self).selection->0 as int + amount as int <= usize::MAX {
                    (old(self).selection->0 + amount as usize) as usize
                } else {
                    usize::MAX
                }),
            ) || (old(self).selection is None && final(self).selection == Option::Some(
                amount as usize,
            )),
            old(self).selection is None ==> final(self).selection == Option::Some(amount as usize),
            final(self).scroll_offset == old(self).scroll_offset,
    {
        let base: usize = match self.selection {
            Option::Some(s) => s,
            Option::None => 0,
        };
        let next: usize = if base <= usize::MAX - amount as usize {
            base + amount as usize
        } else {
            usize::MAX
        };
        self.selection = Option::Some(next);
    }

    /// Moves the selection up by `amount`, saturating at item 0.
    pub fn scroll_up_by(&mut self, amount: u16)
        ensures
            ({
                let base = if old(self).selection is Some {
                    old(self).selection->0 as int
                } else {
                    0
                };
                final(self).selection == Option::Some(
                    (if base - amount as int >= 0 {
                        (base - amount as int) as usize
                    } else {
                        0
                    }),
                )
            }),
            final(self).scroll_offset == old(self).scroll_offset,
    {
        let base: usize = match self.selection {
            Option::Some(s) => s,
            Option::None => 0,
        };
        let next: usize = if base >= amount as usize {
            base - amount as usize
        } else {
            0
        };
        self.selection = Option::Some(next);
    }

    /// Synchronises the record with a finished render pass over `len`
    /// items and `viewport` visible rows: the offset becomes
    /// `spec_resolve_offset`, the selection is clamped into the content.
    pub fn sync_after_render(&mut self, len: usize, viewport: usize)
        ensures
            final(self).scroll_offset == spec_resolve_offset(
                old(self).scroll_offset as int,
                old(self).selection,
                len as int,
                viewport as int,
            ),
            final(self).selection == (match old(self).selection {
                Option::None => Option::<usize>::None,
                Option::Some(s) => if len == 0 {
                    Option::Some(s)
                } else {
                    Option::Some(min_nat(s as int, len - 1) as usize)
                },
            }),
    {
        self.scroll_offset = resolve_offset(self.scroll_offset, self.selection, len, viewport);
        if len > 0 {
            match self.selection {
                Option::Some(s) => {
                    if s > len - 1 {
                        self.selection = Option::Some(len - 1);
                    }
                },
                Option::None => {},
            }
        }
    }

    /// As `sync_after_render`, but keeping `pad` context rows around the
    /// selection visible where the viewport allows.
    pub fn sync_after_render_padded(&mut self, len: usize, viewport: usize, pad: usize)
        ensures
            final(self).scroll_offset == spec_resolve_offset_padded(
                old(self).scroll_offset as int,
                old(self).selection,
                len as int,
                viewport as int,
                pad as int,
            ),
            final(self).selection == (match old(self).selection {
                Option::None => Option::<usize>::None,
                Option::Some(s) => if len == 0 {
                    Option::Some(s)
                } else {
                    Option::Some(min_nat(s as int, len - 1) as usize)
                },
            }),
    {
        self.scroll_offset = resolve_offset_padded(
            self.scroll_offset,
            self.selection,
            len,
            viewport,
            pad,
        );
        if len > 0 {
            match self.selection {
                Option::Some(s) => {
                    if s > len - 1 {
                        self.selection = Option::Some(len - 1);
                    }
                },
                Option::None => {},
            }
        }
    }
}

/// Selection (row and column) and scroll position of a table widget.
#[derive(Clone, Copy, Debug, PartialEq, Eq, Structural)]
pub struct TableState {
    pub selection: Option<usize>,
    pub column_selection: Option<usize>,
    pub scroll_offset: usize,
}

impl TableState {
    /// A fresh state with an optional initial row selection.
    pub fn new(selected: Option<usize>) -> (r: TableState)
        ensures
            r.selection == selected,
            r.column_selection is None,
            r.scroll_offset == 0,
    {
        TableState { selection: selected, column_selection: Option::None, scroll_offset: 0 }
    }

    /// Sets the selected row; `None` deselects.
    pub fn select(&mut self, index: Option<usize>)
        ensures
            final(self).selection == index,
            final(self).column_selection == old(self).column_selection,
            final(self).scroll_offset == old(self).scroll_offset,
    {
        self.selection = index;
    }

    /// The selected row.
    pub fn selected(&self) -> (r: Option<usize>)
        ensures
            r == self.selection,
    {
        self.selection
    }

    /// Sets the selected column; `None` deselects.
    pub fn select_column(&mut self, index: Option<usize>)
        ensures
            final(self).column_selection == index,
            final(self).selection == old(self).selection,
            final(self).scroll_offset == old(self).scroll_offset,
    {
        self.column_selection = index;
    }

    /// The selected column.
    pub fn selected_column(&self) -> (r: Option<usize>)
        ensures
            r == self.column_selection,
    {
        self.column_selection
    }

    /// The current scroll offset.
    pub fn offset(&self) -> (r: usize)
        ensures
            r == self.scroll_offset,
    {
        self.scroll_offset
    }

    /// Moves the row selection down by `amount`, saturating.
    pub fn scroll_down_by(&mut self, amount: u16)
        ensures
            old(self).selection is None ==> final(self).selection == Option::Some(amount as usize),
            old(self).selection is Some ==> final(self).selection == Option::Some(
                (if old(self).selection->0 as int + amount as int <= usize::MAX {
                    (old(self).selection->0 + amount as usize) as usize
                } else {
                    usize::MAX
                }),
            ),
            final(self).column_selection == old(self).column_selection,
            final(self).scroll_offset == old(self).scroll_offset,
    {
        let base: usize = match self.selection {
            Option::Some(s) => s,
            Option::None => 0,
        };
        let next: usize = if base <= usize::MAX - amount as usize {
            base + amount as usize
        } else {
            usize::MAX
        };
        self.selection = Option::Some(next);
    }

    /// Moves the row selection up by `amount`, saturating at row 0.
    pub fn scroll_up_by(&mut self, amount: u16)
        ensures
            ({
                let base = if old(self).selection is Some {
                    old(self).selection->0 as int
                } else {
                    0
                };
                final(self).selection == Option::Some(
                    (if base - amount as int >= 0 {
                        (base - amount as int) as usize
                    } else {
                        0
                    }),
                )
            }),
            final(self).column_selection == old(self).column_selection,
            final(self).scroll_offset == old(self).scroll_offset,
    {
        let base: usize = match self.selection {
            Option::Some(s) => s,
            Option::None => 0,
        };
        let next: usize = if base >= amount as usize {
            base - amount as usize
        } else {
            0
        };
        self.selection = Option::Some(next);
    }

    /// Synchronises the record with a finished render pass, exactly as
    /// `ListState::sync_after_render` does for lists.
    pub fn sync_after_render(&mut self, len: usize, viewport: usize)
        ensures
            final(self).scroll_offset == spec_resolve_offset(
                old(self).scroll_offset as int,
                old(self).selection,
                len as int,
                viewport as int,
            ),
            final(self).column_selection == old(self).column_selection,
            final(self).selection == (match old(self).selection {
                Option::None => Option::<usize>::None,
                Option::Some(s) => if len == 0 {
                    Option::Some(s)
                } else {
                    Option::Some(min_nat(s as int, len - 1) as usize)
                },
            }),
    {
        self.scroll_offset = resolve_offset(self.scroll_offset, self.selection, len, viewport);
        if len > 0 {
            match self.selection {
                Option::Some(s) => {
                    if s > len - 1 {
                        self.selection = Option::Some(len - 1);
                    }
                },
                Option::None => {},
            }
        }
    }
}

/// Position and content measures of a scrollbar.
#[derive(Clone, Copy, Debug, PartialEq, Eq, Structural)]
pub struct ScrollbarState {
    pub position: usize,
    pub content_length: usize,
    pub viewport_content_length: usize,
}

impl ScrollbarState {
    /// A fresh state for content of the given length, at position 0.
    pub fn new(content_length: usize) -> (r: ScrollbarState)
        ensures
            r.position == 0,
            r.content_length == content_length,
            r.viewport_content_length == 0,
    {
        ScrollbarState { position: 0, content_length, viewport_content_length: 0 }
    }

    /// The current scroll position.
    pub fn position(&self) -> (r: usize)
        ensures
            r == self.position,
    {
        self.position
    }

    /// Sets the scroll position.
    pub fn set_position(&mut self, position: usize)
        ensures
            final(self).position == position,
            final(self).content_length == old(self).content_length,
            final(self).viewport_content_length == old(self).viewport_content_length,
    {
        self.position = position;
    }

    /// The total content length.
    pub fn content_length(&self) -> (r: usize)
        ensures
            r == self.content_length,
    {
        self.content_length
    }

    /// Sets the total content length.
    pub fn set_content_length(&mut self, length: usize)
        ensures
            final(self).content_length == length,
            final(self).position == old(self).position,
            final(self).viewport_content_length == old(self).viewport_content_length,
    {
        self.content_length = length;
    }

    /// The viewport content length.
    pub fn viewport_content_length(&self) -> (r: usize)
        ensures
            r == self.viewport_content_length,
    {
        self.viewport_content_length
    }

    /// Sets the viewport content length.
    pub fn set_viewport_content_length(&mut self, length: usize)
        ensures
            final(self).viewport_content_length == length,
            final(self).position == old(self).position,
            final(self).content_length == old(self).content_length,
    {
        self.viewport_content_length = length;
    }

    /// Scrolls to the first position.
    pub fn first(&mut self)
        ensures
            final(self).position == 0,
            final(self).content_length == old(self).content_length,
            final(self).viewport_content_length == old(self).viewport_content_length,
    {
        self.position = 0;
    }

    /// Scrolls to the last position (`content_length - 1`, or 0 for empty
    /// content).
    pub fn last(&mut self)
        ensures
            final(self).position == (if old(self).content_length > 0 {
                (old(self).content_length - 1) as usize
            } else {
                0
            }),
            final(self).content_length == old(self).content_length,
            final(self).viewport_content_length == old(self).viewport_content_length,
    {
        self.position = if self.content_length > 0 {
            self.content_length - 1
        } else {
            0
        };
    }

    /// Scrolls one position forward, stopping at the last position.
    pub fn next(&mut self)
        ensures
            final(self).position == min_nat(
                old(self).position as int + 1,
                if old(self).content_length > 0 {
                    old(self).content_length - 1
                } else {
                    0
                },
            ),
            final(self).content_length == old(self).content_length,
            final(self).viewport_content_length == old(self).viewport_content_length,
    {
        let limit: usize = if self.content_length > 0 {
            self.content_length - 1
        } else {
            0
        };
        self.position = if self.position < limit {
            self.position + 1
        } else {
            limit
        };
    }

    /// Scrolls one position back, stopping at position 0.
    pub fn prev(&mut self)
        ensures
            final(self).position == (if old(self).position > 0 {
                (old(self).position - 1) as usize
            } else {
                0
            }),
            final(self).content_length == old(self).content_length,
            final(self).viewport_content_length == old(self).viewport_content_length,
    {
        self.position = if self.position > 0 {
            self.position - 1
        } else {
            0
        };
    }
}

} // verus!
