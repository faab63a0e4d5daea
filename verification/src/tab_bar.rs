//! The tab bar's items and presentation choices.

use vstd::prelude::*;

verus! {

/// How tabs are drawn: with curved brackets around the active tab, or as
/// plain text between separators.
#[derive(Debug, Clone, Copy, PartialEq, Eq, Structural)]
pub enum TabBarStyle {
    Tab,
    Text,
}

/// Where the row of tabs sits within its line.
#[derive(Debug, Clone, Copy, PartialEq, Eq, Structural)]
pub enum TabBarAlignment {
    Left,
    Center,
    Right,
}

/// One tab: its label and whether it is the active one.
#[derive(Debug, Clone)]
pub struct TabBarItem {
    pub name: String,
    pub active: bool,
}

} // verus!

verus! {

/// A rectangle of terminal cells.
#[derive(Debug, Clone, Copy, PartialEq, Eq, Structural)]
pub struct Rect {
    pub x: u16,
    pub y: u16,
    pub width: u16,
    pub height: u16,
}

/// Where a tab bar is placed: attached to the top or bottom border of a
/// bounding box, or at direct coordinates.
#[derive(Debug, Clone, Copy, PartialEq, Eq, Structural)]
pub enum TabBarPosition {
    TopOf(Rect),
    BottomOf(Rect),
    Coords { x1: u16, x2: u16, y: u16 },
}

/// A row of tabs with a style, an alignment and a position.
#[derive(Debug, Clone)]
pub struct TabBar {
    pub items: Vec<TabBarItem>,
    pub style: TabBarStyle,
    pub alignment: TabBarAlignment,
    pub position: TabBarPosition,
}

/// Width of one tab's text: an active tab in the bracketed style carries
/// two brackets and two spaces around its label.
pub open spec fn spec_tab_text_width(item: TabBarItem, style: TabBarStyle) -> int {
    if item.active && style == TabBarStyle::Tab {
        item.name@.len() + 4int
    } else {
        item.name@.len() as int
    }
}

/// Width of the separator before one tab: two cells when it joins the
/// active tab's bracket, three otherwise.
pub open spec fn spec_sep_width(item: TabBarItem, style: TabBarStyle) -> int {
    if item.active && style == TabBarStyle::Tab {
        2
    } else {
        3
    }
}

/// Combined width of the tabs and the separators between them.
pub open spec fn spec_items_width(items: Seq<TabBarItem>, style: TabBarStyle) -> int
    decreases items.len(),
{
    if items.len() == 0 {
        0
    } else {
        spec_items_width(items.drop_last(), style) + (if items.len() > 1 {
            spec_sep_width(items.last(), style)
        } else {
            0
        }) + spec_tab_text_width(items.last(), style)
    }
}

/// Estimated width of the whole bar: leading and trailing rules around
/// the tabs.
pub open spec fn spec_bar_width(items: Seq<TabBarItem>, style: TabBarStyle) -> int {
    5 + spec_items_width(items, style)
}

/// Tab widths are never negative.
proof fn lemma_items_width_nonneg(items: Seq<TabBarItem>, style: TabBarStyle)
    ensures
        spec_items_width(items, style) >= 0,
    decreases items.len(),
{
    if items.len() > 0 {
        lemma_items_width_nonneg(items.drop_last(), style);
    }
}

/// A prefix of the tabs is at most as wide as all of them.
proof fn lemma_items_width_prefix(items: Seq<TabBarItem>, i: int, style: TabBarStyle)
    requires
        0 <= i <= items.len(),
    ensures
        spec_items_width(items.subrange(0, i), style) <= spec_items_width(items, style),
    decreases items.len() - i,
{
    if i == items.len() {
        assert(items.subrange(0, i) =~= items);
    } else {
        let sub1 = items.subrange(0, i + 1);
        assert(sub1.drop_last() =~= items.subrange(0, i));
        assert(sub1.last() == items[i]);
        lemma_items_width_prefix(items, i + 1, style);
    }
}

impl TabBar {
    /// A bar over the given tabs, placed at the origin until positioned.
    pub fn new(items: Vec<TabBarItem>, style: TabBarStyle, alignment: TabBarAlignment) -> (t:
        TabBar)
        ensures
            t.items == items,
            t.style == style,
            t.alignment == alignment,
            t.position == (TabBarPosition::Coords { x1: 0u16, x2: 0u16, y: 0u16 }),
    {
        TabBar { items, style, alignment, position: TabBarPosition::Coords { x1: 0, x2: 0, y: 0 } }
    }

    /// The same bar at another position.
    pub fn with_position(self, position: TabBarPosition) -> (t: TabBar)
        ensures
            t.items == self.items,
            t.style == self.style,
            t.alignment == self.alignment,
            t.position == position,
    {
        TabBar { position, ..self }
    }

    /// The width the bar needs to show every tab; see [`spec_bar_width`].
    pub fn estimate_width(&self) -> (w: u16)
        requires
            spec_bar_width(self.items@, self.style) <= u16::MAX,
        ensures
            w as int == spec_bar_width(self.items@, self.style),
    {
        let n = self.items.len();
        let mut w: usize = 5;
        let mut i: usize = 0;
        proof {
            assert(self.items@.subrange(0, 0) =~= Seq::<TabBarItem>::empty());
        }
        while i < n
            invariant
                n == self.items@.len(),
                i <= n,
                spec_bar_width(self.items@, self.style) <= u16::MAX,
                w == 5 + spec_items_width(self.items@.subrange(0, i as int), self.style),
            decreases n - i,
        {
            proof {
                let sub1 = self.items@.subrange(0, i + 1);
                assert(sub1.drop_last() =~= self.items@.subrange(0, i as int));
                assert(sub1.last() == self.items@[i as int]);
                lemma_items_width_prefix(self.items@, i + 1, self.style);
                lemma_items_width_nonneg(self.items@.subrange(0, i as int), self.style);
            }
            let item = &self.items[i];
            let bracketed = item.active && self.style == TabBarStyle::Tab;
            if i > 0 {
                if bracketed {
                    w += 2;
                } else {
                    w += 3;
                }
            }
            w += item.name.unicode_len();
            if bracketed {
                w += 4;
            }
            i += 1;
        }
        proof {
            assert(self.items@.subrange(0, n as int) =~= self.items@);
        }
        w as u16
    }
}

} // verus!

verus! {

/// A lower clamp at zero, as saturating subtraction leaves it.
pub open spec fn clamp0(v: int) -> int {
    if v < 0 {
        0
    } else {
        v
    }
}

/// Whether the bar and its bounding box leave every coordinate
/// computation in range: the bar fits a line of cells, an attached box is
/// at least one cell tall or wide, and a right-aligned bottom attachment
/// leaves room for its border cell.
pub open spec fn spec_area_inputs_ok(
    items: Seq<TabBarItem>,
    style: TabBarStyle,
    alignment: TabBarAlignment,
    position: TabBarPosition,
) -> bool {
    &&& spec_bar_width(items, style) + 1 <= u16::MAX
    &&& match position {
        TabBarPosition::TopOf(rect) => rect.width >= 1 && rect.x + rect.width <= u16::MAX,
        TabBarPosition::BottomOf(rect) => {
            &&& rect.width >= 1
            &&& rect.height >= 1
            &&& rect.x + rect.width <= u16::MAX
            &&& rect.y + rect.height <= u16::MAX
            &&& (alignment == TabBarAlignment::Right ==> rect.x + clamp0(
                rect.width - spec_bar_width(items, style),
            ) >= 1)
        },
        TabBarPosition::Coords { .. } => true,
    }
}

/// The one-line area a bar occupies. Attached to the top of a box it
/// sits on the border line, aligned within it and clipped to it; attached
/// to the bottom it sits on the last line; direct coordinates are taken
/// as given.
pub open spec fn spec_calculate_area(
    items: Seq<TabBarItem>,
    style: TabBarStyle,
    alignment: TabBarAlignment,
    position: TabBarPosition,
) -> Rect {
    let w = spec_bar_width(items, style);
    match position {
        TabBarPosition::TopOf(rect) => {
            let xr: int = match alignment {
                TabBarAlignment::Left => rect.x + 1,
                TabBarAlignment::Center => clamp0(rect.x + rect.width as int / 2 - w / 2),
                TabBarAlignment::Right => clamp0(rect.x + rect.width - (w + 1)),
            };
            let x: int = if xr > rect.x + 1 {
                xr
            } else {
                rect.x + 1
            };
            let right_edge = rect.x + rect.width - 1;
            let avail = clamp0(right_edge - x) + 1;
            Rect {
                x: x as u16,
                y: rect.y,
                width: (if w < avail {
                    w
                } else {
                    avail
                }) as u16,
                height: 1,
            }
        },
        TabBarPosition::BottomOf(rect) => {
            let x: int = match alignment {
                TabBarAlignment::Left => rect.x + 1,
                TabBarAlignment::Center => rect.x + clamp0(rect.width - w) / 2,
                TabBarAlignment::Right => rect.x + clamp0(rect.width - w) - 1,
            };
            Rect {
                x: x as u16,
                y: (rect.y + rect.height - 1) as u16,
                width: (if rect.width < w {
                    rect.width as int
                } else {
                    w
                }) as u16,
                height: 1,
            }
        },
        TabBarPosition::Coords { x1, x2, y } => Rect {
            x: x1,
            y,
            width: (clamp0(x2 - x1)) as u16,
            height: 1,
        },
    }
}

impl TabBar {
    /// Compute the bar's one-line area; see [`spec_calculate_area`].
    pub fn calculate_area(&self) -> (r: Rect)
        requires
            spec_area_inputs_ok(self.items@, self.style, self.alignment, self.position),
        ensures
            r == spec_calculate_area(self.items@, self.style, self.alignment, self.position),
    {
        let w = self.estimate_width();
        match self.position {
            TabBarPosition::TopOf(rect) => {
                let xr: u16 = match self.alignment {
                    TabBarAlignment::Left => rect.x + 1,
                    TabBarAlignment::Center => (rect.x + rect.width / 2).saturating_sub(w / 2),
                    TabBarAlignment::Right => (rect.x + rect.width).saturating_sub(w + 1),
                };
                let x = if xr > rect.x + 1 {
                    xr
                } else {
                    rect.x + 1
                };
                let right_edge = rect.x + rect.width - 1;
                let avail = right_edge.saturating_sub(x) + 1;
                Rect {
                    x,
                    y: rect.y,
                    width: if w < avail {
                        w
                    } else {
                        avail
                    },
                    height: 1,
                }
            },
            TabBarPosition::BottomOf(rect) => {
                let x: u16 = match self.alignment {
                    TabBarAlignment::Left => rect.x + 1,
                    TabBarAlignment::Center => rect.x + rect.width.saturating_sub(w) / 2,
                    TabBarAlignment::Right => rect.x + rect.width.saturating_sub(w) - 1,
                };
                Rect {
                    x,
                    y: rect.y + rect.height - 1,
                    width: if rect.width < w {
                        rect.width
                    } else {
                        w
                    },
                    height: 1,
                }
            },
            TabBarPosition::Coords { x1, x2, y } => Rect {
                x: x1,
                y,
                width: x2.saturating_sub(x1),
                height: 1,
            },
        }
    }
}

} // verus!
