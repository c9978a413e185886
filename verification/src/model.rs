//! The data of a sketch: shape kinds, layout items and settings.

use crate::geom::{GridRect, Rect};
use crate::grid::canvas_has_area;
use crate::layout::{
    generate_layout, is_generated_layout, layout_in_order, layout_possible, layout_tiles,
    layout_view, DEFAULT_SQUARE_WEIGHT,
};
use vstd::prelude::*;

verus! {

/// The kind of shape that a cell of the grid holds.
#[derive(Clone, Copy, Debug, PartialEq, Eq, Structural)]
pub enum Shapes {
    Square,
    Circle,
    Triangle,
    /// No kind has been assigned.
    Unset,
}

/// The parameters of a sketch.
#[derive(Clone, Copy, Debug, PartialEq, Eq, Structural)]
pub struct Settings {
    /// Whether the helper grid is drawn over the sketch.
    pub show_grid: bool,
    /// Margin between the canvas and the grid.
    pub page_padding: i32,
    /// Number of columns of the grid.
    pub col_total: i32,
    /// Number of rows of the grid.
    pub row_total: i32,
    /// Margin around every item of the layout.
    pub gap: i32,
}

/// One item of a layout: a shape kind and the rectangle it is drawn in, with
/// `x` in fractions of a unit over the columns of the grid and `y` over its
/// rows.
#[derive(Clone, Copy, Debug, PartialEq, Eq, Structural)]
pub struct LayoutItem {
    pub shape: Shapes,
    pub dimensions: GridRect,
}

/// The state of a sketch: its settings, and the layout made for them.
#[derive(Clone, Debug, PartialEq, Eq)]
pub struct Model {
    /// Whether the layout is up to date with the settings.
    pub is_setup: bool,
    pub settings: Settings,
    pub layout: Option<Vec<Vec<LayoutItem>>>,
}

/// The settings that a sketch starts with.
pub open spec fn spec_default_settings() -> Settings {
    Settings { show_grid: true, page_padding: 30, col_total: 14, row_total: 15, gap: 1 }
}

/// Whether two settings ask for different layouts: they differ in the page
/// padding, the number of rows or columns, or the gap.
pub open spec fn layout_settings_differ(a: Settings, b: Settings) -> bool {
    a.page_padding != b.page_padding || a.row_total != b.row_total || a.col_total != b.col_total
        || a.gap != b.gap
}

/// Whether `layout` is a layout of the canvas for the given settings and
/// some drawing of the kinds of its cells; it is empty where no layout can
/// be made.
pub open spec fn is_layout_for(layout: Vec<Vec<LayoutItem>>, canvas: Rect, settings: Settings) -> bool {
    let rows = settings.row_total as int;
    let cols = settings.col_total as int;
    let page_padding = settings.page_padding as int;
    &&& layout_possible(canvas, rows, cols) ==> layout@.len() == rows && is_generated_layout(
        layout_view(layout),
        canvas,
        page_padding,
        rows,
        cols,
        settings.gap as int,
        DEFAULT_SQUARE_WEIGHT,
    )
    &&& !layout_possible(canvas, rows, cols) ==> layout@.len() == 0
    &&& layout_in_order(layout_view(layout), canvas, canvas_has_area(canvas))
    &&& layout_possible(canvas, rows, cols) ==> layout_tiles(
        layout_view(layout),
        canvas,
        page_padding,
        rows,
        cols,
        settings.gap as int,
    )
}

impl Model {
    /// A sketch with the default settings and no layout yet.
    pub fn new() -> (model: Model)
        ensures
            !model.is_setup,
            model.settings == spec_default_settings(),
            model.layout.is_none(),
    {
        Model {
            is_setup: false,
            settings: Settings {
                show_grid: true,
                page_padding: 30,
                col_total: 14,
                row_total: 15,
                gap: 1,
            },
            layout: None,
        }
    }

    /// Marks the sketch as ready: its layout counts as up to date.
    pub fn setup(&mut self)
        ensures
            final(self).is_setup,
            final(self).settings == old(self).settings,
            final(self).layout == old(self).layout,
    {
        self.is_setup = true;
    }

    /// Takes over new settings. Where they ask for another layout than the
    /// old ones, the layout is no longer up to date and the next update
    /// makes a new one; the layout itself stays until then.
    pub fn apply_settings(&mut self, settings: Settings)
        ensures
            final(self).settings == settings,
            final(self).layout == old(self).layout,
            final(self).is_setup == (old(self).is_setup && !layout_settings_differ(
                old(self).settings,
                settings,
            )),
    {
        if self.settings.page_padding != settings.page_padding || self.settings.row_total
            != settings.row_total || self.settings.col_total != settings.col_total
            || self.settings.gap != settings.gap {
            self.is_setup = false;
        }
        self.settings = settings;
    }

    /// Brings the sketch up to date for a frame on the given canvas.
    ///
    /// A sketch that is up to date is left as it is. Otherwise a layout of
    /// the canvas is generated for the settings and the sketch is marked as
    /// ready.
    pub fn update(&mut self, canvas: Rect)
        ensures
            final(self).is_setup,
            final(self).settings == old(self).settings,
            old(self).is_setup ==> final(self).layout == old(self).layout,
            !old(self).is_setup ==> (final(self).layout matches Some(layout) && is_layout_for(
                layout,
                canvas,
                old(self).settings,
            )),
    {
        if !self.is_setup {
            let layout = generate_layout(
                canvas,
                self.settings.page_padding,
                self.settings.row_total,
                self.settings.col_total,
                self.settings.gap,
            );
            self.layout = Some(layout);
            self.setup();
        }
    }
}

} // verus!
