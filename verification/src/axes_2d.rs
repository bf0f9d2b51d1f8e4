//! The plot-axes model: which axes exist, where they sit, and the limits
//! of the plotted region.  Rendering itself is the display side's concern;
//! this is only the data the display reads.

use vstd::prelude::*;

use crate::fixed::Fx;
use crate::fixed::SCALE;
use crate::fixed::s_add;
use crate::fixed::s_div;
use crate::fixed::s_mul;
use crate::fixed::s_sub;

verus! {

#[derive(Debug, Clone, Copy, PartialEq, Eq, Structural)]
pub enum Axis {
    X,
    Y,
}

#[derive(Debug, Clone, Copy, PartialEq, Eq, Structural)]
pub enum XAxisLocation {
    Top,
    Center,
    Bottom,
}

#[derive(Debug, Clone, Copy, PartialEq, Eq, Structural)]
pub enum YAxisLocation {
    Left,
    Center,
    Right,
}

#[derive(Debug, Clone, Copy, PartialEq, Eq, Structural)]
pub enum AxisLocation {
    X(XAxisLocation),
    Y(YAxisLocation),
}

#[derive(Debug, Clone, Copy, PartialEq, Eq, Structural)]
pub enum AxisLimit {
    Min(Fx),
    Max(Fx),
}

#[derive(Debug, Clone, Copy, PartialEq, Eq, Structural)]
pub enum GridLine {
    Major,
    Minor,
    Both,
}

#[derive(Debug, Clone, Copy, PartialEq, Eq, Structural)]
pub enum LineStyle {
    Solid,
    Dashed(Fx),
    Dotted(Fx),
}

/// A display color, as plain channel values.
#[derive(Debug, Clone, Copy, PartialEq, Eq, Structural)]
pub struct Color {
    pub red: u8,
    pub green: u8,
    pub blue: u8,
    pub alpha: u8,
}

/// The grid's appearance: which lines are visible, and the width, color,
/// style and interval of each kind.
#[derive(Debug, Clone, Copy, PartialEq, Eq, Structural)]
pub struct GridConfig {
    pub visible_lines: GridLine,
    pub major_line_width: Fx,
    pub minor_line_width: Fx,
    pub major_line_color: Color,
    pub minor_line_color: Color,
    pub major_line_style: LineStyle,
    pub minor_line_style: LineStyle,
    pub major_line_interval: Fx,
    pub minor_line_interval: Fx,
}

/// The plotted region and the placement of the two axes.
#[derive(Debug, Clone, Copy, PartialEq, Eq, Structural)]
pub struct Axes {
    pub min_x: Fx,
    pub max_x: Fx,
    pub min_y: Fx,
    pub max_y: Fx,
    pub x_axis_location: XAxisLocation,
    pub y_axis_location: YAxisLocation,
}

impl Axes {
    /// The default axes value, at spec level.
    pub open spec fn spec_default() -> Axes {
        Axes {
            min_x: Fx::of(-10 * SCALE),
            max_x: Fx::of(10 * SCALE),
            min_y: Fx::of(-10 * SCALE),
            max_y: Fx::of(10 * SCALE),
            x_axis_location: XAxisLocation::Center,
            y_axis_location: YAxisLocation::Center,
        }
    }
}

impl Default for Axes {
    /// Centered axes over the square region from `-10` to `10`.
    fn default() -> (r: Self)
        ensures
            r == Axes::spec_default(),
    {
        Axes {
            min_x: Fx::from_int(true, 10),
            max_x: Fx::from_int(false, 10),
            min_y: Fx::from_int(true, 10),
            max_y: Fx::from_int(false, 10),
            x_axis_location: XAxisLocation::Center,
            y_axis_location: YAxisLocation::Center,
        }
    }
}

/// A builder over `Axes`, starting from the default axes.
#[derive(Debug, Clone, Copy, PartialEq, Eq, Structural)]
pub struct AxesBuilder {
    pub axes: Axes,
}

impl AxesBuilder {
    pub fn new() -> (r: Self)
        ensures
            r.axes == Axes::spec_default(),
    {
        AxesBuilder { axes: Axes::default() }
    }

    /// Replace one limit of one axis, leaving every other field unchanged.
    pub fn set_limits(self, axis: Axis, limits: AxisLimit) -> (r: Self)
        ensures
            match (axis, limits) {
                (Axis::X, AxisLimit::Min(v)) => r.axes == (Axes { min_x: v, ..self.axes }),
                (Axis::X, AxisLimit::Max(v)) => r.axes == (Axes { max_x: v, ..self.axes }),
                (Axis::Y, AxisLimit::Min(v)) => r.axes == (Axes { min_y: v, ..self.axes }),
                (Axis::Y, AxisLimit::Max(v)) => r.axes == (Axes { max_y: v, ..self.axes }),
            },
    {
        let mut axes = self.axes;
        match axis {
            Axis::X => {
                match limits {
                    AxisLimit::Min(min_x) => {
                        axes.min_x = min_x;
                    },
                    AxisLimit::Max(max_x) => {
                        axes.max_x = max_x;
                    },
                }
            },
            Axis::Y => {
                match limits {
                    AxisLimit::Min(min_y) => {
                        axes.min_y = min_y;
                    },
                    AxisLimit::Max(max_y) => {
                        axes.max_y = max_y;
                    },
                }
            },
        }
        AxesBuilder { axes }
    }

    /// Replace the placement of one axis, leaving the other unchanged.
    pub fn set_axis_location(self, axis_location: AxisLocation) -> (r: Self)
        ensures
            match axis_location {
                AxisLocation::X(x) => r.axes == (Axes { x_axis_location: x, ..self.axes }),
                AxisLocation::Y(y) => r.axes == (Axes { y_axis_location: y, ..self.axes }),
            },
    {
        let mut axes = self.axes;
        match axis_location {
            AxisLocation::X(x_axis_location) => {
                axes.x_axis_location = x_axis_location;
            },
            AxisLocation::Y(y_axis_location) => {
                axes.y_axis_location = y_axis_location;
            },
        }
        AxesBuilder { axes }
    }

    pub fn build(self) -> (r: Axes)
        ensures
            r == self.axes,
    {
        self.axes
    }
}

/// A screen-space rectangle, in the display's units.
#[derive(Debug, Clone, Copy, PartialEq, Eq, Structural)]
pub struct ScreenRect {
    pub left: Fx,
    pub right: Fx,
    pub bottom: Fx,
    pub top: Fx,
}

/// The affine map taking `v` from `[in_min, in_max]` to
/// `[out_min, out_max]`.  A degenerate source interval divides by zero and
/// yields the non-finite value.
pub open spec fn s_map_range(v: Fx, in_min: Fx, in_max: Fx, out_min: Fx, out_max: Fx) -> Fx {
    s_add(
        out_min,
        s_div(s_mul(s_sub(v, in_min), s_sub(out_max, out_min)), s_sub(in_max, in_min)),
    )
}

/// The affine map taking `v` from `[in_min, in_max]` to `[out_min, out_max]`.
pub fn map_range(v: Fx, in_min: Fx, in_max: Fx, out_min: Fx, out_max: Fx) -> (r: Fx)
    ensures
        r == s_map_range(v, in_min, in_max, out_min, out_max),
{
    out_min.add(v.sub(in_min).mul(out_max.sub(out_min)).div(in_max.sub(in_min)))
}

/// Map a plot-space point onto the screen rectangle.
pub fn point_to_screen(axes: &Axes, win: &ScreenRect, x: Fx, y: Fx) -> (r: (Fx, Fx))
    ensures
        r.0 == s_map_range(x, axes.min_x, axes.max_x, win.left, win.right),
        r.1 == s_map_range(y, axes.min_y, axes.max_y, win.bottom, win.top),
{
    (
        map_range(x, axes.min_x, axes.max_x, win.left, win.right),
        map_range(y, axes.min_y, axes.max_y, win.bottom, win.top),
    )
}

/// Map a screen-space point back into plot space.
pub fn screen_to_point(axes: &Axes, win: &ScreenRect, x: Fx, y: Fx) -> (r: (Fx, Fx))
    ensures
        r.0 == s_map_range(x, win.left, win.right, axes.min_x, axes.max_x),
        r.1 == s_map_range(y, win.bottom, win.top, axes.min_y, axes.max_y),
{
    (
        map_range(x, win.left, win.right, axes.min_x, axes.max_x),
        map_range(y, win.bottom, win.top, axes.min_y, axes.max_y),
    )
}

} // verus!
