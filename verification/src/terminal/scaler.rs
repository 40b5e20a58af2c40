use vstd::prelude::*;

verus! {

/// Platforms that differ in their default window gutter.
#[derive(Debug, PartialEq, Eq, Copy, Clone, Structural)]
pub enum GutterPlatform {
    /// Windows and macOS, where window borders overlap the drawing area.
    WindowsOrMacos,
    /// Every other native platform.
    Other,
}

/// The default gutter around the drawing area: 8 pixels on Windows and
/// macOS, none elsewhere.
pub fn default_gutter_size(platform: GutterPlatform) -> (g: u32)
    ensures
        g == (if platform == GutterPlatform::WindowsOrMacos { 8u32 } else { 0u32 }),
{
    match platform {
        GutterPlatform::WindowsOrMacos => 8,
        GutterPlatform::Other => 0,
    }
}

/// The column and row of a glyph in a font sheet of `cols` by `rows`
/// glyphs, rows counted from the bottom: `(glyph % cols, rows - glyph / cols)`.
pub fn glyph_cell(cols: u16, rows: u16, glyph: u16) -> (cell: (u16, u16))
    requires
        cols > 0,
        glyph / cols < rows,
    ensures
        cell.0 == glyph % cols,
        cell.1 == rows - glyph / cols,
        cell.0 + 1 <= u16::MAX,
        cell.1 >= 1,
{
    (glyph % cols, rows - glyph / cols)
}

/// The largest tile width and the largest tile height among the fonts of
/// the active consoles, or `(0, 0)` when there are none.
pub fn largest_active_font(tile_sizes: &Vec<(u32, u32)>) -> (m: (u32, u32))
    ensures
        forall|i: int| 0 <= i < tile_sizes@.len() ==> (#[trigger] tile_sizes@[i]).0 <= m.0 && tile_sizes@[i].1 <= m.1,
        m.0 == 0 || exists|i: int| 0 <= i < tile_sizes@.len() && (#[trigger] tile_sizes@[i]).0 == m.0,
        m.1 == 0 || exists|i: int| 0 <= i < tile_sizes@.len() && (#[trigger] tile_sizes@[i]).1 == m.1,
{
    let mut max_width: u32 = 0;
    let mut max_height: u32 = 0;
    let mut i: usize = 0;
    while i < tile_sizes.len()
        invariant
            i <= tile_sizes@.len(),
            forall|j: int| 0 <= j < i ==> (#[trigger] tile_sizes@[j]).0 <= max_width && tile_sizes@[j].1 <= max_height,
            max_width == 0 || exists|j: int| 0 <= j < i && (#[trigger] tile_sizes@[j]).0 == max_width,
            max_height == 0 || exists|j: int| 0 <= j < i && (#[trigger] tile_sizes@[j]).1 == max_height,
        decreases tile_sizes.len() - i,
    {
        let size = tile_sizes[i];
        if size.0 > max_width {
            max_width = size.0;
        }
        if size.1 > max_height {
            max_height = size.1;
        }
        i = i + 1;
    }
    (max_width, max_height)
}

/// The character grid of a console whose font tiles are `font` pixels, when
/// `available` pixels are free.
pub fn chars_for_font(available: (u32, u32), font: (u32, u32)) -> (chars: (u32, u32))
    requires
        font.0 > 0,
        font.1 > 0,
    ensures
        chars == (available.0 / font.0, available.1 / font.1),
{
    (available.0 / font.0, available.1 / font.1)
}

/// Screen scaling: the window's physical and logical sizes and the gutters
/// that frame the drawing area.
pub struct ScreenScaler {
    pub desired_gutter: u32,
    pub smooth_gutter_x: u32,
    pub smooth_gutter_y: u32,
    pub physical_size: (u32, u32),
    pub logical_size: (u32, u32),
    pub gutter_left: u32,
    pub gutter_right: u32,
    pub gutter_top: u32,
    pub gutter_bottom: u32,
    pub available_width: u32,
    pub available_height: u32,
    /// Set when the layout changes; read and cleared by
    /// [`ScreenScaler::get_resized_and_reset`].
    pub resized: bool,
}

/// How a gutter of `total` pixels plus a smoothing gutter of `smooth`
/// pixels splits between the two sides: each side gets half of each; an odd
/// smoothing pixel goes to the first side (left or top), an odd gutter pixel
/// to the second (right or bottom).
pub open spec fn split_first(total: int, smooth: int) -> int {
    total / 2 + (if smooth % 2 == 0 { smooth / 2 } else { smooth / 2 + 1 })
}

/// The second side's share; see [`split_first`].
pub open spec fn split_second(total: int, smooth: int) -> int {
    total / 2 + (if total % 2 == 0 { 0int } else { 1int }) + smooth / 2
}

impl ScreenScaler {
    /// Whether the gutters changed since the flag was last read.
    pub open spec fn resized_spec(&self) -> bool {
        self.resized
    }

    /// The gutters and available area match the sizes for a total gutter of
    /// `total` pixels.
    pub open spec fn laid_out(&self, total: int) -> bool {
        &&& self.gutter_left == split_first(total, self.smooth_gutter_x as int)
        &&& self.gutter_right == split_second(total, self.smooth_gutter_x as int)
        &&& self.gutter_top == split_first(total, self.smooth_gutter_y as int)
        &&& self.gutter_bottom == split_second(total, self.smooth_gutter_y as int)
        &&& self.available_width == self.physical_size.0 - total - self.smooth_gutter_x
        &&& self.available_height == self.physical_size.1 - total - self.smooth_gutter_y
    }

    /// A scaler with every size zero, flagged as resized.
    pub fn default() -> (s: ScreenScaler)
        ensures
            s.desired_gutter == 0,
            s.smooth_gutter_x == 0 && s.smooth_gutter_y == 0,
            s.physical_size == (0u32, 0u32),
            s.logical_size == (0u32, 0u32),
            s.gutter_left == 0 && s.gutter_right == 0,
            s.gutter_top == 0 && s.gutter_bottom == 0,
            s.available_width == 0 && s.available_height == 0,
            s.resized_spec(),
    {
        ScreenScaler {
            desired_gutter: 0,
            smooth_gutter_x: 0,
            smooth_gutter_y: 0,
            physical_size: (0, 0),
            logical_size: (0, 0),
            gutter_left: 0,
            gutter_right: 0,
            gutter_top: 0,
            gutter_bottom: 0,
            available_width: 0,
            available_height: 0,
            resized: true,
        }
    }

    /// A scaler for a window of the desired size, laid out for a total
    /// gutter of `total_gutter` pixels (the desired gutter scaled by the
    /// scale factor).
    pub fn new(desired_gutter: u32, desired_width: u32, desired_height: u32, total_gutter: u32) -> (s: ScreenScaler)
        requires
            total_gutter <= desired_width,
            total_gutter <= desired_height,
        ensures
            s.desired_gutter == desired_gutter,
            s.smooth_gutter_x == 0 && s.smooth_gutter_y == 0,
            s.physical_size == (desired_width, desired_height),
            s.logical_size == (desired_width, desired_height),
            s.laid_out(total_gutter as int),
            s.resized_spec(),
    {
        let mut result = ScreenScaler {
            desired_gutter,
            smooth_gutter_x: 0,
            smooth_gutter_y: 0,
            physical_size: (desired_width, desired_height),
            logical_size: (desired_width, desired_height),
            gutter_left: 0,
            gutter_right: 0,
            gutter_top: 0,
            gutter_bottom: 0,
            available_width: 0,
            available_height: 0,
            resized: true,
        };
        result.recalculate_coordinates(total_gutter);
        result
    }

    /// Makes the logical size the physical size and returns the window size:
    /// the physical size plus the desired gutter on each axis.
    pub fn new_window_size(&mut self) -> (size: (u32, u32))
        requires
            old(self).physical_size.0 + old(self).desired_gutter <= u32::MAX,
            old(self).physical_size.1 + old(self).desired_gutter <= u32::MAX,
        ensures
            final(self).logical_size == old(self).physical_size,
            size == ((old(self).physical_size.0 + old(self).desired_gutter) as u32, (old(self).physical_size.1
                + old(self).desired_gutter) as u32),
            final(self).physical_size == old(self).physical_size,
            final(self).desired_gutter == old(self).desired_gutter,
            final(self).smooth_gutter_x == old(self).smooth_gutter_x,
            final(self).smooth_gutter_y == old(self).smooth_gutter_y,
            final(self).gutter_left == old(self).gutter_left,
            final(self).gutter_right == old(self).gutter_right,
            final(self).gutter_top == old(self).gutter_top,
            final(self).gutter_bottom == old(self).gutter_bottom,
            final(self).available_width == old(self).available_width,
            final(self).available_height == old(self).available_height,
            final(self).resized_spec() == old(self).resized_spec(),
    {
        self.logical_size = self.physical_size;
        (self.physical_size.0 + self.desired_gutter, self.physical_size.1 + self.desired_gutter)
    }

    /// Sets the physical size directly and lays the gutters out again.
    pub fn change_physical_size(&mut self, width: u32, height: u32, total_gutter: u32)
        requires
            total_gutter + old(self).smooth_gutter_x <= width,
            total_gutter + old(self).smooth_gutter_y <= height,
        ensures
            final(self).physical_size == (width, height),
            final(self).laid_out(total_gutter as int),
            final(self).resized_spec(),
            final(self).desired_gutter == old(self).desired_gutter,
            final(self).smooth_gutter_x == old(self).smooth_gutter_x,
            final(self).smooth_gutter_y == old(self).smooth_gutter_y,
            final(self).logical_size == old(self).logical_size,
    {
        self.physical_size.0 = width;
        self.physical_size.1 = height;
        self.recalculate_coordinates(total_gutter);
    }

    /// Sets the physical size and chooses a smoothing gutter so that the
    /// drawing area keeps the aspect ratio in whole font tiles. `desired_y`
    /// is the height that matches `width` at the aspect ratio and
    /// `desired_x` the width that matches `height`. The height is rounded
    /// down to whole tiles; if it is below `height` the difference becomes
    /// the vertical smoothing gutter, otherwise the width is rounded down to
    /// whole tiles and the horizontal difference becomes the horizontal one.
    pub fn change_physical_size_smooth(
        &mut self,
        width: u32,
        height: u32,
        desired_y: u32,
        desired_x: u32,
        max_font: (u32, u32),
        total_gutter: u32,
    )
        requires
            max_font.1 > 0,
            desired_y - desired_y % max_font.1 >= height ==> max_font.0 > 0 && desired_x - desired_x
                % max_font.0 <= width,
            total_gutter + smooth_x_spec(width, height, desired_y, desired_x, max_font) <= width,
            total_gutter + smooth_y_spec(width, height, desired_y, desired_x, max_font) <= height,
        ensures
            final(self).physical_size == (width, height),
            final(self).smooth_gutter_x == smooth_x_spec(width, height, desired_y, desired_x, max_font),
            final(self).smooth_gutter_y == smooth_y_spec(width, height, desired_y, desired_x, max_font),
            final(self).smooth_gutter_x == 0 || final(self).smooth_gutter_y == 0,
            final(self).laid_out(total_gutter as int),
            final(self).resized_spec(),
            final(self).desired_gutter == old(self).desired_gutter,
            final(self).logical_size == old(self).logical_size,
    {
        self.physical_size.0 = width;
        self.physical_size.1 = height;
        self.smooth_gutter_x = 0;
        self.smooth_gutter_y = 0;
        let rounded_y = desired_y - desired_y % max_font.1;
        if rounded_y < height {
            self.smooth_gutter_y = height - rounded_y;
        } else {
            let rounded_x = desired_x - desired_x % max_font.0;
            self.smooth_gutter_x = width - rounded_x;
        }
        self.recalculate_coordinates(total_gutter);
    }

    /// Splits the gutters between the sides and works out the area left for
    /// drawing; see [`split_first`] and [`split_second`].
    pub fn recalculate_coordinates(&mut self, total_gutter: u32)
        requires
            total_gutter + old(self).smooth_gutter_x <= old(self).physical_size.0,
            total_gutter + old(self).smooth_gutter_y <= old(self).physical_size.1,
        ensures
            final(self).laid_out(total_gutter as int),
            final(self).resized_spec(),
            final(self).desired_gutter == old(self).desired_gutter,
            final(self).smooth_gutter_x == old(self).smooth_gutter_x,
            final(self).smooth_gutter_y == old(self).smooth_gutter_y,
            final(self).physical_size == old(self).physical_size,
            final(self).logical_size == old(self).logical_size,
    {
        let half_gutter = total_gutter / 2;
        let (extra_left, extra_right) = if self.smooth_gutter_x % 2 == 0 {
            (self.smooth_gutter_x / 2, self.smooth_gutter_x / 2)
        } else {
            ((self.smooth_gutter_x / 2) + 1, self.smooth_gutter_x / 2)
        };
        let (extra_top, extra_bottom) = if self.smooth_gutter_y % 2 == 0 {
            (self.smooth_gutter_y / 2, self.smooth_gutter_y / 2)
        } else {
            ((self.smooth_gutter_y / 2) + 1, self.smooth_gutter_y / 2)
        };
        if total_gutter % 2 == 0 {
            self.gutter_left = half_gutter + extra_left;
            self.gutter_right = half_gutter + extra_right;
            self.gutter_top = half_gutter + extra_top;
            self.gutter_bottom = half_gutter + extra_bottom;
        } else {
            self.gutter_left = half_gutter + extra_left;
            self.gutter_right = half_gutter + 1 + extra_right;
            self.gutter_top = half_gutter + extra_top;
            self.gutter_bottom = half_gutter + 1 + extra_bottom;
        }
        self.available_width = self.physical_size.0 - (total_gutter + extra_left + extra_right);
        self.available_height = self.physical_size.1 - (total_gutter + extra_top + extra_bottom);
        self.resized = true;
    }

    /// Returns whether the layout changed since the last call, and clears
    /// the flag.
    pub fn get_resized_and_reset(&mut self) -> (r: bool)
        ensures
            r == old(self).resized_spec(),
            !final(self).resized_spec(),
            final(self).desired_gutter == old(self).desired_gutter,
            final(self).smooth_gutter_x == old(self).smooth_gutter_x,
            final(self).smooth_gutter_y == old(self).smooth_gutter_y,
            final(self).physical_size == old(self).physical_size,
            final(self).logical_size == old(self).logical_size,
            final(self).gutter_left == old(self).gutter_left,
            final(self).gutter_right == old(self).gutter_right,
            final(self).gutter_top == old(self).gutter_top,
            final(self).gutter_bottom == old(self).gutter_bottom,
            final(self).available_width == old(self).available_width,
            final(self).available_height == old(self).available_height,
    {
        let result = self.resized;
        self.resized = false;
        result
    }
}

/// The horizontal smoothing gutter chosen by a smooth resize.
pub open spec fn smooth_x_spec(width: u32, height: u32, desired_y: u32, desired_x: u32, max_font: (u32, u32)) -> int {
    if desired_y - desired_y % max_font.1 < height {
        0
    } else {
        width - (desired_x - desired_x % max_font.0)
    }
}

/// The vertical smoothing gutter chosen by a smooth resize.
pub open spec fn smooth_y_spec(width: u32, height: u32, desired_y: u32, desired_x: u32, max_font: (u32, u32)) -> int {
    if desired_y - desired_y % max_font.1 < height {
        height - (desired_y - desired_y % max_font.1)
    } else {
        0
    }
}

/// Whether a smooth resize can lay its gutters out: the font has a height
/// (and a width, when the horizontal gutter is the one chosen), and the
/// gutters fit in the window.
pub fn smooth_inputs_ok(
    width: u32,
    height: u32,
    desired_y: u32,
    desired_x: u32,
    max_font: (u32, u32),
    total_gutter: u32,
) -> (b: bool)
    ensures
        b == (max_font.1 > 0 && (desired_y - desired_y % max_font.1 >= height ==> max_font.0 > 0 && desired_x
            - desired_x % max_font.0 <= width) && total_gutter + smooth_x_spec(width, height, desired_y, desired_x, max_font)
            <= width && total_gutter + smooth_y_spec(width, height, desired_y, desired_x, max_font) <= height),
{
    if max_font.1 == 0 {
        return false;
    }
    proof {
        vstd::arithmetic::div_mod::lemma_mod_decreases(desired_y as nat, max_font.1 as nat);
    }
    let rounded_y = desired_y - desired_y % max_font.1;
    if rounded_y < height {
        total_gutter <= width && (total_gutter as u64) + ((height - rounded_y) as u64) <= height as u64
    } else {
        if max_font.0 == 0 {
            return false;
        }
        proof {
            vstd::arithmetic::div_mod::lemma_mod_decreases(desired_x as nat, max_font.0 as nat);
        }
        let rounded_x = desired_x - desired_x % max_font.0;
        rounded_x <= width && total_gutter <= rounded_x && total_gutter <= height
    }
}

/// The gutters on both sides and the area between them add up to the
/// physical size, on each axis; the sides differ by at most one pixel.
pub proof fn lemma_gutters_partition(s: ScreenScaler, total: int)
    requires
        s.laid_out(total),
        total >= 0,
    ensures
        s.gutter_left + s.gutter_right + s.available_width == s.physical_size.0,
        s.gutter_top + s.gutter_bottom + s.available_height == s.physical_size.1,
        -1 <= s.gutter_left - s.gutter_right <= 1,
        -1 <= s.gutter_top - s.gutter_bottom <= 1,
{
}

} // verus!
