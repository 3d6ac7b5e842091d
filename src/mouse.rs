use vstd::prelude::*;
use crate::display::DisplayInfo;
use crate::report::{mouse_report, mouse_report_bytes};

verus! {

/// Span of the device's absolute coordinates: positions run over
/// `0..COORDINATE_RANGE` on each axis, whatever the screens' resolution.
pub const COORDINATE_RANGE: u128 = 32768;

/// A mouse button.
#[derive(Debug, Clone, Copy, PartialEq, Eq, Structural)]
pub enum MouseButton {
    Left,
    Right,
    Middle,
}

/// Bit of a button in the report's button byte.
pub open spec fn button_bit(b: MouseButton) -> u8 {
    match b {
        MouseButton::Left => 1,
        MouseButton::Right => 2,
        MouseButton::Middle => 4,
    }
}

/// What a mouse click is.
pub struct MouseClickModel {
    pub buttons: u8,
    pub x: u16,
    pub y: u16,
    pub wheel_position: u8,
    pub display_index: Option<usize>,
}

/// A mouse event: buttons held, a pixel position on one display, and the
/// wheel position. Without a display index, or with one that names no
/// display, the position is on the primary display.
#[derive(Debug, Clone, Copy, PartialEq, Eq)]
pub struct MouseClick {
    buttons: u8,
    x: u16,
    y: u16,
    wheel_position: u8,
    display_index: Option<usize>,
}

impl View for MouseClick {
    type V = MouseClickModel;

    closed spec fn view(&self) -> MouseClickModel {
        MouseClickModel {
            buttons: self.buttons,
            x: self.x,
            y: self.y,
            wheel_position: self.wheel_position,
            display_index: self.display_index,
        }
    }
}

impl MouseClick {
    /// No button, position (0, 0), wheel at 0, on the primary display.
    pub fn new() -> (r: MouseClick)
        ensures
            r@ == (MouseClickModel {
                buttons: 0,
                x: 0,
                y: 0,
                wheel_position: 0,
                display_index: None,
            }),
    {
        MouseClick { buttons: 0, x: 0, y: 0, wheel_position: 0, display_index: None }
    }

    /// Moves the click to pixel (`x`, `y`) of its display.
    pub fn set_position(self, x: u16, y: u16) -> (r: MouseClick)
        ensures
            r@ == (MouseClickModel { x, y, ..self@ }),
    {
        MouseClick { x, y, ..self }
    }

    /// Adds a button to those held; buttons held already stay held.
    pub fn set_button(self, button: MouseButton) -> (r: MouseClick)
        ensures
            r@ == (MouseClickModel { buttons: self@.buttons | button_bit(button), ..self@ }),
    {
        let bit: u8 = match button {
            MouseButton::Left => 1,
            MouseButton::Right => 2,
            MouseButton::Middle => 4,
        };
        MouseClick { buttons: self.buttons | bit, ..self }
    }

    /// Sets the wheel position.
    pub fn set_wheel_position(self, wheel_position: u8) -> (r: MouseClick)
        ensures
            r@ == (MouseClickModel { wheel_position, ..self@ }),
    {
        MouseClick { wheel_position, ..self }
    }

    /// Places the click on the display at `display_index`.
    pub fn set_display_index(self, display_index: usize) -> (r: MouseClick)
        ensures
            r@ == (MouseClickModel { display_index: Some(display_index), ..self@ }),
    {
        MouseClick { display_index: Some(display_index), ..self }
    }

    /// The buttons held, one bit each.
    pub fn buttons(&self) -> (r: u8)
        ensures
            r == self@.buttons,
    {
        self.buttons
    }

    /// Pixel X on the click's display.
    pub fn x(&self) -> (r: u16)
        ensures
            r == self@.x,
    {
        self.x
    }

    /// Pixel Y on the click's display.
    pub fn y(&self) -> (r: u16)
        ensures
            r == self@.y,
    {
        self.y
    }

    /// The wheel position.
    pub fn wheel_position(&self) -> (r: u8)
        ensures
            r == self@.wheel_position,
    {
        self.wheel_position
    }

    /// The display the click names, if any.
    pub fn display_index(&self) -> (r: Option<usize>)
        ensures
            r == self@.display_index,
    {
        self.display_index
    }
}

/// Where the cursor is: a display and a pixel position on it.
#[derive(Debug, Clone, Copy, PartialEq, Eq, Structural)]
pub struct MousePosition {
    pub display_index: usize,
    pub x: u16,
    pub y: u16,
}

/// Why a set of displays cannot be mapped onto device coordinates.
#[derive(Debug, Clone, Copy, PartialEq, Eq, Structural)]
pub enum LayoutError {
    /// There is no display at all.
    NoDisplays,
    /// No display is marked primary.
    NoPrimaryDisplay,
    /// The displays' widths add up to zero.
    ZeroWidth,
    /// The first display has no height.
    ZeroHeight,
}

/// Sum of the widths of all displays.
pub open spec fn total_width(ds: Seq<DisplayInfo>) -> nat
    decreases ds.len(),
{
    if ds.len() == 0 {
        0
    } else {
        total_width(ds.drop_last()) + ds.last().width as nat
    }
}

/// Sum of the widths of the displays whose right edge lies strictly left of
/// `right`.
pub open spec fn width_left_of(ds: Seq<DisplayInfo>, right: i32) -> nat
    decreases ds.len(),
{
    if ds.len() == 0 {
        0
    } else {
        width_left_of(ds.drop_last(), right) + if ds.last().position.right < right {
            ds.last().width as nat
        } else {
            0
        }
    }
}

/// Sum of the heights of the displays whose top edge lies strictly above
/// `top`.
pub open spec fn height_above(ds: Seq<DisplayInfo>, top: i32) -> nat
    decreases ds.len(),
{
    if ds.len() == 0 {
        0
    } else {
        height_above(ds.drop_last(), top) + if ds.last().position.top < top {
            ds.last().height as nat
        } else {
            0
        }
    }
}

/// `i` is the first display marked primary.
pub open spec fn is_first_primary(ds: Seq<DisplayInfo>, i: int) -> bool {
    &&& 0 <= i < ds.len()
    &&& ds[i].primary
    &&& forall|j: int| 0 <= j < i ==> !(#[trigger] ds[j]).primary
}

/// `pixels` out of `span` pixels, scaled to device units and rounded to the
/// nearest (halves up), at most `u16::MAX`.
pub open spec fn to_device(pixels: int, span: int) -> u16 {
    let v = (pixels * COORDINATE_RANGE + span / 2) / span;
    if v > u16::MAX {
        u16::MAX
    } else {
        v as u16
    }
}

/// The display `gx` falls on: between its left and right edges, both
/// included.
pub open spec fn covers(d: DisplayInfo, gx: i32) -> bool {
    d.position.left <= gx <= d.position.right
}

/// Maps pixel positions on a row of displays onto the device's absolute
/// coordinates and back. The displays are taken to stand side by side in one
/// row and to share the first display's height.
pub struct CoordinateMapper {
    displays: Vec<DisplayInfo>,
    primary: usize,
    total_width: u128,
}

impl CoordinateMapper {
    #[verifier::type_invariant]
    spec fn inv(self) -> bool {
        &&& is_first_primary(self.displays@, self.primary as int)
        &&& self.total_width == total_width(self.displays@)
        &&& self.total_width > 0
        &&& self.displays@[0].height > 0
    }

    /// The displays, in enumeration order.
    pub closed spec fn displays_spec(self) -> Seq<DisplayInfo> {
        self.displays@
    }

    /// Index of the primary display.
    pub closed spec fn primary_spec(self) -> int {
        self.primary as int
    }

    /// The display a click goes to: the one it names, or the primary one
    /// when it names none or one out of range.
    pub open spec fn target_spec(self, requested: Option<usize>) -> int {
        match requested {
            Some(i) if (i as int) < self.displays_spec().len() => i as int,
            _ => self.primary_spec(),
        }
    }

    /// Device X of a click: its pixel X plus the widths of the displays to
    /// the left of its display, scaled over the total width.
    pub open spec fn device_x(self, c: MouseClickModel) -> u16 {
        let ds = self.displays_spec();
        let d = ds[self.target_spec(c.display_index)];
        to_device(c.x + width_left_of(ds, d.position.right), total_width(ds) as int)
    }

    /// Device Y of a click: its pixel Y plus the heights of the displays
    /// above its display, scaled over the first display's height.
    pub open spec fn device_y(self, c: MouseClickModel) -> u16 {
        let ds = self.displays_spec();
        let d = ds[self.target_spec(c.display_index)];
        to_device(c.y + height_above(ds, d.position.top), ds[0].height as int)
    }

    /// A mapper for `displays`, in their enumeration order. Fails when there
    /// is no display, none is primary, the widths add up to zero or the
    /// first display has no height, in that order of checking.
    pub fn new(displays: Vec<DisplayInfo>) -> (r: Result<CoordinateMapper, LayoutError>)
        ensures
            displays@.len() == 0 ==> r == Err::<CoordinateMapper, LayoutError>(
                LayoutError::NoDisplays,
            ),
            displays@.len() > 0 && (forall|i: int|
                0 <= i < displays@.len() ==> !(#[trigger] displays@[i]).primary) ==> r == Err::<
                CoordinateMapper,
                LayoutError,
            >(LayoutError::NoPrimaryDisplay),
            (exists|i: int| 0 <= i < displays@.len() && (#[trigger] displays@[i]).primary)
                && total_width(displays@) == 0 ==> r == Err::<CoordinateMapper, LayoutError>(
                LayoutError::ZeroWidth,
            ),
            (exists|i: int| 0 <= i < displays@.len() && (#[trigger] displays@[i]).primary)
                && total_width(displays@) > 0 && displays@[0].height == 0 ==> r == Err::<
                CoordinateMapper,
                LayoutError,
            >(LayoutError::ZeroHeight),
            (exists|i: int| 0 <= i < displays@.len() && (#[trigger] displays@[i]).primary)
                && total_width(displays@) > 0 && displays@[0].height > 0 ==> r is Ok,
            r matches Ok(m) ==> {
                &&& m.displays_spec() == displays@
                &&& is_first_primary(displays@, m.primary_spec())
                &&& total_width(displays@) > 0
                &&& displays@[0].height > 0
            },
    {
        if displays.len() == 0 {
            return Err(LayoutError::NoDisplays);
        }
        let mut primary: Option<usize> = None;
        let mut width: u128 = 0;
        let mut i: usize = 0;
        while i < displays.len()
            invariant
                i <= displays@.len(),
                width == total_width(displays@.take(i as int)),
                width <= i * 65535,
                match primary {
                    Some(p) => is_first_primary(displays@, p as int) && p < i,
                    None => forall|j: int| 0 <= j < i ==> !(#[trigger] displays@[j]).primary,
                },
            decreases displays@.len() - i,
        {
            assert(displays@.take(i + 1).drop_last() =~= displays@.take(i as int));
            if primary.is_none() && displays[i].primary {
                primary = Some(i);
            }
            width = width + displays[i].width as u128;
            i = i + 1;
        }
        assert(displays@.take(i as int) =~= displays@);
        match primary {
            None => Err(LayoutError::NoPrimaryDisplay),
            Some(p) => {
                if width == 0 {
                    Err(LayoutError::ZeroWidth)
                } else if displays[0].height == 0 {
                    Err(LayoutError::ZeroHeight)
                } else {
                    Ok(CoordinateMapper { displays, primary: p, total_width: width })
                }
            },
        }
    }

    /// The displays, in enumeration order.
    pub fn displays(&self) -> (r: &Vec<DisplayInfo>)
        ensures
            r@ == self.displays_spec(),
    {
        &self.displays
    }

    /// Index of the primary display: the first one marked primary.
    pub fn primary_index(&self) -> (r: usize)
        ensures
            r == self.primary_spec(),
            is_first_primary(self.displays_spec(), r as int),
    {
        proof {
            use_type_invariant(self);
        }
        self.primary
    }

    fn target(&self, requested: Option<usize>) -> (r: usize)
        ensures
            r == self.target_spec(requested),
            r < self.displays_spec().len(),
    {
        proof {
            use_type_invariant(self);
        }
        match requested {
            Some(i) if i < self.displays.len() => i,
            _ => self.primary,
        }
    }

    /// The device coordinates of a click, as `(x, y)`.
    pub fn device_position(&self, click: &MouseClick) -> (r: (u16, u16))
        ensures
            r == (self.device_x(click@), self.device_y(click@)),
    {
        proof {
            use_type_invariant(self);
        }
        let t = self.target(click.display_index());
        let right = self.displays[t].position.right;
        let top = self.displays[t].position.top;
        let mut left_width: u128 = 0;
        let mut upper_height: u128 = 0;
        let mut i: usize = 0;
        while i < self.displays.len()
            invariant
                i <= self.displays@.len(),
                left_width == width_left_of(self.displays@.take(i as int), right),
                upper_height == height_above(self.displays@.take(i as int), top),
                left_width <= i * 65535,
                upper_height <= i * 65535,
            decreases self.displays@.len() - i,
        {
            assert(self.displays@.take(i + 1).drop_last() =~= self.displays@.take(i as int));
            let d = &self.displays[i];
            if d.position.right < right {
                left_width = left_width + d.width as u128;
            }
            if d.position.top < top {
                upper_height = upper_height + d.height as u128;
            }
            i = i + 1;
        }
        assert(self.displays@.take(i as int) =~= self.displays@);
        let x = scale(click.x() as u128 + left_width, self.total_width);
        let y = scale(click.y() as u128 + upper_height, self.displays[0].height as u128);
        (x, y)
    }

    /// The report that moves the pointer to a click's position with its
    /// buttons and wheel.
    pub fn report(&self, click: &MouseClick) -> (r: Vec<u8>)
        ensures
            r@ == mouse_report_bytes(
                click@.buttons,
                self.device_x(click@),
                self.device_y(click@),
                click@.wheel_position,
            ),
    {
        let (x, y) = self.device_position(click);
        mouse_report(click.buttons(), x, y, click.wheel_position())
    }

    /// The display under global cursor position (`global_x`, `global_y`):
    /// the first whose horizontal extent holds `global_x`, with X taken from
    /// its left edge and Y as it stands (the displays share one row).
    /// `None` when no display holds `global_x`.
    pub fn locate(&self, global_x: i32, global_y: i32) -> (r: Option<MousePosition>)
        ensures
            r is None ==> forall|i: int|
                0 <= i < self.displays_spec().len() ==> !covers(
                    #[trigger] self.displays_spec()[i],
                    global_x,
                ),
            r matches Some(p) ==> {
                let ds = self.displays_spec();
                &&& p.display_index < ds.len()
                &&& covers(ds[p.display_index as int], global_x)
                &&& forall|j: int| 0 <= j < p.display_index ==> !covers(#[trigger] ds[j], global_x)
                &&& p.x == (global_x - ds[p.display_index as int].position.left) as u16
                &&& p.y == global_y as u16
            },
    {
        let mut i: usize = 0;
        while i < self.displays.len()
            invariant
                i <= self.displays@.len(),
                forall|j: int| 0 <= j < i ==> !covers(#[trigger] self.displays@[j], global_x),
            decreases self.displays@.len() - i,
        {
            let left = self.displays[i].position.left;
            if left <= global_x && global_x <= self.displays[i].position.right {
                let offset = (global_x as i64 - left as i64) as u16;
                return Some(MousePosition { display_index: i, x: offset, y: global_y as u16 });
            }
            i = i + 1;
        }
        None
    }
}

/// `pixels` out of `span` in device units, rounded halves up, at most
/// `u16::MAX`.
fn scale(pixels: u128, span: u128) -> (r: u16)
    requires
        span > 0,
        pixels < 0x1_0000_0000_0000_0000_0000_0000,
    ensures
        r == to_device(pixels as int, span as int),
{
    assert(pixels * COORDINATE_RANGE < 0x1_0000_0000_0000_0000_0000_0000_0000) by (nonlinear_arith)
        requires
            pixels < 0x1_0000_0000_0000_0000_0000_0000,
    ;
    let v = (pixels * COORDINATE_RANGE + span / 2) / span;
    if v > u16::MAX as u128 {
        u16::MAX
    } else {
        v as u16
    }
}

/// Device coordinates grow with pixel coordinates: of two pixel counts on
/// one axis, the larger never maps below the smaller.
pub proof fn lemma_to_device_monotonic(p1: int, p2: int, span: int)
    requires
        0 <= p1 <= p2,
        span > 0,
    ensures
        to_device(p1, span) <= to_device(p2, span),
{
    let a = p1 * COORDINATE_RANGE + span / 2;
    let b = p2 * COORDINATE_RANGE + span / 2;
    assert(a <= b) by (nonlinear_arith)
        requires
            p1 <= p2,
            a == p1 * COORDINATE_RANGE + span / 2,
            b == p2 * COORDINATE_RANGE + span / 2,
    ;
    vstd::arithmetic::div_mod::lemma_div_is_ordered(a, b, span);
}

/// Moving a click right on its display never moves the device X left.
pub proof fn lemma_device_x_monotonic(m: CoordinateMapper, c1: MouseClickModel, c2: MouseClickModel)
    requires
        c1.display_index == c2.display_index,
        c1.x <= c2.x,
        total_width(m.displays_spec()) > 0,
    ensures
        m.device_x(c1) <= m.device_x(c2),
{
    let ds = m.displays_spec();
    let d = ds[m.target_spec(c1.display_index)];
    let off = width_left_of(ds, d.position.right);
    lemma_to_device_monotonic(c1.x + off, c2.x + off, total_width(ds) as int);
}

} // verus!
