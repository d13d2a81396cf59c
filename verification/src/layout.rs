//! The button layer: ordered button definitions and the exact render layout.
//!
//! Rendering itself (rotation, rectangle fills, label text) happens outside
//! the library in the rasterizer; this module computes everything the painter
//! needs as exact values: each button's rectangle as scaled integers over a
//! common denominator, and its grayscale shade in thousandths.

use crate::geometry::{denom, left_num, width_num, DFR_HEIGHT, DFR_WIDTH};
use vstd::prelude::*;
use vstd::string::StringExecFns;

verus! {

/// Inactive button fill, grayscale in thousandths (0.267).
pub const BUTTON_SHADE_INACTIVE_PM: u32 = 267;

/// Active (pressed) button fill, grayscale in thousandths (0.567).
pub const BUTTON_SHADE_ACTIVE_PM: u32 = 567;

/// One virtual function key: a label and the logical key code it emits.
pub struct Button {
    pub text: String,
    pub action: u16,
}

/// The ordered row of buttons, left to right.
pub struct FunctionLayer {
    pub buttons: Vec<Button>,
}

impl FunctionLayer {
    /// A layer is well formed when it has at least one button and few enough
    /// that the scaled layout arithmetic fits machine words.
    pub open spec fn wf(&self) -> bool {
        1 <= self.buttons@.len() <= 4096
    }

    /// The key codes of the buttons, in row order.
    pub open spec fn actions(&self) -> Seq<u16> {
        self.buttons@.map_values(|b: Button| b.action)
    }

    pub fn num_buttons(&self) -> (r: usize)
        ensures
            r == self.buttons@.len(),
    {
        self.buttons.len()
    }
}

/// Grayscale shade of a button fill, in thousandths: the active or inactive
/// base shade scaled by the brightness multiplier (also in thousandths).
pub open spec fn shade_spec(active: bool, brightness_pm: int) -> int {
    (if active {
        BUTTON_SHADE_ACTIVE_PM as int
    } else {
        BUTTON_SHADE_INACTIVE_PM as int
    }) * brightness_pm / 1000
}

/// Computes the shade of one button fill.
pub fn shade_pm(active: bool, brightness_pm: u32) -> (r: u32)
    requires
        brightness_pm <= 1000,
    ensures
        r == shade_spec(active, brightness_pm as int),
        r <= BUTTON_SHADE_ACTIVE_PM,
{
    let base: u32 = if active {
        BUTTON_SHADE_ACTIVE_PM
    } else {
        BUTTON_SHADE_INACTIVE_PM
    };
    proof {
        assert(base * brightness_pm <= 567000) by (nonlinear_arith)
            requires
                base <= 567,
                brightness_pm <= 1000,
        ;
        assert(base * brightness_pm / 1000 <= 567) by (nonlinear_arith)
            requires
                base * brightness_pm <= 567000,
        ;
    }
    base * brightness_pm / 1000
}

/// One rectangle of the paint plan. The horizontal extent is exact:
/// `left_num / x_denom` to `(left_num + width_num) / x_denom` in row
/// coordinates. The vertical extent is `top_num / y_denom` with height
/// `height_num / y_denom` (the drawn band, 9% to 91% of the thickness).
pub struct PaintRect {
    pub left_num: u64,
    pub width_num: u64,
    pub x_denom: u64,
    pub top_num: u64,
    pub height_num: u64,
    pub y_denom: u64,
    pub shade_pm: u32,
}

/// The rectangle for button `i` of `n` is exactly placed and exactly shaded.
pub open spec fn rect_ok(n: int, active: Seq<bool>, brightness_pm: int, rect: PaintRect, i: int) -> bool {
    &&& rect.left_num == left_num(DFR_WIDTH as int, n, i)
    &&& rect.width_num == width_num(DFR_WIDTH as int, n)
    &&& rect.x_denom == denom(n)
    &&& rect.top_num == 9 * (DFR_HEIGHT as int)
    &&& rect.height_num == 82 * (DFR_HEIGHT as int)
    &&& rect.y_denom == 100
    &&& rect.shade_pm == shade_spec(active[i], brightness_pm)
}

impl FunctionLayer {
    /// The full repaint plan for the row: one exactly placed rectangle per
    /// button, shaded by its active state and the brightness multiplier.
    /// The background behind them is painted solid black first; labels are
    /// drawn centered by the rasterizer, which alone can measure text.
    pub fn paint_plan(&self, active: &Vec<bool>, brightness_pm: u32) -> (r: Vec<PaintRect>)
        requires
            self.wf(),
            active@.len() == self.buttons@.len(),
            brightness_pm <= 1000,
        ensures
            r@.len() == self.buttons@.len(),
            forall|i: int|
                0 <= i < r@.len() ==> rect_ok(
                    self.buttons@.len() as int,
                    active@,
                    brightness_pm as int,
                    #[trigger] r@[i],
                    i,
                ),
    {
        let n = self.buttons.len();
        let nw = n as u64;
        let w = DFR_WIDTH as u64;
        proof {
            assert((nw + 1) * (nw + 1) <= 4097u64 * 4097) by (nonlinear_arith)
                requires
                    nw <= 4096,
            ;
        }
        let d: u64 = (nw + 1) * (nw + 1);
        let wn: u64 = w * (nw + 1);
        let mut r: Vec<PaintRect> = Vec::new();
        let mut i: usize = 0;
        while i < n
            invariant
                i <= n,
                n == self.buttons@.len(),
                1 <= n <= 4096,
                nw == n as u64,
                w == DFR_WIDTH as u64,
                d == denom(n as int),
                wn == width_num(DFR_WIDTH as int, n as int),
                active@.len() == n,
                brightness_pm <= 1000,
                r@.len() == i,
                forall|k: int|
                    0 <= k < i ==> rect_ok(
                        n as int,
                        active@,
                        brightness_pm as int,
                        #[trigger] r@[k],
                        k,
                    ),
            decreases n - i,
        {
            let iw = i as u64;
            proof {
                assert(iw * (nw + 2) <= 4096u64 * 4098) by (nonlinear_arith)
                    requires
                        iw <= 4096,
                        nw <= 4096,
                ;
            }
            let left: u64 = w * (iw * (nw + 2) + 1);
            let shade = shade_pm(active[i], brightness_pm);
            let rect = PaintRect {
                left_num: left,
                width_num: wn,
                x_denom: d,
                top_num: 9 * (DFR_HEIGHT as u64),
                height_num: 82 * (DFR_HEIGHT as u64),
                y_denom: 100,
                shade_pm: shade,
            };
            r.push(rect);
            i = i + 1;
        }
        r
    }
}

/// The stock layer: the twelve classic function keys F1 through F12, with
/// their Linux key codes.
pub fn default_layer() -> (r: FunctionLayer)
    ensures
        r.wf(),
        r.buttons@.len() == 12,
        r.actions() =~= seq![59u16, 60, 61, 62, 63, 64, 65, 66, 67, 68, 87, 88],
        r.buttons@[0].text@ == "F1"@,
        r.buttons@[1].text@ == "F2"@,
        r.buttons@[2].text@ == "F3"@,
        r.buttons@[3].text@ == "F4"@,
        r.buttons@[4].text@ == "F5"@,
        r.buttons@[5].text@ == "F6"@,
        r.buttons@[6].text@ == "F7"@,
        r.buttons@[7].text@ == "F8"@,
        r.buttons@[8].text@ == "F9"@,
        r.buttons@[9].text@ == "F10"@,
        r.buttons@[10].text@ == "F11"@,
        r.buttons@[11].text@ == "F12"@,
{
    let mut buttons: Vec<Button> = Vec::new();
    buttons.push(Button { text: String::from_str("F1"), action: 59 });
    buttons.push(Button { text: String::from_str("F2"), action: 60 });
    buttons.push(Button { text: String::from_str("F3"), action: 61 });
    buttons.push(Button { text: String::from_str("F4"), action: 62 });
    buttons.push(Button { text: String::from_str("F5"), action: 63 });
    buttons.push(Button { text: String::from_str("F6"), action: 64 });
    buttons.push(Button { text: String::from_str("F7"), action: 65 });
    buttons.push(Button { text: String::from_str("F8"), action: 66 });
    buttons.push(Button { text: String::from_str("F9"), action: 67 });
    buttons.push(Button { text: String::from_str("F10"), action: 68 });
    buttons.push(Button { text: String::from_str("F11"), action: 87 });
    buttons.push(Button { text: String::from_str("F12"), action: 88 });
    let r = FunctionLayer { buttons };
    proof {
        assert(r.actions() =~= seq![59u16, 60, 61, 62, 63, 64, 65, 66, 67, 68, 87, 88]);
    }
    r
}

} // verus!
