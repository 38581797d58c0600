use vstd::prelude::*;

verus! {

/// Width on screen of the playfield with its frame: two columns per square plus the
/// two side lines.
pub const BOARD_W: u16 = 22;

/// Height on screen of the playfield with its frame.
pub const BOARD_H: u16 = 22;

/// Width of the panel right of the playfield.
pub const PANEL_R: u16 = 14;

/// Width of the panel left of the playfield.
pub const PANEL_L: u16 = 10;

/// Smallest terminal width that the game draws in.
pub const MIN_TERM_W: u16 = 52;

/// Smallest terminal height that the game draws in.
pub const MIN_TERM_H: u16 = 24;

/// `a - b`, or 0 where that is negative.
pub open spec fn sat_sub(a: int, b: int) -> int {
    if a >= b {
        a - b
    } else {
        0
    }
}

/// Screen column and row of the playfield's top-left square in a terminal of `tw`
/// columns and `th` rows.
pub open spec fn origin(tw: int, th: int) -> (int, int) {
    (sat_sub(tw, (PANEL_L + BOARD_W + PANEL_R) as int) / 2 + PANEL_L, sat_sub(th, BOARD_H + 6) / 2 + 1)
}

/// Screen column and row of the playfield's top-left square in a terminal of
/// `tw` columns and `th` rows: the panels and the playfield are centred across the
/// width, and the playfield with room for the controls below it is centred down the
/// height, one row lower.
pub fn board_origin(tw: u16, th: u16) -> (res: (u16, u16))
    ensures
        res.0 == sat_sub(tw as int, (PANEL_L + BOARD_W + PANEL_R) as int) / 2 + PANEL_L,
        res.1 == sat_sub(th as int, BOARD_H + 6) / 2 + 1,
        (res.0 as int, res.1 as int) == origin(tw as int, th as int),
{
    let total_w = PANEL_L + BOARD_W + PANEL_R;
    let bc = tw.saturating_sub(total_w) / 2 + PANEL_L;
    let br = th.saturating_sub(BOARD_H + 6) / 2 + 1;
    (bc, br)
}

/// Whether a terminal of `tw` columns and `th` rows is large enough to draw in.
pub fn terminal_large_enough(tw: u16, th: u16) -> (res: bool)
    ensures
        res == (tw >= MIN_TERM_W && th >= MIN_TERM_H),
{
    !(tw < MIN_TERM_W || th < MIN_TERM_H)
}

/// Rows that the controls legend takes below the playfield.
pub const CONTROLS_H: u16 = 4;

/// The controls legend, which starts two rows below the playfield, fits in a terminal of
/// `th` rows.
pub open spec fn controls_fit_spec(tw: int, th: int) -> bool {
    origin(tw, th).1 + 22 + CONTROLS_H <= th
}

/// Whether the controls legend fits below the playfield; in a shorter terminal it is
/// left out.
pub fn controls_fit(tw: u16, th: u16) -> (res: bool)
    ensures
        res == controls_fit_spec(tw as int, th as int),
{
    let (_bc, br) = board_origin(tw, th);
    (br as u32) + 22 + (CONTROLS_H as u32) <= th as u32
}

/// Law of the layout: in every terminal that is large enough, everything that is
/// drawn lies on the screen. With `(bc, br)` the playfield's top-left square:
/// - the frame (column `bc - 1` to `bc + 20`, row `br - 1` to `br + 20`) and the title
///   above it;
/// - the hold panel, from column `bc - 10`, eight columns wide, rows `br` to `br + 4`;
/// - the right panel, from column `bc + 23`, fourteen columns wide, rows `br + 2` to
///   `br + 17`;
/// - the pause and game-over messages inside the playfield;
/// - the controls legend, rows `br + 22` to `br + 25`, columns `bc` to `bc + 23`,
///   whenever it is drawn.
pub proof fn lemma_layout_fits(tw: int, th: int)
    requires
        MIN_TERM_W <= tw <= u16::MAX,
        MIN_TERM_H <= th <= u16::MAX,
    ensures
        ({
            let (bc, br) = origin(tw, th);
            &&& bc - 10 >= 0
            &&& br - 1 >= 0
            &&& br + 20 <= th - 1
            &&& bc + 23 + PANEL_R <= tw
            &&& (controls_fit_spec(tw, th) ==> br + 25 <= th - 1 && bc + 24 <= tw)
        }),
{
}

} // verus!
