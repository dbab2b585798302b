//! The built-in game setup: the layout strings a game starts from when the
//! surrounding platform supplies none of its own, and which side sits at the
//! bottom of the screen.

use vstd::prelude::*;

verus! {

/// The built-in piece layout: a standard eight-by-eight game, read bottom
/// to top.
pub fn get_pieces_string() -> (r: String)
    ensures
        r@ == "r___k__r\npppppppp\n________\n________\n________\n________\nPPPPPPPP\nR___K__R"@,
{
    "r___k__r\npppppppp\n________\n________\n________\n________\nPPPPPPPP\nR___K__R".to_owned()
}

/// The built-in promotion layout: White promotes on the top rank, Black on
/// the bottom one.
pub fn get_promotions_string() -> (r: String)
    ensures
        r@ == "WWWWWWWW\n________\n________\n________\n________\n________\n________\nbbbbbbbb"@,
{
    "WWWWWWWW\n________\n________\n________\n________\n________\n________\nbbbbbbbb".to_owned()
}

/// Which side the display puts at the bottom.
pub fn get_bottom_side() -> (r: String)
    ensures
        r@ == "white"@,
{
    "white".to_owned()
}

} // verus!
