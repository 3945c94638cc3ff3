//! Labels for the distance and the bearing between two positions. The position
//! arithmetic is done in floating point elsewhere; here are the whole numbers
//! that it comes to.
use vstd::prelude::*;
use vstd::string::*;

use crate::text::{dec, push_dec};

verus! {

/// A distance: how it compares with one and with ten kilometers, and how many
/// whole meters, hundreds of meters and kilometers it is.
#[derive(Clone, Copy)]
pub struct Distance {
    pub below_km: bool,
    pub below_ten_km: bool,
    pub meters: u32,
    pub hectometers: u32,
    pub kilometers: u32,
}

/// Meters below a kilometer, kilometers with one digit behind the point below
/// ten, and whole kilometers above.
pub open spec fn distance_text(d: Distance) -> Seq<char> {
    if d.below_km {
        dec(d.meters as int) + "m"@
    } else if d.below_ten_km {
        dec(d.kilometers as int) + "."@ + dec(d.hectometers as int % 10) + "km"@
    } else {
        dec(d.kilometers as int) + "km"@
    }
}

/// The label of a distance.
pub fn distance_label(d: Distance) -> (r: String)
    ensures
        r@ == distance_text(d),
{
    let mut out: String = String::new();
    if d.below_km {
        push_dec(&mut out, d.meters as u64);
        out.append("m");
    } else if d.below_ten_km {
        push_dec(&mut out, d.kilometers as u64);
        out.append(".");
        push_dec(&mut out, (d.hectometers % 10) as u64);
        out.append("km");
    } else {
        push_dec(&mut out, d.kilometers as u64);
        out.append("km");
    }
    assert(out@ =~= distance_text(d));
    out
}

/// The eight points of the compass, clockwise from north.
pub open spec fn compass_point(sector: int) -> Seq<char> {
    if sector == 0 {
        "N"@
    } else if sector == 1 {
        "NE"@
    } else if sector == 2 {
        "E"@
    } else if sector == 3 {
        "SE"@
    } else if sector == 4 {
        "S"@
    } else if sector == 5 {
        "SW"@
    } else if sector == 6 {
        "W"@
    } else {
        "NW"@
    }
}

/// The point of the compass for a bearing, given in eighths of a turn from the
/// one that is centered on north.
pub fn compass8(eighths: usize) -> (r: &'static str)
    ensures
        r@ == compass_point(eighths as int % 8),
{
    let sector: usize = eighths % 8;
    if sector == 0 {
        "N"
    } else if sector == 1 {
        "NE"
    } else if sector == 2 {
        "E"
    } else if sector == 3 {
        "SE"
    } else if sector == 4 {
        "S"
    } else if sector == 5 {
        "SW"
    } else if sector == 6 {
        "W"
    } else {
        "NW"
    }
}

/// A distance is told in meters below a kilometer, in kilometers with one digit
/// behind the point below ten, and in whole kilometers from there on.
pub proof fn law_distance_is_told(d: Distance)
    ensures
        d.below_km ==> distance_text(d) == dec(d.meters as int) + "m"@,
        !d.below_km && d.below_ten_km ==> distance_text(d) == dec(d.kilometers as int) + "."@
            + dec(d.hectometers as int % 10) + "km"@,
        !d.below_km && !d.below_ten_km ==> distance_text(d) == dec(d.kilometers as int) + "km"@,
{
}

/// The eight points of the compass follow one another clockwise from north, an
/// eighth of a turn apart: opposite points are four eighths apart, and those
/// between two of the four main ones are named after both.
pub proof fn law_points_of_the_compass(eighth: int)
    requires
        0 <= eighth < 8,
    ensures
        compass_point(0) == "N"@,
        compass_point(2) == "E"@,
        compass_point(4) == "S"@,
        compass_point(6) == "W"@,
        eighth % 2 == 1 ==> compass_point(eighth) == if eighth == 1 || eighth == 7 {
            "N"@
        } else {
            "S"@
        } + if eighth < 4 {
            "E"@
        } else {
            "W"@
        },
{
    reveal_strlit("N");
    reveal_strlit("E");
    reveal_strlit("S");
    reveal_strlit("W");
    reveal_strlit("NE");
    reveal_strlit("SE");
    reveal_strlit("SW");
    reveal_strlit("NW");
    assert("NE"@ =~= "N"@ + "E"@);
    assert("SE"@ =~= "S"@ + "E"@);
    assert("SW"@ =~= "S"@ + "W"@);
    assert("NW"@ =~= "N"@ + "W"@);
}

} // verus!
