//! Pure helpers around the map: the link to the map viewer at a position.
use vstd::prelude::*;
use vstd::string::*;

use crate::Position;
use crate::textfmt;

verus! {

/// The map-viewer link for a zoom level and a position: the fixed base URL
/// followed by the zoom and the two horizontal coordinates in decimal.
pub open spec fn map_link_seq(zoom: int, x: int, z: int) -> Seq<char> {
    "https://earthmc.net/map/?zoom="@ + textfmt::dec_int(zoom) + "&x="@ + textfmt::dec_int(x)
        + "&z="@ + textfmt::dec_int(z)
}

/// Return a link to the map at the specified position.
pub fn map_link(position: &Position, zoom: &u8) -> (r: String)
    ensures
        r@ == map_link_seq(*zoom as int, position.x as int, position.z as int),
{
    let mut out = String::from_str("https://earthmc.net/map/?zoom=");
    textfmt::push_dec_u64(&mut out, *zoom as u64);
    out.append("&x=");
    textfmt::push_dec_i64(&mut out, position.x as i64);
    out.append("&z=");
    textfmt::push_dec_i64(&mut out, position.z as i64);
    proof {
        assert(out@ =~= map_link_seq(*zoom as int, position.x as int, position.z as int));
    }
    out
}

} // verus!
