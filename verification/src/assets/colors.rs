//! Menu palette colours, as RGBA (6-bit VGA values scaled to 8 bits by
//! `(v << 2) | (v >> 4)`).
use vstd::prelude::*;

verus! {

pub const BORDCOLOR: [u8; 4] = [0x8a, 0x00, 0x00, 0xff];
pub const BORD2COLOR: [u8; 4] = [0xd7, 0x00, 0x00, 0xff];
pub const DEACTIVE: [u8; 4] = [0x71, 0x00, 0x00, 0xff];
pub const BKGDCOLOR: [u8; 4] = [0x59, 0x00, 0x00, 0xff];
pub const STRIPE: [u8; 4] = [0x65, 0x00, 0x00, 0xff];
pub const READCOLOR: [u8; 4] = [0xb6, 0xae, 0x00, 0xff];
pub const READHCOLOR: [u8; 4] = [0xff, 0xf7, 0x00, 0xff];
pub const VIEWCOLOR: [u8; 4] = [0x00, 0x41, 0x41, 0xff];
pub const TEXTCOLOR: [u8; 4] = [0x8e, 0x8e, 0x8e, 0xff];
pub const HIGHLIGHT: [u8; 4] = [0xc3, 0xc3, 0xc3, 0xff];

} // verus!
