use vstd::prelude::*;

verus! {

/// Where CHIP-8 interpreters differ, which behaviour to follow. Both flags
/// off is the behaviour of CHIP-48 and SUPER-CHIP on, which most programs
/// expect; both on is that of the COSMAC VIP.
#[derive(Clone, Copy, Debug, PartialEq, Eq, Structural)]
pub struct Quirks {
    /// 8XY6 and 8XYE first copy Vy into Vx, then shift Vx.
    pub shift_copies_vy: bool,
    /// FX55 and FX65 leave I pointing just past the last register's byte.
    pub load_store_advances_i: bool,
}

impl Quirks {
    /// Both flags off.
    pub fn modern() -> (r: Quirks)
        ensures
            !r.shift_copies_vy,
            !r.load_store_advances_i,
    {
        Quirks { shift_copies_vy: false, load_store_advances_i: false }
    }

    /// Both flags on.
    pub fn cosmac_vip() -> (r: Quirks)
        ensures
            r.shift_copies_vy,
            r.load_store_advances_i,
    {
        Quirks { shift_copies_vy: true, load_store_advances_i: true }
    }
}

} // verus!
