use vstd::prelude::*;

verus! {

/// Why a rotation of the camera basis has no direction to align with.
#[derive(Clone, Copy, Debug, PartialEq, Eq)]
pub enum Degeneracy {
    /// The eye lies straight above or below the target: the line of sight
    /// has no horizontal part.
    Vertical,
    /// The eye lies on the target: there is no line of sight.
    Coincident,
}

/// How a rotation of the camera basis is to be built.
#[derive(Clone, Copy, Debug, PartialEq, Eq)]
pub enum Alignment {
    /// From the offset between eye and target.
    Aligned,
    /// As the identity, for the reason given.
    Degenerate(Degeneracy),
}

/// How the two rotations that turn the line of sight onto the forward axis
/// are to be built: `yaw` about the vertical axis, `pitch` about the lateral
/// one.
#[derive(Clone, Copy, Debug, PartialEq, Eq)]
pub struct CameraBasis {
    pub yaw: Alignment,
    pub pitch: Alignment,
}

pub open spec fn yaw_spec(dx_zero: bool, dy_zero: bool, dz_zero: bool) -> Alignment {
    if dx_zero && dz_zero {
        if dy_zero {
            Alignment::Degenerate(Degeneracy::Coincident)
        } else {
            Alignment::Degenerate(Degeneracy::Vertical)
        }
    } else {
        Alignment::Aligned
    }
}

pub open spec fn pitch_spec(dx_zero: bool, dy_zero: bool, dz_zero: bool) -> Alignment {
    if dx_zero && dy_zero && dz_zero {
        Alignment::Degenerate(Degeneracy::Coincident)
    } else {
        Alignment::Aligned
    }
}

/// Decides, from which components of the offset from eye to target are
/// zero, which rotations can be aligned and which fall back to the identity.
/// The yaw needs a horizontal offset; the pitch needs any offset at all.
pub fn classify_basis(dx_zero: bool, dy_zero: bool, dz_zero: bool) -> (r: CameraBasis)
    ensures
        r.yaw == yaw_spec(dx_zero, dy_zero, dz_zero),
        r.pitch == pitch_spec(dx_zero, dy_zero, dz_zero),
{
    let yaw = if dx_zero && dz_zero {
        if dy_zero {
            Alignment::Degenerate(Degeneracy::Coincident)
        } else {
            Alignment::Degenerate(Degeneracy::Vertical)
        }
    } else {
        Alignment::Aligned
    };
    let pitch = if dx_zero && dy_zero && dz_zero {
        Alignment::Degenerate(Degeneracy::Coincident)
    } else {
        Alignment::Aligned
    };
    CameraBasis { yaw, pitch }
}

impl Alignment {
    /// Whether the rotation is to be the identity.
    pub fn is_identity(&self) -> (r: bool)
        ensures
            r == (*self is Degenerate),
    {
        match self {
            Alignment::Aligned => false,
            Alignment::Degenerate(_) => true,
        }
    }
}

} // verus!
