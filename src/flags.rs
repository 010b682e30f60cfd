use vstd::prelude::*;

verus! {

/// How a shape's thickness value is measured.
#[derive(Debug, Clone, Copy, PartialEq, Eq, Structural)]
pub enum ThicknessType {
    /// 1.0 thickness is one world unit.
    World,
    /// 1.0 thickness is one pixel.
    Pixels,
    /// 1.0 thickness is 1% of the screen's shorter side.
    Screen,
}

/// How the ends of lines and arcs are drawn.
#[derive(Debug, Clone, Copy, PartialEq, Eq, Structural)]
pub enum Cap {
    /// Ends cut off flat at the end points.
    Butt,
    /// Extended by the thickness at each end.
    Square,
    /// Semicircles at each end.
    Round,
}

/// How a shape orients itself towards the camera.
#[derive(Debug, Clone, Copy, PartialEq, Eq, Structural)]
pub enum Alignment {
    /// Follows the rotation of its transform.
    Flat,
    /// Always faces the camera.
    Billboard,
}

pub open spec fn thickness_code(t: ThicknessType) -> u32 {
    match t {
        ThicknessType::World => 0,
        ThicknessType::Pixels => 1,
        ThicknessType::Screen => 2,
    }
}

pub open spec fn cap_code(c: Cap) -> u32 {
    match c {
        Cap::Butt => 0,
        Cap::Square => 1,
        Cap::Round => 2,
    }
}

pub open spec fn alignment_code(a: Alignment) -> u32 {
    match a {
        Alignment::Flat => 0,
        Alignment::Billboard => 1,
    }
}

impl ThicknessType {
    pub fn code(&self) -> (r: u32)
        ensures
            r == thickness_code(*self),
    {
        match self {
            ThicknessType::World => 0,
            ThicknessType::Pixels => 1,
            ThicknessType::Screen => 2,
        }
    }
}

impl Cap {
    pub fn code(&self) -> (r: u32)
        ensures
            r == cap_code(*self),
    {
        match self {
            Cap::Butt => 0,
            Cap::Square => 1,
            Cap::Round => 2,
        }
    }
}

impl Alignment {
    pub fn code(&self) -> (r: u32)
        ensures
            r == alignment_code(*self),
    {
        match self {
            Alignment::Flat => 0,
            Alignment::Billboard => 1,
        }
    }
}

/// Shift of each field of the shader flags word.
pub const THICKNESS_SHIFT: u32 = 0;

pub const ALIGNMENT_SHIFT: u32 = 2;

pub const HOLLOW_SHIFT: u32 = 3;

pub const CAP_SHIFT: u32 = 4;

pub const ARC_SHIFT: u32 = 6;

/// `bits` with the field of width mask `mask` at `shift` replaced by the low bits of `v`.
pub open spec fn with_field(bits: u32, shift: u32, mask: u32, v: u32) -> u32 {
    (bits & !(mask << shift)) | ((v & mask) << shift)
}

/// The field of width mask `mask` at `shift`.
pub open spec fn field(bits: u32, shift: u32, mask: u32) -> u32 {
    (bits >> shift) & mask
}

/// Writing a field then reading it gives the value's low bits, and leaves every other bit alone.
pub proof fn lemma_field_round_trip(bits: u32, shift: u32, mask: u32, v: u32)
    requires
        shift <= 6,
        mask == 1 || mask == 3,
    ensures
        field(with_field(bits, shift, mask, v), shift, mask) == v & mask,
        with_field(bits, shift, mask, v) & !(mask << shift) == bits & !(mask << shift),
{
    let r = (bits & !(mask << shift)) | ((v & mask) << shift);
    assert((r >> shift) & mask == v & mask) by (bit_vector)
        requires
            r == (bits & !(mask << shift)) | ((v & mask) << shift),
            shift <= 6,
            mask == 1 || mask == 3,
    ;
    assert(r & !(mask << shift) == bits & !(mask << shift)) by (bit_vector)
        requires
            r == (bits & !(mask << shift)) | ((v & mask) << shift),
            shift <= 6,
            mask == 1 || mask == 3,
    ;
}

/// The per-instance flags word read by the shape shaders: thickness type in bits 0-1, alignment
/// in bit 2, hollow in bit 3, cap in bits 4-5, arc in bit 6.
#[derive(Debug, Clone, Copy, PartialEq, Eq, Structural)]
pub struct Flags(pub u32);

impl Flags {
    fn set(&mut self, shift: u32, mask: u32, v: u32)
        requires
            shift <= 6,
            mask == 1 || mask == 3,
        ensures
            final(self).0 == with_field(old(self).0, shift, mask, v),
    {
        self.0 = (self.0 & !(mask << shift)) | ((v & mask) << shift);
    }

    pub fn set_thickness_type(&mut self, t: ThicknessType)
        ensures
            final(self).0 == with_field(old(self).0, THICKNESS_SHIFT, 3, thickness_code(t)),
    {
        self.set(THICKNESS_SHIFT, 3, t.code());
    }

    pub fn set_alignment(&mut self, a: Alignment)
        ensures
            final(self).0 == with_field(old(self).0, ALIGNMENT_SHIFT, 1, alignment_code(a)),
    {
        self.set(ALIGNMENT_SHIFT, 1, a.code());
    }

    /// Only the lowest bit of `v` is stored.
    pub fn set_hollow(&mut self, v: u32)
        ensures
            final(self).0 == with_field(old(self).0, HOLLOW_SHIFT, 1, v),
    {
        self.set(HOLLOW_SHIFT, 1, v);
    }

    pub fn set_cap(&mut self, c: Cap)
        ensures
            final(self).0 == with_field(old(self).0, CAP_SHIFT, 3, cap_code(c)),
    {
        self.set(CAP_SHIFT, 3, c.code());
    }

    /// Only the lowest bit of `v` is stored.
    pub fn set_arc(&mut self, v: u32)
        ensures
            final(self).0 == with_field(old(self).0, ARC_SHIFT, 1, v),
    {
        self.set(ARC_SHIFT, 1, v);
    }
}

} // verus!
