//! Opacity, scale and the per-pixel alpha transform.
use vstd::prelude::*;

verus! {

/// One whole unit in the fixed-point representation (millionths).
pub const UNIT: u32 = 1000000;

/// The smallest scale factor accepted, in millionths (0.1).
pub const MIN_SCALE: i64 = 100000;

/// Raw opacity in millionths, clamped to `[0, UNIT]`.
pub open spec fn clamp_opacity(raw: int) -> int {
    if raw < 0 {
        0
    } else if raw > UNIT {
        UNIT as int
    } else {
        raw
    }
}

/// Raw scale in millionths, floored to `MIN_SCALE`.
pub open spec fn floor_scale(raw: int) -> int {
    if raw < MIN_SCALE {
        MIN_SCALE as int
    } else {
        raw
    }
}

/// `floor(alpha * opacity)`, opacity being `micros / UNIT`.
pub open spec fn scaled_alpha(alpha: int, micros: int) -> int {
    alpha * micros / (UNIT as int)
}

/// The byte at position `i` of a transformed RGBA buffer: colour channels
/// pass through, every fourth byte (alpha) is scaled.
pub open spec fn transformed_byte(src: Seq<u8>, i: int, micros: int) -> int {
    if i % 4 == 3 {
        scaled_alpha(src[i] as int, micros)
    } else {
        src[i] as int
    }
}

/// `dst` is `src` with every alpha byte scaled by `micros / UNIT`.
pub open spec fn transformed(src: Seq<u8>, dst: Seq<u8>, micros: int) -> bool {
    &&& dst.len() == src.len()
    &&& forall|i: int| 0 <= i < src.len() ==> dst[i] as int == #[trigger] transformed_byte(src, i, micros)
}

/// An opacity above one behaves as one, one below zero as zero.
pub proof fn lemma_opacity_clamps(raw: int)
    ensures
        raw >= UNIT ==> clamp_opacity(raw) == clamp_opacity(UNIT as int),
        raw <= 0 ==> clamp_opacity(raw) == clamp_opacity(0),
        0 <= clamp_opacity(raw) <= UNIT,
{
}

/// A scale of zero, a negative one, or any other below the minimum behaves
/// as the minimum, 0.1.
pub proof fn lemma_scale_floors(raw: int)
    ensures
        raw < MIN_SCALE ==> floor_scale(raw) == floor_scale(MIN_SCALE as int),
        floor_scale(raw) >= MIN_SCALE,
{
}

/// An opacity factor in `[0, 1]`, in millionths.
#[derive(Clone, Copy, Debug, PartialEq, Eq, Structural)]
pub struct Opacity {
    micros: u32,
}

impl Opacity {
    pub closed spec fn value(self) -> int {
        self.micros as int
    }

    #[verifier::type_invariant]
    spec fn wf(self) -> bool {
        self.micros <= UNIT
    }

    /// Clamps a raw opacity (in millionths) to `[0, UNIT]`.
    pub fn from_micros(raw: i64) -> (r: Opacity)
        ensures
            r.value() == clamp_opacity(raw as int),
    {
        if raw < 0 {
            Opacity { micros: 0 }
        } else if raw > UNIT as i64 {
            Opacity { micros: UNIT }
        } else {
            Opacity { micros: raw as u32 }
        }
    }

    /// The clamped opacity in millionths.
    pub fn micros(&self) -> (r: u32)
        ensures
            r == self.value(),
    {
        self.micros
    }

    /// Scales one alpha sample: `floor(alpha * opacity)`.
    pub fn scale_alpha(&self, alpha: u8) -> (r: u8)
        ensures
            r == scaled_alpha(alpha as int, self.value()),
    {
        proof {
            use_type_invariant(self);
        }
        let m: u64 = self.micros as u64;
        let a: u64 = alpha as u64;
        assert(a * m <= 255 * 1000000) by (nonlinear_arith)
            requires a <= 255, m <= 1000000;
        assert(a * m / 1000000 <= a) by (nonlinear_arith)
            requires a <= 255, m <= 1000000;
        (a * m / (UNIT as u64)) as u8
    }

    /// Applies the opacity to an RGBA byte buffer: colour bytes are copied,
    /// each alpha byte (every fourth) becomes `floor(alpha * opacity)`.
    pub fn transform_pixels(&self, src: &Vec<u8>) -> (r: Vec<u8>)
        ensures
            transformed(src@, r@, self.value()),
    {
        let mut out: Vec<u8> = Vec::with_capacity(src.len());
        let mut i: usize = 0;
        while i < src.len()
            invariant
                i <= src@.len(),
                out@.len() == i,
                forall|j: int|
                    0 <= j < i ==> out@[j] as int == #[trigger] transformed_byte(
                        src@,
                        j,
                        self.value(),
                    ),
            decreases src@.len() - i,
        {
            let b = src[i];
            if i % 4 == 3 {
                out.push(self.scale_alpha(b));
            } else {
                out.push(b);
            }
            i = i + 1;
        }
        out
    }
}

/// A display scale factor of at least `MIN_SCALE`, in millionths.
#[derive(Clone, Copy, Debug, PartialEq, Eq, Structural)]
pub struct Scale {
    micros: i64,
}

impl Scale {
    pub closed spec fn value(self) -> int {
        self.micros as int
    }

    /// Floors a raw scale (in millionths) to `MIN_SCALE`.
    pub fn from_micros(raw: i64) -> (r: Scale)
        ensures
            r.value() == floor_scale(raw as int),
    {
        if raw < MIN_SCALE {
            Scale { micros: MIN_SCALE }
        } else {
            Scale { micros: raw }
        }
    }

    /// The floored scale in millionths.
    pub fn micros(&self) -> (r: i64)
        ensures
            r == self.value(),
    {
        self.micros
    }
}

} // verus!
