//! The records that the GPU reads: the quad's vertices, the snowflakes, the
//! window rectangles and the per-frame uniform.
//!
//! Every field is the bit pattern of a single-precision number.

use vstd::prelude::*;
use crate::layout::{lemma_words_bytes, record_bytes, word_at, Plain};

verus! {

/// Bit pattern of `0.0`.
pub const ZERO: u32 = 0;

/// Bit pattern of `1.0`.
pub const ONE: u32 = 0x3f80_0000;

/// Bit pattern of `-1.0`.
pub const MINUS_ONE: u32 = 0xbf80_0000;

/// Bit pattern of `1.05`, the half height of the spawn band.
pub const BAND_HEIGHT: u32 = 0x3f86_6666;

/// Bit pattern of the smallest scale of a snowflake, `0.1 * 0.01`.
pub const SCALE_MIN: u32 = 0x3a83_126f;

/// Bit pattern of the largest scale of a snowflake, `1.5 * 0.01`.
pub const SCALE_MAX: u32 = 0x3c75_c28f;

/// Bit pattern of `0.1`, the horizontal gravity of a new engine.
pub const GRAVITY_X: u32 = 0x3dcc_cccd;

/// Bit pattern of `-1.0`, the vertical gravity of a new engine.
pub const GRAVITY_Y: u32 = 0xbf80_0000;

/// Bit pattern of `100.0`, the age in seconds at which a snowflake is recycled.
pub const MAX_AGE: u32 = 0x42c8_0000;

/// The bit pattern without its sign bit: the pattern of the absolute value.
pub open spec fn magnitude(bits: u32) -> u32 {
    bits & 0x7fff_ffff
}

/// Whether the number is finite and its absolute value is at most that of
/// `bound`, a finite number that is not negative. Patterns of numbers that are
/// not negative are ordered as the numbers are, and every pattern that is not
/// a number lies above every finite one.
pub open spec fn within(bits: u32, bound: u32) -> bool {
    magnitude(bits) <= bound
}

/// One corner of the quad that every snowflake is drawn with.
#[derive(Clone, Copy, Debug, PartialEq, Eq)]
pub struct SnowflakeVertex {
    pub pos: [u32; 2],
}

/// One snowflake.
#[derive(Clone, Copy, Debug, PartialEq, Eq)]
pub struct SnowflakeInstance {
    pub pos: [u32; 2],
    pub vel: [u32; 2],
    pub scale: u32,
    pub age: u32,
}

/// One window of the host, as a rectangle in units of the display's size.
#[derive(Clone, Copy, Debug, PartialEq, Eq)]
pub struct RectInstance {
    pub pos: [u32; 2],
    pub dim: [u32; 2],
}

/// The scalars that both GPU stages read on every frame.
#[derive(Clone, Copy, Debug, PartialEq, Eq)]
pub struct FrameData {
    pub dt: u32,
    pub time: u32,
    pub gravity: [u32; 2],
    pub aspect: u32,
    pub max_age: u32,
}

impl Plain for SnowflakeVertex {
    open spec fn words(&self) -> Seq<u32> {
        seq![self.pos[0], self.pos[1]]
    }

    open spec fn size() -> nat {
        8
    }

    proof fn lemma_size(&self) {
    }

    fn to_words(&self) -> (ws: Vec<u32>) {
        let ws = vec![self.pos[0], self.pos[1]];
        assert(ws@ =~= self.words());
        ws
    }

    fn byte_len() -> (n: u64) {
        8
    }
}

impl Plain for SnowflakeInstance {
    open spec fn words(&self) -> Seq<u32> {
        seq![self.pos[0], self.pos[1], self.vel[0], self.vel[1], self.scale, self.age]
    }

    open spec fn size() -> nat {
        24
    }

    proof fn lemma_size(&self) {
    }

    fn to_words(&self) -> (ws: Vec<u32>) {
        let ws = vec![self.pos[0], self.pos[1], self.vel[0], self.vel[1], self.scale, self.age];
        assert(ws@ =~= self.words());
        ws
    }

    fn byte_len() -> (n: u64) {
        24
    }
}

impl Plain for RectInstance {
    open spec fn words(&self) -> Seq<u32> {
        seq![self.pos[0], self.pos[1], self.dim[0], self.dim[1]]
    }

    open spec fn size() -> nat {
        16
    }

    proof fn lemma_size(&self) {
    }

    fn to_words(&self) -> (ws: Vec<u32>) {
        let ws = vec![self.pos[0], self.pos[1], self.dim[0], self.dim[1]];
        assert(ws@ =~= self.words());
        ws
    }

    fn byte_len() -> (n: u64) {
        16
    }
}

impl Plain for FrameData {
    open spec fn words(&self) -> Seq<u32> {
        seq![self.dt, self.time, self.gravity[0], self.gravity[1], self.aspect, self.max_age]
    }

    open spec fn size() -> nat {
        24
    }

    proof fn lemma_size(&self) {
    }

    fn to_words(&self) -> (ws: Vec<u32>) {
        let ws = vec![
            self.dt,
            self.time,
            self.gravity[0],
            self.gravity[1],
            self.aspect,
            self.max_age,
        ];
        assert(ws@ =~= self.words());
        ws
    }

    fn byte_len() -> (n: u64) {
        24
    }
}

/// The bytes of a frame's uniform hold each of its scalars at its place:
/// delta time first, then elapsed time, the two parts of gravity, the aspect
/// ratio and the greatest age, four bytes each and nothing else.
pub proof fn law_frame_bytes(f: FrameData)
    ensures
        record_bytes(&f).len() == 24,
        word_at(record_bytes(&f), 0) == f.dt,
        word_at(record_bytes(&f), 4) == f.time,
        word_at(record_bytes(&f), 8) == f.gravity[0],
        word_at(record_bytes(&f), 12) == f.gravity[1],
        word_at(record_bytes(&f), 16) == f.aspect,
        word_at(record_bytes(&f), 20) == f.max_age,
{
    let ws = f.words();
    lemma_words_bytes(ws);
    assert(word_at(record_bytes(&f), 4 * 0int) == ws[0]);
    assert(word_at(record_bytes(&f), 4 * 1int) == ws[1]);
    assert(word_at(record_bytes(&f), 4 * 2int) == ws[2]);
    assert(word_at(record_bytes(&f), 4 * 3int) == ws[3]);
    assert(word_at(record_bytes(&f), 4 * 4int) == ws[4]);
    assert(word_at(record_bytes(&f), 4 * 5int) == ws[5]);
}

impl SnowflakeInstance {
    /// Whether the snowflake is as a new one is: inside the spawn band, at
    /// rest, of a scale in range and of age zero.
    pub open spec fn fresh(&self) -> bool {
        &&& within(self.pos[0], ONE)
        &&& within(self.pos[1], BAND_HEIGHT)
        &&& self.vel[0] == ZERO
        &&& self.vel[1] == ZERO
        &&& SCALE_MIN <= self.scale <= SCALE_MAX
        &&& self.age == ZERO
    }

    /// A new snowflake at `(x, y)` of the given scale, at rest and of age
    /// zero; `None` where the position lies outside the spawn band or the
    /// scale outside its range.
    pub fn spawn(x: u32, y: u32, scale: u32) -> (flake: Option<SnowflakeInstance>)
        ensures
            flake.is_some() <==> within(x, ONE) && within(y, BAND_HEIGHT) && SCALE_MIN <= scale
                <= SCALE_MAX,
            flake.is_some() ==> flake.unwrap() == (SnowflakeInstance {
                pos: [x, y],
                vel: [ZERO, ZERO],
                scale,
                age: ZERO,
            }),
            flake.is_some() ==> flake.unwrap().fresh(),
    {
        if (x & 0x7fff_ffff) <= ONE && (y & 0x7fff_ffff) <= BAND_HEIGHT && SCALE_MIN <= scale
            && scale <= SCALE_MAX {
            Some(SnowflakeInstance { pos: [x, y], vel: [ZERO, ZERO], scale, age: ZERO })
        } else {
            None
        }
    }
}

/// What chance gives for one new snowflake: where it is, and its scale.
#[derive(Clone, Copy, Debug, PartialEq, Eq, Structural)]
pub struct Draw {
    pub x: u32,
    pub y: u32,
    pub scale: u32,
}

impl Draw {
    /// Whether the draw lies inside the spawn band, with a scale in range.
    pub open spec fn in_range(self) -> bool {
        within(self.x, ONE) && within(self.y, BAND_HEIGHT) && SCALE_MIN <= self.scale <= SCALE_MAX
    }

    /// The new snowflake that the draw gives.
    pub open spec fn flake(self) -> SnowflakeInstance {
        SnowflakeInstance { pos: [self.x, self.y], vel: [ZERO, ZERO], scale: self.scale, age: ZERO }
    }
}

/// The snowflakes of a new engine, one for each draw and in the draws'
/// order, each of them fresh; `None` where a draw is out of range.
pub fn spawn_particles(draws: &Vec<Draw>) -> (flakes: Option<Vec<SnowflakeInstance>>)
    ensures
        flakes.is_some() <==> forall|i: int| 0 <= i < draws@.len() ==> (#[trigger] draws@[i]).in_range(),
        flakes matches Some(fs) ==> fs@.len() == draws@.len() && forall|i: int|
            0 <= i < fs@.len() ==> (#[trigger] fs@[i]) == draws@[i].flake() && fs@[i].fresh(),
{
    let mut flakes: Vec<SnowflakeInstance> = Vec::new();
    let mut i: usize = 0;
    while i < draws.len()
        invariant
            i <= draws@.len(),
            flakes@.len() == i,
            forall|j: int| 0 <= j < i ==> (#[trigger] draws@[j]).in_range(),
            forall|j: int|
                0 <= j < i ==> (#[trigger] flakes@[j]) == draws@[j].flake() && flakes@[j].fresh(),
        decreases draws@.len() - i,
    {
        let d = draws[i];
        match SnowflakeInstance::spawn(d.x, d.y, d.scale) {
            Some(flake) => {
                flakes.push(flake);
            },
            None => {
                assert(!draws@[i as int].in_range());
                return None;
            },
        }
        i += 1;
    }
    Some(flakes)
}

/// The six corners of the quad, as two triangles.
pub open spec fn quad() -> Seq<SnowflakeVertex> {
    seq![
        SnowflakeVertex { pos: [MINUS_ONE, ONE] },
        SnowflakeVertex { pos: [ONE, ONE] },
        SnowflakeVertex { pos: [ONE, MINUS_ONE] },
        SnowflakeVertex { pos: [ONE, MINUS_ONE] },
        SnowflakeVertex { pos: [MINUS_ONE, MINUS_ONE] },
        SnowflakeVertex { pos: [MINUS_ONE, ONE] },
    ]
}

/// The mesh that all snowflakes share.
pub fn quad_vertices() -> (mesh: Vec<SnowflakeVertex>)
    ensures
        mesh@ == quad(),
        mesh@.len() == 6,
{
    let mesh = vec![
        SnowflakeVertex { pos: [MINUS_ONE, ONE] },
        SnowflakeVertex { pos: [ONE, ONE] },
        SnowflakeVertex { pos: [ONE, MINUS_ONE] },
        SnowflakeVertex { pos: [ONE, MINUS_ONE] },
        SnowflakeVertex { pos: [MINUS_ONE, MINUS_ONE] },
        SnowflakeVertex { pos: [MINUS_ONE, ONE] },
    ];
    assert(mesh@ =~= quad());
    mesh
}

} // verus!
