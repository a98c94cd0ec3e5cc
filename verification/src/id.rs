use vstd::prelude::*;

verus! {

/// `2^16`
pub open spec fn two16() -> nat {
    65536
}

/// `2^32`
pub open spec fn two32() -> nat {
    4294967296
}

/// World id: a one-based index and a generation.
#[derive(Clone, Copy, Debug, PartialEq, Eq, Structural)]
pub struct WorldId {
    pub index1: u16,
    pub generation: u16,
}

/// Body id: one-based index into the world's bodies, the world it lives
/// in, and the generation of the slot.
#[derive(Clone, Copy, Debug, PartialEq, Eq, Structural)]
pub struct BodyId {
    pub index1: i32,
    pub world0: u16,
    pub generation: u16,
}

/// Shape id.
#[derive(Clone, Copy, Debug, PartialEq, Eq, Structural)]
pub struct ShapeId {
    pub index1: i32,
    pub world0: u16,
    pub generation: u16,
}

/// Chain id.
#[derive(Clone, Copy, Debug, PartialEq, Eq, Structural)]
pub struct ChainId {
    pub index1: i32,
    pub world0: u16,
    pub generation: u16,
}

/// Joint id.
#[derive(Clone, Copy, Debug, PartialEq, Eq, Structural)]
pub struct JointId {
    pub index1: i32,
    pub world0: u16,
    pub generation: u16,
}

/// The 64-bit packing shared by body, shape, chain and joint ids:
/// the index's bit pattern in the high word, then the world, then the
/// generation.
pub open spec fn pack_id64(index1: i32, world0: u16, generation: u16) -> u64 {
    ((index1 as u32) as nat * two32() + world0 as nat * two16() + generation as nat) as u64
}

/// Index, world and generation recovered from a 64-bit packing.
pub open spec fn unpack_id64(x: u64) -> (i32, u16, u16) {
    (((x as nat / two32()) as u32) as i32, ((x as nat / two16()) % two16()) as u16, (x as nat % two16()) as u16)
}

/// The 32-bit packing of a world id: index in the high half.
pub open spec fn pack_world_id(id: WorldId) -> u32 {
    (id.index1 as nat * two16() + id.generation as nat) as u32
}

fn pack64(index1: i32, world0: u16, generation: u16) -> (x: u64)
    ensures
        x == pack_id64(index1, world0, generation),
{
    let hi: u32 = index1 as u32;
    hi as u64 * 4294967296 + world0 as u64 * 65536 + generation as u64
}

fn unpack64(x: u64) -> (r: (i32, u16, u16))
    ensures
        r == unpack_id64(x),
{
    let hi: u32 = (x / 4294967296) as u32;
    (hi as i32, (x / 65536 % 65536) as u16, (x % 65536) as u16)
}

/// Unpacking a packing gives the parts back.
pub proof fn lemma_id64_round_trip(index1: i32, world0: u16, generation: u16)
    ensures
        unpack_id64(pack_id64(index1, world0, generation)) == (index1, world0, generation),
{
    let hi = index1 as u32;
    let x = hi as nat * two32() + world0 as nat * two16() + generation as nat;
    assert(x < 0x1_0000_0000_0000_0000);
    assert(x / two32() == hi as nat);
    assert((x / two16()) % two16() == world0 as nat);
    assert(x % two16() == generation as nat);
    assert(((hi as u32) as i32) == index1) by (bit_vector)
        requires
            hi == index1 as u32,
    ;
}

impl WorldId {
    /// Pack into 32 bits.
    pub fn store(&self) -> (x: u32)
        ensures
            x == pack_world_id(*self),
    {
        self.index1 as u32 * 65536 + self.generation as u32
    }

    /// Unpack from 32 bits.
    pub fn load(x: u32) -> (id: WorldId)
        ensures
            id.index1 == x / 65536,
            id.generation == x % 65536,
    {
        WorldId { index1: (x / 65536) as u16, generation: (x % 65536) as u16 }
    }
}

impl BodyId {
    /// Pack into 64 bits.
    pub fn store(&self) -> (x: u64)
        ensures
            x == pack_id64(self.index1, self.world0, self.generation),
    {
        pack64(self.index1, self.world0, self.generation)
    }

    /// Unpack from 64 bits.
    pub fn load(x: u64) -> (id: BodyId)
        ensures
            (id.index1, id.world0, id.generation) == unpack_id64(x),
    {
        let (index1, world0, generation) = unpack64(x);
        BodyId { index1, world0, generation }
    }
}

impl ShapeId {
    /// Pack into 64 bits.
    pub fn store(&self) -> (x: u64)
        ensures
            x == pack_id64(self.index1, self.world0, self.generation),
    {
        pack64(self.index1, self.world0, self.generation)
    }

    /// Unpack from 64 bits.
    pub fn load(x: u64) -> (id: ShapeId)
        ensures
            (id.index1, id.world0, id.generation) == unpack_id64(x),
    {
        let (index1, world0, generation) = unpack64(x);
        ShapeId { index1, world0, generation }
    }
}

impl ChainId {
    /// Pack into 64 bits.
    pub fn store(&self) -> (x: u64)
        ensures
            x == pack_id64(self.index1, self.world0, self.generation),
    {
        pack64(self.index1, self.world0, self.generation)
    }

    /// Unpack from 64 bits.
    pub fn load(x: u64) -> (id: ChainId)
        ensures
            (id.index1, id.world0, id.generation) == unpack_id64(x),
    {
        let (index1, world0, generation) = unpack64(x);
        ChainId { index1, world0, generation }
    }
}

impl JointId {
    /// Pack into 64 bits.
    pub fn store(&self) -> (x: u64)
        ensures
            x == pack_id64(self.index1, self.world0, self.generation),
    {
        pack64(self.index1, self.world0, self.generation)
    }

    /// Unpack from 64 bits.
    pub fn load(x: u64) -> (id: JointId)
        ensures
            (id.index1, id.world0, id.generation) == unpack_id64(x),
    {
        let (index1, world0, generation) = unpack64(x);
        JointId { index1, world0, generation }
    }
}

/// A stored 64-bit id, of a body, shape, chain or joint, loads back to
/// itself: index, world and generation.
pub proof fn law_id64_store_load(index1: i32, world0: u16, generation: u16)
    ensures
        unpack_id64(pack_id64(index1, world0, generation)) == (index1, world0, generation),
{
    lemma_id64_round_trip(index1, world0, generation);
}

/// A stored world id loads back to itself.
pub proof fn law_world_id_store_load(id: WorldId)
    ensures
        pack_world_id(id) / 65536 == id.index1,
        pack_world_id(id) % 65536 == id.generation,
{
}

} // verus!
