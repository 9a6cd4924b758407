use vstd::prelude::*;

verus! {

/// Side length of a terrain chunk, in world units.
pub const CHUNK_SIZE: i32 = 16;

/// Grid coordinates of a chunk: chunk `(x, z)` covers the world square
/// `[16x, 16x + 16) × [16z, 16z + 16)` on the ground plane.
#[derive(Clone, Copy, Debug, PartialEq, Eq, Structural)]
pub struct ChunkPos {
    pub x: i32,
    pub z: i32,
}

impl ChunkPos {
    pub fn new(x: i32, z: i32) -> (p: ChunkPos)
        ensures
            p.x == x,
            p.z == z,
    {
        ChunkPos { x, z }
    }

    /// World coordinates of the chunk's corner: the chunk position times the chunk size.
    pub fn world_origin(&self) -> (o: ChunkPos)
        requires
            i32::MIN <= self.x * CHUNK_SIZE <= i32::MAX,
            i32::MIN <= self.z * CHUNK_SIZE <= i32::MAX,
        ensures
            o.x == self.x * CHUNK_SIZE,
            o.z == self.z * CHUNK_SIZE,
    {
        ChunkPos { x: self.x * CHUNK_SIZE, z: self.z * CHUNK_SIZE }
    }
}

/// The bookkeeping of one terrain chunk: where it is, and the ids of the
/// ground and water entities that currently show it in the world, if any.
#[derive(Clone, Copy, Debug, PartialEq, Eq, Structural)]
pub struct Chunk {
    pub pos: ChunkPos,
    pub entity: Option<u64>,
    pub water_entity: Option<u64>,
}

/// A chunk is spawned only when it shows neither its ground nor its water.
pub open spec fn spawn_needed(c: Chunk) -> bool {
    c.entity is None && c.water_entity is None
}

/// The entity ids that despawning `c` removes from the world: the ground
/// entity first, then the water entity.
pub open spec fn chunk_entities(c: Chunk) -> Seq<u64> {
    (match c.entity {
        Some(e) => seq![e],
        None => Seq::<u64>::empty(),
    }) + (match c.water_entity {
        Some(w) => seq![w],
        None => Seq::<u64>::empty(),
    })
}

/// Spawning a chunk that needs it and then despawning it removes exactly
/// the entity that was spawned, and leaves the chunk ready to spawn again.
pub proof fn lemma_spawn_then_despawn(c: Chunk, e: u64)
    requires
        spawn_needed(c),
    ensures
        !spawn_needed(Chunk { entity: Some(e), ..c }),
        chunk_entities(Chunk { entity: Some(e), ..c }) == seq![e],
        spawn_needed(Chunk { entity: None, water_entity: None, ..c }),
{
    assert(chunk_entities(Chunk { entity: Some(e), ..c }) =~= seq![e]);
}

impl Chunk {
    /// A freshly generated chunk, not yet shown in the world.
    pub fn new(pos: ChunkPos) -> (c: Chunk)
        ensures
            c.pos == pos,
            c.entity is None,
            c.water_entity is None,
    {
        Chunk { pos, entity: None, water_entity: None }
    }

    /// Whether spawning this chunk would create an entity.
    pub fn spawn_needed(&self) -> (b: bool)
        ensures
            b == spawn_needed(*self),
    {
        self.entity.is_none() && self.water_entity.is_none()
    }

    /// Records `entity` as the chunk's ground entity when the chunk needed
    /// spawning; a chunk that already shows something is left as it is.
    /// Returns whether the entity was recorded.
    pub fn spawn(&mut self, entity: u64) -> (recorded: bool)
        ensures
            recorded == spawn_needed(*old(self)),
            recorded ==> *final(self) == (Chunk { entity: Some(entity), ..*old(self) }),
            !recorded ==> *final(self) == *old(self),
    {
        if self.entity.is_some() {
            return false;
        }
        if self.water_entity.is_some() {
            return false;
        }
        self.entity = Some(entity);
        true
    }

    /// Forgets the chunk's entities and returns them, ground first, for
    /// the caller to remove from the world.
    pub fn despawn(&mut self) -> (removed: Vec<u64>)
        ensures
            removed@ == chunk_entities(*old(self)),
            final(self).pos == old(self).pos,
            final(self).entity is None,
            final(self).water_entity is None,
    {
        let mut removed: Vec<u64> = Vec::new();
        if let Some(entity) = self.entity.take() {
            removed.push(entity);
        }
        if let Some(water_entity) = self.water_entity.take() {
            removed.push(water_entity);
        }
        removed
    }
}

} // verus!
