//! The decoded contents of a chunk under each of the three layouts, and the
//! uniform view that extraction works on.
use vstd::prelude::*;

verus! {

/// The tag of a written or writable book.
pub struct Book {
    pub pages: Option<Vec<String>>,
    pub title: Option<String>,
    pub author: Option<String>,
}

/// An item stack in a container or carried by an item entity.
pub struct Item {
    pub id: String,
    pub slot: Option<i8>,
    pub count: i8,
    pub tag: Option<Book>,
}

/// A block entity (tile entity): signs carry `text1`..`text4`, containers
/// carry `items`.
pub struct ChunkLevelTileEntities {
    pub id: String,
    pub x: i32,
    pub y: i32,
    pub z: i32,
    pub text1: Option<String>,
    pub text2: Option<String>,
    pub text3: Option<String>,
    pub text4: Option<String>,
    pub items: Option<Vec<Item>>,
}

/// An entity of a legacy chunk. `pos` holds its block coordinates, that is
/// the floor of each component of the entity's position.
pub struct Entity {
    pub id: String,
    pub pos: Vec<i32>,
    pub item: Option<Item>,
}

/// The `Level` compound of a legacy chunk.
pub struct ChunkLevel {
    pub tile_entities: Vec<ChunkLevelTileEntities>,
    pub entities: Vec<Entity>,
}

/// A chunk in the legacy layout.
pub struct Chunk {
    pub level: ChunkLevel,
}

/// The `Level` compound of a 1.17 chunk.
pub struct Chunk1_17Level {
    pub block_entities: Vec<ChunkLevelTileEntities>,
}

/// A chunk in the 1.17 layout; its entities live in a separate file.
pub struct Chunk1_17 {
    pub level: Chunk1_17Level,
}

/// A chunk in the 1.18 layout.
pub struct Chunk1_18 {
    pub block_entities: Vec<ChunkLevelTileEntities>,
}

/// A decoded chunk, in whichever layout its world uses.
pub enum ChunkData {
    Legacy(Chunk),
    V1_17(Chunk1_17),
    V1_18(Chunk1_18),
}

/// What extraction reads of a chunk, whatever its layout.
pub struct ChunkView {
    pub block_entities: Vec<ChunkLevelTileEntities>,
    pub entities: Vec<Entity>,
}

/// A book together with the block position it was found at.
pub struct BookWithPos {
    pub book: Book,
    pub x: i32,
    pub y: i32,
    pub z: i32,
}

impl ChunkData {
    /// The block entities of the chunk, and its entities where the layout
    /// stores them inside the chunk.
    pub fn into_view(self) -> (r: ChunkView)
        ensures
            match self {
                ChunkData::Legacy(c) => r.block_entities@ == c.level.tile_entities@
                    && r.entities@ == c.level.entities@,
                ChunkData::V1_17(c) => r.block_entities@ == c.level.block_entities@
                    && r.entities@.len() == 0,
                ChunkData::V1_18(c) => r.block_entities@ == c.block_entities@
                    && r.entities@.len() == 0,
            },
    {
        match self {
            ChunkData::Legacy(c) => ChunkView {
                block_entities: c.level.tile_entities,
                entities: c.level.entities,
            },
            ChunkData::V1_17(c) => ChunkView {
                block_entities: c.level.block_entities,
                entities: Vec::new(),
            },
            ChunkData::V1_18(c) => ChunkView { block_entities: c.block_entities, entities: Vec::new() },
        }
    }
}

} // verus!
