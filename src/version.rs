//! World version descriptors and the choice of chunk schema.
use vstd::prelude::*;
use vstd::string::*;

verus! {

/// The version compound stored in `level.dat` under `Data.Version`.
pub struct LevelDatDataVersion {
    pub id: i32,
    pub name: String,
    pub snapshot: bool,
}

/// The `Data` compound of `level.dat`.
pub struct LevelDatData {
    /// `Data.Version`, absent in saves older than 1.9.
    pub version: Option<LevelDatDataVersion>,
    /// `Data.version`, the legacy format number.
    pub old_version: i32,
}

/// The root of `level.dat`.
pub struct LevelDat {
    pub data: LevelDatData,
}

/// The name given to the descriptor synthesized for legacy saves.
pub open spec fn legacy_name() -> Seq<char> {
    seq!['o', 'l', 'd']
}

/// The three generations of chunk layout.
#[derive(PartialEq, Eq, Structural, Clone, Copy, Debug)]
pub enum ChunkFormat {
    /// `Level.TileEntities` and `Level.Entities` (up to 1.16).
    Legacy,
    /// `Level.TileEntities` only (1.17).
    V1_17,
    /// Top-level `block_entities` (1.18 and later).
    V1_18,
}

/// The last data version that uses the legacy layout.
pub const LAST_LEGACY_ID: i32 = 2681;

/// The last data version that uses the 1.17 layout.
pub const LAST_1_17_ID: i32 = 2730;

/// Which layout the chunks of a world with this descriptor use.
pub open spec fn format_of(id: int, name: Seq<char>) -> ChunkFormat {
    if name == legacy_name() || id <= LAST_LEGACY_ID {
        ChunkFormat::Legacy
    } else if id <= LAST_1_17_ID {
        ChunkFormat::V1_17
    } else {
        ChunkFormat::V1_18
    }
}

/// Whether `s` is the legacy marker name.
pub fn is_legacy_name(s: &str) -> (r: bool)
    ensures
        r == (s@ == legacy_name()),
{
    let n = s.unicode_len();
    if n != 3 {
        return false;
    }
    let r = s.get_char(0) == 'o' && s.get_char(1) == 'l' && s.get_char(2) == 'd';
    proof {
        if r {
            assert(s@ =~= legacy_name());
        }
    }
    r
}

impl LevelDatDataVersion {
    /// The chunk layout used by a world with this descriptor; the legacy
    /// marker name takes precedence over the numeric id.
    pub fn chunk_format(&self) -> (r: ChunkFormat)
        ensures
            r == format_of(self.id as int, self.name@),
    {
        if is_legacy_name(self.name.as_str()) || self.id <= LAST_LEGACY_ID {
            ChunkFormat::Legacy
        } else if self.id <= LAST_1_17_ID {
            ChunkFormat::V1_17
        } else {
            ChunkFormat::V1_18
        }
    }

    /// Whether sign lines of this world are stored as plain text.
    pub fn is_legacy(&self) -> (r: bool)
        ensures
            r == (self.name@ == legacy_name()),
    {
        is_legacy_name(self.name.as_str())
    }
}

impl LevelDat {
    /// The effective version descriptor: `Data.Version` where present, else
    /// a legacy descriptor carrying `Data.version` as its id.
    pub fn into_version(self) -> (r: LevelDatDataVersion)
        ensures
            match self.data.version {
                Some(v) => r == v,
                None => r.id == self.data.old_version && r.name@ == legacy_name() && !r.snapshot,
            },
    {
        match self.data.version {
            Some(v) => v,
            None => {
                let name = String::from_str("old");
                proof {
                    reveal_strlit("old");
                }
                LevelDatDataVersion { id: self.data.old_version, name, snapshot: false }
            },
        }
    }
}

/// Data version 2730 is the last of the 1.17 layout and 2731 the first of
/// the 1.18 layout; a descriptor named `old` always takes the legacy layout,
/// whatever its id.
pub proof fn lemma_format_boundaries(id: int, name: Seq<char>)
    ensures
        name != legacy_name() ==> format_of(2730, name) == ChunkFormat::V1_17,
        name != legacy_name() ==> format_of(2731, name) == ChunkFormat::V1_18,
        format_of(id, legacy_name()) == ChunkFormat::Legacy,
{
}

} // verus!
