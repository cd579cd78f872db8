//! A model of what the service's tables hold, for laws that span several statements.

use vstd::prelude::*;

verus! {

/// The guild that a character's row names.
pub struct GuildColumns {
    pub name: Option<Seq<char>>,
    pub realm: Option<Seq<char>>,
}

/// What the tables hold. A character's key, its region, realm and name, stands for its row:
/// the row's id and the time when the character was last seen are left out. A run stands
/// as its hash.
#[verifier::ext_equal]
pub struct Tables {
    /// The label of each player, by id.
    pub players: Map<Seq<char>, Seq<char>>,
    pub characters: Map<(Seq<char>, Seq<char>, Seq<char>), GuildColumns>,
    /// The players' ids with the keys of their characters.
    pub links: Set<(Seq<char>, (Seq<char>, Seq<char>, Seq<char>))>,
    pub runs: Set<Seq<char>>,
}

impl Tables {
    /// The tables once a character was inserted or updated: a guild that is not given stays
    /// as it was.
    pub open spec fn upsert_character(
        self,
        key: (Seq<char>, Seq<char>, Seq<char>),
        guild_name: Option<Seq<char>>,
        guild_realm: Option<Seq<char>>,
    ) -> Tables {
        let row = if self.characters.dom().contains(key) {
            self.characters[key]
        } else {
            GuildColumns { name: None, realm: None }
        };
        Tables {
            characters: self.characters.insert(
                key,
                GuildColumns {
                    name: if guild_name is Some {
                        guild_name
                    } else {
                        row.name
                    },
                    realm: if guild_realm is Some {
                        guild_realm
                    } else {
                        row.realm
                    },
                },
            ),
            ..self
        }
    }

    /// The tables once a player was inserted, or the label updated.
    pub open spec fn upsert_player(self, id: Seq<char>, label: Seq<char>) -> Tables {
        Tables { players: self.players.insert(id, label), ..self }
    }

    /// The tables once a character was linked to a player.
    pub open spec fn link(
        self,
        player_id: Seq<char>,
        key: (Seq<char>, Seq<char>, Seq<char>),
    ) -> Tables {
        Tables { links: self.links.insert((player_id, key)), ..self }
    }

    /// The tables once a run was inserted, or was found to be there.
    pub open spec fn insert_run(self, hash: Seq<char>) -> Tables {
        Tables { runs: self.runs.insert(hash), ..self }
    }
}

} // verus!
