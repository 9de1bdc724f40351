//! The configuration store and the paths of the assets it names.

pub mod action;

use vstd::prelude::*;
use vstd::string::StringExecFns;
use crate::resource::action::melee::MeleeInfo;
use crate::resource::action::projectile::ProjectileInfo;
use crate::unit::info::UnitInfo;

verus! {

/// The path of the animation file of the animation `name`.
pub open spec fn anim_path_of(name: Seq<char>) -> Seq<char> {
    "Resources/Animations/"@ + name + ".ExportJson"@
}

/// The path of the sound file `name` of a skill.
pub open spec fn skill_audio_path_of(name: Seq<char>) -> Seq<char> {
    "Resources/SkillSounds/"@ + name
}

/// The asset paths that belong to a name.
pub trait ResourcePath {
    /// The name as characters.
    spec fn resource_name(&self) -> Seq<char>;

    fn anim_path(&self) -> (path: String)
        ensures
            path@ == anim_path_of(self.resource_name()),
    ;

    fn skill_audio_path(&self) -> (path: String)
        ensures
            path@ == skill_audio_path_of(self.resource_name()),
    ;
}

impl ResourcePath for String {
    open spec fn resource_name(&self) -> Seq<char> {
        self@
    }

    fn anim_path(&self) -> (path: String) {
        String::from_str("Resources/Animations/").concat(self.as_str()).concat(".ExportJson")
    }

    fn skill_audio_path(&self) -> (path: String) {
        String::from_str("Resources/SkillSounds/").concat(self.as_str())
    }
}

/// The sound paths of a list of sound names, in the same order.
pub open spec fn skill_audio_paths_of(names: Seq<String>, paths: Seq<String>) -> bool {
    &&& paths.len() == names.len()
    &&& forall|i: int|
        0 <= i < names.len() ==> (#[trigger] paths[i])@ == skill_audio_path_of(names[i]@)
}

/// The sound path of each name of `names`.
pub fn skill_audio_paths(names: &Vec<String>) -> (paths: Vec<String>)
    ensures
        skill_audio_paths_of(names@, paths@),
{
    let mut paths: Vec<String> = Vec::new();
    let mut i: usize = 0;
    while i < names.len()
        invariant
            i <= names.len(),
            paths.len() == i,
            forall|k: int| 0 <= k < i ==> (#[trigger] paths[k])@ == skill_audio_path_of(names[k]@),
        decreases names.len() - i,
    {
        paths.push(names[i].skill_audio_path());
        i += 1;
    }
    paths
}

/// A table from names to places in a list, kept in a `bevy::utils::HashMap`:
/// the hash map of the `hashbrown` crate with the engine's hasher. The
/// verifier does not look inside; what the table holds goes by the name
/// `name_table`, and the three functions below say what the map's `default`,
/// `insert` and `get` do to it.
#[verifier::external_body]
pub struct NameTable {
    places: bevy::utils::HashMap<String, usize>,
}

/// What a name table holds: the place under each name, the names as characters.
pub uninterp spec fn name_table(table: NameTable) -> Map<Seq<char>, usize>;

/// What a table without names holds.
pub open spec fn no_places() -> Map<Seq<char>, usize> {
    Map::empty()
}

/// A table without names, from `Default::default` of `bevy::utils::HashMap`,
/// which makes an empty map. Not proved: taken from the map's documentation.
#[verifier::external_body]
fn name_table_new() -> (table: NameTable)
    ensures
        name_table(table) == no_places(),
{
    NameTable { places: bevy::utils::HashMap::default() }
}

/// Puts `place` under `name`, with `insert` of `bevy::utils::HashMap`: the
/// table then holds `place` under `name`, in place of what it held there
/// before, and every other name as it was. Not proved: taken from the map's
/// documentation.
#[verifier::external_body]
fn name_table_insert(table: &mut NameTable, name: String, place: usize)
    ensures
        name_table(*final(table)) == name_table(*old(table)).insert(name@, place),
{
    table.places.insert(name, place);
}

/// The place under `name`, with `get` of `bevy::utils::HashMap`: the place
/// that the table holds under that name, or `None` where it holds none. Not
/// proved: taken from the map's documentation.
#[verifier::external_body]
fn name_table_get(table: &NameTable, name: &str) -> (place: Option<usize>)
    ensures
        place == if name_table(*table).contains_key(name@) {
            Some(name_table(*table)[name@])
        } else {
            None
        },
{
    table.places.get(name).copied()
}

/// The configuration store: the unit table by unit name, and the melee and
/// projectile tables by effect name, each effect with its records in the
/// order in which they were read. Each table is a list of what was put into
/// it, and a name table that says where in the list a name's entry is.
pub struct ConfigResource {
    unit_places: NameTable,
    units: Vec<UnitInfo>,
    melee_places: NameTable,
    melees: Vec<Vec<MeleeInfo>>,
    projectile_places: NameTable,
    projectiles: Vec<Vec<ProjectileInfo>>,
}

impl ConfigResource {
    /// Whether the store is in order: every place that a name table holds is
    /// a place in its list.
    pub closed spec fn wf(self) -> bool {
        &&& forall|name: Seq<char>| #[trigger]
            name_table(self.unit_places).contains_key(name) ==> name_table(self.unit_places)[name]
                < self.units@.len()
        &&& forall|name: Seq<char>| #[trigger]
            name_table(self.melee_places).contains_key(name) ==> name_table(
                self.melee_places,
            )[name] < self.melees@.len()
        &&& forall|name: Seq<char>| #[trigger]
            name_table(self.projectile_places).contains_key(name) ==> name_table(
                self.projectile_places,
            )[name] < self.projectiles@.len()
    }

    /// The record of the unit `name`, if the unit table has one.
    pub closed spec fn unit_record(self, name: Seq<char>) -> Option<UnitInfo> {
        if name_table(self.unit_places).contains_key(name) {
            Some(self.units@[name_table(self.unit_places)[name] as int])
        } else {
            None
        }
    }

    /// The records of the melee effect `name`, if the melee table has the effect.
    pub closed spec fn melee_records(self, name: Seq<char>) -> Option<Seq<MeleeInfo>> {
        if name_table(self.melee_places).contains_key(name) {
            Some(self.melees@[name_table(self.melee_places)[name] as int]@)
        } else {
            None
        }
    }

    /// The records of the projectile effect `name`, if the projectile table
    /// has the effect.
    pub closed spec fn projectile_records(self, name: Seq<char>) -> Option<Seq<ProjectileInfo>> {
        if name_table(self.projectile_places).contains_key(name) {
            Some(self.projectiles@[name_table(self.projectile_places)[name] as int]@)
        } else {
            None
        }
    }

    /// The first record of the melee effect `name`, if the melee table has one.
    pub open spec fn melee_record(self, name: Seq<char>) -> Option<MeleeInfo> {
        match self.melee_records(name) {
            Some(records) => if records.len() > 0 {
                Some(records[0])
            } else {
                None
            },
            None => None,
        }
    }

    /// The first record of the projectile effect `name`, if the projectile
    /// table has one.
    pub open spec fn projectile_record(self, name: Seq<char>) -> Option<ProjectileInfo> {
        match self.projectile_records(name) {
            Some(records) => if records.len() > 0 {
                Some(records[0])
            } else {
                None
            },
            None => None,
        }
    }

    /// `after` holds the same melee and projectile records as `self`.
    pub open spec fn same_effects(self, after: ConfigResource) -> bool {
        &&& forall|name: Seq<char>| #[trigger] after.melee_records(name) == self.melee_records(name)
        &&& forall|name: Seq<char>| #[trigger]
            after.projectile_records(name) == self.projectile_records(name)
    }

    /// `after` holds the same unit records as `self`.
    pub open spec fn same_units(self, after: ConfigResource) -> bool {
        forall|name: Seq<char>| #[trigger] after.unit_record(name) == self.unit_record(name)
    }

    /// A store with empty tables.
    pub fn new() -> (config: ConfigResource)
        ensures
            config.wf(),
            forall|name: Seq<char>| #[trigger] config.unit_record(name) is None,
            forall|name: Seq<char>| #[trigger] config.melee_records(name) is None,
            forall|name: Seq<char>| #[trigger] config.projectile_records(name) is None,
    {
        ConfigResource {
            unit_places: name_table_new(),
            units: Vec::new(),
            melee_places: name_table_new(),
            melees: Vec::new(),
            projectile_places: name_table_new(),
            projectiles: Vec::new(),
        }
    }

    /// Puts a unit's record into the unit table, in place of any record of
    /// the same unit name.
    pub fn insert_unit(&mut self, info: UnitInfo)
        requires
            old(self).wf(),
        ensures
            final(self).wf(),
            final(self).unit_record(info.unit_name@) == Some(info),
            forall|name: Seq<char>|
                name != info.unit_name@ ==> #[trigger] final(self).unit_record(name) == old(
                    self,
                ).unit_record(name),
            old(self).same_effects(*final(self)),
    {
        let name = info.unit_name.clone();
        let place = self.units.len();
        self.units.push(info);
        name_table_insert(&mut self.unit_places, name, place);
    }

    /// Puts the records of the melee effect `name` into the melee table, in
    /// place of any records of that effect.
    pub fn insert_melee(&mut self, name: String, records: Vec<MeleeInfo>)
        requires
            old(self).wf(),
        ensures
            final(self).wf(),
            final(self).melee_records(name@) == Some(records@),
            forall|other: Seq<char>|
                other != name@ ==> #[trigger] final(self).melee_records(other) == old(
                    self,
                ).melee_records(other),
            forall|other: Seq<char>| #[trigger]
                final(self).projectile_records(other) == old(self).projectile_records(other),
            old(self).same_units(*final(self)),
    {
        let place = self.melees.len();
        self.melees.push(records);
        name_table_insert(&mut self.melee_places, name, place);
    }

    /// Puts the records of the projectile effect `name` into the projectile
    /// table, in place of any records of that effect.
    pub fn insert_projectile(&mut self, name: String, records: Vec<ProjectileInfo>)
        requires
            old(self).wf(),
        ensures
            final(self).wf(),
            final(self).projectile_records(name@) == Some(records@),
            forall|other: Seq<char>|
                other != name@ ==> #[trigger] final(self).projectile_records(other) == old(
                    self,
                ).projectile_records(other),
            forall|other: Seq<char>| #[trigger]
                final(self).melee_records(other) == old(self).melee_records(other),
            old(self).same_units(*final(self)),
    {
        let place = self.projectiles.len();
        self.projectiles.push(records);
        name_table_insert(&mut self.projectile_places, name, place);
    }

    /// Empties the unit table.
    pub fn clear_units(&mut self)
        requires
            old(self).wf(),
        ensures
            final(self).wf(),
            forall|name: Seq<char>| #[trigger] final(self).unit_record(name) is None,
            old(self).same_effects(*final(self)),
    {
        self.unit_places = name_table_new();
        self.units = Vec::new();
    }

    /// Empties the projectile table.
    pub fn clear_projectiles(&mut self)
        requires
            old(self).wf(),
        ensures
            final(self).wf(),
            forall|name: Seq<char>| #[trigger] final(self).projectile_records(name) is None,
            forall|name: Seq<char>| #[trigger]
                final(self).melee_records(name) == old(self).melee_records(name),
            old(self).same_units(*final(self)),
    {
        self.projectile_places = name_table_new();
        self.projectiles = Vec::new();
    }

    /// The record of the unit `name`.
    pub fn unit(&self, name: &str) -> (record: Option<&UnitInfo>)
        requires
            self.wf(),
        ensures
            match record {
                Some(info) => self.unit_record(name@) == Some(*info),
                None => self.unit_record(name@) is None,
            },
    {
        match name_table_get(&self.unit_places, name) {
            Some(place) => Some(&self.units[place]),
            None => None,
        }
    }

    /// The first record of the melee effect `name`.
    pub fn melee(&self, name: &str) -> (record: Option<&MeleeInfo>)
        requires
            self.wf(),
        ensures
            match record {
                Some(info) => self.melee_record(name@) == Some(*info),
                None => self.melee_record(name@) is None,
            },
    {
        match name_table_get(&self.melee_places, name) {
            Some(place) => {
                let records = &self.melees[place];
                if records.len() > 0 {
                    Some(&records[0])
                } else {
                    None
                }
            },
            None => None,
        }
    }

    /// The first record of the projectile effect `name`.
    pub fn projectile(&self, name: &str) -> (record: Option<&ProjectileInfo>)
        requires
            self.wf(),
        ensures
            match record {
                Some(info) => self.projectile_record(name@) == Some(*info),
                None => self.projectile_record(name@) is None,
            },
    {
        match name_table_get(&self.projectile_places, name) {
            Some(place) => {
                let records = &self.projectiles[place];
                if records.len() > 0 {
                    Some(&records[0])
                } else {
                    None
                }
            },
            None => None,
        }
    }
}

} // verus!
