//! Map templates, live map instances and the placing of units in them.

use vstd::prelude::*;
use crate::components::{Entity, Interactable};
use crate::game::interactions::Portal;
use crate::game::npc::{Enemy, NPCBundle};
use crate::game::player::PlayerProfile;
use crate::game::thinkers::{get_thinker, is_text, spec_get_thinker, Thinker};
use crate::game::unit::{Changes, Unit};
use crate::game::world::{lemma_same_population, World, WorldView};
use crate::math::{Position, saturating_difference, spec_saturating_difference, UNIT};
use crate::network::{BroadcastScope, outbound, OutboundView, SendServerMessageEvent};
use crate::network::messages::server::{MessageView, ServerMessages};
use crate::network::server::spec_filter_players_on_map_instance;
use crate::network::sync_systems::spawn_message;
use crate::time::Timer;

verus! {

/// The name of the template a map instance was made from.
#[derive(Clone, Debug, PartialEq, Eq)]
pub struct MapName(pub String);

/// Marks the one shared instance of a template, which is never swept.
#[derive(Clone, Copy, Debug, PartialEq, Eq, Structural)]
pub struct GlobalMap;

/// The map instance a unit is a child of.
#[derive(Clone, Copy, Debug, PartialEq, Eq, Structural)]
pub struct MapInstanceEntity(pub Entity);

/// The shape of an object of a map template.
#[derive(Clone, Copy, Debug, PartialEq, Eq, Structural)]
pub enum ObjectShape {
    /// A spawn point.
    Point,
    /// A box nothing can walk through, `width` by `height` sub-units.
    Rect { width: u32, height: u32 },
    /// Any shape the simulation has no use for.
    Other,
}

/// The value of a property of a map or of one of its objects.
#[derive(Clone, Debug, PartialEq, Eq)]
pub enum PropertyValue {
    BoolValue(bool),
    /// A number, in sub-units.
    FloatValue(i32),
    IntValue(i32),
    StringValue(String),
    /// A value of a type the simulation has no use for.
    Other,
}

/// A named property.
#[derive(Clone, Debug, PartialEq, Eq)]
pub struct Property {
    pub name: String,
    pub value: PropertyValue,
}

/// An object of a map template.  Its coordinates are in sub-units from the
/// top left corner of the map, `y` growing downwards.
#[derive(Clone, Debug, PartialEq, Eq)]
pub struct MapObject {
    pub name: String,
    /// What kind of thing the object is.
    pub user_type: String,
    pub shape: ObjectShape,
    pub x: i32,
    pub y: i32,
    pub properties: Vec<Property>,
}

/// The template of a map: what every instance of it starts from.
#[derive(Clone, Debug, PartialEq, Eq)]
pub struct TileMapData {
    /// The name the template is known by.
    pub name: String,
    /// The height of the map in sub-units.
    pub pixel_height: i32,
    pub properties: Vec<Property>,
    /// The objects of the template, layer by layer.
    pub objects: Vec<MapObject>,
}

/// A live copy of a map template, which holds units.
#[derive(Clone, Debug, PartialEq, Eq)]
pub struct MapInstance {
    pub entity: Entity,
    pub name: MapName,
    pub global: Option<GlobalMap>,
    /// The creatures of the template have been spawned.
    pub populated: bool,
}

/// A request to place a unit in a map.
#[derive(Clone, Debug, PartialEq, Eq)]
pub struct Teleport {
    pub entity: Entity,
    pub map: String,
    /// The instance to go to, where the requester knows one.
    pub map_instance: Option<Entity>,
    /// The instance the unit is taken out of: those who stay in it are told
    /// that the unit left.  Nobody is told where the request names none.
    pub prev_map_instance: Option<Entity>,
    pub position: Position,
}

/// A unit was taken out of a map instance: those who stay have to be told.
#[derive(Clone, Copy, Debug, PartialEq, Eq, Structural)]
pub struct DespawnEvent {
    pub entity: Entity,
    pub map: Entity,
}

/// Nanoseconds between two sweeps of the map instances.
pub const CLEANUP_PERIOD: u64 = 300_000_000_000;

/// The catalog of map templates and the live instances made from them.
#[derive(Clone, Debug, PartialEq, Eq)]
pub struct MapManager {
    pub atlas: Vec<TileMapData>,
    pub instances: Vec<MapInstance>,
    pub cleanup_timer: Timer,
}

/// The value `properties` hold under `name`: that of the first property so
/// named.
pub open spec fn spec_property(properties: Seq<Property>, name: Seq<char>) -> Option<
    PropertyValue,
>
    decreases properties.len(),
{
    if properties.len() == 0 {
        None
    } else if properties[0].name@ == name {
        Some(properties[0].value)
    } else {
        spec_property(properties.drop_first(), name)
    }
}

/// The value `properties` hold under `name`.
pub fn property<'a>(properties: &'a Vec<Property>, name: &str) -> (value: Option<
    &'a PropertyValue,
>)
    ensures
        value is Some <==> spec_property(properties@, name@) is Some,
        value is Some ==> *value.unwrap() == spec_property(properties@, name@).unwrap(),
{
    let mut i: usize = 0;
    proof {
        assert(properties@.skip(0) == properties@);
    }
    while i < properties.len()
        invariant
            i <= properties.len(),
            spec_property(properties@, name@) == spec_property(properties@.skip(i as int), name@),
        decreases properties.len() - i,
    {
        proof {
            assert(properties@.skip(i as int).drop_first() == properties@.skip(i + 1));
        }
        if is_text(&properties[i].name, name) {
            return Some(&properties[i].value);
        }
        i += 1;
    }
    None
}

/// The truth value `properties` hold under `name`; false where they hold
/// none.
pub open spec fn spec_flag(properties: Seq<Property>, name: Seq<char>) -> bool {
    spec_property(properties, name) matches Some(PropertyValue::BoolValue(flag)) && flag
}

/// The truth value `properties` hold under `name`.
pub fn flag(properties: &Vec<Property>, name: &str) -> (set: bool)
    ensures
        set == spec_flag(properties@, name@),
{
    match property(properties, name) {
        Some(PropertyValue::BoolValue(flag)) => *flag,
        _ => false,
    }
}

/// The text `properties` hold under `name`.
pub open spec fn spec_text(properties: Seq<Property>, name: Seq<char>) -> Option<String> {
    match spec_property(properties, name) {
        Some(PropertyValue::StringValue(text)) => Some(text),
        _ => None,
    }
}

/// The text `properties` hold under `name`.
pub fn text<'a>(properties: &'a Vec<Property>, name: &str) -> (value: Option<&'a String>)
    ensures
        value is Some <==> spec_text(properties@, name@) is Some,
        value is Some ==> *value.unwrap() == spec_text(properties@, name@).unwrap(),
{
    match property(properties, name) {
        Some(PropertyValue::StringValue(text)) => Some(text),
        _ => None,
    }
}

/// The number `properties` hold under `name`.
pub open spec fn spec_number(properties: Seq<Property>, name: Seq<char>) -> Option<i32> {
    match spec_property(properties, name) {
        Some(PropertyValue::FloatValue(number)) => Some(number),
        _ => None,
    }
}

/// The number `properties` hold under `name`.
pub fn number(properties: &Vec<Property>, name: &str) -> (value: Option<i32>)
    ensures
        value == spec_number(properties@, name@),
{
    match property(properties, name) {
        Some(PropertyValue::FloatValue(number)) => Some(*number),
        _ => None,
    }
}

/// The behavior a map object asks for, where it is a known one.
pub open spec fn spec_thinker_of(object: MapObject) -> Option<Thinker> {
    match spec_text(object.properties@, "thinker"@) {
        Some(name) => spec_get_thinker(name@),
        None => None,
    }
}

/// The way into another map that a map object stands for: the object is a
/// portal and names a map and both coordinates of a point in it.
pub open spec fn spec_portal_of(object: MapObject) -> Option<Portal> {
    if object.user_type@ == "Portal"@ && spec_text(object.properties@, "map"@) is Some
        && spec_number(object.properties@, "x"@) is Some && spec_number(
        object.properties@,
        "y"@,
    ) is Some {
        Some(
            Portal {
                map: spec_text(object.properties@, "map"@).unwrap(),
                position: Position {
                    x: spec_number(object.properties@, "x"@).unwrap(),
                    y: spec_number(object.properties@, "y"@).unwrap(),
                    z: 0,
                },
            },
        )
    } else {
        None
    }
}

/// The height of a map of `height` rows of tiles `tile_height` world units
/// high, in sub-units; the greatest number a coordinate takes where the map
/// is higher than that.
pub open spec fn spec_map_pixel_height(height: u32, tile_height: u32) -> i32 {
    if height * tile_height * UNIT > i32::MAX {
        i32::MAX
    } else {
        (height * tile_height * UNIT) as i32
    }
}

/// The height of a map of `height` rows of tiles `tile_height` world units
/// high, in sub-units.
pub fn map_pixel_height(height: u32, tile_height: u32) -> (pixel_height: i32)
    ensures
        pixel_height == spec_map_pixel_height(height, tile_height),
{
    proof {
        assert(height * tile_height <= 0xFFFF_FFFF * 0xFFFF_FFFF) by (nonlinear_arith)
            requires
                height <= 0xFFFF_FFFF,
                tile_height <= 0xFFFF_FFFF,
        ;
        assert(height * tile_height * UNIT == (height * tile_height) * 1000);
    }
    let pixels: u128 = (height as u128) * (tile_height as u128);
    let sub_units: u128 = pixels * 1000;
    if sub_units > i32::MAX as u128 {
        i32::MAX
    } else {
        sub_units as i32
    }
}

/// Where a map object stands in the world: the template counts `y` downwards
/// from the top of a map `pixel_height` sub-units high, the world upwards
/// from its bottom; creatures stand one world unit above the ground.
pub open spec fn spec_spawn_point(pixel_height: i32, object: MapObject) -> Position {
    Position { x: object.x, y: spec_saturating_difference(pixel_height, object.y), z: UNIT as i32 }
}

/// The creature that `object` puts into the map instance `instance`, under
/// the identifier `entity`.
pub open spec fn spec_npc_from_object(
    entity: Entity,
    instance: Entity,
    pixel_height: i32,
    object: MapObject,
) -> Unit {
    let bundle = NPCBundle::spec_new(
        object.name,
        object.user_type,
        spec_spawn_point(pixel_height, object),
    );
    let unit = Unit::spec_from_bundle(entity, bundle.unit);
    Unit {
        npc: Some(bundle.npc),
        home: Some(bundle.home),
        map_instance: Some(MapInstanceEntity(instance)),
        thinker: spec_thinker_of(object),
        enemy: if spec_flag(object.properties@, "enemy"@) {
            Some(Enemy)
        } else {
            None
        },
        interactable: if spec_flag(object.properties@, "interactable"@) {
            Some(Interactable)
        } else {
            None
        },
        portal: spec_portal_of(object),
        changes: Changes { map_instance: true, ..unit.changes },
        ..unit
    }
}

/// The creature that `object` puts into the map instance `instance`, under
/// the identifier `entity`.
pub fn npc_from_object(entity: Entity, instance: Entity, pixel_height: i32, object: &MapObject) -> (unit:
    Unit)
    ensures
        unit == spec_npc_from_object(entity, instance, pixel_height, *object),
{
    let spawn_point = Position::new(
        object.x,
        saturating_difference(pixel_height, object.y),
        UNIT as i32,
    );
    let bundle = NPCBundle::new(object.name.clone(), object.user_type.clone(), spawn_point);
    let mut unit = Unit::from_bundle(entity, bundle.unit);
    unit.npc = Some(bundle.npc);
    unit.home = Some(bundle.home);
    unit.map_instance = Some(MapInstanceEntity(instance));
    unit.changes.map_instance = true;
    if let Some(name) = text(&object.properties, "thinker") {
        if let Ok(thinker) = get_thinker(name) {
            unit.thinker = Some(thinker);
        }
    }
    if flag(&object.properties, "enemy") {
        unit.enemy = Some(Enemy);
    }
    if flag(&object.properties, "interactable") {
        unit.interactable = Some(Interactable);
    }
    unit.portal = portal_of(object);
    unit
}

/// Whether a template asks for one shared instance.
pub open spec fn spec_is_global(template: TileMapData) -> bool {
    spec_flag(template.properties@, "global_instance"@)
}

/// The index of the template called `name`: the first one so called.
pub open spec fn spec_template(atlas: Seq<TileMapData>, name: Seq<char>) -> Option<int>
    decreases atlas.len(),
{
    if atlas.len() == 0 {
        None
    } else if spec_template(atlas.drop_last(), name) is Some {
        spec_template(atlas.drop_last(), name)
    } else if atlas.last().name@ == name {
        Some(atlas.len() - 1)
    } else {
        None
    }
}

/// A fresh instance of the map `name` under the identifier `entity`.
pub open spec fn spec_fresh_instance(entity: Entity, name: String, global: bool) -> MapInstance {
    MapInstance {
        entity,
        name: MapName(name),
        global: if global {
            Some(GlobalMap)
        } else {
            None
        },
        populated: false,
    }
}

/// The map instance `unit` is a child of.
pub open spec fn spec_instance_of(unit: Unit) -> Option<Entity> {
    match unit.map_instance {
        Some(instance) => Some(instance.0),
        None => None,
    }
}

/// The map instance `unit` is a child of.
pub fn instance_of(unit: &Unit) -> (instance: Option<Entity>)
    ensures
        instance == spec_instance_of(*unit),
{
    match unit.map_instance {
        Some(instance) => Some(instance.0),
        None => None,
    }
}

/// `unit` as placed in the map instance `instance` at `position`.
pub open spec fn spec_placed(unit: Unit, instance: Entity, position: Position) -> Unit {
    Unit {
        map_instance: Some(MapInstanceEntity(instance)),
        position,
        changes: Changes { map_instance: true, position: true, ..unit.changes },
        ..unit
    }
}

/// The index of the shared instance of the map `name`: the first instance
/// that is global and so called.
pub open spec fn spec_global_instance(instances: Seq<MapInstance>, name: Seq<char>) -> Option<int>
    decreases instances.len(),
{
    if instances.len() == 0 {
        None
    } else if spec_global_instance(instances.drop_last(), name) is Some {
        spec_global_instance(instances.drop_last(), name)
    } else if instances.last().global is Some && instances.last().name.0@ == name {
        Some(instances.len() - 1)
    } else {
        None
    }
}

/// A shared instance found among the first `n` is the one found among all.
pub proof fn lemma_global_instance_stays(instances: Seq<MapInstance>, name: Seq<char>, n: int)
    requires
        0 <= n <= instances.len(),
        spec_global_instance(instances.take(n), name) is Some,
    ensures
        spec_global_instance(instances, name) == spec_global_instance(instances.take(n), name),
    decreases instances.len() - n,
{
    if n < instances.len() {
        assert(instances.take(n + 1).drop_last() == instances.take(n));
        lemma_global_instance_stays(instances, name, n + 1);
    } else {
        assert(instances.take(n) == instances);
    }
}

/// Whether one of `units` is a child of the map instance `instance`.
pub open spec fn occupied_by(units: Seq<Unit>, instance: Entity) -> bool {
    exists|i: int|
        0 <= i < units.len() && (#[trigger] units[i]).map_instance == Some(
            MapInstanceEntity(instance),
        )
}

/// Tells of a map instance whether it is shared or occupied by one of
/// `units`.
pub open spec fn survives_among(units: Seq<Unit>) -> spec_fn(MapInstance) -> bool {
    |instance: MapInstance| instance.global is Some || occupied_by(units, instance.entity)
}

/// One element more or none.
pub open spec fn optional<T>(item: Option<T>) -> Seq<T> {
    match item {
        Some(item) => seq![item],
        None => Seq::empty(),
    }
}

impl WorldView {
    /// The map instance a teleport goes to, where there is one already: the
    /// instance asked for if it is live, else the shared instance of the
    /// map.
    pub open spec fn teleport_target(self, t: Teleport) -> Option<Entity> {
        if t.map_instance is Some && self.has_instance(t.map_instance.unwrap()) {
            t.map_instance
        } else {
            match spec_global_instance(self.instances, t.map@) {
                Some(k) => Some(self.instances[k].entity),
                None => None,
            }
        }
    }

    /// Whether a teleport takes place: the unit is there and belongs to a
    /// client, and the instance to go to is there or can be made.
    pub open spec fn teleports(self, t: Teleport) -> bool {
        &&& self.has(t.entity)
        &&& self.units[self.find(t.entity)].client is Some
        &&& self.teleport_target(t) is Some || self.can_spawn()
    }

    /// The map instance a teleport takes the unit out of: the one the
    /// request names as the previous one.
    pub open spec fn teleport_origin(self, t: Teleport) -> Option<Entity> {
        t.prev_map_instance
    }

    /// Teleport: the unit becomes a child of the instance asked for, else of
    /// the shared instance of the map, else of a new instance of the map,
    /// and stands at the position asked for.
    pub open spec fn spec_teleport(self, t: Teleport) -> WorldView {
        if !self.teleports(t) {
            self
        } else {
            let i = self.find(t.entity);
            match self.teleport_target(t) {
                Some(instance) => self.with_unit(
                    i,
                    spec_placed(self.units[i], instance, t.position),
                ),
                None => self.with_new_instance(
                    spec_fresh_instance(Entity(self.next_entity), t.map, false),
                ).with_unit(i, spec_placed(self.units[i], Entity(self.next_entity), t.position)),
            }
        }
    }

    /// What a teleport tells those who stay behind: that the unit left the
    /// previous instance, where the teleport takes place and the request
    /// names one.
    pub open spec fn spec_teleport_despawn(self, t: Teleport) -> Option<DespawnEvent> {
        if self.teleports(t) && self.teleport_origin(t) is Some {
            Some(DespawnEvent { entity: t.entity, map: self.teleport_origin(t).unwrap() })
        } else {
            None
        }
    }

    /// What a teleport tells the client of the unit: which map to load and
    /// where to stand.
    pub open spec fn spec_teleport_message(self, t: Teleport) -> Option<OutboundView> {
        if self.teleports(t) {
            Some(
                OutboundView {
                    scope: BroadcastScope::Direct {
                        client_id: self.units[self.find(t.entity)].client.unwrap().0,
                    },
                    message: MessageView::LoadMap { name: t.map@, position: t.position },
                },
            )
        } else {
            None
        }
    }

    /// The teleports of a tick, one after the other.
    pub open spec fn spec_handle_teleport(self, teleports: Seq<Teleport>) -> WorldView
        decreases teleports.len(),
    {
        if teleports.len() == 0 {
            self
        } else {
            self.spec_handle_teleport(teleports.drop_last()).spec_teleport(teleports.last())
        }
    }

    /// What the teleports of a tick tell those who stay behind.
    pub open spec fn spec_handle_teleport_despawns(self, teleports: Seq<Teleport>) -> Seq<
        DespawnEvent,
    >
        decreases teleports.len(),
    {
        if teleports.len() == 0 {
            Seq::empty()
        } else {
            self.spec_handle_teleport_despawns(teleports.drop_last()) + optional(
                self.spec_handle_teleport(teleports.drop_last()).spec_teleport_despawn(
                    teleports.last(),
                ),
            )
        }
    }

    /// What the teleports of a tick tell the clients of the units.
    pub open spec fn spec_handle_teleport_messages(self, teleports: Seq<Teleport>) -> Seq<
        OutboundView,
    >
        decreases teleports.len(),
    {
        if teleports.len() == 0 {
            Seq::empty()
        } else {
            self.spec_handle_teleport_messages(teleports.drop_last()) + optional(
                self.spec_handle_teleport(teleports.drop_last()).spec_teleport_message(
                    teleports.last(),
                ),
            )
        }
    }

    /// Whether a unit is a child of the map instance `instance`.
    pub open spec fn occupied(self, instance: Entity) -> bool {
        occupied_by(self.units, instance)
    }

    /// Whether a sweep leaves `instance` in place: it is shared or occupied.
    pub open spec fn survives(self, instance: MapInstance) -> bool {
        instance.global is Some || self.occupied(instance.entity)
    }

    /// `survives` as a function value.
    pub open spec fn survives_fn(self) -> spec_fn(MapInstance) -> bool {
        survives_among(self.units)
    }

    /// Cleanup: the sweep timer advances by `delta` nanoseconds; where it
    /// runs out, every map instance that is neither shared nor occupied is
    /// taken away.
    pub open spec fn spec_map_instance_cleanup(self, delta: u64) -> WorldView {
        let timer = self.cleanup_timer.spec_tick(delta);
        if timer.finished {
            WorldView {
                instances: self.instances.filter(self.survives_fn()),
                cleanup_timer: timer,
                ..self
            }
        } else {
            WorldView { cleanup_timer: timer, ..self }
        }
    }

    /// The shared instance that startup makes for the template at index `t`,
    /// where it asks for one and identifiers are left.
    pub open spec fn spec_setup_template(self, t: int) -> WorldView {
        if spec_is_global(self.atlas[t]) && self.can_spawn() {
            self.with_new_instance(
                spec_fresh_instance(Entity(self.next_entity), self.atlas[t].name, true),
            )
        } else {
            self
        }
    }

    /// Startup for the first `n` templates.
    pub open spec fn spec_setup_upto(self, n: int) -> WorldView
        decreases n,
    {
        if n <= 0 {
            self
        } else {
            self.spec_setup_upto(n - 1).spec_setup_template(n - 1)
        }
    }

    /// Startup: every template that asks for a shared instance gets one.
    pub open spec fn spec_setup_map_manager(self) -> WorldView {
        self.spec_setup_upto(self.atlas.len() as int)
    }

    /// Whether an identifier is left for a new entity.
    pub open spec fn can_spawn(self) -> bool {
        self.next_entity < u64::MAX
    }

    /// This world with one more unit, which carries no threat table.
    pub open spec fn with_new_unit(self, unit: Unit) -> WorldView {
        WorldView {
            units: self.units.push(unit),
            threats: self.threats.push(None),
            next_entity: (self.next_entity + 1) as u64,
            ..self
        }
    }

    /// This world with one more map instance.
    pub open spec fn with_new_instance(self, instance: MapInstance) -> WorldView {
        WorldView {
            instances: self.instances.push(instance),
            next_entity: (self.next_entity + 1) as u64,
            ..self
        }
    }

    /// Spawning for one object of a template: a spawn point puts a creature
    /// into `instance`, as long as identifiers are left.
    pub open spec fn spec_spawn_object(self, instance: Entity, pixel_height: i32, object: MapObject) -> WorldView {
        if object.shape is Point && self.can_spawn() {
            self.with_new_unit(
                spec_npc_from_object(Entity(self.next_entity), instance, pixel_height, object),
            )
        } else {
            self
        }
    }

    /// Spawning for the objects of a template, in the template's order.
    pub open spec fn spec_spawn_objects(
        self,
        instance: Entity,
        pixel_height: i32,
        objects: Seq<MapObject>,
    ) -> WorldView
        decreases objects.len(),
    {
        if objects.len() == 0 {
            self
        } else {
            self.spec_spawn_objects(instance, pixel_height, objects.drop_last()).spec_spawn_object(
                instance,
                pixel_height,
                objects.last(),
            )
        }
    }

    /// This world with the map instance at index `k` marked as populated.
    pub open spec fn with_populated(self, k: int) -> WorldView {
        WorldView {
            instances: self.instances.update(
                k,
                MapInstance { populated: true, ..self.instances[k] },
            ),
            ..self
        }
    }

    /// Spawning for the map instance at index `k`: where it has not been
    /// populated yet, it is now, with the creatures of its template if the
    /// atlas holds one of its name.
    pub open spec fn spec_populate(self, k: int) -> WorldView {
        if self.instances[k].populated {
            self
        } else {
            match spec_template(self.atlas, self.instances[k].name.0@) {
                Some(t) => self.with_populated(k).spec_spawn_objects(
                    self.instances[k].entity,
                    self.atlas[t].pixel_height,
                    self.atlas[t].objects@,
                ),
                None => self.with_populated(k),
            }
        }
    }

    /// Spawning for the first `n` map instances.
    pub open spec fn spec_spawn_units_upto(self, n: int) -> WorldView
        decreases n,
    {
        if n <= 0 {
            self
        } else {
            self.spec_spawn_units_upto(n - 1).spec_populate(n - 1)
        }
    }

    /// Spawning: every map instance that has not been populated yet gets the
    /// creatures of its template, once.
    pub open spec fn spec_spawn_units(self) -> WorldView {
        self.spec_spawn_units_upto(self.instances.len() as int)
    }
}

impl World {
    /// The index of the template called `name`.
    pub fn template_index(&self, name: &String) -> (index: Option<usize>)
        ensures
            index is Some <==> spec_template(self@.atlas, name@) is Some,
            index is Some ==> index.unwrap() == spec_template(self@.atlas, name@).unwrap(),
            index is Some ==> index.unwrap() < self.maps.atlas@.len(),
    {
        find_template(&self.maps.atlas, name)
    }

    /// The index of the shared instance of the map `name`.
    pub fn global_instance_index(&self, name: &String) -> (index: Option<usize>)
        ensures
            index is Some <==> spec_global_instance(self@.instances, name@) is Some,
            index is Some ==> index.unwrap() == spec_global_instance(
                self@.instances,
                name@,
            ).unwrap(),
            index is Some ==> index.unwrap() < self.maps.instances@.len(),
    {
        let mut i: usize = 0;
        while i < self.maps.instances.len()
            invariant
                i <= self.maps.instances.len(),
                spec_global_instance(self.maps.instances@.take(i as int), name@) is None,
            decreases self.maps.instances.len() - i,
        {
            proof {
                assert(self.maps.instances@.take(i + 1).drop_last()
                    == self.maps.instances@.take(i as int));
            }
            if self.maps.instances[i].global.is_some() && self.maps.instances[i].name.0 == *name {
                proof {
                    lemma_global_instance_stays(self.maps.instances@, name@, i + 1);
                }
                return Some(i);
            }
            i += 1;
        }
        proof {
            assert(self.maps.instances@.take(i as int) == self.maps.instances@);
        }
        None
    }

    /// Adds a map instance that bears the next identifier.
    pub(crate) fn open_instance(&mut self, instance: MapInstance)
        requires
            old(self)@.wf(),
            old(self)@.can_spawn(),
            instance.entity == Entity(old(self)@.next_entity),
        ensures
            final(self)@.wf(),
            final(self)@ =~= old(self)@.with_new_instance(instance),
    {
        self.next_entity = self.next_entity + 1;
        self.maps.instances.push(instance);
        proof {
            let w = old(self)@;
            assert(self@.threats =~= w.threats);
            assert(self@.ids() =~= w.ids());
            assert(self@.instance_ids() =~= w.instance_ids().push(instance.entity));
            assert forall|i: int, j: int|
                0 <= i < self@.instance_ids().len() && 0 <= j < self@.instance_ids().len() && i
                    != j implies self@.instance_ids()[i] != self@.instance_ids()[j] by {
                if i < w.instances.len() {
                    assert(w.instances[i].entity.0 < w.next_entity);
                }
                if j < w.instances.len() {
                    assert(w.instances[j].entity.0 < w.next_entity);
                }
            }
        }
    }

    /// Makes the shared instances the templates ask for.
    pub fn setup_map_manager(&mut self)
        requires
            old(self)@.wf(),
        ensures
            final(self)@.wf(),
            final(self)@ == old(self)@.spec_setup_map_manager(),
    {
        let mut t: usize = 0;
        while t < self.maps.atlas.len()
            invariant
                t <= self.maps.atlas.len(),
                self@.wf(),
                self@.atlas == old(self)@.atlas,
                self@ == old(self)@.spec_setup_upto(t as int),
            decreases self.maps.atlas.len() - t,
        {
            if flag(&self.maps.atlas[t].properties, "global_instance") && self.next_entity
                < u64::MAX {
                let instance = MapInstance {
                    entity: Entity(self.next_entity),
                    name: MapName(self.maps.atlas[t].name.clone()),
                    global: Some(GlobalMap),
                    populated: false,
                };
                self.open_instance(instance);
            }
            t += 1;
        }
    }

    /// Places the unit of `t` in the map it asks for.  Tells what to say to
    /// those the unit leaves behind, and to its client.
    pub fn teleport(&mut self, t: &Teleport) -> (said: (
        Option<DespawnEvent>,
        Option<SendServerMessageEvent>,
    ))
        requires
            old(self)@.wf(),
        ensures
            final(self)@.wf(),
            final(self)@ =~= old(self)@.spec_teleport(*t),
            said.0 == old(self)@.spec_teleport_despawn(*t),
            said.1 is Some <==> old(self)@.spec_teleport_message(*t) is Some,
            said.1 is Some ==> said.1.unwrap()@ == old(self)@.spec_teleport_message(*t).unwrap(),
    {
        let i: usize = match self.index_of(t.entity) {
            Some(i) => i,
            None => {
                return (None, None);
            },
        };
        let client_id: u64 = match self.units[i].client {
            Some(client) => client.0,
            None => {
                return (None, None);
            },
        };
        let mut map_instance: Option<Entity> = None;
        if let Some(dest_instance) = t.map_instance {
            if self.instance_index_of(dest_instance).is_some() {
                map_instance = Some(dest_instance);
            }
        }
        if map_instance.is_none() {
            if let Some(k) = self.global_instance_index(&t.map) {
                map_instance = Some(self.maps.instances[k].entity);
            }
        }
        let target: Entity = match map_instance {
            Some(instance) => instance,
            None => {
                if self.next_entity == u64::MAX {
                    return (None, None);
                }
                let new_map_instance = Entity(self.next_entity);
                self.open_instance(
                    MapInstance {
                        entity: new_map_instance,
                        name: MapName(t.map.clone()),
                        global: None,
                        populated: false,
                    },
                );
                new_map_instance
            },
        };
        let left: Option<DespawnEvent> = match t.prev_map_instance {
            Some(prev_instance) => Some(DespawnEvent { entity: t.entity, map: prev_instance }),
            None => None,
        };
        self.units[i].map_instance = Some(MapInstanceEntity(target));
        self.units[i].position = t.position;
        self.units[i].changes.map_instance = true;
        self.units[i].changes.position = true;
        proof {
            let w = old(self)@;
            let mid = if w.teleport_target(*t) is Some {
                w
            } else {
                w.with_new_instance(spec_fresh_instance(Entity(w.next_entity), t.map, false))
            };
            lemma_same_population(mid, self@);
        }
        (
            left,
            Some(
                SendServerMessageEvent::directly_to(
                    client_id,
                    ServerMessages::LoadMap { name: t.map.clone(), position: t.position },
                ),
            ),
        )
    }

    /// Carries out the teleports of a tick, one after the other.  Tells what
    /// to say to those the units leave behind, and to their clients.
    pub fn handle_teleport(&mut self, teleports: &Vec<Teleport>) -> (said: (
        Vec<DespawnEvent>,
        Vec<SendServerMessageEvent>,
    ))
        requires
            old(self)@.wf(),
        ensures
            final(self)@.wf(),
            final(self)@ == old(self)@.spec_handle_teleport(teleports@),
            said.0@ == old(self)@.spec_handle_teleport_despawns(teleports@),
            outbound(said.1@) == old(self)@.spec_handle_teleport_messages(teleports@),
    {
        let mut despawns: Vec<DespawnEvent> = Vec::new();
        let mut messages: Vec<SendServerMessageEvent> = Vec::new();
        let mut i: usize = 0;
        proof {
            assert(outbound(messages@) =~= Seq::empty());
        }
        while i < teleports.len()
            invariant
                i <= teleports.len(),
                self@.wf(),
                self@ == old(self)@.spec_handle_teleport(teleports@.take(i as int)),
                despawns@ == old(self)@.spec_handle_teleport_despawns(teleports@.take(i as int)),
                outbound(messages@) == old(self)@.spec_handle_teleport_messages(
                    teleports@.take(i as int),
                ),
            decreases teleports.len() - i,
        {
            proof {
                assert(teleports@.take(i + 1).drop_last() == teleports@.take(i as int));
            }
            let ghost before = messages@;
            let said = self.teleport(&teleports[i]);
            if let Some(despawn) = said.0 {
                despawns.push(despawn);
            }
            if let Some(message) = said.1 {
                messages.push(message);
                proof {
                    assert(outbound(messages@) =~= outbound(before) + seq![message@]);
                }
            }
            i += 1;
        }
        proof {
            assert(teleports@.take(i as int) == teleports@);
        }
        (despawns, messages)
    }

    /// Whether a unit is a child of the map instance `instance`.
    pub fn is_occupied(&self, instance: Entity) -> (occupied: bool)
        ensures
            occupied == self@.occupied(instance),
    {
        let mut i: usize = 0;
        while i < self.units.len()
            invariant
                i <= self.units.len(),
                forall|k: int|
                    0 <= k < i ==> (#[trigger] self.units@[k]).map_instance != Some(
                        MapInstanceEntity(instance),
                    ),
            decreases self.units.len() - i,
        {
            if let Some(parent) = self.units[i].map_instance {
                if parent.0 == instance {
                    return true;
                }
            }
            i += 1;
        }
        false
    }

    /// The map instances that a unit is a child of.
    pub fn instances_in_use(&self) -> (in_use: std::collections::HashSet<u64>)
        ensures
            forall|id: u64| in_use@.contains(id) <==> self@.occupied(Entity(id)),
    {
        let mut in_use: std::collections::HashSet<u64> = std::collections::HashSet::new();
        let mut i: usize = 0;
        while i < self.units.len()
            invariant
                i <= self.units.len(),
                forall|id: u64|
                    in_use@.contains(id) <==> occupied_by(self.units@.take(i as int), Entity(id)),
            decreases self.units.len() - i,
        {
            let ghost before = in_use@;
            let ghost seen = self.units@.take(i as int);
            let ghost more = self.units@.take(i + 1);
            if let Some(parent) = self.units[i].map_instance {
                let instance: Entity = parent.0;
                in_use.insert(instance.0);
            }
            proof {
                assert forall|id: u64|
                    in_use@.contains(id) <==> occupied_by(more, Entity(id)) by {
                    let here = self.units@[i as int].map_instance == Some(
                        MapInstanceEntity(Entity(id)),
                    );
                    assert(in_use@.contains(id) <==> before.contains(id) || here);
                    if occupied_by(seen, Entity(id)) {
                        let k = choose|k: int|
                            0 <= k < seen.len() && (#[trigger] seen[k]).map_instance == Some(
                                MapInstanceEntity(Entity(id)),
                            );
                        assert(more[k] == seen[k]);
                    }
                    if here {
                        assert(more[i as int] == self.units@[i as int]);
                    }
                    if occupied_by(more, Entity(id)) {
                        let k = choose|k: int|
                            0 <= k < more.len() && (#[trigger] more[k]).map_instance == Some(
                                MapInstanceEntity(Entity(id)),
                            );
                        if k < i {
                            assert(seen[k] == more[k]);
                        }
                    }
                }
            }
            i += 1;
        }
        proof {
            assert(self.units@.take(i as int) == self.units@);
        }
        in_use
    }

    /// Lets `delta` nanoseconds pass on the sweep timer and, where it runs
    /// out, takes away every map instance that is neither shared nor
    /// occupied.
    pub fn map_instance_cleanup(&mut self, delta: u64)
        requires
            old(self)@.wf(),
        ensures
            final(self)@.wf(),
            final(self)@ =~= old(self)@.spec_map_instance_cleanup(delta),
    {
        self.maps.cleanup_timer.tick(delta);
        proof {
            lemma_same_population(old(self)@, self@);
        }
        if !self.maps.cleanup_timer.finished() {
            return ;
        }
        let ghost start = self@;
        let ghost keep = start.survives_fn();
        let in_use = self.instances_in_use();
        let mut i: usize = 0;
        let mut done: Ghost<int> = Ghost(0);
        proof {
            assert(start.instances.take(0).filter(keep) =~= Seq::empty()) by {
                reveal(Seq::filter);
            }
            assert(start.instances.skip(0) =~= start.instances);
        }
        while i < self.maps.instances.len()
            invariant
                0 <= done@ <= start.instances.len(),
                start.wf(),
                self@.wf(),
                keep == start.survives_fn(),
                self.units == old(self).units,
                self.threats == old(self).threats,
                self.network == old(self).network,
                self.recovery == old(self).recovery,
                self.next_entity == old(self).next_entity,
                self.profile == old(self).profile,
                self.maps.atlas == old(self).maps.atlas,
                self.maps.cleanup_timer == start.cleanup_timer,
                start.units == self.units@,
                forall|id: u64| in_use@.contains(id) <==> start.occupied(Entity(id)),
                i == start.instances.take(done@).filter(keep).len(),
                self.maps.instances@ == start.instances.take(done@).filter(keep)
                    + start.instances.skip(done@),
            decreases start.instances.len() - done@,
        {
            proof {
                assert(start.instances.take(done@ + 1).drop_last() == start.instances.take(
                    done@,
                ));
                assert(self.maps.instances@[i as int] == start.instances.skip(done@)[0]);
            }
            let stays: bool = self.maps.instances[i].global.is_some() || in_use.contains(
                &self.maps.instances[i].entity.0,
            );
            proof {
                let instance = self.maps.instances@[i as int].entity;
                assert(instance == Entity(instance.0));
                assert(in_use@.contains(instance.0) == start.occupied(instance));
                assert(stays == keep(start.instances[done@]));
            }
            proof {
                let kept = start.instances.take(done@).filter(keep);
                let next = start.instances[done@];
                assert(start.instances.take(done@ + 1) =~= start.instances.take(done@).push(next));
                start.instances.take(done@).lemma_filter_push(next, keep);
                assert(start.instances.take(done@ + 1).filter(keep) == if keep(next) {
                    kept.push(next)
                } else {
                    kept
                });
                assert(start.instances.skip(done@) =~= seq![next] + start.instances.skip(
                    done@ + 1,
                ));
            }
            if stays {
                proof {
                    assert(self.maps.instances@ =~= start.instances.take(done@ + 1).filter(keep)
                        + start.instances.skip(done@ + 1));
                }
                i += 1;
            } else {
                let ghost before = self@;
                self.maps.instances.remove(i);
                proof {
                    assert(self.maps.instances@ =~= start.instances.take(done@ + 1).filter(keep)
                        + start.instances.skip(done@ + 1));
                    lemma_remove_instance(before, i as int);
                    assert(self@ =~= (WorldView {
                        instances: before.instances.remove(i as int),
                        ..before
                    }));
                }
            }
            proof {
                done@ = done@ + 1;
            }
        }
        proof {
            assert(start.instances.skip(done@).len() == 0);
            assert(done@ == start.instances.len());
            assert(start.instances.take(done@) == start.instances);
            assert(self.maps.instances@ =~= start.instances.filter(keep));
        }
    }

    /// Adds a unit that bears the next identifier.
    pub(crate) fn place(&mut self, unit: Unit)
        requires
            old(self)@.wf(),
            old(self)@.can_spawn(),
            unit.entity == Entity(old(self)@.next_entity),
            unit.in_combat is None,
        ensures
            final(self)@.wf(),
            final(self)@ =~= old(self)@.with_new_unit(unit),
    {
        self.next_entity = self.next_entity + 1;
        self.units.push(unit);
        self.threats.push(None);
        proof {
            let w = old(self)@;
            assert(self@.threats =~= w.threats.push(None));
            assert(self@.instance_ids() =~= w.instance_ids());
            assert(self@.ids() =~= w.ids().push(unit.entity));
            assert forall|i: int, j: int|
                0 <= i < self@.ids().len() && 0 <= j < self@.ids().len() && i != j implies self@.ids()[i]
                != self@.ids()[j] by {
                if i < w.units.len() {
                    assert(w.units[i].entity.0 < w.next_entity);
                }
                if j < w.units.len() {
                    assert(w.units[j].entity.0 < w.next_entity);
                }
            }
        }
    }

    /// Populates the map instance at index `k`, where that has not been done
    /// yet.
    pub(crate) fn populate(&mut self, k: usize)
        requires
            old(self)@.wf(),
            k < old(self)@.instances.len(),
        ensures
            final(self)@.wf(),
            final(self)@ == old(self)@.spec_populate(k as int),
            final(self)@.instances.len() == old(self)@.instances.len(),
    {
        if self.maps.instances[k].populated {
            return ;
        }
        self.maps.instances[k].populated = true;
        proof {
            lemma_same_population(old(self)@, self@);
            assert(self@ =~= old(self)@.with_populated(k as int));
        }
        let instance: Entity = self.maps.instances[k].entity;
        let found = self.template_index(&self.maps.instances[k].name.0);
        if let Some(t) = found {
            let pixel_height: i32 = self.maps.atlas[t].pixel_height;
            let count: usize = self.maps.atlas[t].objects.len();
            let ghost start = self@;
            let ghost objects = self.maps.atlas@[t as int].objects@;
            let mut o: usize = 0;
            while o < count
                invariant
                    o <= count,
                    t < self.maps.atlas@.len(),
                    self.maps.atlas@ == start.atlas,
                    objects == self.maps.atlas@[t as int].objects@,
                    count == objects.len(),
                    self@.wf(),
                    self@.instances.len() == start.instances.len(),
                    self@ == start.spec_spawn_objects(
                        instance,
                        pixel_height,
                        objects.take(o as int),
                    ),
                decreases count - o,
            {
                proof {
                    assert(objects.take(o + 1).drop_last() == objects.take(o as int));
                }
                let unit = if let ObjectShape::Point = self.maps.atlas[t].objects[o].shape {
                    if self.next_entity < u64::MAX {
                        Some(
                            npc_from_object(
                                Entity(self.next_entity),
                                instance,
                                pixel_height,
                                &self.maps.atlas[t].objects[o],
                            ),
                        )
                    } else {
                        None
                    }
                } else {
                    None
                };
                if let Some(unit) = unit {
                    self.place(unit);
                }
                o += 1;
            }
            proof {
                assert(objects.take(o as int) == objects);
            }
        }
    }

    /// Gives every map instance that has not been populated yet the
    /// creatures of its template.
    pub fn spawn_units(&mut self)
        requires
            old(self)@.wf(),
        ensures
            final(self)@.wf(),
            final(self)@ == old(self)@.spec_spawn_units(),
    {
        let mut k: usize = 0;
        while k < self.maps.instances.len()
            invariant
                k <= self.maps.instances.len(),
                self@.wf(),
                self@.instances.len() == old(self)@.instances.len(),
                self@ == old(self)@.spec_spawn_units_upto(k as int),
            decreases self.maps.instances.len() - k,
        {
            self.populate(k);
            k += 1;
        }
    }
}

/// A template found among the first `n` is the one found in the whole atlas.
pub proof fn lemma_template_stays(atlas: Seq<TileMapData>, name: Seq<char>, n: int)
    requires
        0 <= n <= atlas.len(),
        spec_template(atlas.take(n), name) is Some,
    ensures
        spec_template(atlas, name) == spec_template(atlas.take(n), name),
    decreases atlas.len() - n,
{
    if n < atlas.len() {
        assert(atlas.take(n + 1).drop_last() == atlas.take(n));
        lemma_template_stays(atlas, name, n + 1);
    } else {
        assert(atlas.take(n) == atlas);
    }
}

/// What is wrong with a catalog of map templates.
#[derive(Clone, Copy, Debug, PartialEq, Eq, Structural)]
pub enum ConfigError {
    /// No template bears the name of the map that players start in.
    UnknownStartMap,
    /// The portal that is object `object` of template `template` leads to a
    /// map that no template bears the name of.
    UnknownDestinationMap { template: usize, object: usize },
}

/// Whether object `o` of template `t` is a portal to a map that no template
/// of `atlas` bears the name of.
pub open spec fn leads_nowhere(atlas: Seq<TileMapData>, t: int, o: int) -> bool {
    &&& 0 <= t < atlas.len()
    &&& 0 <= o < atlas[t].objects@.len()
    &&& spec_portal_of(atlas[t].objects@[o]) is Some
    &&& spec_template(atlas, spec_portal_of(atlas[t].objects@[o]).unwrap().map@) is None
}

/// Whether `(t, o)` comes before `(template, object)` in the order of the
/// atlas.
pub open spec fn comes_before(t: int, o: int, template: int, object: int) -> bool {
    t < template || (t == template && o < object)
}

/// What startup finds wrong with `atlas`, if anything: that the map players
/// start in is missing; else the first portal that leads nowhere.
pub open spec fn spec_validate(atlas: Seq<TileMapData>, start: Seq<char>) -> Result<
    (),
    ConfigError,
> {
    if spec_template(atlas, start) is None {
        Err(ConfigError::UnknownStartMap)
    } else if exists|t: int, o: int| leads_nowhere(atlas, t, o) {
        let first = choose|first: (int, int)|
            leads_nowhere(atlas, first.0, first.1) && forall|t: int, o: int|
                comes_before(t, o, first.0, first.1) ==> !leads_nowhere(atlas, t, o);
        Err(
            ConfigError::UnknownDestinationMap {
                template: first.0 as usize,
                object: first.1 as usize,
            },
        )
    } else {
        Ok(())
    }
}

/// The index of the template of `atlas` called `name`.
pub fn find_template(atlas: &Vec<TileMapData>, name: &String) -> (index: Option<usize>)
    ensures
        index is Some <==> spec_template(atlas@, name@) is Some,
        index is Some ==> index.unwrap() == spec_template(atlas@, name@).unwrap(),
        index is Some ==> index.unwrap() < atlas@.len(),
{
    let mut i: usize = 0;
    while i < atlas.len()
        invariant
            i <= atlas.len(),
            spec_template(atlas@.take(i as int), name@) is None,
        decreases atlas.len() - i,
    {
        proof {
            assert(atlas@.take(i + 1).drop_last() == atlas@.take(i as int));
        }
        if atlas[i].name == *name {
            proof {
                lemma_template_stays(atlas@, name@, i + 1);
            }
            return Some(i);
        }
        i += 1;
    }
    proof {
        assert(atlas@.take(i as int) == atlas@);
    }
    None
}

/// The way into another map that a map object stands for.
pub fn portal_of(object: &MapObject) -> (portal: Option<Portal>)
    ensures
        portal == spec_portal_of(*object),
{
    if is_text(&object.user_type, "Portal") {
        let map_name = text(&object.properties, "map");
        let x = number(&object.properties, "x");
        let y = number(&object.properties, "y");
        match (map_name, x, y) {
            (Some(map_name), Some(x), Some(y)) => Some(
                Portal { map: map_name.clone(), position: Position::new(x, y, 0) },
            ),
            _ => None,
        }
    } else {
        None
    }
}

/// Checks a catalog of map templates before a world is made of it: the map
/// players start in has to be there, and so has every map a portal leads
/// to.
pub fn validate(atlas: &Vec<TileMapData>, profile: &PlayerProfile) -> (checked: Result<
    (),
    ConfigError,
>)
    ensures
        checked == spec_validate(atlas@, profile.map@),
{
    if find_template(atlas, &profile.map).is_none() {
        return Err(ConfigError::UnknownStartMap);
    }
    let mut t: usize = 0;
    while t < atlas.len()
        invariant
            t <= atlas.len(),
            spec_template(atlas@, profile.map@) is Some,
            forall|a: int, b: int| a < t ==> !leads_nowhere(atlas@, a, b),
        decreases atlas.len() - t,
    {
        let mut o: usize = 0;
        while o < atlas[t].objects.len()
            invariant
                t < atlas.len(),
                o <= atlas@[t as int].objects@.len(),
                spec_template(atlas@, profile.map@) is Some,
                forall|a: int, b: int| a < t ==> !leads_nowhere(atlas@, a, b),
                forall|b: int| b < o ==> !leads_nowhere(atlas@, t as int, b),
            decreases atlas@[t as int].objects@.len() - o,
        {
            if let Some(portal) = portal_of(&atlas[t].objects[o]) {
                if find_template(atlas, &portal.map).is_none() {
                    proof {
                        let found = (t as int, o as int);
                        assert(leads_nowhere(atlas@, found.0, found.1));
                        assert forall|a: int, b: int|
                            comes_before(a, b, found.0, found.1) implies !leads_nowhere(
                            atlas@,
                            a,
                            b,
                        ) by {}
                        let first = choose|first: (int, int)|
                            leads_nowhere(atlas@, first.0, first.1) && forall|a: int, b: int|
                                comes_before(a, b, first.0, first.1) ==> !leads_nowhere(
                                    atlas@,
                                    a,
                                    b,
                                );
                        assert(!comes_before(first.0, first.1, found.0, found.1));
                        assert(!comes_before(found.0, found.1, first.0, first.1));
                    }
                    return Err(ConfigError::UnknownDestinationMap { template: t, object: o });
                }
            }
            o += 1;
        }
        t += 1;
    }
    proof {
        assert forall|a: int, b: int| !leads_nowhere(atlas@, a, b) by {}
    }
    Ok(())
}

impl World {
    /// A world over the templates of `atlas` that is ready for its first
    /// tick: the catalog is checked, and every template that asks for a
    /// shared instance has one.
    pub fn startup(atlas: Vec<TileMapData>, profile: PlayerProfile) -> (world: Result<
        World,
        ConfigError,
    >)
        ensures
            world is Ok <==> spec_validate(atlas@, profile.map@) is Ok,
            world is Err ==> Err::<(), ConfigError>(world->Err_0) == spec_validate(
                atlas@,
                profile.map@,
            ),
            world is Ok ==> world->Ok_0@.wf() && world->Ok_0@ == WorldView::spec_new(
                atlas@,
                profile,
            ).spec_setup_map_manager(),
    {
        match validate(&atlas, &profile) {
            Err(error) => Err(error),
            Ok(()) => {
                let mut world = World::new(atlas, profile);
                world.setup_map_manager();
                Ok(world)
            },
        }
    }
}

/// A world stays well-formed when a map instance is taken away.
pub proof fn lemma_remove_instance(w: WorldView, i: int)
    requires
        w.wf(),
        0 <= i < w.instances.len(),
    ensures
        (WorldView { instances: w.instances.remove(i), ..w }).wf(),
{
    let after = WorldView { instances: w.instances.remove(i), ..w };
    assert(after.ids() =~= w.ids());
    assert forall|a: int, b: int|
        0 <= a < after.instance_ids().len() && 0 <= b < after.instance_ids().len() && a
            != b implies after.instance_ids()[a] != after.instance_ids()[b] by {
        let a0 = if a < i {
            a
        } else {
            a + 1
        };
        let b0 = if b < i {
            b
        } else {
            b + 1
        };
        assert(after.instance_ids()[a] == w.instance_ids()[a0]);
        assert(after.instance_ids()[b] == w.instance_ids()[b0]);
    }
    assert forall|k: int| 0 <= k < after.instances.len() implies (
    #[trigger] after.instances[k]).entity.0 < after.next_entity by {
        let k0 = if k < i {
            k
        } else {
            k + 1
        };
        assert(after.instances[k] == w.instances[k0]);
    }
    assert forall|a: int, b: int|
        0 <= a < after.units.len() && 0 <= b < after.instances.len() implies (
    #[trigger] after.units[a]).entity != (#[trigger] after.instances[b]).entity by {
        let b0 = if b < i {
            b
        } else {
            b + 1
        };
        assert(after.instances[b] == w.instances[b0]);
    }
}

/// Cleanup never takes away a map instance that is shared or occupied.
pub proof fn lemma_cleanup_spares_occupied(w: WorldView, delta: u64, k: int)
    requires
        w.wf(),
        0 <= k < w.instances.len(),
        w.instances[k].global is Some || w.occupied(w.instances[k].entity),
    ensures
        w.spec_map_instance_cleanup(delta).has_instance(w.instances[k].entity),
{
    let after = w.spec_map_instance_cleanup(delta);
    if w.cleanup_timer.spec_tick(delta).finished {
        w.instances.lemma_filter_contains(w.survives_fn(), k);
        let j = choose|j: int|
            0 <= j < after.instances.len() && after.instances[j] == w.instances[k];
        assert(after.instance_ids()[j] == w.instances[k].entity);
    } else {
        assert(after.instance_ids()[k] == w.instances[k].entity);
    }
}

/// Cleanup takes away every map instance that is neither shared nor
/// occupied, once the sweep timer runs out.
pub proof fn lemma_cleanup_sweeps_empty(w: WorldView, delta: u64, k: int)
    requires
        w.wf(),
        0 <= k < w.instances.len(),
        w.cleanup_timer.spec_tick(delta).finished,
        w.instances[k].global is None,
        !w.occupied(w.instances[k].entity),
    ensures
        !w.spec_map_instance_cleanup(delta).has_instance(w.instances[k].entity),
{
    let after = w.spec_map_instance_cleanup(delta);
    let keep = w.survives_fn();
    if after.has_instance(w.instances[k].entity) {
        let j = choose|j: int|
            0 <= j < after.instance_ids().len() && after.instance_ids()[j]
                == w.instances[k].entity;
        w.instances.lemma_filter_pred(keep, j);
        assert(w.instances.filter(keep).contains(after.instances[j]));
        w.instances.lemma_filter_contains_rev(keep, after.instances[j]);
        let m = choose|m: int| 0 <= m < w.instances.len() && w.instances[m] == after.instances[j];
        assert(w.instance_ids()[m] == w.instance_ids()[k]);
        assert(m == k);
    }
}

/// Teleport leaves the unit with one membership: afterwards the unit is a
/// child of the instance it was sent to and of no other, and that instance
/// is live.  Those in the previous instance that the request names are told
/// once, and nobody is where it names none.  The arrival is marked for the
/// replication pass, which tells the others in the new instance once.  An
/// instance made for the teleport is new.
pub proof fn lemma_teleport_membership(w: WorldView, t: Teleport)
    requires
        w.wf(),
        w.teleports(t),
    ensures
        ({
            let after = w.spec_teleport(t);
            let i = w.find(t.entity);
            let target = after.units[i].map_instance.unwrap().0;
            &&& after.wf()
            &&& after.units[i].entity == t.entity
            &&& after.units[i].map_instance is Some
            &&& after.has_instance(target)
            &&& after.units[i].position == t.position
            &&& forall|m: Entity|
                spec_filter_players_on_map_instance(after.units[i], m) <==> m == target
            &&& t.prev_map_instance is Some ==> w.spec_teleport_despawn(t) == Some(
                DespawnEvent { entity: t.entity, map: t.prev_map_instance.unwrap() },
            )
            &&& t.prev_map_instance is None ==> w.spec_teleport_despawn(t) is None
            &&& spawn_message(after.units[i]) == Some(
                OutboundView {
                    scope: BroadcastScope::Instance { instance: target, except: Some(t.entity) },
                    message: MessageView::Spawn { entity: t.entity },
                },
            )
            &&& w.teleport_target(t) is None ==> !w.has_instance(target)
                && after.instances.len() == w.instances.len() + 1
        }),
{
    let after = w.spec_teleport(t);
    let i = w.find(t.entity);
    assert(0 <= i < w.units.len() && w.units[i].entity == t.entity) by {
        assert(w.ids()[i] == t.entity);
    }
    match w.teleport_target(t) {
        Some(instance) => {
            lemma_same_population(w, after);
            if !(t.map_instance is Some && w.has_instance(t.map_instance.unwrap())) {
                let k = spec_global_instance(w.instances, t.map@).unwrap();
                lemma_global_instance_bounds(w.instances, t.map@);
                assert(w.instance_ids()[k] == instance);
            }
        },
        None => {
            let fresh = spec_fresh_instance(Entity(w.next_entity), t.map, false);
            let opened = w.with_new_instance(fresh);
            assert(opened.ids() =~= w.ids());
            assert(opened.instance_ids() =~= w.instance_ids().push(fresh.entity));
            assert forall|a: int, b: int|
                0 <= a < opened.instance_ids().len() && 0 <= b < opened.instance_ids().len() && a
                    != b implies opened.instance_ids()[a] != opened.instance_ids()[b] by {
                if a < w.instances.len() {
                    assert(w.instances[a].entity.0 < w.next_entity);
                }
                if b < w.instances.len() {
                    assert(w.instances[b].entity.0 < w.next_entity);
                }
            }
            assert(opened.wf());
            lemma_same_population(opened, after);
            assert(after.instance_ids()[w.instances.len() as int] == fresh.entity);
            if w.has_instance(fresh.entity) {
                let k = choose|k: int|
                    0 <= k < w.instance_ids().len() && w.instance_ids()[k] == fresh.entity;
                assert(w.instances[k].entity.0 < w.next_entity);
            }
        },
    }
}

/// The despawn events of a teleport follow the request: a teleport that
/// takes place tells those in the previous instance the request names,
/// once, and tells nobody where the request names none.
pub proof fn lemma_despawn_follows_request(w: WorldView, t: Teleport)
    requires
        w.teleports(t),
    ensures
        t.prev_map_instance is Some ==> w.spec_handle_teleport_despawns(seq![t]) == seq![
            DespawnEvent { entity: t.entity, map: t.prev_map_instance.unwrap() },
        ],
        t.prev_map_instance is None ==> w.spec_handle_teleport_despawns(seq![t]) == Seq::<
            DespawnEvent,
        >::empty(),
{
    let one = seq![t];
    assert(one.drop_last() =~= Seq::<Teleport>::empty());
    assert(one.last() == t);
    assert(w.spec_handle_teleport(one.drop_last()) == w);
    assert(w.spec_handle_teleport_despawns(one.drop_last()) == Seq::<DespawnEvent>::empty());
    assert(w.spec_handle_teleport_despawns(one) =~= optional(w.spec_teleport_despawn(t)));
}

/// A teleport to a map that has no instance to go to makes one, while an
/// identifier is left: a unit that is a child of the instance `a`, sent off
/// by a request that names `a` as the previous instance, ends up as a child
/// of a new instance of the map and of nothing else.  The new instance is
/// the one instance gained; every other unit is as it was; those who stay in
/// `a` are told once.
pub proof fn lemma_teleport_to_new_instance(w: WorldView, t: Teleport, a: Entity)
    requires
        w.wf(),
        w.has(t.entity),
        w.units[w.find(t.entity)].client is Some,
        w.has_instance(a),
        w.units[w.find(t.entity)].map_instance == Some(MapInstanceEntity(a)),
        t.prev_map_instance == Some(a),
        w.teleport_target(t) is None,
        w.can_spawn(),
    ensures
        ({
            let after = w.spec_teleport(t);
            let i = w.find(t.entity);
            let b = Entity(w.next_entity);
            &&& after.wf()
            &&& after.instances == w.instances.push(spec_fresh_instance(b, t.map, false))
            &&& b != a
            &&& !w.has_instance(b)
            &&& after.has_instance(b)
            &&& after.has_instance(a)
            &&& after.units.len() == w.units.len()
            &&& after.units[i].map_instance == Some(MapInstanceEntity(b))
            &&& forall|m: Entity|
                spec_filter_players_on_map_instance(after.units[i], m) <==> m == b
            &&& forall|j: int|
                0 <= j < w.units.len() && j != i ==> #[trigger] after.units[j] == w.units[j]
            &&& w.spec_teleport_despawn(t) == Some(DespawnEvent { entity: t.entity, map: a })
        }),
{
    lemma_teleport_membership(w, t);
    let after = w.spec_teleport(t);
    let n = w.instances.len() as int;
    let k = w.find_instance(a);
    assert(0 <= k < n && w.instances[k].entity == a) by {
        assert(w.instance_ids()[k] == a);
    }
    assert(w.instances[k].entity.0 < w.next_entity);
    assert(after.instance_ids()[k] == a);
    assert(after.instance_ids()[n] == Entity(w.next_entity));
}

/// The round trip, while two identifiers are left: a unit that is a child of
/// the instance `a` goes to a new instance of one map and comes back to a
/// new instance of another, each request naming the instance it leaves.
/// Afterwards the unit is a child of the second new instance and of nothing
/// else, the two new instances are the instances gained, every other unit
/// is as it was, and those who stayed in `a` and in the first new instance
/// were told once each.
pub proof fn lemma_teleport_round_trip(w: WorldView, there: Teleport, back: Teleport, a: Entity)
    requires
        w.wf(),
        w.has(there.entity),
        back.entity == there.entity,
        w.units[w.find(there.entity)].client is Some,
        w.has_instance(a),
        w.units[w.find(there.entity)].map_instance == Some(MapInstanceEntity(a)),
        there.prev_map_instance == Some(a),
        there.map_instance is None,
        spec_global_instance(w.instances, there.map@) is None,
        back.prev_map_instance == Some(Entity(w.next_entity)),
        back.map_instance is None,
        spec_global_instance(w.instances, back.map@) is None,
        w.next_entity + 1 < u64::MAX,
    ensures
        ({
            let mid = w.spec_teleport(there);
            let after = mid.spec_teleport(back);
            let i = w.find(there.entity);
            let b = Entity(w.next_entity);
            let c = Entity((w.next_entity + 1) as u64);
            &&& after.wf()
            &&& after.instances == w.instances.push(
                spec_fresh_instance(b, there.map, false),
            ).push(spec_fresh_instance(c, back.map, false))
            &&& a != b && a != c && b != c
            &&& after.units.len() == w.units.len()
            &&& after.units[i].map_instance == Some(MapInstanceEntity(c))
            &&& forall|m: Entity|
                spec_filter_players_on_map_instance(after.units[i], m) <==> m == c
            &&& forall|j: int|
                0 <= j < w.units.len() && j != i ==> #[trigger] after.units[j] == w.units[j]
            &&& w.spec_teleport_despawn(there) == Some(
                DespawnEvent { entity: there.entity, map: a },
            )
            &&& mid.spec_teleport_despawn(back) == Some(
                DespawnEvent { entity: there.entity, map: b },
            )
        }),
{
    lemma_teleport_to_new_instance(w, there, a);
    let mid = w.spec_teleport(there);
    let i = w.find(there.entity);
    let b = Entity(w.next_entity);
    assert(0 <= i < w.units.len() && w.units[i].entity == there.entity) by {
        assert(w.ids()[i] == there.entity);
    }
    assert(mid.ids() =~= w.ids());
    assert(mid.instances.drop_last() =~= w.instances);
    assert(spec_global_instance(mid.instances, back.map@) is None);
    assert(mid.teleport_target(back) is None);
    lemma_teleport_to_new_instance(mid, back, b);
}

/// The shared instance of a map, where there is one, is one of the
/// instances.
pub proof fn lemma_global_instance_bounds(instances: Seq<MapInstance>, name: Seq<char>)
    ensures
        spec_global_instance(instances, name) is Some ==> 0 <= spec_global_instance(
            instances,
            name,
        ).unwrap() < instances.len() && instances[spec_global_instance(
            instances,
            name,
        ).unwrap()].global is Some && instances[spec_global_instance(
            instances,
            name,
        ).unwrap()].name.0@ == name,
    decreases instances.len(),
{
    if instances.len() > 0 {
        lemma_global_instance_bounds(instances.drop_last(), name);
        if spec_global_instance(instances.drop_last(), name) is Some {
            let k = spec_global_instance(instances.drop_last(), name).unwrap();
            assert(instances.drop_last()[k] == instances[k]);
        }
    }
}

} // verus!
