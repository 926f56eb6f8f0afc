//! The shapes of the messages of the play phase, one function for each
//! message and one for each direction. A float travels as its bit pattern;
//! a run of bytes without a count has no wire form, and a message that holds
//! one cannot be read or written through the engine.

use vstd::prelude::*;
use crate::packet::{Data, ObjectData, Property, Stat};
use crate::shape::{Prefix, Shape};

verus! {

/// Whether `s` is a record of three fields of the one shape `leaf`.
pub open spec fn is_triple(s: Shape, leaf: Shape) -> bool {
    &&& s is Record
    &&& s->Record_0@.len() == 3
    &&& s->Record_0@[0] == leaf
    &&& s->Record_0@[1] == leaf
    &&& s->Record_0@[2] == leaf
}

/// The record of the three given shapes.
pub fn triple(a: Shape, b: Shape, c: Shape) -> (s: Shape)
    ensures
        s is Record,
        s->Record_0@ == seq![a, b, c],
{
    let mut fields: Vec<Shape> = Vec::new();
    fields.push(a);
    fields.push(b);
    fields.push(c);
    proof {
        assert(fields@ =~= seq![a, b, c]);
    }
    Shape::Record(fields)
}


/// The messages that a server sends in the play phase. The type holds no
/// message; it names their shapes, one function for each message and one
/// for their union.
#[derive(Debug, Clone, Copy, PartialEq, Eq)]
pub struct PlayToClient;

impl PlayToClient {
    /// Whether `s` is the shape of the message `KeepAlive`.
    pub open spec fn is_keep_alive(s: Shape) -> bool {
        &&& s is Record
        &&& s->Record_0@.len() == 1
        &&& s->Record_0@[0] == Shape::I32
    }

    /// The shape of the message `KeepAlive`.
    pub fn keep_alive() -> (s: Shape)
        ensures
            PlayToClient::is_keep_alive(s),
    {
        let mut fields: Vec<Shape> = Vec::new();
        fields.push(Shape::I32);
        Shape::Record(fields)
    }

    /// Whether `s` is the shape of the message `JoinGame`.
    pub open spec fn is_join_game(s: Shape) -> bool {
        &&& s is Record
        &&& s->Record_0@.len() == 6
        &&& s->Record_0@[0] == Shape::I32
        &&& s->Record_0@[1] == Shape::U8
        &&& s->Record_0@[2] == Shape::I8
        &&& s->Record_0@[3] == Shape::U8
        &&& s->Record_0@[4] == Shape::U8
        &&& s->Record_0@[5] == Shape::Str
    }

    /// The shape of the message `JoinGame`.
    pub fn join_game() -> (s: Shape)
        ensures
            PlayToClient::is_join_game(s),
    {
        let mut fields: Vec<Shape> = Vec::new();
        fields.push(Shape::I32);
        fields.push(Shape::U8);
        fields.push(Shape::I8);
        fields.push(Shape::U8);
        fields.push(Shape::U8);
        fields.push(Shape::Str);
        Shape::Record(fields)
    }

    /// Whether `s` is the shape of the message `ChatMessage`.
    pub open spec fn is_chat_message(s: Shape) -> bool {
        &&& s is Record
        &&& s->Record_0@.len() == 1
        &&& s->Record_0@[0] == Shape::Str
    }

    /// The shape of the message `ChatMessage`.
    pub fn chat_message() -> (s: Shape)
        ensures
            PlayToClient::is_chat_message(s),
    {
        let mut fields: Vec<Shape> = Vec::new();
        fields.push(Shape::Str);
        Shape::Record(fields)
    }

    /// Whether `s` is the shape of the message `TimeUpdate`.
    pub open spec fn is_time_update(s: Shape) -> bool {
        &&& s is Record
        &&& s->Record_0@.len() == 2
        &&& s->Record_0@[0] == Shape::I64
        &&& s->Record_0@[1] == Shape::I64
    }

    /// The shape of the message `TimeUpdate`.
    pub fn time_update() -> (s: Shape)
        ensures
            PlayToClient::is_time_update(s),
    {
        let mut fields: Vec<Shape> = Vec::new();
        fields.push(Shape::I64);
        fields.push(Shape::I64);
        Shape::Record(fields)
    }

    /// Whether `s` is the shape of the message `EntityEquipment`.
    pub open spec fn is_entity_equipment(s: Shape) -> bool {
        &&& s is Record
        &&& s->Record_0@.len() == 3
        &&& s->Record_0@[0] == Shape::I32
        &&& s->Record_0@[1] == Shape::I16
        &&& s->Record_0@[2] is Optional
        &&& (*s->Record_0@[2]->Optional_0) == Shape::Slot
    }

    /// The shape of the message `EntityEquipment`.
    pub fn entity_equipment() -> (s: Shape)
        ensures
            PlayToClient::is_entity_equipment(s),
    {
        let mut fields: Vec<Shape> = Vec::new();
        fields.push(Shape::I32);
        fields.push(Shape::I16);
        fields.push(Shape::Optional(Box::new(Shape::Slot)));
        Shape::Record(fields)
    }

    /// Whether `s` is the shape of the message `SpawnPos`.
    pub open spec fn is_spawn_pos(s: Shape) -> bool {
        &&& s is Record
        &&& s->Record_0@.len() == 3
        &&& s->Record_0@[0] == Shape::I32
        &&& s->Record_0@[1] == Shape::I32
        &&& s->Record_0@[2] == Shape::I32
    }

    /// The shape of the message `SpawnPos`.
    pub fn spawn_pos() -> (s: Shape)
        ensures
            PlayToClient::is_spawn_pos(s),
    {
        let mut fields: Vec<Shape> = Vec::new();
        fields.push(Shape::I32);
        fields.push(Shape::I32);
        fields.push(Shape::I32);
        Shape::Record(fields)
    }

    /// Whether `s` is the shape of the message `UpdateHealth`.
    pub open spec fn is_update_health(s: Shape) -> bool {
        &&& s is Record
        &&& s->Record_0@.len() == 3
        &&& s->Record_0@[0] == Shape::F32
        &&& s->Record_0@[1] == Shape::I16
        &&& s->Record_0@[2] == Shape::F32
    }

    /// The shape of the message `UpdateHealth`.
    pub fn update_health() -> (s: Shape)
        ensures
            PlayToClient::is_update_health(s),
    {
        let mut fields: Vec<Shape> = Vec::new();
        fields.push(Shape::F32);
        fields.push(Shape::I16);
        fields.push(Shape::F32);
        Shape::Record(fields)
    }

    /// Whether `s` is the shape of the message `Respawn`.
    pub open spec fn is_respawn(s: Shape) -> bool {
        &&& s is Record
        &&& s->Record_0@.len() == 4
        &&& s->Record_0@[0] == Shape::I8
        &&& s->Record_0@[1] == Shape::U8
        &&& s->Record_0@[2] == Shape::U8
        &&& s->Record_0@[3] == Shape::Str
    }

    /// The shape of the message `Respawn`.
    pub fn respawn() -> (s: Shape)
        ensures
            PlayToClient::is_respawn(s),
    {
        let mut fields: Vec<Shape> = Vec::new();
        fields.push(Shape::I8);
        fields.push(Shape::U8);
        fields.push(Shape::U8);
        fields.push(Shape::Str);
        Shape::Record(fields)
    }

    /// Whether `s` is the shape of the message `PlayerPositionAndLook`.
    pub open spec fn is_player_position_and_look(s: Shape) -> bool {
        &&& s is Record
        &&& s->Record_0@.len() == 4
        &&& is_triple(s->Record_0@[0], Shape::F64)
        &&& s->Record_0@[1] == Shape::F32
        &&& s->Record_0@[2] == Shape::F32
        &&& s->Record_0@[3] == Shape::Bool
    }

    /// The shape of the message `PlayerPositionAndLook`.
    pub fn player_position_and_look() -> (s: Shape)
        ensures
            PlayToClient::is_player_position_and_look(s),
    {
        let mut fields: Vec<Shape> = Vec::new();
        fields.push(triple(Shape::F64, Shape::F64, Shape::F64));
        fields.push(Shape::F32);
        fields.push(Shape::F32);
        fields.push(Shape::Bool);
        Shape::Record(fields)
    }

    /// Whether `s` is the shape of the message `HeldItemChange`.
    pub open spec fn is_held_item_change(s: Shape) -> bool {
        &&& s is Record
        &&& s->Record_0@.len() == 1
        &&& s->Record_0@[0] == Shape::I8
    }

    /// The shape of the message `HeldItemChange`.
    pub fn held_item_change() -> (s: Shape)
        ensures
            PlayToClient::is_held_item_change(s),
    {
        let mut fields: Vec<Shape> = Vec::new();
        fields.push(Shape::I8);
        Shape::Record(fields)
    }

    /// Whether `s` is the shape of the message `UseBed`.
    pub open spec fn is_use_bed(s: Shape) -> bool {
        &&& s is Record
        &&& s->Record_0@.len() == 4
        &&& s->Record_0@[0] == Shape::I32
        &&& s->Record_0@[1] == Shape::I32
        &&& s->Record_0@[2] == Shape::I8
        &&& s->Record_0@[3] == Shape::I32
    }

    /// The shape of the message `UseBed`.
    pub fn use_bed() -> (s: Shape)
        ensures
            PlayToClient::is_use_bed(s),
    {
        let mut fields: Vec<Shape> = Vec::new();
        fields.push(Shape::I32);
        fields.push(Shape::I32);
        fields.push(Shape::I8);
        fields.push(Shape::I32);
        Shape::Record(fields)
    }

    /// Whether `s` is the shape of the message `Animation`.
    pub open spec fn is_animation(s: Shape) -> bool {
        &&& s is Record
        &&& s->Record_0@.len() == 2
        &&& s->Record_0@[0] == Shape::VarInt
        &&& s->Record_0@[1] == Shape::U8
    }

    /// The shape of the message `Animation`.
    pub fn animation() -> (s: Shape)
        ensures
            PlayToClient::is_animation(s),
    {
        let mut fields: Vec<Shape> = Vec::new();
        fields.push(Shape::VarInt);
        fields.push(Shape::U8);
        Shape::Record(fields)
    }

    /// Whether `s` is the shape of the message `SpawnPlayer`.
    pub open spec fn is_spawn_player(s: Shape) -> bool {
        &&& s is Record
        &&& s->Record_0@.len() == 9
        &&& s->Record_0@[0] == Shape::VarInt
        &&& s->Record_0@[1] == Shape::Uuid
        &&& s->Record_0@[2] == Shape::Str
        &&& s->Record_0@[3] is Array
        &&& s->Record_0@[3]->Array_0 == Prefix::VarInt
        &&& Data::is_shape((*s->Record_0@[3]->Array_1))
        &&& is_triple(s->Record_0@[4], Shape::I32)
        &&& s->Record_0@[5] == Shape::U8
        &&& s->Record_0@[6] == Shape::U8
        &&& s->Record_0@[7] == Shape::I16
        &&& s->Record_0@[8] == Shape::Metadata
    }

    /// The shape of the message `SpawnPlayer`.
    pub fn spawn_player() -> (s: Shape)
        ensures
            PlayToClient::is_spawn_player(s),
    {
        let mut fields: Vec<Shape> = Vec::new();
        fields.push(Shape::VarInt);
        fields.push(Shape::Uuid);
        fields.push(Shape::Str);
        fields.push(Shape::Array(Prefix::VarInt, Box::new(Data::shape())));
        fields.push(triple(Shape::I32, Shape::I32, Shape::I32));
        fields.push(Shape::U8);
        fields.push(Shape::U8);
        fields.push(Shape::I16);
        fields.push(Shape::Metadata);
        Shape::Record(fields)
    }

    /// Whether `s` is the shape of the message `CollectItem`.
    pub open spec fn is_collect_item(s: Shape) -> bool {
        &&& s is Record
        &&& s->Record_0@.len() == 2
        &&& s->Record_0@[0] == Shape::I32
        &&& s->Record_0@[1] == Shape::I32
    }

    /// The shape of the message `CollectItem`.
    pub fn collect_item() -> (s: Shape)
        ensures
            PlayToClient::is_collect_item(s),
    {
        let mut fields: Vec<Shape> = Vec::new();
        fields.push(Shape::I32);
        fields.push(Shape::I32);
        Shape::Record(fields)
    }

    /// Whether `s` is the shape of the message `SpawnObject`.
    pub open spec fn is_spawn_object(s: Shape) -> bool {
        &&& s is Record
        &&& s->Record_0@.len() == 6
        &&& s->Record_0@[0] == Shape::VarInt
        &&& s->Record_0@[1] == Shape::I8
        &&& is_triple(s->Record_0@[2], Shape::I32)
        &&& s->Record_0@[3] == Shape::I8
        &&& s->Record_0@[4] == Shape::I8
        &&& ObjectData::is_shape(s->Record_0@[5])
    }

    /// The shape of the message `SpawnObject`.
    pub fn spawn_object() -> (s: Shape)
        ensures
            PlayToClient::is_spawn_object(s),
    {
        let mut fields: Vec<Shape> = Vec::new();
        fields.push(Shape::VarInt);
        fields.push(Shape::I8);
        fields.push(triple(Shape::I32, Shape::I32, Shape::I32));
        fields.push(Shape::I8);
        fields.push(Shape::I8);
        fields.push(ObjectData::shape());
        Shape::Record(fields)
    }

    /// Whether `s` is the shape of the message `SpawnMob`.
    pub open spec fn is_spawn_mob(s: Shape) -> bool {
        &&& s is Record
        &&& s->Record_0@.len() == 8
        &&& s->Record_0@[0] == Shape::VarInt
        &&& s->Record_0@[1] == Shape::U8
        &&& is_triple(s->Record_0@[2], Shape::I32)
        &&& s->Record_0@[3] == Shape::I8
        &&& s->Record_0@[4] == Shape::I8
        &&& s->Record_0@[5] == Shape::I8
        &&& is_triple(s->Record_0@[6], Shape::I16)
        &&& s->Record_0@[7] == Shape::Metadata
    }

    /// The shape of the message `SpawnMob`.
    pub fn spawn_mob() -> (s: Shape)
        ensures
            PlayToClient::is_spawn_mob(s),
    {
        let mut fields: Vec<Shape> = Vec::new();
        fields.push(Shape::VarInt);
        fields.push(Shape::U8);
        fields.push(triple(Shape::I32, Shape::I32, Shape::I32));
        fields.push(Shape::I8);
        fields.push(Shape::I8);
        fields.push(Shape::I8);
        fields.push(triple(Shape::I16, Shape::I16, Shape::I16));
        fields.push(Shape::Metadata);
        Shape::Record(fields)
    }

    /// Whether `s` is the shape of the message `SpawnPainting`.
    pub open spec fn is_spawn_painting(s: Shape) -> bool {
        &&& s is Record
        &&& s->Record_0@.len() == 6
        &&& s->Record_0@[0] == Shape::VarInt
        &&& s->Record_0@[1] == Shape::Str
        &&& s->Record_0@[2] == Shape::I32
        &&& s->Record_0@[3] == Shape::I32
        &&& s->Record_0@[4] == Shape::I32
        &&& s->Record_0@[5] == Shape::I32
    }

    /// The shape of the message `SpawnPainting`.
    pub fn spawn_painting() -> (s: Shape)
        ensures
            PlayToClient::is_spawn_painting(s),
    {
        let mut fields: Vec<Shape> = Vec::new();
        fields.push(Shape::VarInt);
        fields.push(Shape::Str);
        fields.push(Shape::I32);
        fields.push(Shape::I32);
        fields.push(Shape::I32);
        fields.push(Shape::I32);
        Shape::Record(fields)
    }

    /// Whether `s` is the shape of the message `SpawnExperienceOrb`.
    pub open spec fn is_spawn_experience_orb(s: Shape) -> bool {
        &&& s is Record
        &&& s->Record_0@.len() == 3
        &&& s->Record_0@[0] == Shape::VarInt
        &&& is_triple(s->Record_0@[1], Shape::I32)
        &&& s->Record_0@[2] == Shape::I16
    }

    /// The shape of the message `SpawnExperienceOrb`.
    pub fn spawn_experience_orb() -> (s: Shape)
        ensures
            PlayToClient::is_spawn_experience_orb(s),
    {
        let mut fields: Vec<Shape> = Vec::new();
        fields.push(Shape::VarInt);
        fields.push(triple(Shape::I32, Shape::I32, Shape::I32));
        fields.push(Shape::I16);
        Shape::Record(fields)
    }

    /// Whether `s` is the shape of the message `EntityVelocity`.
    pub open spec fn is_entity_velocity(s: Shape) -> bool {
        &&& s is Record
        &&& s->Record_0@.len() == 2
        &&& s->Record_0@[0] == Shape::I32
        &&& is_triple(s->Record_0@[1], Shape::I16)
    }

    /// The shape of the message `EntityVelocity`.
    pub fn entity_velocity() -> (s: Shape)
        ensures
            PlayToClient::is_entity_velocity(s),
    {
        let mut fields: Vec<Shape> = Vec::new();
        fields.push(Shape::I32);
        fields.push(triple(Shape::I16, Shape::I16, Shape::I16));
        Shape::Record(fields)
    }

    /// Whether `s` is the shape of the message `DestroyEntities`.
    pub open spec fn is_destroy_entities(s: Shape) -> bool {
        &&& s is Record
        &&& s->Record_0@.len() == 1
        &&& s->Record_0@[0] is Array
        &&& s->Record_0@[0]->Array_0 == Prefix::Byte
        &&& (*s->Record_0@[0]->Array_1) == Shape::I32
    }

    /// The shape of the message `DestroyEntities`.
    pub fn destroy_entities() -> (s: Shape)
        ensures
            PlayToClient::is_destroy_entities(s),
    {
        let mut fields: Vec<Shape> = Vec::new();
        fields.push(Shape::Array(Prefix::Byte, Box::new(Shape::I32)));
        Shape::Record(fields)
    }

    /// Whether `s` is the shape of the message `EntityIdle`.
    pub open spec fn is_entity_idle(s: Shape) -> bool {
        &&& s is Record
        &&& s->Record_0@.len() == 1
        &&& s->Record_0@[0] == Shape::I32
    }

    /// The shape of the message `EntityIdle`.
    pub fn entity_idle() -> (s: Shape)
        ensures
            PlayToClient::is_entity_idle(s),
    {
        let mut fields: Vec<Shape> = Vec::new();
        fields.push(Shape::I32);
        Shape::Record(fields)
    }

    /// Whether `s` is the shape of the message `EntityRelativeMove`.
    pub open spec fn is_entity_relative_move(s: Shape) -> bool {
        &&& s is Record
        &&& s->Record_0@.len() == 2
        &&& s->Record_0@[0] == Shape::I32
        &&& is_triple(s->Record_0@[1], Shape::I8)
    }

    /// The shape of the message `EntityRelativeMove`.
    pub fn entity_relative_move() -> (s: Shape)
        ensures
            PlayToClient::is_entity_relative_move(s),
    {
        let mut fields: Vec<Shape> = Vec::new();
        fields.push(Shape::I32);
        fields.push(triple(Shape::I8, Shape::I8, Shape::I8));
        Shape::Record(fields)
    }

    /// Whether `s` is the shape of the message `EntityLook`.
    pub open spec fn is_entity_look(s: Shape) -> bool {
        &&& s is Record
        &&& s->Record_0@.len() == 3
        &&& s->Record_0@[0] == Shape::I32
        &&& s->Record_0@[1] == Shape::I8
        &&& s->Record_0@[2] == Shape::I8
    }

    /// The shape of the message `EntityLook`.
    pub fn entity_look() -> (s: Shape)
        ensures
            PlayToClient::is_entity_look(s),
    {
        let mut fields: Vec<Shape> = Vec::new();
        fields.push(Shape::I32);
        fields.push(Shape::I8);
        fields.push(Shape::I8);
        Shape::Record(fields)
    }

    /// Whether `s` is the shape of the message `EntityLookAndRelativeMove`.
    pub open spec fn is_entity_look_and_relative_move(s: Shape) -> bool {
        &&& s is Record
        &&& s->Record_0@.len() == 4
        &&& s->Record_0@[0] == Shape::I32
        &&& is_triple(s->Record_0@[1], Shape::I8)
        &&& s->Record_0@[2] == Shape::I8
        &&& s->Record_0@[3] == Shape::I8
    }

    /// The shape of the message `EntityLookAndRelativeMove`.
    pub fn entity_look_and_relative_move() -> (s: Shape)
        ensures
            PlayToClient::is_entity_look_and_relative_move(s),
    {
        let mut fields: Vec<Shape> = Vec::new();
        fields.push(Shape::I32);
        fields.push(triple(Shape::I8, Shape::I8, Shape::I8));
        fields.push(Shape::I8);
        fields.push(Shape::I8);
        Shape::Record(fields)
    }

    /// Whether `s` is the shape of the message `EntityTeleport`.
    pub open spec fn is_entity_teleport(s: Shape) -> bool {
        &&& s is Record
        &&& s->Record_0@.len() == 4
        &&& s->Record_0@[0] == Shape::I32
        &&& is_triple(s->Record_0@[1], Shape::I32)
        &&& s->Record_0@[2] == Shape::I8
        &&& s->Record_0@[3] == Shape::I8
    }

    /// The shape of the message `EntityTeleport`.
    pub fn entity_teleport() -> (s: Shape)
        ensures
            PlayToClient::is_entity_teleport(s),
    {
        let mut fields: Vec<Shape> = Vec::new();
        fields.push(Shape::I32);
        fields.push(triple(Shape::I32, Shape::I32, Shape::I32));
        fields.push(Shape::I8);
        fields.push(Shape::I8);
        Shape::Record(fields)
    }

    /// Whether `s` is the shape of the message `EntityHeadLook`.
    pub open spec fn is_entity_head_look(s: Shape) -> bool {
        &&& s is Record
        &&& s->Record_0@.len() == 2
        &&& s->Record_0@[0] == Shape::I32
        &&& s->Record_0@[1] == Shape::I8
    }

    /// The shape of the message `EntityHeadLook`.
    pub fn entity_head_look() -> (s: Shape)
        ensures
            PlayToClient::is_entity_head_look(s),
    {
        let mut fields: Vec<Shape> = Vec::new();
        fields.push(Shape::I32);
        fields.push(Shape::I8);
        Shape::Record(fields)
    }

    /// Whether `s` is the shape of the message `EntityStatus`.
    pub open spec fn is_entity_status(s: Shape) -> bool {
        &&& s is Record
        &&& s->Record_0@.len() == 2
        &&& s->Record_0@[0] == Shape::I32
        &&& s->Record_0@[1] == Shape::I8
    }

    /// The shape of the message `EntityStatus`.
    pub fn entity_status() -> (s: Shape)
        ensures
            PlayToClient::is_entity_status(s),
    {
        let mut fields: Vec<Shape> = Vec::new();
        fields.push(Shape::I32);
        fields.push(Shape::I8);
        Shape::Record(fields)
    }

    /// Whether `s` is the shape of the message `AttachEntity`.
    pub open spec fn is_attach_entity(s: Shape) -> bool {
        &&& s is Record
        &&& s->Record_0@.len() == 3
        &&& s->Record_0@[0] == Shape::I32
        &&& s->Record_0@[1] == Shape::I32
        &&& s->Record_0@[2] == Shape::Bool
    }

    /// The shape of the message `AttachEntity`.
    pub fn attach_entity() -> (s: Shape)
        ensures
            PlayToClient::is_attach_entity(s),
    {
        let mut fields: Vec<Shape> = Vec::new();
        fields.push(Shape::I32);
        fields.push(Shape::I32);
        fields.push(Shape::Bool);
        Shape::Record(fields)
    }

    /// Whether `s` is the shape of the message `EntityMetadata`.
    pub open spec fn is_entity_metadata(s: Shape) -> bool {
        &&& s is Record
        &&& s->Record_0@.len() == 2
        &&& s->Record_0@[0] == Shape::I32
        &&& s->Record_0@[1] == Shape::Metadata
    }

    /// The shape of the message `EntityMetadata`.
    pub fn entity_metadata() -> (s: Shape)
        ensures
            PlayToClient::is_entity_metadata(s),
    {
        let mut fields: Vec<Shape> = Vec::new();
        fields.push(Shape::I32);
        fields.push(Shape::Metadata);
        Shape::Record(fields)
    }

    /// Whether `s` is the shape of the message `EntityEffect`.
    pub open spec fn is_entity_effect(s: Shape) -> bool {
        &&& s is Record
        &&& s->Record_0@.len() == 4
        &&& s->Record_0@[0] == Shape::I32
        &&& s->Record_0@[1] == Shape::I8
        &&& s->Record_0@[2] == Shape::I8
        &&& s->Record_0@[3] == Shape::I16
    }

    /// The shape of the message `EntityEffect`.
    pub fn entity_effect() -> (s: Shape)
        ensures
            PlayToClient::is_entity_effect(s),
    {
        let mut fields: Vec<Shape> = Vec::new();
        fields.push(Shape::I32);
        fields.push(Shape::I8);
        fields.push(Shape::I8);
        fields.push(Shape::I16);
        Shape::Record(fields)
    }

    /// Whether `s` is the shape of the message `RemoveEntityEffect`.
    pub open spec fn is_remove_entity_effect(s: Shape) -> bool {
        &&& s is Record
        &&& s->Record_0@.len() == 2
        &&& s->Record_0@[0] == Shape::I32
        &&& s->Record_0@[1] == Shape::I8
    }

    /// The shape of the message `RemoveEntityEffect`.
    pub fn remove_entity_effect() -> (s: Shape)
        ensures
            PlayToClient::is_remove_entity_effect(s),
    {
        let mut fields: Vec<Shape> = Vec::new();
        fields.push(Shape::I32);
        fields.push(Shape::I8);
        Shape::Record(fields)
    }

    /// Whether `s` is the shape of the message `SetExperience`.
    pub open spec fn is_set_experience(s: Shape) -> bool {
        &&& s is Record
        &&& s->Record_0@.len() == 3
        &&& s->Record_0@[0] == Shape::F32
        &&& s->Record_0@[1] == Shape::I16
        &&& s->Record_0@[2] == Shape::I16
    }

    /// The shape of the message `SetExperience`.
    pub fn set_experience() -> (s: Shape)
        ensures
            PlayToClient::is_set_experience(s),
    {
        let mut fields: Vec<Shape> = Vec::new();
        fields.push(Shape::F32);
        fields.push(Shape::I16);
        fields.push(Shape::I16);
        Shape::Record(fields)
    }

    /// Whether `s` is the shape of the message `EntityProperties`.
    pub open spec fn is_entity_properties(s: Shape) -> bool {
        &&& s is Record
        &&& s->Record_0@.len() == 2
        &&& s->Record_0@[0] == Shape::I32
        &&& s->Record_0@[1] is Array
        &&& s->Record_0@[1]->Array_0 == Prefix::Int
        &&& Property::is_shape((*s->Record_0@[1]->Array_1))
    }

    /// The shape of the message `EntityProperties`.
    pub fn entity_properties() -> (s: Shape)
        ensures
            PlayToClient::is_entity_properties(s),
    {
        let mut fields: Vec<Shape> = Vec::new();
        fields.push(Shape::I32);
        fields.push(Shape::Array(Prefix::Int, Box::new(Property::shape())));
        Shape::Record(fields)
    }

    /// Whether `s` is the shape of the message `ChunkData`.
    pub open spec fn is_chunk_data(s: Shape) -> bool {
        &&& s is Record
        &&& s->Record_0@.len() == 6
        &&& s->Record_0@[0] == Shape::I32
        &&& s->Record_0@[1] == Shape::I32
        &&& s->Record_0@[2] == Shape::Bool
        &&& s->Record_0@[3] == Shape::U16
        &&& s->Record_0@[4] == Shape::U16
        &&& s->Record_0@[5] is Array
        &&& s->Record_0@[5]->Array_0 == Prefix::Int
        &&& (*s->Record_0@[5]->Array_1) == Shape::U8
    }

    /// The shape of the message `ChunkData`.
    pub fn chunk_data() -> (s: Shape)
        ensures
            PlayToClient::is_chunk_data(s),
    {
        let mut fields: Vec<Shape> = Vec::new();
        fields.push(Shape::I32);
        fields.push(Shape::I32);
        fields.push(Shape::Bool);
        fields.push(Shape::U16);
        fields.push(Shape::U16);
        fields.push(Shape::Array(Prefix::Int, Box::new(Shape::U8)));
        Shape::Record(fields)
    }

    /// Whether `s` is the shape of the message `MultiBlockChange`.
    pub open spec fn is_multi_block_change(s: Shape) -> bool {
        &&& s is Record
        &&& s->Record_0@.len() == 4
        &&& s->Record_0@[0] == Shape::I32
        &&& s->Record_0@[1] == Shape::I32
        &&& s->Record_0@[2] == Shape::I16
        &&& s->Record_0@[3] is Array
        &&& s->Record_0@[3]->Array_0 == Prefix::Int
        &&& (*s->Record_0@[3]->Array_1) == Shape::U8
    }

    /// The shape of the message `MultiBlockChange`.
    pub fn multi_block_change() -> (s: Shape)
        ensures
            PlayToClient::is_multi_block_change(s),
    {
        let mut fields: Vec<Shape> = Vec::new();
        fields.push(Shape::I32);
        fields.push(Shape::I32);
        fields.push(Shape::I16);
        fields.push(Shape::Array(Prefix::Int, Box::new(Shape::U8)));
        Shape::Record(fields)
    }

    /// Whether `s` is the shape of the message `BlockChange`.
    pub open spec fn is_block_change(s: Shape) -> bool {
        &&& s is Record
        &&& s->Record_0@.len() == 5
        &&& s->Record_0@[0] == Shape::I32
        &&& s->Record_0@[1] == Shape::I8
        &&& s->Record_0@[2] == Shape::I32
        &&& s->Record_0@[3] == Shape::VarInt
        &&& s->Record_0@[4] == Shape::U8
    }

    /// The shape of the message `BlockChange`.
    pub fn block_change() -> (s: Shape)
        ensures
            PlayToClient::is_block_change(s),
    {
        let mut fields: Vec<Shape> = Vec::new();
        fields.push(Shape::I32);
        fields.push(Shape::I8);
        fields.push(Shape::I32);
        fields.push(Shape::VarInt);
        fields.push(Shape::U8);
        Shape::Record(fields)
    }

    /// Whether `s` is the shape of the message `BlockAction`.
    pub open spec fn is_block_action(s: Shape) -> bool {
        &&& s is Record
        &&& s->Record_0@.len() == 6
        &&& s->Record_0@[0] == Shape::I32
        &&& s->Record_0@[1] == Shape::I16
        &&& s->Record_0@[2] == Shape::I32
        &&& s->Record_0@[3] == Shape::U8
        &&& s->Record_0@[4] == Shape::U8
        &&& s->Record_0@[5] == Shape::VarInt
    }

    /// The shape of the message `BlockAction`.
    pub fn block_action() -> (s: Shape)
        ensures
            PlayToClient::is_block_action(s),
    {
        let mut fields: Vec<Shape> = Vec::new();
        fields.push(Shape::I32);
        fields.push(Shape::I16);
        fields.push(Shape::I32);
        fields.push(Shape::U8);
        fields.push(Shape::U8);
        fields.push(Shape::VarInt);
        Shape::Record(fields)
    }

    /// Whether `s` is the shape of the message `BlockBreakAnimation`.
    pub open spec fn is_block_break_animation(s: Shape) -> bool {
        &&& s is Record
        &&& s->Record_0@.len() == 5
        &&& s->Record_0@[0] == Shape::VarInt
        &&& s->Record_0@[1] == Shape::I32
        &&& s->Record_0@[2] == Shape::I32
        &&& s->Record_0@[3] == Shape::I32
        &&& s->Record_0@[4] == Shape::I8
    }

    /// The shape of the message `BlockBreakAnimation`.
    pub fn block_break_animation() -> (s: Shape)
        ensures
            PlayToClient::is_block_break_animation(s),
    {
        let mut fields: Vec<Shape> = Vec::new();
        fields.push(Shape::VarInt);
        fields.push(Shape::I32);
        fields.push(Shape::I32);
        fields.push(Shape::I32);
        fields.push(Shape::I8);
        Shape::Record(fields)
    }

    /// Whether `s` is the shape of the message `ChunkDataBulk`.
    pub open spec fn is_chunk_data_bulk(s: Shape) -> bool {
        s == Shape::ChunkBulk
    }

    /// The shape of the message `ChunkDataBulk`.
    pub fn chunk_data_bulk() -> (s: Shape)
        ensures
            PlayToClient::is_chunk_data_bulk(s),
    {
        Shape::ChunkBulk
    }

    /// Whether `s` is the shape of the message `Explosion`.
    pub open spec fn is_explosion(s: Shape) -> bool {
        &&& s is Record
        &&& s->Record_0@.len() == 4
        &&& is_triple(s->Record_0@[0], Shape::F32)
        &&& s->Record_0@[1] == Shape::F32
        &&& s->Record_0@[2] is Array
        &&& s->Record_0@[2]->Array_0 == Prefix::Int
        &&& is_triple((*s->Record_0@[2]->Array_1), Shape::I8)
        &&& is_triple(s->Record_0@[3], Shape::F32)
    }

    /// The shape of the message `Explosion`.
    pub fn explosion() -> (s: Shape)
        ensures
            PlayToClient::is_explosion(s),
    {
        let mut fields: Vec<Shape> = Vec::new();
        fields.push(triple(Shape::F32, Shape::F32, Shape::F32));
        fields.push(Shape::F32);
        fields.push(Shape::Array(Prefix::Int, Box::new(triple(Shape::I8, Shape::I8, Shape::I8))));
        fields.push(triple(Shape::F32, Shape::F32, Shape::F32));
        Shape::Record(fields)
    }

    /// Whether `s` is the shape of the message `Effect`.
    pub open spec fn is_effect(s: Shape) -> bool {
        &&& s is Record
        &&& s->Record_0@.len() == 6
        &&& s->Record_0@[0] == Shape::I32
        &&& s->Record_0@[1] == Shape::I32
        &&& s->Record_0@[2] == Shape::I8
        &&& s->Record_0@[3] == Shape::I32
        &&& s->Record_0@[4] == Shape::I32
        &&& s->Record_0@[5] == Shape::Bool
    }

    /// The shape of the message `Effect`.
    pub fn effect() -> (s: Shape)
        ensures
            PlayToClient::is_effect(s),
    {
        let mut fields: Vec<Shape> = Vec::new();
        fields.push(Shape::I32);
        fields.push(Shape::I32);
        fields.push(Shape::I8);
        fields.push(Shape::I32);
        fields.push(Shape::I32);
        fields.push(Shape::Bool);
        Shape::Record(fields)
    }

    /// Whether `s` is the shape of the message `SoundEffect`.
    pub open spec fn is_sound_effect(s: Shape) -> bool {
        &&& s is Record
        &&& s->Record_0@.len() == 4
        &&& s->Record_0@[0] == Shape::Str
        &&& is_triple(s->Record_0@[1], Shape::I32)
        &&& s->Record_0@[2] == Shape::F32
        &&& s->Record_0@[3] == Shape::U8
    }

    /// The shape of the message `SoundEffect`.
    pub fn sound_effect() -> (s: Shape)
        ensures
            PlayToClient::is_sound_effect(s),
    {
        let mut fields: Vec<Shape> = Vec::new();
        fields.push(Shape::Str);
        fields.push(triple(Shape::I32, Shape::I32, Shape::I32));
        fields.push(Shape::F32);
        fields.push(Shape::U8);
        Shape::Record(fields)
    }

    /// Whether `s` is the shape of the message `Particle`.
    pub open spec fn is_particle(s: Shape) -> bool {
        &&& s is Record
        &&& s->Record_0@.len() == 5
        &&& s->Record_0@[0] == Shape::Str
        &&& is_triple(s->Record_0@[1], Shape::F32)
        &&& is_triple(s->Record_0@[2], Shape::F32)
        &&& s->Record_0@[3] == Shape::F32
        &&& s->Record_0@[4] == Shape::I32
    }

    /// The shape of the message `Particle`.
    pub fn particle() -> (s: Shape)
        ensures
            PlayToClient::is_particle(s),
    {
        let mut fields: Vec<Shape> = Vec::new();
        fields.push(Shape::Str);
        fields.push(triple(Shape::F32, Shape::F32, Shape::F32));
        fields.push(triple(Shape::F32, Shape::F32, Shape::F32));
        fields.push(Shape::F32);
        fields.push(Shape::I32);
        Shape::Record(fields)
    }

    /// Whether `s` is the shape of the message `ChangeGameState`.
    pub open spec fn is_change_game_state(s: Shape) -> bool {
        &&& s is Record
        &&& s->Record_0@.len() == 2
        &&& s->Record_0@[0] == Shape::U8
        &&& s->Record_0@[1] == Shape::F32
    }

    /// The shape of the message `ChangeGameState`.
    pub fn change_game_state() -> (s: Shape)
        ensures
            PlayToClient::is_change_game_state(s),
    {
        let mut fields: Vec<Shape> = Vec::new();
        fields.push(Shape::U8);
        fields.push(Shape::F32);
        Shape::Record(fields)
    }

    /// Whether `s` is the shape of the message `SpawnGlobalEntity`.
    pub open spec fn is_spawn_global_entity(s: Shape) -> bool {
        &&& s is Record
        &&& s->Record_0@.len() == 3
        &&& s->Record_0@[0] == Shape::VarInt
        &&& s->Record_0@[1] == Shape::I8
        &&& is_triple(s->Record_0@[2], Shape::I32)
    }

    /// The shape of the message `SpawnGlobalEntity`.
    pub fn spawn_global_entity() -> (s: Shape)
        ensures
            PlayToClient::is_spawn_global_entity(s),
    {
        let mut fields: Vec<Shape> = Vec::new();
        fields.push(Shape::VarInt);
        fields.push(Shape::I8);
        fields.push(triple(Shape::I32, Shape::I32, Shape::I32));
        Shape::Record(fields)
    }

    /// Whether `s` is the shape of the message `OpenWindow`.
    pub open spec fn is_open_window(s: Shape) -> bool {
        &&& s is Record
        &&& s->Record_0@.len() == 6
        &&& s->Record_0@[0] == Shape::U8
        &&& s->Record_0@[1] == Shape::U8
        &&& s->Record_0@[2] == Shape::Str
        &&& s->Record_0@[3] == Shape::U8
        &&& s->Record_0@[4] == Shape::Bool
        &&& s->Record_0@[5] is Optional
        &&& (*s->Record_0@[5]->Optional_0) == Shape::I32
    }

    /// The shape of the message `OpenWindow`.
    pub fn open_window() -> (s: Shape)
        ensures
            PlayToClient::is_open_window(s),
    {
        let mut fields: Vec<Shape> = Vec::new();
        fields.push(Shape::U8);
        fields.push(Shape::U8);
        fields.push(Shape::Str);
        fields.push(Shape::U8);
        fields.push(Shape::Bool);
        fields.push(Shape::Optional(Box::new(Shape::I32)));
        Shape::Record(fields)
    }

    /// Whether `s` is the shape of the message `CloseWindow`.
    pub open spec fn is_close_window(s: Shape) -> bool {
        &&& s is Record
        &&& s->Record_0@.len() == 1
        &&& s->Record_0@[0] == Shape::U8
    }

    /// The shape of the message `CloseWindow`.
    pub fn close_window() -> (s: Shape)
        ensures
            PlayToClient::is_close_window(s),
    {
        let mut fields: Vec<Shape> = Vec::new();
        fields.push(Shape::U8);
        Shape::Record(fields)
    }

    /// Whether `s` is the shape of the message `SetSlot`.
    pub open spec fn is_set_slot(s: Shape) -> bool {
        &&& s is Record
        &&& s->Record_0@.len() == 3
        &&& s->Record_0@[0] == Shape::I8
        &&& s->Record_0@[1] == Shape::I16
        &&& s->Record_0@[2] is Optional
        &&& (*s->Record_0@[2]->Optional_0) == Shape::Slot
    }

    /// The shape of the message `SetSlot`.
    pub fn set_slot() -> (s: Shape)
        ensures
            PlayToClient::is_set_slot(s),
    {
        let mut fields: Vec<Shape> = Vec::new();
        fields.push(Shape::I8);
        fields.push(Shape::I16);
        fields.push(Shape::Optional(Box::new(Shape::Slot)));
        Shape::Record(fields)
    }

    /// Whether `s` is the shape of the message `WindowItems`.
    pub open spec fn is_window_items(s: Shape) -> bool {
        &&& s is Record
        &&& s->Record_0@.len() == 2
        &&& s->Record_0@[0] == Shape::U8
        &&& s->Record_0@[1] is Array
        &&& s->Record_0@[1]->Array_0 == Prefix::Short
        &&& (*s->Record_0@[1]->Array_1) is Optional
        &&& (*(*s->Record_0@[1]->Array_1)->Optional_0) == Shape::Slot
    }

    /// The shape of the message `WindowItems`.
    pub fn window_items() -> (s: Shape)
        ensures
            PlayToClient::is_window_items(s),
    {
        let mut fields: Vec<Shape> = Vec::new();
        fields.push(Shape::U8);
        fields.push(Shape::Array(Prefix::Short, Box::new(Shape::Optional(Box::new(Shape::Slot)))));
        Shape::Record(fields)
    }

    /// Whether `s` is the shape of the message `WindowProperty`.
    pub open spec fn is_window_property(s: Shape) -> bool {
        &&& s is Record
        &&& s->Record_0@.len() == 3
        &&& s->Record_0@[0] == Shape::I8
        &&& s->Record_0@[1] == Shape::I16
        &&& s->Record_0@[2] == Shape::I16
    }

    /// The shape of the message `WindowProperty`.
    pub fn window_property() -> (s: Shape)
        ensures
            PlayToClient::is_window_property(s),
    {
        let mut fields: Vec<Shape> = Vec::new();
        fields.push(Shape::I8);
        fields.push(Shape::I16);
        fields.push(Shape::I16);
        Shape::Record(fields)
    }

    /// Whether `s` is the shape of the message `ConfirmTransaction`.
    pub open spec fn is_confirm_transaction(s: Shape) -> bool {
        &&& s is Record
        &&& s->Record_0@.len() == 3
        &&& s->Record_0@[0] == Shape::U8
        &&& s->Record_0@[1] == Shape::I16
        &&& s->Record_0@[2] == Shape::Bool
    }

    /// The shape of the message `ConfirmTransaction`.
    pub fn confirm_transaction() -> (s: Shape)
        ensures
            PlayToClient::is_confirm_transaction(s),
    {
        let mut fields: Vec<Shape> = Vec::new();
        fields.push(Shape::U8);
        fields.push(Shape::I16);
        fields.push(Shape::Bool);
        Shape::Record(fields)
    }

    /// Whether `s` is the shape of the message `UpdateSign`.
    pub open spec fn is_update_sign(s: Shape) -> bool {
        &&& s is Record
        &&& s->Record_0@.len() == 7
        &&& s->Record_0@[0] == Shape::I32
        &&& s->Record_0@[1] == Shape::I16
        &&& s->Record_0@[2] == Shape::I32
        &&& s->Record_0@[3] == Shape::Str
        &&& s->Record_0@[4] == Shape::Str
        &&& s->Record_0@[5] == Shape::Str
        &&& s->Record_0@[6] == Shape::Str
    }

    /// The shape of the message `UpdateSign`.
    pub fn update_sign() -> (s: Shape)
        ensures
            PlayToClient::is_update_sign(s),
    {
        let mut fields: Vec<Shape> = Vec::new();
        fields.push(Shape::I32);
        fields.push(Shape::I16);
        fields.push(Shape::I32);
        fields.push(Shape::Str);
        fields.push(Shape::Str);
        fields.push(Shape::Str);
        fields.push(Shape::Str);
        Shape::Record(fields)
    }

    /// Whether `s` is the shape of the message `UpdateMap`.
    pub open spec fn is_update_map(s: Shape) -> bool {
        &&& s is Record
        &&& s->Record_0@.len() == 2
        &&& s->Record_0@[0] == Shape::VarInt
        &&& s->Record_0@[1] == Shape::Sequence
    }

    /// The shape of the message `UpdateMap`.
    pub fn update_map() -> (s: Shape)
        ensures
            PlayToClient::is_update_map(s),
    {
        let mut fields: Vec<Shape> = Vec::new();
        fields.push(Shape::VarInt);
        fields.push(Shape::Sequence);
        Shape::Record(fields)
    }

    /// Whether `s` is the shape of the message `UpdateBlockEntity`.
    pub open spec fn is_update_block_entity(s: Shape) -> bool {
        &&& s is Record
        &&& s->Record_0@.len() == 5
        &&& s->Record_0@[0] == Shape::I32
        &&& s->Record_0@[1] == Shape::I16
        &&& s->Record_0@[2] == Shape::I32
        &&& s->Record_0@[3] == Shape::U8
        &&& s->Record_0@[4] == Shape::GzipNbt
    }

    /// The shape of the message `UpdateBlockEntity`.
    pub fn update_block_entity() -> (s: Shape)
        ensures
            PlayToClient::is_update_block_entity(s),
    {
        let mut fields: Vec<Shape> = Vec::new();
        fields.push(Shape::I32);
        fields.push(Shape::I16);
        fields.push(Shape::I32);
        fields.push(Shape::U8);
        fields.push(Shape::GzipNbt);
        Shape::Record(fields)
    }

    /// Whether `s` is the shape of the message `SignEditorOpen`.
    pub open spec fn is_sign_editor_open(s: Shape) -> bool {
        &&& s is Record
        &&& s->Record_0@.len() == 3
        &&& s->Record_0@[0] == Shape::I32
        &&& s->Record_0@[1] == Shape::I32
        &&& s->Record_0@[2] == Shape::I32
    }

    /// The shape of the message `SignEditorOpen`.
    pub fn sign_editor_open() -> (s: Shape)
        ensures
            PlayToClient::is_sign_editor_open(s),
    {
        let mut fields: Vec<Shape> = Vec::new();
        fields.push(Shape::I32);
        fields.push(Shape::I32);
        fields.push(Shape::I32);
        Shape::Record(fields)
    }

    /// Whether `s` is the shape of the message `Statistics`.
    pub open spec fn is_statistics(s: Shape) -> bool {
        &&& s is Record
        &&& s->Record_0@.len() == 1
        &&& s->Record_0@[0] is Array
        &&& s->Record_0@[0]->Array_0 == Prefix::VarInt
        &&& Stat::is_shape((*s->Record_0@[0]->Array_1))
    }

    /// The shape of the message `Statistics`.
    pub fn statistics() -> (s: Shape)
        ensures
            PlayToClient::is_statistics(s),
    {
        let mut fields: Vec<Shape> = Vec::new();
        fields.push(Shape::Array(Prefix::VarInt, Box::new(Stat::shape())));
        Shape::Record(fields)
    }

    /// Whether `s` is the shape of the message `UpdatePlayerList`.
    pub open spec fn is_update_player_list(s: Shape) -> bool {
        &&& s is Record
        &&& s->Record_0@.len() == 3
        &&& s->Record_0@[0] == Shape::Str
        &&& s->Record_0@[1] == Shape::Bool
        &&& s->Record_0@[2] == Shape::I16
    }

    /// The shape of the message `UpdatePlayerList`.
    pub fn update_player_list() -> (s: Shape)
        ensures
            PlayToClient::is_update_player_list(s),
    {
        let mut fields: Vec<Shape> = Vec::new();
        fields.push(Shape::Str);
        fields.push(Shape::Bool);
        fields.push(Shape::I16);
        Shape::Record(fields)
    }

    /// Whether `s` is the shape of the message `PlayerAbilities`.
    pub open spec fn is_player_abilities(s: Shape) -> bool {
        &&& s is Record
        &&& s->Record_0@.len() == 3
        &&& s->Record_0@[0] == Shape::I8
        &&& s->Record_0@[1] == Shape::F32
        &&& s->Record_0@[2] == Shape::F32
    }

    /// The shape of the message `PlayerAbilities`.
    pub fn player_abilities() -> (s: Shape)
        ensures
            PlayToClient::is_player_abilities(s),
    {
        let mut fields: Vec<Shape> = Vec::new();
        fields.push(Shape::I8);
        fields.push(Shape::F32);
        fields.push(Shape::F32);
        Shape::Record(fields)
    }

    /// Whether `s` is the shape of the message `TabComplete`.
    pub open spec fn is_tab_complete(s: Shape) -> bool {
        &&& s is Record
        &&& s->Record_0@.len() == 1
        &&& s->Record_0@[0] is Array
        &&& s->Record_0@[0]->Array_0 == Prefix::VarInt
        &&& (*s->Record_0@[0]->Array_1) == Shape::Str
    }

    /// The shape of the message `TabComplete`.
    pub fn tab_complete() -> (s: Shape)
        ensures
            PlayToClient::is_tab_complete(s),
    {
        let mut fields: Vec<Shape> = Vec::new();
        fields.push(Shape::Array(Prefix::VarInt, Box::new(Shape::Str)));
        Shape::Record(fields)
    }

    /// Whether `s` is the shape of the message `ScoreboardObjective`.
    pub open spec fn is_scoreboard_objective(s: Shape) -> bool {
        &&& s is Record
        &&& s->Record_0@.len() == 3
        &&& s->Record_0@[0] == Shape::Str
        &&& s->Record_0@[1] == Shape::Str
        &&& s->Record_0@[2] == Shape::I8
    }

    /// The shape of the message `ScoreboardObjective`.
    pub fn scoreboard_objective() -> (s: Shape)
        ensures
            PlayToClient::is_scoreboard_objective(s),
    {
        let mut fields: Vec<Shape> = Vec::new();
        fields.push(Shape::Str);
        fields.push(Shape::Str);
        fields.push(Shape::I8);
        Shape::Record(fields)
    }

    /// Whether `s` is the shape of the message `UpdateScore`.
    pub open spec fn is_update_score(s: Shape) -> bool {
        &&& s is Record
        &&& s->Record_0@.len() == 4
        &&& s->Record_0@[0] == Shape::Str
        &&& s->Record_0@[1] == Shape::I8
        &&& s->Record_0@[2] == Shape::Str
        &&& s->Record_0@[3] == Shape::I32
    }

    /// The shape of the message `UpdateScore`.
    pub fn update_score() -> (s: Shape)
        ensures
            PlayToClient::is_update_score(s),
    {
        let mut fields: Vec<Shape> = Vec::new();
        fields.push(Shape::Str);
        fields.push(Shape::I8);
        fields.push(Shape::Str);
        fields.push(Shape::I32);
        Shape::Record(fields)
    }

    /// Whether `s` is the shape of the message `DisplayScoreboard`.
    pub open spec fn is_display_scoreboard(s: Shape) -> bool {
        &&& s is Record
        &&& s->Record_0@.len() == 2
        &&& s->Record_0@[0] == Shape::I8
        &&& s->Record_0@[1] == Shape::Str
    }

    /// The shape of the message `DisplayScoreboard`.
    pub fn display_scoreboard() -> (s: Shape)
        ensures
            PlayToClient::is_display_scoreboard(s),
    {
        let mut fields: Vec<Shape> = Vec::new();
        fields.push(Shape::I8);
        fields.push(Shape::Str);
        Shape::Record(fields)
    }

    /// Whether `s` is the shape of the message `UpdateTeam`.
    pub open spec fn is_update_team(s: Shape) -> bool {
        &&& s is Record
        &&& s->Record_0@.len() == 2
        &&& s->Record_0@[0] == Shape::Str
        &&& s->Record_0@[1] == Shape::Sequence
    }

    /// The shape of the message `UpdateTeam`.
    pub fn update_team() -> (s: Shape)
        ensures
            PlayToClient::is_update_team(s),
    {
        let mut fields: Vec<Shape> = Vec::new();
        fields.push(Shape::Str);
        fields.push(Shape::Sequence);
        Shape::Record(fields)
    }

    /// Whether `s` is the shape of the message `PluginMessage`.
    pub open spec fn is_plugin_message(s: Shape) -> bool {
        &&& s is Record
        &&& s->Record_0@.len() == 2
        &&& s->Record_0@[0] == Shape::Str
        &&& s->Record_0@[1] is Array
        &&& s->Record_0@[1]->Array_0 == Prefix::Short
        &&& (*s->Record_0@[1]->Array_1) == Shape::U8
    }

    /// The shape of the message `PluginMessage`.
    pub fn plugin_message() -> (s: Shape)
        ensures
            PlayToClient::is_plugin_message(s),
    {
        let mut fields: Vec<Shape> = Vec::new();
        fields.push(Shape::Str);
        fields.push(Shape::Array(Prefix::Short, Box::new(Shape::U8)));
        Shape::Record(fields)
    }

    /// Whether `s` is the shape of the message `Disconnect`.
    pub open spec fn is_disconnect(s: Shape) -> bool {
        &&& s is Record
        &&& s->Record_0@.len() == 1
        &&& s->Record_0@[0] == Shape::Str
    }

    /// The shape of the message `Disconnect`.
    pub fn disconnect() -> (s: Shape)
        ensures
            PlayToClient::is_disconnect(s),
    {
        let mut fields: Vec<Shape> = Vec::new();
        fields.push(Shape::Str);
        Shape::Record(fields)
    }

    /// Whether `s` is the union of the messages, each under its index.
    pub open spec fn is_shape(s: Shape) -> bool {
        &&& s is Union
        &&& s->Union_0@.len() == 65
        &&& PlayToClient::is_keep_alive(s->Union_0@[0])
        &&& PlayToClient::is_join_game(s->Union_0@[1])
        &&& PlayToClient::is_chat_message(s->Union_0@[2])
        &&& PlayToClient::is_time_update(s->Union_0@[3])
        &&& PlayToClient::is_entity_equipment(s->Union_0@[4])
        &&& PlayToClient::is_spawn_pos(s->Union_0@[5])
        &&& PlayToClient::is_update_health(s->Union_0@[6])
        &&& PlayToClient::is_respawn(s->Union_0@[7])
        &&& PlayToClient::is_player_position_and_look(s->Union_0@[8])
        &&& PlayToClient::is_held_item_change(s->Union_0@[9])
        &&& PlayToClient::is_use_bed(s->Union_0@[10])
        &&& PlayToClient::is_animation(s->Union_0@[11])
        &&& PlayToClient::is_spawn_player(s->Union_0@[12])
        &&& PlayToClient::is_collect_item(s->Union_0@[13])
        &&& PlayToClient::is_spawn_object(s->Union_0@[14])
        &&& PlayToClient::is_spawn_mob(s->Union_0@[15])
        &&& PlayToClient::is_spawn_painting(s->Union_0@[16])
        &&& PlayToClient::is_spawn_experience_orb(s->Union_0@[17])
        &&& PlayToClient::is_entity_velocity(s->Union_0@[18])
        &&& PlayToClient::is_destroy_entities(s->Union_0@[19])
        &&& PlayToClient::is_entity_idle(s->Union_0@[20])
        &&& PlayToClient::is_entity_relative_move(s->Union_0@[21])
        &&& PlayToClient::is_entity_look(s->Union_0@[22])
        &&& PlayToClient::is_entity_look_and_relative_move(s->Union_0@[23])
        &&& PlayToClient::is_entity_teleport(s->Union_0@[24])
        &&& PlayToClient::is_entity_head_look(s->Union_0@[25])
        &&& PlayToClient::is_entity_status(s->Union_0@[26])
        &&& PlayToClient::is_attach_entity(s->Union_0@[27])
        &&& PlayToClient::is_entity_metadata(s->Union_0@[28])
        &&& PlayToClient::is_entity_effect(s->Union_0@[29])
        &&& PlayToClient::is_remove_entity_effect(s->Union_0@[30])
        &&& PlayToClient::is_set_experience(s->Union_0@[31])
        &&& PlayToClient::is_entity_properties(s->Union_0@[32])
        &&& PlayToClient::is_chunk_data(s->Union_0@[33])
        &&& PlayToClient::is_multi_block_change(s->Union_0@[34])
        &&& PlayToClient::is_block_change(s->Union_0@[35])
        &&& PlayToClient::is_block_action(s->Union_0@[36])
        &&& PlayToClient::is_block_break_animation(s->Union_0@[37])
        &&& PlayToClient::is_chunk_data_bulk(s->Union_0@[38])
        &&& PlayToClient::is_explosion(s->Union_0@[39])
        &&& PlayToClient::is_effect(s->Union_0@[40])
        &&& PlayToClient::is_sound_effect(s->Union_0@[41])
        &&& PlayToClient::is_particle(s->Union_0@[42])
        &&& PlayToClient::is_change_game_state(s->Union_0@[43])
        &&& PlayToClient::is_spawn_global_entity(s->Union_0@[44])
        &&& PlayToClient::is_open_window(s->Union_0@[45])
        &&& PlayToClient::is_close_window(s->Union_0@[46])
        &&& PlayToClient::is_set_slot(s->Union_0@[47])
        &&& PlayToClient::is_window_items(s->Union_0@[48])
        &&& PlayToClient::is_window_property(s->Union_0@[49])
        &&& PlayToClient::is_confirm_transaction(s->Union_0@[50])
        &&& PlayToClient::is_update_sign(s->Union_0@[51])
        &&& PlayToClient::is_update_map(s->Union_0@[52])
        &&& PlayToClient::is_update_block_entity(s->Union_0@[53])
        &&& PlayToClient::is_sign_editor_open(s->Union_0@[54])
        &&& PlayToClient::is_statistics(s->Union_0@[55])
        &&& PlayToClient::is_update_player_list(s->Union_0@[56])
        &&& PlayToClient::is_player_abilities(s->Union_0@[57])
        &&& PlayToClient::is_tab_complete(s->Union_0@[58])
        &&& PlayToClient::is_scoreboard_objective(s->Union_0@[59])
        &&& PlayToClient::is_update_score(s->Union_0@[60])
        &&& PlayToClient::is_display_scoreboard(s->Union_0@[61])
        &&& PlayToClient::is_update_team(s->Union_0@[62])
        &&& PlayToClient::is_plugin_message(s->Union_0@[63])
        &&& PlayToClient::is_disconnect(s->Union_0@[64])
    }

    /// The union of the messages, each under its index.
    pub fn shape() -> (s: Shape)
        ensures
            PlayToClient::is_shape(s),
    {
        let mut alternatives: Vec<Shape> = Vec::new();
        alternatives.push(PlayToClient::keep_alive());
        alternatives.push(PlayToClient::join_game());
        alternatives.push(PlayToClient::chat_message());
        alternatives.push(PlayToClient::time_update());
        alternatives.push(PlayToClient::entity_equipment());
        alternatives.push(PlayToClient::spawn_pos());
        alternatives.push(PlayToClient::update_health());
        alternatives.push(PlayToClient::respawn());
        alternatives.push(PlayToClient::player_position_and_look());
        alternatives.push(PlayToClient::held_item_change());
        alternatives.push(PlayToClient::use_bed());
        alternatives.push(PlayToClient::animation());
        alternatives.push(PlayToClient::spawn_player());
        alternatives.push(PlayToClient::collect_item());
        alternatives.push(PlayToClient::spawn_object());
        alternatives.push(PlayToClient::spawn_mob());
        alternatives.push(PlayToClient::spawn_painting());
        alternatives.push(PlayToClient::spawn_experience_orb());
        alternatives.push(PlayToClient::entity_velocity());
        alternatives.push(PlayToClient::destroy_entities());
        alternatives.push(PlayToClient::entity_idle());
        alternatives.push(PlayToClient::entity_relative_move());
        alternatives.push(PlayToClient::entity_look());
        alternatives.push(PlayToClient::entity_look_and_relative_move());
        alternatives.push(PlayToClient::entity_teleport());
        alternatives.push(PlayToClient::entity_head_look());
        alternatives.push(PlayToClient::entity_status());
        alternatives.push(PlayToClient::attach_entity());
        alternatives.push(PlayToClient::entity_metadata());
        alternatives.push(PlayToClient::entity_effect());
        alternatives.push(PlayToClient::remove_entity_effect());
        alternatives.push(PlayToClient::set_experience());
        alternatives.push(PlayToClient::entity_properties());
        alternatives.push(PlayToClient::chunk_data());
        alternatives.push(PlayToClient::multi_block_change());
        alternatives.push(PlayToClient::block_change());
        alternatives.push(PlayToClient::block_action());
        alternatives.push(PlayToClient::block_break_animation());
        alternatives.push(PlayToClient::chunk_data_bulk());
        alternatives.push(PlayToClient::explosion());
        alternatives.push(PlayToClient::effect());
        alternatives.push(PlayToClient::sound_effect());
        alternatives.push(PlayToClient::particle());
        alternatives.push(PlayToClient::change_game_state());
        alternatives.push(PlayToClient::spawn_global_entity());
        alternatives.push(PlayToClient::open_window());
        alternatives.push(PlayToClient::close_window());
        alternatives.push(PlayToClient::set_slot());
        alternatives.push(PlayToClient::window_items());
        alternatives.push(PlayToClient::window_property());
        alternatives.push(PlayToClient::confirm_transaction());
        alternatives.push(PlayToClient::update_sign());
        alternatives.push(PlayToClient::update_map());
        alternatives.push(PlayToClient::update_block_entity());
        alternatives.push(PlayToClient::sign_editor_open());
        alternatives.push(PlayToClient::statistics());
        alternatives.push(PlayToClient::update_player_list());
        alternatives.push(PlayToClient::player_abilities());
        alternatives.push(PlayToClient::tab_complete());
        alternatives.push(PlayToClient::scoreboard_objective());
        alternatives.push(PlayToClient::update_score());
        alternatives.push(PlayToClient::display_scoreboard());
        alternatives.push(PlayToClient::update_team());
        alternatives.push(PlayToClient::plugin_message());
        alternatives.push(PlayToClient::disconnect());
        Shape::Union(alternatives)
    }
}

/// The messages that a client sends in the play phase. The type holds no
/// message; it names their shapes, one function for each message and one
/// for their union.
#[derive(Debug, Clone, Copy, PartialEq, Eq)]
pub struct PlayToServer;

impl PlayToServer {
    /// Whether `s` is the shape of the message `KeepAlive`.
    pub open spec fn is_keep_alive(s: Shape) -> bool {
        &&& s is Record
        &&& s->Record_0@.len() == 1
        &&& s->Record_0@[0] == Shape::I32
    }

    /// The shape of the message `KeepAlive`.
    pub fn keep_alive() -> (s: Shape)
        ensures
            PlayToServer::is_keep_alive(s),
    {
        let mut fields: Vec<Shape> = Vec::new();
        fields.push(Shape::I32);
        Shape::Record(fields)
    }

    /// Whether `s` is the shape of the message `ChatMessage`.
    pub open spec fn is_chat_message(s: Shape) -> bool {
        &&& s is Record
        &&& s->Record_0@.len() == 1
        &&& s->Record_0@[0] == Shape::Str
    }

    /// The shape of the message `ChatMessage`.
    pub fn chat_message() -> (s: Shape)
        ensures
            PlayToServer::is_chat_message(s),
    {
        let mut fields: Vec<Shape> = Vec::new();
        fields.push(Shape::Str);
        Shape::Record(fields)
    }

    /// Whether `s` is the shape of the message `UseEntity`.
    pub open spec fn is_use_entity(s: Shape) -> bool {
        &&& s is Record
        &&& s->Record_0@.len() == 3
        &&& s->Record_0@[0] == Shape::I32
        &&& s->Record_0@[1] == Shape::I8
        &&& s->Record_0@[2] is Optional
        &&& is_triple((*s->Record_0@[2]->Optional_0), Shape::F32)
    }

    /// The shape of the message `UseEntity`.
    pub fn use_entity() -> (s: Shape)
        ensures
            PlayToServer::is_use_entity(s),
    {
        let mut fields: Vec<Shape> = Vec::new();
        fields.push(Shape::I32);
        fields.push(Shape::I8);
        fields.push(Shape::Optional(Box::new(triple(Shape::F32, Shape::F32, Shape::F32))));
        Shape::Record(fields)
    }

    /// Whether `s` is the shape of the message `PlayerIdle`.
    pub open spec fn is_player_idle(s: Shape) -> bool {
        &&& s is Record
        &&& s->Record_0@.len() == 1
        &&& s->Record_0@[0] == Shape::Bool
    }

    /// The shape of the message `PlayerIdle`.
    pub fn player_idle() -> (s: Shape)
        ensures
            PlayToServer::is_player_idle(s),
    {
        let mut fields: Vec<Shape> = Vec::new();
        fields.push(Shape::Bool);
        Shape::Record(fields)
    }

    /// Whether `s` is the shape of the message `PlayerPosition`.
    pub open spec fn is_player_position(s: Shape) -> bool {
        &&& s is Record
        &&& s->Record_0@.len() == 5
        &&& s->Record_0@[0] == Shape::F64
        &&& s->Record_0@[1] == Shape::F64
        &&& s->Record_0@[2] == Shape::F64
        &&& s->Record_0@[3] == Shape::F64
        &&& s->Record_0@[4] == Shape::Bool
    }

    /// The shape of the message `PlayerPosition`.
    pub fn player_position() -> (s: Shape)
        ensures
            PlayToServer::is_player_position(s),
    {
        let mut fields: Vec<Shape> = Vec::new();
        fields.push(Shape::F64);
        fields.push(Shape::F64);
        fields.push(Shape::F64);
        fields.push(Shape::F64);
        fields.push(Shape::Bool);
        Shape::Record(fields)
    }

    /// Whether `s` is the shape of the message `PlayerLook`.
    pub open spec fn is_player_look(s: Shape) -> bool {
        &&& s is Record
        &&& s->Record_0@.len() == 3
        &&& s->Record_0@[0] == Shape::F32
        &&& s->Record_0@[1] == Shape::F32
        &&& s->Record_0@[2] == Shape::Bool
    }

    /// The shape of the message `PlayerLook`.
    pub fn player_look() -> (s: Shape)
        ensures
            PlayToServer::is_player_look(s),
    {
        let mut fields: Vec<Shape> = Vec::new();
        fields.push(Shape::F32);
        fields.push(Shape::F32);
        fields.push(Shape::Bool);
        Shape::Record(fields)
    }

    /// Whether `s` is the shape of the message `PlayerPositionAndLook`.
    pub open spec fn is_player_position_and_look(s: Shape) -> bool {
        &&& s is Record
        &&& s->Record_0@.len() == 7
        &&& s->Record_0@[0] == Shape::F64
        &&& s->Record_0@[1] == Shape::F64
        &&& s->Record_0@[2] == Shape::F64
        &&& s->Record_0@[3] == Shape::F64
        &&& s->Record_0@[4] == Shape::F32
        &&& s->Record_0@[5] == Shape::F32
        &&& s->Record_0@[6] == Shape::Bool
    }

    /// The shape of the message `PlayerPositionAndLook`.
    pub fn player_position_and_look() -> (s: Shape)
        ensures
            PlayToServer::is_player_position_and_look(s),
    {
        let mut fields: Vec<Shape> = Vec::new();
        fields.push(Shape::F64);
        fields.push(Shape::F64);
        fields.push(Shape::F64);
        fields.push(Shape::F64);
        fields.push(Shape::F32);
        fields.push(Shape::F32);
        fields.push(Shape::Bool);
        Shape::Record(fields)
    }

    /// Whether `s` is the shape of the message `PlayerDigging`.
    pub open spec fn is_player_digging(s: Shape) -> bool {
        &&& s is Record
        &&& s->Record_0@.len() == 5
        &&& s->Record_0@[0] == Shape::I8
        &&& s->Record_0@[1] == Shape::I32
        &&& s->Record_0@[2] == Shape::I8
        &&& s->Record_0@[3] == Shape::I32
        &&& s->Record_0@[4] == Shape::I8
    }

    /// The shape of the message `PlayerDigging`.
    pub fn player_digging() -> (s: Shape)
        ensures
            PlayToServer::is_player_digging(s),
    {
        let mut fields: Vec<Shape> = Vec::new();
        fields.push(Shape::I8);
        fields.push(Shape::I32);
        fields.push(Shape::I8);
        fields.push(Shape::I32);
        fields.push(Shape::I8);
        Shape::Record(fields)
    }

    /// Whether `s` is the shape of the message `PlayerBlockPlacement`.
    pub open spec fn is_player_block_placement(s: Shape) -> bool {
        &&& s is Record
        &&& s->Record_0@.len() == 6
        &&& s->Record_0@[0] == Shape::I32
        &&& s->Record_0@[1] == Shape::I8
        &&& s->Record_0@[2] == Shape::I32
        &&& s->Record_0@[3] == Shape::I8
        &&& s->Record_0@[4] is Optional
        &&& (*s->Record_0@[4]->Optional_0) == Shape::Slot
        &&& is_triple(s->Record_0@[5], Shape::I8)
    }

    /// The shape of the message `PlayerBlockPlacement`.
    pub fn player_block_placement() -> (s: Shape)
        ensures
            PlayToServer::is_player_block_placement(s),
    {
        let mut fields: Vec<Shape> = Vec::new();
        fields.push(Shape::I32);
        fields.push(Shape::I8);
        fields.push(Shape::I32);
        fields.push(Shape::I8);
        fields.push(Shape::Optional(Box::new(Shape::Slot)));
        fields.push(triple(Shape::I8, Shape::I8, Shape::I8));
        Shape::Record(fields)
    }

    /// Whether `s` is the shape of the message `HeldItemChange`.
    pub open spec fn is_held_item_change(s: Shape) -> bool {
        &&& s is Record
        &&& s->Record_0@.len() == 1
        &&& s->Record_0@[0] == Shape::I16
    }

    /// The shape of the message `HeldItemChange`.
    pub fn held_item_change() -> (s: Shape)
        ensures
            PlayToServer::is_held_item_change(s),
    {
        let mut fields: Vec<Shape> = Vec::new();
        fields.push(Shape::I16);
        Shape::Record(fields)
    }

    /// Whether `s` is the shape of the message `Animation`.
    pub open spec fn is_animation(s: Shape) -> bool {
        &&& s is Record
        &&& s->Record_0@.len() == 2
        &&& s->Record_0@[0] == Shape::I32
        &&& s->Record_0@[1] == Shape::I8
    }

    /// The shape of the message `Animation`.
    pub fn animation() -> (s: Shape)
        ensures
            PlayToServer::is_animation(s),
    {
        let mut fields: Vec<Shape> = Vec::new();
        fields.push(Shape::I32);
        fields.push(Shape::I8);
        Shape::Record(fields)
    }

    /// Whether `s` is the shape of the message `EntityAction`.
    pub open spec fn is_entity_action(s: Shape) -> bool {
        &&& s is Record
        &&& s->Record_0@.len() == 3
        &&& s->Record_0@[0] == Shape::I32
        &&& s->Record_0@[1] == Shape::I8
        &&& s->Record_0@[2] == Shape::I32
    }

    /// The shape of the message `EntityAction`.
    pub fn entity_action() -> (s: Shape)
        ensures
            PlayToServer::is_entity_action(s),
    {
        let mut fields: Vec<Shape> = Vec::new();
        fields.push(Shape::I32);
        fields.push(Shape::I8);
        fields.push(Shape::I32);
        Shape::Record(fields)
    }

    /// Whether `s` is the shape of the message `SteerVehicle`.
    pub open spec fn is_steer_vehicle(s: Shape) -> bool {
        &&& s is Record
        &&& s->Record_0@.len() == 4
        &&& s->Record_0@[0] == Shape::F32
        &&& s->Record_0@[1] == Shape::F32
        &&& s->Record_0@[2] == Shape::Bool
        &&& s->Record_0@[3] == Shape::Bool
    }

    /// The shape of the message `SteerVehicle`.
    pub fn steer_vehicle() -> (s: Shape)
        ensures
            PlayToServer::is_steer_vehicle(s),
    {
        let mut fields: Vec<Shape> = Vec::new();
        fields.push(Shape::F32);
        fields.push(Shape::F32);
        fields.push(Shape::Bool);
        fields.push(Shape::Bool);
        Shape::Record(fields)
    }

    /// Whether `s` is the shape of the message `CloseWindow`.
    pub open spec fn is_close_window(s: Shape) -> bool {
        &&& s is Record
        &&& s->Record_0@.len() == 1
        &&& s->Record_0@[0] == Shape::U8
    }

    /// The shape of the message `CloseWindow`.
    pub fn close_window() -> (s: Shape)
        ensures
            PlayToServer::is_close_window(s),
    {
        let mut fields: Vec<Shape> = Vec::new();
        fields.push(Shape::U8);
        Shape::Record(fields)
    }

    /// Whether `s` is the shape of the message `ClickWindow`.
    pub open spec fn is_click_window(s: Shape) -> bool {
        &&& s is Record
        &&& s->Record_0@.len() == 6
        &&& s->Record_0@[0] == Shape::U8
        &&& s->Record_0@[1] == Shape::I16
        &&& s->Record_0@[2] == Shape::I8
        &&& s->Record_0@[3] == Shape::I16
        &&& s->Record_0@[4] == Shape::I8
        &&& s->Record_0@[5] is Optional
        &&& (*s->Record_0@[5]->Optional_0) == Shape::Slot
    }

    /// The shape of the message `ClickWindow`.
    pub fn click_window() -> (s: Shape)
        ensures
            PlayToServer::is_click_window(s),
    {
        let mut fields: Vec<Shape> = Vec::new();
        fields.push(Shape::U8);
        fields.push(Shape::I16);
        fields.push(Shape::I8);
        fields.push(Shape::I16);
        fields.push(Shape::I8);
        fields.push(Shape::Optional(Box::new(Shape::Slot)));
        Shape::Record(fields)
    }

    /// Whether `s` is the shape of the message `ConfirmTransaction`.
    pub open spec fn is_confirm_transaction(s: Shape) -> bool {
        &&& s is Record
        &&& s->Record_0@.len() == 3
        &&& s->Record_0@[0] == Shape::I8
        &&& s->Record_0@[1] == Shape::I16
        &&& s->Record_0@[2] == Shape::Bool
    }

    /// The shape of the message `ConfirmTransaction`.
    pub fn confirm_transaction() -> (s: Shape)
        ensures
            PlayToServer::is_confirm_transaction(s),
    {
        let mut fields: Vec<Shape> = Vec::new();
        fields.push(Shape::I8);
        fields.push(Shape::I16);
        fields.push(Shape::Bool);
        Shape::Record(fields)
    }

    /// Whether `s` is the shape of the message `CreativeInventoryAction`.
    pub open spec fn is_creative_inventory_action(s: Shape) -> bool {
        &&& s is Record
        &&& s->Record_0@.len() == 2
        &&& s->Record_0@[0] == Shape::I16
        &&& s->Record_0@[1] is Optional
        &&& (*s->Record_0@[1]->Optional_0) == Shape::Slot
    }

    /// The shape of the message `CreativeInventoryAction`.
    pub fn creative_inventory_action() -> (s: Shape)
        ensures
            PlayToServer::is_creative_inventory_action(s),
    {
        let mut fields: Vec<Shape> = Vec::new();
        fields.push(Shape::I16);
        fields.push(Shape::Optional(Box::new(Shape::Slot)));
        Shape::Record(fields)
    }

    /// Whether `s` is the shape of the message `EnchantItem`.
    pub open spec fn is_enchant_item(s: Shape) -> bool {
        &&& s is Record
        &&& s->Record_0@.len() == 2
        &&& s->Record_0@[0] == Shape::U8
        &&& s->Record_0@[1] == Shape::I8
    }

    /// The shape of the message `EnchantItem`.
    pub fn enchant_item() -> (s: Shape)
        ensures
            PlayToServer::is_enchant_item(s),
    {
        let mut fields: Vec<Shape> = Vec::new();
        fields.push(Shape::U8);
        fields.push(Shape::I8);
        Shape::Record(fields)
    }

    /// Whether `s` is the shape of the message `UpdateSign`.
    pub open spec fn is_update_sign(s: Shape) -> bool {
        &&& s is Record
        &&& s->Record_0@.len() == 7
        &&& s->Record_0@[0] == Shape::I32
        &&& s->Record_0@[1] == Shape::I16
        &&& s->Record_0@[2] == Shape::I32
        &&& s->Record_0@[3] == Shape::Str
        &&& s->Record_0@[4] == Shape::Str
        &&& s->Record_0@[5] == Shape::Str
        &&& s->Record_0@[6] == Shape::Str
    }

    /// The shape of the message `UpdateSign`.
    pub fn update_sign() -> (s: Shape)
        ensures
            PlayToServer::is_update_sign(s),
    {
        let mut fields: Vec<Shape> = Vec::new();
        fields.push(Shape::I32);
        fields.push(Shape::I16);
        fields.push(Shape::I32);
        fields.push(Shape::Str);
        fields.push(Shape::Str);
        fields.push(Shape::Str);
        fields.push(Shape::Str);
        Shape::Record(fields)
    }

    /// Whether `s` is the shape of the message `PlayerAbilities`.
    pub open spec fn is_player_abilities(s: Shape) -> bool {
        &&& s is Record
        &&& s->Record_0@.len() == 3
        &&& s->Record_0@[0] == Shape::I8
        &&& s->Record_0@[1] == Shape::F32
        &&& s->Record_0@[2] == Shape::F32
    }

    /// The shape of the message `PlayerAbilities`.
    pub fn player_abilities() -> (s: Shape)
        ensures
            PlayToServer::is_player_abilities(s),
    {
        let mut fields: Vec<Shape> = Vec::new();
        fields.push(Shape::I8);
        fields.push(Shape::F32);
        fields.push(Shape::F32);
        Shape::Record(fields)
    }

    /// Whether `s` is the shape of the message `TabComplete`.
    pub open spec fn is_tab_complete(s: Shape) -> bool {
        &&& s is Record
        &&& s->Record_0@.len() == 1
        &&& s->Record_0@[0] == Shape::Str
    }

    /// The shape of the message `TabComplete`.
    pub fn tab_complete() -> (s: Shape)
        ensures
            PlayToServer::is_tab_complete(s),
    {
        let mut fields: Vec<Shape> = Vec::new();
        fields.push(Shape::Str);
        Shape::Record(fields)
    }

    /// Whether `s` is the shape of the message `ClientSettings`.
    pub open spec fn is_client_settings(s: Shape) -> bool {
        &&& s is Record
        &&& s->Record_0@.len() == 6
        &&& s->Record_0@[0] == Shape::Str
        &&& s->Record_0@[1] == Shape::I8
        &&& s->Record_0@[2] == Shape::I8
        &&& s->Record_0@[3] == Shape::Bool
        &&& s->Record_0@[4] == Shape::U8
        &&& s->Record_0@[5] == Shape::Bool
    }

    /// The shape of the message `ClientSettings`.
    pub fn client_settings() -> (s: Shape)
        ensures
            PlayToServer::is_client_settings(s),
    {
        let mut fields: Vec<Shape> = Vec::new();
        fields.push(Shape::Str);
        fields.push(Shape::I8);
        fields.push(Shape::I8);
        fields.push(Shape::Bool);
        fields.push(Shape::U8);
        fields.push(Shape::Bool);
        Shape::Record(fields)
    }

    /// Whether `s` is the shape of the message `ClientStatus`.
    pub open spec fn is_client_status(s: Shape) -> bool {
        &&& s is Record
        &&& s->Record_0@.len() == 1
        &&& s->Record_0@[0] == Shape::I8
    }

    /// The shape of the message `ClientStatus`.
    pub fn client_status() -> (s: Shape)
        ensures
            PlayToServer::is_client_status(s),
    {
        let mut fields: Vec<Shape> = Vec::new();
        fields.push(Shape::I8);
        Shape::Record(fields)
    }

    /// Whether `s` is the shape of the message `CustomPayload`.
    pub open spec fn is_custom_payload(s: Shape) -> bool {
        &&& s is Record
        &&& s->Record_0@.len() == 2
        &&& s->Record_0@[0] == Shape::Str
        &&& s->Record_0@[1] == Shape::Sequence
    }

    /// The shape of the message `CustomPayload`.
    pub fn custom_payload() -> (s: Shape)
        ensures
            PlayToServer::is_custom_payload(s),
    {
        let mut fields: Vec<Shape> = Vec::new();
        fields.push(Shape::Str);
        fields.push(Shape::Sequence);
        Shape::Record(fields)
    }

    /// Whether `s` is the union of the messages, each under its index.
    pub open spec fn is_shape(s: Shape) -> bool {
        &&& s is Union
        &&& s->Union_0@.len() == 24
        &&& PlayToServer::is_keep_alive(s->Union_0@[0])
        &&& PlayToServer::is_chat_message(s->Union_0@[1])
        &&& PlayToServer::is_use_entity(s->Union_0@[2])
        &&& PlayToServer::is_player_idle(s->Union_0@[3])
        &&& PlayToServer::is_player_position(s->Union_0@[4])
        &&& PlayToServer::is_player_look(s->Union_0@[5])
        &&& PlayToServer::is_player_position_and_look(s->Union_0@[6])
        &&& PlayToServer::is_player_digging(s->Union_0@[7])
        &&& PlayToServer::is_player_block_placement(s->Union_0@[8])
        &&& PlayToServer::is_held_item_change(s->Union_0@[9])
        &&& PlayToServer::is_animation(s->Union_0@[10])
        &&& PlayToServer::is_entity_action(s->Union_0@[11])
        &&& PlayToServer::is_steer_vehicle(s->Union_0@[12])
        &&& PlayToServer::is_close_window(s->Union_0@[13])
        &&& PlayToServer::is_click_window(s->Union_0@[14])
        &&& PlayToServer::is_confirm_transaction(s->Union_0@[15])
        &&& PlayToServer::is_creative_inventory_action(s->Union_0@[16])
        &&& PlayToServer::is_enchant_item(s->Union_0@[17])
        &&& PlayToServer::is_update_sign(s->Union_0@[18])
        &&& PlayToServer::is_player_abilities(s->Union_0@[19])
        &&& PlayToServer::is_tab_complete(s->Union_0@[20])
        &&& PlayToServer::is_client_settings(s->Union_0@[21])
        &&& PlayToServer::is_client_status(s->Union_0@[22])
        &&& PlayToServer::is_custom_payload(s->Union_0@[23])
    }

    /// The union of the messages, each under its index.
    pub fn shape() -> (s: Shape)
        ensures
            PlayToServer::is_shape(s),
    {
        let mut alternatives: Vec<Shape> = Vec::new();
        alternatives.push(PlayToServer::keep_alive());
        alternatives.push(PlayToServer::chat_message());
        alternatives.push(PlayToServer::use_entity());
        alternatives.push(PlayToServer::player_idle());
        alternatives.push(PlayToServer::player_position());
        alternatives.push(PlayToServer::player_look());
        alternatives.push(PlayToServer::player_position_and_look());
        alternatives.push(PlayToServer::player_digging());
        alternatives.push(PlayToServer::player_block_placement());
        alternatives.push(PlayToServer::held_item_change());
        alternatives.push(PlayToServer::animation());
        alternatives.push(PlayToServer::entity_action());
        alternatives.push(PlayToServer::steer_vehicle());
        alternatives.push(PlayToServer::close_window());
        alternatives.push(PlayToServer::click_window());
        alternatives.push(PlayToServer::confirm_transaction());
        alternatives.push(PlayToServer::creative_inventory_action());
        alternatives.push(PlayToServer::enchant_item());
        alternatives.push(PlayToServer::update_sign());
        alternatives.push(PlayToServer::player_abilities());
        alternatives.push(PlayToServer::tab_complete());
        alternatives.push(PlayToServer::client_settings());
        alternatives.push(PlayToServer::client_status());
        alternatives.push(PlayToServer::custom_payload());
        Shape::Union(alternatives)
    }
}

} // verus!
