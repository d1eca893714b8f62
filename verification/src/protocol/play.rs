//! Minecraft protocol packet definitions in the `Play` state.

use crate::cursor::unread;
use crate::error::IoError;
use crate::io::args::{IntArgs, ListArgs, ListLength, OptionArgs, OptionTag, StringArgs};
use crate::io::be::be_bytes;
use crate::io::mc::{read_outcome, then_write, write_outcome, McRead, McWrite};
use crate::uuid::Uuid;
use std::io::Cursor;
use crate::io::ext::ext_var_i32_bytes;
use crate::io::impls::strings::string_write;
use vstd::prelude::*;

verus! {

/// A vector of three `f32`s, each held as its IEEE 754 bits, which is how
/// the protocol sends it.
#[derive(Clone, Copy, PartialEq, Eq, Structural, Debug, Default)]
pub struct Vec3Bits {
    pub x: u32,
    pub y: u32,
    pub z: u32,
}

impl DeepView for Vec3Bits {
    type V = Vec3Bits;

    open spec fn deep_view(&self) -> Vec3Bits {
        *self
    }
}

/// Writing a vector: its three coordinates as big-endian `f32` bits.
pub open spec fn vec3_write(v: Vec3Bits) -> Result<Seq<u8>, IoError> {
    then_write(then_write(<u32 as McWrite>::spec_write(v.x, ()), <u32 as McWrite>::spec_write(v.y, ())), <u32 as McWrite>::spec_write(v.z, ()))
}

impl McWrite for Vec3Bits {
    type Args = ();

    open spec fn spec_write(v: Vec3Bits, args: ()) -> Result<Seq<u8>, IoError> {
        vec3_write(v)
    }

    fn write(&self, writer: &mut Vec<u8>, args: &()) -> (r: Result<(), IoError>) {
        let ghost start = writer@;
        self.x.write(writer, &())?;
        let ghost c0 = <u32 as McWrite>::spec_write(self.deep_view().x, ());
        assert(writer@ =~= start + c0->Ok_0);
        self.y.write(writer, &())?;
        let ghost c1 = then_write(c0, <u32 as McWrite>::spec_write(self.deep_view().y, ()));
        assert(writer@ =~= start + c1->Ok_0);
        self.z.write(writer, &())?;
        let ghost c2 = then_write(c1, <u32 as McWrite>::spec_write(self.deep_view().z, ()));
        assert(writer@ =~= start + c2->Ok_0);
        Ok(())
    }
}

/// Clientbound packet for a game event, such as waiting on chunks.
#[derive(Clone, Copy, PartialEq, Eq, Debug)]
pub struct GameEvent {
    /// The event.
    pub event: u8,
    /// The event's value, as the bits of an `f32`.
    pub value: u32,
}

impl GameEvent {
    /// The event that makes the client wait on chunks, with value `0.0`.
    pub fn wait_on_chunks() -> (e: GameEvent)
        ensures
            e.event == 13,
            e.value == 0,
    {
        GameEvent { event: 13, value: 0 }
    }
}

impl DeepView for GameEvent {
    type V = GameEvent;

    open spec fn deep_view(&self) -> GameEvent {
        *self
    }
}

/// Writing a game event: the event byte, then the value's `f32` bits.
pub open spec fn game_event_write(v: GameEvent) -> Result<Seq<u8>, IoError> {
    then_write(<u8 as McWrite>::spec_write(v.event, ()), <u32 as McWrite>::spec_write(v.value, ()))
}

impl McWrite for GameEvent {
    type Args = ();

    open spec fn spec_write(v: GameEvent, args: ()) -> Result<Seq<u8>, IoError> {
        game_event_write(v)
    }

    fn write(&self, writer: &mut Vec<u8>, args: &()) -> (r: Result<(), IoError>) {
        let ghost start = writer@;
        self.event.write(writer, &())?;
        let ghost c0 = <u8 as McWrite>::spec_write(self.deep_view().event, ());
        assert(writer@ =~= start + c0->Ok_0);
        self.value.write(writer, &())?;
        let ghost c1 = then_write(c0, <u32 as McWrite>::spec_write(self.deep_view().value, ()));
        assert(writer@ =~= start + c1->Ok_0);
        Ok(())
    }
}

/// Clientbound packet that sends the player's initial information after login.
#[derive(Clone, PartialEq, Eq, Debug)]
pub struct Login {
    /// The player's entity ID.
    pub entity_id: i32,
    /// Whether the world is in hardcore mode.
    pub is_hardcore: bool,
    /// The dimensions of the server.
    pub dimensions: Vec<String>,
    /// The most players the server holds; no longer used by the client.
    pub max_players: i32,
    /// The render distance.
    pub view_distance: i32,
    /// The distance within which the client processes entities.
    pub simulation_distance: i32,
    /// Whether the debug screen shows less.
    pub reduced_debug_info: bool,
    /// Whether the respawn screen is shown.
    pub enable_respawn_screen: bool,
    /// Whether crafting is limited to unlocked recipes.
    pub do_limited_crafting: bool,
    /// The type of the dimension the player spawns in.
    pub dimension_type: i32,
    /// The name of the dimension the player spawns in.
    pub dimension_name: String,
    /// The first eight bytes of the world seed's SHA-256 hash.
    pub hashed_seed: i64,
    /// The game mode.
    pub game_mode: u8,
    /// The previous game mode, or -1 for none.
    pub previous_game_mode: i8,
    /// Whether the world is a debug world.
    pub is_debug: bool,
    /// Whether the world is superflat.
    pub is_flat: bool,
    /// Where the player last died, if known.
    pub death_dimension_name_and_location: Option<(String, Vec3Bits)>,
    /// The ticks until the player can use a portal again.
    pub portal_cooldown: i32,
    /// Whether the server enforces secure chat.
    pub enforces_secure_chat: bool,
}

impl DeepView for Login {
    type V = Login;

    open spec fn deep_view(&self) -> Login {
        *self
    }
}

/// Writing the fields `entity_id` to `view_distance` of the packet.
pub open spec fn login_write_part1(v: Login) -> Result<Seq<u8>, IoError> {
    then_write(then_write(then_write(then_write(<i32 as McWrite>::spec_write(v.entity_id.deep_view(), (IntArgs { varint: false })), <bool as McWrite>::spec_write(v.is_hardcore.deep_view(), ())), <Vec<String> as McWrite>::spec_write(v.dimensions.deep_view(), (ListArgs { length: ListLength::VarInt, inner: StringArgs { max_len: Some(32767) } }))), <i32 as McWrite>::spec_write(v.max_players.deep_view(), (IntArgs { varint: true }))), <i32 as McWrite>::spec_write(v.view_distance.deep_view(), (IntArgs { varint: true })))
}

/// Writing the fields `simulation_distance` to `dimension_type` of the packet.
pub open spec fn login_write_part2(v: Login) -> Result<Seq<u8>, IoError> {
    then_write(then_write(then_write(then_write(<i32 as McWrite>::spec_write(v.simulation_distance.deep_view(), (IntArgs { varint: true })), <bool as McWrite>::spec_write(v.reduced_debug_info.deep_view(), ())), <bool as McWrite>::spec_write(v.enable_respawn_screen.deep_view(), ())), <bool as McWrite>::spec_write(v.do_limited_crafting.deep_view(), ())), <i32 as McWrite>::spec_write(v.dimension_type.deep_view(), (IntArgs { varint: true })))
}

/// Writing the fields `dimension_name` to `is_debug` of the packet.
pub open spec fn login_write_part3(v: Login) -> Result<Seq<u8>, IoError> {
    then_write(then_write(then_write(then_write(<String as McWrite>::spec_write(v.dimension_name.deep_view(), (StringArgs { max_len: Some(32767) })), <i64 as McWrite>::spec_write(v.hashed_seed.deep_view(), (IntArgs { varint: false }))), <u8 as McWrite>::spec_write(v.game_mode.deep_view(), ())), <i8 as McWrite>::spec_write(v.previous_game_mode.deep_view(), ())), <bool as McWrite>::spec_write(v.is_debug.deep_view(), ()))
}

/// Writing the fields `is_flat` to `enforces_secure_chat` of the packet.
pub open spec fn login_write_part4(v: Login) -> Result<Seq<u8>, IoError> {
    then_write(then_write(then_write(<bool as McWrite>::spec_write(v.is_flat.deep_view(), ()), <Option<(String, Vec3Bits)> as McWrite>::spec_write(v.death_dimension_name_and_location.deep_view(), (OptionArgs { tag: OptionTag::Bool, inner: (StringArgs { max_len: Some(32767) }, ()) }))), <i32 as McWrite>::spec_write(v.portal_cooldown.deep_view(), (IntArgs { varint: true }))), <bool as McWrite>::spec_write(v.enforces_secure_chat.deep_view(), ()))
}

/// Writing the login packet: its fields in order.
pub open spec fn login_write(v: Login) -> Result<Seq<u8>, IoError> {
    then_write(then_write(then_write(login_write_part1(v), login_write_part2(v)), login_write_part3(v)), login_write_part4(v))
}

impl Login {
    /// Writes the fields `entity_id` to `view_distance`.
    fn login_write_part1(&self, writer: &mut Vec<u8>) -> (r: Result<(), IoError>)
        ensures
            write_outcome(old(writer)@, final(writer)@, login_write_part1(self.deep_view()), r),
    {
        let ghost start = writer@;
        self.entity_id.write(writer, &(IntArgs { varint: false }))?;
        let ghost c0 = <i32 as McWrite>::spec_write(self.deep_view().entity_id.deep_view(), (IntArgs { varint: false }));
        assert(writer@ =~= start + c0->Ok_0);
        self.is_hardcore.write(writer, &())?;
        let ghost c1 = then_write(c0, <bool as McWrite>::spec_write(self.deep_view().is_hardcore.deep_view(), ()));
        assert(writer@ =~= start + c1->Ok_0);
        self.dimensions.write(writer, &(ListArgs { length: ListLength::VarInt, inner: StringArgs { max_len: Some(32767) } }))?;
        let ghost c2 = then_write(c1, <Vec<String> as McWrite>::spec_write(self.deep_view().dimensions.deep_view(), (ListArgs { length: ListLength::VarInt, inner: StringArgs { max_len: Some(32767) } })));
        assert(writer@ =~= start + c2->Ok_0);
        self.max_players.write(writer, &(IntArgs { varint: true }))?;
        let ghost c3 = then_write(c2, <i32 as McWrite>::spec_write(self.deep_view().max_players.deep_view(), (IntArgs { varint: true })));
        assert(writer@ =~= start + c3->Ok_0);
        self.view_distance.write(writer, &(IntArgs { varint: true }))?;
        let ghost c4 = then_write(c3, <i32 as McWrite>::spec_write(self.deep_view().view_distance.deep_view(), (IntArgs { varint: true })));
        assert(writer@ =~= start + c4->Ok_0);
        Ok(())
    }

    /// Writes the fields `simulation_distance` to `dimension_type`.
    fn login_write_part2(&self, writer: &mut Vec<u8>) -> (r: Result<(), IoError>)
        ensures
            write_outcome(old(writer)@, final(writer)@, login_write_part2(self.deep_view()), r),
    {
        let ghost start = writer@;
        self.simulation_distance.write(writer, &(IntArgs { varint: true }))?;
        let ghost c0 = <i32 as McWrite>::spec_write(self.deep_view().simulation_distance.deep_view(), (IntArgs { varint: true }));
        assert(writer@ =~= start + c0->Ok_0);
        self.reduced_debug_info.write(writer, &())?;
        let ghost c1 = then_write(c0, <bool as McWrite>::spec_write(self.deep_view().reduced_debug_info.deep_view(), ()));
        assert(writer@ =~= start + c1->Ok_0);
        self.enable_respawn_screen.write(writer, &())?;
        let ghost c2 = then_write(c1, <bool as McWrite>::spec_write(self.deep_view().enable_respawn_screen.deep_view(), ()));
        assert(writer@ =~= start + c2->Ok_0);
        self.do_limited_crafting.write(writer, &())?;
        let ghost c3 = then_write(c2, <bool as McWrite>::spec_write(self.deep_view().do_limited_crafting.deep_view(), ()));
        assert(writer@ =~= start + c3->Ok_0);
        self.dimension_type.write(writer, &(IntArgs { varint: true }))?;
        let ghost c4 = then_write(c3, <i32 as McWrite>::spec_write(self.deep_view().dimension_type.deep_view(), (IntArgs { varint: true })));
        assert(writer@ =~= start + c4->Ok_0);
        Ok(())
    }

    /// Writes the fields `dimension_name` to `is_debug`.
    fn login_write_part3(&self, writer: &mut Vec<u8>) -> (r: Result<(), IoError>)
        ensures
            write_outcome(old(writer)@, final(writer)@, login_write_part3(self.deep_view()), r),
    {
        let ghost start = writer@;
        self.dimension_name.write(writer, &(StringArgs { max_len: Some(32767) }))?;
        let ghost c0 = <String as McWrite>::spec_write(self.deep_view().dimension_name.deep_view(), (StringArgs { max_len: Some(32767) }));
        assert(writer@ =~= start + c0->Ok_0);
        self.hashed_seed.write(writer, &(IntArgs { varint: false }))?;
        let ghost c1 = then_write(c0, <i64 as McWrite>::spec_write(self.deep_view().hashed_seed.deep_view(), (IntArgs { varint: false })));
        assert(writer@ =~= start + c1->Ok_0);
        self.game_mode.write(writer, &())?;
        let ghost c2 = then_write(c1, <u8 as McWrite>::spec_write(self.deep_view().game_mode.deep_view(), ()));
        assert(writer@ =~= start + c2->Ok_0);
        self.previous_game_mode.write(writer, &())?;
        let ghost c3 = then_write(c2, <i8 as McWrite>::spec_write(self.deep_view().previous_game_mode.deep_view(), ()));
        assert(writer@ =~= start + c3->Ok_0);
        self.is_debug.write(writer, &())?;
        let ghost c4 = then_write(c3, <bool as McWrite>::spec_write(self.deep_view().is_debug.deep_view(), ()));
        assert(writer@ =~= start + c4->Ok_0);
        Ok(())
    }

    /// Writes the fields `is_flat` to `enforces_secure_chat`.
    fn login_write_part4(&self, writer: &mut Vec<u8>) -> (r: Result<(), IoError>)
        ensures
            write_outcome(old(writer)@, final(writer)@, login_write_part4(self.deep_view()), r),
    {
        let ghost start = writer@;
        self.is_flat.write(writer, &())?;
        let ghost c0 = <bool as McWrite>::spec_write(self.deep_view().is_flat.deep_view(), ());
        assert(writer@ =~= start + c0->Ok_0);
        self.death_dimension_name_and_location.write(writer, &(OptionArgs { tag: OptionTag::Bool, inner: (StringArgs { max_len: Some(32767) }, ()) }))?;
        let ghost c1 = then_write(c0, <Option<(String, Vec3Bits)> as McWrite>::spec_write(self.deep_view().death_dimension_name_and_location.deep_view(), (OptionArgs { tag: OptionTag::Bool, inner: (StringArgs { max_len: Some(32767) }, ()) })));
        assert(writer@ =~= start + c1->Ok_0);
        self.portal_cooldown.write(writer, &(IntArgs { varint: true }))?;
        let ghost c2 = then_write(c1, <i32 as McWrite>::spec_write(self.deep_view().portal_cooldown.deep_view(), (IntArgs { varint: true })));
        assert(writer@ =~= start + c2->Ok_0);
        self.enforces_secure_chat.write(writer, &())?;
        let ghost c3 = then_write(c2, <bool as McWrite>::spec_write(self.deep_view().enforces_secure_chat.deep_view(), ()));
        assert(writer@ =~= start + c3->Ok_0);
        Ok(())
    }

}

impl McWrite for Login {
    type Args = ();

    open spec fn spec_write(v: Login, args: ()) -> Result<Seq<u8>, IoError> {
        login_write(v)
    }

    fn write(&self, writer: &mut Vec<u8>, args: &()) -> (r: Result<(), IoError>) {
        let ghost start = writer@;
        self.login_write_part1(writer)?;
        let ghost c0 = login_write_part1(self.deep_view());
        assert(writer@ =~= start + c0->Ok_0);
        self.login_write_part2(writer)?;
        let ghost c1 = then_write(c0, login_write_part2(self.deep_view()));
        assert(writer@ =~= start + c1->Ok_0);
        self.login_write_part3(writer)?;
        let ghost c2 = then_write(c1, login_write_part3(self.deep_view()));
        assert(writer@ =~= start + c2->Ok_0);
        self.login_write_part4(writer)?;
        let ghost c3 = then_write(c2, login_write_part4(self.deep_view()));
        assert(writer@ =~= start + c3->Ok_0);
        Ok(())
    }
}

/// Serverbound packet that confirms a teleport sent by the server.
#[derive(Clone, PartialEq, Eq, Debug)]
pub struct ConfirmTeleport {
    /// The teleport ID to confirm.
    pub teleport_id: i32,
}

impl DeepView for ConfirmTeleport {
    type V = i32;

    open spec fn deep_view(&self) -> i32 {
        self.teleport_id
    }
}

impl McRead for ConfirmTeleport {
    type Args = ();

    open spec fn spec_read(args: (), input: Seq<u8>) -> Result<(i32, nat), IoError> {
        <i32 as McRead>::spec_read((IntArgs { varint: true }), input)
    }

    open spec fn read_ok(args: ()) -> bool {
        true
    }

    open spec fn progresses(args: ()) -> bool {
        true
    }

    proof fn lemma_read_len(args: (), input: Seq<u8>) {
        <i32 as McRead>::lemma_read_len((IntArgs { varint: true }), input);
    }

    fn read(reader: &mut Cursor<&[u8]>, args: &()) -> (r: Result<ConfirmTeleport, IoError>) {
        Ok(ConfirmTeleport { teleport_id: <i32 as McRead>::read(reader, &(IntArgs { varint: true }))? })
    }
}

/// Serverbound packet that updates the player's on-ground status.
#[derive(Clone, PartialEq, Eq, Debug)]
pub struct SetPlayerOnGround {
    /// True if the player is on the ground.
    pub on_ground: bool,
}

impl DeepView for SetPlayerOnGround {
    type V = bool;

    open spec fn deep_view(&self) -> bool {
        self.on_ground
    }
}

impl McRead for SetPlayerOnGround {
    type Args = ();

    open spec fn spec_read(args: (), input: Seq<u8>) -> Result<(bool, nat), IoError> {
        <bool as McRead>::spec_read((), input)
    }

    open spec fn read_ok(args: ()) -> bool {
        true
    }

    open spec fn progresses(args: ()) -> bool {
        true
    }

    proof fn lemma_read_len(args: (), input: Seq<u8>) {
        <bool as McRead>::lemma_read_len((), input);
    }

    fn read(reader: &mut Cursor<&[u8]>, args: &()) -> (r: Result<SetPlayerOnGround, IoError>) {
        Ok(SetPlayerOnGround { on_ground: <bool as McRead>::read(reader, &())? })
    }
}

/// The flags of the packet that syncs the player's position: which values are relative.
#[derive(Clone, Copy, PartialEq, Eq, Structural, Debug)]
pub enum SyncPlayerPositionFlags {
    /// The X coordinate is relative to the player's current position.
    X,
    /// The Y coordinate is relative to the player's current position.
    Y,
    /// The Z coordinate is relative to the player's current position.
    Z,
    /// The pitch is relative to the player's current rotation.
    Pitch,
    /// The yaw is relative to the player's current rotation.
    Yaw,
}

impl SyncPlayerPositionFlags {
    /// The bit that stands for this flag.
    pub open spec fn spec_bits(self) -> u8 {
        match self {
            SyncPlayerPositionFlags::X => 0x01,
            SyncPlayerPositionFlags::Y => 0x02,
            SyncPlayerPositionFlags::Z => 0x04,
            SyncPlayerPositionFlags::Pitch => 0x08,
            SyncPlayerPositionFlags::Yaw => 0x10,
        }
    }

    /// The bit that stands for this flag.
    pub fn bits(self) -> (b: u8)
        ensures
            b == self.spec_bits(),
    {
        match self {
            SyncPlayerPositionFlags::X => 0x01,
            SyncPlayerPositionFlags::Y => 0x02,
            SyncPlayerPositionFlags::Z => 0x04,
            SyncPlayerPositionFlags::Pitch => 0x08,
            SyncPlayerPositionFlags::Yaw => 0x10,
        }
    }
}

/// The flags of the packets that sync and set the player's abilities.
#[derive(Clone, Copy, PartialEq, Eq, Structural, Debug)]
pub enum PlayerAbilities {
    /// The player cannot take damage.
    Invulnerable,
    /// The player is flying.
    Flying,
    /// The player can fly.
    AllowFlying,
    /// The player instantly breaks blocks.
    InstantBreak,
}

impl PlayerAbilities {
    /// The bit that stands for this flag.
    pub open spec fn spec_bits(self) -> u8 {
        match self {
            PlayerAbilities::Invulnerable => 0x01,
            PlayerAbilities::Flying => 0x02,
            PlayerAbilities::AllowFlying => 0x04,
            PlayerAbilities::InstantBreak => 0x08,
        }
    }

    /// The bit that stands for this flag.
    pub fn bits(self) -> (b: u8)
        ensures
            b == self.spec_bits(),
    {
        match self {
            PlayerAbilities::Invulnerable => 0x01,
            PlayerAbilities::Flying => 0x02,
            PlayerAbilities::AllowFlying => 0x04,
            PlayerAbilities::InstantBreak => 0x08,
        }
    }
}

/// A vector is written as the big-endian bytes of `x`, then of `y`, then
/// of `z`, four bytes each.
pub proof fn lemma_vec3_bytes(v: Vec3Bits)
    ensures
        <Vec3Bits as McWrite>::spec_write(v, ()) == Ok::<Seq<u8>, IoError>(
            be_bytes(v.x as nat, 4) + be_bytes(v.y as nat, 4) + be_bytes(v.z as nat, 4),
        ),
{
}

/// The bit of each ability flag, as the protocol fixes it.
pub proof fn lemma_ability_bits()
    ensures
{
}

/// The bit of each position flag, as the protocol fixes it.
pub proof fn lemma_position_flag_bits()
    ensures
        SyncPlayerPositionFlags::X.spec_bits() == 0x01,
        SyncPlayerPositionFlags::Y.spec_bits() == 0x02,
        SyncPlayerPositionFlags::Z.spec_bits() == 0x04,
        SyncPlayerPositionFlags::Pitch.spec_bits() == 0x08,
        SyncPlayerPositionFlags::Yaw.spec_bits() == 0x10,
{
}

/// Each ability flag is one of the four low bits, and different flags are
/// different bits.
pub proof fn lemma_ability_bits_distinct(a: PlayerAbilities, b: PlayerAbilities)
    ensures
        a.spec_bits() == 1 || a.spec_bits() == 2 || a.spec_bits() == 4 || a.spec_bits() == 8,
        a != b ==> a.spec_bits() != b.spec_bits(),
{
}

/// Each position flag is one of the five low bits, and different flags are
/// different bits.
pub proof fn lemma_position_flag_bits_distinct(a: SyncPlayerPositionFlags, b: SyncPlayerPositionFlags)
    ensures
        a.spec_bits() == 1 || a.spec_bits() == 2 || a.spec_bits() == 4 || a.spec_bits() == 8 || a.spec_bits() == 16,
        a != b ==> a.spec_bits() != b.spec_bits(),
{
}

} // verus!
