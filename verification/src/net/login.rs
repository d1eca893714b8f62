//! The player that a finished login yields.

use crate::key::Key;
use crate::protocol::login::{LoginStart, LoginSuccess};
use crate::uuid::{uuid_v3, Uuid};
use vstd::prelude::*;
use vstd::utf8::encode_utf8;

verus! {

/// The namespace of the UUIDs given to players that do not send one.
pub const NAMESPACE_OFFLINE_PLAYER: u128 = 0x299c_d421_3572_4574_9507_d32d_9eb2_4d8f;

/// What a client said about its player while logging in.
#[derive(Clone, PartialEq, Eq, Debug)]
pub struct PlayerInfo {
    pub name: String,
    pub id: Option<Uuid>,
}

/// A player that finished logging in.
#[derive(Clone, PartialEq, Eq, Debug)]
pub struct Player {
    pub name: String,
    pub id: Uuid,
}

impl PlayerInfo {
    /// What a login start says of the player: its name and its UUID.
    pub fn from_start(start: LoginStart) -> (info: PlayerInfo)
        ensures
            info.name@ == start.username@,
            info.id == Some(start.uuid),
    {
        PlayerInfo { name: start.username, id: Some(start.uuid) }
    }
}

impl Player {
    /// The player a login yields: the UUID the client sent, or else the
    /// name-based UUID of the name's UTF-8 bytes in the offline-player
    /// namespace.
    pub fn from_info(info: &PlayerInfo) -> (p: Player)
        ensures
            p.name@ == info.name@,
            match info.id {
                Some(id) => p.id == id,
                None => p.id@ == uuid_v3(NAMESPACE_OFFLINE_PLAYER, encode_utf8(info.name@)),
            },
    {
        let id = match info.id {
            Some(id) => id,
            None => Uuid::new_v3(&Uuid::from_u128(NAMESPACE_OFFLINE_PLAYER), info.name.as_str().as_bytes()),
        };
        Player { name: info.name.clone(), id }
    }
}

/// The identifier of a login handler.
#[derive(Clone, Debug)]
pub struct LoginHandler(pub Key);

/// The keys of the handlers in a list.
pub open spec fn handler_set(hs: Seq<LoginHandler>) -> Set<(Seq<char>, Seq<char>)> {
    Set::new(|k: (Seq<char>, Seq<char>)| exists|i: int| 0 <= i < hs.len() && #[trigger] hs[i].0@ == k)
}

/// Whether some handler in `hs` has the key of `h`.
fn holds(hs: &Vec<LoginHandler>, h: &LoginHandler) -> (b: bool)
    ensures
        b == handler_set(hs@).contains(h.0@),
{
    let mut i: usize = 0;
    while i < hs.len()
        invariant
            i <= hs.len(),
            forall|j: int| 0 <= j < i ==> hs@[j].0@ != h.0@,
        decreases hs.len() - i,
    {
        if hs[i].0.same_as(&h.0) {
            assert(handler_set(hs@).contains(h.0@)) by {
                assert(hs@[i as int].0@ == h.0@);
            }
            return true;
        }
        i = i + 1;
    }
    false
}

/// Adds a handler to a list unless one with its key is there.
fn add_handler(hs: &mut Vec<LoginHandler>, h: LoginHandler)
    ensures
        handler_set(final(hs)@) == handler_set(old(hs)@).insert(h.0@),
{
    if !holds(hs, &h) {
        let ghost before = hs@;
        hs.push(h);
        proof {
            assert forall|k| handler_set(hs@).contains(k) == handler_set(before).insert(h.0@).contains(k) by {
                if handler_set(before).contains(k) {
                    let i = choose|i: int| 0 <= i < before.len() && #[trigger] before[i].0@ == k;
                    assert(hs@[i].0@ == k);
                }
                if handler_set(hs@).contains(k) {
                    let i = choose|i: int| 0 <= i < hs@.len() && #[trigger] hs@[i].0@ == k;
                    if i < before.len() {
                        assert(before[i].0@ == k);
                    }
                }
                assert(hs@[before.len() as int].0@ == h.0@);
            }
            assert(handler_set(hs@) =~= handler_set(before).insert(h.0@));
        }
    } else {
        assert(handler_set(hs@) =~= handler_set(hs@).insert(h.0@));
    }
}

/// The set of all registered login handlers.
pub struct LoginHandlers(Vec<LoginHandler>);

impl View for LoginHandlers {
    type V = Set<(Seq<char>, Seq<char>)>;

    closed spec fn view(&self) -> Set<(Seq<char>, Seq<char>)> {
        handler_set(self.0@)
    }
}

impl Default for LoginHandlers {
    fn default() -> (r: LoginHandlers)
        ensures
            r@ == Set::<(Seq<char>, Seq<char>)>::empty(),
    {
        let r = LoginHandlers(Vec::new());
        assert(r@ =~= Set::<(Seq<char>, Seq<char>)>::empty());
        r
    }
}

impl LoginHandlers {
    /// Registers a handler.
    pub fn insert(&mut self, channel: LoginHandler)
        ensures
            final(self)@ == old(self)@.insert(channel.0@),
    {
        add_handler(&mut self.0, channel);
    }
}

/// The login handlers that have finished negotiating for a client. Login
/// ends once these include all registered handlers.
pub struct FinishedLoginHandlers(Vec<LoginHandler>);

impl View for FinishedLoginHandlers {
    type V = Set<(Seq<char>, Seq<char>)>;

    closed spec fn view(&self) -> Set<(Seq<char>, Seq<char>)> {
        handler_set(self.0@)
    }
}

impl Default for FinishedLoginHandlers {
    fn default() -> (r: FinishedLoginHandlers)
        ensures
            r@ == Set::<(Seq<char>, Seq<char>)>::empty(),
    {
        let r = FinishedLoginHandlers(Vec::new());
        assert(r@ =~= Set::<(Seq<char>, Seq<char>)>::empty());
        r
    }
}

impl FinishedLoginHandlers {
    /// Adds the given handler to the finished ones.
    pub fn finish(&mut self, channel: LoginHandler)
        ensures
            final(self)@ == old(self)@.insert(channel.0@),
    {
        add_handler(&mut self.0, channel);
    }

    /// Whether every registered handler has finished.
    pub fn is_finished(&self, all_channels: &LoginHandlers) -> (b: bool)
        ensures
            b == all_channels@.subset_of(self@),
    {
        let ghost all = all_channels.0@;
        let mut i: usize = 0;
        while i < all_channels.0.len()
            invariant
                all == all_channels.0@,
                i <= all.len(),
                forall|j: int| 0 <= j < i ==> #[trigger] handler_set(self.0@).contains(all[j].0@),
            decreases all.len() - i,
        {
            if !holds(&self.0, &all_channels.0[i]) {
                assert(!all_channels@.subset_of(self@)) by {
                    let k = all[i as int].0@;
                    assert(handler_set(all).contains(k));
                    assert(!self@.contains(k));
                }
                return false;
            }
            i = i + 1;
        }
        assert forall|k| all_channels@.contains(k) implies self@.contains(k) by {
            let j = choose|j: int| 0 <= j < all.len() && #[trigger] all[j].0@ == k;
            assert(handler_set(self.0@).contains(all[j].0@));
        }
        true
    }
}

/// What a client that is logging in is sent once its handlers have been
/// looked at.
pub enum LoginFinish {
    /// Some registered handler has not finished: nothing yet.
    Waiting,
    /// Every handler has finished, but there are no packets for the play
    /// state at the client's version: an internal server error.
    MissingPlayRegistry,
    /// Login succeeds: the player enters play, and is sent this packet.
    Success(Player, LoginSuccess),
}

/// Decides how a client's login ends: once every registered handler has
/// finished, the player (with the UUID the client sent, or else its offline
/// UUID) is sent a login success with no properties, provided there are
/// play packets for the client's version.
pub fn finish_login(
    info: &PlayerInfo,
    finished: &FinishedLoginHandlers,
    all_channels: &LoginHandlers,
    has_play_registry: bool,
) -> (r: LoginFinish)
    ensures
        !all_channels@.subset_of(finished@) ==> r is Waiting,
        all_channels@.subset_of(finished@) && !has_play_registry ==> r is MissingPlayRegistry,
        all_channels@.subset_of(finished@) && has_play_registry ==> (r matches LoginFinish::Success(p, s)
            && p.name@ == info.name@
            && match info.id {
                Some(id) => p.id == id,
                None => p.id@ == uuid_v3(NAMESPACE_OFFLINE_PLAYER, encode_utf8(info.name@)),
            }
            && s.uuid == p.id && s.username@ == info.name@ && s.properties@.len() == 0),
{
    if !finished.is_finished(all_channels) {
        return LoginFinish::Waiting;
    }
    if !has_play_registry {
        return LoginFinish::MissingPlayRegistry;
    }
    let player = Player::from_info(info);
    let success = LoginSuccess { uuid: player.id, username: player.name.clone(), properties: Vec::new() };
    LoginFinish::Success(player, success)
}

} // verus!
