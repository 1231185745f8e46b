//! The room service: friend rooms and public match rooms, the player-to-room
//! table, and the command handlers that build rosters before a battle
//! session starts. Every handler queues its reply on an outbox the
//! surrounding process drains.

use vstd::prelude::*;
use crate::cmd_code::{ClientCode, RoomCode};

verus! {

/// Most members a room seats.
pub const ROOM_MEMBER_MAX: usize = 4;

/// The packed record's room type for friend rooms.
pub const ROOM_TYPE_CUSTOM: u32 = 1;

/// The packed record's room type for public match rooms.
pub const ROOM_TYPE_MATCH: u32 = 2;

/// The room type in a packed record: its low half.
pub open spec fn low32(v: u64) -> u32 {
    (v & 0xFFFF_FFFF) as u32
}

/// The room id in a packed record: its high half.
pub open spec fn high32(v: u64) -> u32 {
    (v >> 32) as u32
}

/// A room type and a room id packed into one word.
pub open spec fn pack64(room_type: u32, room_id: u32) -> u64 {
    (room_type as u64) | ((room_id as u64) << 32)
}

/// Pack a room type and a room id into one word: the type in the low
/// half, the id in the high half.
pub fn combine_int_2_long(room_type: u32, room_id: u32) -> (r: u64)
    ensures
        r == pack64(room_type, room_id),
{
    (room_type as u64) | ((room_id as u64) << 32)
}

/// Split a packed word back into its room type and room id.
pub fn separate_long_2_int(v: u64) -> (r: (u32, u32))
    ensures
        r.0 == low32(v),
        r.1 == high32(v),
        v == pack64(r.0, r.1),
{
    let lo = (v & 0xFFFF_FFFF) as u32;
    let hi = (v >> 32) as u32;
    proof {
        assert(v == ((v & 0xFFFF_FFFF) as u32 as u64) | (((v >> 32) as u32 as u64) << 32)) by (bit_vector);
    }
    (lo, hi)
}

/// Packing then splitting gives the two halves back.
pub proof fn lemma_pack_round_trip(room_type: u32, room_id: u32)
    ensures
        low32(pack64(room_type, room_id)) == room_type,
        high32(pack64(room_type, room_id)) == room_id,
{
    assert(((((room_type as u64) | ((room_id as u64) << 32)) & 0xFFFF_FFFF) as u32) == room_type) by (bit_vector);
    assert(((((room_type as u64) | ((room_id as u64) << 32)) >> 32) as u32) == room_id) by (bit_vector);
}

/// A member's readiness.
#[derive(Clone, Copy, PartialEq, Eq, Structural, Debug)]
pub enum MemberState {
    NotReady,
    Ready,
}

/// A room's lifecycle state.
#[derive(Clone, Copy, PartialEq, Eq, Structural, Debug)]
pub enum RoomState {
    Await,
    Started,
}

/// A playable character a member owns: its template and its skill ids.
#[derive(Clone, PartialEq, Eq, Debug)]
pub struct Charcter {
    pub temp_id: u32,
    pub skills: Vec<u32>,
}

/// One room member.
#[derive(Clone, PartialEq, Eq, Debug)]
pub struct Member {
    pub user_id: u32,
    pub state: MemberState,
    pub team_id: u8,
    pub cters: Vec<Charcter>,
    pub choiced_cter: Charcter,
}

/// Room-level settings a room owner may change.
#[derive(Clone, Copy, PartialEq, Eq, Structural, Debug)]
pub struct RoomSetting {
    pub battle_type: u8,
}

/// One room: its owner, state, settings and roster.
#[derive(Clone, PartialEq, Eq, Debug)]
pub struct Room {
    pub id: u32,
    pub owner_id: u32,
    pub state: RoomState,
    pub setting: RoomSetting,
    pub members: Vec<Member>,
}

/// The friend rooms, created explicitly and joined by id.
#[derive(Clone, PartialEq, Eq, Debug)]
pub struct CustomRoom {
    pub rooms: Vec<Room>,
}

/// The public match rooms, joined through matchmaking.
#[derive(Clone, PartialEq, Eq, Debug)]
pub struct MatchRooms {
    pub rooms: Vec<Room>,
}

/// Why a room command was rejected.
#[derive(Clone, Copy, PartialEq, Eq, Structural, Debug)]
pub enum RoomError {
    AlreadyInRoom,
    NotInRoom,
    RoomNotExist,
    RoomFull,
    NotOwner,
    NoSuchMember,
    InvalidRoomType,
    InvalidTeam,
    InvalidBody,
    AlreadyStarted,
    AlreadyReady,
    NotReady,
    NoSuchCharacter,
    NoSuchSkill,
    UnknownCommand,
}

/// A reply queued for the surrounding process to deliver.
#[derive(Clone, Copy, PartialEq, Eq, Structural, Debug)]
pub struct OutMessage {
    pub code: u32,
    pub user_id: u32,
    pub ok: bool,
}

/// One already-decoded inbound room command.
#[derive(Clone, PartialEq, Eq, Debug)]
pub enum CmdBody {
    CreateRoom { room_type: u32, owner: Member },
    LeaveRoom,
    JoinRoom { room_id: u32, member: Member },
    SearchRoom { battle_type: u8, member: Member },
    PrepareCancel { prepare: bool },
    ChangeTeam { target_team_id: u32 },
    Kick { target_id: u32 },
    Setting { setting: RoomSetting },
    ChoiceCharacter { cter: Charcter },
    Emoji { emoji_id: u32 },
    StartGame,
}

/// One inbound packet: the command number, the authenticated player, and
/// the decoded body.
#[derive(Clone, PartialEq, Eq, Debug)]
pub struct Packet {
    pub cmd: u32,
    pub user_id: u32,
    pub body: CmdBody,
}

/// Where a player's room stands: among the friend rooms or among the
/// match rooms, by position.
#[derive(Clone, Copy, PartialEq, Eq, Structural, Debug)]
pub enum RoomAt {
    Custom(usize),
    Match(usize),
}

/// First position at or after `i` of the given player's room record.
pub open spec fn find_player_room_from(s: Seq<(u32, u64)>, user: u32, i: int) -> Option<int>
    decreases s.len() - i when 0 <= i <= s.len()
{
    if i >= s.len() {
        None
    } else if s[i].0 == user {
        Some(i)
    } else {
        find_player_room_from(s, user, i + 1)
    }
}

/// First position at or after `i` of the room with the given id.
pub open spec fn find_room_from(s: Seq<Room>, id: u32, i: int) -> Option<int>
    decreases s.len() - i when 0 <= i <= s.len()
{
    if i >= s.len() {
        None
    } else if s[i].id == id {
        Some(i)
    } else {
        find_room_from(s, id, i + 1)
    }
}

/// First position at or after `i` of the member with the given player id.
pub open spec fn find_member_from(s: Seq<Member>, user: u32, i: int) -> Option<int>
    decreases s.len() - i when 0 <= i <= s.len()
{
    if i >= s.len() {
        None
    } else if s[i].user_id == user {
        Some(i)
    } else {
        find_member_from(s, user, i + 1)
    }
}

/// First awaiting match room of the given battle type with a free seat.
pub open spec fn find_match_slot_from(s: Seq<Room>, battle_type: u8, i: int) -> Option<int>
    decreases s.len() - i when 0 <= i <= s.len()
{
    if i >= s.len() {
        None
    } else if s[i].state is Await && s[i].setting.battle_type == battle_type
        && s[i].members@.len() < ROOM_MEMBER_MAX {
        Some(i)
    } else {
        find_match_slot_from(s, battle_type, i + 1)
    }
}

/// The room service state.
#[derive(Clone, PartialEq, Eq, Debug)]
pub struct RoomMgr {
    /// Friend rooms.
    pub custom_room: CustomRoom,
    /// Public match rooms.
    pub match_rooms: MatchRooms,
    /// Player id to packed room type and room id.
    pub player_room: Vec<(u32, u64)>,
    /// The command numbers the dispatcher accepts.
    pub cmd_map: Vec<u32>,
    /// Queued replies; `None` until the transport is attached.
    pub sender: Option<Vec<OutMessage>>,
}

/// Everything but the outbox is untouched.
pub open spec fn same_but_sender(pre: RoomMgr, post: RoomMgr) -> bool {
    post == (RoomMgr { sender: post.sender, ..pre })
}

/// Exactly one reply was queued — or nothing, while no transport is
/// attached.
pub open spec fn replied(pre: RoomMgr, post: RoomMgr, code: u32, user: u32, ok: bool) -> bool {
    match pre.sender {
        None => post.sender == pre.sender,
        Some(q) => match post.sender {
            Some(q2) => q2@ == q@.push(OutMessage { code, user_id: user, ok }),
            None => false,
        },
    }
}

/// The room a location points at.
pub open spec fn room_at(rm: RoomMgr, at: RoomAt) -> Room {
    match at {
        RoomAt::Custom(ri) => rm.custom_room.rooms@[ri as int],
        RoomAt::Match(ri) => rm.match_rooms.rooms@[ri as int],
    }
}

/// Exactly the room at the location changed, in whichever list holds it.
pub open spec fn lists_updated_at(pre: RoomMgr, post: RoomMgr, at: RoomAt) -> bool {
    match at {
        RoomAt::Custom(ri) => {
            &&& post.custom_room.rooms@ == pre.custom_room.rooms@.update(ri as int, room_at(post, at))
            &&& post.match_rooms == pre.match_rooms
        },
        RoomAt::Match(ri) => {
            &&& post.match_rooms.rooms@ == pre.match_rooms.rooms@.update(ri as int, room_at(post, at))
            &&& post.custom_room == pre.custom_room
        },
    }
}

/// One member of the located room was rewritten to `m`; the room's other
/// fields, the other rooms, and the player table are untouched.
pub open spec fn member_set(pre: RoomMgr, post: RoomMgr, at: RoomAt, mi: int, m: Member) -> bool {
    &&& room_at(post, at) == (Room { members: room_at(post, at).members, ..room_at(pre, at) })
    &&& room_at(post, at).members@ == room_at(pre, at).members@.update(mi, m)
    &&& lists_updated_at(pre, post, at)
    &&& post.player_room == pre.player_room
    &&& post == (RoomMgr {
        custom_room: post.custom_room,
        match_rooms: post.match_rooms,
        sender: post.sender,
        ..pre
    })
}

impl RoomMgr {
    /// The packed room record of a player, if any.
    pub open spec fn spec_player_room(self, user: u32) -> Option<u64> {
        match find_player_room_from(self.player_room@, user, 0) {
            Some(i) => Some(self.player_room@[i].1),
            None => None,
        }
    }

    /// Where a player's room stands: its packed record read, the type
    /// picking the list, the id finding the room. Absent players, records
    /// of other types and dangling ids have no room.
    pub open spec fn spec_room_of(self, user: u32) -> Option<RoomAt> {
        match self.spec_player_room(user) {
            None => None,
            Some(v) => if low32(v) == ROOM_TYPE_CUSTOM {
                match find_room_from(self.custom_room.rooms@, high32(v), 0) {
                    Some(ri) => Some(RoomAt::Custom(ri as usize)),
                    None => None,
                }
            } else if low32(v) == ROOM_TYPE_MATCH {
                match find_room_from(self.match_rooms.rooms@, high32(v), 0) {
                    Some(ri) => Some(RoomAt::Match(ri as usize)),
                    None => None,
                }
            } else {
                None
            },
        }
    }

    /// Whether a command number is registered with the dispatcher.
    pub open spec fn spec_cmd_known(self, cmd: u32) -> bool {
        exists|k: int| 0 <= k < self.cmd_map@.len() && self.cmd_map@[k] == cmd
    }

    /// The exact command numbers this service handles.
    pub open spec fn spec_cmd_table() -> Seq<u32> {
        seq![
            RoomCode::CreateRoom.spec_into_u32(),
            RoomCode::LeaveRoom.spec_into_u32(),
            RoomCode::ChangeTeam.spec_into_u32(),
            RoomCode::Kick.spec_into_u32(),
            RoomCode::PrepareCancel.spec_into_u32(),
            RoomCode::LineOff.spec_into_u32(),
            RoomCode::JoinRoom.spec_into_u32(),
            RoomCode::SearchRoom.spec_into_u32(),
            RoomCode::RoomSetting.spec_into_u32(),
            RoomCode::ChoiceCharacter.spec_into_u32(),
            RoomCode::StartGame.spec_into_u32(),
            RoomCode::Emoji.spec_into_u32(),
        ]
    }

    /// A fresh room service: no rooms, no players, exactly the room
    /// commands registered, no transport.
    pub fn new() -> (r: RoomMgr)
        ensures
            r.player_room@.len() == 0,
            r.custom_room.rooms@.len() == 0,
            r.match_rooms.rooms@.len() == 0,
            r.sender is None,
            r.cmd_map@ == RoomMgr::spec_cmd_table(),
    {
        let mut rm = RoomMgr {
            custom_room: CustomRoom { rooms: Vec::new() },
            match_rooms: MatchRooms { rooms: Vec::new() },
            player_room: Vec::new(),
            cmd_map: Vec::new(),
            sender: None,
        };
        rm.cmd_init();
        proof {
            assert(rm.cmd_map@ =~= RoomMgr::spec_cmd_table());
        }
        rm
    }

    /// Register the command numbers this service handles: exactly the
    /// twelve room commands, in table order.
    pub fn cmd_init(&mut self)
        ensures
            final(self).cmd_map@ == old(self).cmd_map@ + RoomMgr::spec_cmd_table(),
            *final(self) == (RoomMgr { cmd_map: final(self).cmd_map, ..*old(self) }),
    {
        self.cmd_map.push(RoomCode::CreateRoom.into_u32());
        self.cmd_map.push(RoomCode::LeaveRoom.into_u32());
        self.cmd_map.push(RoomCode::ChangeTeam.into_u32());
        self.cmd_map.push(RoomCode::Kick.into_u32());
        self.cmd_map.push(RoomCode::PrepareCancel.into_u32());
        self.cmd_map.push(RoomCode::LineOff.into_u32());
        self.cmd_map.push(RoomCode::JoinRoom.into_u32());
        self.cmd_map.push(RoomCode::SearchRoom.into_u32());
        self.cmd_map.push(RoomCode::RoomSetting.into_u32());
        self.cmd_map.push(RoomCode::ChoiceCharacter.into_u32());
        self.cmd_map.push(RoomCode::StartGame.into_u32());
        self.cmd_map.push(RoomCode::Emoji.into_u32());
        proof {
            assert(self.cmd_map@ =~= old(self).cmd_map@ + RoomMgr::spec_cmd_table());
        }
    }

    /// Whether the player is already recorded in some room.
    pub fn check_player(&self, user_id: &u32) -> (r: bool)
        ensures
            r == (self.spec_player_room(*user_id) is Some),
    {
        let n = self.player_room.len();
        let mut i: usize = 0;
        while i < n
            invariant
                n == self.player_room@.len(),
                i <= n,
                find_player_room_from(self.player_room@, *user_id, 0)
                    == find_player_room_from(self.player_room@, *user_id, i as int),
            decreases n - i,
        {
            if self.player_room[i].0 == *user_id {
                return true;
            }
            i += 1;
        }
        false
    }

    /// The id of the room the player is recorded in: the high half of the
    /// packed record.
    pub fn get_room_id(&self, user_id: &u32) -> (r: Option<u32>)
        ensures
            match self.spec_player_room(*user_id) {
                Some(v) => r == Some(high32(v)),
                None => r is None,
            },
    {
        let n = self.player_room.len();
        let mut i: usize = 0;
        while i < n
            invariant
                n == self.player_room@.len(),
                i <= n,
                find_player_room_from(self.player_room@, *user_id, 0)
                    == find_player_room_from(self.player_room@, *user_id, i as int),
            decreases n - i,
        {
            if self.player_room[i].0 == *user_id {
                let (_, room_id) = separate_long_2_int(self.player_room[i].1);
                return Some(room_id);
            }
            i += 1;
        }
        None
    }

    /// Queue one reply on the outbox. Without an attached transport
    /// nothing is recorded.
    pub fn send(&mut self, msg: OutMessage)
        ensures
            replied(*old(self), *final(self), msg.code, msg.user_id, msg.ok),
            same_but_sender(*old(self), *final(self)),
    {
        match &mut self.sender {
            Some(q) => {
                q.push(msg);
            }
            None => {}
        }
    }

    /// Where the player's room stands: the packed record read, a friend
    /// room found by id for the friend type, a match room for the match
    /// type, nothing otherwise.
    pub fn get_room_mut(&mut self, user_id: &u32) -> (r: Option<RoomAt>)
        ensures
            *final(self) == *old(self),
            r == old(self).spec_room_of(*user_id),
            match r {
                Some(RoomAt::Custom(ri)) => ri < old(self).custom_room.rooms@.len(),
                Some(RoomAt::Match(ri)) => ri < old(self).match_rooms.rooms@.len(),
                None => true,
            },
    {
        let n = self.player_room.len();
        let mut i: usize = 0;
        let mut packed: Option<u64> = None;
        while i < n && packed.is_none()
            invariant
                n == self.player_room@.len(),
                i <= n,
                *self == *old(self),
                packed is None ==> find_player_room_from(self.player_room@, *user_id, 0)
                    == find_player_room_from(self.player_room@, *user_id, i as int),
                packed matches Some(v) ==> self.spec_player_room(*user_id) == Some(v),
            decreases n - i + (if packed is Some { 0int } else { 1int }),
        {
            if self.player_room[i].0 == *user_id {
                packed = Some(self.player_room[i].1);
            } else {
                i += 1;
            }
        }
        let v = match packed {
            Some(v) => v,
            None => {
                return None;
            }
        };
        let (room_type, room_id) = separate_long_2_int(v);
        if room_type == ROOM_TYPE_CUSTOM {
            let cn = self.custom_room.rooms.len();
            let mut k: usize = 0;
            while k < cn
                invariant
                    cn == self.custom_room.rooms@.len(),
                    k <= cn,
                    *self == *old(self),
                    room_id == high32(v),
                    low32(v) == ROOM_TYPE_CUSTOM,
                    self.spec_player_room(*user_id) == Some(v),
                    find_room_from(self.custom_room.rooms@, room_id, 0)
                        == find_room_from(self.custom_room.rooms@, room_id, k as int),
                decreases cn - k,
            {
                if self.custom_room.rooms[k].id == room_id {
                    return Some(RoomAt::Custom(k));
                }
                k += 1;
            }
            None
        } else if room_type == ROOM_TYPE_MATCH {
            let mn = self.match_rooms.rooms.len();
            let mut k: usize = 0;
            while k < mn
                invariant
                    mn == self.match_rooms.rooms@.len(),
                    k <= mn,
                    *self == *old(self),
                    room_id == high32(v),
                    low32(v) == ROOM_TYPE_MATCH,
                    self.spec_player_room(*user_id) == Some(v),
                    find_room_from(self.match_rooms.rooms@, room_id, 0)
                        == find_room_from(self.match_rooms.rooms@, room_id, k as int),
                decreases mn - k,
        {
                if self.match_rooms.rooms[k].id == room_id {
                    return Some(RoomAt::Match(k));
                }
                k += 1;
            }
            None
        } else {
            None
        }
    }

    /// Dispatch one packet: an unregistered command number is rejected
    /// with the session untouched; a registered one runs exactly its
    /// handler, whose typed failure is passed back to the caller.
    pub fn invok(&mut self, packet: Packet) -> (r: Result<(), RoomError>)
        ensures
            ({
                let pre = *old(self);
                let post = *final(self);
                let cmd = packet.cmd;
                if !pre.spec_cmd_known(cmd) {
                    r == Err::<(), RoomError>(RoomError::UnknownCommand) && post == pre
                } else if cmd == RoomCode::CreateRoom.spec_into_u32() {
                    create_room_rel(pre, post, packet, r)
                } else if cmd == RoomCode::LeaveRoom.spec_into_u32()
                    || cmd == RoomCode::LineOff.spec_into_u32() {
                    leave_room_rel(pre, post, packet, r)
                } else if cmd == RoomCode::JoinRoom.spec_into_u32() {
                    join_room_rel(pre, post, packet, r)
                } else if cmd == RoomCode::SearchRoom.spec_into_u32() {
                    search_room_rel(pre, post, packet, r)
                } else if cmd == RoomCode::PrepareCancel.spec_into_u32() {
                    prepare_cancel_rel(pre, post, packet, r)
                } else if cmd == RoomCode::ChangeTeam.spec_into_u32() {
                    change_team_rel(pre, post, packet, r)
                } else if cmd == RoomCode::Kick.spec_into_u32() {
                    kick_member_rel(pre, post, packet, r)
                } else if cmd == RoomCode::RoomSetting.spec_into_u32() {
                    room_setting_rel(pre, post, packet, r)
                } else if cmd == RoomCode::ChoiceCharacter.spec_into_u32() {
                    choice_character_rel(pre, post, packet, r)
                } else if cmd == RoomCode::StartGame.spec_into_u32() {
                    r is Ok && post == pre
                } else if cmd == RoomCode::Emoji.spec_into_u32() {
                    emoji_rel(pre, post, packet, r)
                } else {
                    r == Err::<(), RoomError>(RoomError::UnknownCommand) && post == pre
                }
            }),
    {
        let cmd = packet.cmd;
        let n = self.cmd_map.len();
        let mut i: usize = 0;
        let mut known = false;
        while i < n && !known
            invariant
                n == self.cmd_map@.len(),
                i <= n,
                *self == *old(self),
                !known ==> forall|x: int| 0 <= x < i ==> self.cmd_map@[x] != cmd,
                known ==> self.spec_cmd_known(cmd),
            decreases n - i + (if known { 0int } else { 1int }),
        {
            if self.cmd_map[i] == cmd {
                known = true;
            } else {
                i += 1;
            }
        }
        if !known {
            return Err(RoomError::UnknownCommand);
        }
        if cmd == RoomCode::CreateRoom.into_u32() {
            create_room(self, packet)
        } else if cmd == RoomCode::LeaveRoom.into_u32() || cmd == RoomCode::LineOff.into_u32() {
            leave_room(self, packet)
        } else if cmd == RoomCode::JoinRoom.into_u32() {
            join_room(self, packet)
        } else if cmd == RoomCode::SearchRoom.into_u32() {
            search_room(self, packet)
        } else if cmd == RoomCode::PrepareCancel.into_u32() {
            prepare_cancel(self, packet)
        } else if cmd == RoomCode::ChangeTeam.into_u32() {
            change_team(self, packet)
        } else if cmd == RoomCode::Kick.into_u32() {
            kick_member(self, packet)
        } else if cmd == RoomCode::RoomSetting.into_u32() {
            room_setting(self, packet)
        } else if cmd == RoomCode::ChoiceCharacter.into_u32() {
            choice_character(self, packet)
        } else if cmd == RoomCode::StartGame.into_u32() {
            start(self, packet)
        } else if cmd == RoomCode::Emoji.into_u32() {
            emoji(self, packet)
        } else {
            Err(RoomError::UnknownCommand)
        }
    }
}

/// The first reason room creation is rejected, if any.
pub open spec fn create_room_err(pre: RoomMgr, packet: Packet) -> Option<RoomError> {
    match packet.body {
        CmdBody::CreateRoom { room_type, owner } => {
            if room_type != ROOM_TYPE_CUSTOM {
                Some(RoomError::InvalidRoomType)
            } else if pre.spec_player_room(packet.user_id) is Some {
                Some(RoomError::AlreadyInRoom)
            } else {
                None
            }
        },
        _ => Some(RoomError::InvalidBody),
    }
}

/// What room creation did: rejected with the exact reason and nothing but
/// the reply queued, or a fresh friend room owned by the sender appended
/// and the sender's packed record written.
pub open spec fn create_room_rel(pre: RoomMgr, post: RoomMgr, packet: Packet, r: Result<(), RoomError>) -> bool {
    let user = packet.user_id;
    let code = ClientCode::Room.spec_into_u32();
    match r {
        Err(e) => {
            &&& Some(e) == create_room_err(pre, packet)
            &&& same_but_sender(pre, post)
            &&& replied(pre, post, code, user, false)
        },
        Ok(()) => {
            let rid = ((pre.custom_room.rooms@.len() % 1000000) + 1) as u32;
            &&& create_room_err(pre, packet) is None
            &&& packet.body matches CmdBody::CreateRoom { room_type, owner } && {
                let newroom = post.custom_room.rooms@.last();
                &&& post.custom_room.rooms@.len() == pre.custom_room.rooms@.len() + 1
                &&& forall|k: int| 0 <= k < pre.custom_room.rooms@.len() ==>
                    post.custom_room.rooms@[k] == pre.custom_room.rooms@[k]
                &&& newroom.id == rid
                &&& newroom.owner_id == user
                &&& newroom.state is Await
                &&& newroom.setting == (RoomSetting { battle_type: 1 })
                &&& newroom.members@ == seq![Member { user_id: user, ..owner }]
                &&& post.player_room@ == pre.player_room@.push((user, pack64(ROOM_TYPE_CUSTOM, rid)))
                &&& post.match_rooms == pre.match_rooms
                &&& post == (RoomMgr {
                    custom_room: post.custom_room,
                    player_room: post.player_room,
                    sender: post.sender,
                    ..pre
                })
                &&& replied(pre, post, code, user, true)
            }
        },
    }
}

/// Create a friend room owned by the sender; see [`create_room_rel`].
pub fn create_room(rm: &mut RoomMgr, packet: Packet) -> (r: Result<(), RoomError>)
    ensures
        create_room_rel(*old(rm), *final(rm), packet, r),
{
    let user = packet.user_id;
    let code = ClientCode::Room.into_u32();
    let (room_type, owner) = match packet.body {
        CmdBody::CreateRoom { room_type, owner } => (room_type, owner),
        _ => {
            rm.send(OutMessage { code, user_id: user, ok: false });
            return Err(RoomError::InvalidBody);
        }
    };
    if room_type != ROOM_TYPE_CUSTOM {
        rm.send(OutMessage { code, user_id: user, ok: false });
        return Err(RoomError::InvalidRoomType);
    }
    if rm.check_player(&user) {
        rm.send(OutMessage { code, user_id: user, ok: false });
        return Err(RoomError::AlreadyInRoom);
    }
    let room_id = ((rm.custom_room.rooms.len() % 1000000) as u32) + 1;
    let mut members: Vec<Member> = Vec::new();
    members.push(Member { user_id: user, ..owner });
    let room = Room {
        id: room_id,
        owner_id: user,
        state: RoomState::Await,
        setting: RoomSetting { battle_type: 1 },
        members,
    };
    rm.custom_room.rooms.push(room);
    let packed = combine_int_2_long(ROOM_TYPE_CUSTOM, room_id);
    rm.player_room.push((user, packed));
    rm.send(OutMessage { code, user_id: user, ok: true });
    Ok(())
}

/// The roster side of leaving: where the record's type and id point at a
/// room holding the member, the member leaves its roster; a dangling
/// record changes no roster.
pub open spec fn roster_left(pre: RoomMgr, post: RoomMgr, v: u64, user: u32) -> bool {
    if low32(v) == ROOM_TYPE_CUSTOM {
        match find_room_from(pre.custom_room.rooms@, high32(v), 0) {
            Some(ri) => {
                &&& post.match_rooms == pre.match_rooms
                &&& match find_member_from(pre.custom_room.rooms@[ri].members@, user, 0) {
                    Some(mi) => {
                        &&& post.custom_room.rooms@ == pre.custom_room.rooms@.update(
                            ri,
                            (Room {
                                members: post.custom_room.rooms@[ri].members,
                                ..pre.custom_room.rooms@[ri]
                            }),
                        )
                        &&& post.custom_room.rooms@[ri].members@
                            == pre.custom_room.rooms@[ri].members@.remove(mi)
                    },
                    None => post.custom_room == pre.custom_room,
                }
            },
            None => post.custom_room == pre.custom_room && post.match_rooms == pre.match_rooms,
        }
    } else if low32(v) == ROOM_TYPE_MATCH {
        match find_room_from(pre.match_rooms.rooms@, high32(v), 0) {
            Some(ri) => {
                &&& post.custom_room == pre.custom_room
                &&& match find_member_from(pre.match_rooms.rooms@[ri].members@, user, 0) {
                    Some(mi) => {
                        &&& post.match_rooms.rooms@ == pre.match_rooms.rooms@.update(
                            ri,
                            (Room {
                                members: post.match_rooms.rooms@[ri].members,
                                ..pre.match_rooms.rooms@[ri]
                            }),
                        )
                        &&& post.match_rooms.rooms@[ri].members@
                            == pre.match_rooms.rooms@[ri].members@.remove(mi)
                    },
                    None => post.match_rooms == pre.match_rooms,
                }
            },
            None => post.custom_room == pre.custom_room && post.match_rooms == pre.match_rooms,
        }
    } else {
        post.custom_room == pre.custom_room && post.match_rooms == pre.match_rooms
    }
}

/// What leaving did: a roomless sender is rejected with nothing but the
/// reply queued; otherwise the sender's record is dropped and it leaves
/// the recorded room's roster.
pub open spec fn leave_room_rel(pre: RoomMgr, post: RoomMgr, packet: Packet, r: Result<(), RoomError>) -> bool {
    let user = packet.user_id;
    let code = ClientCode::LeaveRoom.spec_into_u32();
    match r {
        Err(e) => {
            &&& e == RoomError::NotInRoom
            &&& pre.spec_player_room(user) is None
            &&& same_but_sender(pre, post)
            &&& replied(pre, post, code, user, false)
        },
        Ok(()) => match find_player_room_from(pre.player_room@, user, 0) {
            None => false,
            Some(k) => {
                &&& post.player_room@ == pre.player_room@.remove(k)
                &&& roster_left(pre, post, pre.player_room@[k].1, user)
                &&& post == (RoomMgr {
                    custom_room: post.custom_room,
                    match_rooms: post.match_rooms,
                    player_room: post.player_room,
                    sender: post.sender,
                    ..pre
                })
                &&& replied(pre, post, code, user, true)
            },
        },
    }
}

/// Take the sender out of its room: the roster and the record both; see
/// [`leave_room_rel`].
pub fn leave_room(rm: &mut RoomMgr, packet: Packet) -> (r: Result<(), RoomError>)
    ensures
        leave_room_rel(*old(rm), *final(rm), packet, r),
{
    let user = packet.user_id;
    let code = ClientCode::LeaveRoom.into_u32();
    let n = rm.player_room.len();
    let mut i: usize = 0;
    let mut at: Option<usize> = None;
    while i < n && at.is_none()
        invariant
            n == rm.player_room@.len(),
            i <= n,
            *rm == *old(rm),
            at is None ==> find_player_room_from(rm.player_room@, user, 0)
                == find_player_room_from(rm.player_room@, user, i as int),
            at matches Some(k) ==> k < n
                && find_player_room_from(rm.player_room@, user, 0) == Some(k as int),
        decreases n - i + (if at is Some { 0int } else { 1int }),
    {
        if rm.player_room[i].0 == user {
            at = Some(i);
        } else {
            i += 1;
        }
    }
    let at = match at {
        Some(a) => a,
        None => {
            rm.send(OutMessage { code, user_id: user, ok: false });
            return Err(RoomError::NotInRoom);
        }
    };
    let v = rm.player_room[at].1;
    let (room_type, room_id) = separate_long_2_int(v);
    let _ = rm.player_room.remove(at);
    if room_type == ROOM_TYPE_CUSTOM {
        drop_member(&mut rm.custom_room.rooms, room_id, user);
    } else if room_type == ROOM_TYPE_MATCH {
        drop_member(&mut rm.match_rooms.rooms, room_id, user);
    }
    rm.send(OutMessage { code, user_id: user, ok: true });
    Ok(())
}

/// Remove a member from the room with the given id, where both exist.
fn drop_member(rooms: &mut Vec<Room>, room_id: u32, user: u32)
    ensures
        match find_room_from(old(rooms)@, room_id, 0) {
            Some(ri) => match find_member_from(old(rooms)@[ri].members@, user, 0) {
                Some(mi) => {
                    &&& final(rooms)@ == old(rooms)@.update(
                        ri,
                        (Room { members: final(rooms)@[ri].members, ..old(rooms)@[ri] }),
                    )
                    &&& final(rooms)@[ri].members@ == old(rooms)@[ri].members@.remove(mi)
                },
                None => *final(rooms) == *old(rooms),
            },
            None => *final(rooms) == *old(rooms),
        },
{
    let n = rooms.len();
    let mut i: usize = 0;
    while i < n
        invariant
            n == rooms@.len(),
            i <= n,
            *rooms == *old(rooms),
            find_room_from(rooms@, room_id, 0) == find_room_from(rooms@, room_id, i as int),
        decreases n - i,
    {
        if rooms[i].id == room_id {
            let mcount = rooms[i].members.len();
            let mut m: usize = 0;
            while m < mcount
                invariant
                    i < rooms@.len(),
                    mcount == rooms@[i as int].members@.len(),
                    m <= mcount,
                    *rooms == *old(rooms),
                    find_room_from(rooms@, room_id, 0) == Some(i as int),
                    find_member_from(rooms@[i as int].members@, user, 0)
                        == find_member_from(rooms@[i as int].members@, user, m as int),
                decreases mcount - m,
            {
                if rooms[i].members[m].user_id == user {
                    let ro = &mut rooms[i];
                    let _ = ro.members.remove(m);
                    return;
                }
                m += 1;
            }
            return;
        }
        i += 1;
    }
}

/// Retargeting is not part of this service's room flow; the command is
/// accepted and changes nothing.
pub fn change_target(rm: &mut RoomMgr, packet: Packet) -> (r: Result<(), RoomError>)
    ensures
        *final(rm) == *old(rm),
        r is Ok,
{
    Ok(())
}

/// The first reason matchmaking is rejected, if any.
pub open spec fn search_room_err(pre: RoomMgr, packet: Packet) -> Option<RoomError> {
    match packet.body {
        CmdBody::SearchRoom { battle_type, member } => {
            if battle_type < 1 || battle_type > 4 {
                Some(RoomError::InvalidRoomType)
            } else if pre.spec_player_room(packet.user_id) is Some {
                Some(RoomError::AlreadyInRoom)
            } else {
                None
            }
        },
        _ => Some(RoomError::InvalidBody),
    }
}

/// What matchmaking did: rejected with the exact reason and nothing but
/// the reply queued, or the sender joined the first awaiting match room
/// of its battle type with a free seat — a fresh one where none exists —
/// and its packed record was written.
pub open spec fn search_room_rel(pre: RoomMgr, post: RoomMgr, packet: Packet, r: Result<(), RoomError>) -> bool {
    let user = packet.user_id;
    let code = ClientCode::Room.spec_into_u32();
    match r {
        Err(e) => {
            &&& Some(e) == search_room_err(pre, packet)
            &&& same_but_sender(pre, post)
            &&& replied(pre, post, code, user, false)
        },
        Ok(()) => {
            &&& search_room_err(pre, packet) is None
            &&& packet.body matches CmdBody::SearchRoom { battle_type, member } && {
                let fixed = Member { user_id: user, ..member };
                &&& match find_match_slot_from(pre.match_rooms.rooms@, battle_type, 0) {
                    Some(k) => {
                        let rid = pre.match_rooms.rooms@[k].id;
                        &&& post.match_rooms.rooms@ == pre.match_rooms.rooms@.update(
                            k,
                            (Room { members: post.match_rooms.rooms@[k].members, ..pre.match_rooms.rooms@[k] }),
                        )
                        &&& post.match_rooms.rooms@[k].members@
                            == pre.match_rooms.rooms@[k].members@.push(fixed)
                        &&& post.player_room@ == pre.player_room@.push((user, pack64(ROOM_TYPE_MATCH, rid)))
                    },
                    None => {
                        let rid = ((pre.match_rooms.rooms@.len() % 1000000) + 10001) as u32;
                        let newroom = post.match_rooms.rooms@.last();
                        &&& post.match_rooms.rooms@.len() == pre.match_rooms.rooms@.len() + 1
                        &&& forall|k: int| 0 <= k < pre.match_rooms.rooms@.len() ==>
                            post.match_rooms.rooms@[k] == pre.match_rooms.rooms@[k]
                        &&& newroom.id == rid
                        &&& newroom.owner_id == user
                        &&& newroom.state is Await
                        &&& newroom.setting == (RoomSetting { battle_type })
                        &&& newroom.members@ == seq![fixed]
                        &&& post.player_room@ == pre.player_room@.push((user, pack64(ROOM_TYPE_MATCH, rid)))
                    },
                }
                &&& post.custom_room == pre.custom_room
                &&& post == (RoomMgr {
                    match_rooms: post.match_rooms,
                    player_room: post.player_room,
                    sender: post.sender,
                    ..pre
                })
                &&& replied(pre, post, code, user, true)
            }
        },
    }
}

/// Matchmaking: join or open a public match room; see [`search_room_rel`].
pub fn search_room(rm: &mut RoomMgr, packet: Packet) -> (r: Result<(), RoomError>)
    ensures
        search_room_rel(*old(rm), *final(rm), packet, r),
{
    let user = packet.user_id;
    let code = ClientCode::Room.into_u32();
    let (battle_type, member) = match packet.body {
        CmdBody::SearchRoom { battle_type, member } => (battle_type, member),
        _ => {
            rm.send(OutMessage { code, user_id: user, ok: false });
            return Err(RoomError::InvalidBody);
        }
    };
    if battle_type < 1 || battle_type > 4 {
        rm.send(OutMessage { code, user_id: user, ok: false });
        return Err(RoomError::InvalidRoomType);
    }
    if rm.check_player(&user) {
        rm.send(OutMessage { code, user_id: user, ok: false });
        return Err(RoomError::AlreadyInRoom);
    }
    let fixed = Member { user_id: user, ..member };
    let n = rm.match_rooms.rooms.len();
    let mut i: usize = 0;
    let mut slot: Option<usize> = None;
    while i < n && slot.is_none()
        invariant
            n == rm.match_rooms.rooms@.len(),
            i <= n,
            *rm == *old(rm),
            slot is None ==> find_match_slot_from(rm.match_rooms.rooms@, battle_type, 0)
                == find_match_slot_from(rm.match_rooms.rooms@, battle_type, i as int),
            slot matches Some(k) ==> k < n
                && find_match_slot_from(rm.match_rooms.rooms@, battle_type, 0) == Some(k as int),
        decreases n - i + (if slot is Some { 0int } else { 1int }),
    {
        let waiting = match rm.match_rooms.rooms[i].state {
            RoomState::Await => true,
            RoomState::Started => false,
        };
        if waiting && rm.match_rooms.rooms[i].setting.battle_type == battle_type
            && rm.match_rooms.rooms[i].members.len() < ROOM_MEMBER_MAX {
            slot = Some(i);
        } else {
            i += 1;
        }
    }
    let room_id: u32;
    match slot {
        Some(k) => {
            room_id = rm.match_rooms.rooms[k].id;
            let ro = &mut rm.match_rooms.rooms[k];
            ro.members.push(fixed);
        }
        None => {
            room_id = ((rm.match_rooms.rooms.len() % 1000000) as u32) + 10001;
            let mut members: Vec<Member> = Vec::new();
            members.push(fixed);
            let room = Room {
                id: room_id,
                owner_id: user,
                state: RoomState::Await,
                setting: RoomSetting { battle_type },
                members,
            };
            rm.match_rooms.rooms.push(room);
        }
    }
    let packed = combine_int_2_long(ROOM_TYPE_MATCH, room_id);
    rm.player_room.push((user, packed));
    rm.send(OutMessage { code, user_id: user, ok: true });
    Ok(())
}

/// The first reason joining is rejected, if any.
pub open spec fn join_room_err(pre: RoomMgr, packet: Packet) -> Option<RoomError> {
    match packet.body {
        CmdBody::JoinRoom { room_id, member } => {
            if pre.spec_player_room(packet.user_id) is Some {
                Some(RoomError::AlreadyInRoom)
            } else {
                match find_room_from(pre.custom_room.rooms@, room_id, 0) {
                    None => Some(RoomError::RoomNotExist),
                    Some(k) => if pre.custom_room.rooms@[k].members@.len() >= ROOM_MEMBER_MAX {
                        Some(RoomError::RoomFull)
                    } else if pre.custom_room.rooms@[k].state is Started {
                        Some(RoomError::AlreadyStarted)
                    } else {
                        None
                    },
                }
            }
        },
        _ => Some(RoomError::InvalidBody),
    }
}

/// What joining did: rejected with the exact reason and nothing but the
/// reply queued, or the sender entered the friend room's roster and its
/// packed record was written.
pub open spec fn join_room_rel(pre: RoomMgr, post: RoomMgr, packet: Packet, r: Result<(), RoomError>) -> bool {
    let user = packet.user_id;
    let code = ClientCode::Room.spec_into_u32();
    match r {
        Err(e) => {
            &&& Some(e) == join_room_err(pre, packet)
            &&& same_but_sender(pre, post)
            &&& replied(pre, post, code, user, false)
        },
        Ok(()) => {
            &&& join_room_err(pre, packet) is None
            &&& packet.body matches CmdBody::JoinRoom { room_id, member }
                && match find_room_from(pre.custom_room.rooms@, room_id, 0) {
                    None => false,
                    Some(k) => {
                        &&& post.custom_room.rooms@ == pre.custom_room.rooms@.update(
                            k,
                            (Room { members: post.custom_room.rooms@[k].members, ..pre.custom_room.rooms@[k] }),
                        )
                        &&& post.custom_room.rooms@[k].members@
                            == pre.custom_room.rooms@[k].members@.push(Member { user_id: user, ..member })
                        &&& post.player_room@ == pre.player_room@.push((user, pack64(ROOM_TYPE_CUSTOM, room_id)))
                        &&& post.match_rooms == pre.match_rooms
                        &&& post == (RoomMgr {
                            custom_room: post.custom_room,
                            player_room: post.player_room,
                            sender: post.sender,
                            ..pre
                        })
                        &&& replied(pre, post, code, user, true)
                    },
                }
        },
    }
}

/// Join a friend room by id; see [`join_room_rel`].
pub fn join_room(rm: &mut RoomMgr, packet: Packet) -> (r: Result<(), RoomError>)
    ensures
        join_room_rel(*old(rm), *final(rm), packet, r),
{
    let user = packet.user_id;
    let code = ClientCode::Room.into_u32();
    let (room_id, member) = match packet.body {
        CmdBody::JoinRoom { room_id, member } => (room_id, member),
        _ => {
            rm.send(OutMessage { code, user_id: user, ok: false });
            return Err(RoomError::InvalidBody);
        }
    };
    if rm.check_player(&user) {
        rm.send(OutMessage { code, user_id: user, ok: false });
        return Err(RoomError::AlreadyInRoom);
    }
    let n = rm.custom_room.rooms.len();
    let mut i: usize = 0;
    let mut slot: Option<usize> = None;
    while i < n && slot.is_none()
        invariant
            n == rm.custom_room.rooms@.len(),
            i <= n,
            *rm == *old(rm),
            slot is None ==> find_room_from(rm.custom_room.rooms@, room_id, 0)
                == find_room_from(rm.custom_room.rooms@, room_id, i as int),
            slot matches Some(k) ==> k < n
                && find_room_from(rm.custom_room.rooms@, room_id, 0) == Some(k as int),
        decreases n - i + (if slot is Some { 0int } else { 1int }),
    {
        if rm.custom_room.rooms[i].id == room_id {
            slot = Some(i);
        } else {
            i += 1;
        }
    }
    let k = match slot {
        Some(k) => k,
        None => {
            rm.send(OutMessage { code, user_id: user, ok: false });
            return Err(RoomError::RoomNotExist);
        }
    };
    if rm.custom_room.rooms[k].members.len() >= ROOM_MEMBER_MAX {
        rm.send(OutMessage { code, user_id: user, ok: false });
        return Err(RoomError::RoomFull);
    }
    let started = match rm.custom_room.rooms[k].state {
        RoomState::Started => true,
        RoomState::Await => false,
    };
    if started {
        rm.send(OutMessage { code, user_id: user, ok: false });
        return Err(RoomError::AlreadyStarted);
    }
    {
        let ro = &mut rm.custom_room.rooms[k];
        ro.members.push(Member { user_id: user, ..member });
    }
    let packed = combine_int_2_long(ROOM_TYPE_CUSTOM, room_id);
    rm.player_room.push((user, packed));
    rm.send(OutMessage { code, user_id: user, ok: true });
    Ok(())
}

/// The first reason a readiness change is rejected, if any.
pub open spec fn prepare_cancel_err(pre: RoomMgr, packet: Packet) -> Option<RoomError> {
    match packet.body {
        CmdBody::PrepareCancel { prepare } => match pre.spec_room_of(packet.user_id) {
            None => Some(RoomError::NotInRoom),
            Some(at) => match find_member_from(room_at(pre, at).members@, packet.user_id, 0) {
                None => Some(RoomError::NoSuchMember),
                Some(_) => None,
            },
        },
        _ => Some(RoomError::InvalidBody),
    }
}

/// What a readiness change did: rejected with the exact reason and
/// nothing but the reply queued, or the sender's readiness rewritten in
/// its own room.
pub open spec fn prepare_cancel_rel(pre: RoomMgr, post: RoomMgr, packet: Packet, r: Result<(), RoomError>) -> bool {
    let user = packet.user_id;
    let code = ClientCode::PrepareCancel.spec_into_u32();
    match r {
        Err(e) => {
            &&& Some(e) == prepare_cancel_err(pre, packet)
            &&& same_but_sender(pre, post)
            &&& replied(pre, post, code, user, false)
        },
        Ok(()) => {
            &&& prepare_cancel_err(pre, packet) is None
            &&& packet.body matches CmdBody::PrepareCancel { prepare }
                && match pre.spec_room_of(user) {
                    None => false,
                    Some(at) => match find_member_from(room_at(pre, at).members@, user, 0) {
                        None => false,
                        Some(mi) => {
                            let st = if prepare { MemberState::Ready } else { MemberState::NotReady };
                            &&& member_set(pre, post, at, mi, (Member { state: st, ..room_at(pre, at).members@[mi] }))
                            &&& replied(pre, post, code, user, true)
                        },
                    },
                }
        },
    }
}

/// Mark the sender ready, or no longer ready, in its own room; see
/// [`prepare_cancel_rel`].
pub fn prepare_cancel(rm: &mut RoomMgr, packet: Packet) -> (r: Result<(), RoomError>)
    ensures
        prepare_cancel_rel(*old(rm), *final(rm), packet, r),
{
    let user = packet.user_id;
    let code = ClientCode::PrepareCancel.into_u32();
    let prepare = match packet.body {
        CmdBody::PrepareCancel { prepare } => prepare,
        _ => {
            rm.send(OutMessage { code, user_id: user, ok: false });
            return Err(RoomError::InvalidBody);
        }
    };
    let at = match rm.get_room_mut(&user) {
        Some(at) => at,
        None => {
            rm.send(OutMessage { code, user_id: user, ok: false });
            return Err(RoomError::NotInRoom);
        }
    };
    let st = if prepare {
        MemberState::Ready
    } else {
        MemberState::NotReady
    };
    let done = match at {
        RoomAt::Custom(ri) => set_member_state(&mut rm.custom_room.rooms, ri, user, st),
        RoomAt::Match(ri) => set_member_state(&mut rm.match_rooms.rooms, ri, user, st),
    };
    if done {
        rm.send(OutMessage { code, user_id: user, ok: true });
        Ok(())
    } else {
        rm.send(OutMessage { code, user_id: user, ok: false });
        Err(RoomError::NoSuchMember)
    }
}

/// Rewrite the sender's readiness in the room at `ri`; `false` where the
/// sender is not on that roster.
fn set_member_state(rooms: &mut Vec<Room>, ri: usize, user: u32, st: MemberState) -> (done: bool)
    requires
        ri < old(rooms)@.len(),
    ensures
        match find_member_from(old(rooms)@[ri as int].members@, user, 0) {
            None => !done && *final(rooms) == *old(rooms),
            Some(mi) => {
                &&& done
                &&& final(rooms)@ == old(rooms)@.update(
                    ri as int,
                    (Room { members: final(rooms)@[ri as int].members, ..old(rooms)@[ri as int] }),
                )
                &&& final(rooms)@[ri as int].members@ == old(rooms)@[ri as int].members@.update(
                    mi,
                    (Member { state: st, ..old(rooms)@[ri as int].members@[mi] }),
                )
            },
        },
{
    let mcount = rooms[ri].members.len();
    let mut m: usize = 0;
    while m < mcount
        invariant
            ri < rooms@.len(),
            mcount == rooms@[ri as int].members@.len(),
            m <= mcount,
            *rooms == *old(rooms),
            find_member_from(rooms@[ri as int].members@, user, 0)
                == find_member_from(rooms@[ri as int].members@, user, m as int),
        decreases mcount - m,
    {
        if rooms[ri].members[m].user_id == user {
            let ro = &mut rooms[ri];
            let me = &mut ro.members[m];
            me.state = st;
            return true;
        }
        m += 1;
    }
    false
}

/// The first reason a team change is rejected, if any.
pub open spec fn change_team_err(pre: RoomMgr, packet: Packet) -> Option<RoomError> {
    match packet.body {
        CmdBody::ChangeTeam { target_team_id } => {
            if target_team_id < 1 || target_team_id > 4 {
                Some(RoomError::InvalidTeam)
            } else {
                match pre.spec_room_of(packet.user_id) {
                    None => Some(RoomError::NotInRoom),
                    Some(at) => match find_member_from(room_at(pre, at).members@, packet.user_id, 0) {
                        None => Some(RoomError::NoSuchMember),
                        Some(_) => None,
                    },
                }
            }
        },
        _ => Some(RoomError::InvalidBody),
    }
}

/// What a team change did: rejected with the exact reason and nothing but
/// the reply queued, or the sender's team rewritten in its own room.
pub open spec fn change_team_rel(pre: RoomMgr, post: RoomMgr, packet: Packet, r: Result<(), RoomError>) -> bool {
    let user = packet.user_id;
    let code = ClientCode::ChangeTeam.spec_into_u32();
    match r {
        Err(e) => {
            &&& Some(e) == change_team_err(pre, packet)
            &&& same_but_sender(pre, post)
            &&& replied(pre, post, code, user, false)
        },
        Ok(()) => {
            &&& change_team_err(pre, packet) is None
            &&& packet.body matches CmdBody::ChangeTeam { target_team_id }
                && match pre.spec_room_of(user) {
                    None => false,
                    Some(at) => match find_member_from(room_at(pre, at).members@, user, 0) {
                        None => false,
                        Some(mi) => {
                            &&& member_set(pre, post, at, mi, (Member {
                                team_id: target_team_id as u8,
                                ..room_at(pre, at).members@[mi]
                            }))
                            &&& replied(pre, post, code, user, true)
                        },
                    },
                }
        },
    }
}

/// Move the sender to another team of its own room; see
/// [`change_team_rel`].
pub fn change_team(rm: &mut RoomMgr, packet: Packet) -> (r: Result<(), RoomError>)
    ensures
        change_team_rel(*old(rm), *final(rm), packet, r),
{
    let user = packet.user_id;
    let code = ClientCode::ChangeTeam.into_u32();
    let team_id = match packet.body {
        CmdBody::ChangeTeam { target_team_id } => target_team_id,
        _ => {
            rm.send(OutMessage { code, user_id: user, ok: false });
            return Err(RoomError::InvalidBody);
        }
    };
    if team_id < 1 || team_id > 4 {
        rm.send(OutMessage { code, user_id: user, ok: false });
        return Err(RoomError::InvalidTeam);
    }
    let at = match rm.get_room_mut(&user) {
        Some(at) => at,
        None => {
            rm.send(OutMessage { code, user_id: user, ok: false });
            return Err(RoomError::NotInRoom);
        }
    };
    let done = match at {
        RoomAt::Custom(ri) => set_member_team(&mut rm.custom_room.rooms, ri, user, team_id as u8),
        RoomAt::Match(ri) => set_member_team(&mut rm.match_rooms.rooms, ri, user, team_id as u8),
    };
    if done {
        rm.send(OutMessage { code, user_id: user, ok: true });
        Ok(())
    } else {
        rm.send(OutMessage { code, user_id: user, ok: false });
        Err(RoomError::NoSuchMember)
    }
}

/// Rewrite the sender's team in the room at `ri`; `false` where the
/// sender is not on that roster.
fn set_member_team(rooms: &mut Vec<Room>, ri: usize, user: u32, team: u8) -> (done: bool)
    requires
        ri < old(rooms)@.len(),
    ensures
        match find_member_from(old(rooms)@[ri as int].members@, user, 0) {
            None => !done && *final(rooms) == *old(rooms),
            Some(mi) => {
                &&& done
                &&& final(rooms)@ == old(rooms)@.update(
                    ri as int,
                    (Room { members: final(rooms)@[ri as int].members, ..old(rooms)@[ri as int] }),
                )
                &&& final(rooms)@[ri as int].members@ == old(rooms)@[ri as int].members@.update(
                    mi,
                    (Member { team_id: team, ..old(rooms)@[ri as int].members@[mi] }),
                )
            },
        },
{
    let mcount = rooms[ri].members.len();
    let mut m: usize = 0;
    while m < mcount
        invariant
            ri < rooms@.len(),
            mcount == rooms@[ri as int].members@.len(),
            m <= mcount,
            *rooms == *old(rooms),
            find_member_from(rooms@[ri as int].members@, user, 0)
                == find_member_from(rooms@[ri as int].members@, user, m as int),
        decreases mcount - m,
    {
        if rooms[ri].members[m].user_id == user {
            let ro = &mut rooms[ri];
            let me = &mut ro.members[m];
            me.team_id = team;
            return true;
        }
        m += 1;
    }
    false
}

/// The first reason a kick is rejected, if any.
pub open spec fn kick_member_err(pre: RoomMgr, packet: Packet) -> Option<RoomError> {
    match packet.body {
        CmdBody::Kick { target_id } => match pre.spec_room_of(packet.user_id) {
            None => Some(RoomError::NotInRoom),
            Some(at) => if room_at(pre, at).owner_id != packet.user_id {
                Some(RoomError::NotOwner)
            } else if target_id == packet.user_id {
                Some(RoomError::NoSuchMember)
            } else {
                match find_member_from(room_at(pre, at).members@, target_id, 0) {
                    None => Some(RoomError::NoSuchMember),
                    Some(_) => None,
                }
            },
        },
        _ => Some(RoomError::InvalidBody),
    }
}

/// What a kick did: rejected with the exact reason and nothing but the
/// reply queued, or the target left the roster and its packed record was
/// dropped.
pub open spec fn kick_member_rel(pre: RoomMgr, post: RoomMgr, packet: Packet, r: Result<(), RoomError>) -> bool {
    let user = packet.user_id;
    let code = ClientCode::KickMember.spec_into_u32();
    match r {
        Err(e) => {
            &&& Some(e) == kick_member_err(pre, packet)
            &&& same_but_sender(pre, post)
            &&& replied(pre, post, code, user, false)
        },
        Ok(()) => {
            &&& kick_member_err(pre, packet) is None
            &&& packet.body matches CmdBody::Kick { target_id }
                && match pre.spec_room_of(user) {
                    None => false,
                    Some(at) => match find_member_from(room_at(pre, at).members@, target_id, 0) {
                        None => false,
                        Some(mi) => {
                            &&& room_at(post, at) == (Room {
                                members: room_at(post, at).members,
                                ..room_at(pre, at)
                            })
                            &&& room_at(post, at).members@ == room_at(pre, at).members@.remove(mi)
                            &&& lists_updated_at(pre, post, at)
                            &&& post.player_room@ == match find_player_room_from(pre.player_room@, target_id, 0) {
                                Some(k) => pre.player_room@.remove(k),
                                None => pre.player_room@,
                            }
                            &&& post == (RoomMgr {
                                custom_room: post.custom_room,
                                match_rooms: post.match_rooms,
                                player_room: post.player_room,
                                sender: post.sender,
                                ..pre
                            })
                            &&& replied(pre, post, code, user, true)
                        },
                    },
                }
        },
    }
}

/// Kick a member out of the sender's room: only the owner may, and only
/// another present member can be kicked; see [`kick_member_rel`].
pub fn kick_member(rm: &mut RoomMgr, packet: Packet) -> (r: Result<(), RoomError>)
    ensures
        kick_member_rel(*old(rm), *final(rm), packet, r),
{
    let user = packet.user_id;
    let code = ClientCode::KickMember.into_u32();
    let target_id = match packet.body {
        CmdBody::Kick { target_id } => target_id,
        _ => {
            rm.send(OutMessage { code, user_id: user, ok: false });
            return Err(RoomError::InvalidBody);
        }
    };
    let at = match rm.get_room_mut(&user) {
        Some(at) => at,
        None => {
            rm.send(OutMessage { code, user_id: user, ok: false });
            return Err(RoomError::NotInRoom);
        }
    };
    let owner_id = match at {
        RoomAt::Custom(ri) => rm.custom_room.rooms[ri].owner_id,
        RoomAt::Match(ri) => rm.match_rooms.rooms[ri].owner_id,
    };
    if owner_id != user {
        rm.send(OutMessage { code, user_id: user, ok: false });
        return Err(RoomError::NotOwner);
    }
    if target_id == user {
        rm.send(OutMessage { code, user_id: user, ok: false });
        return Err(RoomError::NoSuchMember);
    }
    let removed = match at {
        RoomAt::Custom(ri) => remove_member(&mut rm.custom_room.rooms, ri, target_id),
        RoomAt::Match(ri) => remove_member(&mut rm.match_rooms.rooms, ri, target_id),
    };
    if !removed {
        rm.send(OutMessage { code, user_id: user, ok: false });
        return Err(RoomError::NoSuchMember);
    }
    let ghost mid = *rm;
    let n = rm.player_room.len();
    let mut k: usize = 0;
    let mut dropped = false;
    while k < n && !dropped
        invariant
            k <= n,
            rm.custom_room == mid.custom_room,
            rm.match_rooms == mid.match_rooms,
            rm.cmd_map == mid.cmd_map,
            rm.sender == mid.sender,
            !dropped ==> n == rm.player_room@.len(),
            !dropped ==> find_player_room_from(rm.player_room@, target_id, 0)
                == find_player_room_from(rm.player_room@, target_id, k as int),
            !dropped ==> rm.player_room@ == old(rm).player_room@,
            dropped ==> (find_player_room_from(old(rm).player_room@, target_id, 0) matches Some(kk)
                && rm.player_room@ == old(rm).player_room@.remove(kk)),
        decreases n - k + (if dropped { 0int } else { 1int }),
    {
        if rm.player_room[k].0 == target_id {
            let _ = rm.player_room.remove(k);
            dropped = true;
        } else {
            k += 1;
        }
    }
    rm.send(OutMessage { code, user_id: user, ok: true });
    Ok(())
}

/// Take the member with the given id off the roster of the room at `ri`;
/// `false` where it is not there.
fn remove_member(rooms: &mut Vec<Room>, ri: usize, user: u32) -> (done: bool)
    requires
        ri < old(rooms)@.len(),
    ensures
        match find_member_from(old(rooms)@[ri as int].members@, user, 0) {
            None => !done && *final(rooms) == *old(rooms),
            Some(mi) => {
                &&& done
                &&& final(rooms)@ == old(rooms)@.update(
                    ri as int,
                    (Room { members: final(rooms)@[ri as int].members, ..old(rooms)@[ri as int] }),
                )
                &&& final(rooms)@[ri as int].members@ == old(rooms)@[ri as int].members@.remove(mi)
            },
        },
{
    let mcount = rooms[ri].members.len();
    let mut m: usize = 0;
    while m < mcount
        invariant
            ri < rooms@.len(),
            mcount == rooms@[ri as int].members@.len(),
            m <= mcount,
            *rooms == *old(rooms),
            find_member_from(rooms@[ri as int].members@, user, 0)
                == find_member_from(rooms@[ri as int].members@, user, m as int),
        decreases mcount - m,
    {
        if rooms[ri].members[m].user_id == user {
            let ro = &mut rooms[ri];
            let _ = ro.members.remove(m);
            return true;
        }
        m += 1;
    }
    false
}

/// The first reason a settings change is rejected, if any.
pub open spec fn room_setting_err(pre: RoomMgr, packet: Packet) -> Option<RoomError> {
    match packet.body {
        CmdBody::Setting { setting } => match pre.spec_room_of(packet.user_id) {
            None => Some(RoomError::NotInRoom),
            Some(at) => if room_at(pre, at).owner_id != packet.user_id {
                Some(RoomError::NotOwner)
            } else {
                None
            },
        },
        _ => Some(RoomError::InvalidBody),
    }
}

/// What a settings change did: rejected with the exact reason and nothing
/// but the reply queued, or the room's settings replaced by the owner.
pub open spec fn room_setting_rel(pre: RoomMgr, post: RoomMgr, packet: Packet, r: Result<(), RoomError>) -> bool {
    let user = packet.user_id;
    let code = ClientCode::RoomSetting.spec_into_u32();
    match r {
        Err(e) => {
            &&& Some(e) == room_setting_err(pre, packet)
            &&& same_but_sender(pre, post)
            &&& replied(pre, post, code, user, false)
        },
        Ok(()) => {
            &&& room_setting_err(pre, packet) is None
            &&& packet.body matches CmdBody::Setting { setting }
                && match pre.spec_room_of(user) {
                    None => false,
                    Some(at) => {
                        &&& room_at(post, at) == (Room { setting, ..room_at(pre, at) })
                        &&& lists_updated_at(pre, post, at)
                        &&& post.player_room == pre.player_room
                        &&& post == (RoomMgr {
                            custom_room: post.custom_room,
                            match_rooms: post.match_rooms,
                            sender: post.sender,
                            ..pre
                        })
                        &&& replied(pre, post, code, user, true)
                    },
                }
        },
    }
}

/// Replace the room's settings: only the owner may; see
/// [`room_setting_rel`].
pub fn room_setting(rm: &mut RoomMgr, packet: Packet) -> (r: Result<(), RoomError>)
    ensures
        room_setting_rel(*old(rm), *final(rm), packet, r),
{
    let user = packet.user_id;
    let code = ClientCode::RoomSetting.into_u32();
    let setting = match packet.body {
        CmdBody::Setting { setting } => setting,
        _ => {
            rm.send(OutMessage { code, user_id: user, ok: false });
            return Err(RoomError::InvalidBody);
        }
    };
    let at = match rm.get_room_mut(&user) {
        Some(at) => at,
        None => {
            rm.send(OutMessage { code, user_id: user, ok: false });
            return Err(RoomError::NotInRoom);
        }
    };
    let owner_id = match at {
        RoomAt::Custom(ri) => rm.custom_room.rooms[ri].owner_id,
        RoomAt::Match(ri) => rm.match_rooms.rooms[ri].owner_id,
    };
    if owner_id != user {
        rm.send(OutMessage { code, user_id: user, ok: false });
        return Err(RoomError::NotOwner);
    }
    match at {
        RoomAt::Custom(ri) => {
            let ro = &mut rm.custom_room.rooms[ri];
            ro.setting = setting;
        }
        RoomAt::Match(ri) => {
            let ro = &mut rm.match_rooms.rooms[ri];
            ro.setting = setting;
        }
    }
    rm.send(OutMessage { code, user_id: user, ok: true });
    Ok(())
}

/// Starting is driven by the room's own readiness flow; the command is
/// accepted and changes nothing here.
pub fn start(rm: &mut RoomMgr, packet: Packet) -> (r: Result<(), RoomError>)
    ensures
        *final(rm) == *old(rm),
        r is Ok,
{
    Ok(())
}

/// Whether every wanted skill id is among the owned ones.
pub open spec fn skills_owned(owned: Seq<u32>, want: Seq<u32>) -> bool {
    forall|k: int| 0 <= k < want.len() ==> owned.contains(#[trigger] want[k])
}

/// First owned character with the given template id at or after `i`.
pub open spec fn find_cter_temp_from(s: Seq<Charcter>, temp_id: u32, i: int) -> Option<int>
    decreases s.len() - i when 0 <= i <= s.len()
{
    if i >= s.len() {
        None
    } else if s[i].temp_id == temp_id {
        Some(i)
    } else {
        find_cter_temp_from(s, temp_id, i + 1)
    }
}

/// The first reason a character choice is rejected, if any: the sender
/// must be an unready member of an unstarted room and must own the chosen
/// template and every chosen skill.
pub open spec fn choice_character_err(pre: RoomMgr, packet: Packet) -> Option<RoomError> {
    match packet.body {
        CmdBody::ChoiceCharacter { cter } => match pre.spec_room_of(packet.user_id) {
            None => Some(RoomError::NotInRoom),
            Some(at) => {
                let room = room_at(pre, at);
                if room.state is Started {
                    Some(RoomError::AlreadyStarted)
                } else {
                    match find_member_from(room.members@, packet.user_id, 0) {
                        None => Some(RoomError::NoSuchMember),
                        Some(mi) => {
                            let me = room.members@[mi];
                            if me.state is Ready {
                                Some(RoomError::AlreadyReady)
                            } else {
                                match find_cter_temp_from(me.cters@, cter.temp_id, 0) {
                                    None => Some(RoomError::NoSuchCharacter),
                                    Some(ci) => if !skills_owned(me.cters@[ci].skills@, cter.skills@) {
                                        Some(RoomError::NoSuchSkill)
                                    } else {
                                        None
                                    },
                                }
                            }
                        },
                    }
                }
            },
        },
        _ => Some(RoomError::InvalidBody),
    }
}

/// What a character choice did: rejected with the exact reason and
/// nothing but the reply queued, or the sender's chosen character
/// rewritten to the requested one.
pub open spec fn choice_character_rel(pre: RoomMgr, post: RoomMgr, packet: Packet, r: Result<(), RoomError>) -> bool {
    let user = packet.user_id;
    let code = ClientCode::ChoiceCharacter.spec_into_u32();
    match r {
        Err(e) => {
            &&& Some(e) == choice_character_err(pre, packet)
            &&& same_but_sender(pre, post)
            &&& replied(pre, post, code, user, false)
        },
        Ok(()) => {
            &&& choice_character_err(pre, packet) is None
            &&& packet.body matches CmdBody::ChoiceCharacter { cter }
                && match pre.spec_room_of(user) {
                    None => false,
                    Some(at) => match find_member_from(room_at(pre, at).members@, user, 0) {
                        None => false,
                        Some(mi) => {
                            &&& member_set(pre, post, at, mi, (Member {
                                choiced_cter: cter,
                                ..room_at(pre, at).members@[mi]
                            }))
                            &&& replied(pre, post, code, user, true)
                        },
                    },
                }
        },
    }
}

/// Choose the character and skills the sender plays; see
/// [`choice_character_rel`].
pub fn choice_character(rm: &mut RoomMgr, packet: Packet) -> (r: Result<(), RoomError>)
    ensures
        choice_character_rel(*old(rm), *final(rm), packet, r),
{
    let user = packet.user_id;
    let code = ClientCode::ChoiceCharacter.into_u32();
    let cter = match packet.body {
        CmdBody::ChoiceCharacter { cter } => cter,
        _ => {
            rm.send(OutMessage { code, user_id: user, ok: false });
            return Err(RoomError::InvalidBody);
        }
    };
    let at = match rm.get_room_mut(&user) {
        Some(at) => at,
        None => {
            rm.send(OutMessage { code, user_id: user, ok: false });
            return Err(RoomError::NotInRoom);
        }
    };
    let r = match at {
        RoomAt::Custom(ri) => set_choiced(&mut rm.custom_room.rooms, ri, user, cter),
        RoomAt::Match(ri) => set_choiced(&mut rm.match_rooms.rooms, ri, user, cter),
    };
    match r {
        Ok(()) => {
            rm.send(OutMessage { code, user_id: user, ok: true });
            Ok(())
        }
        Err(e) => {
            rm.send(OutMessage { code, user_id: user, ok: false });
            Err(e)
        }
    }
}

/// The room-level checks and effect of a character choice on one roster.
fn set_choiced(rooms: &mut Vec<Room>, ri: usize, user: u32, cter: Charcter) -> (r: Result<(), RoomError>)
    requires
        ri < old(rooms)@.len(),
    ensures
        ({
            let room = old(rooms)@[ri as int];
            let err = if room.state is Started {
                Some(RoomError::AlreadyStarted)
            } else {
                match find_member_from(room.members@, user, 0) {
                    None => Some(RoomError::NoSuchMember),
                    Some(mi) => {
                        let me = room.members@[mi];
                        if me.state is Ready {
                            Some(RoomError::AlreadyReady)
                        } else {
                            match find_cter_temp_from(me.cters@, cter.temp_id, 0) {
                                None => Some(RoomError::NoSuchCharacter),
                                Some(ci) => if !skills_owned(me.cters@[ci].skills@, cter.skills@) {
                                    Some(RoomError::NoSuchSkill)
                                } else {
                                    None
                                },
                            }
                        }
                    },
                }
            };
            match r {
                Err(e) => Some(e) == err && *final(rooms) == *old(rooms),
                Ok(()) => {
                    &&& err is None
                    &&& match find_member_from(room.members@, user, 0) {
                        None => false,
                        Some(mi) => {
                            &&& final(rooms)@ == old(rooms)@.update(
                                ri as int,
                                (Room { members: final(rooms)@[ri as int].members, ..room }),
                            )
                            &&& final(rooms)@[ri as int].members@ == room.members@.update(
                                mi,
                                (Member { choiced_cter: cter, ..room.members@[mi] }),
                            )
                        },
                    }
                },
            }
        }),
{
    let started = match rooms[ri].state {
        RoomState::Started => true,
        RoomState::Await => false,
    };
    if started {
        return Err(RoomError::AlreadyStarted);
    }
    let mcount = rooms[ri].members.len();
    let mut m: usize = 0;
    let mut found: Option<usize> = None;
    while m < mcount && found.is_none()
        invariant
            ri < rooms@.len(),
            mcount == rooms@[ri as int].members@.len(),
            m <= mcount,
            *rooms == *old(rooms),
            found is None ==> find_member_from(rooms@[ri as int].members@, user, 0)
                == find_member_from(rooms@[ri as int].members@, user, m as int),
            found matches Some(x) ==> x < mcount
                && find_member_from(rooms@[ri as int].members@, user, 0) == Some(x as int),
        decreases mcount - m + (if found is Some { 0int } else { 1int }),
    {
        if rooms[ri].members[m].user_id == user {
            found = Some(m);
        } else {
            m += 1;
        }
    }
    let mi = match found {
        Some(x) => x,
        None => {
            return Err(RoomError::NoSuchMember);
        }
    };
    let ready = match rooms[ri].members[mi].state {
        MemberState::Ready => true,
        MemberState::NotReady => false,
    };
    if ready {
        return Err(RoomError::AlreadyReady);
    }
    let owned = rooms[ri].members[mi].cters.len();
    let mut c: usize = 0;
    let mut have: Option<usize> = None;
    while c < owned && have.is_none()
        invariant
            ri < rooms@.len(),
            mi < rooms@[ri as int].members@.len(),
            owned == rooms@[ri as int].members@[mi as int].cters@.len(),
            c <= owned,
            *rooms == *old(rooms),
            have is None ==> find_cter_temp_from(rooms@[ri as int].members@[mi as int].cters@, cter.temp_id, 0)
                == find_cter_temp_from(rooms@[ri as int].members@[mi as int].cters@, cter.temp_id, c as int),
            have matches Some(x) ==> x < owned
                && find_cter_temp_from(rooms@[ri as int].members@[mi as int].cters@, cter.temp_id, 0)
                    == Some(x as int),
        decreases owned - c + (if have is Some { 0int } else { 1int }),
    {
        if rooms[ri].members[mi].cters[c].temp_id == cter.temp_id {
            have = Some(c);
        } else {
            c += 1;
        }
    }
    let ci = match have {
        Some(x) => x,
        None => {
            return Err(RoomError::NoSuchCharacter);
        }
    };
    let ghost chain_facts = {
        &&& !(old(rooms)@[ri as int].state is Started)
        &&& find_member_from(old(rooms)@[ri as int].members@, user, 0) == Some(mi as int)
        &&& !(old(rooms)@[ri as int].members@[mi as int].state is Ready)
        &&& find_cter_temp_from(old(rooms)@[ri as int].members@[mi as int].cters@, cter.temp_id, 0)
            == Some(ci as int)
    };
    proof {
        assert(chain_facts);
    }
    let want = cter.skills.len();
    let mut s: usize = 0;
    while s < want
        invariant
            ri < rooms@.len(),
            mi < rooms@[ri as int].members@.len(),
            ci < rooms@[ri as int].members@[mi as int].cters@.len(),
            want == cter.skills@.len(),
            s <= want,
            *rooms == *old(rooms),
            chain_facts,
            chain_facts == {
                &&& !(old(rooms)@[ri as int].state is Started)
                &&& find_member_from(old(rooms)@[ri as int].members@, user, 0) == Some(mi as int)
                &&& !(old(rooms)@[ri as int].members@[mi as int].state is Ready)
                &&& find_cter_temp_from(old(rooms)@[ri as int].members@[mi as int].cters@, cter.temp_id, 0)
                    == Some(ci as int)
            },
            forall|k: int| 0 <= k < s ==>
                rooms@[ri as int].members@[mi as int].cters@[ci as int].skills@.contains(#[trigger] cter.skills@[k]),
        decreases want - s,
    {
        let sid = cter.skills[s];
        let have_n = rooms[ri].members[mi].cters[ci].skills.len();
        let mut h: usize = 0;
        let mut ok = false;
        while h < have_n && !ok
            invariant
                ri < rooms@.len(),
                mi < rooms@[ri as int].members@.len(),
                ci < rooms@[ri as int].members@[mi as int].cters@.len(),
                have_n == rooms@[ri as int].members@[mi as int].cters@[ci as int].skills@.len(),
                h <= have_n,
                s < want,
                want == cter.skills@.len(),
                sid == cter.skills@[s as int],
                *rooms == *old(rooms),
                chain_facts,
                chain_facts == {
                    &&& !(old(rooms)@[ri as int].state is Started)
                    &&& find_member_from(old(rooms)@[ri as int].members@, user, 0) == Some(mi as int)
                    &&& !(old(rooms)@[ri as int].members@[mi as int].state is Ready)
                    &&& find_cter_temp_from(old(rooms)@[ri as int].members@[mi as int].cters@, cter.temp_id, 0)
                        == Some(ci as int)
                },
                ok ==> rooms@[ri as int].members@[mi as int].cters@[ci as int].skills@.contains(sid),
                !ok ==> forall|x: int| 0 <= x < h ==>
                    rooms@[ri as int].members@[mi as int].cters@[ci as int].skills@[x] != sid,
            decreases have_n - h + (if ok { 0int } else { 1int }),
        {
            if rooms[ri].members[mi].cters[ci].skills[h] == sid {
                ok = true;
            } else {
                h += 1;
            }
        }
        if !ok {
            proof {
                assert(!rooms@[ri as int].members@[mi as int].cters@[ci as int].skills@.contains(cter.skills@[s as int]));
            }
            return Err(RoomError::NoSuchSkill);
        }
        s += 1;
    }
    let ro = &mut rooms[ri];
    let me = &mut ro.members[mi];
    me.choiced_cter = cter;
    Ok(())
}

/// The first reason an emoji relay is rejected, if any: the sender must
/// be a ready member of its own room.
pub open spec fn emoji_err(pre: RoomMgr, packet: Packet) -> Option<RoomError> {
    match packet.body {
        CmdBody::Emoji { emoji_id } => match pre.spec_room_of(packet.user_id) {
            None => Some(RoomError::NotInRoom),
            Some(at) => match find_member_from(room_at(pre, at).members@, packet.user_id, 0) {
                None => Some(RoomError::NoSuchMember),
                Some(mi) => if !(room_at(pre, at).members@[mi].state is Ready) {
                    Some(RoomError::NotReady)
                } else {
                    None
                },
            },
        },
        _ => Some(RoomError::InvalidBody),
    }
}

/// What an emoji relay did: rejected with the exact reason and nothing
/// but the reply queued, or the state untouched and one broadcast message
/// queued per member of the sender's room.
pub open spec fn emoji_rel(pre: RoomMgr, post: RoomMgr, packet: Packet, r: Result<(), RoomError>) -> bool {
    let user = packet.user_id;
    let code = ClientCode::Emoji.spec_into_u32();
    match r {
        Err(e) => {
            &&& Some(e) == emoji_err(pre, packet)
            &&& same_but_sender(pre, post)
            &&& replied(pre, post, code, user, false)
        },
        Ok(()) => {
            &&& emoji_err(pre, packet) is None
            &&& same_but_sender(pre, post)
            &&& match pre.spec_room_of(user) {
                None => false,
                Some(at) => {
                    let members = room_at(pre, at).members@;
                    match pre.sender {
                        None => post.sender == pre.sender,
                        Some(q) => match post.sender {
                            Some(q2) => {
                                &&& q2@.len() == q@.len() + members.len()
                                &&& forall|k: int| 0 <= k < q@.len() ==> q2@[k] == q@[k]
                                &&& forall|m: int| 0 <= m < members.len() ==>
                                    q2@[q@.len() + m] == (OutMessage {
                                        code,
                                        user_id: members[m].user_id,
                                        ok: true,
                                    })
                            },
                            None => false,
                        },
                    }
                },
            }
        },
    }
}

/// Relay an emoji to every member of the sender's room; see [`emoji_rel`].
pub fn emoji(rm: &mut RoomMgr, packet: Packet) -> (r: Result<(), RoomError>)
    ensures
        emoji_rel(*old(rm), *final(rm), packet, r),
{
    let user = packet.user_id;
    let code = ClientCode::Emoji.into_u32();
    let _emoji_id = match packet.body {
        CmdBody::Emoji { emoji_id } => emoji_id,
        _ => {
            rm.send(OutMessage { code, user_id: user, ok: false });
            return Err(RoomError::InvalidBody);
        }
    };
    let at = match rm.get_room_mut(&user) {
        Some(at) => at,
        None => {
            rm.send(OutMessage { code, user_id: user, ok: false });
            return Err(RoomError::NotInRoom);
        }
    };
    let mcount = match at {
        RoomAt::Custom(ri) => rm.custom_room.rooms[ri].members.len(),
        RoomAt::Match(ri) => rm.match_rooms.rooms[ri].members.len(),
    };
    let mut mi: Option<usize> = None;
    let mut m: usize = 0;
    while m < mcount && mi.is_none()
        invariant
            match at {
                RoomAt::Custom(ri) => ri < rm.custom_room.rooms@.len()
                    && mcount == rm.custom_room.rooms@[ri as int].members@.len(),
                RoomAt::Match(ri) => ri < rm.match_rooms.rooms@.len()
                    && mcount == rm.match_rooms.rooms@[ri as int].members@.len(),
            },
            m <= mcount,
            *rm == *old(rm),
            mi is None ==> find_member_from(room_at(*rm, at).members@, user, 0)
                == find_member_from(room_at(*rm, at).members@, user, m as int),
            mi matches Some(x) ==> x < mcount
                && find_member_from(room_at(*rm, at).members@, user, 0) == Some(x as int),
        decreases mcount - m + (if mi is Some { 0int } else { 1int }),
    {
        let uid = match at {
            RoomAt::Custom(ri) => rm.custom_room.rooms[ri].members[m].user_id,
            RoomAt::Match(ri) => rm.match_rooms.rooms[ri].members[m].user_id,
        };
        if uid == user {
            mi = Some(m);
        } else {
            m += 1;
        }
    }
    let mi = match mi {
        Some(x) => x,
        None => {
            rm.send(OutMessage { code, user_id: user, ok: false });
            return Err(RoomError::NoSuchMember);
        }
    };
    let ready = match at {
        RoomAt::Custom(ri) => match rm.custom_room.rooms[ri].members[mi].state {
            MemberState::Ready => true,
            MemberState::NotReady => false,
        },
        RoomAt::Match(ri) => match rm.match_rooms.rooms[ri].members[mi].state {
            MemberState::Ready => true,
            MemberState::NotReady => false,
        },
    };
    if !ready {
        rm.send(OutMessage { code, user_id: user, ok: false });
        return Err(RoomError::NotReady);
    }
    let mut m2: usize = 0;
    while m2 < mcount
        invariant
            match at {
                RoomAt::Custom(ri) => ri < rm.custom_room.rooms@.len()
                    && mcount == rm.custom_room.rooms@[ri as int].members@.len(),
                RoomAt::Match(ri) => ri < rm.match_rooms.rooms@.len()
                    && mcount == rm.match_rooms.rooms@[ri as int].members@.len(),
            },
            m2 <= mcount,
            same_but_sender(*old(rm), *rm),
            room_at(*rm, at) == room_at(*old(rm), at),
            match old(rm).sender {
                None => rm.sender == old(rm).sender,
                Some(q) => match rm.sender {
                    Some(q2) => {
                        &&& q2@.len() == q@.len() + m2
                        &&& forall|k: int| 0 <= k < q@.len() ==> q2@[k] == q@[k]
                        &&& forall|x: int| 0 <= x < m2 ==>
                            q2@[q@.len() + x] == (OutMessage {
                                code,
                                user_id: room_at(*old(rm), at).members@[x].user_id,
                                ok: true,
                            })
                    },
                    None => false,
                },
            },
        decreases mcount - m2,
    {
        let to = match at {
            RoomAt::Custom(ri) => rm.custom_room.rooms[ri].members[m2].user_id,
            RoomAt::Match(ri) => rm.match_rooms.rooms[ri].members[m2].user_id,
        };
        rm.send(OutMessage { code, user_id: to, ok: true });
        m2 += 1;
    }
    Ok(())
}

} // verus!
