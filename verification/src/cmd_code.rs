//! Command-code ranges shared by the servers and the client.
//!
//! Each enum spans one number segment; `into_u32` gives the wire value and
//! `from_u32` recovers the variant from a wire value inside the segment.

use vstd::prelude::*;

verus! {

/// Command numbers of the game server segment.
#[derive(Clone, Copy, PartialEq, Eq, Structural, Debug)]
pub enum GameCode {
    Min,
    HeartBeat,
    LineOff,
    Login,
    SyncData,
    ModifyNickName,
    CreateRoom,
    JoinRoom,
    SearchRoom,
    Max,
}

impl GameCode {
    /// Wire value of the command.
    pub fn into_u32(self) -> (r: u32)
        ensures
            r == self.spec_into_u32(),
    {
        match self {
            GameCode::Min => 1000,
            GameCode::HeartBeat => 1001,
            GameCode::LineOff => 1002,
            GameCode::Login => 1003,
            GameCode::SyncData => 1004,
            GameCode::ModifyNickName => 1005,
            GameCode::CreateRoom => 1006,
            GameCode::JoinRoom => 1007,
            GameCode::SearchRoom => 1008,
            GameCode::Max => 10000,
        }
    }

    pub open spec fn spec_into_u32(self) -> u32 {
        match self {
            GameCode::Min => 1000,
            GameCode::HeartBeat => 1001,
            GameCode::LineOff => 1002,
            GameCode::Login => 1003,
            GameCode::SyncData => 1004,
            GameCode::ModifyNickName => 1005,
            GameCode::CreateRoom => 1006,
            GameCode::JoinRoom => 1007,
            GameCode::SearchRoom => 1008,
            GameCode::Max => 10000,
        }
    }
}

/// Command numbers of the room server segment.
#[derive(Clone, Copy, PartialEq, Eq, Structural, Debug)]
pub enum RoomCode {
    Min,
    LineOff,
    CreateRoom,
    LeaveRoom,
    Kick,
    ChangeTeam,
    PrepareCancel,
    StartGame,
    JoinRoom,
    SearchRoom,
    RoomSetting,
    ChoiceCharacter,
    Emoji,
    Max,
}

impl RoomCode {
    /// Wire value of the command.
    pub fn into_u32(self) -> (r: u32)
        ensures
            r == self.spec_into_u32(),
    {
        match self {
            RoomCode::Min => 20001,
            RoomCode::LineOff => 20002,
            RoomCode::CreateRoom => 20003,
            RoomCode::LeaveRoom => 20004,
            RoomCode::Kick => 20005,
            RoomCode::ChangeTeam => 20006,
            RoomCode::PrepareCancel => 20007,
            RoomCode::StartGame => 20008,
            RoomCode::JoinRoom => 20009,
            RoomCode::SearchRoom => 20010,
            RoomCode::RoomSetting => 20011,
            RoomCode::ChoiceCharacter => 20012,
            RoomCode::Emoji => 20013,
            RoomCode::Max => 30000,
        }
    }

    pub open spec fn spec_into_u32(self) -> u32 {
        match self {
            RoomCode::Min => 20001,
            RoomCode::LineOff => 20002,
            RoomCode::CreateRoom => 20003,
            RoomCode::LeaveRoom => 20004,
            RoomCode::Kick => 20005,
            RoomCode::ChangeTeam => 20006,
            RoomCode::PrepareCancel => 20007,
            RoomCode::StartGame => 20008,
            RoomCode::JoinRoom => 20009,
            RoomCode::SearchRoom => 20010,
            RoomCode::RoomSetting => 20011,
            RoomCode::ChoiceCharacter => 20012,
            RoomCode::Emoji => 20013,
            RoomCode::Max => 30000,
        }
    }
}

/// Command numbers of replies pushed to the client.
#[derive(Clone, Copy, PartialEq, Eq, Structural, Debug)]
pub enum ClientCode {
    Min,
    HeartBeat,
    Login,
    SyncData,
    NickNameModify,
    Room,
    LeaveRoom,
    Start,
    ChangeTeam,
    PrepareCancel,
    RoomSetting,
    RoomMemberNotice,
    KickMember,
    ChoiceCharacter,
    RoomNotice,
    Emoji,
    BattleTurnNotice,
    SummaryNotice,
    Max,
}

impl ClientCode {
    /// Wire value of the command.
    pub fn into_u32(self) -> (r: u32)
        ensures
            r == self.spec_into_u32(),
    {
        match self {
            ClientCode::Min => 10001,
            ClientCode::HeartBeat => 10002,
            ClientCode::Login => 10003,
            ClientCode::SyncData => 10004,
            ClientCode::NickNameModify => 10005,
            ClientCode::Room => 10006,
            ClientCode::LeaveRoom => 10007,
            ClientCode::Start => 10008,
            ClientCode::ChangeTeam => 10009,
            ClientCode::PrepareCancel => 10010,
            ClientCode::RoomSetting => 10011,
            ClientCode::RoomMemberNotice => 10012,
            ClientCode::KickMember => 10013,
            ClientCode::ChoiceCharacter => 10014,
            ClientCode::RoomNotice => 10015,
            ClientCode::Emoji => 10016,
            ClientCode::BattleTurnNotice => 10017,
            ClientCode::SummaryNotice => 10018,
            ClientCode::Max => 20000,
        }
    }

    pub open spec fn spec_into_u32(self) -> u32 {
        match self {
            ClientCode::Min => 10001,
            ClientCode::HeartBeat => 10002,
            ClientCode::Login => 10003,
            ClientCode::SyncData => 10004,
            ClientCode::NickNameModify => 10005,
            ClientCode::Room => 10006,
            ClientCode::LeaveRoom => 10007,
            ClientCode::Start => 10008,
            ClientCode::ChangeTeam => 10009,
            ClientCode::PrepareCancel => 10010,
            ClientCode::RoomSetting => 10011,
            ClientCode::RoomMemberNotice => 10012,
            ClientCode::KickMember => 10013,
            ClientCode::ChoiceCharacter => 10014,
            ClientCode::RoomNotice => 10015,
            ClientCode::Emoji => 10016,
            ClientCode::BattleTurnNotice => 10017,
            ClientCode::SummaryNotice => 10018,
            ClientCode::Max => 20000,
        }
    }
}

} // verus!
