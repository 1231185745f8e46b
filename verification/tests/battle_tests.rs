use tile_battle::battle::BattleData;
use tile_battle::character::{BattleCharacter, BattleCterState, Buff, Skill};
use tile_battle::cmd_code::{ClientCode, GameCode, RoomCode};
use tile_battle::message::{handle_client_message, FromClientMessage, FromServerMessage};
use tile_battle::report::{ActionUnit, BattleError, EffectKind};
use tile_battle::robot::SkipGoalEvaluator;
use tile_battle::room_mgr::{CmdBody, Member, MemberState, Packet, RoomError, RoomMgr, Charcter};
use tile_battle::templates::{
    BuffKind, BuffTemplate, Constant, ConstantKey, ConsumeType, Direction, FamilyRange,
    JudgeTemplate, ScopeTemplate, SkillFamily, SkillTemplate, TargetType, TemplateService,
};
use tile_battle::tile_map::CellSeed;

fn service() -> TemplateService {
    TemplateService {
        skills: vec![
            SkillTemplate {
                id: 101,
                target: TargetType::SingleEnemy,
                consume_type: ConsumeType::Cooldown,
                consume_value: 0,
                cd: 2,
                skill_judge: 0,
                scope: 0,
                value: 5,
                buff: 0,
            },
            SkillTemplate {
                id: 201,
                target: TargetType::AnyPlayer,
                consume_type: ConsumeType::Energy,
                consume_value: 7,
                cd: 0,
                skill_judge: 0,
                scope: 0,
                value: 0,
                buff: 301,
            },
        ],
        buffs: vec![
            BuffTemplate { id: 301, kind: BuffKind::Guard, value: 0, trigger_times: 1, keep_times: 3, scope: 0 },
            BuffTemplate { id: 302, kind: BuffKind::AddAttackAndAoe, value: 1, trigger_times: 9, keep_times: 9, scope: 9 },
            BuffTemplate { id: 303, kind: BuffKind::Trap, value: 3, trigger_times: 1, keep_times: 9, scope: 0 },
            BuffTemplate { id: 304, kind: BuffKind::OpenGainEnergy, value: 2, trigger_times: 2, keep_times: 9, scope: 0 },
        ],
        scopes: vec![ScopeTemplate { id: 9, direction: Direction { direction: vec![-1, 1] } }],
        judges: vec![JudgeTemplate { id: 11, min_hp: 5 }],
        families: vec![
            FamilyRange { family: SkillFamily::SingleDamage, lo: 100, hi: 199 },
            FamilyRange { family: SkillFamily::ApplyBuff, lo: 200, hi: 299 },
            FamilyRange { family: SkillFamily::AoeDamage, lo: 400, hi: 499 },
        ],
        constants: vec![
            Constant { key: ConstantKey::MaxGrade, value: 5 },
            Constant { key: ConstantKey::CellsPerPlayer, value: 4 },
        ],
    }
}

fn combatant(user_id: u32, hp: u32) -> BattleCharacter {
    BattleCharacter {
        user_id,
        cter_id: 1000 + user_id,
        grade: 2,
        hp,
        defence: 1,
        atk: 5,
        energy: 3,
        cell_index: 0,
        recently_open_cell_index: None,
        residue_open_times: 2,
        is_can_attack: false,
        is_opened_cell: false,
        is_attacked: false,
        state: BattleCterState::Alive,
        skills: vec![Skill { id: 101, cd_times: 0, is_active: true }],
        items: vec![],
        buffs: vec![],
        add_damage_buffs: vec![],
    }
}

fn seeds(n: u32) -> Vec<CellSeed> {
    let mut v = Vec::new();
    for i in 0..n {
        v.push(CellSeed { id: 1 + i / 2, extra_buff: 0, buff: 0 });
    }
    v
}

fn two_player_battle() -> BattleData {
    let mut b = BattleData::new(service());
    b.add_combatant(combatant(1, 10), 0).unwrap();
    b.add_combatant(combatant(2, 10), 1).unwrap();
    b.reset_map(&seeds(8)).unwrap();
    b
}

#[test]
fn open_cell_pairs_matching_ids_and_grants_attack() {
    let mut b = two_player_battle();
    let mut au = ActionUnit::new(1);
    // the first open never pairs; it records the tile
    let first = b.open_cell(1, 0, &mut au).unwrap();
    assert!(!first);
    let me = b.find_cter(1).unwrap();
    assert_eq!(b.battle_cter[me].recently_open_cell_index, Some(0));
    assert!(!b.battle_cter[me].is_can_attack);
    // tiles 0 and 1 carry the same id: the second open pairs
    let second = b.open_cell(1, 1, &mut au).unwrap();
    assert!(second);
    assert!(b.battle_cter[me].is_can_attack);
    assert_eq!(b.battle_cter[me].recently_open_cell_index, None);
    assert_eq!(b.tile_map.map[0].pair_index, Some(1));
    assert_eq!(b.tile_map.map[1].pair_index, Some(0));
}

#[test]
fn open_cell_never_pairs_unequal_ids() {
    let mut b = two_player_battle();
    let mut au = ActionUnit::new(1);
    assert!(!b.open_cell(1, 0, &mut au).unwrap());
    // tile 2 carries a different id
    assert!(!b.open_cell(1, 2, &mut au).unwrap());
    let me = b.find_cter(1).unwrap();
    assert_eq!(b.battle_cter[me].recently_open_cell_index, Some(2));
    assert_eq!(b.tile_map.un_pair_count, 8);
}

#[test]
fn unmatched_count_drops_by_two_and_resets_on_regeneration() {
    let mut b = two_player_battle();
    assert_eq!(b.tile_map.un_pair_count, 8);
    let mut au = ActionUnit::new(1);
    b.open_cell(1, 0, &mut au).unwrap();
    b.open_cell(1, 1, &mut au).unwrap();
    assert_eq!(b.tile_map.un_pair_count, 6);
    assert_eq!(b.tile_map.un_pair_count % 2, 0);
    b.reset_map(&seeds(8)).unwrap();
    assert_eq!(b.tile_map.un_pair_count, 8);
}

#[test]
fn deduct_hp_is_idempotent_on_a_dead_target() {
    let mut b = two_player_battle();
    let (applied, died) = b.deduct_hp(2, 100, false).unwrap();
    assert_eq!(applied, 99);
    assert!(died);
    assert_eq!(b.rank_vec.len(), 1);
    let before = b.clone();
    let (applied2, died2) = b.deduct_hp(2, 100, false).unwrap();
    assert_eq!(applied2, 0);
    assert!(!died2);
    assert_eq!(b, before);
    let ti = b.find_cter(2).unwrap();
    assert_eq!(b.battle_cter[ti].hp, 0);
    assert_eq!(b.rank_vec.len(), 1);
}

#[test]
fn cooldown_and_energy_never_go_negative() {
    let mut b = two_player_battle();
    // an energy skill whose cost exceeds the reserve clamps at zero
    let me = b.find_cter(1).unwrap();
    b.battle_cter[me].skills.push(Skill { id: 201, cd_times: 0, is_active: true });
    assert_eq!(b.battle_cter[me].energy, 3);
    let mut au = ActionUnit::new(1);
    b.use_skill(1, 201, false, vec![1], &mut au).unwrap();
    assert_eq!(b.battle_cter[me].energy, 0);
    // cooldown ticks clamp at zero as tiles are opened
    let mut au2 = ActionUnit::new(1);
    b.open_cell(1, 0, &mut au2).unwrap();
    b.open_cell(1, 1, &mut au2).unwrap();
    for s in b.battle_cter[me].skills.iter() {
        assert!(s.cd_times <= 2);
    }
}

#[test]
fn skill_on_cooldown_is_rejected_without_any_change() {
    let mut b = two_player_battle();
    let me = b.find_cter(1).unwrap();
    b.battle_cter[me].skills[0].cd_times = 1;
    let before = b.clone();
    let mut au = ActionUnit::new(1);
    let r = b.use_skill(1, 101, false, vec![2], &mut au);
    assert_eq!(r, Err(BattleError::SkillOnCooldown));
    assert_eq!(b, before);
    assert_eq!(b.battle_cter[me].skills[0].cd_times, 1);
    assert_eq!(au.targets.len(), 0);
}

#[test]
fn turn_order_skips_eliminated_seats() {
    let mut b = BattleData::new(service());
    b.add_combatant(combatant(1, 10), 0).unwrap();
    b.add_combatant(combatant(2, 10), 1).unwrap();
    b.add_combatant(combatant(3, 10), 2).unwrap();
    b.reset_map(&seeds(12)).unwrap();
    // eliminate the player on seat 1
    b.deduct_hp(2, 100, false).unwrap();
    assert_eq!(b.next_turn_index, 0);
    b.add_next_turn_index();
    assert_eq!(b.next_turn_index, 2);
    b.add_next_turn_index();
    assert_eq!(b.next_turn_index, 0);
}

#[test]
fn simultaneous_aoe_kills_share_a_rank_group() {
    let mut b = BattleData::new(service());
    b.add_combatant(combatant(1, 30), 0).unwrap();
    b.add_combatant(combatant(2, 3), 1).unwrap();
    b.add_combatant(combatant(3, 3), 2).unwrap();
    b.add_combatant(combatant(4, 30), 3).unwrap();
    b.reset_map(&seeds(16)).unwrap();
    // stand the primary target on tile 5 and a second victim next to it
    let a = b.find_cter(1).unwrap();
    let bi = b.find_cter(2).unwrap();
    let ci = b.find_cter(3).unwrap();
    b.battle_cter[bi].cell_index = 5;
    b.battle_cter[ci].cell_index = 6;
    b.battle_cter[a].is_can_attack = true;
    b.battle_cter[a].buffs.push(Buff { id: 302, trigger_timesed: 9, keep_times: 9 });
    let mut au = ActionUnit::new(1);
    b.attack(1, vec![2], &mut au).unwrap();
    assert_eq!(b.rank_vec.len(), 2);
    assert_eq!(b.rank_vec[0].group, b.rank_vec[1].group);
    let users: Vec<u32> = b.rank_vec.iter().map(|e| e.user_id).collect();
    assert!(users.contains(&2));
    assert!(users.contains(&3));
}

#[test]
fn guard_with_one_use_absorbs_the_attack_and_is_lost() {
    let mut b = two_player_battle();
    let a = b.find_cter(1).unwrap();
    let t = b.find_cter(2).unwrap();
    b.battle_cter[a].is_can_attack = true;
    b.battle_cter[t].buffs.push(Buff { id: 301, trigger_timesed: 1, keep_times: 3 });
    let hp_before = b.battle_cter[t].hp;
    let mut au = ActionUnit::new(1);
    b.attack(1, vec![2], &mut au).unwrap();
    assert_eq!(b.battle_cter[t].hp, hp_before);
    assert_eq!(b.battle_cter[t].buffs.len(), 0);
    assert_eq!(au.targets.len(), 1);
    let entry = &au.targets[0];
    assert_eq!(entry.effect_type, EffectKind::AttackDamage);
    assert_eq!(entry.effect_value, 0);
    assert_eq!(entry.lost_buffs, vec![301]);
}

#[test]
fn map_regenerates_to_the_alive_derived_size_keeping_positions() {
    let mut b = BattleData::new(service());
    b.add_combatant(combatant(1, 10), 0).unwrap();
    b.add_combatant(combatant(2, 10), 1).unwrap();
    b.add_combatant(combatant(3, 10), 2).unwrap();
    b.reset_map(&seeds(12)).unwrap();
    let a = b.find_cter(1).unwrap();
    b.battle_cter[a].cell_index = 7;
    // three alive combatants at four tiles each
    let r = b.reset_map(&seeds(12));
    assert!(r.is_ok());
    assert_eq!(b.tile_map.map.len(), 12);
    assert_eq!(b.tile_map.un_pair_count, 12);
    assert_eq!(b.battle_cter[a].cell_index, 7);
    // a wrongly sized regeneration is rejected
    assert_eq!(b.reset_map(&seeds(10)), Err(BattleError::BadMapSize));
}

#[test]
fn settlement_fires_exactly_once_and_covers_every_participant() {
    let mut b = two_player_battle();
    b.deduct_hp(2, 100, false).unwrap();
    let report = b.battle_summary().expect("one survivor settles the match");
    assert!(b.settled);
    assert_eq!(report.summary_datas.len(), 2);
    let winner = report.summary_datas.iter().find(|d| d.user_id == 1).unwrap();
    let loser = report.summary_datas.iter().find(|d| d.user_id == 2).unwrap();
    assert_eq!(winner.rank, 0);
    assert_eq!(loser.rank, 1);
    assert_eq!(winner.grade, 3);
    assert_eq!(loser.grade, 1);
    // grades were written back
    let a = b.find_cter(1).unwrap();
    let t = b.find_cter(2).unwrap();
    assert_eq!(b.battle_cter[a].grade, 3);
    assert_eq!(b.battle_cter[t].grade, 1);
    // it never fires twice
    assert!(b.battle_summary().is_none());
    // and a settled match rejects mutating commands
    let mut au = ActionUnit::new(1);
    assert_eq!(b.open_cell(1, 0, &mut au), Err(BattleError::MatchSettled));
}

#[test]
fn settlement_waits_for_two_survivors_to_become_one() {
    let mut b = two_player_battle();
    assert!(b.battle_summary().is_none());
    assert!(!b.settled);
}

#[test]
fn single_damage_skill_applies_mitigated_damage_and_resets_cooldown() {
    let mut b = two_player_battle();
    let me = b.find_cter(1).unwrap();
    let t = b.find_cter(2).unwrap();
    let mut au = ActionUnit::new(1);
    b.use_skill(1, 101, false, vec![2], &mut au).unwrap();
    // value 5 against defence 1
    assert_eq!(b.battle_cter[t].hp, 6);
    assert_eq!(b.battle_cter[me].skills[0].cd_times, 2);
    assert_eq!(au.targets.len(), 1);
    assert_eq!(au.targets[0].effect_value, 4);
}

#[test]
fn stale_turn_timer_is_ignored() {
    let mut b = two_player_battle();
    let serial = b.turn_serial;
    let before = b.clone();
    b.handle_timeout(serial + 5);
    assert_eq!(b, before);
    b.handle_timeout(serial);
    assert_eq!(b.turn_serial, serial + 1);
    assert_eq!(b.tasks.len(), 1);
    assert_eq!(b.tasks[0].turn_serial, serial + 1);
}

#[test]
fn turn_notice_reaches_every_member() {
    let mut b = two_player_battle();
    let before = b.notices.len();
    b.next_turn();
    assert_eq!(b.notices.len(), before + 2);
}

fn member(user_id: u32) -> Member {
    Member {
        user_id,
        state: MemberState::NotReady,
        team_id: 1,
        cters: vec![Charcter { temp_id: 7, skills: vec![101, 102] }],
        choiced_cter: Charcter { temp_id: 0, skills: vec![] },
    }
}

#[test]
fn rooms_are_created_joined_and_left() {
    let mut rm = RoomMgr::new();
    let create = Packet {
        cmd: RoomCode::CreateRoom.into_u32(),
        user_id: 10,
        body: CmdBody::CreateRoom { room_type: 1, owner: member(10) },
    };
    rm.invok(create.clone()).unwrap();
    assert!(rm.check_player(&10));
    let room_id = rm.get_room_id(&10).unwrap();
    // the creator cannot create twice
    assert!(rm.invok(create).is_err());
    // another player joins by id
    let join = Packet {
        cmd: RoomCode::JoinRoom.into_u32(),
        user_id: 11,
        body: CmdBody::JoinRoom { room_id, member: member(11) },
    };
    rm.invok(join).unwrap();
    assert!(rm.check_player(&11));
    assert_eq!(rm.custom_room.rooms[0].members.len(), 2);
    // and leaves again
    let leave = Packet { cmd: RoomCode::LeaveRoom.into_u32(), user_id: 11, body: CmdBody::LeaveRoom };
    rm.invok(leave).unwrap();
    assert!(!rm.check_player(&11));
}

#[test]
fn choosing_an_unowned_character_is_rejected() {
    let mut rm = RoomMgr::new();
    let create = Packet {
        cmd: RoomCode::CreateRoom.into_u32(),
        user_id: 10,
        body: CmdBody::CreateRoom { room_type: 1, owner: member(10) },
    };
    rm.invok(create).unwrap();
    let pick_bad = Packet {
        cmd: RoomCode::ChoiceCharacter.into_u32(),
        user_id: 10,
        body: CmdBody::ChoiceCharacter { cter: Charcter { temp_id: 99, skills: vec![] } },
    };
    assert!(rm.invok(pick_bad).is_err());
    let pick_good = Packet {
        cmd: RoomCode::ChoiceCharacter.into_u32(),
        user_id: 10,
        body: CmdBody::ChoiceCharacter { cter: Charcter { temp_id: 7, skills: vec![101] } },
    };
    rm.invok(pick_good).unwrap();
    assert_eq!(rm.custom_room.rooms[0].members[0].choiced_cter.temp_id, 7);
}

#[test]
fn command_codes_keep_their_wire_values() {
    assert_eq!(GameCode::CreateRoom.into_u32(), 1006);
    assert_eq!(RoomCode::CreateRoom.into_u32(), 20003);
    assert_eq!(RoomCode::Emoji.into_u32(), 20013);
    assert_eq!(ClientCode::Room.into_u32(), 10006);
    assert_eq!(ClientCode::Max.into_u32(), 20000);
}

#[test]
fn ping_replies_count_for_known_connections() {
    let (reply, count) = handle_client_message(FromClientMessage::Ping, Some(0));
    assert_eq!(reply, FromServerMessage::Pong(1));
    assert_eq!(count, Some(1));
    let (reply2, count2) = handle_client_message(FromClientMessage::Ping, None);
    assert_eq!(reply2, FromServerMessage::UnknownPong);
    assert_eq!(count2, None);
}

#[test]
fn robot_skips_only_when_nothing_is_left() {
    let ev = SkipGoalEvaluator::default();
    assert_eq!(ev.calculate_desirability(0, false, false), 100);
    assert_eq!(ev.calculate_desirability(1, false, false), 0);
    assert_eq!(ev.calculate_desirability(0, true, false), 0);
    assert_eq!(ev.calculate_desirability(0, false, true), 0);
}

#[test]
fn seating_a_combatant_without_health_is_rejected() {
    let mut b = BattleData::new(service());
    let r = b.add_combatant(combatant(1, 0), 0);
    assert_eq!(r, Err(BattleError::NoHealth));
    assert_eq!(b.battle_cter.len(), 0);
}

#[test]
fn map_regenerates_at_the_unmatched_threshold() {
    // pair three of the four pairs legitimately, then run the
    // post-command upkeep: two combatants still fight on a board whose
    // counter reached 2, so the board regenerates
    let mut b = two_player_battle();
    let mut au = ActionUnit::new(0);
    b.open_cell(1, 0, &mut au).unwrap();
    b.open_cell(1, 1, &mut au).unwrap();
    b.next_turn();
    b.open_cell(2, 2, &mut au).unwrap();
    b.open_cell(2, 3, &mut au).unwrap();
    b.next_turn();
    b.open_cell(1, 4, &mut au).unwrap();
    b.open_cell(1, 5, &mut au).unwrap();
    assert_eq!(b.tile_map.un_pair_count, 2);
    let a = b.find_cter(1).unwrap();
    let pos = b.battle_cter[a].cell_index;
    let settled = b.handler_settle(&seeds(8));
    assert!(!settled);
    assert_eq!(b.tile_map.map.len(), 8);
    assert_eq!(b.tile_map.un_pair_count, 8);
    assert_eq!(b.battle_cter[a].cell_index, pos);
    // wrongly sized seeds would have changed nothing
    let mut b2 = two_player_battle();
    b2.open_cell(1, 0, &mut au).unwrap();
    b2.open_cell(1, 1, &mut au).unwrap();
    assert!(!b2.handler_settle(&seeds(8)));
    assert_eq!(b2.tile_map.un_pair_count, 6);
}

#[test]
fn handler_settle_settles_once_at_one_survivor() {
    let mut b = two_player_battle();
    b.deduct_hp(2, 100, false).unwrap();
    let notices_before = b.notices.len();
    assert!(b.handler_settle(&seeds(4)));
    assert!(b.settled);
    // one settlement notice per member
    assert_eq!(b.notices.len(), notices_before + 2);
    // it never fires twice
    assert!(!b.handler_settle(&seeds(4)));
}

#[test]
fn match_room_players_are_found_and_can_prepare() {
    let mut rm = RoomMgr::new();
    let search = Packet {
        cmd: RoomCode::SearchRoom.into_u32(),
        user_id: 30,
        body: CmdBody::SearchRoom { battle_type: 2, member: member(30) },
    };
    rm.invok(search).unwrap();
    assert_eq!(rm.match_rooms.rooms.len(), 1);
    let prep = Packet {
        cmd: RoomCode::PrepareCancel.into_u32(),
        user_id: 30,
        body: CmdBody::PrepareCancel { prepare: true },
    };
    rm.invok(prep).unwrap();
    assert_eq!(rm.match_rooms.rooms[0].members[0].state, MemberState::Ready);
    // a second seeker of the same type joins the same room
    let search2 = Packet {
        cmd: RoomCode::SearchRoom.into_u32(),
        user_id: 31,
        body: CmdBody::SearchRoom { battle_type: 2, member: member(31) },
    };
    rm.invok(search2).unwrap();
    assert_eq!(rm.match_rooms.rooms.len(), 1);
    assert_eq!(rm.match_rooms.rooms[0].members.len(), 2);
}

#[test]
fn leaving_clears_the_roster_and_the_record() {
    let mut rm = RoomMgr::new();
    rm.invok(Packet {
        cmd: RoomCode::CreateRoom.into_u32(),
        user_id: 10,
        body: CmdBody::CreateRoom { room_type: 1, owner: member(10) },
    })
    .unwrap();
    let room_id = rm.get_room_id(&10).unwrap();
    rm.invok(Packet {
        cmd: RoomCode::JoinRoom.into_u32(),
        user_id: 11,
        body: CmdBody::JoinRoom { room_id, member: member(11) },
    })
    .unwrap();
    assert_eq!(rm.custom_room.rooms[0].members.len(), 2);
    rm.invok(Packet { cmd: RoomCode::LeaveRoom.into_u32(), user_id: 11, body: CmdBody::LeaveRoom })
        .unwrap();
    assert!(!rm.check_player(&11));
    assert_eq!(rm.custom_room.rooms[0].members.len(), 1);
    assert_eq!(rm.custom_room.rooms[0].members[0].user_id, 10);
}

#[test]
fn only_the_owner_kicks_and_the_kicked_lose_their_record() {
    let mut rm = RoomMgr::new();
    rm.invok(Packet {
        cmd: RoomCode::CreateRoom.into_u32(),
        user_id: 10,
        body: CmdBody::CreateRoom { room_type: 1, owner: member(10) },
    })
    .unwrap();
    let room_id = rm.get_room_id(&10).unwrap();
    rm.invok(Packet {
        cmd: RoomCode::JoinRoom.into_u32(),
        user_id: 11,
        body: CmdBody::JoinRoom { room_id, member: member(11) },
    })
    .unwrap();
    // a non-owner cannot kick
    let r = rm.invok(Packet {
        cmd: RoomCode::Kick.into_u32(),
        user_id: 11,
        body: CmdBody::Kick { target_id: 10 },
    });
    assert!(r.is_err());
    // the owner can
    rm.invok(Packet {
        cmd: RoomCode::Kick.into_u32(),
        user_id: 10,
        body: CmdBody::Kick { target_id: 11 },
    })
    .unwrap();
    assert_eq!(rm.custom_room.rooms[0].members.len(), 1);
    assert!(!rm.check_player(&11));
}

#[test]
fn replies_and_emoji_broadcasts_reach_the_outbox() {
    let mut rm = RoomMgr::new();
    rm.sender = Some(Vec::new());
    rm.invok(Packet {
        cmd: RoomCode::CreateRoom.into_u32(),
        user_id: 10,
        body: CmdBody::CreateRoom { room_type: 1, owner: member(10) },
    })
    .unwrap();
    rm.invok(Packet {
        cmd: RoomCode::PrepareCancel.into_u32(),
        user_id: 10,
        body: CmdBody::PrepareCancel { prepare: true },
    })
    .unwrap();
    // one reply each for create and prepare, then one broadcast per member
    rm.invok(Packet {
        cmd: RoomCode::Emoji.into_u32(),
        user_id: 10,
        body: CmdBody::Emoji { emoji_id: 5 },
    })
    .unwrap();
    let q = rm.sender.as_ref().unwrap();
    assert_eq!(q.len(), 3);
    assert!(q[0].ok);
    assert_eq!(q[2].code, ClientCode::Emoji.into_u32());
    assert_eq!(q[2].user_id, 10);
}

#[test]
fn unknown_commands_are_rejected_by_the_dispatcher() {
    let mut rm = RoomMgr::new();
    let before = rm.clone();
    let r = rm.invok(Packet { cmd: 42, user_id: 10, body: CmdBody::LeaveRoom });
    assert_eq!(r, Err(RoomError::UnknownCommand));
    assert_eq!(rm, before);
}
