use erps::engine::Engine;
use erps::event::GameSingalRes;
use erps::event::HeroCell;
use erps::event::JoinMsg;
use erps::event::LoginMsg;
use erps::event::PreStartMsg;
use erps::event::StartGameRes;
use erps::event::StartGetMsg;
use erps::event::StartQueueMsg;
use erps::event::UserEvent;

fn cell(id: &str, team: u16) -> HeroCell {
    HeroCell {
        id: id.to_string(),
        team,
        name: String::new(),
        hero: "freyja".to_string(),
        tags: Vec::new(),
    }
}

#[test]
fn new_engine_numbers_its_agents() {
    let e = Engine::new(12, 3, 3000);
    assert_eq!(e.users.len(), 12);
    assert_eq!(e.users[0].id, "0");
    assert_eq!(e.users[9].id, "9");
    assert_eq!(e.users[11].id, "11");
    assert_eq!(e.users[3].cnt, -1);
    assert!(!e.users[3].isLogin);
    assert_eq!(e.rooms.len(), 0);
}

#[test]
fn get_user_finds_by_id() {
    let e = Engine::new(5, 3, 3000);
    assert_eq!(erps::engine::get_user(&"3".to_string(), &e.users), Some(3));
    assert_eq!(erps::engine::get_user(&"7".to_string(), &e.users), None);
}

#[test]
fn login_event_sets_flag_and_unblocks() {
    let mut e = Engine::new(3, 3, 3000);
    e.users[1].cnt = 5;
    let out = e.handle_event(UserEvent::Login(LoginMsg { id: "1".to_string(), msg: "ok".to_string() }));
    assert!(out.msgs.is_empty());
    assert!(out.delayed.is_empty());
    assert!(e.users[1].isLogin);
    assert_eq!(e.users[1].cnt, -1);
    assert!(!e.users[0].isLogin);
}

#[test]
fn event_for_unknown_agent_is_ignored() {
    let mut e = Engine::new(3, 3, 3000);
    let out = e.handle_event(UserEvent::Login(LoginMsg { id: "9".to_string(), msg: "ok".to_string() }));
    assert!(out.msgs.is_empty());
    assert!(!e.users[0].isLogin && !e.users[1].isLogin && !e.users[2].isLogin);
}

#[test]
fn start_get_marks_playing_and_prestart() {
    let mut e = Engine::new(3, 3, 3000);
    e.handle_event(UserEvent::StartGet(StartGetMsg { id: "2".to_string(), msg: "ok".to_string() }));
    assert!(e.users[2].isPlaying);
    assert!(e.users[2].isPreStart);
}

#[test]
fn join_ok_updates_agent_and_registry() {
    // Population of three, all unauthenticated: one Create decision and two
    // confirmed Joins fill the room to exactly the team size, after which the
    // registry no longer offers it.
    let mut e = Engine::new(3, 3, 3000);
    e.rooms.create("0".to_string());
    e.handle_event(UserEvent::Join(JoinMsg {
        id: "1".to_string(),
        room: "0".to_string(),
        msg: "ok".to_string(),
    }));
    e.handle_event(UserEvent::Join(JoinMsg {
        id: "2".to_string(),
        room: "0".to_string(),
        msg: "ok".to_string(),
    }));
    let rr = e.rooms.get(&"0".to_string()).unwrap();
    assert_eq!(rr.ids, vec!["0".to_string(), "1".to_string(), "2".to_string()]);
    assert!(e.rooms.pick_joinable(0).is_none());
    assert!(e.users[1].isInRoom);
    assert_eq!(e.users[1].room, "0");
    assert!(e.users[2].isInRoom);
    assert_eq!(e.users[2].room, "0");
}

#[test]
fn join_failure_only_unblocks_the_agent() {
    let mut e = Engine::new(3, 3, 3000);
    e.rooms.create("0".to_string());
    e.users[1].cnt = 4;
    e.handle_event(UserEvent::Join(JoinMsg {
        id: "1".to_string(),
        room: "0".to_string(),
        msg: "room full".to_string(),
    }));
    assert!(!e.users[1].isInRoom);
    assert_eq!(e.rooms.get(&"0".to_string()).unwrap().ids.len(), 1);
    // A failed acknowledgement still unblocks the agent's autonomous action.
    assert_eq!(e.users[1].cnt, -1);
}

#[test]
fn create_failure_only_unblocks_the_agent() {
    let mut e = Engine::new(3, 3, 3000);
    e.users[2].cnt = 7;
    let out = e.handle_event(UserEvent::Create(erps::event::CreateRoomMsg {
        id: "2".to_string(),
        msg: "denied".to_string(),
    }));
    assert!(out.msgs.is_empty());
    assert!(!e.users[2].isInRoom);
    assert!(!e.users[2].isRoomCreater);
    assert_eq!(e.users[2].cnt, -1);
}

#[test]
fn game_signal_schedules_delayed_start() {
    let mut e = Engine::new(3, 3, 3000);
    let out = e.handle_event(UserEvent::GameSingal(GameSingalRes { game: 4 }));
    assert!(out.msgs.is_empty());
    assert_eq!(out.delayed.len(), 1);
    assert_eq!(out.delayed[0].topic, "game/4/send/start_game");
    assert_eq!(out.delayed[0].msg, "{\"game\":4,\"action\":\"init\"}");
    assert_eq!(e.start_delay_ms, 3000);
}

#[test]
fn start_game_resolves_whole_roster() {
    // Six-member roster, three per team: exactly one team wins whole, both
    // summaries carry the game id, and every member is reset for reuse.
    let mut e = Engine::new(6, 3, 3000);
    for i in 0..6 {
        e.users[i].isStartQueue = true;
        e.users[i].isInRoom = true;
        e.users[i].hero = "freyja".to_string();
    }
    let roster = StartGameRes {
        game: 9,
        member: vec![
            cell("0", 1),
            cell("1", 1),
            cell("2", 1),
            cell("3", 2),
            cell("4", 2),
            cell("5", 2),
        ],
    };
    let out = e.handle_event(UserEvent::StartGame(roster));
    assert_eq!(out.msgs.len(), 2);
    assert_eq!(out.msgs[0].topic, "game/9/send/game_over");
    assert_eq!(out.msgs[1].topic, "game/9/send/game_info");

    let over: serde_json::Value = serde_json::from_str(&out.msgs[0].msg).unwrap();
    assert_eq!(over["game"], 9);
    let win: Vec<String> =
        over["win"].as_array().unwrap().iter().map(|v| v.as_str().unwrap().to_string()).collect();
    let lose: Vec<String> =
        over["lose"].as_array().unwrap().iter().map(|v| v.as_str().unwrap().to_string()).collect();
    let team1 = vec!["0".to_string(), "1".to_string(), "2".to_string()];
    let team2 = vec!["3".to_string(), "4".to_string(), "5".to_string()];
    assert!(
        (win == team1 && lose == team2) || (win == team2 && lose == team1),
        "one whole team wins, the other loses"
    );

    let info: serde_json::Value = serde_json::from_str(&out.msgs[1].msg).unwrap();
    assert_eq!(info["game"], 9);
    let users = info["users"].as_array().unwrap();
    assert_eq!(users.len(), 6);
    for (i, rec) in users.iter().enumerate() {
        assert_eq!(rec["id"], format!("{}", i));
        assert_eq!(rec["hero"], "freyja");
        let level = rec["level"].as_u64().unwrap();
        assert!((13..16).contains(&level));
        let damage = rec["damage"].as_u64().unwrap();
        assert!((1000..3000).contains(&damage));
        let heal = rec["heal"].as_u64().unwrap();
        assert!((500..1000).contains(&heal));
        assert!(rec["kill"].as_u64().unwrap() < 4);
        assert!(rec["death"].as_u64().unwrap() < 3);
        assert!(rec["assist"].as_u64().unwrap() < 5);
        assert!(rec["gift"]["A"].as_u64().unwrap() < 4);
        assert_eq!(rec["equ"].as_array().unwrap().len(), 3);
    }

    for i in 0..6 {
        assert!(!e.users[i].isStartQueue);
        assert!(!e.users[i].isInRoom);
        assert!(!e.users[i].isPlaying);
        assert!(!e.users[i].isPreStart);
        assert!(!e.users[i].isCanPreStart);
        assert!(!e.users[i].isRoomCreater);
        assert_eq!(e.users[i].hero, "freyja");
    }
}

#[test]
fn start_game_skips_unknown_members() {
    let mut e = Engine::new(2, 3, 3000);
    let roster = StartGameRes { game: 1, member: vec![cell("0", 1), cell("9", 2)] };
    let out = e.handle_event(UserEvent::StartGame(roster));
    let over: serde_json::Value = serde_json::from_str(&out.msgs[0].msg).unwrap();
    // The unknown member still appears in the winner or loser list...
    assert_eq!(
        over["win"].as_array().unwrap().len() + over["lose"].as_array().unwrap().len(),
        2
    );
    // ... but gets no statistics record.
    let info: serde_json::Value = serde_json::from_str(&out.msgs[1].msg).unwrap();
    assert_eq!(info["users"].as_array().unwrap().len(), 1);
}

#[test]
fn prestart_stop_queue_touches_only_the_sender() {
    let mut e = Engine::new(3, 3, 3000);
    for i in 0..3 {
        e.users[i].isCanPreStart = true;
        e.users[i].isPreStart = true;
    }
    let out = e.handle_event(UserEvent::PreStart(PreStartMsg {
        id: "1".to_string(),
        msg: "stop queue".to_string(),
    }));
    assert!(out.msgs.is_empty());
    assert!(!e.users[1].isCanPreStart);
    assert!(!e.users[1].isPreStart);
    assert!(e.users[0].isCanPreStart && e.users[0].isPreStart);
    assert!(e.users[2].isCanPreStart && e.users[2].isPreStart);
}

#[test]
fn prestart_broadcast_reaches_room_members_not_yet_prestarted() {
    let mut e = Engine::new(3, 3, 3000);
    e.rooms.create("0".to_string());
    e.rooms.record_join(&"0".to_string(), "1".to_string());
    e.rooms.record_join(&"0".to_string(), "2".to_string());
    for i in 0..3 {
        e.users[i].room = "0".to_string();
    }
    e.users[2].isPreStart = true;
    e.users[1].isCanPreStart = true;
    let out = e.handle_event(UserEvent::PreStart(PreStartMsg {
        id: "0".to_string(),
        msg: "ok".to_string(),
    }));
    // Agent 1 was already eligible: no transition, no second acknowledgement.
    assert_eq!(out.msgs.len(), 1);
    assert_eq!(out.msgs[0].topic, "room/0/send/prestart_get");
    assert_eq!(out.msgs[0].msg, "{\"room\":\"0\", \"id\":\"0\"}");
    assert!(e.users[0].isCanPreStart);
    assert!(e.users[1].isCanPreStart);
    assert_eq!(e.users[1].cnt, -1, "a repeated grant still unblocks the member");
    assert!(!e.users[2].isCanPreStart, "already pre-started member is skipped");
}

#[test]
fn prestart_broadcast_for_unknown_room_is_ignored() {
    let mut e = Engine::new(3, 3, 3000);
    let out = e.handle_event(UserEvent::PreStart(PreStartMsg {
        id: "7".to_string(),
        msg: "ok".to_string(),
    }));
    assert!(out.msgs.is_empty());
}

#[test]
fn tick_keeps_population_and_collects_commands() {
    let mut e = Engine::new(10, 3, 3000);
    let mut emitted = 0;
    for _ in 0..200 {
        let msgs = e.tick();
        emitted += msgs.len();
        for m in &msgs {
            assert!(m.topic.starts_with("member/") || m.topic.starts_with("room/"));
        }
    }
    assert_eq!(e.users.len(), 10);
    assert!(emitted > 0, "two hundred ticks drive some agent to act");
}
