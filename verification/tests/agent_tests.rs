use erps::user::User;
use erps::user::QUIET_LIMIT;

fn fresh(id: &str) -> User {
    User::new(id.to_string())
}

#[test]
fn new_user_starts_clean() {
    let u = fresh("7");
    assert_eq!(u.id, "7");
    assert_eq!(u.hero, "");
    assert_eq!(u.room, "");
    assert_eq!(u.cnt, -1);
    assert!(!u.isLogin);
    assert!(!u.isInRoom);
    assert!(!u.isRoomCreater);
    assert!(!u.isChooseNGHero);
    assert!(!u.isStartQueue);
    assert!(!u.isCanPreStart);
    assert!(!u.isPreStart);
    assert!(!u.isPlaying);
}

#[test]
fn login_emits_only_when_logged_out() {
    let mut u = fresh("3");
    let cmd = u.login().expect("logged-out agent asks to log in");
    assert_eq!(cmd.topic, "member/3/send/login");
    assert_eq!(cmd.msg, "{\"id\":\"3\"}");
    u.isLogin = true;
    assert!(u.login().is_none());
}

#[test]
fn logout_emits_only_when_logged_in() {
    let mut u = fresh("3");
    assert!(u.logout().is_none());
    u.isLogin = true;
    let cmd = u.logout().expect("logged-in agent can ask to log out");
    assert_eq!(cmd.topic, "member/3/send/logout");
    assert_eq!(cmd.msg, "{\"id\":\"3\"}");
}

#[test]
fn choose_hero_remembers_and_asks_once() {
    let mut u = fresh("5");
    let cmd = u.choose_hero("freyja".to_string()).expect("hero not yet confirmed");
    assert_eq!(cmd.topic, "member/5/send/choose_hero");
    assert_eq!(cmd.msg, "{\"id\":\"5\", \"hero\":\"freyja\"}");
    assert_eq!(u.hero, "freyja");
    u.isChooseNGHero = true;
    assert!(u.choose_hero("odin".to_string()).is_none());
    assert_eq!(u.hero, "odin");
}

#[test]
fn create_names_room_after_self() {
    let mut u = fresh("4");
    let cmd = u.create().expect("agent outside a room can create one");
    assert_eq!(cmd.topic, "room/4/send/create");
    assert_eq!(cmd.msg, "{\"id\":\"4\"}");
    assert_eq!(u.room, "4");
    u.isInRoom = true;
    assert!(u.create().is_none());
}

#[test]
fn get_create_marks_ownership() {
    let mut u = fresh("4");
    u.get_create();
    assert!(u.isInRoom);
    assert!(u.isRoomCreater);
    assert_eq!(u.room, "4");
}

#[test]
fn get_join_records_room() {
    let mut u = fresh("2");
    u.get_join("9".to_string());
    assert!(u.isInRoom);
    assert_eq!(u.room, "9");
}

#[test]
fn close_and_get_close() {
    let mut u = fresh("4");
    assert!(u.close().is_none());
    u.get_create();
    let cmd = u.close().expect("room member can ask to close");
    assert_eq!(cmd.topic, "room/4/send/close");
    assert_eq!(cmd.msg, "{\"id\":\"4\"}");
    u.get_close();
    assert!(!u.isInRoom);
    assert_eq!(u.room, "");
}

#[test]
fn start_queue_uses_room_topic() {
    let mut u = fresh("6");
    u.get_join("2".to_string());
    let cmd = u.start_queue().expect("unqueued agent asks to queue");
    assert_eq!(cmd.topic, "room/2/send/start_queue");
    assert_eq!(cmd.msg, "{\"id\":\"6\", \"action\":\"start queue\"}");
    u.get_start_queue();
    assert!(u.isStartQueue);
    assert!(u.start_queue().is_none());
}

#[test]
fn prestart_needs_grant_and_not_yet_accepted() {
    let mut u = fresh("8");
    u.get_join("1".to_string());
    assert!(u.prestart().is_none());
    u.isCanPreStart = true;
    let cmd = u.prestart().expect("granted agent accepts pre-start");
    assert_eq!(cmd.topic, "room/8/send/prestart");
    assert_eq!(cmd.msg, "{\"room\":\"1\", \"id\":\"8\", \"accept\":true}");
    u.isPreStart = true;
    assert!(u.prestart().is_none());
}

#[test]
fn get_prestart_grant_acknowledges_immediately() {
    let mut u = fresh("8");
    u.get_join("1".to_string());
    let cmd = u.get_prestart(true).expect("a grant is acknowledged at once");
    assert_eq!(cmd.topic, "room/8/send/prestart_get");
    assert_eq!(cmd.msg, "{\"room\":\"1\", \"id\":\"8\"}");
    assert!(u.isCanPreStart);
}

#[test]
fn get_prestart_repeated_grant_acknowledges_once() {
    let mut u = fresh("8");
    u.get_join("1".to_string());
    assert!(u.get_prestart(true).is_some());
    // Already eligible: a second grant is no transition and is not
    // acknowledged again.
    assert!(u.get_prestart(true).is_none());
    assert!(u.isCanPreStart);
}

#[test]
fn get_prestart_denial_clears_both_flags() {
    let mut u = fresh("8");
    u.isCanPreStart = true;
    u.isPreStart = true;
    assert!(u.get_prestart(false).is_none());
    assert!(!u.isCanPreStart);
    assert!(!u.isPreStart);
}

#[test]
fn start_get_confirms_prestart() {
    let mut u = fresh("8");
    u.start_get();
    assert!(u.isPreStart);
}

#[test]
fn game_over_is_idempotent_and_keeps_hero_and_login() {
    let mut u = fresh("1");
    u.get_login();
    u.get_choose_hero("freyja".to_string());
    u.get_create();
    u.get_start_queue();
    u.isCanPreStart = true;
    u.isPreStart = true;
    u.isPlaying = true;
    u.game_over();
    let once = format!("{:?}", u);
    u.game_over();
    let twice = format!("{:?}", u);
    assert_eq!(once, twice);
    assert!(u.isLogin);
    assert_eq!(u.hero, "freyja");
    assert!(!u.isStartQueue);
    assert!(!u.isPreStart);
    assert!(!u.isPlaying);
    assert!(!u.isInRoom);
    assert!(!u.isRoomCreater);
    assert!(!u.isCanPreStart);
}

#[test]
fn login_logout_round_trip_restores_initial_flags() {
    let mut u = fresh("1");
    u.cnt = -1;
    u.get_login();
    assert!(u.isLogin);
    u.get_logout();
    let f = fresh("1");
    assert_eq!(u.isLogin, f.isLogin);
    assert_eq!(u.isChooseNGHero, f.isChooseNGHero);
    assert_eq!(u.isStartQueue, f.isStartQueue);
    assert_eq!(u.isPreStart, f.isPreStart);
    assert_eq!(u.isPlaying, f.isPlaying);
    assert_eq!(u.isInRoom, f.isInRoom);
    assert_eq!(u.isRoomCreater, f.isRoomCreater);
    assert_eq!(u.isCanPreStart, f.isCanPreStart);
    assert_eq!(u.room, f.room);
}

#[test]
fn logout_resets_whole_session() {
    let mut u = fresh("1");
    u.get_login();
    u.get_choose_hero("freyja".to_string());
    u.get_join("4".to_string());
    u.get_start_queue();
    u.isCanPreStart = true;
    u.isPreStart = true;
    u.isPlaying = true;
    u.get_logout();
    assert!(!u.isLogin);
    assert!(!u.isChooseNGHero);
    assert!(!u.isStartQueue);
    assert!(!u.isPreStart);
    assert!(!u.isPlaying);
    assert!(!u.isInRoom);
    assert!(!u.isRoomCreater);
    assert!(!u.isCanPreStart);
    assert_eq!(u.room, "");
    assert_eq!(u.hero, "freyja");
}

#[test]
fn afk_forgets_session_but_not_room() {
    let mut u = fresh("1");
    u.get_login();
    u.get_choose_hero("freyja".to_string());
    u.get_create();
    u.get_start_queue();
    u.afk();
    assert!(!u.isLogin);
    assert!(!u.isChooseNGHero);
    assert!(!u.isStartQueue);
    assert!(!u.isPreStart);
    assert!(!u.isPlaying);
    assert!(u.isInRoom);
    assert!(u.isRoomCreater);
}

#[test]
fn back_action_logs_out_first() {
    let mut u = fresh("1");
    u.get_login();
    let cmd = u.back_action().expect("logged-in agent winds down by logging out");
    assert_eq!(cmd.topic, "member/1/send/logout");
}

#[test]
fn back_action_closes_owned_room_when_logged_out() {
    let mut u = fresh("1");
    u.get_create();
    let cmd = u.back_action().expect("room owner winds down by closing");
    assert_eq!(cmd.topic, "room/1/send/close");
}

#[test]
fn debounce_window_stays_silent() {
    // After an emission the counter sits at 0; for the next QUIET_LIMIT - 1
    // counter values no call emits, whatever the skip gate draws.
    let mut u = fresh("1");
    let mut rooms = erps::registry::RoomRegistry::new(3);
    u.cnt = 0;
    for _ in 0..(QUIET_LIMIT - 1) {
        assert!(u.next_action(&mut rooms).is_none());
    }
    assert!(u.cnt <= QUIET_LIMIT);
}

#[test]
fn unblocked_agent_eventually_asks_to_log_in() {
    let mut u = fresh("1");
    let mut rooms = erps::registry::RoomRegistry::new(3);
    u.cnt = -1;
    let mut emitted = None;
    for _ in 0..10000 {
        if let Some(m) = u.next_action(&mut rooms) {
            emitted = Some(m);
            break;
        }
        u.cnt = -1;
    }
    let m = emitted.expect("the skip gate cannot defer forever");
    assert_eq!(m.topic, "member/1/send/login");
    assert_eq!(u.cnt, 0);
}

#[test]
fn decide_step_emits_one_command_for_first_unmet_stage() {
    let mut u = fresh("1");
    let mut rooms = erps::registry::RoomRegistry::new(3);
    let cmd = u.decide_step(&mut rooms, true, 0).expect("first unmet stage is login");
    assert_eq!(cmd.topic, "member/1/send/login");
    assert_eq!(u.cnt, 0);

    u.get_login();
    let cmd = u.decide_step(&mut rooms, true, 0).expect("next unmet stage is the hero");
    assert_eq!(cmd.topic, "member/1/send/choose_hero");

    u.get_choose_hero("freyja".to_string());
    let cmd = u.decide_step(&mut rooms, true, 0).expect("then the room");
    assert_eq!(cmd.topic, "room/1/send/create");
    assert_eq!(rooms.len(), 1);

    u.get_create();
    let cmd = u.decide_step(&mut rooms, true, 0).expect("then the queue");
    assert_eq!(cmd.topic, "room/1/send/start_queue");

    u.get_start_queue();
    assert!(u.decide_step(&mut rooms, true, 0).is_none());

    u.isCanPreStart = true;
    let cmd = u.decide_step(&mut rooms, true, 0).expect("finally pre-start");
    assert_eq!(cmd.topic, "room/1/send/prestart");
}

#[test]
fn decide_step_joins_an_open_room() {
    let mut owner = fresh("0");
    let mut rooms = erps::registry::RoomRegistry::new(3);
    owner.get_login();
    owner.get_choose_hero("freyja".to_string());
    owner.decide_step(&mut rooms, true, 0);

    let mut joiner = fresh("1");
    joiner.get_login();
    joiner.get_choose_hero("freyja".to_string());
    let cmd = joiner.decide_step(&mut rooms, false, 0).expect("open room is joinable");
    assert_eq!(cmd.topic, "room/1/send/join");
    assert_eq!(cmd.msg, "{\"room\":\"0\", \"join\":\"1\"}");
}
