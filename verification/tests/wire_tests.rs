use erps::event::GameOverData;
use erps::event::UserGift;
use erps::event::UserInfoData;
use erps::gamejson::game_info_json_of;
use erps::gamejson::game_over_json_of;
use erps::gamejson::json_str_list_of;
use erps::gamejson::user_info_json_of;
use erps::u64_dec;

#[test]
fn decimal_rendering() {
    assert_eq!(u64_dec(0), "0");
    assert_eq!(u64_dec(7), "7");
    assert_eq!(u64_dec(10), "10");
    assert_eq!(u64_dec(305), "305");
    assert_eq!(u64_dec(18446744073709551615), "18446744073709551615");
}

#[test]
fn string_list_rendering() {
    let none: Vec<String> = Vec::new();
    assert_eq!(json_str_list_of(&none), "[]");
    let one = vec!["a".to_string()];
    assert_eq!(json_str_list_of(&one), "[\"a\"]");
    let three = vec!["x".to_string(), "y".to_string(), "z".to_string()];
    assert_eq!(json_str_list_of(&three), "[\"x\",\"y\",\"z\"]");
}

#[test]
fn game_over_payload_shape() {
    let d = GameOverData {
        game: 3,
        win: vec!["1".to_string(), "2".to_string()],
        lose: vec!["4".to_string()],
    };
    assert_eq!(
        game_over_json_of(&d),
        "{\"game\":3,\"lose\":[\"4\"],\"win\":[\"1\",\"2\"]}"
    );
}

fn sample_info() -> UserInfoData {
    UserInfoData {
        id: "3".to_string(),
        hero: "freyja".to_string(),
        level: 14,
        equ: vec!["bz".to_string(), "uti".to_string(), "666".to_string()],
        damage: 1500,
        take_damage: 2000,
        heal: 700,
        kill: 2,
        death: 1,
        assist: 4,
        gift: UserGift { A: 1, B: 0, C: 3, D: 2, E: 0 },
    }
}

#[test]
fn user_info_payload_shape() {
    let expected = "{\"assist\":4,\"damage\":1500,\"death\":1,\"equ\":[\"bz\",\"uti\",\"666\"],\"gift\":{\"A\":1,\"B\":0,\"C\":3,\"D\":2,\"E\":0},\"heal\":700,\"hero\":\"freyja\",\"id\":\"3\",\"kill\":2,\"level\":14,\"take_damage\":2000}";
    assert_eq!(user_info_json_of(&sample_info()), expected);
}

#[test]
fn game_info_payload_is_valid_json() {
    let infos = vec![sample_info(), sample_info()];
    let rendered = game_info_json_of(7, &infos);
    let v: serde_json::Value = serde_json::from_str(&rendered).unwrap();
    assert_eq!(v["game"], 7);
    assert_eq!(v["users"].as_array().unwrap().len(), 2);
    assert_eq!(v["users"][0]["hero"], "freyja");
    assert_eq!(v["users"][1]["gift"]["C"], 3);
}

#[test]
fn game_over_payload_is_valid_json() {
    let d = GameOverData { game: 12, win: vec!["a".to_string()], lose: Vec::new() };
    let v: serde_json::Value = serde_json::from_str(&game_over_json_of(&d)).unwrap();
    assert_eq!(v["game"], 12);
    assert_eq!(v["win"][0], "a");
    assert_eq!(v["lose"].as_array().unwrap().len(), 0);
}

#[test]
fn outbound_command_construction() {
    let m = erps::MqttMsg::new("t".to_string(), "p".to_string());
    assert_eq!(m.topic, "t");
    assert_eq!(m.msg, "p");
}
