//! The outbound wire shapes: one spec function per topic pattern and per JSON
//! payload, and verified builders producing the corresponding [`MqttMsg`].
//!
//! Topics follow `<namespace>/<id>/send/<action>`; payloads are ASCII JSON
//! text whose field names match what the backend's consumers expect.

use vstd::prelude::*;

use crate::msg::MqttMsg;
use crate::text::concat3;
use crate::text::concat5;
use crate::text::dec_str;
use crate::text::u64_dec;

verus! {

pub open spec fn login_topic(id: Seq<char>) -> Seq<char> {
    "member/"@ + id + "/send/login"@
}

pub open spec fn logout_topic(id: Seq<char>) -> Seq<char> {
    "member/"@ + id + "/send/logout"@
}

pub open spec fn choose_hero_topic(id: Seq<char>) -> Seq<char> {
    "member/"@ + id + "/send/choose_hero"@
}

pub open spec fn create_topic(id: Seq<char>) -> Seq<char> {
    "room/"@ + id + "/send/create"@
}

pub open spec fn close_topic(id: Seq<char>) -> Seq<char> {
    "room/"@ + id + "/send/close"@
}

pub open spec fn join_topic(id: Seq<char>) -> Seq<char> {
    "room/"@ + id + "/send/join"@
}

pub open spec fn start_queue_topic(room: Seq<char>) -> Seq<char> {
    "room/"@ + room + "/send/start_queue"@
}

pub open spec fn prestart_topic(id: Seq<char>) -> Seq<char> {
    "room/"@ + id + "/send/prestart"@
}

pub open spec fn prestart_get_topic(id: Seq<char>) -> Seq<char> {
    "room/"@ + id + "/send/prestart_get"@
}

pub open spec fn start_game_topic(game: nat) -> Seq<char> {
    "game/"@ + dec_str(game) + "/send/start_game"@
}

pub open spec fn game_over_topic(game: nat) -> Seq<char> {
    "game/"@ + dec_str(game) + "/send/game_over"@
}

pub open spec fn game_info_topic(game: nat) -> Seq<char> {
    "game/"@ + dec_str(game) + "/send/game_info"@
}

/// `{"id":"<id>"}`
pub open spec fn id_payload(id: Seq<char>) -> Seq<char> {
    "{\"id\":\""@ + id + "\"}"@
}

/// `{"id":"<id>", "hero":"<hero>"}`
pub open spec fn hero_payload(id: Seq<char>, hero: Seq<char>) -> Seq<char> {
    "{\"id\":\""@ + id + "\", \"hero\":\""@ + hero + "\"}"@
}

/// `{"room":"<room>", "join":"<id>"}`
pub open spec fn join_payload(room: Seq<char>, id: Seq<char>) -> Seq<char> {
    "{\"room\":\""@ + room + "\", \"join\":\""@ + id + "\"}"@
}

/// `{"id":"<id>", "action":"start queue"}`
pub open spec fn start_queue_payload(id: Seq<char>) -> Seq<char> {
    "{\"id\":\""@ + id + "\", \"action\":\"start queue\"}"@
}

/// `{"room":"<room>", "id":"<id>", "accept":true}`
pub open spec fn prestart_payload(room: Seq<char>, id: Seq<char>) -> Seq<char> {
    "{\"room\":\""@ + room + "\", \"id\":\""@ + id + "\", \"accept\":true}"@
}

/// `{"room":"<room>", "id":"<id>"}`
pub open spec fn prestart_get_payload(room: Seq<char>, id: Seq<char>) -> Seq<char> {
    "{\"room\":\""@ + room + "\", \"id\":\""@ + id + "\"}"@
}

/// `{"game":<game>,"action":"init"}`
pub open spec fn start_game_payload(game: nat) -> Seq<char> {
    "{\"game\":"@ + dec_str(game) + ",\"action\":\"init\"}"@
}

pub fn login_cmd(id: &String) -> (m: MqttMsg)
    ensures
        m.topic@ == login_topic(id@),
        m.msg@ == id_payload(id@),
{
    MqttMsg {
        topic: concat3("member/", id.as_str(), "/send/login"),
        msg: concat3("{\"id\":\"", id.as_str(), "\"}"),
    }
}

pub fn logout_cmd(id: &String) -> (m: MqttMsg)
    ensures
        m.topic@ == logout_topic(id@),
        m.msg@ == id_payload(id@),
{
    MqttMsg {
        topic: concat3("member/", id.as_str(), "/send/logout"),
        msg: concat3("{\"id\":\"", id.as_str(), "\"}"),
    }
}

pub fn choose_hero_cmd(id: &String, hero: &String) -> (m: MqttMsg)
    ensures
        m.topic@ == choose_hero_topic(id@),
        m.msg@ == hero_payload(id@, hero@),
{
    MqttMsg {
        topic: concat3("member/", id.as_str(), "/send/choose_hero"),
        msg: concat5("{\"id\":\"", id.as_str(), "\", \"hero\":\"", hero.as_str(), "\"}"),
    }
}

pub fn create_cmd(id: &String) -> (m: MqttMsg)
    ensures
        m.topic@ == create_topic(id@),
        m.msg@ == id_payload(id@),
{
    MqttMsg {
        topic: concat3("room/", id.as_str(), "/send/create"),
        msg: concat3("{\"id\":\"", id.as_str(), "\"}"),
    }
}

pub fn close_cmd(id: &String) -> (m: MqttMsg)
    ensures
        m.topic@ == close_topic(id@),
        m.msg@ == id_payload(id@),
{
    MqttMsg {
        topic: concat3("room/", id.as_str(), "/send/close"),
        msg: concat3("{\"id\":\"", id.as_str(), "\"}"),
    }
}

pub fn join_cmd(id: &String, room: &String) -> (m: MqttMsg)
    ensures
        m.topic@ == join_topic(id@),
        m.msg@ == join_payload(room@, id@),
{
    MqttMsg {
        topic: concat3("room/", id.as_str(), "/send/join"),
        msg: concat5("{\"room\":\"", room.as_str(), "\", \"join\":\"", id.as_str(), "\"}"),
    }
}

pub fn start_queue_cmd(id: &String, room: &String) -> (m: MqttMsg)
    ensures
        m.topic@ == start_queue_topic(room@),
        m.msg@ == start_queue_payload(id@),
{
    MqttMsg {
        topic: concat3("room/", room.as_str(), "/send/start_queue"),
        msg: concat3("{\"id\":\"", id.as_str(), "\", \"action\":\"start queue\"}"),
    }
}

pub fn prestart_cmd(id: &String, room: &String) -> (m: MqttMsg)
    ensures
        m.topic@ == prestart_topic(id@),
        m.msg@ == prestart_payload(room@, id@),
{
    MqttMsg {
        topic: concat3("room/", id.as_str(), "/send/prestart"),
        msg: concat5("{\"room\":\"", room.as_str(), "\", \"id\":\"", id.as_str(), "\", \"accept\":true}"),
    }
}

pub fn prestart_get_cmd(id: &String, room: &String) -> (m: MqttMsg)
    ensures
        m.topic@ == prestart_get_topic(id@),
        m.msg@ == prestart_get_payload(room@, id@),
{
    MqttMsg {
        topic: concat3("room/", id.as_str(), "/send/prestart_get"),
        msg: concat5("{\"room\":\"", room.as_str(), "\", \"id\":\"", id.as_str(), "\"}"),
    }
}

pub fn start_game_cmd(game: u32) -> (m: MqttMsg)
    ensures
        m.topic@ == start_game_topic(game as nat),
        m.msg@ == start_game_payload(game as nat),
{
    let g = u64_dec(game as u64);
    MqttMsg {
        topic: concat3("game/", g.as_str(), "/send/start_game"),
        msg: concat3("{\"game\":", g.as_str(), ",\"action\":\"init\"}"),
    }
}

} // verus!
