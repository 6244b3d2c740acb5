//! The closed set of inbound notifications the engine reacts to, and the data
//! records carried by the aggregate outbound summaries.
//!
//! Each `...Res` struct is the decoded JSON payload of one acknowledgement
//! topic; each `...Msg` struct pairs that payload with the identifier the
//! adapter extracted from the topic string.

use vstd::prelude::*;

verus! {

#[derive(Clone, Debug)]
pub struct LoginRes {
    pub msg: String,
}

#[derive(Clone, Debug)]
pub struct LoginMsg {
    pub id: String,
    pub msg: String,
}

#[derive(Clone, Debug)]
pub struct LogoutRes {
    pub msg: String,
}

#[derive(Clone, Debug)]
pub struct LogoutMsg {
    pub id: String,
    pub msg: String,
}

#[derive(Clone, Debug)]
pub struct CreateRoomRes {
    pub msg: String,
}

#[derive(Clone, Debug)]
pub struct CreateRoomMsg {
    pub id: String,
    pub msg: String,
}

#[derive(Clone, Debug)]
pub struct CloseRoomRes {
    pub msg: String,
}

#[derive(Clone, Debug)]
pub struct CloseRoomMsg {
    pub room: String,
    pub msg: String,
}

#[derive(Clone, Debug)]
pub struct UserNGHeroRes {
    pub id: String,
    pub hero: String,
}

#[derive(Clone, Debug)]
pub struct UserNGHeroMsg {
    pub id: String,
    pub hero: String,
}

#[derive(Clone, Debug)]
pub struct InviteRes {
    pub msg: String,
}

#[derive(Clone, Debug)]
pub struct InviteMsg {
    pub id: String,
    pub msg: String,
}

#[derive(Clone, Debug)]
pub struct StartQueueRes {
    pub msg: String,
}

#[derive(Clone, Debug)]
pub struct StartQueueMsg {
    pub id: String,
    pub msg: String,
}

#[derive(Clone, Debug)]
pub struct PreStartRes {
    pub msg: String,
}

#[derive(Clone, Debug)]
pub struct PreStartMsg {
    pub id: String,
    pub msg: String,
}

#[derive(Clone, Debug)]
pub struct JoinRes {
    pub room: String,
    pub msg: String,
}

#[derive(Clone, Debug)]
pub struct JoinMsg {
    pub id: String,
    pub room: String,
    pub msg: String,
}

#[derive(Clone, Debug)]
pub struct StartRes {
    pub game: u32,
    pub room: String,
    pub msg: String,
}

#[derive(Clone, Debug)]
pub struct StartGetMsg {
    pub id: String,
    pub msg: String,
}

/// The authoritative roster handed down with a `StartGame` event.
#[derive(Clone, Debug)]
pub struct StartGameRes {
    pub game: u32,
    pub member: Vec<HeroCell>,
}

/// One roster entry. The engine reads only `id` and `team`; the remaining
/// fields ride along for the transport layer's benefit. The buff table of the
/// wire shape is floating-point data the engine never reads, so the adapter
/// keeps it outside this record.
#[derive(Clone, Debug)]
pub struct HeroCell {
    pub id: String,
    pub team: u16,
    pub name: String,
    pub hero: String,
    pub tags: Vec<String>,
}

#[derive(Clone, Debug)]
pub struct GameSingalRes {
    pub game: u32,
}

/// The game-over summary: which roster members won and which lost.
#[derive(Clone, Debug)]
pub struct GameOverData {
    pub game: u32,
    pub win: Vec<String>,
    pub lose: Vec<String>,
}

/// The game-info summary: one synthesized statistics record per roster member.
#[derive(Clone, Debug)]
pub struct GameInfoData {
    pub game: u32,
    pub users: Vec<UserInfoData>,
}

/// Synthesized per-user match statistics.
#[derive(Clone, Debug)]
pub struct UserInfoData {
    pub id: String,
    pub hero: String,
    pub level: u16,
    pub equ: Vec<String>,
    pub damage: u16,
    pub take_damage: u16,
    pub heal: u16,
    pub kill: u16,
    pub death: u16,
    pub assist: u16,
    pub gift: UserGift,
}

/// Five independent gift counters.
#[allow(non_snake_case)]
#[derive(Clone, Debug)]
pub struct UserGift {
    pub A: u16,
    pub B: u16,
    pub C: u16,
    pub D: u16,
    pub E: u16,
}

/// Every inbound notification the engine reacts to.
pub enum UserEvent {
    Login(LoginMsg),
    Logout(LogoutMsg),
    Create(CreateRoomMsg),
    Close(CloseRoomMsg),
    ChooseNGHero(UserNGHeroMsg),
    Invite(InviteMsg),
    StartQueue(StartQueueMsg),
    PreStart(PreStartMsg),
    Join(JoinMsg),
    StartGame(StartGameRes),
    Start(StartRes),
    StartGet(StartGetMsg),
    GameSingal(GameSingalRes),
}


/// The mathematical model of a roster entry.
pub ghost struct HeroCellView {
    pub id: Seq<char>,
    pub team: int,
    pub name: Seq<char>,
    pub hero: Seq<char>,
    pub tags: Seq<Seq<char>>,
}

impl View for HeroCell {
    type V = HeroCellView;

    open spec fn view(&self) -> HeroCellView {
        HeroCellView {
            id: self.id@,
            team: self.team as int,
            name: self.name@,
            hero: self.hero@,
            tags: self.tags@.map_values(|s: String| s@),
        }
    }
}

/// The mathematical model of a statistics record, gift counters inlined.
#[allow(non_snake_case)]
pub ghost struct UserInfoView {
    pub id: Seq<char>,
    pub hero: Seq<char>,
    pub level: int,
    pub equ: Seq<Seq<char>>,
    pub damage: int,
    pub take_damage: int,
    pub heal: int,
    pub kill: int,
    pub death: int,
    pub assist: int,
    pub giftA: int,
    pub giftB: int,
    pub giftC: int,
    pub giftD: int,
    pub giftE: int,
}

impl View for UserInfoData {
    type V = UserInfoView;

    open spec fn view(&self) -> UserInfoView {
        UserInfoView {
            id: self.id@,
            hero: self.hero@,
            level: self.level as int,
            equ: self.equ@.map_values(|s: String| s@),
            damage: self.damage as int,
            take_damage: self.take_damage as int,
            heal: self.heal as int,
            kill: self.kill as int,
            death: self.death as int,
            assist: self.assist as int,
            giftA: self.gift.A as int,
            giftB: self.gift.B as int,
            giftC: self.gift.C as int,
            giftD: self.gift.D as int,
            giftE: self.gift.E as int,
        }
    }
}

} // verus!
