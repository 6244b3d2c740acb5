//! The per-player agent: session state and the pure decision logic for "what
//! should I do given my current state".
//!
//! An agent advances autonomously on ticks ([`User::next_action`]) and
//! transitions on backend acknowledgements (the `get_*` methods, driven by the
//! engine). A debounce counter suppresses autonomous action while a request is
//! presumed in flight; applying any acknowledgement clears it (the engine
//! resets the counter on every event it routes to an agent).

use vstd::prelude::*;

use crate::msg::opt_cmd;
use crate::msg::MqttMsg;
use crate::registry::create_spec;
use crate::registry::RoomRecord;
use crate::registry::RoomRecordView;
use crate::registry::RoomRegistry;
use crate::rng::rand_below;
use crate::wire;

verus! {

/// Ticks of silence after an autonomous command before the agent resumes
/// decision-making on its own.
pub const QUIET_LIMIT: i32 = 10;

/// One simulated player.
#[allow(non_snake_case)]
#[derive(Debug)]
pub struct User {
    pub id: String,
    pub hero: String,
    pub room: String,
    pub cnt: i32,
    pub isLogin: bool,
    pub isInRoom: bool,
    pub isRoomCreater: bool,
    pub isChooseNGHero: bool,
    pub isStartQueue: bool,
    pub isCanPreStart: bool,
    pub isPreStart: bool,
    pub isPlaying: bool,
}

/// The mathematical model of an agent: strings as character sequences, the
/// counter as an integer.
#[allow(non_snake_case)]
#[verifier::ext_equal]
pub ghost struct UserView {
    pub id: Seq<char>,
    pub hero: Seq<char>,
    pub room: Seq<char>,
    pub cnt: int,
    pub isLogin: bool,
    pub isInRoom: bool,
    pub isRoomCreater: bool,
    pub isChooseNGHero: bool,
    pub isStartQueue: bool,
    pub isCanPreStart: bool,
    pub isPreStart: bool,
    pub isPlaying: bool,
}

impl View for User {
    type V = UserView;

    open spec fn view(&self) -> UserView {
        UserView {
            id: self.id@,
            hero: self.hero@,
            room: self.room@,
            cnt: self.cnt as int,
            isLogin: self.isLogin,
            isInRoom: self.isInRoom,
            isRoomCreater: self.isRoomCreater,
            isChooseNGHero: self.isChooseNGHero,
            isStartQueue: self.isStartQueue,
            isCanPreStart: self.isCanPreStart,
            isPreStart: self.isPreStart,
            isPlaying: self.isPlaying,
        }
    }
}

/// A freshly created agent: no session flags set, debounce cleared, empty
/// hero and room.
pub open spec fn initial_user(id: Seq<char>) -> UserView {
    UserView {
        id: id,
        hero: Seq::empty(),
        room: Seq::empty(),
        cnt: -1,
        isLogin: false,
        isInRoom: false,
        isRoomCreater: false,
        isChooseNGHero: false,
        isStartQueue: false,
        isCanPreStart: false,
        isPreStart: false,
        isPlaying: false,
    }
}

/// The debounce window is active: the agent skips autonomous decisions and
/// only advances the counter.
pub open spec fn in_quiet(u: UserView) -> bool {
    0 <= u.cnt < QUIET_LIMIT
}

/// The hero every agent asks for by default.
pub open spec fn default_hero() -> Seq<char> {
    "freyja"@
}

/// Resetting toward game completion: matchmaking flags cleared, hero and
/// login kept, so the agent immediately re-enters matchmaking.
pub open spec fn game_over_spec(u: UserView) -> UserView {
    UserView {
        isStartQueue: false,
        isPreStart: false,
        isPlaying: false,
        isInRoom: false,
        isRoomCreater: false,
        isCanPreStart: false,
        ..u
    }
}

/// A logout acknowledgement: every session flag falls back to its initial
/// value and the room is cleared; only the id, the hero name and the debounce
/// counter survive.
pub open spec fn get_logout_spec(u: UserView) -> UserView {
    UserView {
        room: Seq::empty(),
        isLogin: false,
        isChooseNGHero: false,
        isStartQueue: false,
        isPreStart: false,
        isPlaying: false,
        isInRoom: false,
        isRoomCreater: false,
        isCanPreStart: false,
        ..u
    }
}

/// A login acknowledgement.
pub open spec fn get_login_spec(u: UserView) -> UserView {
    UserView { isLogin: true, ..u }
}

pub open spec fn login_decision(u: UserView) -> Option<(Seq<char>, Seq<char>)> {
    if !u.isLogin {
        Some((wire::login_topic(u.id), wire::id_payload(u.id)))
    } else {
        None
    }
}

pub open spec fn logout_decision(u: UserView) -> Option<(Seq<char>, Seq<char>)> {
    if u.isLogin {
        Some((wire::logout_topic(u.id), wire::id_payload(u.id)))
    } else {
        None
    }
}

pub open spec fn choose_hero_decision(u: UserView, hero: Seq<char>) -> Option<
    (Seq<char>, Seq<char>),
> {
    if !u.isChooseNGHero {
        Some((wire::choose_hero_topic(u.id), wire::hero_payload(u.id, hero)))
    } else {
        None
    }
}

pub open spec fn create_decision(u: UserView) -> Option<(Seq<char>, Seq<char>)> {
    if !u.isInRoom {
        Some((wire::create_topic(u.id), wire::id_payload(u.id)))
    } else {
        None
    }
}

pub open spec fn close_decision(u: UserView) -> Option<(Seq<char>, Seq<char>)> {
    if u.isInRoom {
        Some((wire::close_topic(u.id), wire::id_payload(u.id)))
    } else {
        None
    }
}

pub open spec fn join_decision(u: UserView, room: Seq<char>) -> Option<(Seq<char>, Seq<char>)> {
    if !u.isInRoom {
        Some((wire::join_topic(u.id), wire::join_payload(room, u.id)))
    } else {
        None
    }
}

pub open spec fn start_queue_decision(u: UserView) -> Option<(Seq<char>, Seq<char>)> {
    if !u.isStartQueue {
        Some((wire::start_queue_topic(u.room), wire::start_queue_payload(u.id)))
    } else {
        None
    }
}

pub open spec fn prestart_decision(u: UserView) -> Option<(Seq<char>, Seq<char>)> {
    if u.isCanPreStart && !u.isPreStart {
        Some((wire::prestart_topic(u.id), wire::prestart_payload(u.room, u.id)))
    } else {
        None
    }
}

/// What one eligible decision step does, given the two draws it consumes: the
/// create-or-join coin and the position offered by the registry. Returns the
/// agent afterwards, the registry afterwards and the command emitted, if any.
pub open spec fn decide_spec(
    u: UserView,
    rs: Seq<RoomRecordView>,
    team: int,
    make_room: bool,
    pick: int,
) -> (UserView, Seq<RoomRecordView>, Option<(Seq<char>, Seq<char>)>) {
    if !u.isLogin {
        (UserView { cnt: 0, ..u }, rs, login_decision(u))
    } else if !u.isChooseNGHero {
        (UserView { cnt: 0, hero: default_hero(), ..u }, rs, choose_hero_decision(
            u,
            default_hero(),
        ))
    } else if !u.isInRoom {
        if make_room {
            (UserView { cnt: 0, room: u.id, ..u }, create_spec(rs, u.id), create_decision(u))
        } else if rs.len() > 0 {
            if rs[pick].ids.len() < team {
                (UserView { cnt: 0, ..u }, rs, join_decision(u, rs[pick].id))
            } else {
                (UserView { cnt: 0, ..u }, rs, None)
            }
        } else {
            (UserView { cnt: 0, ..u }, rs, None)
        }
    } else if !u.isStartQueue {
        (UserView { cnt: 0, ..u }, rs, start_queue_decision(u))
    } else if u.isCanPreStart {
        (UserView { cnt: 0, ..u }, rs, prestart_decision(u))
    } else {
        (UserView { cnt: 0, ..u }, rs, None)
    }
}

/// Every outcome one call of [`User::next_action`] may have: the skip gate
/// fires and nothing changes; the debounce window advances; or one eligible
/// decision step runs with some pair of draws.
pub open spec fn next_action_rel(
    u: UserView,
    rs: Seq<RoomRecordView>,
    team: int,
    u2: UserView,
    rs2: Seq<RoomRecordView>,
    cmd: Option<(Seq<char>, Seq<char>)>,
) -> bool {
    ||| (u2 == u && rs2 == rs && cmd is None)
    ||| (in_quiet(u) && u2 == (UserView { cnt: u.cnt + 1, ..u }) && rs2 == rs && cmd is None)
    ||| (!in_quiet(u) && exists|make_room: bool, pick: int|
        0 <= pick && (rs.len() > 0 ==> pick < rs.len()) && (u2, rs2, cmd) == #[trigger] decide_spec(
            u,
            rs,
            team,
            make_room,
            pick,
        ))
}

impl User {
    pub fn new(id: String) -> (u: User)
        ensures
            u@ == initial_user(id@),
    {
        User {
            id,
            hero: String::new(),
            room: String::new(),
            cnt: -1,
            isLogin: false,
            isInRoom: false,
            isRoomCreater: false,
            isChooseNGHero: false,
            isStartQueue: false,
            isCanPreStart: false,
            isPreStart: false,
            isPlaying: false,
        }
    }

    /// Asks to log in, unless already logged in.
    pub fn login(&self) -> (cmd: Option<MqttMsg>)
        ensures
            opt_cmd(cmd) == login_decision(self@),
    {
        if !self.isLogin {
            Some(wire::login_cmd(&self.id))
        } else {
            None
        }
    }

    /// Asks to join the given room, unless already in a room.
    pub fn join(&self, room: &RoomRecord) -> (cmd: Option<MqttMsg>)
        ensures
            opt_cmd(cmd) == join_decision(self@, room@.id),
    {
        if !self.isInRoom {
            Some(wire::join_cmd(&self.id, &room.id))
        } else {
            None
        }
    }

    /// A confirmed join: the agent now belongs to the given room.
    pub fn get_join(&mut self, room: String)
        ensures
            final(self)@ == (UserView { isInRoom: true, room: room@, ..old(self)@ }),
    {
        self.isInRoom = true;
        self.room = room;
    }

    /// A login acknowledgement.
    pub fn get_login(&mut self)
        ensures
            final(self)@ == get_login_spec(old(self)@),
    {
        self.isLogin = true;
    }

    /// Asks to log out, if logged in.
    pub fn logout(&self) -> (cmd: Option<MqttMsg>)
        ensures
            opt_cmd(cmd) == logout_decision(self@),
    {
        if self.isLogin {
            Some(wire::logout_cmd(&self.id))
        } else {
            None
        }
    }

    /// The match finished: matchmaking flags reset, hero and login survive,
    /// so the agent re-enters matchmaking at the "needs room" stage.
    pub fn game_over(&mut self)
        ensures
            final(self)@ == game_over_spec(old(self)@),
    {
        self.isStartQueue = false;
        self.isPreStart = false;
        self.isPlaying = false;
        self.isInRoom = false;
        self.isRoomCreater = false;
        self.isCanPreStart = false;
    }

    /// A logout acknowledgement: session flags fall back to initial values,
    /// the room is cleared.
    pub fn get_logout(&mut self)
        ensures
            final(self)@ == get_logout_spec(old(self)@),
    {
        self.room = String::new();
        self.isLogin = false;
        self.isChooseNGHero = false;
        self.isStartQueue = false;
        self.isPreStart = false;
        self.isPlaying = false;
        self.isInRoom = false;
        self.isRoomCreater = false;
        self.isCanPreStart = false;
    }

    /// Remembers the hero and asks the backend for it, unless one was already
    /// confirmed.
    pub fn choose_hero(&mut self, hero: String) -> (cmd: Option<MqttMsg>)
        ensures
            final(self)@ == (UserView { hero: hero@, ..old(self)@ }),
            opt_cmd(cmd) == choose_hero_decision(old(self)@, hero@),
    {
        let cmd = if !self.isChooseNGHero {
            Some(wire::choose_hero_cmd(&self.id, &hero))
        } else {
            None
        };
        self.hero = hero;
        cmd
    }

    /// A hero acknowledgement.
    pub fn get_choose_hero(&mut self, hero: String)
        ensures
            final(self)@ == (UserView { hero: hero@, isChooseNGHero: true, ..old(self)@ }),
    {
        self.hero = hero;
        self.isChooseNGHero = true;
    }

    /// Randomized hero choice is an allowed extension; this build always asks
    /// for the default hero.
    pub fn choose_random_hero(&mut self)
        ensures
            *final(self) == *old(self),
    {
    }

    /// Announces a new room under the agent's own id, unless already in a
    /// room; the agent's room becomes its own id.
    pub fn create(&mut self) -> (cmd: Option<MqttMsg>)
        ensures
            final(self)@ == (if !old(self).isInRoom {
                UserView { room: old(self)@.id, ..old(self)@ }
            } else {
                old(self)@
            }),
            opt_cmd(cmd) == create_decision(old(self)@),
    {
        if !self.isInRoom {
            let cmd = Some(wire::create_cmd(&self.id));
            self.room = self.id.clone();
            cmd
        } else {
            None
        }
    }

    /// A create acknowledgement: the agent owns the room named by its id.
    pub fn get_create(&mut self)
        ensures
            final(self)@ == (UserView {
                isInRoom: true,
                room: old(self)@.id,
                isRoomCreater: true,
                ..old(self)@
            }),
    {
        self.isInRoom = true;
        self.room = self.id.clone();
        self.isRoomCreater = true;
    }

    /// Asks to close the agent's room, if in one.
    pub fn close(&self) -> (cmd: Option<MqttMsg>)
        ensures
            opt_cmd(cmd) == close_decision(self@),
    {
        if self.isInRoom {
            Some(wire::close_cmd(&self.id))
        } else {
            None
        }
    }

    /// A close acknowledgement: the agent leaves its room.
    pub fn get_close(&mut self)
        ensures
            final(self)@ == (UserView { isInRoom: false, room: Seq::empty(), ..old(self)@ }),
    {
        self.isInRoom = false;
        self.room = String::new();
    }

    /// Asks to start queueing the agent's room, unless already queued.
    pub fn start_queue(&self) -> (cmd: Option<MqttMsg>)
        ensures
            opt_cmd(cmd) == start_queue_decision(self@),
    {
        if !self.isStartQueue {
            Some(wire::start_queue_cmd(&self.id, &self.room))
        } else {
            None
        }
    }

    /// A queue acknowledgement.
    pub fn get_start_queue(&mut self)
        ensures
            final(self)@ == (UserView { isStartQueue: true, ..old(self)@ }),
    {
        self.isStartQueue = true;
    }

    /// A start acknowledgement: the agent's pre-start is confirmed.
    pub fn start_get(&mut self)
        ensures
            final(self)@ == (UserView { isPreStart: true, ..old(self)@ }),
    {
        self.isPreStart = true;
    }

    /// Accepts the pre-start offer, when eligible and not yet accepted.
    pub fn prestart(&self) -> (cmd: Option<MqttMsg>)
        ensures
            opt_cmd(cmd) == prestart_decision(self@),
    {
        if self.isCanPreStart && !self.isPreStart {
            Some(wire::prestart_cmd(&self.id, &self.room))
        } else {
            None
        }
    }

    /// A pre-start verdict. "stop queue" withdraws eligibility and clears the
    /// acceptance; any other verdict grants eligibility, and on the transition
    /// into eligibility the agent acknowledges at once with a pre-start-get
    /// command.
    pub fn get_prestart(&mut self, res: bool) -> (cmd: Option<MqttMsg>)
        ensures
            final(self)@ == (if res {
                UserView { isCanPreStart: true, ..old(self)@ }
            } else {
                UserView { isCanPreStart: false, isPreStart: false, ..old(self)@ }
            }),
            opt_cmd(cmd) == (if res && !old(self).isCanPreStart {
                Some(
                    (
                        wire::prestart_get_topic(old(self)@.id),
                        wire::prestart_get_payload(old(self)@.room, old(self)@.id),
                    ),
                )
            } else {
                None::<(Seq<char>, Seq<char>)>
            }),
    {
        let was = self.isCanPreStart;
        self.isCanPreStart = res;
        if !res {
            self.isPreStart = false;
            None
        } else if !was {
            Some(wire::prestart_get_cmd(&self.id, &self.room))
        } else {
            None
        }
    }

    /// Invitations are not part of this simulation; the event is accepted and
    /// ignored.
    pub fn invite(&mut self)
        ensures
            *final(self) == *old(self),
    {
    }

    /// An invite acknowledgement: accepted and ignored.
    pub fn get_invite(&mut self)
        ensures
            *final(self) == *old(self),
    {
    }

    /// The agent walks away: login, hero and queue progress are forgotten.
    pub fn afk(&mut self)
        ensures
            final(self)@ == (UserView {
                isLogin: false,
                isChooseNGHero: false,
                isStartQueue: false,
                isPreStart: false,
                isPlaying: false,
                ..old(self)@
            }),
    {
        self.isLogin = false;
        self.isChooseNGHero = false;
        self.isStartQueue = false;
        self.isPreStart = false;
        self.isPlaying = false;
    }

    /// Winds the session back down: logout first, else close an owned room,
    /// else queue, else accept pre-start.
    pub fn back_action(&self) -> (cmd: Option<MqttMsg>)
        ensures
            opt_cmd(cmd) == (if self@.isLogin {
                logout_decision(self@)
            } else if self@.isInRoom && self@.isRoomCreater {
                close_decision(self@)
            } else if !self@.isStartQueue {
                start_queue_decision(self@)
            } else if self@.isCanPreStart {
                prestart_decision(self@)
            } else {
                None
            }),
    {
        if self.isLogin {
            self.logout()
        } else if self.isInRoom && self.isRoomCreater {
            self.close()
        } else if !self.isStartQueue {
            self.start_queue()
        } else if self.isCanPreStart {
            self.prestart()
        } else {
            None
        }
    }

    /// One eligible decision step, with its two draws handed in: the first
    /// unmet stage acts, later stages wait for later ticks, and the debounce
    /// counter restarts at zero.
    pub fn decide_step(&mut self, rooms: &mut RoomRegistry, make_room: bool, pick: usize) -> (cmd:
        Option<MqttMsg>)
        requires
            old(rooms).wf(),
            old(rooms)@.len() > 0 ==> pick < old(rooms)@.len(),
        ensures
            final(rooms).wf(),
            final(rooms).team_size == old(rooms).team_size,
            (final(self)@, final(rooms)@, opt_cmd(cmd)) == decide_spec(
                old(self)@,
                old(rooms)@,
                old(rooms).team_size as int,
                make_room,
                pick as int,
            ),
    {
        let cmd = if !self.isLogin {
            self.login()
        } else if !self.isChooseNGHero {
            self.choose_hero("freyja".to_owned())
        } else if !self.isInRoom {
            if make_room {
                let c = self.create();
                rooms.create(self.id.clone());
                c
            } else if rooms.len() > 0 {
                match rooms.pick_joinable(pick) {
                    Some(rr) => self.join(rr),
                    None => None,
                }
            } else {
                None
            }
        } else if !self.isStartQueue {
            self.start_queue()
        } else if self.isCanPreStart {
            self.prestart()
        } else {
            None
        };
        self.cnt = 0;
        cmd
    }

    /// Autonomous advance, called once per tick: a skip gate defers roughly
    /// half of all calls, the debounce window only advances its counter, and
    /// otherwise one decision step runs on fresh draws.
    pub fn next_action(&mut self, rooms: &mut RoomRegistry) -> (cmd: Option<MqttMsg>)
        requires
            old(rooms).wf(),
        ensures
            final(rooms).wf(),
            final(rooms).team_size == old(rooms).team_size,
            next_action_rel(
                old(self)@,
                old(rooms)@,
                old(rooms).team_size as int,
                final(self)@,
                final(rooms)@,
                opt_cmd(cmd),
            ),
    {
        let skip = rand_below(10);
        if skip > 4 {
            return None;
        }
        if self.cnt >= 0 && self.cnt < QUIET_LIMIT {
            self.cnt = self.cnt + 1;
            return None;
        }
        let make_room = rand_below(10) < 5;
        let len = rooms.len();
        let pick: usize = if len > 0 {
            rand_below(len as u64) as usize
        } else {
            0
        };
        let cmd = self.decide_step(rooms, make_room, pick);
        proof {
            assert((self@, rooms@, opt_cmd(cmd)) == decide_spec(
                old(self)@,
                old(rooms)@,
                old(rooms).team_size as int,
                make_room,
                pick as int,
            ));
        }
        cmd
    }
}

/// Law: the decision order is total. One call emits at most one autonomous
/// command, the one for the first unmet stage; later stages wait.
pub proof fn lemma_decide_first_unmet(
    u: UserView,
    rs: Seq<RoomRecordView>,
    team: int,
    make_room: bool,
    pick: int,
)
    ensures
        !u.isLogin ==> decide_spec(u, rs, team, make_room, pick).2 == login_decision(u),
        u.isLogin && !u.isChooseNGHero ==> decide_spec(u, rs, team, make_room, pick).2
            == choose_hero_decision(u, default_hero()),
        u.isLogin && u.isChooseNGHero && u.isInRoom && !u.isStartQueue ==> decide_spec(
            u,
            rs,
            team,
            make_room,
            pick,
        ).2 == start_queue_decision(u),
        u.isLogin && u.isChooseNGHero && u.isInRoom && u.isStartQueue && u.isCanPreStart
            ==> decide_spec(u, rs, team, make_room, pick).2 == prestart_decision(u),
{
}

/// Law: `game_over` is idempotent, and hero and login survive it.
pub proof fn lemma_game_over_idempotent(u: UserView)
    ensures
        game_over_spec(game_over_spec(u)) == game_over_spec(u),
        game_over_spec(u).hero == u.hero,
        game_over_spec(u).isLogin == u.isLogin,
{
}

/// Law: an agent in its initial state that receives a login acknowledgement
/// and then a logout acknowledgement is back in exactly its initial state.
pub proof fn lemma_login_logout_round_trip(id: Seq<char>)
    ensures
        get_logout_spec(get_login_spec(initial_user(id))) == initial_user(id),
{
}

/// Law: while the debounce window is active the agent emits nothing on a
/// tick; the registry is untouched and the counter either stands (skip gate)
/// or advances by one.
pub proof fn lemma_debounce_quiet(
    u: UserView,
    rs: Seq<RoomRecordView>,
    team: int,
    u2: UserView,
    rs2: Seq<RoomRecordView>,
    cmd: Option<(Seq<char>, Seq<char>)>,
)
    requires
        in_quiet(u),
        next_action_rel(u, rs, team, u2, rs2, cmd),
    ensures
        cmd is None,
        rs2 == rs,
        u2 == u || u2 == (UserView { cnt: u.cnt + 1, ..u }),
{
}

/// Law: a decision step always restarts the debounce window, so an agent that
/// just emitted stays silent for the following `QUIET_LIMIT` ticks.
pub proof fn lemma_emit_starts_quiet(
    u: UserView,
    rs: Seq<RoomRecordView>,
    team: int,
    make_room: bool,
    pick: int,
)
    ensures
        decide_spec(u, rs, team, make_room, pick).0.cnt == 0,
        in_quiet(decide_spec(u, rs, team, make_room, pick).0),
{
}

/// What one tick can do to the agent itself, whatever the registry held: the
/// skip gate leaves it alone, the debounce window advances the counter, and an
/// eligible step restarts the counter and touches at most the hero (when
/// asking for one) or the room (when announcing one).
pub open spec fn user_tick_rel(u: UserView, u2: UserView) -> bool {
    ||| u2 == u
    ||| (in_quiet(u) && u2 == (UserView { cnt: u.cnt + 1, ..u }))
    ||| (!in_quiet(u) && {
        ||| u2 == (UserView { cnt: 0, ..u })
        ||| (u.isLogin && !u.isChooseNGHero && u2 == (UserView {
            cnt: 0,
            hero: default_hero(),
            ..u
        }))
        ||| (u.isLogin && u.isChooseNGHero && !u.isInRoom && u2 == (UserView {
            cnt: 0,
            room: u.id,
            ..u
        }))
    })
}

/// Whatever [`User::next_action`] did, the agent-local change is one of the
/// shapes of [`user_tick_rel`].
pub proof fn lemma_next_action_user(
    u: UserView,
    rs: Seq<RoomRecordView>,
    team: int,
    u2: UserView,
    rs2: Seq<RoomRecordView>,
    cmd: Option<(Seq<char>, Seq<char>)>,
)
    requires
        next_action_rel(u, rs, team, u2, rs2, cmd),
    ensures
        user_tick_rel(u, u2),
{
    if u2 == u && rs2 == rs && cmd is None {
    } else if in_quiet(u) && u2 == (UserView { cnt: u.cnt + 1, ..u }) && rs2 == rs && cmd is None {
    } else {
        let (make_room, pick) = choose|make_room: bool, pick: int|
            0 <= pick && (rs.len() > 0 ==> pick < rs.len()) && (u2, rs2, cmd)
                == #[trigger] decide_spec(u, rs, team, make_room, pick);
        assert(u2 == decide_spec(u, rs, team, make_room, pick).0);
    }
}

} // verus!
