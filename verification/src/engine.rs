//! The simulation engine: the single owner of every agent and of the Room
//! Registry.
//!
//! The surrounding process alternates between two wake sources and hands each
//! wake to exactly one method here: a tick of the decision timer goes to
//! [`Engine::tick`], an inbound event to [`Engine::handle_event`]. Each call
//! runs to completion — state mutated, outbound commands collected — before
//! the next wake is considered, which is the sole source of serialization in
//! the system. Commands are returned, never sent: delivering them, and
//! scheduling the delayed ones, is the caller's job, so backpressure on the
//! outbound queue can never panic in here.

use vstd::prelude::*;

use crate::event::GameOverData;
use crate::event::StartGameRes;
use crate::event::HeroCellView;
use crate::event::UserEvent;
use crate::event::UserInfoData;
use crate::event::UserInfoView;
use crate::gamejson::game_info_json;
use crate::gamejson::game_info_json_of;
use crate::gamejson::game_over_json;
use crate::gamejson::game_over_json_of;
use crate::msg::MqttMsg;
use crate::registry::find_room;
use crate::registry::record_join_spec;
use crate::registry::RoomRecordView;
use crate::registry::RoomRegistry;
use crate::rng::rand_below;
use crate::text::dec_str;
use crate::text::str_eq;
use crate::text::u64_dec;
use crate::user::game_over_spec;
use crate::user::get_login_spec;
use crate::user::get_logout_spec;
use crate::user::initial_user;
use crate::user::next_action_rel;
use crate::user::user_tick_rel;
use crate::user::lemma_next_action_user;
use crate::user::User;
use crate::user::UserView;
use crate::wire;

verus! {

/// The views of a population of agents.
pub open spec fn users_of(us: Seq<User>) -> Seq<UserView> {
    us.map_values(|u: User| u@)
}

/// First position of the agent with the given id, or `-1`.
pub open spec fn find_user(us: Seq<UserView>, id: Seq<char>) -> int
    decreases us.len(),
{
    if us.len() == 0 {
        -1
    } else if us[0].id == id {
        0
    } else {
        let f = find_user(us.drop_first(), id);
        if f == -1 {
            -1
        } else {
            f + 1
        }
    }
}

pub proof fn lemma_find_user(us: Seq<UserView>, id: Seq<char>)
    ensures
        find_user(us, id) == -1 <==> (forall|i: int| 0 <= i < us.len() ==> us[i].id != id),
        find_user(us, id) != -1 ==> 0 <= find_user(us, id) < us.len() && us[find_user(us, id)].id
            == id && (forall|i: int| 0 <= i < find_user(us, id) ==> us[i].id != id),
    decreases us.len(),
{
    if us.len() != 0 && us[0].id != id {
        let rest = us.drop_first();
        lemma_find_user(rest, id);
        assert(forall|i: int| 0 <= i < rest.len() ==> #[trigger] rest[i] == us[i + 1]);
        if find_user(rest, id) != -1 {
            assert(rest[find_user(rest, id)] == us[find_user(rest, id) + 1]);
            assert(us[find_user(us, id)].id == id);
            assert forall|i: int| 0 <= i < find_user(us, id) implies us[i].id != id by {
                if i > 0 {
                    assert(rest[i - 1] == us[i]);
                }
            }
        } else {
            assert forall|i: int| 0 <= i < us.len() implies us[i].id != id by {
                if i > 0 {
                    assert(rest[i - 1] == us[i]);
                }
            }
        }
    }
}

/// Two populations whose agents carry the same ids agree on every lookup.
pub proof fn lemma_find_user_same_ids(us: Seq<UserView>, vs: Seq<UserView>, id: Seq<char>)
    requires
        us.len() == vs.len(),
        forall|i: int| 0 <= i < us.len() ==> us[i].id == vs[i].id,
    ensures
        find_user(us, id) == find_user(vs, id),
    decreases us.len(),
{
    if us.len() != 0 && us[0].id != id {
        let us1 = us.drop_first();
        let vs1 = vs.drop_first();
        assert(forall|i: int| 0 <= i < us1.len() ==> #[trigger] us1[i] == us[i + 1]);
        assert(forall|i: int| 0 <= i < vs1.len() ==> #[trigger] vs1[i] == vs[i + 1]);
        lemma_find_user_same_ids(us1, vs1, id);
    }
}

/// Resolves an agent id to its position in the population.
pub fn get_user(id: &String, users: &Vec<User>) -> (r: Option<usize>)
    ensures
        find_user(users_of(users@), id@) == -1 ==> r is None,
        find_user(users_of(users@), id@) != -1 ==> (r matches Some(i) && i == find_user(
            users_of(users@),
            id@,
        ) && 0 <= find_user(users_of(users@), id@) < users@.len()),
{
    let ghost us = users_of(users@);
    proof {
        lemma_find_user(us, id@);
    }
    let mut j: usize = 0;
    while j < users.len()
        invariant
            j <= users.len(),
            us == users_of(users@),
            forall|k: int| 0 <= k < j ==> us[k].id != id@,
        decreases users.len() - j,
    {
        if users[j].id == *id {
            proof {
                lemma_find_user(us, id@);
                assert(us[j as int] == users@[j as int]@);
                assert(us[j as int].id == id@);
                assert(find_user(us, id@) != -1);
                assert(!(find_user(us, id@) < j));
                assert(!(find_user(us, id@) > j));
            }
            return Some(j);
        }
        j = j + 1;
    }
    None
}

/// An acknowledgement always clears the debounce counter, unblocking the
/// agent's autonomous action.
pub open spec fn clear_quiet(u: UserView) -> UserView {
    UserView { cnt: -1, ..u }
}

pub open spec fn login_ack(us: Seq<UserView>, id: Seq<char>) -> Seq<UserView> {
    let i = find_user(us, id);
    if i == -1 {
        us
    } else {
        us.update(i, get_login_spec(clear_quiet(us[i])))
    }
}

pub open spec fn logout_ack(us: Seq<UserView>, id: Seq<char>) -> Seq<UserView> {
    let i = find_user(us, id);
    if i == -1 {
        us
    } else {
        us.update(i, get_logout_spec(clear_quiet(us[i])))
    }
}

pub open spec fn create_ack(us: Seq<UserView>, id: Seq<char>) -> Seq<UserView> {
    let i = find_user(us, id);
    if i == -1 {
        us
    } else {
        us.update(
            i,
            UserView { cnt: -1, isInRoom: true, room: us[i].id, isRoomCreater: true, ..us[i] },
        )
    }
}

pub open spec fn close_ack(us: Seq<UserView>, room: Seq<char>) -> Seq<UserView> {
    let i = find_user(us, room);
    if i == -1 {
        us
    } else {
        us.update(i, UserView { cnt: -1, isInRoom: false, room: Seq::empty(), ..us[i] })
    }
}

pub open spec fn hero_ack(us: Seq<UserView>, id: Seq<char>, hero: Seq<char>) -> Seq<UserView> {
    let i = find_user(us, id);
    if i == -1 {
        us
    } else {
        us.update(i, UserView { cnt: -1, hero: hero, isChooseNGHero: true, ..us[i] })
    }
}

/// An acknowledgement that changes no flag still unblocks its agent: any
/// acknowledgement, successful or not, clears the debounce counter. This is
/// what an invite acknowledgement does, and what a failed create or join
/// leaves behind.
pub open spec fn ack_unblock(us: Seq<UserView>, id: Seq<char>) -> Seq<UserView> {
    let i = find_user(us, id);
    if i == -1 {
        us
    } else {
        us.update(i, clear_quiet(us[i]))
    }
}

pub open spec fn queue_ack(us: Seq<UserView>, id: Seq<char>) -> Seq<UserView> {
    let i = find_user(us, id);
    if i == -1 {
        us
    } else {
        us.update(i, UserView { cnt: -1, isStartQueue: true, ..us[i] })
    }
}

pub open spec fn start_get_ack(us: Seq<UserView>, id: Seq<char>) -> Seq<UserView> {
    let i = find_user(us, id);
    if i == -1 {
        us
    } else {
        us.update(i, UserView { cnt: -1, isPlaying: true, isPreStart: true, ..us[i] })
    }
}

pub open spec fn join_ack(us: Seq<UserView>, id: Seq<char>, room: Seq<char>) -> Seq<UserView> {
    let i = find_user(us, id);
    if i == -1 {
        us
    } else {
        us.update(i, UserView { cnt: -1, isInRoom: true, room: room, ..us[i] })
    }
}

/// The sender of "stop queue" loses pre-start eligibility and acceptance.
pub open spec fn prestart_deny_ack(us: Seq<UserView>, id: Seq<char>) -> Seq<UserView> {
    let i = find_user(us, id);
    if i == -1 {
        us
    } else {
        us.update(i, UserView { cnt: -1, isCanPreStart: false, isPreStart: false, ..us[i] })
    }
}

/// One member of a room granted pre-start: skipped when unknown or already
/// pre-started; otherwise made eligible, and on the transition into
/// eligibility a pre-start-get acknowledgement goes out on its behalf.
pub open spec fn prestart_grant_one(us: Seq<UserView>, id: Seq<char>) -> (
    Seq<UserView>,
    Seq<(Seq<char>, Seq<char>)>,
) {
    let i = find_user(us, id);
    if i == -1 {
        (us, Seq::empty())
    } else if us[i].isPreStart {
        (us, Seq::empty())
    } else {
        (
            us.update(i, UserView { cnt: -1, isCanPreStart: true, ..us[i] }),
            if us[i].isCanPreStart {
                Seq::empty()
            } else {
                seq![
                    (
                        wire::prestart_get_topic(us[i].id),
                        wire::prestart_get_payload(us[i].room, us[i].id),
                    ),
                ]
            },
        )
    }
}

/// Pre-start granted to a whole room, member by member in list order.
pub open spec fn prestart_room_spec(us: Seq<UserView>, members: Seq<Seq<char>>) -> (
    Seq<UserView>,
    Seq<(Seq<char>, Seq<char>)>,
)
    decreases members.len(),
{
    if members.len() == 0 {
        (us, Seq::empty())
    } else {
        let head = prestart_grant_one(us, members[0]);
        let rest = prestart_room_spec(head.0, members.drop_first());
        (rest.0, head.1 + rest.1)
    }
}

proof fn lemma_prestart_room_push(us: Seq<UserView>, members: Seq<Seq<char>>, id: Seq<char>)
    ensures
        prestart_room_spec(us, members.push(id)) == (
            {
                let sofar = prestart_room_spec(us, members);
                let last = prestart_grant_one(sofar.0, id);
                (last.0, sofar.1 + last.1)
            }),
    decreases members.len(),
{
    reveal_with_fuel(prestart_room_spec, 3);
    let pushed = members.push(id);
    if members.len() == 0 {
        assert(pushed[0] == id);
        assert(pushed.drop_first() =~= Seq::<Seq<char>>::empty());
        assert(prestart_room_spec(us, pushed).1 =~= prestart_room_spec(us, members).1
            + prestart_grant_one(prestart_room_spec(us, members).0, id).1);
    } else {
        assert(pushed[0] == members[0]);
        assert(pushed.drop_first() =~= members.drop_first().push(id));
        let head = prestart_grant_one(us, members[0]);
        lemma_prestart_room_push(head.0, members.drop_first(), id);
        let sofar = prestart_room_spec(head.0, members.drop_first());
        assert(head.1 + (sofar.1 + prestart_grant_one(sofar.0, id).1) =~= (head.1 + sofar.1)
            + prestart_grant_one(sofar.0, id).1);
        assert(prestart_room_spec(us, pushed).1 =~= prestart_room_spec(us, members).1
            + prestart_grant_one(prestart_room_spec(us, members).0, id).1);
    }
}

/// The room's view of who is in it, or nobody for an unknown room.
pub open spec fn room_members(rs: Seq<RoomRecordView>, room: Seq<char>) -> Seq<Seq<char>> {
    let f = find_room(rs, room);
    if f == -1 {
        Seq::empty()
    } else {
        rs[f].ids
    }
}

/// One roster member's agent sent to game over; unknown ids are skipped.
pub open spec fn game_over_one(us: Seq<UserView>, id: Seq<char>) -> Seq<UserView> {
    let i = find_user(us, id);
    if i == -1 {
        us
    } else {
        us.update(i, game_over_spec(us[i]))
    }
}

/// The whole roster sent to game over, in roster order.
pub open spec fn roster_over_spec(us: Seq<UserView>, ids: Seq<Seq<char>>) -> Seq<UserView>
    decreases ids.len(),
{
    if ids.len() == 0 {
        us
    } else {
        roster_over_spec(game_over_one(us, ids[0]), ids.drop_first())
    }
}

proof fn lemma_roster_over_push(us: Seq<UserView>, ids: Seq<Seq<char>>, id: Seq<char>)
    ensures
        roster_over_spec(us, ids.push(id)) == game_over_one(roster_over_spec(us, ids), id),
    decreases ids.len(),
{
    reveal_with_fuel(roster_over_spec, 3);
    let pushed = ids.push(id);
    if ids.len() == 0 {
        assert(pushed[0] == id);
        assert(pushed.drop_first() =~= Seq::<Seq<char>>::empty());
    } else {
        assert(pushed[0] == ids[0]);
        assert(pushed.drop_first() =~= ids.drop_first().push(id));
        lemma_roster_over_push(game_over_one(us, ids[0]), ids.drop_first(), id);
    }
}

/// Sending agents to game over touches matchmaking flags only: population
/// size, ids, heroes and login all survive.
proof fn lemma_roster_over_keeps_identity(us: Seq<UserView>, ids: Seq<Seq<char>>)
    ensures
        roster_over_spec(us, ids).len() == us.len(),
        forall|j: int|
            0 <= j < us.len() ==> #[trigger] roster_over_spec(us, ids)[j].id == us[j].id
                && roster_over_spec(us, ids)[j].hero == us[j].hero && roster_over_spec(
                us,
                ids,
            )[j].isLogin == us[j].isLogin,
    decreases ids.len(),
{
    reveal_with_fuel(roster_over_spec, 2);
    if ids.len() != 0 {
        lemma_find_user(us, ids[0]);
        let mid = game_over_one(us, ids[0]);
        lemma_roster_over_keeps_identity(mid, ids.drop_first());
        assert(mid.len() == us.len());
        assert forall|j: int| 0 <= j < us.len() implies #[trigger] roster_over_spec(us, ids)[j].id
            == us[j].id && roster_over_spec(us, ids)[j].hero == us[j].hero && roster_over_spec(
            us,
            ids,
        )[j].isLogin == us[j].isLogin by {
            assert(mid[j].id == us[j].id && mid[j].hero == us[j].hero && mid[j].isLogin
                == us[j].isLogin);
            assert(roster_over_spec(us, ids) == roster_over_spec(mid, ids.drop_first()));
            assert(roster_over_spec(mid, ids.drop_first())[j].id == mid[j].id);
            assert(roster_over_spec(mid, ids.drop_first())[j].hero == mid[j].hero);
            assert(roster_over_spec(mid, ids.drop_first())[j].isLogin == mid[j].isLogin);
        }
    }
}

/// All matchmaking flags stand at their initial values: the agent is ready to
/// re-enter matchmaking.
pub open spec fn flags_cleared(u: UserView) -> bool {
    &&& !u.isStartQueue
    &&& !u.isPreStart
    &&& !u.isPlaying
    &&& !u.isInRoom
    &&& !u.isRoomCreater
    &&& !u.isCanPreStart
}

/// The game-over fold never raises a matchmaking flag: once cleared, an
/// agent stays cleared through the rest of the roster.
proof fn lemma_roster_over_monotone(us: Seq<UserView>, ids: Seq<Seq<char>>)
    ensures
        forall|j: int|
            0 <= j < us.len() && flags_cleared(us[j]) ==> flags_cleared(
                #[trigger] roster_over_spec(us, ids)[j],
            ),
    decreases ids.len(),
{
    reveal_with_fuel(roster_over_spec, 2);
    if ids.len() != 0 {
        lemma_find_user(us, ids[0]);
        let mid = game_over_one(us, ids[0]);
        lemma_roster_over_monotone(mid, ids.drop_first());
        assert forall|j: int| 0 <= j < us.len() && flags_cleared(us[j]) implies flags_cleared(
            #[trigger] roster_over_spec(us, ids)[j],
        ) by {
            assert(flags_cleared(mid[j]));
            assert(roster_over_spec(us, ids) == roster_over_spec(mid, ids.drop_first()));
        }
    }
}

/// Law: resolving a started game sends every roster member's agent to game
/// over. Afterwards every agent keeps its id, hero and login, and every agent
/// that a roster id resolves to has all matchmaking flags cleared, ready to
/// re-enter matchmaking at once. `Engine::resolve_game` ensures that the
/// population afterwards is exactly `roster_over_spec` of the roster's ids.
pub proof fn lemma_roster_over_resets(us: Seq<UserView>, ids: Seq<Seq<char>>)
    ensures
        roster_over_spec(us, ids).len() == us.len(),
        forall|j: int|
            0 <= j < us.len() ==> #[trigger] roster_over_spec(us, ids)[j].id == us[j].id
                && roster_over_spec(us, ids)[j].hero == us[j].hero && roster_over_spec(
                us,
                ids,
            )[j].isLogin == us[j].isLogin,
        forall|k: int|
            0 <= k < ids.len() && #[trigger] find_user(us, ids[k]) != -1 ==> flags_cleared(
                roster_over_spec(us, ids)[find_user(us, ids[k])],
            ),
    decreases ids.len(),
{
    reveal_with_fuel(roster_over_spec, 2);
    lemma_roster_over_keeps_identity(us, ids);
    if ids.len() != 0 {
        let mid = game_over_one(us, ids[0]);
        let rest = ids.drop_first();
        lemma_find_user(us, ids[0]);
        lemma_roster_over_resets(mid, rest);
        lemma_roster_over_monotone(mid, rest);
        assert(forall|i: int| 0 <= i < rest.len() ==> #[trigger] rest[i] == ids[i + 1]);
        assert(mid.len() == us.len());
        assert(forall|j: int| 0 <= j < us.len() ==> #[trigger] mid[j].id == us[j].id);
        assert forall|k: int| 0 <= k < ids.len() && #[trigger] find_user(us, ids[k]) != -1
            implies flags_cleared(roster_over_spec(us, ids)[find_user(us, ids[k])]) by {
            assert(roster_over_spec(us, ids) == roster_over_spec(mid, rest));
            lemma_find_user_same_ids(us, mid, ids[k]);
            let f = find_user(us, ids[k]);
            if k == 0 {
                assert(flags_cleared(mid[f]));
                lemma_roster_over_keeps_identity(mid, rest);
                assert(flags_cleared(roster_over_spec(mid, rest)[f]));
            } else {
                assert(rest[k - 1] == ids[k]);
                assert(find_user(mid, rest[k - 1]) == f);
                assert(flags_cleared(roster_over_spec(mid, rest)[find_user(mid, rest[k - 1])]));
            }
        }
    }
}

/// The ids on the drawn team, in roster order.
pub open spec fn win_ids(ms: Seq<HeroCellView>, t: int) -> Seq<Seq<char>>
    decreases ms.len(),
{
    if ms.len() == 0 {
        Seq::empty()
    } else {
        (if ms[0].team == t {
            seq![ms[0].id]
        } else {
            Seq::empty()
        }) + win_ids(ms.drop_first(), t)
    }
}

/// The ids off the drawn team, in roster order.
pub open spec fn lose_ids(ms: Seq<HeroCellView>, t: int) -> Seq<Seq<char>>
    decreases ms.len(),
{
    if ms.len() == 0 {
        Seq::empty()
    } else {
        (if ms[0].team != t {
            seq![ms[0].id]
        } else {
            Seq::empty()
        }) + lose_ids(ms.drop_first(), t)
    }
}

proof fn lemma_win_lose_push(ms: Seq<HeroCellView>, t: int, c: HeroCellView)
    ensures
        win_ids(ms.push(c), t) == win_ids(ms, t) + (if c.team == t {
            seq![c.id]
        } else {
            Seq::<Seq<char>>::empty()
        }),
        lose_ids(ms.push(c), t) == lose_ids(ms, t) + (if c.team != t {
            seq![c.id]
        } else {
            Seq::<Seq<char>>::empty()
        }),
    decreases ms.len(),
{
    reveal_with_fuel(win_ids, 3);
    reveal_with_fuel(lose_ids, 3);
    let pushed = ms.push(c);
    if ms.len() == 0 {
        assert(pushed[0] == c);
        assert(pushed.drop_first() =~= Seq::<HeroCellView>::empty());
        if c.team == t {
            assert(seq![c.id] + Seq::<Seq<char>>::empty() =~= seq![c.id]);
            assert(Seq::<Seq<char>>::empty() + seq![c.id] =~= seq![c.id]);
            assert(Seq::<Seq<char>>::empty() + Seq::<Seq<char>>::empty()
                =~= Seq::<Seq<char>>::empty());
        } else {
            assert(seq![c.id] + Seq::<Seq<char>>::empty() =~= seq![c.id]);
            assert(Seq::<Seq<char>>::empty() + seq![c.id] =~= seq![c.id]);
            assert(Seq::<Seq<char>>::empty() + Seq::<Seq<char>>::empty()
                =~= Seq::<Seq<char>>::empty());
        }
    } else {
        assert(pushed[0] == ms[0]);
        assert(pushed.drop_first() =~= ms.drop_first().push(c));
        lemma_win_lose_push(ms.drop_first(), t, c);
        let wh = if ms[0].team == t {
            seq![ms[0].id]
        } else {
            Seq::<Seq<char>>::empty()
        };
        let lh = if ms[0].team != t {
            seq![ms[0].id]
        } else {
            Seq::<Seq<char>>::empty()
        };
        let wc = if c.team == t {
            seq![c.id]
        } else {
            Seq::<Seq<char>>::empty()
        };
        let lc = if c.team != t {
            seq![c.id]
        } else {
            Seq::<Seq<char>>::empty()
        };
        assert(wh + (win_ids(ms.drop_first(), t) + wc) =~= (wh + win_ids(ms.drop_first(), t))
            + wc);
        assert(lh + (lose_ids(ms.drop_first(), t) + lc) =~= (lh + lose_ids(ms.drop_first(), t))
            + lc);
    }
}

/// The ids of a roster, in order.
pub open spec fn roster_ids(ms: Seq<HeroCellView>) -> Seq<Seq<char>> {
    ms.map_values(|c: HeroCellView| c.id)
}

/// The views of a roster.
pub open spec fn roster_of(member: Seq<crate::event::HeroCell>) -> Seq<HeroCellView> {
    member.map_values(|c: crate::event::HeroCell| c@)
}

/// A synthesized statistics record for the given agent: correct identity,
/// fixed equipment, every counter inside its documented range.
pub open spec fn info_for(id: Seq<char>, hero: Seq<char>, v: UserInfoView) -> bool {
    &&& v.id == id
    &&& v.hero == hero
    &&& 13 <= v.level < 16
    &&& 1000 <= v.damage < 3000
    &&& 1000 <= v.take_damage < 3000
    &&& 500 <= v.heal < 1000
    &&& 0 <= v.kill < 4
    &&& 0 <= v.death < 3
    &&& 0 <= v.assist < 5
    &&& 0 <= v.giftA < 4
    &&& 0 <= v.giftB < 4
    &&& 0 <= v.giftC < 4
    &&& 0 <= v.giftD < 4
    &&& 0 <= v.giftE < 4
    &&& v.equ == seq!["bz"@, "uti"@, "666"@]
}

/// One statistics record per roster member that resolves to an agent, in
/// roster order, each carrying that agent's id and hero.
pub open spec fn infos_match(us: Seq<UserView>, ids: Seq<Seq<char>>, infos: Seq<UserInfoView>) -> bool
    decreases ids.len(),
{
    if ids.len() == 0 {
        infos.len() == 0
    } else {
        let f = find_user(us, ids[0]);
        if f == -1 {
            infos_match(us, ids.drop_first(), infos)
        } else {
            infos.len() > 0 && info_for(us[f].id, us[f].hero, infos[0]) && infos_match(
                us,
                ids.drop_first(),
                infos.drop_first(),
            )
        }
    }
}

proof fn lemma_infos_match_push_found(
    us: Seq<UserView>,
    ids: Seq<Seq<char>>,
    infos: Seq<UserInfoView>,
    id: Seq<char>,
    v: UserInfoView,
)
    requires
        infos_match(us, ids, infos),
        find_user(us, id) != -1,
        info_for(us[find_user(us, id)].id, us[find_user(us, id)].hero, v),
    ensures
        infos_match(us, ids.push(id), infos.push(v)),
    decreases ids.len(),
{
    reveal_with_fuel(infos_match, 3);
    let pushed = ids.push(id);
    if ids.len() == 0 {
        assert(pushed[0] == id);
        assert(pushed.drop_first() =~= Seq::<Seq<char>>::empty());
        assert(infos.push(v)[0] == v);
        assert(infos.push(v).drop_first() =~= Seq::<UserInfoView>::empty());
    } else {
        assert(pushed[0] == ids[0]);
        assert(pushed.drop_first() =~= ids.drop_first().push(id));
        let f = find_user(us, ids[0]);
        if f == -1 {
            lemma_infos_match_push_found(us, ids.drop_first(), infos, id, v);
        } else {
            assert(infos.push(v)[0] == infos[0]);
            assert(infos.push(v).drop_first() =~= infos.drop_first().push(v));
            lemma_infos_match_push_found(us, ids.drop_first(), infos.drop_first(), id, v);
        }
    }
}

proof fn lemma_infos_match_push_missing(
    us: Seq<UserView>,
    ids: Seq<Seq<char>>,
    infos: Seq<UserInfoView>,
    id: Seq<char>,
)
    requires
        infos_match(us, ids, infos),
        find_user(us, id) == -1,
    ensures
        infos_match(us, ids.push(id), infos),
    decreases ids.len(),
{
    reveal_with_fuel(infos_match, 3);
    let pushed = ids.push(id);
    if ids.len() == 0 {
        assert(pushed[0] == id);
        assert(pushed.drop_first() =~= Seq::<Seq<char>>::empty());
    } else {
        assert(pushed[0] == ids[0]);
        assert(pushed.drop_first() =~= ids.drop_first().push(id));
        let f = find_user(us, ids[0]);
        if f == -1 {
            lemma_infos_match_push_missing(us, ids.drop_first(), infos, id);
        } else {
            lemma_infos_match_push_missing(us, ids.drop_first(), infos.drop_first(), id);
        }
    }
}

/// Synthesizes one statistics record from independent bounded draws.
fn roll_user_info(id: String, hero: String) -> (r: UserInfoData)
    ensures
        info_for(id@, hero@, r@),
{
    let mut equ: Vec<String> = Vec::new();
    equ.push("bz".to_owned());
    equ.push("uti".to_owned());
    equ.push("666".to_owned());
    let r = UserInfoData {
        id,
        hero,
        level: (13 + rand_below(3)) as u16,
        equ,
        damage: (1000 + rand_below(2000)) as u16,
        take_damage: (1000 + rand_below(2000)) as u16,
        heal: (500 + rand_below(500)) as u16,
        kill: rand_below(4) as u16,
        death: rand_below(3) as u16,
        assist: rand_below(5) as u16,
        gift: crate::event::UserGift {
            A: rand_below(4) as u16,
            B: rand_below(4) as u16,
            C: rand_below(4) as u16,
            D: rand_below(4) as u16,
            E: rand_below(4) as u16,
        },
    };
    proof {
        assert(r@.equ =~= seq!["bz"@, "uti"@, "666"@]);
    }
    r
}

/// Commands a wake produced: `msgs` go out now; `delayed` go out after the
/// engine's start delay, from a timer task that only writes to the outbound
/// channel.
pub struct EngineOutput {
    pub msgs: Vec<MqttMsg>,
    pub delayed: Vec<MqttMsg>,
}

/// The views of a batch of outbound commands.
pub open spec fn msgs_of(ms: Seq<MqttMsg>) -> Seq<(Seq<char>, Seq<char>)> {
    ms.map_values(|m: MqttMsg| (m.topic@, m.msg@))
}

/// What handling one inbound event does: the population, the registry and the
/// two command batches afterwards, in terms of the event's fields.
pub open spec fn event_outcome(
    us: Seq<UserView>,
    rs: Seq<RoomRecordView>,
    ev: UserEvent,
    us2: Seq<UserView>,
    rs2: Seq<RoomRecordView>,
    msgs: Seq<(Seq<char>, Seq<char>)>,
    delayed: Seq<(Seq<char>, Seq<char>)>,
) -> bool {
    match ev {
        UserEvent::Login(x) => us2 == login_ack(us, x.id@) && rs2 == rs && msgs.len() == 0
            && delayed.len() == 0,
        UserEvent::Logout(x) => us2 == logout_ack(us, x.id@) && rs2 == rs && msgs.len() == 0
            && delayed.len() == 0,
        UserEvent::Create(x) => us2 == (if x.msg@ == "ok"@ {
            create_ack(us, x.id@)
        } else {
            ack_unblock(us, x.id@)
        }) && rs2 == rs && msgs.len() == 0 && delayed.len() == 0,
        UserEvent::Close(x) => us2 == close_ack(us, x.room@) && rs2 == rs && msgs.len() == 0
            && delayed.len() == 0,
        UserEvent::ChooseNGHero(x) => us2 == hero_ack(us, x.id@, x.hero@) && rs2 == rs
            && msgs.len() == 0 && delayed.len() == 0,
        UserEvent::Invite(x) => us2 == ack_unblock(us, x.id@) && rs2 == rs && msgs.len() == 0
            && delayed.len() == 0,
        UserEvent::StartQueue(x) => us2 == queue_ack(us, x.id@) && rs2 == rs && msgs.len() == 0
            && delayed.len() == 0,
        UserEvent::StartGet(x) => us2 == start_get_ack(us, x.id@) && rs2 == rs && msgs.len() == 0
            && delayed.len() == 0,
        UserEvent::Join(x) => (if x.msg@ == "ok"@ {
            us2 == join_ack(us, x.id@, x.room@) && rs2 == record_join_spec(rs, x.room@, x.id@)
        } else {
            us2 == ack_unblock(us, x.id@) && rs2 == rs
        }) && msgs.len() == 0 && delayed.len() == 0,
        UserEvent::PreStart(x) => (if x.msg@ == "stop queue"@ {
            us2 == prestart_deny_ack(us, x.id@) && msgs.len() == 0
        } else {
            (us2, msgs) == prestart_room_spec(us, room_members(rs, x.id@))
        }) && rs2 == rs && delayed.len() == 0,
        UserEvent::Start(_) => us2 == us && rs2 == rs && msgs.len() == 0 && delayed.len() == 0,
        UserEvent::GameSingal(x) => us2 == us && rs2 == rs && msgs.len() == 0 && delayed == seq![
            (
                wire::start_game_topic(x.game as nat),
                wire::start_game_payload(x.game as nat),
            ),
        ],
        UserEvent::StartGame(x) => {
            let ms = roster_of(x.member@);
            let g = x.game as nat;
            &&& rs2 == rs
            &&& delayed.len() == 0
            &&& exists|winner: int, infos: Seq<UserInfoView>|
                #![trigger win_ids(roster_of(x.member@), winner), game_info_json(x.game as nat, infos)]
                {
                    &&& (winner == 1 || winner == 2)
                    &&& us2 == roster_over_spec(us, roster_ids(ms))
                    &&& infos_match(us, roster_ids(ms), infos)
                    &&& msgs == seq![
                        (
                            wire::game_over_topic(g),
                            game_over_json(g, win_ids(ms, winner), lose_ids(ms, winner)),
                        ),
                        (wire::game_info_topic(g), game_info_json(g, infos)),
                    ]
                }
        },
    }
}

/// A command batch as one agent's contribution: nothing, or its one command.
pub open spec fn opt_cmds(c: Option<(Seq<char>, Seq<char>)>) -> Seq<(Seq<char>, Seq<char>)> {
    match c {
        Some(cc) => seq![cc],
        None => Seq::empty(),
    }
}

/// One decision tick over a population: agent after agent in order, each step
/// a legal [`next_action_rel`] outcome, the registry threaded from step to
/// step and the emitted commands collected in the same order.
pub open spec fn tick_rel(
    us: Seq<UserView>,
    rs: Seq<RoomRecordView>,
    team: int,
    us2: Seq<UserView>,
    rs2: Seq<RoomRecordView>,
    msgs: Seq<(Seq<char>, Seq<char>)>,
) -> bool
    decreases us.len(),
{
    if us.len() == 0 {
        &&& us2.len() == 0
        &&& rs2 == rs
        &&& msgs.len() == 0
    } else {
        &&& us2.len() == us.len()
        &&& exists|mid: Seq<RoomRecordView>, c: Option<(Seq<char>, Seq<char>)>|
            #[trigger] next_action_rel(us[0], rs, team, us2[0], mid, c) && (match c {
                Some(cc) => msgs.len() > 0 && msgs[0] == cc && tick_rel(
                    us.drop_first(),
                    mid,
                    team,
                    us2.drop_first(),
                    rs2,
                    msgs.drop_first(),
                ),
                None => tick_rel(us.drop_first(), mid, team, us2.drop_first(), rs2, msgs),
            })
    }
}

/// Extending a tick by one more agent at the end.
proof fn lemma_tick_rel_snoc(
    us: Seq<UserView>,
    rs0: Seq<RoomRecordView>,
    team: int,
    vs: Seq<UserView>,
    rs1: Seq<RoomRecordView>,
    msgs: Seq<(Seq<char>, Seq<char>)>,
    u: UserView,
    v: UserView,
    rs2: Seq<RoomRecordView>,
    c: Option<(Seq<char>, Seq<char>)>,
)
    requires
        tick_rel(us, rs0, team, vs, rs1, msgs),
        next_action_rel(u, rs1, team, v, rs2, c),
    ensures
        tick_rel(us.push(u), rs0, team, vs.push(v), rs2, msgs + opt_cmds(c)),
    decreases us.len(),
{
    let pus = us.push(u);
    let pvs = vs.push(v);
    let pmsgs = msgs + opt_cmds(c);
    if us.len() == 0 {
        assert(pus[0] == u);
        assert(pvs[0] == v);
        assert(pus.drop_first() =~= Seq::<UserView>::empty());
        assert(pvs.drop_first() =~= Seq::<UserView>::empty());
        match c {
            Some(cc) => {
                assert(pmsgs =~= seq![cc]);
                assert(pmsgs.drop_first() =~= Seq::<(Seq<char>, Seq<char>)>::empty());
                assert(tick_rel(
                    pus.drop_first(),
                    rs2,
                    team,
                    pvs.drop_first(),
                    rs2,
                    pmsgs.drop_first(),
                ));
            },
            None => {
                assert(pmsgs =~= Seq::<(Seq<char>, Seq<char>)>::empty());
                assert(tick_rel(pus.drop_first(), rs2, team, pvs.drop_first(), rs2, pmsgs));
            },
        }
        assert(next_action_rel(pus[0], rs0, team, pvs[0], rs2, c));
        assert(tick_rel(pus, rs0, team, pvs, rs2, pmsgs));
    } else {
        let (mid, c0) = choose|mid: Seq<RoomRecordView>, c0: Option<(Seq<char>, Seq<char>)>|
            next_action_rel(us[0], rs0, team, vs[0], mid, c0) && (match c0 {
                Some(cc) => msgs.len() > 0 && msgs[0] == cc && tick_rel(
                    us.drop_first(),
                    mid,
                    team,
                    vs.drop_first(),
                    rs1,
                    msgs.drop_first(),
                ),
                None => tick_rel(us.drop_first(), mid, team, vs.drop_first(), rs1, msgs),
            });
        assert(pus[0] == us[0]);
        assert(pvs[0] == vs[0]);
        assert(pus.drop_first() =~= us.drop_first().push(u));
        assert(pvs.drop_first() =~= vs.drop_first().push(v));
        match c0 {
            Some(cc) => {
                lemma_tick_rel_snoc(
                    us.drop_first(),
                    mid,
                    team,
                    vs.drop_first(),
                    rs1,
                    msgs.drop_first(),
                    u,
                    v,
                    rs2,
                    c,
                );
                assert(pmsgs.len() > 0 && pmsgs[0] == cc);
                assert(pmsgs.drop_first() =~= msgs.drop_first() + opt_cmds(c));
                assert(tick_rel(
                    pus.drop_first(),
                    mid,
                    team,
                    pvs.drop_first(),
                    rs2,
                    pmsgs.drop_first(),
                ));
            },
            None => {
                lemma_tick_rel_snoc(us.drop_first(), mid, team, vs.drop_first(), rs1, msgs, u, v, rs2, c);
                assert(tick_rel(pus.drop_first(), mid, team, pvs.drop_first(), rs2, pmsgs));
            },
        }
        assert(next_action_rel(pus[0], rs0, team, pvs[0], mid, c0));
        assert(tick_rel(pus, rs0, team, pvs, rs2, pmsgs));
    }
}

/// The single-threaded owner of the whole population and the registry.
pub struct Engine {
    pub users: Vec<User>,
    pub rooms: RoomRegistry,
    pub start_delay_ms: u64,
}

impl Engine {
    pub open spec fn users_v(&self) -> Seq<UserView> {
        users_of(self.users@)
    }

    pub open spec fn wf(&self) -> bool {
        self.rooms.wf()
    }

    /// A fresh population: agents "0" to one below the population size, each
    /// in its initial state; an empty registry with the given team size.
    pub fn new(population: usize, team_size: usize, start_delay_ms: u64) -> (e: Engine)
        ensures
            e.wf(),
            e.users_v().len() == population,
            forall|i: int|
                0 <= i < population ==> #[trigger] e.users_v()[i] == initial_user(
                    dec_str(i as nat),
                ),
            e.rooms@ == Seq::<RoomRecordView>::empty(),
            e.rooms.team_size == team_size,
            e.start_delay_ms == start_delay_ms,
    {
        let mut users: Vec<User> = Vec::new();
        let mut i: usize = 0;
        while i < population
            invariant
                i <= population,
                users@.len() == i,
                forall|j: int| 0 <= j < i ==> #[trigger] users@[j]@ == initial_user(dec_str(j as nat)),
            decreases population - i,
        {
            let id = u64_dec(i as u64);
            users.push(User::new(id));
            i = i + 1;
        }
        let e = Engine { users, rooms: RoomRegistry::new(team_size), start_delay_ms };
        proof {
            assert forall|j: int| 0 <= j < population implies #[trigger] e.users_v()[j]
                == initial_user(dec_str(j as nat)) by {
                assert(e.users@[j]@ == initial_user(dec_str(j as nat)));
            }
        }
        e
    }

    /// One decision tick: every agent advances once, in population order; the
    /// commands they emit are collected in that order. The batch is exactly
    /// what the agents' decision steps produced: [`tick_rel`] threads the
    /// registry from agent to agent and fixes each message's place.
    pub fn tick(&mut self) -> (msgs: Vec<MqttMsg>)
        requires
            old(self).wf(),
        ensures
            final(self).wf(),
            final(self).rooms.team_size == old(self).rooms.team_size,
            final(self).start_delay_ms == old(self).start_delay_ms,
            final(self).users_v().len() == old(self).users_v().len(),
            msgs@.len() <= old(self).users@.len(),
            tick_rel(
                old(self).users_v(),
                old(self).rooms@,
                old(self).rooms.team_size as int,
                final(self).users_v(),
                final(self).rooms@,
                msgs_of(msgs@),
            ),
            forall|i: int|
                0 <= i < old(self).users_v().len() ==> user_tick_rel(
                    old(self).users_v()[i],
                    #[trigger] final(self).users_v()[i],
                ),
    {
        let ghost us0 = users_of(old(self).users@);
        let ghost rs0 = old(self).rooms@;
        let ghost team = old(self).rooms.team_size as int;
        let mut msgs: Vec<MqttMsg> = Vec::new();
        let mut i: usize = 0;
        proof {
            assert(us0.take(0) =~= Seq::<UserView>::empty());
            assert(users_of(self.users@).take(0) =~= Seq::<UserView>::empty());
            assert(msgs_of(msgs@) =~= Seq::<(Seq<char>, Seq<char>)>::empty());
        }
        while i < self.users.len()
            invariant
                i <= self.users@.len(),
                self.rooms.wf(),
                self.rooms.team_size == old(self).rooms.team_size,
                self.start_delay_ms == old(self).start_delay_ms,
                self.users@.len() == old(self).users@.len(),
                us0 == users_of(old(self).users@),
                rs0 == old(self).rooms@,
                team == old(self).rooms.team_size as int,
                msgs@.len() <= i,
                tick_rel(
                    us0.take(i as int),
                    rs0,
                    team,
                    users_of(self.users@).take(i as int),
                    self.rooms@,
                    msgs_of(msgs@),
                ),
                forall|j: int|
                    0 <= j < i ==> user_tick_rel(old(self).users@[j]@, #[trigger] self.users@[j]@),
                forall|j: int|
                    i <= j < self.users@.len() ==> #[trigger] self.users@[j]@ == old(
                        self,
                    ).users@[j]@,
            decreases self.users@.len() - i,
        {
            let ghost pre_u = self.users@[i as int]@;
            let ghost pre_rooms = self.rooms@;
            let ghost pre_prefix = users_of(self.users@).take(i as int);
            let ghost pre_msgs = msgs_of(msgs@);
            let cmd = {
                let u = &mut self.users[i];
                u.next_action(&mut self.rooms)
            };
            proof {
                lemma_next_action_user(
                    pre_u,
                    pre_rooms,
                    team,
                    self.users@[i as int]@,
                    self.rooms@,
                    crate::msg::opt_cmd(cmd),
                );
                lemma_tick_rel_snoc(
                    us0.take(i as int),
                    rs0,
                    team,
                    pre_prefix,
                    pre_rooms,
                    pre_msgs,
                    pre_u,
                    self.users@[i as int]@,
                    self.rooms@,
                    crate::msg::opt_cmd(cmd),
                );
                assert(us0.take(i + 1) =~= us0.take(i as int).push(pre_u));
                assert(users_of(self.users@).take(i + 1) =~= pre_prefix.push(
                    self.users@[i as int]@,
                ));
            }
            match cmd {
                Some(m) => {
                    msgs.push(m);
                    proof {
                        assert(msgs_of(msgs@) =~= pre_msgs + opt_cmds(crate::msg::opt_cmd(cmd)));
                    }
                },
                None => {
                    proof {
                        assert(msgs_of(msgs@) =~= pre_msgs + opt_cmds(crate::msg::opt_cmd(cmd)));
                    }
                },
            }
            i = i + 1;
        }
        proof {
            assert(us0.take(us0.len() as int) =~= us0);
            assert(users_of(self.users@).take(users_of(self.users@).len() as int) =~= users_of(
                self.users@,
            ));
            assert forall|j: int| 0 <= j < old(self).users_v().len() implies user_tick_rel(
                old(self).users_v()[j],
                #[trigger] self.users_v()[j],
            ) by {
                assert(user_tick_rel(old(self).users@[j]@, self.users@[j]@));
            }
        }
        msgs
    }

    /// Applies one inbound event: resolves the target agent or room, performs
    /// the one transition the event stands for, and collects whatever
    /// commands that transition owes.
    #[verifier::rlimit(100)]
    pub fn handle_event(&mut self, ev: UserEvent) -> (out: EngineOutput)
        requires
            old(self).wf(),
        ensures
            final(self).wf(),
            final(self).rooms.team_size == old(self).rooms.team_size,
            final(self).start_delay_ms == old(self).start_delay_ms,
            event_outcome(
                old(self).users_v(),
                old(self).rooms@,
                ev,
                final(self).users_v(),
                final(self).rooms@,
                msgs_of(out.msgs@),
                msgs_of(out.delayed@),
            ),
    {
        let mut msgs: Vec<MqttMsg> = Vec::new();
        let mut delayed: Vec<MqttMsg> = Vec::new();
        match ev {
            UserEvent::Login(x) => {
                match get_user(&x.id, &self.users) {
                    Some(i) => {
                        let u = &mut self.users[i];
                        u.cnt = -1;
                        u.get_login();
                    },
                    None => {},
                }
                proof {
                    assert(self.users_v() =~= login_ack(old(self).users_v(), x.id@));
                    assert(msgs_of(msgs@) =~= Seq::<(Seq<char>, Seq<char>)>::empty());
                    assert(msgs_of(delayed@) =~= Seq::<(Seq<char>, Seq<char>)>::empty());
                }
            },
            UserEvent::Logout(x) => {
                match get_user(&x.id, &self.users) {
                    Some(i) => {
                        let u = &mut self.users[i];
                        u.cnt = -1;
                        u.get_logout();
                    },
                    None => {},
                }
                proof {
                    assert(self.users_v() =~= logout_ack(old(self).users_v(), x.id@));
                    assert(msgs_of(msgs@) =~= Seq::<(Seq<char>, Seq<char>)>::empty());
                    assert(msgs_of(delayed@) =~= Seq::<(Seq<char>, Seq<char>)>::empty());
                }
            },
            UserEvent::Create(x) => {
                let ok = str_eq(&x.msg, "ok");
                match get_user(&x.id, &self.users) {
                    Some(i) => {
                        let u = &mut self.users[i];
                        u.cnt = -1;
                        if ok {
                            u.get_create();
                        }
                    },
                    None => {},
                }
                proof {
                    if ok {
                        assert(self.users_v() =~= create_ack(old(self).users_v(), x.id@));
                    } else {
                        assert(self.users_v() =~= ack_unblock(old(self).users_v(), x.id@));
                    }
                    assert(msgs_of(msgs@) =~= Seq::<(Seq<char>, Seq<char>)>::empty());
                    assert(msgs_of(delayed@) =~= Seq::<(Seq<char>, Seq<char>)>::empty());
                }
            },
            UserEvent::Close(x) => {
                match get_user(&x.room, &self.users) {
                    Some(i) => {
                        let u = &mut self.users[i];
                        u.cnt = -1;
                        u.get_close();
                    },
                    None => {},
                }
                proof {
                    assert(self.users_v() =~= close_ack(old(self).users_v(), x.room@));
                    assert(msgs_of(msgs@) =~= Seq::<(Seq<char>, Seq<char>)>::empty());
                    assert(msgs_of(delayed@) =~= Seq::<(Seq<char>, Seq<char>)>::empty());
                }
            },
            UserEvent::ChooseNGHero(x) => {
                match get_user(&x.id, &self.users) {
                    Some(i) => {
                        let u = &mut self.users[i];
                        u.cnt = -1;
                        u.get_choose_hero(x.hero);
                    },
                    None => {},
                }
                proof {
                    assert(self.users_v() =~= hero_ack(old(self).users_v(), x.id@, x.hero@));
                    assert(msgs_of(msgs@) =~= Seq::<(Seq<char>, Seq<char>)>::empty());
                    assert(msgs_of(delayed@) =~= Seq::<(Seq<char>, Seq<char>)>::empty());
                }
            },
            UserEvent::Invite(x) => {
                match get_user(&x.id, &self.users) {
                    Some(i) => {
                        let u = &mut self.users[i];
                        u.cnt = -1;
                        u.get_invite();
                    },
                    None => {},
                }
                proof {
                    assert(self.users_v() =~= ack_unblock(old(self).users_v(), x.id@));
                    assert(msgs_of(msgs@) =~= Seq::<(Seq<char>, Seq<char>)>::empty());
                    assert(msgs_of(delayed@) =~= Seq::<(Seq<char>, Seq<char>)>::empty());
                }
            },
            UserEvent::StartQueue(x) => {
                match get_user(&x.id, &self.users) {
                    Some(i) => {
                        let u = &mut self.users[i];
                        u.cnt = -1;
                        u.get_start_queue();
                    },
                    None => {},
                }
                proof {
                    assert(self.users_v() =~= queue_ack(old(self).users_v(), x.id@));
                    assert(msgs_of(msgs@) =~= Seq::<(Seq<char>, Seq<char>)>::empty());
                    assert(msgs_of(delayed@) =~= Seq::<(Seq<char>, Seq<char>)>::empty());
                }
            },
            UserEvent::StartGet(x) => {
                match get_user(&x.id, &self.users) {
                    Some(i) => {
                        let u = &mut self.users[i];
                        u.cnt = -1;
                        u.isPlaying = true;
                        u.start_get();
                    },
                    None => {},
                }
                proof {
                    assert(self.users_v() =~= start_get_ack(old(self).users_v(), x.id@));
                    assert(msgs_of(msgs@) =~= Seq::<(Seq<char>, Seq<char>)>::empty());
                    assert(msgs_of(delayed@) =~= Seq::<(Seq<char>, Seq<char>)>::empty());
                }
            },
            UserEvent::Join(x) => {
                let ok = str_eq(&x.msg, "ok");
                match get_user(&x.id, &self.users) {
                    Some(i) => {
                        let u = &mut self.users[i];
                        u.cnt = -1;
                        if ok {
                            u.get_join(x.room.clone());
                        }
                    },
                    None => {},
                }
                if ok {
                    proof {
                        assert(self.users_v() =~= join_ack(old(self).users_v(), x.id@, x.room@));
                    }
                    self.rooms.record_join(&x.room, x.id);
                } else {
                    proof {
                        assert(self.users_v() =~= ack_unblock(old(self).users_v(), x.id@));
                    }
                }
                proof {
                    assert(msgs_of(msgs@) =~= Seq::<(Seq<char>, Seq<char>)>::empty());
                    assert(msgs_of(delayed@) =~= Seq::<(Seq<char>, Seq<char>)>::empty());
                }
            },
            UserEvent::PreStart(x) => {
                if str_eq(&x.msg, "stop queue") {
                    match get_user(&x.id, &self.users) {
                        Some(i) => {
                            let u = &mut self.users[i];
                            u.cnt = -1;
                            let c = u.get_prestart(false);
                            proof {
                                assert(c is None);
                            }
                        },
                        None => {},
                    }
                    proof {
                        assert(self.users_v() =~= prestart_deny_ack(old(self).users_v(), x.id@));
                        assert(msgs_of(msgs@) =~= Seq::<(Seq<char>, Seq<char>)>::empty());
                    }
                } else {
                    let members: Vec<String> = match self.rooms.get(&x.id) {
                        Some(rr) => clone_strings(&rr.ids),
                        None => Vec::new(),
                    };
                    proof {
                        assert(members@.map_values(|s: String| s@) =~= room_members(
                            self.rooms@,
                            x.id@,
                        ));
                    }
                    let ghost member_ids = members@.map_values(|s: String| s@);
                    let ghost users0 = self.users_v();
                    let mut k: usize = 0;
                    while k < members.len()
                        invariant
                            k <= members@.len(),
                            member_ids == members@.map_values(|s: String| s@),
                            self.rooms == old(self).rooms,
                            self.start_delay_ms == old(self).start_delay_ms,
                            (self.users_v(), msgs_of(msgs@)) == prestart_room_spec(
                                users0,
                                member_ids.take(k as int),
                            ),
                            delayed@.len() == 0,
                        decreases members@.len() - k,
                    {
                        let ghost pre = self.users_v();
                        let ghost pre_msgs = msgs_of(msgs@);
                        match get_user(&members[k], &self.users) {
                            Some(i) => {
                                let already = self.users[i].isPreStart;
                                if !already {
                                    let u = &mut self.users[i];
                                    u.cnt = -1;
                                    let c = u.get_prestart(true);
                                    match c {
                                        Some(m) => msgs.push(m),
                                        None => {},
                                    }
                                }
                            },
                            None => {},
                        }
                        proof {
                            let step = prestart_grant_one(pre, member_ids[k as int]);
                            assert(self.users_v() =~= step.0);
                            assert(msgs_of(msgs@) =~= pre_msgs + step.1);
                            lemma_prestart_room_push(
                                users0,
                                member_ids.take(k as int),
                                member_ids[k as int],
                            );
                            assert(member_ids.take(k + 1) =~= member_ids.take(k as int).push(
                                member_ids[k as int],
                            ));
                        }
                        k = k + 1;
                    }
                    proof {
                        assert(member_ids.take(member_ids.len() as int) =~= member_ids);
                    }
                }
                proof {
                    assert(msgs_of(delayed@) =~= Seq::<(Seq<char>, Seq<char>)>::empty());
                }
            },
            UserEvent::Start(_) => {
                proof {
                    assert(msgs_of(msgs@) =~= Seq::<(Seq<char>, Seq<char>)>::empty());
                    assert(msgs_of(delayed@) =~= Seq::<(Seq<char>, Seq<char>)>::empty());
                }
            },
            UserEvent::GameSingal(x) => {
                delayed.push(wire::start_game_cmd(x.game));
                proof {
                    assert(msgs_of(msgs@) =~= Seq::<(Seq<char>, Seq<char>)>::empty());
                    assert(msgs_of(delayed@) =~= seq![
                        (
                            wire::start_game_topic(x.game as nat),
                            wire::start_game_payload(x.game as nat),
                        ),
                    ]);
                }
            },
            UserEvent::StartGame(x) => {
                let pair = self.resolve_game(&x);
                msgs = pair;
                proof {
                    assert(msgs_of(delayed@) =~= Seq::<(Seq<char>, Seq<char>)>::empty());
                }
            },
        }
        EngineOutput { msgs, delayed }
    }

    /// Resolves a started game: draws the winning team, partitions the roster
    /// into winner and loser lists, sends every member's agent to game over,
    /// synthesizes its statistics record, and renders the two aggregate
    /// summaries.
    pub fn resolve_game(&mut self, x: &StartGameRes) -> (msgs: Vec<MqttMsg>)
        requires
            old(self).wf(),
        ensures
            final(self).wf(),
            final(self).rooms == old(self).rooms,
            final(self).start_delay_ms == old(self).start_delay_ms,
            final(self).users_v() == roster_over_spec(
                old(self).users_v(),
                roster_ids(roster_of(x.member@)),
            ),
            exists|winner: int, infos: Seq<UserInfoView>|
                #![trigger win_ids(roster_of(x.member@), winner), game_info_json(x.game as nat, infos)]
                {
                    let ms = roster_of(x.member@);
                    let g = x.game as nat;
                    &&& (winner == 1 || winner == 2)
                    &&& infos_match(old(self).users_v(), roster_ids(ms), infos)
                    &&& msgs_of(msgs@) == seq![
                        (
                            wire::game_over_topic(g),
                            game_over_json(g, win_ids(ms, winner), lose_ids(ms, winner)),
                        ),
                        (wire::game_info_topic(g), game_info_json(g, infos)),
                    ]
                },
    {
        let ghost ms = roster_of(x.member@);
        let ghost users0 = self.users_v();
        let winner: u16 = (1 + rand_below(2)) as u16;
        let mut data = GameOverData { game: x.game, win: Vec::new(), lose: Vec::new() };
        let mut infos: Vec<UserInfoData> = Vec::new();
        let mut k: usize = 0;
        proof {
            lemma_roster_over_keeps_identity(users0, roster_ids(ms).take(0));
        }
        while k < x.member.len()
            invariant
                k <= x.member@.len(),
                ms == roster_of(x.member@),
                self.rooms == old(self).rooms,
                self.start_delay_ms == old(self).start_delay_ms,
                users0 == old(self).users_v(),
                self.users_v() == roster_over_spec(users0, roster_ids(ms).take(k as int)),
                data.game == x.game,
                data.win@.map_values(|s: String| s@) == win_ids(ms.take(k as int), winner as int),
                data.lose@.map_values(|s: String| s@) == lose_ids(ms.take(k as int), winner as int),
                infos_match(
                    users0,
                    roster_ids(ms).take(k as int),
                    infos@.map_values(|d: UserInfoData| d@),
                ),
            decreases x.member@.len() - k,
        {
            let ghost pre = self.users_v();
            proof {
                assert(ms.take(k + 1) =~= ms.take(k as int).push(ms[k as int]));
                assert(roster_ids(ms).take(k + 1) =~= roster_ids(ms).take(k as int).push(
                    ms[k as int].id,
                ));
                lemma_win_lose_push(ms.take(k as int), winner as int, ms[k as int]);
                lemma_roster_over_push(users0, roster_ids(ms).take(k as int), ms[k as int].id);
                lemma_roster_over_keeps_identity(users0, roster_ids(ms).take(k as int));
                lemma_find_user_same_ids(pre, users0, ms[k as int].id);
            }
            let m = &x.member[k];
            if m.team == winner {
                data.win.push(m.id.clone());
            } else {
                data.lose.push(m.id.clone());
            }
            proof {
                assert(data.win@.map_values(|s: String| s@) =~= win_ids(
                    ms.take(k + 1),
                    winner as int,
                ));
                assert(data.lose@.map_values(|s: String| s@) =~= lose_ids(
                    ms.take(k + 1),
                    winner as int,
                ));
            }
            let ghost pre_infos = infos@.map_values(|d: UserInfoData| d@);
            match get_user(&m.id, &self.users) {
                Some(i) => {
                    let uid = self.users[i].id.clone();
                    let uhero = self.users[i].hero.clone();
                    let u = &mut self.users[i];
                    u.game_over();
                    let info = roll_user_info(uid, uhero);
                    proof {
                        let f = find_user(users0, ms[k as int].id);
                        assert(f == i);
                        assert(pre[f].id == users0[f].id && pre[f].hero == users0[f].hero);
                        assert(info_for(users0[f].id, users0[f].hero, info@));
                        lemma_infos_match_push_found(
                            users0,
                            roster_ids(ms).take(k as int),
                            pre_infos,
                            ms[k as int].id,
                            info@,
                        );
                    }
                    infos.push(info);
                    proof {
                        assert(self.users_v() =~= game_over_one(pre, ms[k as int].id));
                        assert(infos@.map_values(|d: UserInfoData| d@) =~= pre_infos.push(info@));
                    }
                },
                None => {
                    proof {
                        lemma_infos_match_push_missing(
                            users0,
                            roster_ids(ms).take(k as int),
                            pre_infos,
                            ms[k as int].id,
                        );
                        assert(self.users_v() =~= game_over_one(pre, ms[k as int].id));
                    }
                },
            }
            k = k + 1;
        }
        proof {
            assert(ms.take(ms.len() as int) =~= ms);
            assert(roster_ids(ms).take(roster_ids(ms).len() as int) =~= roster_ids(ms));
        }
        let over_payload = game_over_json_of(&data);
        let info_payload = game_info_json_of(x.game, &infos);
        let g = u64_dec(x.game as u64);
        let mut msgs: Vec<MqttMsg> = Vec::new();
        msgs.push(
            MqttMsg {
                topic: crate::text::concat3("game/", g.as_str(), "/send/game_over"),
                msg: over_payload,
            },
        );
        msgs.push(
            MqttMsg {
                topic: crate::text::concat3("game/", g.as_str(), "/send/game_info"),
                msg: info_payload,
            },
        );
        proof {
            let gn = x.game as nat;
            assert(msgs_of(msgs@) =~= seq![
                (
                    wire::game_over_topic(gn),
                    game_over_json(gn, win_ids(ms, winner as int), lose_ids(ms, winner as int)),
                ),
                (
                    wire::game_info_topic(gn),
                    game_info_json(gn, infos@.map_values(|d: UserInfoData| d@)),
                ),
            ]);
        }
        msgs
    }
}

/// Clones a list of ids.
fn clone_strings(v: &Vec<String>) -> (r: Vec<String>)
    ensures
        r@.map_values(|s: String| s@) == v@.map_values(|s: String| s@),
{
    let mut r: Vec<String> = Vec::new();
    let mut i: usize = 0;
    while i < v.len()
        invariant
            i <= v@.len(),
            r@.len() == i,
            forall|j: int| 0 <= j < i ==> #[trigger] r@[j]@ == v@[j]@,
        decreases v@.len() - i,
    {
        r.push(v[i].clone());
        i = i + 1;
    }
    proof {
        assert(r@.map_values(|s: String| s@) =~= v@.map_values(|s: String| s@));
    }
    r
}

} // verus!
