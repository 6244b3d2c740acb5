//! Verified JSON rendering of the aggregate game summaries.
//!
//! Object keys are emitted in lexicographic order, the order a map-backed
//! encoder gives them, so the wire shape matches what the backend's consumers
//! already accept. Values are spliced in raw: every id and hero name in this
//! simulation is plain ASCII without characters that would need escaping.

use vstd::prelude::*;

use crate::event::GameOverData;
use crate::event::UserInfoData;
use crate::event::UserInfoView;
use crate::text::dec_str;
use crate::text::u64_dec;

verus! {

/// `"<s>"`
pub open spec fn quoted(s: Seq<char>) -> Seq<char> {
    "\""@ + s + "\""@
}

/// The comma-joined quoted items of a JSON string array.
pub open spec fn json_str_items(items: Seq<Seq<char>>) -> Seq<char>
    decreases items.len(),
{
    if items.len() == 0 {
        Seq::empty()
    } else if items.len() == 1 {
        quoted(items[0])
    } else {
        quoted(items[0]) + ","@ + json_str_items(items.drop_first())
    }
}

/// `["a","b",...]`
pub open spec fn json_str_list(items: Seq<Seq<char>>) -> Seq<char> {
    "["@ + json_str_items(items) + "]"@
}

proof fn lemma_json_str_items_push(items: Seq<Seq<char>>, x: Seq<char>)
    ensures
        json_str_items(items.push(x)) == (if items.len() == 0 {
            quoted(x)
        } else {
            json_str_items(items) + ","@ + quoted(x)
        }),
    decreases items.len(),
{
    let pushed = items.push(x);
    if items.len() == 0 {
        assert(pushed.len() == 1);
        assert(pushed[0] == x);
    } else {
        assert(pushed.drop_first() =~= items.drop_first().push(x));
        lemma_json_str_items_push(items.drop_first(), x);
        if items.len() == 1 {
            assert(json_str_items(items) == quoted(items[0]));
        } else {
            assert(json_str_items(items) + ","@ + quoted(x) =~= quoted(items[0]) + ","@ + (
            json_str_items(items.drop_first()) + ","@ + quoted(x)));
        }
    }
}

/// Renders a vector of strings as a JSON string array.
pub fn json_str_list_of(items: &Vec<String>) -> (r: String)
    ensures
        r@ == json_str_list(items@.map_values(|s: String| s@)),
{
    let ghost model = items@.map_values(|s: String| s@);
    let mut s = String::new();
    s.push_str("[");
    let mut i: usize = 0;
    while i < items.len()
        invariant
            i <= items.len(),
            model == items@.map_values(|t: String| t@),
            s@ == "["@ + json_str_items(model.take(i as int)),
        decreases items.len() - i,
    {
        if i > 0 {
            s.push_str(",");
        }
        s.push_str("\"");
        s.push_str(items[i].as_str());
        s.push_str("\"");
        proof {
            assert(model.take(i + 1) =~= model.take(i as int).push(model[i as int]));
            lemma_json_str_items_push(model.take(i as int), model[i as int]);
            assert(s@ =~= "["@ + json_str_items(model.take(i + 1)));
        }
        i = i + 1;
    }
    s.push_str("]");
    proof {
        assert(model.take(model.len() as int) =~= model);
        assert(s@ =~= json_str_list(model));
    }
    s
}

/// One statistics record, keys in lexicographic order.
pub open spec fn user_info_json(v: UserInfoView) -> Seq<char> {
    "{\"assist\":"@ + dec_str(v.assist as nat) + ",\"damage\":"@ + dec_str(v.damage as nat)
        + ",\"death\":"@ + dec_str(v.death as nat) + ",\"equ\":"@ + json_str_list(v.equ)
        + ",\"gift\":{\"A\":"@ + dec_str(v.giftA as nat) + ",\"B\":"@ + dec_str(v.giftB as nat)
        + ",\"C\":"@ + dec_str(v.giftC as nat) + ",\"D\":"@ + dec_str(v.giftD as nat) + ",\"E\":"@
        + dec_str(v.giftE as nat) + "},\"heal\":"@ + dec_str(v.heal as nat) + ",\"hero\":"@
        + quoted(v.hero) + ",\"id\":"@ + quoted(v.id) + ",\"kill\":"@ + dec_str(v.kill as nat)
        + ",\"level\":"@ + dec_str(v.level as nat) + ",\"take_damage\":"@ + dec_str(
        v.take_damage as nat,
    ) + "}"@
}

/// Renders one statistics record.
#[verifier::rlimit(60)]
pub fn user_info_json_of(d: &UserInfoData) -> (r: String)
    ensures
        r@ == user_info_json(d@),
{
    let mut s = String::new();
    s.push_str("{\"assist\":");
    s.push_str(u64_dec(d.assist as u64).as_str());
    s.push_str(",\"damage\":");
    s.push_str(u64_dec(d.damage as u64).as_str());
    s.push_str(",\"death\":");
    s.push_str(u64_dec(d.death as u64).as_str());
    s.push_str(",\"equ\":");
    s.push_str(json_str_list_of(&d.equ).as_str());
    s.push_str(",\"gift\":{\"A\":");
    s.push_str(u64_dec(d.gift.A as u64).as_str());
    s.push_str(",\"B\":");
    s.push_str(u64_dec(d.gift.B as u64).as_str());
    s.push_str(",\"C\":");
    s.push_str(u64_dec(d.gift.C as u64).as_str());
    s.push_str(",\"D\":");
    s.push_str(u64_dec(d.gift.D as u64).as_str());
    s.push_str(",\"E\":");
    s.push_str(u64_dec(d.gift.E as u64).as_str());
    s.push_str("},\"heal\":");
    s.push_str(u64_dec(d.heal as u64).as_str());
    s.push_str(",\"hero\":");
    s.push_str("\"");
    s.push_str(d.hero.as_str());
    s.push_str("\"");
    s.push_str(",\"id\":");
    s.push_str("\"");
    s.push_str(d.id.as_str());
    s.push_str("\"");
    s.push_str(",\"kill\":");
    s.push_str(u64_dec(d.kill as u64).as_str());
    s.push_str(",\"level\":");
    s.push_str(u64_dec(d.level as u64).as_str());
    s.push_str(",\"take_damage\":");
    s.push_str(u64_dec(d.take_damage as u64).as_str());
    s.push_str("}");
    proof {
        assert(s@ =~= user_info_json(d@));
    }
    s
}

/// The comma-joined records of the `users` array.
pub open spec fn json_info_items(items: Seq<UserInfoView>) -> Seq<char>
    decreases items.len(),
{
    if items.len() == 0 {
        Seq::empty()
    } else if items.len() == 1 {
        user_info_json(items[0])
    } else {
        user_info_json(items[0]) + ","@ + json_info_items(items.drop_first())
    }
}

proof fn lemma_json_info_items_push(items: Seq<UserInfoView>, x: UserInfoView)
    ensures
        json_info_items(items.push(x)) == (if items.len() == 0 {
            user_info_json(x)
        } else {
            json_info_items(items) + ","@ + user_info_json(x)
        }),
    decreases items.len(),
{
    let pushed = items.push(x);
    if items.len() == 0 {
        assert(pushed.len() == 1);
        assert(pushed[0] == x);
    } else {
        assert(pushed.drop_first() =~= items.drop_first().push(x));
        lemma_json_info_items_push(items.drop_first(), x);
        if items.len() == 1 {
            assert(json_info_items(items) == user_info_json(items[0]));
        } else {
            assert(json_info_items(items) + ","@ + user_info_json(x) =~= user_info_json(items[0])
                + ","@ + (json_info_items(items.drop_first()) + ","@ + user_info_json(x)));
        }
    }
}

/// `{"game":<game>,"lose":[...],"win":[...]}`
pub open spec fn game_over_json(game: nat, win: Seq<Seq<char>>, lose: Seq<Seq<char>>) -> Seq<
    char,
> {
    "{\"game\":"@ + dec_str(game) + ",\"lose\":"@ + json_str_list(lose) + ",\"win\":"@
        + json_str_list(win) + "}"@
}

/// Renders the game-over summary.
pub fn game_over_json_of(d: &GameOverData) -> (r: String)
    ensures
        r@ == game_over_json(
            d.game as nat,
            d.win@.map_values(|s: String| s@),
            d.lose@.map_values(|s: String| s@),
        ),
{
    let mut s = String::new();
    s.push_str("{\"game\":");
    s.push_str(u64_dec(d.game as u64).as_str());
    s.push_str(",\"lose\":");
    s.push_str(json_str_list_of(&d.lose).as_str());
    s.push_str(",\"win\":");
    s.push_str(json_str_list_of(&d.win).as_str());
    s.push_str("}");
    proof {
        assert(s@ =~= game_over_json(
            d.game as nat,
            d.win@.map_values(|t: String| t@),
            d.lose@.map_values(|t: String| t@),
        ));
    }
    s
}

/// `{"game":<game>,"users":[...]}`
pub open spec fn game_info_json(game: nat, infos: Seq<UserInfoView>) -> Seq<char> {
    "{\"game\":"@ + dec_str(game) + ",\"users\":["@ + json_info_items(infos) + "]}"@
}

/// Renders the game-info summary.
pub fn game_info_json_of(game: u32, infos: &Vec<UserInfoData>) -> (r: String)
    ensures
        r@ == game_info_json(game as nat, infos@.map_values(|d: UserInfoData| d@)),
{
    let ghost model = infos@.map_values(|d: UserInfoData| d@);
    let mut s = String::new();
    s.push_str("{\"game\":");
    s.push_str(u64_dec(game as u64).as_str());
    s.push_str(",\"users\":[");
    let ghost head = s@;
    let mut i: usize = 0;
    while i < infos.len()
        invariant
            i <= infos.len(),
            model == infos@.map_values(|d: UserInfoData| d@),
            head == "{\"game\":"@ + dec_str(game as nat) + ",\"users\":["@,
            s@ == head + json_info_items(model.take(i as int)),
        decreases infos.len() - i,
    {
        if i > 0 {
            s.push_str(",");
        }
        s.push_str(user_info_json_of(&infos[i]).as_str());
        proof {
            assert(model.take(i + 1) =~= model.take(i as int).push(model[i as int]));
            lemma_json_info_items_push(model.take(i as int), model[i as int]);
            assert(s@ =~= head + json_info_items(model.take(i + 1)));
        }
        i = i + 1;
    }
    s.push_str("]}");
    proof {
        assert(model.take(model.len() as int) =~= model);
        assert(s@ =~= game_info_json(game as nat, model));
    }
    s
}

} // verus!
