//! Reset cards, and the answers of the console service that lists and uses them.

use crate::api::code_text;
use crate::json::{json_text, parse_json, trees, Json, JsonTree};
use crate::text::{
    cut, decimal, first_chars, is_text_before, text_before, text_order_total,
    text_order_transitive,
};
use vstd::prelude::*;
use vstd::string::*;

verus! {

/// A card, which is good for one reset of a window.
#[derive(Debug, Clone)]
pub struct ResetRecord {
    pub record_id: i64,
    /// When the card runs out, as the service writes it (`2026-10-01 23:59:59`). Such times are
    /// ordered like the texts.
    pub expire_time: String,
    pub available: bool,
}

/// The cards of an account.
#[derive(Debug, Clone)]
pub struct ResetCards {
    pub five_hour: Vec<ResetRecord>,
    pub week: Vec<ResetRecord>,
}

impl Default for ResetCards {
    fn default() -> (r: Self)
        ensures
            r.five_hour@.len() == 0,
            r.week@.len() == 0,
    {
        ResetCards { five_hour: Vec::new(), week: Vec::new() }
    }
}

/// The card at place `i` can be used, and none that can be used runs out before it, nor at the
/// same time in an earlier place.
pub open spec fn is_best(list: Seq<ResetRecord>, i: int) -> bool {
    &&& 0 <= i < list.len()
    &&& list[i].available
    &&& forall|j: int|
        0 <= j < list.len() && (#[trigger] list[j]).available ==> !text_before(
            list[j].expire_time@,
            list[i].expire_time@,
        )
    &&& forall|j: int|
        0 <= j < i && (#[trigger] list[j]).available ==> text_before(
            list[i].expire_time@,
            list[j].expire_time@,
        )
}

impl ResetCards {
    /// The cards for the week, or those for the five hours.
    pub open spec fn cards(self, week: bool) -> Seq<ResetRecord> {
        if week {
            self.week@
        } else {
            self.five_hour@
        }
    }

    fn list(&self, week: bool) -> (r: &Vec<ResetRecord>)
        ensures
            r@ == self.cards(week),
    {
        if week {
            &self.week
        } else {
            &self.five_hour
        }
    }

    /// How many cards can be used.
    pub fn available_count(&self, week: bool) -> (n: usize)
        ensures
            n == self.cards(week).filter(|r: ResetRecord| r.available).len(),
    {
        let list = self.list(week);
        let ghost usable = |r: ResetRecord| r.available;
        let mut n: usize = 0;
        let mut i: usize = 0;
        proof {
            reveal(Seq::filter);
        }
        while i < list.len()
            invariant
                n <= i <= list@.len(),
                usable == (|r: ResetRecord| r.available),
                n == list@.take(i as int).filter(usable).len(),
            decreases list@.len() - i,
        {
            proof {
                reveal(Seq::filter);
                assert(list@.take(i + 1).drop_last() =~= list@.take(i as int));
            }
            if list[i].available {
                n = n + 1;
            }
            i = i + 1;
        }
        assert(list@.take(i as int) =~= list@);
        n
    }

    /// The card to use first: of those that can be used, the one that runs out first.
    pub fn pick(&self, week: bool) -> (r: Option<&ResetRecord>)
        ensures
            match r {
                Some(card) => exists|i: int| #[trigger]
                    is_best(self.cards(week), i) && *card == self.cards(week)[i],
                None => forall|i: int|
                    0 <= i < self.cards(week).len() ==> !(#[trigger] self.cards(week)[i]).available,
            },
    {
        let list = self.list(week);
        let mut best: Option<usize> = None;
        let mut i: usize = 0;
        while i < list.len()
            invariant
                i <= list@.len(),
                match best {
                    Some(b) => b < i && is_best(list@.take(i as int), b as int),
                    None => forall|j: int| 0 <= j < i ==> !(#[trigger] list@[j]).available,
                },
            decreases list@.len() - i,
        {
            let ghost seen = list@.take(i as int);
            let ghost more = list@.take(i + 1);
            assert(forall|j: int| 0 <= j < i ==> seen[j] == #[trigger] more[j]);
            assert(more[i as int] == list@[i as int]);
            if list[i].available {
                let better = match best {
                    Some(b) => is_text_before(
                        list[i].expire_time.as_str(),
                        list[b].expire_time.as_str(),
                    ),
                    None => true,
                };
                proof {
                    let mine = list@[i as int].expire_time@;
                    text_order_total(mine, mine);
                    if better {
                        assert forall|j: int| 0 <= j < i && (#[trigger] more[j]).available implies
                            text_before(mine, more[j].expire_time@) by {
                            assert(seen[j] == list@[j]);
                            if best is Some {
                                let held = list@[best->0 as int].expire_time@;
                                let other = more[j].expire_time@;
                                assert(seen[best->0 as int] == list@[best->0 as int]);
                                assert(!text_before(other, held));
                                text_order_total(other, held);
                                if other != held {
                                    text_order_transitive(mine, held, other);
                                }
                            }
                        }
                        assert forall|j: int| 0 <= j < i + 1 && (#[trigger] more[j]).available implies
                            !text_before(more[j].expire_time@, mine) by {
                            text_order_total(mine, more[j].expire_time@);
                        }
                    } else {
                        assert(more[best->0 as int] == seen[best->0 as int]);
                    }
                }
                if better {
                    best = Some(i);
                }
            } else {
                proof {
                    if best is Some {
                        assert(more[best->0 as int] == seen[best->0 as int]);
                    }
                }
            }
            i = i + 1;
        }
        assert(list@.take(i as int) =~= list@);
        match best {
            Some(b) => Some(&list[b]),
            None => None,
        }
    }
}

/// At most one card is the best: `pick` leaves no choice.
pub proof fn best_card_is_unique(list: Seq<ResetRecord>, i: int, j: int)
    requires
        is_best(list, i),
        is_best(list, j),
    ensures
        i == j,
{
}

/// The card that is picked runs out no later than any other that can be used.
pub proof fn best_card_expires_first(list: Seq<ResetRecord>, i: int, j: int)
    requires
        is_best(list, i),
        0 <= j < list.len(),
        list[j].available,
    ensures
        list[i].available,
        list[i].expire_time@ == list[j].expire_time@ || text_before(
            list[i].expire_time@,
            list[j].expire_time@,
        ),
{
    text_order_total(list[i].expire_time@, list[j].expire_time@);
}

// ---------------------------------------------------------------------------------------------
// Messages
// ---------------------------------------------------------------------------------------------

/// The message in a document: the field `msg`, or `error` where there is no `msg`.
pub open spec fn message(json: JsonTree) -> Option<Seq<char>> {
    match json.field("msg"@) {
        Some(m) => m.text(),
        None => match json.field("error"@) {
            Some(m) => m.text(),
            None => None,
        },
    }
}

/// The message in a text, where it is a document that has one.
pub open spec fn message_in(text: Seq<char>) -> Option<Seq<char>> {
    match json_text(text) {
        Ok(json) => message(json),
        Err(_) => None,
    }
}

/// `r` holds the text that `wanted` does.
pub open spec fn holds_text(r: Option<String>, wanted: Option<Seq<char>>) -> bool {
    match r {
        Some(s) => wanted == Some(s@),
        None => wanted is None,
    }
}

fn owned(text: Option<&String>) -> (r: Option<String>)
    ensures
        match text {
            Some(s) => r == Some(*s),
            None => r is None,
        },
{
    match text {
        Some(s) => Some(s.clone()),
        None => None,
    }
}

/// The message in a document.
pub fn message_of(json: &Json) -> (r: Option<String>)
    ensures
        holds_text(r, message(json@)),
{
    match json.get("msg") {
        Some(m) => owned(m.as_str()),
        None => match json.get("error") {
            Some(m) => owned(m.as_str()),
            None => None,
        },
    }
}

/// The message in the body of an answer.
pub fn extract_msg(body: &str) -> (r: Option<String>)
    ensures
        holds_text(r, message_in(body@)),
{
    match parse_json(body) {
        Ok(json) => message_of(&json),
        Err(_) => None,
    }
}

/// What is reported of an answer whose status is no success: its own message, or the status once
/// more.
pub open spec fn http_report(status: Seq<char>, message: Option<Seq<char>>) -> Seq<char> {
    "HTTP "@ + status + ": "@ + match message {
        Some(m) => m,
        None => status,
    }
}

/// What is reported of an activating request that failed: the message of the answer, or the start
/// of its body.
pub open spec fn activation_report(
    status: Seq<char>,
    message: Option<Seq<char>>,
    body: Seq<char>,
) -> Seq<char> {
    "HTTP "@ + status + ": "@ + match message {
        Some(m) => m,
        None => first_chars(body, 120),
    }
}

fn report(status: &str, detail: &str) -> (r: String)
    ensures
        r@ == "HTTP "@ + status@ + ": "@ + detail@,
{
    let mut text = "HTTP ".to_owned();
    text.append(status);
    text.append(": ");
    text.append(detail);
    text
}

/// The error for an answer whose status is no success.
pub fn http_error(status: &str, body: &str) -> (r: String)
    ensures
        r@ == http_report(status@, message_in(body@)),
{
    match extract_msg(body) {
        Some(m) => report(status, m.as_str()),
        None => report(status, status),
    }
}

/// The error for an activating request whose answer is no success.
pub fn activation_error(status: &str, body: &str) -> (r: String)
    ensures
        r@ == activation_report(status@, message_in(body@), body@),
{
    match extract_msg(body) {
        Some(m) => report(status, m.as_str()),
        None => {
            let start = cut(body, 120);
            report(status, start.as_str())
        },
    }
}

// ---------------------------------------------------------------------------------------------
// Answers of the console service
// ---------------------------------------------------------------------------------------------

/// The code of an answer, or -1 where it has none.
pub open spec fn biz_code(json: JsonTree) -> int {
    match json.field("code"@) {
        Some(c) => match c.whole() {
            Some(n) => n as int,
            None => -1,
        },
        None => -1,
    }
}

/// The answer reports success: by its code and in so many words.
pub open spec fn biz_success(json: JsonTree) -> bool {
    &&& biz_code(json) == 200
    &&& json.field("success"@) is Some
    &&& json.field("success"@)->0.truth() == Some(true)
}

/// What is reported of an answer without success: its message, or its code.
pub open spec fn biz_report(json: JsonTree) -> Seq<char> {
    match json.field("msg"@) {
        Some(m) => match m.text() {
            Some(t) => t,
            None => "code "@ + decimal(biz_code(json)),
        },
        None => "code "@ + decimal(biz_code(json)),
    }
}

/// An answer that reports success, or what is reported of another.
pub fn biz_result(json: Json) -> (r: Result<Json, String>)
    ensures
        biz_success(json@) ==> r == Ok::<Json, String>(json),
        !biz_success(json@) ==> r is Err && r->Err_0@ == biz_report(json@),
{
    let code: i64 = match json.get("code") {
        Some(c) => match c.as_i64() {
            Some(n) => n,
            None => -1,
        },
        None => -1,
    };
    let success = match json.get("success") {
        Some(s) => match s.as_bool() {
            Some(b) => b,
            None => false,
        },
        None => false,
    };
    if code != 200 || !success {
        let msg = match json.get("msg") {
            Some(m) => owned(m.as_str()),
            None => None,
        };
        return Err(
            match msg {
                Some(m) => m,
                None => code_text(code),
            },
        );
    }
    Ok(json)
}

fn unreadable(reason: &str) -> (r: String)
    ensures
        r@ == "解析失败: "@ + reason@,
{
    let mut text = "解析失败: ".to_owned();
    text.append(reason);
    text
}

/// Reads an answer of the console service, whose HTTP status is always a success: how the request
/// went is in its body.
pub fn parse_biz_response(body: &str) -> (r: Result<Json, String>)
    ensures
        match json_text(body@) {
            Err(e) => r is Err && r->Err_0@ == "解析失败: "@ + e,
            Ok(json) => if biz_success(json) {
                r is Ok && r->Ok_0@ == json
            } else {
                r is Err && r->Err_0@ == biz_report(json)
            },
        },
{
    match parse_json(body) {
        Ok(json) => biz_result(json),
        Err(e) => Err(unreadable(e.as_str())),
    }
}

/// How a request to use a card went.
pub fn use_card_result(body: &str) -> (r: Result<(), String>)
    ensures
        match json_text(body@) {
            Err(e) => r is Err && r->Err_0@ == "解析失败: "@ + e,
            Ok(json) => if biz_success(json) {
                r is Ok
            } else {
                r is Err && r->Err_0@ == biz_report(json)
            },
        },
{
    match parse_biz_response(body) {
        Ok(_) => Ok(()),
        Err(e) => Err(e),
    }
}

/// What a card says.
pub struct CardView {
    pub record_id: i64,
    pub expire_time: Seq<char>,
    pub available: bool,
}

impl ResetRecord {
    pub open spec fn says(self) -> CardView {
        CardView {
            record_id: self.record_id,
            expire_time: self.expire_time@,
            available: self.available,
        }
    }
}

/// What the cards of a list say.
pub open spec fn card_views(list: Seq<ResetRecord>) -> Seq<CardView> {
    list.map_values(|r: ResetRecord| r.says())
}

/// The card that an item of an answer describes: it needs a number, while the rest may be missing.
pub open spec fn card_in(item: JsonTree) -> Option<CardView> {
    match item.field("recordId"@) {
        Some(id) => match id.whole() {
            Some(n) => Some(
                CardView {
                    record_id: n,
                    expire_time: match item.field("expireTime"@) {
                        Some(e) => match e.text() {
                            Some(t) => t,
                            None => Seq::empty(),
                        },
                        None => Seq::empty(),
                    },
                    available: match item.field("available"@) {
                        Some(a) => a.truth() == Some(true),
                        None => false,
                    },
                },
            ),
            None => None,
        },
        None => None,
    }
}

/// The cards that the items of a list describe, in their order.
pub open spec fn cards_in(items: Seq<JsonTree>) -> Seq<CardView>
    decreases items.len(),
{
    if items.len() == 0 {
        Seq::empty()
    } else {
        match card_in(items.last()) {
            Some(card) => cards_in(items.drop_last()).push(card),
            None => cards_in(items.drop_last()),
        }
    }
}

/// The cards under a key; none where there is no list.
pub open spec fn cards_under(data: JsonTree, key: Seq<char>) -> Seq<CardView> {
    match data.field(key) {
        Some(v) => match v.items() {
            Some(items) => cards_in(items),
            None => Seq::empty(),
        },
        None => Seq::empty(),
    }
}

/// `r` is what an answer says of the cards.
pub open spec fn are_cards_of(r: Result<ResetCards, String>, json: JsonTree) -> bool {
    if !biz_success(json) {
        r is Err && r->Err_0@ == biz_report(json)
    } else {
        match json.field("data"@) {
            None => r is Err && r->Err_0@ == "响应缺少 data"@,
            Some(data) => {
                &&& r is Ok
                &&& card_views(r->Ok_0.five_hour@) == cards_under(data, "fiveHourResets"@)
                &&& card_views(r->Ok_0.week@) == cards_under(data, "weekResets"@)
            },
        }
    }
}

fn card_of(item: &Json) -> (r: Option<ResetRecord>)
    ensures
        match r {
            Some(card) => card_in(item@) == Some(card.says()),
            None => card_in(item@) is None,
        },
{
    let record_id: i64 = match item.get("recordId") {
        Some(id) => match id.as_i64() {
            Some(n) => n,
            None => {
                return None;
            },
        },
        None => {
            return None;
        },
    };
    let told = match item.get("expireTime") {
        Some(e) => owned(e.as_str()),
        None => None,
    };
    let expire_time = match told {
        Some(t) => t,
        None => String::new(),
    };
    let available = match item.get("available") {
        Some(a) => match a.as_bool() {
            Some(b) => b,
            None => false,
        },
        None => false,
    };
    Some(ResetRecord { record_id, expire_time, available })
}

fn records(data: &Json, key: &str) -> (list: Vec<ResetRecord>)
    ensures
        card_views(list@) == cards_under(data@, key@),
{
    let mut list: Vec<ResetRecord> = Vec::new();
    assert(card_views(list@) =~= Seq::empty());
    let items = match data.get(key) {
        Some(v) => match v.as_array() {
            Some(items) => items,
            None => {
                return list;
            },
        },
        None => {
            return list;
        },
    };
    let ghost all = trees(items@);
    assert(all.take(0) =~= Seq::empty());
    let mut i: usize = 0;
    while i < items.len()
        invariant
            i <= items@.len(),
            all == trees(items@),
            card_views(list@) == cards_in(all.take(i as int)),
        decreases items@.len() - i,
    {
        let ghost before = card_views(list@);
        assert(all.take(i + 1).drop_last() =~= all.take(i as int));
        assert(all.take(i + 1).last() == items@[i as int]@);
        if let Some(card) = card_of(&items[i]) {
            let ghost said = card.says();
            list.push(card);
            assert(card_views(list@) =~= before.push(said));
        }
        i = i + 1;
    }
    assert(all.take(i as int) =~= all);
    list
}

/// The cards that an answer lists.
pub fn reset_cards_of(json: Json) -> (r: Result<ResetCards, String>)
    ensures
        are_cards_of(r, json@),
{
    let answer = match biz_result(json) {
        Ok(answer) => answer,
        Err(e) => {
            return Err(e);
        },
    };
    match answer.get("data") {
        Some(data) => Ok(
            ResetCards {
                five_hour: records(data, "fiveHourResets"),
                week: records(data, "weekResets"),
            },
        ),
        None => Err("响应缺少 data".to_owned()),
    }
}

/// The cards that the body of an answer lists.
pub fn parse_reset_cards(body: &str) -> (r: Result<ResetCards, String>)
    ensures
        match json_text(body@) {
            Err(e) => r is Err && r->Err_0@ == "解析失败: "@ + e,
            Ok(json) => are_cards_of(r, json),
        },
{
    match parse_json(body) {
        Ok(json) => reset_cards_of(json),
        Err(e) => Err(unreadable(e.as_str())),
    }
}

// ---------------------------------------------------------------------------------------------
// Laws
// ---------------------------------------------------------------------------------------------

/// The cards are the items of the answer that have a number, in the order of the answer. A card
/// carries the number of its item, the text of its `expireTime` unchanged, from the first character
/// to the last, and whether it can be used. There are places in the answer's list, one for each
/// card, that rise and leave out no item with a number.
pub proof fn cards_carry_what_their_items_say(
    r: Result<ResetCards, String>,
    json: JsonTree,
    week: bool,
    items: Seq<JsonTree>,
) -> (places: Seq<int>)
    requires
        are_cards_of(r, json),
        r is Ok,
        json.field("data"@)->0.field(
            if week {
                "weekResets"@
            } else {
                "fiveHourResets"@
            },
        ) == Some(JsonTree::List(items)),
    ensures
        ({
            let cards = r->Ok_0.cards(week);
            &&& places.len() == cards.len()
            &&& forall|i: int|
                0 <= i < cards.len() ==> {
                    let item = items[#[trigger] places[i]];
                    let expires = item.field("expireTime"@);
                    &&& 0 <= places[i] < items.len()
                    &&& item.field("recordId"@) is Some
                    &&& item.field("recordId"@)->0.whole() == Some(cards[i].record_id)
                    &&& expires is Some && expires->0.text() is Some ==> cards[i].expire_time@
                        == expires->0.text()->0
                    &&& expires is None || expires->0.text() is None ==> cards[i].expire_time@.len()
                        == 0
                    &&& cards[i].available <==> item.field("available"@) is Some && item.field(
                        "available"@,
                    )->0.truth() == Some(true)
                }
            &&& forall|i: int, j: int|
                0 <= i < j < cards.len() ==> #[trigger] places[i] < #[trigger] places[j]
            &&& forall|k: int|
                0 <= k < items.len() && (#[trigger] items[k]).field("recordId"@) is Some
                    && items[k].field("recordId"@)->0.whole() is Some ==> places.contains(k)
        }),
{
    let cards = r->Ok_0.cards(week);
    let said = card_views(cards);
    let places = card_places(items);
    assert(said == cards_in(items));
    assert(said.len() == cards.len());
    assert forall|i: int| 0 <= i < cards.len() implies card_in(items[#[trigger] places[i]]) == Some(
        cards[i].says(),
    ) && 0 <= places[i] < items.len() by {
        assert(said[i] == cards[i].says());
    }
    assert forall|k: int|
        0 <= k < items.len() && (#[trigger] items[k]).field("recordId"@) is Some && items[k].field(
            "recordId"@,
        )->0.whole() is Some implies places.contains(k) by {
        assert(card_in(items[k]) is Some);
    }
    places
}

/// Where the answer has no list of cards, there are none.
pub proof fn without_a_list_there_are_no_cards(
    r: Result<ResetCards, String>,
    json: JsonTree,
    week: bool,
)
    requires
        are_cards_of(r, json),
        r is Ok,
        ({
            let told = json.field("data"@)->0.field(
                if week {
                    "weekResets"@
                } else {
                    "fiveHourResets"@
                },
            );
            told is None || !(told->0 is List)
        }),
    ensures
        r->Ok_0.cards(week).len() == 0,
{
    assert(card_views(r->Ok_0.cards(week)).len() == r->Ok_0.cards(week).len());
}

proof fn card_places(items: Seq<JsonTree>) -> (places: Seq<int>)
    ensures
        places.len() == cards_in(items).len(),
        forall|i: int|
            0 <= i < places.len() ==> 0 <= #[trigger] places[i] < items.len() && card_in(
                items[places[i]],
            ) == Some(cards_in(items)[i]),
        forall|i: int, j: int|
            0 <= i < j < places.len() ==> #[trigger] places[i] < #[trigger] places[j],
        forall|k: int|
            0 <= k < items.len() && card_in(#[trigger] items[k]) is Some ==> places.contains(k),
    decreases items.len(),
{
    if items.len() == 0 {
        Seq::empty()
    } else {
        let shorter = items.drop_last();
        let last = items.len() - 1;
        let few = card_places(shorter);
        let places = if card_in(items.last()) is Some {
            few.push(last)
        } else {
            few
        };
        assert forall|i: int| 0 <= i < places.len() implies 0 <= #[trigger] places[i]
            < items.len() && card_in(items[places[i]]) == Some(cards_in(items)[i]) by {
            if i < few.len() {
                assert(places[i] == few[i]);
                assert(shorter[few[i]] == items[few[i]]);
            }
        }
        assert forall|k: int| 0 <= k < items.len() && card_in(
            #[trigger] items[k],
        ) is Some implies places.contains(k) by {
            if k < last {
                assert(shorter[k] == items[k]);
                let i = choose|i: int| 0 <= i < few.len() && few[i] == k;
                assert(places[i] == k);
            } else {
                assert(places[few.len() as int] == k);
            }
        }
        places
    }
}

/// Of the items of the answer that can be used, none has an `expireTime` before that of the card
/// that is picked, and the card that is picked is one of them.
pub proof fn the_picked_card_runs_out_first_in_the_answer(
    r: Result<ResetCards, String>,
    json: JsonTree,
    week: bool,
    items: Seq<JsonTree>,
    best: int,
    k: int,
)
    requires
        are_cards_of(r, json),
        r is Ok,
        json.field("data"@)->0.field(
            if week {
                "weekResets"@
            } else {
                "fiveHourResets"@
            },
        ) == Some(JsonTree::List(items)),
        is_best(r->Ok_0.cards(week), best),
        0 <= k < items.len(),
        items[k].field("recordId"@) is Some,
        items[k].field("recordId"@)->0.whole() is Some,
        items[k].field("available"@) == Some(JsonTree::Bool(true)),
        items[k].field("expireTime"@) is Some,
        items[k].field("expireTime"@)->0.text() is Some,
    ensures
        !text_before(
            items[k].field("expireTime"@)->0.text()->0,
            r->Ok_0.cards(week)[best].expire_time@,
        ),
        exists|j: int|
            0 <= j < items.len() && (#[trigger] items[j]).field("recordId"@) is Some
                && items[j].field("recordId"@)->0.whole() == Some(
                r->Ok_0.cards(week)[best].record_id,
            ) && items[j].field("available"@) == Some(JsonTree::Bool(true)) && (items[j].field(
                "expireTime"@,
            ) is Some && items[j].field("expireTime"@)->0.text() is Some ==> items[j].field(
                "expireTime"@,
            )->0.text()->0 == r->Ok_0.cards(week)[best].expire_time@),
{
    let cards = r->Ok_0.cards(week);
    let places = cards_carry_what_their_items_say(r, json, week, items);
    assert(places.contains(k));
    let i = choose|i: int| 0 <= i < places.len() && places[i] == k;
    assert(items[places[i]] == items[k]);
    assert(cards[i].available);
    assert(items[places[best]].field("available"@)->0.truth() == Some(true));
}

/// The cards of an answer are read exactly where it reports success, by the code 200 and in so many
/// words, and carries data. Otherwise its message is the error, or its code where there is no
/// message, or that the data are missing.
pub proof fn only_answers_with_success_are_read(r: Result<ResetCards, String>, json: JsonTree)
    requires
        are_cards_of(r, json),
    ensures
        ({
            let code = json.field("code"@);
            let fine = code is Some && code->0.whole() == Some(200i64) && json.field("success"@)
                == Some(JsonTree::Bool(true));
            let msg = json.field("msg"@);
            &&& r is Ok <==> fine && json.field("data"@) is Some
            &&& fine && r is Err ==> r->Err_0@ == "响应缺少 data"@
            &&& !fine && msg is Some && msg->0.text() is Some ==> r->Err_0@ == msg->0.text()->0
            &&& !fine && (msg is None || msg->0.text() is None) ==> {
                &&& code is Some && code->0.whole() is Some ==> r->Err_0@ == "code "@ + decimal(
                    code->0.whole()->0 as int,
                )
                &&& code is None || code->0.whole() is None ==> r->Err_0@ == "code "@ + decimal(-1)
            }
        }),
{
    success_is_told(json);
}

/// An answer reports success exactly where its code is 200 and it says so besides. What is reported
/// of another is its message, or its code.
pub proof fn success_is_told(json: JsonTree)
    ensures
        ({
            let code = json.field("code"@);
            let msg = json.field("msg"@);
            &&& biz_success(json) <==> code is Some && code->0.whole() == Some(200i64) && json.field(
                "success"@,
            ) == Some(JsonTree::Bool(true))
            &&& msg is Some && msg->0.text() is Some ==> biz_report(json) == msg->0.text()->0
            &&& msg is None || msg->0.text() is None ==> {
                &&& code is Some && code->0.whole() is Some ==> biz_report(json) == "code "@
                    + decimal(code->0.whole()->0 as int)
                &&& code is None || code->0.whole() is None ==> biz_report(json) == "code "@
                    + decimal(-1)
            }
        }),
{
}

/// The message of a document is the text under `msg`. Only where there is no `msg` at all it is the
/// text under `error`.
pub proof fn messages_stand_under_two_keys(json: JsonTree)
    ensures
        json.field("msg"@) is Some ==> message(json) == json.field("msg"@)->0.text(),
        json.field("msg"@) is None && json.field("error"@) is Some ==> message(json) == json.field(
            "error"@,
        )->0.text(),
        json.field("msg"@) is None && json.field("error"@) is None ==> message(json) is None,
{
}

/// A text has a message exactly where it is a document that has one, and an answer is reported with
/// its status and that message. Without a message the status stands twice, and an activating request
/// is reported with at most 120 characters of the body.
pub proof fn failures_are_reported_with_status_and_message(status: Seq<char>, body: Seq<char>)
    ensures
        json_text(body) is Err ==> message_in(body) is None,
        json_text(body) is Ok ==> message_in(body) == message(json_text(body)->Ok_0),
        message_in(body) matches Some(m) ==> http_report(status, message_in(body)) == "HTTP "@
            + status + ": "@ + m && activation_report(status, message_in(body), body) == "HTTP "@
            + status + ": "@ + m,
        message_in(body) is None ==> {
            &&& http_report(status, message_in(body)) == "HTTP "@ + status + ": "@ + status
            &&& body.len() <= 120 ==> activation_report(status, message_in(body), body) == "HTTP "@
                + status + ": "@ + body
            &&& body.len() > 120 ==> activation_report(status, message_in(body), body) == "HTTP "@
                + status + ": "@ + body.subrange(0, 120)
        },
{
    let start = first_chars(body, 120);
    if body.len() <= 120 {
        assert(start =~= body);
    } else {
        assert(start =~= body.subrange(0, 120));
    }
}

/// Of cards that run out at the same time, the one that is listed first is picked.
pub proof fn of_equal_cards_the_first_is_picked(list: Seq<ResetRecord>, i: int, j: int)
    requires
        is_best(list, i),
        0 <= j < list.len(),
        list[j].available,
        list[j].expire_time@ == list[i].expire_time@,
    ensures
        i <= j,
{
    let mine = list[i].expire_time@;
    if j < i {
        assert(text_before(mine, mine));
        text_order_total(mine, mine);
    }
}

/// A list with a card that can be used has a best one, and one without has none.
pub proof fn a_usable_card_can_be_picked(list: Seq<ResetRecord>)
    ensures
        (exists|i: int| is_best(list, i)) <==> exists|j: int|
            0 <= j < list.len() && (#[trigger] list[j]).available,
    decreases list.len(),
{
    if exists|i: int| is_best(list, i) {
        let i = choose|i: int| is_best(list, i);
        assert(list[i].available);
    }
    if exists|j: int| 0 <= j < list.len() && (#[trigger] list[j]).available {
        let few = list.drop_last();
        let last = list.len() - 1;
        a_usable_card_can_be_picked(few);
        assert(forall|k: int| 0 <= k < last ==> few[k] == #[trigger] list[k]);
        if exists|k: int| 0 <= k < few.len() && (#[trigger] few[k]).available {
            let b = choose|b: int| is_best(few, b);
            let (held, new) = (list[b].expire_time@, list[last].expire_time@);
            text_order_total(new, held);
            text_order_total(new, new);
            if list[last].available && text_before(new, held) {
                assert forall|k: int| 0 <= k < last && (#[trigger] list[k]).available implies
                    text_before(new, list[k].expire_time@) by {
                    assert(few[k].available);
                    let other = list[k].expire_time@;
                    text_order_total(other, held);
                    if other != held {
                        text_order_transitive(new, held, other);
                    }
                }
                assert forall|k: int| 0 <= k < list.len() && (#[trigger] list[k]).available implies
                    !text_before(list[k].expire_time@, new) by {
                    text_order_total(new, list[k].expire_time@);
                }
                assert(is_best(list, last));
            } else {
                assert(few[b].available);
                assert(is_best(list, b));
            }
        } else {
            let j = choose|j: int| 0 <= j < list.len() && (#[trigger] list[j]).available;
            assert(j == last) by {
                if j < last {
                    assert(few[j].available);
                }
            }
            text_order_total(list[last].expire_time@, list[last].expire_time@);
            assert forall|k: int| 0 <= k < last implies !(#[trigger] list[k]).available by {
                assert(!few[k].available);
            }
            assert(is_best(list, last));
        }
    }
}

/// A text that is held is the text that was wanted, and where none was wanted none is held.
pub proof fn texts_are_held_as_wanted(r: Option<String>, wanted: Option<Seq<char>>)
    requires
        holds_text(r, wanted),
    ensures
        r is Some <==> wanted is Some,
        r matches Some(s) ==> s@ == wanted->0,
{
}

} // verus!
