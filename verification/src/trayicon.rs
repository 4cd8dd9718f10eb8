//! A native tray menu that is kept up to date: rebuilt where the kinds of its lines change, and
//! otherwise given new texts line by line.

use crate::api::filter_places;
use crate::clock::{told_by_clock, LocalTime};
use crate::menu::{native_views, NativeItem, NativeView};
use crate::template::{title_shown, title_text_at};
use crate::text::{join, joined, joining_is_gradual};
use crate::tooltip::{tip_lines, tip_title, tooltip_at};
use crate::ui::{
    entry_views, menu_actions, menu_entries_at, menu_shown, menu_status, EntryView, MenuEntry,
    UiState,
};
use vstd::prelude::*;
use vstd::string::*;

verus! {

/// The item for a line that is no separator.
pub open spec fn item_for(e: EntryView) -> NativeView {
    match e {
        EntryView::Info(text) => NativeView::Item { id: "info"@, text, enabled: false },
        EntryView::Button { id, text } => NativeView::Item { id, text, enabled: true },
        EntryView::Separator => NativeView::Separator,
    }
}

/// A line has a text.
pub open spec fn has_text(e: EntryView) -> bool {
    !(e is Separator)
}

/// The text of a line that has one.
pub open spec fn text_for(e: EntryView) -> Seq<char> {
    match e {
        EntryView::Info(text) => text,
        EntryView::Button { id, text } => text,
        EntryView::Separator => Seq::empty(),
    }
}

/// The lines that have a text.
pub open spec fn texted(list: Seq<EntryView>) -> Seq<EntryView> {
    list.filter(|e: EntryView| has_text(e))
}

/// The letters for the kinds of the lines.
pub open spec fn kinds(list: Seq<EntryView>) -> Seq<u8> {
    list.map_values(|e: EntryView| e.letter())
}

/// The items that can be given new texts: one for each line that has a text.
#[derive(Debug)]
pub struct Slots(pub Vec<NativeItem>);

impl Slots {
    /// The items for the lines that have a text.
    pub fn from_entries(entries: &Vec<MenuEntry>) -> (r: Slots)
        ensures
            native_views(r.0@) == texted(entry_views(entries@)).map_values(
                |e: EntryView| item_for(e),
            ),
    {
        let ghost all = entry_views(entries@);
        let ghost test = |e: EntryView| has_text(e);
        let ghost made = |e: EntryView| item_for(e);
        let mut items: Vec<NativeItem> = Vec::new();
        let mut i: usize = 0;
        proof {
            reveal(Seq::filter);
            assert(native_views(items@) =~= all.take(0).filter(test).map_values(made));
        }
        while i < entries.len()
            invariant
                i <= entries@.len(),
                all == entry_views(entries@),
                test == (|e: EntryView| has_text(e)),
                made == (|e: EntryView| item_for(e)),
                native_views(items@) == all.take(i as int).filter(test).map_values(made),
            decreases entries@.len() - i,
        {
            let ghost before = native_views(items@);
            let ghost passed = all.take(i as int).filter(test);
            proof {
                reveal(Seq::filter);
                assert(all.take(i + 1).drop_last() =~= all.take(i as int));
                assert(all.take(i + 1).last() == entries@[i as int]@);
            }
            match &entries[i] {
                MenuEntry::Separator => {},
                _ => {
                    items.push(menu_item(&entries[i]));
                    assert(native_views(items@) =~= before.push(item_for(all[i as int])));
                    assert(passed.push(all[i as int]).map_values(made) =~= passed.map_values(
                        made,
                    ).push(item_for(all[i as int])));
                },
            }
            i = i + 1;
        }
        assert(all.take(i as int) =~= all);
        Slots(items)
    }
}

/// The texts of a list of references.
pub open spec fn ref_views(list: Seq<&String>) -> Seq<Seq<char>> {
    list.map_values(|s: &String| s@)
}

/// The texts of the lines that have one: the same lines that have a slot.
pub fn slot_texts(entries: &Vec<MenuEntry>) -> (r: Vec<&String>)
    ensures
        ref_views(r@) == texted(entry_views(entries@)).map_values(|e: EntryView| text_for(e)),
{
    let ghost all = entry_views(entries@);
    let ghost test = |e: EntryView| has_text(e);
    let ghost made = |e: EntryView| text_for(e);
    let mut texts: Vec<&String> = Vec::new();
    let mut i: usize = 0;
    proof {
        reveal(Seq::filter);
        assert(ref_views(texts@) =~= all.take(0).filter(test).map_values(made));
    }
    while i < entries.len()
        invariant
            i <= entries@.len(),
            all == entry_views(entries@),
            test == (|e: EntryView| has_text(e)),
            made == (|e: EntryView| text_for(e)),
            ref_views(texts@) == all.take(i as int).filter(test).map_values(made),
        decreases entries@.len() - i,
    {
        let ghost before = ref_views(texts@);
        let ghost passed = all.take(i as int).filter(test);
        proof {
            reveal(Seq::filter);
            assert(all.take(i + 1).drop_last() =~= all.take(i as int));
            assert(all.take(i + 1).last() == entries@[i as int]@);
            assert(passed.push(all[i as int]).map_values(made) =~= passed.map_values(made).push(
                text_for(all[i as int]),
            ));
        }
        match &entries[i] {
            MenuEntry::Info(text) => {
                texts.push(text);
                assert(ref_views(texts@) =~= before.push(text_for(all[i as int])));
            },
            MenuEntry::Button { id: _, text } => {
                texts.push(text);
                assert(ref_views(texts@) =~= before.push(text_for(all[i as int])));
            },
            MenuEntry::Separator => {},
        }
        i = i + 1;
    }
    assert(all.take(i as int) =~= all);
    texts
}

/// The item for a line that is no separator.
pub fn menu_item(e: &MenuEntry) -> (r: NativeItem)
    requires
        has_text(e@),
    ensures
        r@ == item_for(e@),
{
    match e {
        MenuEntry::Info(text) => NativeItem::Item {
            id: "info",
            text: text.clone(),
            enabled: false,
        },
        MenuEntry::Button { id, text } => NativeItem::Item {
            id,
            text: text.clone(),
            enabled: true,
        },
        MenuEntry::Separator => NativeItem::Separator,
    }
}

/// The items of a menu that is built anew.
pub fn build_menu(entries: &Vec<MenuEntry>) -> (r: Vec<NativeItem>)
    ensures
        native_views(r@) == entry_views(entries@).map_values(|e: EntryView| item_for(e)),
{
    let ghost all = entry_views(entries@);
    let ghost made = |e: EntryView| item_for(e);
    let mut items: Vec<NativeItem> = Vec::new();
    let mut i: usize = 0;
    assert(native_views(items@) =~= all.take(0).map_values(made));
    while i < entries.len()
        invariant
            i <= entries@.len(),
            all == entry_views(entries@),
            made == (|e: EntryView| item_for(e)),
            native_views(items@) == all.take(i as int).map_values(made),
        decreases entries@.len() - i,
    {
        let ghost before = native_views(items@);
        items.push(
            match &entries[i] {
                MenuEntry::Separator => NativeItem::Separator,
                _ => menu_item(&entries[i]),
            },
        );
        assert(native_views(items@) =~= before.push(item_for(all[i as int])));
        assert(all.take(i + 1).map_values(made) =~= all.take(i as int).map_values(made).push(
            item_for(all[i as int]),
        ));
        i = i + 1;
    }
    assert(all.take(i as int) =~= all);
    items
}

/// The kinds of the lines.
pub fn kinds_of(entries: &Vec<MenuEntry>) -> (r: Vec<u8>)
    ensures
        r@ == kinds(entry_views(entries@)),
{
    let ghost all = entry_views(entries@);
    let mut letters: Vec<u8> = Vec::new();
    let mut i: usize = 0;
    while i < entries.len()
        invariant
            i <= entries@.len(),
            all == entry_views(entries@),
            letters@ == kinds(all.take(i as int)),
        decreases entries@.len() - i,
    {
        letters.push(entries[i].kind());
        assert(kinds(all.take(i + 1)) =~= kinds(all.take(i as int)).push(all[i as int].letter()));
        i = i + 1;
    }
    assert(all.take(i as int) =~= all);
    letters
}

fn same_kinds(a: &Vec<u8>, b: &Vec<u8>) -> (r: bool)
    ensures
        r == (a@ == b@),
{
    if a.len() != b.len() {
        return false;
    }
    let mut i: usize = 0;
    while i < a.len()
        invariant
            i <= a@.len(),
            a@.len() == b@.len(),
            forall|k: int| 0 <= k < i ==> a@[k] == b@[k],
        decreases a@.len() - i,
    {
        if a[i] != b[i] {
            return false;
        }
        i = i + 1;
    }
    assert(a@ =~= b@);
    true
}

/// What is done to the menu.
#[derive(Debug)]
pub enum MenuUpdate {
    /// The menu is replaced by one with these items.
    Rebuild(Vec<NativeItem>),
    /// The slots are given these texts, the first to the first and so on.
    Texts(Vec<String>),
}

/// What is done to the tray.
#[derive(Debug)]
pub struct TrayUpdate {
    pub menu: MenuUpdate,
    pub tooltip: String,
    pub title: String,
}

/// The tooltip as one text: the title, and the lines below it.
pub open spec fn tip_text(title: Seq<char>, lines: Seq<Seq<char>>) -> Seq<char> {
    if lines.len() == 0 {
        title
    } else {
        title + "\n"@ + joined(lines, "\n"@)
    }
}

/// `u` brings a tray whose menu has lines of the kinds `held` up to date with a state.
pub open spec fn is_update_for(
    u: TrayUpdate,
    held: Option<Seq<u8>>,
    state: UiState,
    now: LocalTime,
) -> bool {
    let lines = menu_shown(state, now);
    &&& match u.menu {
        MenuUpdate::Rebuild(items) => held != Some(kinds(lines)) && native_views(items@)
            == lines.map_values(|e: EntryView| item_for(e)),
        MenuUpdate::Texts(texts) => held == Some(kinds(lines)) && crate::text::views(texts@)
            == texted(lines).map_values(|e: EntryView| text_for(e)),
    }
    &&& u.tooltip@ == tip_text(tip_title(state), tip_lines(state, now))
    &&& u.title@ == title_shown(state, now)
}

/// The kinds that are held.
pub open spec fn held_view(held: Option<Vec<u8>>) -> Option<Seq<u8>> {
    match held {
        Some(k) => Some(k@),
        None => None,
    }
}

/// What brings a tray up to date at `now`. `held` are the kinds of the lines of its menu, where it
/// has one; they are those of the new menu afterwards.
pub fn render_at(held: &mut Option<Vec<u8>>, state: &UiState, now: &LocalTime) -> (u: TrayUpdate)
    requires
        state.times_ok(),
        state.calls_ok(),
        now.wf(),
    ensures
        is_update_for(
            u,
            held_view(*old(held)),
            *state,
            *now,
        ),
        held_view(*final(held)) == Some(kinds(menu_shown(*state, *now))),
{
    let entries = menu_entries_at(state, now);
    let letters = kinds_of(&entries);
    let (tip_head, lines) = tooltip_at(state, now);
    let tooltip = if lines.len() == 0 {
        tip_head
    } else {
        let mut text = tip_head;
        text.append("\n");
        text.append(join(&lines, "\n").as_str());
        text
    };
    let title = title_text_at(state, now);
    let same = match &*held {
        Some(k) => same_kinds(k, &letters),
        None => false,
    };
    if !same {
        *held = Some(letters);
        return TrayUpdate { menu: MenuUpdate::Rebuild(build_menu(&entries)), tooltip, title };
    }
    let texts = slot_texts(&entries);
    let mut owned: Vec<String> = Vec::new();
    let mut i: usize = 0;
    while i < texts.len()
        invariant
            i <= texts@.len(),
            owned@.len() == i,
            forall|k: int| 0 <= k < i ==> (#[trigger] owned@[k])@ == texts@[k]@,
        decreases texts@.len() - i,
    {
        owned.push(texts[i].clone());
        i = i + 1;
    }
    assert(crate::text::views(owned@) =~= ref_views(texts@));
    TrayUpdate { menu: MenuUpdate::Texts(owned), tooltip, title }
}

/// What brings a tray up to date now.
pub fn render(held: &mut Option<Vec<u8>>, state: &UiState) -> (u: TrayUpdate)
    requires
        state.times_ok(),
        state.calls_ok(),
    ensures
        exists|now: LocalTime|
            now.wf() && told_by_clock(now) && #[trigger] is_update_for(
                u,
                held_view(*old(held)),
                *state,
                now,
            ) && held_view(*final(held)) == Some(kinds(menu_shown(*state, now))),
{
    let now = LocalTime::now();
    render_at(held, state, &now)
}

// ---------------------------------------------------------------------------------------------
// Laws
// ---------------------------------------------------------------------------------------------

/// The slots and the texts for them go by the same lines: there is one text for each slot, and it
/// is the text that the slot's own line has.
pub proof fn slots_and_texts_align(lines: Seq<EntryView>, i: int)
    requires
        0 <= i < texted(lines).len(),
    ensures
        texted(lines).map_values(|e: EntryView| item_for(e)).len() == texted(lines).map_values(
            |e: EntryView| text_for(e),
        ).len(),
        texted(lines).map_values(|e: EntryView| item_for(e))[i] matches NativeView::Item {
            id,
            text,
            enabled,
        } && text == texted(lines).map_values(|e: EntryView| text_for(e))[i],
{
    texted_have_texts(lines);
    assert(has_text(texted(lines)[i]));
}

proof fn texted_have_texts(lines: Seq<EntryView>)
    ensures
        forall|i: int| 0 <= i < texted(lines).len() ==> has_text(#[trigger] texted(lines)[i]),
    decreases lines.len(),
{
    reveal(Seq::filter);
    if lines.len() > 0 {
        texted_have_texts(lines.drop_last());
    }
}

/// Two lines of the same kind, and where they can be chosen with the same id.
pub open spec fn same_slot(a: EntryView, b: EntryView) -> bool {
    &&& a.letter() == b.letter()
    &&& a matches EntryView::Button { id: x, text: _ } ==> b matches EntryView::Button {
        id: y,
        text: _,
    } && x == y
}

/// Nothing in the first part of the menu can be chosen.
proof fn status_has_no_buttons(state: UiState, now: LocalTime)
    ensures
        forall|i: int|
            0 <= i < menu_status(state, now).len() ==> !((#[trigger] menu_status(
                state,
                now,
            )[i]) is Button),
{
}

/// Where the kinds of the lines have not changed, neither have the ids: the lines of the two menus
/// agree one by one in all but their texts.
pub proof fn same_kinds_mean_same_slots(
    a: UiState,
    then: LocalTime,
    b: UiState,
    now: LocalTime,
    i: int,
)
    requires
        kinds(menu_shown(a, then)) == kinds(menu_shown(b, now)),
        0 <= i < menu_shown(a, then).len(),
    ensures
        menu_shown(a, then).len() == menu_shown(b, now).len(),
        same_slot(menu_shown(a, then)[i], menu_shown(b, now)[i]),
{
    let (x, y) = (menu_shown(a, then), menu_shown(b, now));
    assert(kinds(x).len() == kinds(y).len());
    assert(kinds(x)[i] == kinds(y)[i]);
    status_has_no_buttons(a, then);
    status_has_no_buttons(b, now);
    let n = x.len();
    let (p, q) = (menu_actions(a), menu_actions(b));
    let (m, k) = (menu_status(a, then).len() as int, menu_status(b, now).len() as int);
    if i >= n - 5 {
        assert(x[i] == p[i - m]);
        assert(y[i] == q[i - k]);
        assert(p[i - m] is Button);
    } else if i >= m {
        assert(x[i] == p[i - m]);
        assert(!(p[i - m] is Button));
    } else {
        assert(x[i] == menu_status(a, then)[i]);
    }
}

/// Giving the slots of one menu the texts of another whose lines are of the same kinds makes them
/// the slots of the other.
pub proof fn new_texts_make_new_slots(a: Seq<EntryView>, b: Seq<EntryView>, i: int)
    requires
        a.len() == b.len(),
        forall|k: int| 0 <= k < a.len() ==> same_slot(#[trigger] a[k], b[k]),
        0 <= i < texted(a).len(),
    ensures
        texted(a).len() == texted(b).len(),
        same_slot(texted(a)[i], texted(b)[i]),
        item_for(texted(b)[i]) == (match item_for(texted(a)[i]) {
            NativeView::Item { id, text, enabled } => NativeView::Item {
                id,
                text: text_for(texted(b)[i]),
                enabled,
            },
            NativeView::Separator => NativeView::Separator,
        }),
    decreases a.len(),
{
    reveal(Seq::filter);
    let (x, y) = (a.drop_last(), b.drop_last());
    assert forall|k: int| 0 <= k < x.len() implies same_slot(#[trigger] x[k], y[k]) by {
        assert(x[k] == a[k] && y[k] == b[k]);
    }
    assert(same_slot(a[a.len() - 1], b[b.len() - 1]));
    same_lengths(x, y);
    if i < texted(x).len() {
        new_texts_make_new_slots(x, y, i);
    }
    texted_have_texts(a);
    assert(has_text(texted(a)[i]));
}

proof fn same_lengths(a: Seq<EntryView>, b: Seq<EntryView>)
    requires
        a.len() == b.len(),
        forall|k: int| 0 <= k < a.len() ==> same_slot(#[trigger] a[k], b[k]),
    ensures
        texted(a).len() == texted(b).len(),
    decreases a.len(),
{
    reveal(Seq::filter);
    if a.len() > 0 {
        let (x, y) = (a.drop_last(), b.drop_last());
        assert forall|k: int| 0 <= k < x.len() implies same_slot(#[trigger] x[k], y[k]) by {
            assert(x[k] == a[k] && y[k] == b[k]);
        }
        assert(same_slot(a[a.len() - 1], b[b.len() - 1]));
        same_lengths(x, y);
    }
}

/// An item says what its line says, and can be chosen exactly where its line can, with the same id.
pub proof fn items_say_what_their_lines_say(e: EntryView)
    ensures
        e matches EntryView::Info(text) ==> item_for(e) == (NativeView::Item {
            id: "info"@,
            text,
            enabled: false,
        }) && text_for(e) == text && e.letter() == 'i' as u8,
        e matches EntryView::Button { id, text } ==> item_for(e) == (NativeView::Item {
            id,
            text,
            enabled: true,
        }) && text_for(e) == text && e.letter() == 'b' as u8,
        e is Separator ==> item_for(e) is Separator && e.letter() == 's' as u8,
{
}

/// The slots are those of the lines that are no separators, in the order of the lines. There are
/// places in the menu, one for each slot, that rise and leave out no such line.
pub proof fn every_line_but_a_separator_has_a_slot(lines: Seq<EntryView>) -> (places: Seq<int>)
    ensures
        places.len() == texted(lines).len(),
        forall|i: int|
            0 <= i < places.len() ==> 0 <= #[trigger] places[i] < lines.len()
                && !(lines[places[i]] is Separator) && texted(lines)[i] == lines[places[i]],
        forall|i: int, j: int|
            0 <= i < j < places.len() ==> #[trigger] places[i] < #[trigger] places[j],
        forall|k: int|
            0 <= k < lines.len() && !(#[trigger] lines[k] is Separator) ==> places.contains(k),
{
    let test = |e: EntryView| has_text(e);
    let places = filter_places(lines, test);
    assert forall|k: int| 0 <= k < lines.len() && !(
    #[trigger] lines[k] is Separator) implies places.contains(k) by {
        assert(test(lines[k]));
    }
    places
}

/// The kinds of two menus are the same exactly where the menus have as many lines and each line of
/// the one is of the kind of its line of the other.
pub proof fn letters_tell_kinds(a: Seq<EntryView>, b: Seq<EntryView>)
    ensures
        kinds(a) == kinds(b) <==> a.len() == b.len() && forall|i: int|
            0 <= i < a.len() ==> ((#[trigger] a[i]) is Info <==> b[i] is Info) && (a[i] is Button
                <==> b[i] is Button),
{
    if kinds(a) == kinds(b) {
        assert(kinds(a).len() == kinds(b).len());
        assert forall|i: int| 0 <= i < a.len() implies ((#[trigger] a[i]) is Info <==> b[i] is Info)
            && (a[i] is Button <==> b[i] is Button) by {
            assert(kinds(a)[i] == kinds(b)[i]);
        }
    }
    if a.len() == b.len() && forall|i: int|
        0 <= i < a.len() ==> ((#[trigger] a[i]) is Info <==> b[i] is Info) && (a[i] is Button
            <==> b[i] is Button) {
        assert(kinds(a) =~= kinds(b));
    }
}

/// The tooltip is the title alone where there are no lines, and every further line stands below what
/// is there.
pub proof fn the_tooltip_is_the_title_and_the_lines(
    title: Seq<char>,
    lines: Seq<Seq<char>>,
    line: Seq<char>,
)
    ensures
        tip_text(title, Seq::empty()) == title,
        tip_text(title, lines.push(line)) == tip_text(title, lines) + "\n"@ + line,
{
    let all = lines.push(line);
    assert(all.drop_last() =~= lines);
    reveal_with_fuel(joined, 2);
    if lines.len() == 0 {
        assert(joined(all, "\n"@) =~= line);
        assert(tip_text(title, all) =~= tip_text(title, lines) + "\n"@ + line);
    } else {
        let one = seq![line];
        assert(lines + one =~= all);
        joining_is_gradual(lines, one, "\n"@);
        assert(joined(one, "\n"@) =~= line);
        assert(tip_text(title, all) =~= tip_text(title, lines) + "\n"@ + line);
    }
}

/// A tray is told of every line where the kinds of its lines are not those of the new menu, and
/// otherwise of the texts alone.
pub proof fn a_tray_is_told_what_changed(
    u: TrayUpdate,
    held: Option<Seq<u8>>,
    state: UiState,
    now: LocalTime,
)
    requires
        is_update_for(u, held, state, now),
    ensures
        u.menu is Rebuild <==> held is None || held->0 != kinds(menu_shown(state, now)),
        u.menu matches MenuUpdate::Rebuild(items) ==> (items@.len() == menu_shown(state, now).len()
            && forall|i: int|
            0 <= i < items@.len() ==> (#[trigger] items@[i])@ == item_for(
                menu_shown(state, now)[i],
            )),
        u.menu matches MenuUpdate::Texts(texts) ==> (texts@.len() == texted(
            menu_shown(state, now),
        ).len() && forall|i: int|
            0 <= i < texts@.len() ==> (#[trigger] texts@[i])@ == text_for(
                texted(menu_shown(state, now))[i],
            )),
        u.title@ == title_shown(state, now),
        u.tooltip@ == tip_text(tip_title(state), tip_lines(state, now)),
{
    let lines = menu_shown(state, now);
    match u.menu {
        MenuUpdate::Rebuild(items) => {
            assert(native_views(items@).len() == items@.len());
            assert forall|i: int| 0 <= i < items@.len() implies (#[trigger] items@[i])@ == item_for(
                lines[i],
            ) by {
                assert(native_views(items@)[i] == items@[i]@);
            }
        },
        MenuUpdate::Texts(texts) => {
            assert(crate::text::views(texts@).len() == texts@.len());
            assert forall|i: int| 0 <= i < texts@.len() implies (#[trigger] texts@[i])@ == text_for(
                texted(lines)[i],
            ) by {
                assert(crate::text::views(texts@)[i] == texts@[i]@);
            }
        },
    }
}

/// What is held are the letters themselves, and the texts are those of the strings referred to.
pub proof fn letters_and_texts_are_held(held: Option<Vec<u8>>, list: Seq<&String>)
    ensures
        held matches Some(k) ==> held_view(held) == Some(k@),
        held is None ==> held_view(held) is None,
        ref_views(list).len() == list.len(),
        forall|i: int| 0 <= i < list.len() ==> #[trigger] ref_views(list)[i] == list[i]@,
{
}

} // verus!
