//! The menu of a tray that is asked for it line by line.

use crate::command::{tray_command, tray_command_of, Cmd};
use crate::text::{replace_all, replaced};
use crate::ui::{entry_views, EntryView, MenuEntry};
use vstd::prelude::*;
use vstd::string::*;

verus! {

/// A line of the tray menu.
#[derive(Debug)]
pub enum TrayItem {
    /// A line, and the command that choosing it gives, if it can be chosen.
    Line { label: String, command: Option<Cmd> },
    Separator,
}

/// What a line of the tray menu says.
pub enum TrayView {
    Line { label: Seq<char>, command: Option<Cmd> },
    Separator,
}

impl View for TrayItem {
    type V = TrayView;

    open spec fn view(&self) -> TrayView {
        match self {
            TrayItem::Line { label, command } => TrayView::Line { label: label@, command: *command },
            TrayItem::Separator => TrayView::Separator,
        }
    }
}

/// What the lines of the tray menu say.
pub open spec fn tray_views(list: Seq<TrayItem>) -> Seq<TrayView> {
    list.map_values(|e: TrayItem| e@)
}

/// A label in which an underscore does not mark a shortcut: it is written twice.
pub open spec fn escaped(s: Seq<char>) -> Seq<char> {
    replaced(s, "_"@, "__"@)
}

/// The line of the tray menu for a line of the menu.
pub open spec fn tray_line(e: EntryView) -> TrayView {
    match e {
        EntryView::Info(text) => TrayView::Line { label: escaped(text), command: None },
        EntryView::Button { id, text } => TrayView::Line {
            label: escaped(text),
            command: Some(tray_command_of(id)),
        },
        EntryView::Separator => TrayView::Separator,
    }
}

/// Writes each underscore twice.
pub fn escape_label(s: &str) -> (r: String)
    ensures
        r@ == escaped(s@),
{
    proof {
        reveal_strlit("_");
    }
    replace_all(s, "_", "__")
}

/// The lines of the tray menu.
pub fn tray_menu(entries: &Vec<MenuEntry>) -> (r: Vec<TrayItem>)
    ensures
        tray_views(r@) == entry_views(entries@).map_values(|e: EntryView| tray_line(e)),
{
    let ghost line = |e: EntryView| tray_line(e);
    let ghost all = entry_views(entries@);
    let mut out: Vec<TrayItem> = Vec::new();
    let mut i: usize = 0;
    assert(tray_views(out@) =~= all.take(0).map_values(line));
    while i < entries.len()
        invariant
            i <= entries@.len(),
            all == entry_views(entries@),
            line == (|e: EntryView| tray_line(e)),
            tray_views(out@) == all.take(i as int).map_values(line),
        decreases entries@.len() - i,
    {
        let ghost before = tray_views(out@);
        let made = match &entries[i] {
            MenuEntry::Info(text) => TrayItem::Line {
                label: escape_label(text.as_str()),
                command: None,
            },
            MenuEntry::Button { id, text } => TrayItem::Line {
                label: escape_label(text.as_str()),
                command: Some(tray_command(id)),
            },
            MenuEntry::Separator => TrayItem::Separator,
        };
        assert(made@ == tray_line(all[i as int]));
        out.push(made);
        assert(tray_views(out@) =~= before.push(line(all[i as int])));
        assert(all.take(i + 1).map_values(line) =~= all.take(i as int).map_values(line).push(
            line(all[i as int]),
        ));
        i = i + 1;
    }
    assert(all.take(i as int) =~= all);
    out
}

// ---------------------------------------------------------------------------------------------
// Laws
// ---------------------------------------------------------------------------------------------

/// The label as it is shown: of two underscores in a row the first is taken for a mark.
pub open spec fn unescaped(s: Seq<char>) -> Seq<char>
    decreases s.len(),
{
    if s.len() >= 2 && s[0] == '_' && s[1] == '_' {
        seq!['_'] + unescaped(s.skip(2))
    } else if s.len() >= 1 {
        seq![s[0]] + unescaped(s.skip(1))
    } else {
        s
    }
}

/// A label is shown as it was meant: escaping loses nothing.
pub proof fn escaping_is_undone(s: Seq<char>)
    ensures
        unescaped(escaped(s)) == s,
    decreases s.len(),
{
    reveal_strlit("_");
    reveal_strlit("__");
    if s.len() > 0 {
        let rest = s.skip(1);
        escaping_is_undone(rest);
        assert(s =~= seq![s[0]] + rest);
        assert(s.take(1) =~= seq![s[0]]);
        assert("_"@ =~= seq!['_']);
        let e = escaped(s);
        if s[0] == '_' {
            assert(s.take(1) == "_"@);
            assert(e =~= seq!['_', '_'] + escaped(rest));
            assert(e.skip(2) =~= escaped(rest));
        } else {
            assert(s.take(1)[0] != "_"@[0]);
            assert(e =~= seq![s[0]] + escaped(rest));
            assert(e.skip(1) =~= escaped(rest));
        }
    } else {
        assert(escaped(s) =~= s);
    }
}

/// Escaping goes character by character: an underscore is written twice, everything else once.
pub proof fn each_underscore_is_doubled(s: Seq<char>, c: char)
    ensures
        escaped(seq![c] + s) == (if c == '_' {
            seq!['_', '_']
        } else {
            seq![c]
        }) + escaped(s),
{
    reveal_strlit("_");
    reveal_strlit("__");
    let t = seq![c] + s;
    assert("_"@ =~= seq!['_']);
    assert("__"@ =~= seq!['_', '_']);
    assert(t.skip(1) =~= s);
    assert(t.take(1) =~= seq![c]);
    if c != '_' {
        assert(t.take(1)[0] != "_"@[0]);
    }
}

/// A line that informs gives no command, a line that can be chosen gives that of its id, and both
/// are shown with their own texts. A separator stays one.
pub proof fn tray_lines_say_what_the_menu_says(e: EntryView)
    ensures
        e matches EntryView::Info(text) ==> (tray_line(e) matches TrayView::Line { label, command }
            && unescaped(label) == text && command is None),
        e matches EntryView::Button { id, text } ==> (tray_line(e) matches TrayView::Line {
            label,
            command,
        } && unescaped(label) == text && command == Some(tray_command_of(id))),
        e is Separator ==> tray_line(e) is Separator,
{
    match e {
        EntryView::Info(text) => escaping_is_undone(text),
        EntryView::Button { id, text } => escaping_is_undone(text),
        EntryView::Separator => {},
    }
}

/// What the tray menu says is what each of its lines says, in its place.
pub proof fn every_tray_line_is_told(list: Seq<TrayItem>, i: int)
    requires
        0 <= i < list.len(),
    ensures
        tray_views(list).len() == list.len(),
        list[i] matches TrayItem::Line { label, command } ==> tray_views(list)[i]
            == (TrayView::Line { label: label@, command }),
        list[i] is Separator ==> tray_views(list)[i] is Separator,
{
}

} // verus!
