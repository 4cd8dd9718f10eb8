//! Text as sequences of characters: numbers, trimming, replacing, wrapping, joining.

use vstd::prelude::*;
use vstd::string::*;

verus! {

/// `String::push` appends one character at the end.
pub assume_specification[ String::push ](text: &mut String, c: char)
    ensures
        final(text)@ == old(text)@.push(c),
;

/// Whether `char::is_whitespace` holds of `c`: the Unicode property `White_Space`.
pub uninterp spec fn white_space(c: char) -> bool;

/// `char::is_whitespace` is a fixed property of the character. Among the ASCII characters it
/// holds of the space and of U+0009 to U+000D, and of no other.
pub assume_specification[ char::is_whitespace ](c: char) -> (b: bool)
    ensures
        b == white_space(c),
        (c as u32) < 128 ==> b == (c as u32 == 32 || 9 <= c as u32 <= 13),
;

/// A character is white space.
pub open spec fn blank(c: char) -> bool {
    if (c as u32) < 128 {
        c as u32 == 32 || 9 <= c as u32 <= 13
    } else {
        white_space(c)
    }
}

/// The texts that the strings of a list hold.
pub open spec fn views(list: Seq<String>) -> Seq<Seq<char>> {
    list.map_values(|s: String| s@)
}

/// Two values for each item of a list, one after the other.
pub open spec fn two_each<A, B>(
    list: Seq<A>,
    first: spec_fn(A) -> B,
    second: spec_fn(A) -> B,
) -> Seq<B> {
    Seq::new(
        2 * list.len(),
        |i: int|
            if i % 2 == 0 {
                first(list[i / 2])
            } else {
                second(list[i / 2])
            },
    )
}

/// One more item of the list adds its two values.
pub(crate) proof fn two_each_more<A, B>(
    list: Seq<A>,
    i: int,
    first: spec_fn(A) -> B,
    second: spec_fn(A) -> B,
)
    requires
        0 <= i < list.len(),
    ensures
        two_each(list.take(i + 1), first, second) == two_each(list.take(i), first, second).push(
            first(list[i]),
        ).push(second(list[i])),
{
    let (done, more) = (list.take(i), list.take(i + 1));
    assert forall|k: int| 0 <= k < 2 * i implies two_each(more, first, second)[k] == two_each(
        done,
        first,
        second,
    )[k] by {
        assert(more[k / 2] == done[k / 2]);
    }
    assert(more[i] == list[i]);
    assert(two_each(more, first, second) =~= two_each(done, first, second).push(
        first(list[i]),
    ).push(second(list[i])));
}

/// Appends a text to a list of texts.
pub(crate) fn push_text(list: &mut Vec<String>, text: String)
    ensures
        views(final(list)@) == views(old(list)@).push(text@),
{
    let ghost before = views(list@);
    list.push(text);
    assert(views(list@) =~= before.push(text@));
}

/// The characters of a text, in order.
pub fn chars_of(text: &str) -> (chars: Vec<char>)
    ensures
        chars@ == text@,
{
    let mut chars: Vec<char> = Vec::new();
    for c in it: text.chars()
        invariant
            chars@ == text@.take(it.index()),
            it.seq() == text@,
    {
        assert(text@.take(it.index() + 1) =~= text@.take(it.index()).push(text@[it.index()]));
        chars.push(c);
    }
    chars
}

/// Appends `chars[from..to]` to a text.
fn push_range(text: &mut String, chars: &Vec<char>, from: usize, to: usize)
    requires
        from <= to <= chars@.len(),
    ensures
        final(text)@ == old(text)@ + chars@.subrange(from as int, to as int),
{
    let ghost before = text@;
    let mut i: usize = from;
    while i < to
        invariant
            from <= i <= to <= chars@.len(),
            text@ == before + chars@.subrange(from as int, i as int),
        decreases to - i,
    {
        text.push(chars[i]);
        i = i + 1;
        assert(chars@.subrange(from as int, i as int) =~= chars@.subrange(
            from as int,
            i - 1,
        ).push(chars@[i - 1]));
    }
}

/// The text made of `chars[from..to]`.
pub fn text_of_range(chars: &Vec<char>, from: usize, to: usize) -> (text: String)
    requires
        from <= to <= chars@.len(),
    ensures
        text@ == chars@.subrange(from as int, to as int),
{
    let mut text: String = String::new();
    push_range(&mut text, chars, from, to);
    text
}

/// Whether two texts hold the same characters.
pub fn same_text(a: &str, b: &str) -> (same: bool)
    ensures
        same == (a@ == b@),
{
    a.to_owned() == b.to_owned()
}

// ---------------------------------------------------------------------------------------------
// Numbers
// ---------------------------------------------------------------------------------------------

/// The decimal digit for a value below ten.
pub open spec fn digit(d: nat) -> char {
    (48 + d) as u8 as char
}

/// The decimal digits of a number, without leading zeros.
pub open spec fn digits(n: nat) -> Seq<char>
    decreases n,
{
    if n < 10 {
        seq![digit(n)]
    } else {
        digits(n / 10).push(digit(n % 10))
    }
}

/// A number in decimal, with a minus sign where it is negative.
pub open spec fn decimal(n: int) -> Seq<char> {
    if n < 0 {
        seq!['-'] + digits((-n) as nat)
    } else {
        digits(n as nat)
    }
}

/// A number in decimal, with a leading zero where it has one digit only.
pub open spec fn two_digits(n: nat) -> Seq<char> {
    if n < 10 {
        seq!['0'] + digits(n)
    } else {
        digits(n)
    }
}

fn digit_char(d: u8) -> (c: char)
    requires
        d < 10,
    ensures
        c == digit(d as nat),
{
    (48 + d) as char
}

fn push_digits(text: &mut String, n: u128)
    ensures
        final(text)@ == old(text)@ + digits(n as nat),
    decreases n,
{
    let ghost before = text@;
    if n < 10 {
        text.push(digit_char(n as u8));
        assert(before + digits(n as nat) =~= before.push(digit(n as nat)));
    } else {
        push_digits(text, n / 10);
        text.push(digit_char((n % 10) as u8));
        assert(before + digits(n as nat) =~= (before + digits(n as nat / 10)).push(
            digit((n as nat) % 10),
        ));
    }
}

/// Appends a number in decimal.
pub fn push_number(text: &mut String, n: i128)
    requires
        n > i128::MIN,
    ensures
        final(text)@ == old(text)@ + decimal(n as int),
{
    let ghost before = text@;
    if n < 0 {
        text.push('-');
        push_digits(text, (-n) as u128);
        assert(before.push('-') + digits((-n) as nat) =~= before + decimal(n as int));
    } else {
        push_digits(text, n as u128);
    }
}

/// A number in decimal.
pub fn number_text(n: i64) -> (text: String)
    ensures
        text@ == decimal(n as int),
{
    let mut text: String = String::new();
    push_number(&mut text, n as i128);
    assert(text@ =~= decimal(n as int));
    text
}

/// Appends a number in decimal, padded to two digits.
pub fn push_two_digits(text: &mut String, n: u64)
    ensures
        final(text)@ == old(text)@ + two_digits(n as nat),
{
    let ghost before = text@;
    if n < 10 {
        text.push('0');
    }
    push_digits(text, n as u128);
    assert(text@ =~= before + two_digits(n as nat));
}

// ---------------------------------------------------------------------------------------------
// Trimming
// ---------------------------------------------------------------------------------------------

/// A text without the white space at its start.
pub open spec fn trimmed_start(s: Seq<char>) -> Seq<char>
    decreases s.len(),
{
    if s.len() > 0 && blank(s.first()) {
        trimmed_start(s.drop_first())
    } else {
        s
    }
}

/// A text without the white space at its end.
pub open spec fn trimmed_end(s: Seq<char>) -> Seq<char>
    decreases s.len(),
{
    if s.len() > 0 && blank(s.last()) {
        trimmed_end(s.drop_last())
    } else {
        s
    }
}

/// A text without the white space at its start and at its end.
pub open spec fn trimmed(s: Seq<char>) -> Seq<char> {
    trimmed_end(trimmed_start(s))
}

/// A text without any run of `c` at its end.
pub open spec fn without_trailing(s: Seq<char>, c: char) -> Seq<char>
    decreases s.len(),
{
    if s.len() > 0 && s.last() == c {
        without_trailing(s.drop_last(), c)
    } else {
        s
    }
}

/// Takes the white space off both ends of a text.
pub fn trim(text: &str) -> (r: String)
    ensures
        r@ == trimmed(text@),
{
    let chars = chars_of(text);
    let mut from: usize = 0;
    assert(chars@.skip(0) =~= chars@);
    while from < chars.len() && chars[from].is_whitespace()
        invariant
            from <= chars@.len(),
            trimmed_start(chars@) == trimmed_start(chars@.skip(from as int)),
        ensures
            from <= chars@.len(),
            trimmed_start(chars@) == trimmed_start(chars@.skip(from as int)),
            from < chars@.len() ==> !blank(chars@[from as int]),
        decreases chars@.len() - from,
    {
        assert(chars@.skip(from as int).drop_first() =~= chars@.skip(from + 1));
        from = from + 1;
    }
    let ghost start = chars@.skip(from as int);
    assert(trimmed_start(chars@) == start);
    let mut to: usize = chars.len();
    assert(chars@.subrange(from as int, to as int) =~= start);
    while from < to && chars[to - 1].is_whitespace()
        invariant
            from <= to <= chars@.len(),
            trimmed_end(start) == trimmed_end(chars@.subrange(from as int, to as int)),
        ensures
            from <= to <= chars@.len(),
            trimmed_end(start) == trimmed_end(chars@.subrange(from as int, to as int)),
            from < to ==> !blank(chars@[to - 1]),
        decreases to,
    {
        assert(chars@.subrange(from as int, to as int).drop_last() =~= chars@.subrange(
            from as int,
            to - 1,
        ));
        to = to - 1;
    }
    text_of_range(&chars, from, to)
}

/// Takes every `c` off the end of a text.
pub fn trim_end_char(text: &str, c: char) -> (r: String)
    ensures
        r@ == without_trailing(text@, c),
{
    let chars = chars_of(text);
    let mut to: usize = chars.len();
    assert(chars@.take(to as int) =~= chars@);
    while to > 0 && chars[to - 1] == c
        invariant
            to <= chars@.len(),
            without_trailing(chars@, c) == without_trailing(chars@.take(to as int), c),
        ensures
            to <= chars@.len(),
            without_trailing(chars@, c) == without_trailing(chars@.take(to as int), c),
            to > 0 ==> chars@[to - 1] != c,
        decreases to,
    {
        assert(chars@.take(to as int).drop_last() =~= chars@.take(to - 1));
        to = to - 1;
    }
    text_of_range(&chars, 0, to)
}

/// The first `n` characters of a text, or all of them where it has fewer.
pub open spec fn first_chars(s: Seq<char>, n: int) -> Seq<char> {
    if s.len() <= n {
        s
    } else {
        s.take(n)
    }
}

/// Cuts a text to at most `n` characters.
pub fn cut(text: &str, n: usize) -> (r: String)
    ensures
        r@ == first_chars(text@, n as int),
{
    let chars = chars_of(text);
    if chars.len() <= n {
        text.to_owned()
    } else {
        text_of_range(&chars, 0, n)
    }
}

// ---------------------------------------------------------------------------------------------
// Replacing
// ---------------------------------------------------------------------------------------------

/// A text in which each occurrence of `pat` is replaced, read from the left and without overlap.
pub open spec fn replaced(s: Seq<char>, pat: Seq<char>, with: Seq<char>) -> Seq<char>
    decreases s.len(),
{
    if pat.len() == 0 || s.len() < pat.len() {
        s
    } else if s.take(pat.len() as int) == pat {
        with + replaced(s.skip(pat.len() as int), pat, with)
    } else {
        seq![s[0]] + replaced(s.skip(1), pat, with)
    }
}

/// Whether `pat` stands in `chars` at `at`.
fn stands_at(chars: &Vec<char>, at: usize, pat: &Vec<char>) -> (b: bool)
    requires
        at + pat@.len() <= chars@.len(),
    ensures
        b == (chars@.skip(at as int).take(pat@.len() as int) == pat@),
{
    let total: usize = chars.len();
    let mut i: usize = 0;
    while i < pat.len()
        invariant
            i <= pat@.len(),
            at + pat@.len() <= total,
            total == chars@.len(),
            forall|j: int| 0 <= j < i ==> chars@[at + j] == pat@[j],
        decreases pat@.len() - i,
    {
        if chars[at + i] != pat[i] {
            assert(chars@.skip(at as int).take(pat@.len() as int)[i as int] != pat@[i as int]);
            return false;
        }
        i = i + 1;
    }
    assert(chars@.skip(at as int).take(pat@.len() as int) =~= pat@);
    true
}

/// Replaces each occurrence of a pattern that is not empty.
pub fn replace_all(text: &str, pat: &str, with: &str) -> (r: String)
    requires
        pat@.len() > 0,
    ensures
        r@ == replaced(text@, pat@, with@),
{
    let chars = chars_of(text);
    let pat_chars = chars_of(pat);
    let n: usize = pat_chars.len();
    let mut out: String = String::new();
    let mut i: usize = 0;
    assert(chars@.skip(0) =~= chars@);
    assert(out@ + replaced(chars@.skip(0), pat@, with@) =~= replaced(text@, pat@, with@));
    while i < chars.len() && n <= chars.len() - i
        invariant
            i <= chars@.len(),
            chars@ == text@,
            pat_chars@ == pat@,
            n == pat@.len(),
            n > 0,
            replaced(text@, pat@, with@) == out@ + replaced(chars@.skip(i as int), pat@, with@),
        decreases chars@.len() - i,
    {
        let ghost rest = chars@.skip(i as int);
        let ghost before = out@;
        if stands_at(&chars, i, &pat_chars) {
            out.append(with);
            assert(rest.skip(n as int) =~= chars@.skip(i + n));
            i = i + n;
            assert(before + (with@ + replaced(rest.skip(n as int), pat@, with@)) =~= (before
                + with@) + replaced(rest.skip(n as int), pat@, with@));
        } else {
            out.push(chars[i]);
            assert(rest.skip(1) =~= chars@.skip(i + 1));
            assert(before + (seq![rest[0]] + replaced(rest.skip(1), pat@, with@)) =~= before.push(
                rest[0],
            ) + replaced(rest.skip(1), pat@, with@));
            i = i + 1;
        }
    }
    let ghost before = out@;
    push_range(&mut out, &chars, i, chars.len());
    assert(chars@.subrange(i as int, chars@.len() as int) =~= chars@.skip(i as int));
    assert(out@ == before + chars@.skip(i as int));
    out
}

// ---------------------------------------------------------------------------------------------
// Lines
// ---------------------------------------------------------------------------------------------

/// A text cut into pieces of `width` characters, the last of which may be shorter.
pub open spec fn pieces(s: Seq<char>, width: nat) -> Seq<Seq<char>>
    decreases s.len(),
{
    if s.len() == 0 || width == 0 {
        Seq::empty()
    } else if s.len() <= width {
        seq![s]
    } else {
        seq![s.take(width as int)] + pieces(s.skip(width as int), width)
    }
}

/// The lines of a text at a given width (at least one character). An empty text gives a note.
pub open spec fn wrapped(s: Seq<char>, width: nat) -> Seq<Seq<char>> {
    if s.len() == 0 {
        seq!["(空)"@]
    } else {
        pieces(s, if width == 0 { 1 } else { width })
    }
}

/// Cuts a text into lines of `width` characters.
pub fn wrap(text: &str, width: usize) -> (lines: Vec<String>)
    ensures
        views(lines@) == wrapped(text@, width as nat),
{
    let chars = chars_of(text);
    let mut lines: Vec<String> = Vec::new();
    if chars.len() == 0 {
        lines.push("(空)".to_owned());
        assert(views(lines@) =~= wrapped(text@, width as nat));
        return lines;
    }
    let step: usize = if width == 0 { 1 } else { width };
    let mut i: usize = 0;
    assert(chars@.skip(0) =~= chars@);
    assert(views(lines@) + pieces(chars@, step as nat) =~= pieces(chars@, step as nat));
    while i < chars.len()
        invariant
            i <= chars@.len(),
            step > 0,
            pieces(chars@, step as nat) == views(lines@) + pieces(
                chars@.skip(i as int),
                step as nat,
            ),
        decreases chars@.len() - i,
    {
        let ghost rest = chars@.skip(i as int);
        let ghost before = views(lines@);
        let left: usize = chars.len() - i;
        let to: usize = if left <= step { chars.len() } else { i + step };
        let line = text_of_range(&chars, i, to);
        let ghost piece = line@;
        lines.push(line);
        assert(views(lines@) =~= before.push(piece));
        if left <= step {
            assert(piece =~= rest);
            assert(chars@.skip(to as int).len() == 0);
            assert(before + seq![rest] =~= before.push(piece) + pieces(
                chars@.skip(to as int),
                step as nat,
            ));
        } else {
            assert(piece =~= rest.take(step as int));
            assert(rest.skip(step as int) =~= chars@.skip(to as int));
            assert(before + (seq![piece] + pieces(chars@.skip(to as int), step as nat))
                =~= before.push(piece) + pieces(chars@.skip(to as int), step as nat));
        }
        i = to;
    }
    assert(chars@.skip(i as int).len() == 0);
    assert(views(lines@) =~= pieces(chars@, step as nat));
    lines
}

/// Wrapping loses nothing: the lines of a text, one after the other, are the text.
pub proof fn wrapped_lines_make_the_text(s: Seq<char>, width: nat)
    requires
        s.len() > 0,
    ensures
        wrapped(s, width).flatten() == s,
{
    pieces_make_the_text(s, if width == 0 { 1 } else { width });
}

proof fn pieces_make_the_text(s: Seq<char>, width: nat)
    requires
        width > 0,
    ensures
        pieces(s, width).flatten() == s,
    decreases s.len(),
{
    let all = pieces(s, width);
    if s.len() > 0 {
        let first = if s.len() <= width {
            s
        } else {
            s.take(width as int)
        };
        let rest = s.skip(first.len() as int);
        pieces_make_the_text(rest, width);
        assert(all.drop_first() =~= pieces(rest, width));
        assert(all.first() == first);
        assert(first + rest =~= s);
    } else {
        assert(all.flatten() =~= s);
    }
}

/// No line is wider than asked for, and only the last may be shorter.
pub proof fn wrapped_lines_fit(s: Seq<char>, width: nat, i: int)
    requires
        s.len() > 0,
        width > 0,
        0 <= i < wrapped(s, width).len(),
    ensures
        0 < wrapped(s, width)[i].len() <= width,
        i < wrapped(s, width).len() - 1 ==> wrapped(s, width)[i].len() == width,
    decreases s.len(),
{
    if s.len() > width && i > 0 {
        wrapped_lines_fit(s.skip(width as int), width, i - 1);
    }
}

/// Texts put together with a separator between them.
pub open spec fn joined(parts: Seq<Seq<char>>, sep: Seq<char>) -> Seq<char>
    decreases parts.len(),
{
    if parts.len() == 0 {
        Seq::empty()
    } else if parts.len() == 1 {
        parts[0]
    } else {
        joined(parts.drop_last(), sep) + sep + parts.last()
    }
}

/// Joins texts with a separator.
pub fn join(parts: &Vec<String>, sep: &str) -> (r: String)
    ensures
        r@ == joined(views(parts@), sep@),
{
    let mut out: String = String::new();
    let mut i: usize = 0;
    let ghost all = views(parts@);
    assert(all.take(0) =~= Seq::<Seq<char>>::empty());
    while i < parts.len()
        invariant
            i <= parts@.len(),
            all == views(parts@),
            out@ == joined(all.take(i as int), sep@),
        decreases parts@.len() - i,
    {
        let ghost before = out@;
        if i > 0 {
            out.append(sep);
        }
        out.append(parts[i].as_str());
        assert(all.take(i + 1).drop_last() =~= all.take(i as int));
        if i == 0 {
            assert(out@ =~= all[0]);
        }
        i = i + 1;
    }
    assert(all.take(i as int) =~= all);
    out
}

/// `n` times the same character.
pub open spec fn run(c: char, n: nat) -> Seq<char> {
    Seq::new(n, |i: int| c)
}

/// Appends `n` times the same character.
pub fn push_run(text: &mut String, c: char, n: usize)
    ensures
        final(text)@ == old(text)@ + run(c, n as nat),
{
    let ghost before = text@;
    let mut i: usize = 0;
    assert(before + run(c, 0) =~= before);
    while i < n
        invariant
            i <= n,
            text@ == before + run(c, i as nat),
        decreases n - i,
    {
        text.push(c);
        i = i + 1;
        assert(before + run(c, i as nat) =~= (before + run(c, (i - 1) as nat)).push(c));
    }
}

// ---------------------------------------------------------------------------------------------
// Order
// ---------------------------------------------------------------------------------------------

/// The dictionary order of texts, character by character.
pub open spec fn text_before(a: Seq<char>, b: Seq<char>) -> bool
    decreases a.len(),
{
    if b.len() == 0 {
        false
    } else if a.len() == 0 {
        true
    } else if a[0] != b[0] {
        (a[0] as int) < (b[0] as int)
    } else {
        text_before(a.skip(1), b.skip(1))
    }
}

/// Whether one text stands before another in dictionary order.
pub fn is_text_before(a: &str, b: &str) -> (r: bool)
    ensures
        r == text_before(a@, b@),
{
    let left = chars_of(a);
    let right = chars_of(b);
    let mut i: usize = 0;
    assert(left@.skip(0) =~= left@);
    assert(right@.skip(0) =~= right@);
    while i < left.len() && i < right.len() && left[i] == right[i]
        invariant
            i <= left@.len(),
            i <= right@.len(),
            text_before(left@, right@) == text_before(left@.skip(i as int), right@.skip(i as int)),
        ensures
            i <= left@.len(),
            i <= right@.len(),
            text_before(left@, right@) == text_before(left@.skip(i as int), right@.skip(i as int)),
            i == left@.len() || i == right@.len() || left@[i as int] != right@[i as int],
        decreases left@.len() - i,
    {
        assert(left@.skip(i as int).skip(1) =~= left@.skip(i + 1));
        assert(right@.skip(i as int).skip(1) =~= right@.skip(i + 1));
        i = i + 1;
    }
    assert(i < left@.len() ==> left@.skip(i as int)[0] == left@[i as int]);
    assert(i < right@.len() ==> right@.skip(i as int)[0] == right@[i as int]);
    if i == right.len() {
        false
    } else if i == left.len() {
        true
    } else {
        left[i] < right[i]
    }
}

/// The dictionary order is a strict total order: of two different texts exactly one stands before
/// the other, and no text stands before itself.
pub proof fn text_order_total(a: Seq<char>, b: Seq<char>)
    ensures
        !(text_before(a, b) && text_before(b, a)),
        text_before(a, b) || text_before(b, a) || a == b,
        a == b ==> !text_before(a, b),
    decreases a.len(),
{
    if a.len() > 0 && b.len() > 0 && a[0] == b[0] {
        text_order_total(a.skip(1), b.skip(1));
        if a.skip(1) == b.skip(1) {
            assert(a =~= seq![a[0]] + a.skip(1));
            assert(b =~= seq![b[0]] + b.skip(1));
        }
    } else if a.len() == 0 && b.len() == 0 {
        assert(a =~= b);
    }
}

/// The dictionary order is transitive.
pub proof fn text_order_transitive(a: Seq<char>, b: Seq<char>, c: Seq<char>)
    requires
        text_before(a, b),
        text_before(b, c),
    ensures
        text_before(a, c),
    decreases a.len(),
{
    if a.len() > 0 && a[0] == b[0] && b[0] == c[0] {
        text_order_transitive(a.skip(1), b.skip(1), c.skip(1));
    }
}

// ---------------------------------------------------------------------------------------------
// Laws
// ---------------------------------------------------------------------------------------------

/// The number that a run of decimal digits stands for.
pub open spec fn number_of(s: Seq<char>) -> int
    decreases s.len(),
{
    if s.len() == 0 {
        0
    } else {
        10 * number_of(s.drop_last()) + (s.last() as u32 - 48)
    }
}

/// The text is a run of decimal digits.
pub open spec fn all_digits(s: Seq<char>) -> bool {
    s.len() > 0 && forall|i: int| 0 <= i < s.len() ==> '0' <= #[trigger] s[i] <= '9'
}

/// The digits of a number stand for it, and there are no zeros before them.
pub proof fn digits_stand_for_the_number(n: nat)
    ensures
        all_digits(digits(n)),
        number_of(digits(n)) == n,
        digits(n).len() > 1 ==> digits(n)[0] != '0',
    decreases n,
{
    if n < 10 {
        reveal_with_fuel(number_of, 2);
    } else {
        digits_stand_for_the_number(n / 10);
        assert(digits(n).drop_last() =~= digits(n / 10));
        assert(digits(n)[0] == digits(n / 10)[0]);
        if digits(n / 10).len() == 1 {
            assert(n / 10 > 0);
            reveal_with_fuel(number_of, 2);
        }
    }
}

/// A number that is shown can be read back: its digits stand for its size, and a minus sign for
/// its being negative.
pub proof fn decimal_stands_for_the_number(n: int)
    ensures
        n >= 0 ==> all_digits(decimal(n)) && number_of(decimal(n)) == n,
        n < 0 ==> decimal(n)[0] == '-' && all_digits(decimal(n).skip(1)) && number_of(
            decimal(n).skip(1),
        ) == -n,
{
    if n >= 0 {
        digits_stand_for_the_number(n as nat);
    } else {
        digits_stand_for_the_number((-n) as nat);
        assert(decimal(n).skip(1) =~= digits((-n) as nat));
    }
}

/// Different numbers are shown differently.
pub proof fn decimals_differ(a: int, b: int)
    requires
        decimal(a) == decimal(b),
    ensures
        a == b,
{
    decimal_stands_for_the_number(a);
    decimal_stands_for_the_number(b);
    if a < 0 && b >= 0 {
        assert('0' <= decimal(b)[0]);
    }
    if b < 0 && a >= 0 {
        assert('0' <= decimal(a)[0]);
    }
}

/// Two digits stand for a number below a hundred.
pub proof fn two_digits_stand_for_the_number(n: nat)
    requires
        n < 100,
    ensures
        two_digits(n).len() == 2,
        all_digits(two_digits(n)),
        number_of(two_digits(n)) == n,
{
    reveal_with_fuel(digits, 2);
    reveal_with_fuel(number_of, 3);
    digits_stand_for_the_number(n);
    assert(two_digits(n).drop_last().drop_last().len() == 0);
}

/// Trimming takes away white space at the ends and nothing else, and leaves none there.
pub proof fn trimming_takes_white_space_only(s: Seq<char>) -> (ends: (int, int))
    ensures
        0 <= ends.0 <= ends.1 <= s.len(),
        trimmed(s) == s.subrange(ends.0, ends.1),
        forall|i: int| 0 <= i < ends.0 || ends.1 <= i < s.len() ==> blank(#[trigger] s[i]),
        ends.0 < ends.1 ==> !blank(s[ends.0]) && !blank(s[ends.1 - 1]),
{
    let from = trim_start_place(s);
    let t = trimmed_start(s);
    let to = trim_end_place(t);
    assert(trimmed(s) =~= s.subrange(from, from + to));
    assert forall|i: int| 0 <= i < from || from + to <= i < s.len() implies blank(
        #[trigger] s[i],
    ) by {
        if i >= from + to {
            assert(t[i - from] == s[i]);
        }
    }
    if to > 0 {
        assert(t[0] == s[from]);
        assert(t[to - 1] == s[from + to - 1]);
    }
    (from, from + to)
}

proof fn trim_start_place(s: Seq<char>) -> (i: int)
    ensures
        0 <= i <= s.len(),
        trimmed_start(s) == s.skip(i),
        forall|k: int| 0 <= k < i ==> blank(#[trigger] s[k]),
        i < s.len() ==> !blank(s[i]),
    decreases s.len(),
{
    if s.len() > 0 && blank(s.first()) {
        let j = trim_start_place(s.drop_first());
        assert(s.drop_first().skip(j) =~= s.skip(j + 1));
        assert forall|k: int| 0 <= k < j + 1 implies blank(#[trigger] s[k]) by {
            if k > 0 {
                assert(s.drop_first()[k - 1] == s[k]);
            }
        }
        j + 1
    } else {
        assert(s.skip(0) =~= s);
        0
    }
}

proof fn trim_end_place(s: Seq<char>) -> (i: int)
    ensures
        0 <= i <= s.len(),
        trimmed_end(s) == s.take(i),
        forall|k: int| i <= k < s.len() ==> blank(#[trigger] s[k]),
        i > 0 ==> !blank(s[i - 1]),
    decreases s.len(),
{
    if s.len() > 0 && blank(s.last()) {
        let j = trim_end_place(s.drop_last());
        assert(s.drop_last().take(j) =~= s.take(j));
        assert forall|k: int| j <= k < s.len() implies blank(#[trigger] s[k]) by {
            if k < s.len() - 1 {
                assert(s.drop_last()[k] == s[k]);
            }
        }
        j
    } else {
        assert(s.take(s.len() as int) =~= s);
        s.len() as int
    }
}

/// Only the character in question is taken off the end, and none of it is left there.
pub proof fn only_trailing_characters_go(s: Seq<char>, c: char) -> (n: int)
    ensures
        0 <= n <= s.len(),
        without_trailing(s, c) == s.take(n),
        forall|i: int| n <= i < s.len() ==> #[trigger] s[i] == c,
        n > 0 ==> s[n - 1] != c,
    decreases s.len(),
{
    if s.len() > 0 && s.last() == c {
        let n = only_trailing_characters_go(s.drop_last(), c);
        assert(s.drop_last().take(n) =~= s.take(n));
        assert forall|i: int| n <= i < s.len() implies #[trigger] s[i] == c by {
            if i < s.len() - 1 {
                assert(s.drop_last()[i] == s[i]);
            }
        }
        n
    } else {
        assert(s.take(s.len() as int) =~= s);
        s.len() as int
    }
}

/// A text that is cut is the start of the text, as long as it may be.
pub proof fn a_cut_text_is_the_start(s: Seq<char>, n: int)
    requires
        n >= 0,
    ensures
        first_chars(s, n).len() == if s.len() < n {
            s.len() as int
        } else {
            n
        },
        forall|i: int| 0 <= i < first_chars(s, n).len() ==> #[trigger] first_chars(s, n)[i] == s[i],
{
}

/// `pat` stands in `s` at `i`.
pub open spec fn stands(s: Seq<char>, pat: Seq<char>, i: int) -> bool {
    0 <= i && i + pat.len() <= s.len() && s.subrange(i, i + pat.len()) == pat
}

/// A text in which the pattern does not stand is not touched. Otherwise what comes before its first
/// occurrence stays, the occurrence is replaced, and the rest is treated in the same way.
pub proof fn occurrences_are_replaced(s: Seq<char>, pat: Seq<char>, with: Seq<char>, i: int)
    requires
        pat.len() > 0,
        forall|j: int| 0 <= j < i ==> !#[trigger] stands(s, pat, j),
        stands(s, pat, i) || i == s.len(),
    ensures
        stands(s, pat, i) ==> replaced(s, pat, with) == s.take(i) + with + replaced(
            s.skip(i + pat.len()),
            pat,
            with,
        ),
        !stands(s, pat, i) ==> replaced(s, pat, with) == s,
    decreases s.len(),
{
    let n = pat.len() as int;
    if s.len() < n {
    } else if s.take(n) == pat {
        assert(s.subrange(0, n) =~= s.take(n));
        assert(stands(s, pat, 0));
        assert(i == 0);
        assert(s.take(0) + with =~= with);
    } else {
        if i == 0 {
            assert(s.subrange(0, n) =~= s.take(n));
        }
        let t = s.skip(1);
        assert forall|j: int| 0 <= j < i - 1 implies !#[trigger] stands(t, pat, j) by {
            if stands(t, pat, j) {
                assert(s.subrange(j + 1, j + 1 + n) =~= t.subrange(j, j + n));
                assert(stands(s, pat, j + 1));
            }
        }
        if stands(s, pat, i) {
            assert(t.subrange(i - 1, i - 1 + n) =~= s.subrange(i, i + n));
        }
        if stands(t, pat, i - 1) {
            assert(s.subrange(i, i + n) =~= t.subrange(i - 1, i - 1 + n));
        }
        occurrences_are_replaced(t, pat, with, i - 1);
        assert(seq![s[0]] + t =~= s);
        if stands(s, pat, i) {
            let rest = replaced(s.skip(i + n), pat, with);
            assert(t.skip(i - 1 + n) =~= s.skip(i + n));
            assert(seq![s[0]] + (t.take(i - 1) + with + rest) =~= s.take(i) + with + rest);
        }
    }
}

/// Joining two lists one after the other puts the separator between what they join to.
pub proof fn joining_is_gradual(a: Seq<Seq<char>>, b: Seq<Seq<char>>, sep: Seq<char>)
    requires
        a.len() > 0,
        b.len() > 0,
    ensures
        joined(a + b, sep) == joined(a, sep) + sep + joined(b, sep),
        a.len() == 1 ==> joined(a, sep) == a[0],
    decreases b.len(),
{
    assert((a + b).drop_last() =~= a + b.drop_last());
    assert((a + b).last() == b.last());
    if b.len() == 1 {
        assert(a + b.drop_last() =~= a);
    } else {
        joining_is_gradual(a, b.drop_last(), sep);
        assert(joined(a, sep) + sep + joined(b.drop_last(), sep) + sep + b.last() =~= joined(a, sep)
            + sep + (joined(b.drop_last(), sep) + sep + b.last()));
    }
}

/// Of two texts that differ first at some place, the one with the lesser character there stands
/// before the other, and a text stands before any that goes on after it.
pub proof fn texts_are_ordered_by_the_first_difference(a: Seq<char>, b: Seq<char>, k: int)
    requires
        0 <= k <= a.len(),
        k < b.len(),
        forall|i: int| 0 <= i < k ==> a[i] == b[i],
        k < a.len() ==> (a[k] as int) < (b[k] as int),
    ensures
        text_before(a, b),
        !text_before(b, a),
    decreases k,
{
    if k > 0 {
        assert forall|i: int| 0 <= i < k - 1 implies a.skip(1)[i] == b.skip(1)[i] by {
            assert(a[i + 1] == b[i + 1]);
        }
        assert(a[0] == b[0]);
        texts_are_ordered_by_the_first_difference(a.skip(1), b.skip(1), k - 1);
    }
}

/// A number at the start of a text ends where the digits end: two texts that begin with different
/// runs of digits, and go on with something else, differ.
pub proof fn leading_digits_tell_texts_apart(
    a: Seq<char>,
    x: Seq<char>,
    b: Seq<char>,
    y: Seq<char>,
)
    requires
        all_digits(a),
        all_digits(b),
        x.len() > 0 && !('0' <= x[0] <= '9'),
        y.len() > 0 && !('0' <= y[0] <= '9'),
        a + x == b + y,
    ensures
        a == b,
        x == y,
{
    if a.len() < b.len() {
        assert((a + x)[a.len() as int] == x[0]);
        assert((b + y)[a.len() as int] == b[a.len() as int]);
    } else if b.len() < a.len() {
        assert((b + y)[b.len() as int] == y[0]);
        assert((a + x)[b.len() as int] == a[b.len() as int]);
    }
    assert(a =~= (a + x).take(a.len() as int));
    assert(b =~= (b + y).take(b.len() as int));
    assert(x =~= (a + x).skip(a.len() as int));
    assert(y =~= (b + y).skip(b.len() as int));
}

/// A text with no white space at its ends is kept by trimming.
pub proof fn trimming_keeps(s: Seq<char>)
    requires
        s.len() > 0,
        !blank(s[0]),
        !blank(s.last()),
    ensures
        trimmed(s) == s,
{
    let (from, to) = trimming_takes_white_space_only(s);
    assert(from == 0);
    assert(to == s.len());
    assert(s.subrange(from, to) =~= s);
}

/// One more blank in front of a text or behind it is trimmed too.
pub proof fn trimming_skips_blanks(s: Seq<char>, c: char)
    requires
        blank(c),
    ensures
        trimmed(seq![c] + s) == trimmed(s),
        trimmed(s.push(c)) == trimmed(s),
{
    assert((seq![c] + s).skip(1) =~= s);
    assert(trimmed_start(seq![c] + s) == trimmed_start(s));
    trimmed_start_of_more(s, c);
    if exists|i: int| 0 <= i < s.len() && !blank(#[trigger] s[i]) {
        assert(trimmed_start(s).push(c).drop_last() =~= trimmed_start(s));
    } else {
        all_blank(s);
        assert(trimmed_end(Seq::<char>::empty()) =~= Seq::empty());
    }
}

proof fn trimmed_start_of_more(s: Seq<char>, c: char)
    requires
        blank(c),
    ensures
        (exists|i: int| 0 <= i < s.len() && !blank(#[trigger] s[i])) ==> trimmed_start(s.push(c))
            == trimmed_start(s).push(c),
        !(exists|i: int| 0 <= i < s.len() && !blank(#[trigger] s[i])) ==> trimmed_start(
            s.push(c),
        ).len() == 0,
    decreases s.len(),
{
    let t = s.push(c);
    if s.len() == 0 {
        assert(t.skip(1) =~= s);
        assert(trimmed_start(t) == trimmed_start(s));
    } else if blank(s[0]) {
        let rest = s.skip(1);
        assert(t.skip(1) =~= rest.push(c));
        trimmed_start_of_more(rest, c);
        if exists|i: int| 0 <= i < s.len() && !blank(#[trigger] s[i]) {
            let i = choose|i: int| 0 <= i < s.len() && !blank(#[trigger] s[i]);
            assert(rest[i - 1] == s[i]);
        } else if exists|i: int| 0 <= i < rest.len() && !blank(#[trigger] rest[i]) {
            let i = choose|i: int| 0 <= i < rest.len() && !blank(#[trigger] rest[i]);
            assert(s[i + 1] == rest[i]);
        }
    }
}

proof fn all_blank(s: Seq<char>)
    requires
        forall|i: int| 0 <= i < s.len() ==> blank(#[trigger] s[i]),
    ensures
        trimmed_start(s).len() == 0,
    decreases s.len(),
{
    if s.len() > 0 {
        let rest = s.skip(1);
        assert forall|i: int| 0 <= i < rest.len() implies blank(#[trigger] rest[i]) by {
            assert(rest[i] == s[i + 1]);
        }
        all_blank(rest);
    }
}

/// A text without characters is told by a note, and a line has at least one character.
pub proof fn empty_texts_are_noted(s: Seq<char>)
    ensures
        s.len() == 0 ==> forall|width: nat| #[trigger] wrapped(s, width) == seq!["(空)"@],
        wrapped(s, 0) == wrapped(s, 1),
        s.len() > 0 ==> forall|width: nat| width >= s.len() ==> #[trigger] wrapped(s, width) == seq![s],
{
}

/// What a list of texts says is what each of them says, in its place.
pub proof fn every_text_of_a_list_is_told(list: Seq<String>)
    ensures
        views(list).len() == list.len(),
        forall|i: int| 0 <= i < list.len() ==> #[trigger] views(list)[i] == list[i]@,
{
}

/// A run is one character as often as asked for, and nothing put together is nothing.
pub proof fn runs_repeat_one_character(c: char, n: nat, sep: Seq<char>)
    ensures
        run(c, n).len() == n,
        forall|i: int| 0 <= i < n ==> #[trigger] run(c, n)[i] == c,
        joined(Seq::empty(), sep) == Seq::<char>::empty(),
{
}

/// A text stands before every longer text that begins with it.
pub proof fn a_text_stands_before_its_continuations(a: Seq<char>, more: Seq<char>)
    ensures
        text_before(a, a + more) <==> more.len() > 0,
        !text_before(a + more, a),
    decreases a.len(),
{
    if a.len() == 0 {
        assert(a + more =~= more);
    } else {
        a_text_stands_before_its_continuations(a.skip(1), more);
        assert((a + more).skip(1) =~= a.skip(1) + more);
    }
}

} // verus!
