use vstd::prelude::*;

use crate::text::{chars_of, decimal_text, nat_text};

verus! {

/// The option that a keystroke picks in a numbered menu of `count` options:
/// the digits `1` to `9` that stand for an option.
pub open spec fn numbered_choice(key: u8, count: nat) -> Option<u8> {
    if 49 <= key && key <= 57 && (key - 48) <= count {
        Some((key - 48) as u8)
    } else {
        None
    }
}

/// The text of the line that shows option `number` of a numbered menu.
pub open spec fn option_line(number: nat, label: Seq<char>) -> Seq<char> {
    seq![' ', ' '] + nat_text(number) + seq![')', ' '] + label
}

/// Whether `key` opens with the character `c`.
pub open spec fn key_starts_with(key: Seq<char>, c: char) -> bool {
    key.len() > 0 && key[0] == c
}

/// Whether some key of a keyed menu opens with `c`.
pub open spec fn some_key_starts_with(keys: Seq<&str>, c: char) -> bool {
    exists|i: int| 0 <= i < keys.len() && key_starts_with(#[trigger] keys[i]@, c)
}

/// `title` with a space before each of its characters.
pub open spec fn spaced(title: Seq<char>) -> Seq<char>
    decreases title.len(),
{
    if title.len() == 0 {
        seq![]
    } else {
        spaced(title.drop_last()) + seq![' ', title.last()]
    }
}

/// A menu title spread out, a space before each of its characters.
pub fn spaced_title(title: &str) -> (r: Vec<char>)
    ensures
        r@ == spaced(title@),
        r@.len() == 2 * title@.len(),
{
    let s = chars_of(title);
    let mut r: Vec<char> = Vec::new();
    let mut i: usize = 0;
    while i < s.len()
        invariant
            s@ == title@,
            i <= s@.len(),
            r@ == spaced(s@.subrange(0, i as int)),
            r@.len() == 2 * i,
        decreases s@.len() - i,
    {
        assert(s@.subrange(0, i + 1).drop_last() =~= s@.subrange(0, i as int));
        r.push(' ');
        r.push(s[i]);
        i += 1;
    }
    assert(s@.subrange(0, i as int) =~= s@);
    r
}

/// The 1-based option that keystroke `key` selects in a numbered menu of
/// `count` options, or `None` when the keystroke is to be ignored.
pub fn menu_selection(key: u8, count: usize) -> (r: Option<u8>)
    ensures
        r == numbered_choice(key, count as nat),
{
    if 49 <= key && key <= 57 && ((key - 48) as usize) <= count {
        Some(key - 48)
    } else {
        None
    }
}

/// The line that shows option `number` with its label.
pub fn menu_line(number: usize, label: &str) -> (r: Vec<char>)
    ensures
        r@ == option_line(number as nat, label@),
{
    let mut r: Vec<char> = vec![' ', ' '];
    let mut digits = decimal_text(number);
    r.append(&mut digits);
    r.push(')');
    r.push(' ');
    let mut rest = chars_of(label);
    r.append(&mut rest);
    assert(r@ =~= option_line(number as nat, label@));
    r
}

/// The lines of a numbered menu, one per option, numbered from 1.
pub fn menu_lines(items: &Vec<&str>) -> (r: Vec<Vec<char>>)
    requires
        items@.len() < usize::MAX,
    ensures
        r@.len() == items@.len(),
        forall|i: int| 0 <= i < items@.len() ==> (#[trigger] r@[i])@ == option_line(
            (i + 1) as nat,
            items@[i]@,
        ),
{
    let mut r: Vec<Vec<char>> = Vec::new();
    let mut i: usize = 0;
    while i < items.len()
        invariant
            i <= items@.len() < usize::MAX,
            r@.len() == i,
            forall|j: int| 0 <= j < i ==> (#[trigger] r@[j])@ == option_line(
                (j + 1) as nat,
                items@[j]@,
            ),
        decreases items@.len() - i,
    {
        let line = menu_line(i + 1, items[i]);
        r.push(line);
        i += 1;
    }
    r
}

/// The key that keystroke `key` selects in a keyed menu: the keystroke itself
/// when some key opens with it, else `None` and the keystroke is ignored.
pub fn key_selection(key: u8, keys: &Vec<&str>) -> (r: Option<char>)
    ensures
        r == (if some_key_starts_with(keys@, key as char) {
            Some(key as char)
        } else {
            None::<char>
        }),
{
    let c = key as char;
    let mut i: usize = 0;
    while i < keys.len()
        invariant
            i <= keys@.len(),
            c == key as char,
            forall|j: int| 0 <= j < i ==> !key_starts_with(#[trigger] keys@[j]@, c),
        decreases keys@.len() - i,
    {
        let k = keys[i];
        if k.unicode_len() > 0 && k.get_char(0) == c {
            assert(keys@[i as int]@ == k@);
            assert(key_starts_with(keys@[i as int]@, c));
            assert(some_key_starts_with(keys@, key as char));
            return Some(c);
        }
        i += 1;
    }
    None
}

} // verus!
