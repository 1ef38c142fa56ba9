//! Choosing a recorded game from a list: the list, the cursor and the part
//! of the list that is visible.

use vstd::prelude::*;
use vstd::string::*;
use std::path::PathBuf;

verus! {

/// What the list shows of a recorded game.
#[derive(Debug, Clone)]
pub struct KifuFileInfo {
    pub path: PathBuf,
    pub filename: String,
    pub board_setup: String,
    pub player1: String,
    pub player2: String,
    pub move_count: usize,
    pub timestamp: String,
}

/// A list of recorded games with a cursor and a window of visible rows.
pub struct KifuSelector {
    files: Vec<KifuFileInfo>,
    selected_index: usize,
    scroll_offset: usize,
    visible_rows: usize,
}

/// The first visible row after the cursor has moved to `selected`: the
/// window moves just far enough to hold the cursor.
pub open spec fn scrolled(selected: nat, offset: nat, rows: nat) -> nat {
    if selected < offset {
        selected
    } else if selected >= offset + rows {
        (selected - rows + 1) as nat
    } else {
        offset
    }
}

impl KifuSelector {
    /// The games of the list.
    pub closed spec fn entries(&self) -> Seq<KifuFileInfo> {
        self.files@
    }

    /// The number of the game under the cursor.
    pub closed spec fn selected(&self) -> nat {
        self.selected_index as nat
    }

    /// The number of the first visible game.
    pub closed spec fn offset(&self) -> nat {
        self.scroll_offset as nat
    }

    /// The number of visible rows.
    pub closed spec fn rows(&self) -> nat {
        self.visible_rows as nat
    }

    /// The invariant of the selector: at least one row is visible, and the
    /// cursor is on a game, if there is any, within the window.
    pub open spec fn wf(&self) -> bool {
        &&& self.rows() > 0
        &&& self.entries().len() > 0 ==> self.selected() < self.entries().len()
        &&& self.entries().len() == 0 ==> self.selected() == 0
        &&& self.offset() <= self.selected() < self.offset() + self.rows()
    }

    /// A selector over the given games with 20 visible rows and the cursor
    /// on the first game.
    pub fn with_files(files: Vec<KifuFileInfo>) -> (s: Self)
        ensures
            s.wf(),
            s.entries() == files@,
            s.selected() == 0,
            s.offset() == 0,
            s.rows() == 20,
    {
        KifuSelector { files, selected_index: 0, scroll_offset: 0, visible_rows: 20 }
    }

    /// The number of games.
    pub fn len(&self) -> (n: usize)
        ensures
            n == self.entries().len(),
    {
        self.files.len()
    }

    /// The number of the game under the cursor.
    pub fn selected_index(&self) -> (i: usize)
        ensures
            i == self.selected(),
    {
        self.selected_index
    }

    /// The number of the first visible game.
    pub fn scroll_offset(&self) -> (i: usize)
        ensures
            i == self.offset(),
    {
        self.scroll_offset
    }

    /// The number of visible rows.
    pub fn visible_rows(&self) -> (n: usize)
        ensures
            n == self.rows(),
    {
        self.visible_rows
    }

    /// The game under the cursor, if there is any game.
    pub fn current(&self) -> (r: Option<&KifuFileInfo>)
        requires
            self.wf(),
        ensures
            r is Some <==> self.entries().len() > 0,
            r matches Some(f) ==> *f == self.entries()[self.selected() as int],
    {
        if self.files.len() > 0 {
            Some(&self.files[self.selected_index])
        } else {
            None
        }
    }

    /// The game with the given number.
    pub fn file(&self, i: usize) -> (f: &KifuFileInfo)
        requires
            i < self.entries().len(),
        ensures
            *f == self.entries()[i as int],
    {
        &self.files[i]
    }

    /// Moves the window so that it holds the cursor.
    pub fn update_scroll(&mut self)
        requires
            old(self).rows() > 0,
        ensures
            final(self).entries() == old(self).entries(),
            final(self).selected() == old(self).selected(),
            final(self).rows() == old(self).rows(),
            final(self).offset() == scrolled(
                old(self).selected(),
                old(self).offset(),
                old(self).rows(),
            ),
            final(self).offset() <= final(self).selected(),
            final(self).selected() < final(self).offset() + final(self).rows(),
    {
        if self.selected_index < self.scroll_offset {
            self.scroll_offset = self.selected_index;
        } else if self.selected_index - self.scroll_offset >= self.visible_rows {
            self.scroll_offset = self.selected_index - self.visible_rows + 1;
        }
    }

    /// Moves the cursor one game up, unless it is on the first.
    pub fn move_up(&mut self)
        requires
            old(self).wf(),
        ensures
            final(self).wf(),
            final(self).entries() == old(self).entries(),
            final(self).rows() == old(self).rows(),
            final(self).selected() == if old(self).selected() > 0 {
                (old(self).selected() - 1) as nat
            } else {
                0
            },
            final(self).offset() == scrolled(
                final(self).selected(),
                old(self).offset(),
                old(self).rows(),
            ),
    {
        if self.selected_index > 0 {
            self.selected_index -= 1;
            self.update_scroll();
        }
    }

    /// Moves the cursor one game down, unless it is on the last.
    pub fn move_down(&mut self)
        requires
            old(self).wf(),
        ensures
            final(self).wf(),
            final(self).entries() == old(self).entries(),
            final(self).rows() == old(self).rows(),
            final(self).selected() == if old(self).selected() + 1 < old(self).entries().len() {
                old(self).selected() + 1
            } else {
                old(self).selected()
            },
            final(self).offset() == scrolled(
                final(self).selected(),
                old(self).offset(),
                old(self).rows(),
            ),
    {
        if self.files.len() > 0 && self.selected_index < self.files.len() - 1 {
            self.selected_index += 1;
            self.update_scroll();
        }
    }
}

/// The moves whose number is at least `from`: what a list of `len` entries
/// shows in a window of `rows` rows that starts at `offset`.
pub open spec fn window_end(offset: nat, rows: nat, len: nat) -> nat {
    if offset + rows < len {
        offset + rows
    } else {
        len
    }
}

/// The number after the last visible entry of a list.
pub fn visible_end(offset: usize, rows: usize, len: usize) -> (end: usize)
    ensures
        end == window_end(offset as nat, rows as nat, len as nat),
{
    if offset < len && rows < len - offset {
        offset + rows
    } else {
        len
    }
}

/// The text cut to `max_len` characters: as it is if it is no longer, else
/// its first `max_len - 1` characters and an ellipsis.
pub open spec fn truncated(s: Seq<char>, max_len: nat) -> Seq<char> {
    if s.len() <= max_len {
        s
    } else {
        s.subrange(
            0,
            if max_len >= 1 {
                max_len - 1
            } else {
                0
            },
        ) + seq!['…']
    }
}

/// The text cut to `max_len` characters.
pub fn truncate(s: &str, max_len: usize) -> (r: String)
    ensures
        r@ == truncated(s@, max_len as nat),
{
    let char_count = s.unicode_len();
    if char_count <= max_len {
        s.to_string()
    } else {
        let keep = if max_len >= 1 {
            max_len - 1
        } else {
            0
        };
        let mut r = s.substring_char(0, keep).to_string();
        proof {
            reveal_strlit("…");
        }
        r.append("…");
        proof {
            assert("…"@ =~= seq!['…']);
        }
        r
    }
}

/// The last position before `n` at which `c` stands, if there is one.
pub open spec fn last_char(s: Seq<char>, c: char, n: nat) -> Option<nat>
    decreases n,
{
    if n == 0 {
        None
    } else if s[n - 1] == c {
        Some((n - 1) as nat)
    } else {
        last_char(s, c, (n - 1) as nat)
    }
}

/// Whether a text ends in `.json`.
pub open spec fn ends_in_json(s: Seq<char>) -> bool {
    s.len() >= 5 && s[s.len() - 5] == '.' && s[s.len() - 4] == 'j' && s[s.len() - 3] == 's' && s[s.len()
        - 2] == 'o' && s[s.len() - 1] == 'n'
}

/// The number of characters of a text that are left when every `.json` at
/// its end is taken away.
pub open spec fn stem_len(s: Seq<char>, n: nat) -> nat
    decreases n,
{
    if n >= 5 && n <= s.len() && ends_in_json(s.subrange(0, n as int)) {
        stem_len(s, (n - 5) as nat)
    } else {
        n
    }
}

/// A date of eight digits with hyphens between year, month and day.
pub open spec fn dashed(date: Seq<char>) -> Seq<char> {
    date.subrange(0, 4) + seq!['-'] + date.subrange(4, 6) + seq!['-'] + date.subrange(6, 8)
}

/// A time of six digits with colons between hours, minutes and seconds.
pub open spec fn coloned(time: Seq<char>) -> Seq<char> {
    time.subrange(0, 2) + seq![':'] + time.subrange(2, 4) + seq![':'] + time.subrange(4, 6)
}

/// The point in time that two parts of a name give: date and time spelled
/// out if they have eight and six characters, the date alone if only it has
/// eight, else the two parts as they are with a blank between them.
pub open spec fn spelled(date: Seq<char>, time: Seq<char>) -> Seq<char> {
    if date.len() == 8 && time.len() == 6 {
        dashed(date) + seq![' '] + coloned(time)
    } else if date.len() == 8 {
        dashed(date)
    } else {
        date + seq![' '] + time
    }
}

/// The point in time that a file name gives: none if the name has fewer
/// than two underscores; else what the part between the last two
/// underscores and the part after the last one, without `.json` at its end,
/// spell.
pub open spec fn timestamp_of(name: Seq<char>) -> Option<Seq<char>> {
    match last_char(name, '_', name.len()) {
        None => None,
        Some(u2) => match last_char(name, '_', u2) {
            None => None,
            Some(u1) => {
                let rest = name.subrange(u2 as int + 1, name.len() as int);
                Some(
                    spelled(
                        name.subrange(u1 as int + 1, u2 as int),
                        rest.subrange(0, stem_len(rest, rest.len()) as int),
                    ),
                )
            },
        },
    }
}

/// The last position before `n` at which `c` stands.
fn find_last(s: &str, c: char, n: usize) -> (r: Option<usize>)
    requires
        n <= s@.len(),
    ensures
        r is Some <==> last_char(s@, c, n as nat) is Some,
        r matches Some(i) ==> i < n && last_char(s@, c, n as nat) == Some(i as nat),
{
    let mut i: usize = n;
    while i > 0
        invariant
            i <= n,
            n <= s@.len(),
            last_char(s@, c, n as nat) == last_char(s@, c, i as nat),
        decreases i,
    {
        if s.get_char(i - 1) == c {
            return Some(i - 1);
        }
        i -= 1;
    }
    None
}

/// The number of characters that are left of a text when every `.json` at
/// its end is taken away.
fn stem_length(s: &str) -> (n: usize)
    ensures
        n == stem_len(s@, s@.len()),
        n <= s@.len(),
{
    let mut n = s.unicode_len();
    while n >= 5 && s.get_char(n - 5) == '.' && s.get_char(n - 4) == 'j' && s.get_char(n - 3)
        == 's' && s.get_char(n - 2) == 'o' && s.get_char(n - 1) == 'n'
        invariant
            n <= s@.len(),
            stem_len(s@, s@.len()) == stem_len(s@, n as nat),
        decreases n,
    {
        n -= 5;
    }
    n
}

/// A date of eight characters with hyphens between year, month and day.
fn dash_date(date: &str) -> (r: String)
    requires
        date@.len() == 8,
    ensures
        r@ == dashed(date@),
{
    proof {
        reveal_strlit("-");
        assert("-"@ =~= seq!['-']);
    }
    let mut r = date.substring_char(0, 4).to_string();
    r.append("-");
    r.append(date.substring_char(4, 6));
    r.append("-");
    r.append(date.substring_char(6, 8));
    r
}

/// The point in time that a file name gives.
pub fn extract_timestamp_from_filename(filename: &str) -> (r: Option<String>)
    ensures
        r is Some <==> timestamp_of(filename@) is Some,
        r matches Some(t) ==> timestamp_of(filename@) == Some(t@),
{
    let n = filename.unicode_len();
    let u2 = match find_last(filename, '_', n) {
        Some(u) => u,
        None => {
            return None;
        },
    };
    let u1 = match find_last(filename, '_', u2) {
        Some(u) => u,
        None => {
            return None;
        },
    };
    let date = filename.substring_char(u1 + 1, u2);
    let rest = filename.substring_char(u2 + 1, n);
    let time = rest.substring_char(0, stem_length(rest));
    proof {
        reveal_strlit(" ");
        reveal_strlit(":");
        assert(" "@ =~= seq![' ']);
        assert(":"@ =~= seq![':']);
    }
    if date.unicode_len() == 8 && time.unicode_len() == 6 {
        let mut r = dash_date(date);
        r.append(" ");
        r.append(time.substring_char(0, 2));
        r.append(":");
        r.append(time.substring_char(2, 4));
        r.append(":");
        r.append(time.substring_char(4, 6));
        proof {
            assert(r@ =~= spelled(date@, time@));
        }
        Some(r)
    } else if date.unicode_len() == 8 {
        Some(dash_date(date))
    } else {
        let mut r = date.to_string();
        r.append(" ");
        r.append(time);
        Some(r)
    }
}

/// Whether a character is a decimal digit of ASCII.
pub open spec fn is_digit(c: char) -> bool {
    '0' <= c && c <= '9'
}

/// Whether a text is a date of eight digits.
pub open spec fn is_date(s: Seq<char>) -> bool {
    s.len() == 8 && forall|i: int| 0 <= i < 8 ==> is_digit(#[trigger] s[i])
}

/// The point in time that the name of a directory gives: what it gives as a
/// file name, if it gives one; else the date that it is, if it is a date of
/// eight digits; else, if it holds an underscore, the date that stands
/// before or after it, looked for in this order.
pub open spec fn dir_timestamp_of(name: Seq<char>) -> Option<Seq<char>> {
    match timestamp_of(name) {
        Some(t) => Some(t),
        None => if is_date(name) {
            Some(dashed(name))
        } else {
            match last_char(name, '_', name.len()) {
                None => None,
                Some(u) => {
                    let before = name.subrange(0, u as int);
                    let after = name.subrange(u as int + 1, name.len() as int);
                    if is_date(before) {
                        Some(dashed(before))
                    } else if is_date(after) {
                        Some(dashed(after))
                    } else {
                        None
                    }
                },
            }
        },
    }
}

/// Whether a text is a date of eight digits.
pub fn is_date_text(s: &str) -> (b: bool)
    ensures
        b == is_date(s@),
{
    if s.unicode_len() != 8 {
        return false;
    }
    let mut i: usize = 0;
    while i < 8
        invariant
            s@.len() == 8,
            i <= 8,
            forall|j: int| 0 <= j < i ==> is_digit(#[trigger] s@[j]),
        decreases 8 - i,
    {
        let c = s.get_char(i);
        if !('0' <= c && c <= '9') {
            return false;
        }
        i += 1;
    }
    true
}

/// The point in time that the name of a directory gives.
pub fn extract_timestamp_from_dir_name(dir_name: &str) -> (r: Option<String>)
    ensures
        r is Some <==> dir_timestamp_of(dir_name@) is Some,
        r matches Some(t) ==> dir_timestamp_of(dir_name@) == Some(t@),
{
    if let Some(t) = extract_timestamp_from_filename(dir_name) {
        return Some(t);
    }
    if is_date_text(dir_name) {
        return Some(dash_date(dir_name));
    }
    let n = dir_name.unicode_len();
    match find_last(dir_name, '_', n) {
        None => None,
        Some(u) => {
            let before = dir_name.substring_char(0, u);
            let after = dir_name.substring_char(u + 1, n);
            if is_date_text(before) {
                Some(dash_date(before))
            } else if is_date_text(after) {
                Some(dash_date(after))
            } else {
                None
            }
        },
    }
}

} // verus!
