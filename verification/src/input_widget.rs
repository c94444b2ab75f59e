//! A one-line text editor with a cursor: the text, where the cursor stands, and
//! what each key does to both.

use crate::text::{
    chars_of, is_blank, is_space, is_whitespace, lemma_trimmed_empty_iff_blank, string_of,
    trim_bounds,
};
use std::time::Instant;
use vstd::prelude::*;
use vstd::arithmetic::div_mod::lemma_div_is_ordered;
use vstd::string::*;
use vstd::utf8::encode_utf8;

verus! {

/// What a key press names.
#[derive(Clone, Copy, Debug, PartialEq, Eq, Structural)]
pub enum KeyCode {
    Char(char),
    Backspace,
    Delete,
    Left,
    Right,
    Enter,
    Other,
}

/// A key press with the modifiers that the editor looks at.
#[derive(Clone, Copy, Debug, PartialEq, Eq, Structural)]
pub struct Key {
    pub code: KeyCode,
    pub ctrl: bool,
    pub alt: bool,
}

/// White space and the punctuation marks that end a word.
pub open spec fn is_boundary(c: char) -> bool {
    is_space(c) || c == '\'' || c == '"' || c == ';' || c == ',' || c == '.' || c == '!'
        || c == '?'
}

/// Where one arrives going left from `p` over boundary characters.
pub open spec fn back_over_boundaries(s: Seq<char>, p: int) -> int
    decreases p,
{
    if 0 < p <= s.len() && is_boundary(s[p - 1]) {
        back_over_boundaries(s, p - 1)
    } else {
        p
    }
}

/// Where one arrives going left from `p` over word characters.
pub open spec fn back_over_word(s: Seq<char>, p: int) -> int
    decreases p,
{
    if 0 < p <= s.len() && !is_boundary(s[p - 1]) {
        back_over_word(s, p - 1)
    } else {
        p
    }
}

/// Where one arrives going right from `p` over word characters.
pub open spec fn forward_over_word(s: Seq<char>, p: int) -> int
    decreases s.len() - p,
{
    if 0 <= p < s.len() && !is_boundary(s[p]) {
        forward_over_word(s, p + 1)
    } else {
        p
    }
}

/// Where one arrives going right from `p` over boundary characters.
pub open spec fn forward_over_boundaries(s: Seq<char>, p: int) -> int
    decreases s.len() - p,
{
    if 0 <= p < s.len() && is_boundary(s[p]) {
        forward_over_boundaries(s, p + 1)
    } else {
        p
    }
}

/// The start of the word at or before `p`: back over boundaries, then back over the word.
pub open spec fn word_left(s: Seq<char>, p: int) -> int {
    back_over_word(s, back_over_boundaries(s, p))
}

/// The start of the word after `p`: forward over the word, then forward over boundaries.
pub open spec fn word_right(s: Seq<char>, p: int) -> int {
    forward_over_boundaries(s, forward_over_word(s, p))
}

/// `s` without the characters from `from` up to `to`.
pub open spec fn remove_range(s: Seq<char>, from: int, to: int) -> Seq<char> {
    s.subrange(0, from) + s.subrange(to, s.len() as int)
}

/// Going back over boundaries stops at a place in `0..=p` with only boundaries behind it.
pub proof fn lemma_back_over_boundaries(s: Seq<char>, p: int)
    requires
        0 <= p <= s.len(),
    ensures
        0 <= back_over_boundaries(s, p) <= p,
        forall|i: int| back_over_boundaries(s, p) <= i < p ==> is_boundary(#[trigger] s[i]),
        back_over_boundaries(s, p) > 0 ==> !is_boundary(s[back_over_boundaries(s, p) - 1]),
    decreases p,
{
    if 0 < p && is_boundary(s[p - 1]) {
        lemma_back_over_boundaries(s, p - 1);
    }
}

/// Going back over a word stops at a place in `0..=p` with only word characters behind it.
pub proof fn lemma_back_over_word(s: Seq<char>, p: int)
    requires
        0 <= p <= s.len(),
    ensures
        0 <= back_over_word(s, p) <= p,
        forall|i: int| back_over_word(s, p) <= i < p ==> !is_boundary(#[trigger] s[i]),
        back_over_word(s, p) > 0 ==> is_boundary(s[back_over_word(s, p) - 1]),
    decreases p,
{
    if 0 < p && !is_boundary(s[p - 1]) {
        lemma_back_over_word(s, p - 1);
    }
}

/// Going forward over a word stops at a place in `p..=len` with only word characters before it.
pub proof fn lemma_forward_over_word(s: Seq<char>, p: int)
    requires
        0 <= p <= s.len(),
    ensures
        p <= forward_over_word(s, p) <= s.len(),
        forall|i: int| p <= i < forward_over_word(s, p) ==> !is_boundary(#[trigger] s[i]),
        forward_over_word(s, p) < s.len() ==> is_boundary(s[forward_over_word(s, p)]),
    decreases s.len() - p,
{
    if p < s.len() && !is_boundary(s[p]) {
        lemma_forward_over_word(s, p + 1);
    }
}

/// Going forward over boundaries stops at a place in `p..=len` with only boundaries before it.
pub proof fn lemma_forward_over_boundaries(s: Seq<char>, p: int)
    requires
        0 <= p <= s.len(),
    ensures
        p <= forward_over_boundaries(s, p) <= s.len(),
        forall|i: int| p <= i < forward_over_boundaries(s, p) ==> is_boundary(#[trigger] s[i]),
        forward_over_boundaries(s, p) < s.len() ==> !is_boundary(
            s[forward_over_boundaries(s, p)],
        ),
    decreases s.len() - p,
{
    if p < s.len() && is_boundary(s[p]) {
        lemma_forward_over_boundaries(s, p + 1);
    }
}

/// A word move never leaves the text, goes left for `word_left` and right for `word_right`.
pub proof fn lemma_word_moves_in_bounds(s: Seq<char>, p: int)
    requires
        0 <= p <= s.len(),
    ensures
        0 <= word_left(s, p) <= p,
        p <= word_right(s, p) <= s.len(),
{
    lemma_back_over_boundaries(s, p);
    lemma_back_over_word(s, back_over_boundaries(s, p));
    lemma_forward_over_word(s, p);
    lemma_forward_over_boundaries(s, forward_over_word(s, p));
}

/// Tells whether `c` ends a word.
pub fn is_word_boundary(c: char) -> (b: bool)
    ensures
        b == is_boundary(c),
{
    is_whitespace(c) || c == '\'' || c == '"' || c == ';' || c == ',' || c == '.' || c == '!'
        || c == '?'
}

/// The position `word_left` of `p` in `v`.
pub fn word_left_of(v: &Vec<char>, p: usize) -> (r: usize)
    requires
        p <= v.len(),
    ensures
        r == word_left(v@, p as int),
        r <= p,
{
    let mut e: usize = p;
    while e > 0 && is_word_boundary(v[e - 1])
        invariant
            e <= p <= v.len(),
            back_over_boundaries(v@, p as int) == back_over_boundaries(v@, e as int),
        decreases e,
    {
        e -= 1;
    }
    let mut r: usize = e;
    while r > 0 && !is_word_boundary(v[r - 1])
        invariant
            r <= e <= v.len(),
            back_over_word(v@, e as int) == back_over_word(v@, r as int),
        decreases r,
    {
        r -= 1;
    }
    r
}

/// The position `word_right` of `p` in `v`.
pub fn word_right_of(v: &Vec<char>, p: usize) -> (r: usize)
    requires
        p <= v.len(),
    ensures
        r == word_right(v@, p as int),
        p <= r <= v.len(),
{
    let n = v.len();
    let mut e: usize = p;
    while e < n && !is_word_boundary(v[e])
        invariant
            p <= e <= n == v.len(),
            forward_over_word(v@, p as int) == forward_over_word(v@, e as int),
        decreases n - e,
    {
        e += 1;
    }
    let mut r: usize = e;
    while r < n && is_word_boundary(v[r])
        invariant
            e <= r <= n == v.len(),
            forward_over_boundaries(v@, e as int) == forward_over_boundaries(v@, r as int),
        decreases n - r,
    {
        r += 1;
    }
    r
}

/// Whether the key asks to leave the program: `c` with the control key.
pub open spec fn key_quits(key: Key) -> bool {
    key.code == KeyCode::Char('c') && key.ctrl
}

/// Whether the key counts as input for the blinking of the cursor.
pub open spec fn key_is_input(key: Key) -> bool {
    !key_quits(key) && key.code != KeyCode::Other
}

/// The text and the cursor after `key`, from the text `s` and the cursor `p`.
pub open spec fn edit(s: Seq<char>, p: int, key: Key) -> (Seq<char>, int) {
    match key.code {
        KeyCode::Char(c) => {
            if c == 'c' && key.ctrl {
                (s, p)
            } else if c == 'u' && key.ctrl {
                (s.subrange(p, s.len() as int), 0)
            } else if c == 'a' && key.ctrl {
                (s, 0)
            } else if c == 'e' && key.ctrl {
                (s, s.len() as int)
            } else if c == 'f' && key.alt {
                (s, word_right(s, p))
            } else if c == 'b' && key.alt {
                (s, word_left(s, p))
            } else {
                (s.insert(p, c), p + 1)
            }
        },
        KeyCode::Backspace => {
            if p <= 0 {
                (s, p)
            } else if key.alt {
                (remove_range(s, word_left(s, p), p), word_left(s, p))
            } else {
                (s.remove(p - 1), p - 1)
            }
        },
        KeyCode::Delete => {
            if p < s.len() {
                (s.remove(p), p)
            } else {
                (s, p)
            }
        },
        KeyCode::Left => {
            if key.alt {
                (s, word_left(s, p))
            } else if key.ctrl {
                (s, 0)
            } else if p > 0 {
                (s, p - 1)
            } else {
                (s, p)
            }
        },
        KeyCode::Right => {
            if key.alt {
                (s, word_right(s, p))
            } else if key.ctrl {
                (s, s.len() as int)
            } else if p < s.len() {
                (s, p + 1)
            } else {
                (s, p)
            }
        },
        KeyCode::Enter => (s, p),
        KeyCode::Other => (s, p),
    }
}

/// An edit leaves the cursor inside the text.
pub proof fn lemma_edit_keeps_cursor_in_text(s: Seq<char>, p: int, key: Key)
    requires
        0 <= p <= s.len(),
    ensures
        0 <= edit(s, p, key).1 <= edit(s, p, key).0.len(),
{
    lemma_word_moves_in_bounds(s, p);
}

/// The cursor after a blink tick: it toggles once a second has passed without
/// input, and shows otherwise.
pub open spec fn blink(visible: bool, idle_secs: u64) -> bool {
    if idle_secs >= 1 {
        !visible
    } else {
        true
    }
}

/// Computes `blink`.
pub fn next_cursor_visible(visible: bool, idle_secs: u64) -> (r: bool)
    ensures
        r == blink(visible, idle_secs),
{
    if idle_secs >= 1 {
        !visible
    } else {
        true
    }
}

/// The bytes that the text `s` takes in UTF-8.
pub open spec fn byte_len(s: Seq<char>) -> nat {
    encode_utf8(s).len()
}

/// The rows that a text of `len` bytes and its cursor take at `width` columns:
/// the text and one cell more, in rows of `width` cells, and at least three rows.
pub open spec fn height_for(len: int, width: int) -> int {
    let lines = (len + 1 + width - 1) / width;
    if lines < 3 {
        3
    } else {
        lines
    }
}

/// A longer text never takes fewer rows.
pub proof fn lemma_height_grows_with_text(shorter: int, longer: int, width: int)
    requires
        0 <= shorter <= longer,
        width > 0,
    ensures
        3 <= height_for(shorter, width) <= height_for(longer, width),
{
    lemma_div_is_ordered(shorter + width, longer + width, width);
}

/// What stands in the cell under the cursor.
#[derive(Clone, Copy, Debug, PartialEq, Eq, Structural)]
pub enum CursorCell {
    /// The character under the cursor, shown highlighted.
    Highlighted(char),
    /// The character under the cursor, shown as the others.
    Plain(char),
    /// The cursor stands behind the text and shows as a block.
    Block,
    /// The cursor stands behind the text and does not show.
    Hidden,
}

/// The text as it is drawn: what stands before the cursor, under it and behind it.
pub struct InputLine {
    pub before: String,
    pub cursor: CursorCell,
    pub after: String,
}

/// The line editor.
pub struct InputWidget {
    pub text: String,
    pub cursor_position: usize,
    pub cursor_visible: bool,
    pub last_input_time: Instant,
    pub username: String,
}

impl InputWidget {
    /// The cursor stands inside the text or right behind it. It counts characters.
    pub open spec fn wf(&self) -> bool {
        self.cursor_position <= self.text@.len()
    }

    /// The cell under the cursor of a widget with this text, cursor and visibility.
    pub open spec fn cursor_cell(s: Seq<char>, p: int, visible: bool) -> CursorCell {
        if p < s.len() {
            if visible {
                CursorCell::Highlighted(s[p])
            } else {
                CursorCell::Plain(s[p])
            }
        } else if visible {
            CursorCell::Block
        } else {
            CursorCell::Hidden
        }
    }

    /// An empty editor for `username`, with the cursor showing.
    pub fn new(username: String) -> (w: Self)
        ensures
            w.wf(),
            w.text@ == Seq::<char>::empty(),
            w.cursor_position == 0,
            w.cursor_visible,
            w.username == username,
    {
        Self {
            text: String::new(),
            cursor_position: 0,
            cursor_visible: true,
            last_input_time: Instant::now(),
            username,
        }
    }

    /// Empties the text and puts the cursor at its start.
    pub fn clear(&mut self)
        ensures
            final(self).wf(),
            final(self).text@ == Seq::<char>::empty(),
            final(self).cursor_position == 0,
            final(self).cursor_visible == old(self).cursor_visible,
            final(self).last_input_time == old(self).last_input_time,
            final(self).username == old(self).username,
    {
        self.text = String::new();
        self.cursor_position = 0;
    }

    /// Whether the text holds nothing but white space.
    pub fn is_empty(&self) -> (b: bool)
        ensures
            b == is_blank(self.text@),
    {
        let v = chars_of(self.text.as_str());
        let (a, b) = trim_bounds(&v);
        proof {
            lemma_trimmed_empty_iff_blank(v@);
        }
        a == b
    }

    /// A copy of the text.
    pub fn get_text(&self) -> (t: String)
        ensures
            t@ == self.text@,
    {
        self.text.clone()
    }

    /// One character to the left, unless the cursor is at the start.
    pub fn move_cursor_left(&mut self)
        ensures
            final(self).cursor_position == if old(self).cursor_position > 0 {
                old(self).cursor_position - 1
            } else {
                0
            },
            final(self).text == old(self).text,
            final(self).cursor_visible == old(self).cursor_visible,
            final(self).last_input_time == old(self).last_input_time,
            final(self).username == old(self).username,
    {
        if self.cursor_position > 0 {
            self.cursor_position -= 1;
        }
    }

    /// One character to the right, unless the cursor is behind the text.
    pub fn move_cursor_right(&mut self)
        requires
            old(self).wf(),
        ensures
            final(self).wf(),
            final(self).cursor_position == if old(self).cursor_position < old(self).text@.len() {
                old(self).cursor_position + 1
            } else {
                old(self).cursor_position as int
            },
            final(self).text == old(self).text,
            final(self).cursor_visible == old(self).cursor_visible,
            final(self).last_input_time == old(self).last_input_time,
            final(self).username == old(self).username,
    {
        let n = self.text.as_str().unicode_len();
        if self.cursor_position < n {
            self.cursor_position += 1;
        }
    }

    /// To the start of the text.
    pub fn move_cursor_to_start(&mut self)
        ensures
            final(self).cursor_position == 0,
            final(self).text == old(self).text,
            final(self).cursor_visible == old(self).cursor_visible,
            final(self).last_input_time == old(self).last_input_time,
            final(self).username == old(self).username,
    {
        self.cursor_position = 0;
    }

    /// Behind the last character of the text.
    pub fn move_cursor_to_end(&mut self)
        ensures
            final(self).wf(),
            final(self).cursor_position == old(self).text@.len(),
            final(self).text == old(self).text,
            final(self).cursor_visible == old(self).cursor_visible,
            final(self).last_input_time == old(self).last_input_time,
            final(self).username == old(self).username,
    {
        self.cursor_position = self.text.as_str().unicode_len();
    }

    /// To the start of the word at or before the cursor.
    pub fn move_cursor_word_left(&mut self)
        requires
            old(self).wf(),
        ensures
            final(self).wf(),
            final(self).cursor_position == word_left(
                old(self).text@,
                old(self).cursor_position as int,
            ),
            final(self).text == old(self).text,
            final(self).cursor_visible == old(self).cursor_visible,
            final(self).last_input_time == old(self).last_input_time,
            final(self).username == old(self).username,
    {
        let v = chars_of(self.text.as_str());
        self.cursor_position = word_left_of(&v, self.cursor_position);
    }

    /// To the start of the word after the cursor, or behind the text where none follows.
    pub fn move_cursor_word_right(&mut self)
        requires
            old(self).wf(),
        ensures
            final(self).wf(),
            final(self).cursor_position == word_right(
                old(self).text@,
                old(self).cursor_position as int,
            ),
            final(self).text == old(self).text,
            final(self).cursor_visible == old(self).cursor_visible,
            final(self).last_input_time == old(self).last_input_time,
            final(self).username == old(self).username,
    {
        let v = chars_of(self.text.as_str());
        self.cursor_position = word_right_of(&v, self.cursor_position);
    }

    /// Removes the characters from `from` up to the cursor and puts the cursor at `from`.
    pub fn delete_back_to(&mut self, from: usize)
        requires
            old(self).wf(),
            from <= old(self).cursor_position,
        ensures
            final(self).wf(),
            final(self).text@ == remove_range(
                old(self).text@,
                from as int,
                old(self).cursor_position as int,
            ),
            final(self).cursor_position == from,
            final(self).cursor_visible == old(self).cursor_visible,
            final(self).last_input_time == old(self).last_input_time,
            final(self).username == old(self).username,
    {
        let v = chars_of(self.text.as_str());
        let mut t = string_of(&v, 0, from);
        let rest = string_of(&v, self.cursor_position, v.len());
        t.append(rest.as_str());
        self.text = t;
        self.cursor_position = from;
    }

    /// Puts `c` where the cursor stands and moves the cursor behind it.
    pub fn insert_char(&mut self, c: char)
        requires
            old(self).wf(),
        ensures
            final(self).wf(),
            final(self).text@ == old(self).text@.insert(old(self).cursor_position as int, c),
            final(self).cursor_position == old(self).cursor_position + 1,
            final(self).cursor_visible == old(self).cursor_visible,
            final(self).last_input_time == old(self).last_input_time,
            final(self).username == old(self).username,
    {
        let mut v = chars_of(self.text.as_str());
        v.insert(self.cursor_position, c);
        self.text = string_of(&v, 0, v.len());
        self.cursor_position += 1;
        proof {
            assert(v@.subrange(0, v@.len() as int) =~= v@);
        }
    }

    /// Removes the character at `at`; the cursor stays where it is.
    pub fn remove_char(&mut self, at: usize)
        requires
            at < old(self).text@.len(),
        ensures
            final(self).text@ == old(self).text@.remove(at as int),
            final(self).cursor_position == old(self).cursor_position,
            final(self).cursor_visible == old(self).cursor_visible,
            final(self).last_input_time == old(self).last_input_time,
            final(self).username == old(self).username,
    {
        let mut v = chars_of(self.text.as_str());
        v.remove(at);
        self.text = string_of(&v, 0, v.len());
        proof {
            assert(v@.subrange(0, v@.len() as int) =~= v@);
        }
    }

    /// Applies one key to the text and the cursor, and tells whether the key
    /// asks to leave the program. Every key but the quitting one and those the
    /// editor does not know counts as input for the blinking of the cursor.
    pub fn handle_key_event(&mut self, key: Key) -> (quit: bool)
        requires
            old(self).wf(),
        ensures
            quit == key_quits(key),
            final(self).wf(),
            final(self).text@ == edit(old(self).text@, old(self).cursor_position as int, key).0,
            final(self).cursor_position == edit(
                old(self).text@,
                old(self).cursor_position as int,
                key,
            ).1,
            final(self).cursor_visible == old(self).cursor_visible,
            final(self).username == old(self).username,
            !key_is_input(key) ==> final(self).last_input_time == old(self).last_input_time,
    {
        proof {
            lemma_edit_keeps_cursor_in_text(self.text@, self.cursor_position as int, key);
        }
        match key.code {
            KeyCode::Char(c) => {
                if c == 'c' && key.ctrl {
                    return true;
                } else if c == 'u' && key.ctrl {
                    self.delete_back_to(0);
                    proof {
                        let s = old(self).text@;
                        let p = old(self).cursor_position as int;
                        assert(remove_range(s, 0, p) =~= s.subrange(p, s.len() as int));
                    }
                } else if c == 'a' && key.ctrl {
                    self.move_cursor_to_start();
                } else if c == 'e' && key.ctrl {
                    self.move_cursor_to_end();
                } else if c == 'f' && key.alt {
                    self.move_cursor_word_right();
                } else if c == 'b' && key.alt {
                    self.move_cursor_word_left();
                } else {
                    self.insert_char(c);
                }
                self.last_input_time = Instant::now();
            },
            KeyCode::Backspace => {
                if self.cursor_position > 0 {
                    if key.alt {
                        let v = chars_of(self.text.as_str());
                        let from = word_left_of(&v, self.cursor_position);
                        self.delete_back_to(from);
                    } else {
                        let at = self.cursor_position - 1;
                        self.remove_char(at);
                        self.cursor_position = at;
                    }
                }
                self.last_input_time = Instant::now();
            },
            KeyCode::Delete => {
                let n = self.text.as_str().unicode_len();
                if self.cursor_position < n {
                    let at = self.cursor_position;
                    self.remove_char(at);
                }
                self.last_input_time = Instant::now();
            },
            KeyCode::Left => {
                if key.alt {
                    self.move_cursor_word_left();
                } else if key.ctrl {
                    self.move_cursor_to_start();
                } else {
                    self.move_cursor_left();
                }
                self.last_input_time = Instant::now();
            },
            KeyCode::Right => {
                if key.alt {
                    self.move_cursor_word_right();
                } else if key.ctrl {
                    self.move_cursor_to_end();
                } else {
                    self.move_cursor_right();
                }
                self.last_input_time = Instant::now();
            },
            KeyCode::Enter => {
                self.last_input_time = Instant::now();
            },
            KeyCode::Other => {},
        }
        false
    }

    /// One tick of the blink timer: reads how long ago the last input was and
    /// sets the cursor to `blink` of that. The text and the cursor's place stay.
    pub fn update_cursor_blink(&mut self)
        ensures
            exists|idle_secs: u64|
                final(self).cursor_visible == #[trigger] blink(
                    old(self).cursor_visible,
                    idle_secs,
                ),
            final(self).text == old(self).text,
            final(self).cursor_position == old(self).cursor_position,
            final(self).last_input_time == old(self).last_input_time,
            final(self).username == old(self).username,
    {
        let idle = self.last_input_time.elapsed();
        let idle_secs = idle.as_secs();
        self.cursor_visible = next_cursor_visible(self.cursor_visible, idle_secs);
    }

    /// The rows that the text and its cursor take at `available_width` columns.
    /// The text is measured in bytes.
    pub fn calculate_height(&self, available_width: u16) -> (h: u16)
        requires
            available_width > 0,
            byte_len(self.text@) + available_width <= u16::MAX,
        ensures
            h == height_for(byte_len(self.text@) as int, available_width as int),
            h >= 3,
    {
        let n = self.text.as_str().len();
        let lines: u16 = (n as u16 + available_width) / available_width;
        if lines < 3 {
            3
        } else {
            lines
        }
    }

    /// The text split at the cursor, and what shows in the cursor's cell.
    pub fn layout(&self) -> (line: InputLine)
        requires
            self.wf(),
        ensures
            line.before@ == self.text@.subrange(0, self.cursor_position as int),
            line.cursor == Self::cursor_cell(
                self.text@,
                self.cursor_position as int,
                self.cursor_visible,
            ),
            line.after@ == if self.cursor_position < self.text@.len() {
                self.text@.subrange(self.cursor_position + 1, self.text@.len() as int)
            } else {
                Seq::<char>::empty()
            },
    {
        let v = chars_of(self.text.as_str());
        let p = self.cursor_position;
        let before = string_of(&v, 0, p);
        if p < v.len() {
            let cursor = if self.cursor_visible {
                CursorCell::Highlighted(v[p])
            } else {
                CursorCell::Plain(v[p])
            };
            let after = string_of(&v, p + 1, v.len());
            InputLine { before, cursor, after }
        } else {
            let cursor = if self.cursor_visible {
                CursorCell::Block
            } else {
                CursorCell::Hidden
            };
            InputLine { before, cursor, after: String::new() }
        }
    }

    /// The line under the editor that names the sender.
    pub fn info_line(&self) -> (line: String)
        ensures
            line@ == "Sending message as "@ + self.username@,
    {
        let mut line = String::from_str("Sending message as ");
        line.append(self.username.as_str());
        line
    }
}

} // verus!
