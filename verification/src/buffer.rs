use crate::rope::{
    count_breaks, lemma_line_start_bounds, lemma_utf8_len_concat, lemma_utf8_len_prefix,
    line_start, line_text, rope_from_str, rope_insert, rope_len_bytes, rope_len_chars,
    rope_len_lines, rope_line, rope_line_to_byte, rope_text, rope_to_string, slice_char_to_byte,
    slice_len_bytes, slice_len_chars, utf8_len,
};
use crate::text::string_push;
use ropey::Rope;
use std::collections::VecDeque;
use vstd::prelude::*;
use vstd::string::*;

verus! {

/// Number of UTF-8 bytes of line `cy` of `t` before column `cx`, the column
/// being clamped to the line's length in bytes.
pub open spec fn clamped_column(t: Seq<char>, cx: nat, cy: nat) -> nat {
    let line = line_text(t, cy);
    if cx < utf8_len(line) {
        cx
    } else {
        utf8_len(line)
    }
}

/// The index that a cursor position names in `t`: for a row before the last
/// line, the byte index of the line's start plus the byte index, within the
/// line, of the clamped column read as a character index; for the last line
/// or any row past it, the byte length of the whole text.
pub open spec fn pos_index(t: Seq<char>, cx: nat, cy: nat) -> nat {
    if cy >= count_breaks(t) {
        utf8_len(t)
    } else {
        utf8_len(t.take(line_start(t, cy) as int)) + utf8_len(
            line_text(t, cy).take(clamped_column(t, cx, cy) as int),
        )
    }
}

/// Whether `pos_index` is defined: the clamped column, read as a character
/// index, stays within its line.
pub open spec fn pos_in_line(t: Seq<char>, cx: nat, cy: nat) -> bool {
    cy >= count_breaks(t) || clamped_column(t, cx, cy) <= line_text(t, cy).len()
}

/// Whether text can be inserted at a cursor position: the index it names is
/// defined and is no further than one past the last character.
pub open spec fn insertable(t: Seq<char>, cx: nat, cy: nat) -> bool {
    pos_in_line(t, cx, cy) && pos_index(t, cx, cy) <= t.len()
}

/// What saving writes for a text: the text, with one more line feed where it
/// ends with one.
pub open spec fn saved_text(t: Seq<char>) -> Seq<char> {
    if t.len() > 0 && t.last() == '\n' {
        t.push('\n')
    } else {
        t
    }
}

/// The index a position names never exceeds the text's length in bytes.
pub proof fn lemma_pos_index_bound(t: Seq<char>, cx: nat, cy: nat)
    requires
        pos_in_line(t, cx, cy),
    ensures
        pos_index(t, cx, cy) <= utf8_len(t),
{
    if cy < count_breaks(t) {
        lemma_line_start_bounds(t, cy);
        let ls = line_start(t, cy) as int;
        let x = clamped_column(t, cx, cy) as int;
        let line = line_text(t, cy);
        assert(line.take(x) == t.subrange(ls, ls + x));
        assert(t.take(ls) + t.subrange(ls, ls + x) == t.take(ls + x));
        lemma_utf8_len_concat(t.take(ls), t.subrange(ls, ls + x));
        lemma_utf8_len_prefix(t, ls + x);
    }
}

/// A text buffer backed by a rope, with the file it belongs to.
#[derive(Debug)]
pub struct BufferInner {
    pub file: String,
    pub changed: bool,
    pub content: Rope,
    pub pos: (usize, usize),
    pub v_pos: (usize, usize),
}

impl BufferInner {
    /// The buffer's text.
    pub open spec fn text(&self) -> Seq<char> {
        rope_text(self.content)
    }

    /// A buffer for `file` that holds `contents`, unchanged, with the cursor
    /// at the origin.
    pub fn from_contents(file: String, contents: &str) -> (b: BufferInner)
        ensures
            b.file == file,
            b.text() == contents@,
            !b.changed,
            b.pos == (0usize, 0usize),
            b.v_pos == (0usize, 0usize),
    {
        let content = rope_from_str(contents);
        BufferInner { file, changed: false, content, pos: (0, 0), v_pos: (0, 0) }
    }

    /// What saving the buffer writes to its file.
    pub fn save_contents(&self) -> (s: String)
        ensures
            s@ == saved_text(self.text()),
    {
        let mut content = rope_to_string(&self.content);
        let n = content.as_str().unicode_len();
        if n > 0 {
            let last = content.as_str().get_char(n - 1);
            if last == '\n' {
                string_push(&mut content, '\n');
            }
        }
        content
    }

    /// The index that a cursor position (column, row) names in the text.
    pub fn pos_to_idx(&self, pos: (usize, usize)) -> (idx: usize)
        requires
            pos_in_line(self.text(), pos.0 as nat, pos.1 as nat),
        ensures
            idx == pos_index(self.text(), pos.0 as nat, pos.1 as nat),
    {
        let (cx, cy) = pos;
        let total = rope_len_bytes(&self.content);
        if cy >= rope_len_lines(&self.content) - 1 {
            return total;
        }
        let line_start_idx = rope_line_to_byte(&self.content, cy);
        let line = rope_line(&self.content, cy);
        let line_bytes = slice_len_bytes(&line);
        let x = if cx < line_bytes {
            cx
        } else {
            line_bytes
        };
        let in_line = slice_char_to_byte(&line, x);
        proof {
            lemma_pos_index_bound(self.text(), cx as nat, cy as nat);
        }
        line_start_idx + in_line
    }

    /// The index at which text typed at a position goes, `None` where the
    /// position names no index or one past the end of the text.
    pub fn insert_index(&self, pos: (usize, usize)) -> (r: Option<usize>)
        ensures
            r == (if insertable(self.text(), pos.0 as nat, pos.1 as nat) {
                Some(pos_index(self.text(), pos.0 as nat, pos.1 as nat) as usize)
            } else {
                None
            }),
    {
        let (cx, cy) = pos;
        if cy < rope_len_lines(&self.content) - 1 {
            let line = rope_line(&self.content, cy);
            let line_bytes = slice_len_bytes(&line);
            let x = if cx < line_bytes {
                cx
            } else {
                line_bytes
            };
            if x > slice_len_chars(&line) {
                return None;
            }
        }
        let idx = self.pos_to_idx(pos);
        if idx <= rope_len_chars(&self.content) {
            Some(idx)
        } else {
            None
        }
    }

    /// Inserts `content` at the index that the position names, and marks the
    /// buffer changed.
    pub fn insert(&mut self, pos: (usize, usize), content: &str)
        requires
            insertable(old(self).text(), pos.0 as nat, pos.1 as nat),
        ensures
            ({
                let k = pos_index(old(self).text(), pos.0 as nat, pos.1 as nat) as int;
                final(self).text() == old(self).text().take(k) + content@ + old(self).text().skip(k)
            }),
            final(self).changed,
            final(self).file == old(self).file,
            final(self).pos == old(self).pos,
            final(self).v_pos == old(self).v_pos,
    {
        let insert_idx = self.pos_to_idx(pos);
        rope_insert(&mut self.content, insert_idx, content);
        self.changed = true;
    }
}

/// A buffer as the editor holds it.
#[derive(Debug)]
pub struct Buffer(pub BufferInner);

impl Buffer {
    pub fn new(buffer: BufferInner) -> (b: Buffer)
        ensures
            b.0 == buffer,
    {
        Buffer(buffer)
    }
}

/// The open buffers, with the index of the current one.
#[derive(Debug)]
pub struct BufferManager {
    pub buffers: VecDeque<Buffer>,
    pub current_idx: usize,
}

impl BufferManager {
    /// No buffers, and no current one.
    pub fn new() -> (m: BufferManager)
        ensures
            m.buffers@.len() == 0,
            m.current_idx == usize::MAX,
    {
        BufferManager { buffers: VecDeque::new(), current_idx: usize::MAX }
    }

    /// Makes `idx` the current index.
    pub fn set_buffer_idx(&mut self, idx: usize)
        ensures
            final(self).current_idx == idx,
            final(self).buffers@ == old(self).buffers@,
    {
        if !(idx > self.current_idx || idx < self.current_idx) {
            return;
        }
        self.current_idx = idx;
    }

    /// Adds a buffer in front of the others.
    pub fn push_front(&mut self, buffer: Buffer)
        ensures
            final(self).buffers@ == seq![buffer] + old(self).buffers@,
            final(self).current_idx == old(self).current_idx,
    {
        self.buffers.push_front(buffer);
    }

    /// Whether the current index names an open buffer.
    pub open spec fn has_current(&self) -> bool {
        self.current_idx < self.buffers@.len()
    }

    /// Whether typing at a position of the current buffer is defined; it is
    /// where there is no current buffer.
    pub open spec fn can_insert(&self, pos: (usize, usize)) -> bool {
        self.has_current() ==> insertable(
            self.buffers@[self.current_idx as int].0.text(),
            pos.0 as nat,
            pos.1 as nat,
        )
    }

    /// Decides `can_insert`.
    pub fn check_insert(&self, pos: (usize, usize)) -> (b: bool)
        ensures
            b == self.can_insert(pos),
    {
        if self.current_idx < self.buffers.len() {
            self.buffers[self.current_idx].0.insert_index(pos).is_some()
        } else {
            true
        }
    }

    /// Inserts `content` at a position of the current buffer; without a
    /// current buffer nothing changes.
    pub fn insert_into_current(&mut self, pos: (usize, usize), content: &str)
        requires
            old(self).can_insert(pos),
        ensures
            final(self).current_idx == old(self).current_idx,
            final(self).buffers@.len() == old(self).buffers@.len(),
            forall|j: int|
                0 <= j < old(self).buffers@.len() && j != old(self).current_idx
                    ==> #[trigger] final(self).buffers@[j] == old(self).buffers@[j],
            old(self).has_current() ==> {
                let i = old(self).current_idx as int;
                let before = old(self).buffers@[i].0;
                let after = final(self).buffers@[i].0;
                let k = pos_index(before.text(), pos.0 as nat, pos.1 as nat) as int;
                &&& after.text() == before.text().take(k) + content@ + before.text().skip(k)
                &&& after.changed
                &&& after.file == before.file
                &&& after.pos == before.pos
                &&& after.v_pos == before.v_pos
            },
    {
        if self.current_idx < self.buffers.len() {
            let idx = self.current_idx;
            let taken = self.buffers.remove(idx);
            match taken {
                Some(mut b) => {
                    b.0.insert(pos, content);
                    self.buffers.insert(idx, b);
                },
                None => {},
            }
        }
    }

    /// Number of open buffers.
    pub fn len(&self) -> (n: usize)
        ensures
            n == self.buffers@.len(),
    {
        self.buffers.len()
    }
}

} // verus!
