use crate::action::{ActionView, KeyAction};
use crate::buffer::{clamped_column, pos_in_line, pos_index, saved_text};
use crate::config::keymap_key;
use crate::editor::{
    append_to, clear_in, command_event_plan, command_register_name, enqueue, events_rev, key_name,
    mode_after, mode_change_event, native_events, pop_from, register_change_event,
    registers_after, DEFAULT_MODE,
};
use crate::key::{Event, KeyCode, ALT, CONTROL, SHIFT};
use crate::registry::{plugin_name_of, replace_char};
use crate::rope::{
    count_breaks, lemma_line_start_bounds, lemma_utf8_len_concat, lemma_utf8_len_prefix,
    line_start, line_text, utf8_len,
};
use crate::text::{first_word, is_white_space, word_at};
use vstd::prelude::*;

verus! {

/// Bindings of distinct key names or modes are stored apart: binding one
/// never changes what another reads, and reading a binding just made gives
/// it back.
pub proof fn law_keymap_write_read(
    m: Map<Seq<char>, KeyAction>,
    code: Seq<char>,
    mode: char,
    ka: KeyAction,
    code2: Seq<char>,
    mode2: char,
)
    ensures
        m.insert(keymap_key(code, mode), ka)[keymap_key(code, mode)] == ka,
        code2 != code || mode2 != mode ==> {
            let m2 = m.insert(keymap_key(code, mode), ka);
            &&& m2.contains_key(keymap_key(code2, mode2)) == m.contains_key(keymap_key(code2, mode2))
            &&& m2[keymap_key(code2, mode2)] == m[keymap_key(code2, mode2)]
        },
{
    if code2 != code || mode2 != mode {
        let k1 = keymap_key(code, mode);
        let k2 = keymap_key(code2, mode2);
        if k1 == k2 {
            assert(k1.last() == mode && k2.last() == mode2);
            assert(k1.drop_last() =~= code);
            assert(k2.drop_last() =~= code2);
        }
    }
}

/// Typing one character into a register and deleting the previous character
/// gives the registers back.
pub proof fn law_type_then_delete(
    regs: Map<Seq<char>, Seq<char>>,
    cur: Option<Seq<char>>,
    r: Seq<char>,
    c: char,
)
    requires
        regs.contains_key(r),
    ensures
        registers_after(
            registers_after(regs, cur, ActionView::InsertIntoRegister(r, seq![c])),
            cur,
            ActionView::DeletePrevFromRegister(r),
        ) == regs,
{
    let after = append_to(regs, r, seq![c]);
    assert((regs[r] + seq![c]).drop_last() =~= regs[r]);
    assert(pop_from(after, r) =~= regs);
}

/// No action creates or removes a register; clearing one leaves it empty.
pub proof fn law_registers_kept(
    regs: Map<Seq<char>, Seq<char>>,
    cur: Option<Seq<char>>,
    a: ActionView,
    r: Seq<char>,
)
    ensures
        registers_after(regs, cur, a).dom() == regs.dom(),
        regs.contains_key(r) ==> clear_in(regs, r)[r] == Seq::<char>::empty(),
{
    assert(registers_after(regs, cur, a).dom() =~= regs.dom());
}

/// A binding's actions run next, in order, and the actions that were
/// waiting follow them unchanged.
pub proof fn law_enqueue_order(q: Seq<ActionView>, p: Seq<ActionView>)
    ensures
        enqueue(q, p).take(p.len() as int) == p,
        enqueue(q, p).subrange(p.len() as int, (p.len() + q.len()) as int) == q,
{
    assert(enqueue(q, p).take(p.len() as int) =~= p);
    assert(enqueue(q, p).subrange(p.len() as int, (p.len() + q.len()) as int) =~= q);
}

/// Leaving the command line with Escape does what Enter does after it runs
/// the command: both clear the command register, leave it and return to the
/// default mode.
pub proof fn law_command_line_exits(enter: Event, esc: Event)
    requires
        enter.pressed() matches Some(k) && k.code == KeyCode::Enter,
        esc.pressed() matches Some(k) && k.code == KeyCode::Esc,
    ensures
        command_event_plan(enter).unwrap() == seq![ActionView::ExecuteCommand]
            + command_event_plan(esc).unwrap(),
        command_event_plan(esc).unwrap().last() == ActionView::ChangeMode(seq![DEFAULT_MODE]),
{
    assert(command_event_plan(enter).unwrap() =~= seq![ActionView::ExecuteCommand]
        + command_event_plan(esc).unwrap());
}

/// A key held with exactly one of Control, Shift or Alt is named between
/// angle brackets.
pub proof fn law_modified_key_bracketed(
    code: KeyCode,
    modifiers: u8,
    mode: char,
    leader: char,
    in_cmd: bool,
)
    requires
        modifiers == CONTROL || modifiers == SHIFT || modifiers == ALT,
    ensures
        ({
            let n = key_name(code, modifiers, mode, leader, in_cmd);
            n.len() >= 4 && n[0] == '<' && n.last() == '>'
        }),
{
}

/// A character typed without modifiers is named by itself, but for the
/// leader key in the default mode outside the command line and for `<`.
pub proof fn law_plain_char_name(ch: char, mode: char, leader: char, in_cmd: bool)
    requires
        !(ch == leader && mode == DEFAULT_MODE && !in_cmd),
        ch != '<',
    ensures
        key_name(KeyCode::Char(ch), 0, mode, leader, in_cmd) == seq![ch],
{
    assert(seq![] + seq![ch] =~= seq![ch]);
}

/// A plugin's name holds no slash.
pub proof fn law_plugin_name_has_no_slash(path: Seq<char>, dir: Seq<char>)
    ensures
        !plugin_name_of(path, dir).contains('/'),
{
    let n = plugin_name_of(path, dir);
    if n.contains('/') {
        let k = choose|k: int| 0 <= k < n.len() && n[k] == '/';
        assert(n[k] != '/');
    }
}

/// Saving writes the buffer's text as it is, followed by at most one more
/// line feed.
pub proof fn law_saved_text_keeps_text(t: Seq<char>)
    ensures
        saved_text(t).take(t.len() as int) == t,
        saved_text(t).len() <= t.len() + 1,
        saved_text(t).len() == t.len() + 1 ==> saved_text(t).last() == '\n',
{
    assert(saved_text(t).take(t.len() as int) =~= t);
}

/// Inserting text at an index puts it there whole: the result is as long as
/// both together, and the text before and after the index is kept.
pub proof fn law_insert_places_text(t: Seq<char>, c: Seq<char>, k: int)
    requires
        0 <= k <= t.len(),
    ensures
        ({
            let r = t.take(k) + c + t.skip(k);
            &&& r.len() == t.len() + c.len()
            &&& r.subrange(k, k + c.len()) == c
            &&& r.take(k) == t.take(k)
            &&& r.skip(k + c.len()) == t.skip(k)
        }),
{
    let r = t.take(k) + c + t.skip(k);
    assert(r.subrange(k, k + c.len()) =~= c);
    assert(r.take(k) =~= t.take(k));
    assert(r.skip(k + c.len()) =~= t.skip(k));
}

/// A longer prefix of a text is at least as long in UTF-8.
proof fn lemma_utf8_len_prefix_monotone(t: Seq<char>, a: int, b: int)
    requires
        0 <= a <= b <= t.len(),
    ensures
        utf8_len(t.take(a)) <= utf8_len(t.take(b)),
{
    assert(t.take(b).take(a) == t.take(a));
    lemma_utf8_len_prefix(t.take(b), a);
}

/// A text of ASCII characters is as long in UTF-8 as in characters.
proof fn lemma_utf8_len_ascii(s: Seq<char>)
    requires
        forall|k: int| 0 <= k < s.len() ==> (#[trigger] s[k] as u32) < 0x80,
    ensures
        utf8_len(s) == s.len(),
    decreases s.len(),
{
    if s.len() > 0 {
        assert((s[0] as u32) < 0x80);
        assert forall|k: int| 0 <= k < s.drop_first().len() implies (
        #[trigger] s.drop_first()[k] as u32) < 0x80 by {
            assert(s.drop_first()[k] == s[k + 1]);
        }
        lemma_utf8_len_ascii(s.drop_first());
    }
}

/// For a row before the last line, the index that a cursor position names is
/// the byte index in the whole text of the character that stands the clamped
/// column after the row's start. It lies within the row, column 0 names the
/// row's start, and further columns name further indices. In an ASCII text
/// the index is the row's start plus the clamped column, so text typed at a
/// position of a row lands in that row.
pub proof fn law_position_within_row(t: Seq<char>, cx: nat, cx2: nat, cy: nat)
    requires
        cy < count_breaks(t),
        pos_in_line(t, cx, cy),
    ensures
        pos_index(t, cx, cy) == utf8_len(
            t.take((line_start(t, cy) + clamped_column(t, cx, cy)) as int),
        ),
        utf8_len(t.take(line_start(t, cy) as int)) <= pos_index(t, cx, cy) <= utf8_len(
            t.take(line_start(t, cy + 1) as int),
        ),
        pos_index(t, 0, cy) == utf8_len(t.take(line_start(t, cy) as int)),
        cx <= cx2 && pos_in_line(t, cx2, cy) ==> pos_index(t, cx, cy) <= pos_index(t, cx2, cy),
        (forall|k: int| 0 <= k < t.len() ==> (#[trigger] t[k] as u32) < 0x80) ==> pos_index(
            t,
            cx,
            cy,
        ) == line_start(t, cy) + clamped_column(t, cx, cy),
{
    lemma_line_start_bounds(t, cy);
    let ls = line_start(t, cy) as int;
    let le = line_start(t, cy + 1) as int;
    let line = line_text(t, cy);
    assert forall|c: nat| pos_in_line(t, c, cy) implies #[trigger] pos_index(t, c, cy)
        == utf8_len(t.take(ls + clamped_column(t, c, cy))) && ls + clamped_column(t, c, cy)
        <= le by {
        let x = clamped_column(t, c, cy) as int;
        assert(line.take(x) == t.subrange(ls, ls + x));
        assert(t.take(ls) + t.subrange(ls, ls + x) == t.take(ls + x));
        lemma_utf8_len_concat(t.take(ls), t.subrange(ls, ls + x));
    }
    let x = clamped_column(t, cx, cy) as int;
    lemma_utf8_len_prefix_monotone(t, ls, ls + x);
    lemma_utf8_len_prefix_monotone(t, ls + x, le);
    assert(clamped_column(t, 0, cy) == 0);
    assert(t.take(ls + 0) == t.take(ls));
    if cx <= cx2 && pos_in_line(t, cx2, cy) {
        let x2 = clamped_column(t, cx2, cy) as int;
        lemma_utf8_len_prefix_monotone(t, ls + x, ls + x2);
    }
    if forall|k: int| 0 <= k < t.len() ==> (#[trigger] t[k] as u32) < 0x80 {
        let p = t.take(ls + x);
        assert forall|k: int| 0 <= k < p.len() implies (#[trigger] p[k] as u32) < 0x80 by {
            assert(p[k] == t[k]);
        }
        lemma_utf8_len_ascii(p);
    }
}

/// Every action that edits a register queues exactly one event behind it,
/// `on_register_change`, and every action that changes the mode exactly one,
/// `on_mode_change`; so does inserting into a register at a position, which
/// names a register to write into. Queued alone, such an action runs first,
/// then what was waiting, then its event.
pub proof fn law_edits_raise_events(
    regs: Map<Seq<char>, Seq<char>>,
    cur: Option<Seq<char>>,
    mode: char,
    a: ActionView,
    q: Seq<ActionView>,
    r: Seq<char>,
    t: Seq<char>,
    x: usize,
    y: usize,
)
    ensures
        registers_after(regs, cur, a) != regs ==> native_events(a) == seq![
            ActionView::EventCallback(register_change_event()),
        ],
        registers_after(regs, cur, a) != regs ==> enqueue(q, seq![a]) == seq![a] + q + seq![
            ActionView::EventCallback(register_change_event()),
        ],
        mode_after(mode, a) != mode ==> native_events(a) == seq![
            ActionView::EventCallback(mode_change_event()),
        ],
        mode_after(mode, a) != mode ==> enqueue(q, seq![a]) == seq![a] + q + seq![
            ActionView::EventCallback(mode_change_event()),
        ],
        native_events(ActionView::InsertIntoRegisterAtPos(r, t, x, y)) == seq![
            ActionView::EventCallback(register_change_event()),
        ],
        native_events(a).len() <= 1,
{
    let p = seq![a];
    assert(p.drop_first() =~= Seq::<ActionView>::empty());
    assert(p[0] == a);
    assert(events_rev(p.drop_first()) =~= Seq::<ActionView>::empty());
    assert(Seq::<ActionView>::empty() + native_events(a) =~= native_events(a));
    assert(events_rev(p) == native_events(a));
}

/// A character key held with exactly one of Control, Shift or Alt is named
/// by that modifier's letter and the character itself: `<c-x>`, `<s-x>` or
/// `<a-x>` for `x`. Keys of different characters held with the same modifier
/// get different names.
pub proof fn law_modified_char_name(
    c: char,
    c2: char,
    mode: char,
    leader: char,
    in_cmd: bool,
    modifiers: u8,
)
    ensures
        key_name(KeyCode::Char(c), ALT, mode, leader, in_cmd) == seq!['<', 'a', '-', c, '>'],
        key_name(KeyCode::Char(c), CONTROL, mode, leader, in_cmd) == seq!['<', 'c', '-', c, '>'],
        key_name(KeyCode::Char(c), SHIFT, mode, leader, in_cmd) == seq!['<', 's', '-', c, '>'],
        (modifiers == ALT || modifiers == CONTROL || modifiers == SHIFT) && key_name(
            KeyCode::Char(c),
            modifiers,
            mode,
            leader,
            in_cmd,
        ) == key_name(KeyCode::Char(c2), modifiers, mode, leader, in_cmd) ==> c == c2,
{
    assert(key_name(KeyCode::Char(c), ALT, mode, leader, in_cmd) =~= seq!['<', 'a', '-', c, '>']);
    assert(key_name(KeyCode::Char(c), CONTROL, mode, leader, in_cmd) =~= seq![
        '<',
        'c',
        '-',
        c,
        '>',
    ]);
    assert(key_name(KeyCode::Char(c), SHIFT, mode, leader, in_cmd) =~= seq![
        '<',
        's',
        '-',
        c,
        '>',
    ]);
    assert(key_name(KeyCode::Char(c2), ALT, mode, leader, in_cmd) =~= seq![
        '<',
        'a',
        '-',
        c2,
        '>',
    ]);
    assert(key_name(KeyCode::Char(c2), CONTROL, mode, leader, in_cmd) =~= seq![
        '<',
        'c',
        '-',
        c2,
        '>',
    ]);
    assert(key_name(KeyCode::Char(c2), SHIFT, mode, leader, in_cmd) =~= seq![
        '<',
        's',
        '-',
        c2,
        '>',
    ]);
    if (modifiers == ALT || modifiers == CONTROL || modifiers == SHIFT) && key_name(
        KeyCode::Char(c),
        modifiers,
        mode,
        leader,
        in_cmd,
    ) == key_name(KeyCode::Char(c2), modifiers, mode, leader, in_cmd) {
        assert(key_name(KeyCode::Char(c), modifiers, mode, leader, in_cmd)[3] == c);
        assert(key_name(KeyCode::Char(c2), modifiers, mode, leader, in_cmd)[3] == c2);
    }
}

/// The run of characters at the start of a text up to its first white space
/// is a prefix of the text, holds no white space, and ends the text or is
/// followed by white space.
proof fn lemma_word_at(s: Seq<char>)
    ensures
        word_at(s).len() <= s.len(),
        word_at(s) == s.take(word_at(s).len() as int),
        forall|k: int| 0 <= k < word_at(s).len() ==> !is_white_space(#[trigger] word_at(s)[k]),
        word_at(s).len() == s.len() || is_white_space(s[word_at(s).len() as int]),
        s.len() > 0 && !is_white_space(s[0]) ==> word_at(s).len() > 0,
    decreases s.len(),
{
    if s.len() > 0 && !is_white_space(s[0]) {
        let d = s.drop_first();
        lemma_word_at(d);
        let w = word_at(s);
        assert(w == seq![s[0]] + word_at(d));
        assert(w =~= s.take(w.len() as int));
        assert forall|k: int| 0 <= k < w.len() implies !is_white_space(#[trigger] w[k]) by {
            if k > 0 {
                assert(w[k] == word_at(d)[k - 1]);
            }
        }
        if w.len() < s.len() {
            assert(s[w.len() as int] == d[word_at(d).len() as int]);
        }
    }
}

/// Where a text has a first word, the number of white space characters
/// that come before it.
proof fn lemma_first_word_start(s: Seq<char>) -> (i: int)
    requires
        first_word(s) is Some,
    ensures
        ({
            let w = first_word(s).unwrap();
            &&& 0 <= i && i + w.len() <= s.len()
            &&& forall|k: int| 0 <= k < i ==> is_white_space(#[trigger] s[k])
            &&& s.subrange(i, i + w.len()) == w
            &&& w.len() > 0
            &&& forall|k: int| 0 <= k < w.len() ==> !is_white_space(#[trigger] w[k])
            &&& i + w.len() == s.len() || is_white_space(s[i + w.len()])
        }),
    decreases s.len(),
{
    if is_white_space(s[0]) {
        let d = s.drop_first();
        let j = lemma_first_word_start(d);
        let w = first_word(s).unwrap();
        assert forall|k: int| 0 <= k < j + 1 implies is_white_space(#[trigger] s[k]) by {
            if k > 0 {
                assert(s[k] == d[k - 1]);
            }
        }
        assert(s.subrange(j + 1, j + 1 + w.len()) =~= d.subrange(j, j + w.len()));
        if j + 1 + w.len() < s.len() {
            assert(s[j + 1 + w.len()] == d[j + w.len()]);
        }
        j + 1
    } else {
        lemma_word_at(s);
        let w = word_at(s);
        assert(s.subrange(0, w.len() as int) =~= s.take(w.len() as int));
        0
    }
}

/// A text that is all white space has no first word. Otherwise its first
/// word is a run of characters of the text, none of them white space,
/// preceded only by white space and followed by white space or the end of
/// the text; so a text without white space is its own first word.
pub proof fn law_first_word_is_a_word(s: Seq<char>)
    ensures
        first_word(s) is None <==> forall|k: int| 0 <= k < s.len() ==> is_white_space(
            #[trigger] s[k],
        ),
        first_word(s) matches Some(w) ==> exists|i: int|
            #![trigger s.subrange(i, i + w.len())]
            {
                &&& 0 <= i && i + w.len() <= s.len()
                &&& forall|k: int| 0 <= k < i ==> is_white_space(#[trigger] s[k])
                &&& s.subrange(i, i + w.len()) == w
                &&& w.len() > 0
                &&& forall|k: int| 0 <= k < w.len() ==> !is_white_space(#[trigger] w[k])
                &&& i + w.len() == s.len() || is_white_space(s[i + w.len()])
            },
        s.len() > 0 && (forall|k: int| 0 <= k < s.len() ==> !is_white_space(#[trigger] s[k]))
            ==> first_word(s) == Some(s),
    decreases s.len(),
{
    if s.len() > 0 {
        let d = s.drop_first();
        law_first_word_is_a_word(d);
        if is_white_space(s[0]) {
            if first_word(s) is None {
                assert forall|k: int| 0 <= k < s.len() implies is_white_space(#[trigger] s[k]) by {
                    if k > 0 {
                        assert(s[k] == d[k - 1]);
                    }
                }
            }
        }
    }
    if first_word(s) is Some {
        let i = lemma_first_word_start(s);
        let w = first_word(s).unwrap();
        assert(s.subrange(i, i + w.len()) == w);
        if forall|k: int| 0 <= k < s.len() ==> is_white_space(#[trigger] s[k]) {
            assert(is_white_space(s[i]));
            assert(s[i] == w[0]);
        }
        if s.len() > 0 && (forall|k: int| 0 <= k < s.len() ==> !is_white_space(#[trigger] s[k])) {
            assert(!is_white_space(s[0]));
            assert(i == 0);
            if w.len() < s.len() {
                assert(!is_white_space(s[w.len() as int]));
            }
            assert(w =~= s);
        }
    }
}

/// Inserting into the current register, where it exists, appends to it:
/// afterwards it holds its old contents followed by the text, and no other
/// register changes. Inserting into a named register that exists does the
/// same to that register.
pub proof fn law_insert_appends(
    regs: Map<Seq<char>, Seq<char>>,
    r: Seq<char>,
    t: Seq<char>,
    cur: Option<Seq<char>>,
)
    requires
        regs.contains_key(r),
    ensures
        registers_after(regs, Some(r), ActionView::InsertIntoCurrentRegister(t)) == regs.insert(
            r,
            regs[r] + t,
        ),
        registers_after(regs, Some(r), ActionView::InsertIntoCurrentRegister(t))[r].take(
            regs[r].len() as int,
        ) == regs[r],
        registers_after(regs, cur, ActionView::InsertIntoRegister(r, t)) == regs.insert(
            r,
            regs[r] + t,
        ),
{
    assert((regs[r] + t).take(regs[r].len() as int) =~= regs[r]);
}

} // verus!
