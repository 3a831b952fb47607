use crate::action::{same_binding, views, Action, ActionView, KeyAction};
use crate::buffer::BufferManager;
use crate::config::Config;
use crate::buffer::pos_index;
use crate::key::{Event, KeyCode, KeyEventKind, ALT, CONTROL, SHIFT};
use crate::text::string_push;
use crate::text::{char_to_string, first_word, first_word_of, string_pop};
use std::collections::VecDeque;
use vstd::hash_map::StringHashMap;
use vstd::prelude::*;
use vstd::string::*;

verus! {

/// The mode the editor starts in and returns to.
pub const DEFAULT_MODE: char = 'n';

/// The mode in which typed characters go into the buffer.
pub const BUFFER_MODE: char = 'i';

/// Name of the register that holds the command line.
pub open spec fn command_register_name() -> Seq<char> {
    seq!['c', 'm', 'd']
}

/// Name of the event raised when the mode changes.
pub open spec fn mode_change_event() -> Seq<char> {
    seq!['o', 'n', '_', 'm', 'o', 'd', 'e', '_', 'c', 'h', 'a', 'n', 'g', 'e']
}

/// Name of the event raised when a register changes.
pub open spec fn register_change_event() -> Seq<char> {
    seq!['o', 'n', '_', 'r', 'e', 'g', 'i', 's', 't', 'e', 'r', '_', 'c', 'h', 'a', 'n', 'g', 'e']
}

/// The name of the command register as a string.
pub fn command_register() -> (s: String)
    ensures
        s@ == command_register_name(),
{
    let s = "cmd".to_string();
    proof {
        reveal_strlit("cmd");
    }
    s
}

/// The name of the mode change event as a string.
pub fn mode_change_name() -> (s: String)
    ensures
        s@ == mode_change_event(),
{
    let s = "on_mode_change".to_string();
    proof {
        reveal_strlit("on_mode_change");
    }
    s
}

/// The name of the register change event as a string.
pub fn register_change_name() -> (s: String)
    ensures
        s@ == register_change_event(),
{
    let s = "on_register_change".to_string();
    proof {
        reveal_strlit("on_register_change");
    }
    s
}

/// The event that queueing an action raises, if any: a mode change raises
/// `on_mode_change`, an edit of a register `on_register_change`.
pub open spec fn native_events(a: ActionView) -> Seq<ActionView> {
    match a {
        ActionView::ChangeMode(_) => seq![ActionView::EventCallback(mode_change_event())],
        ActionView::InsertIntoRegister(..) | ActionView::InsertIntoCurrentRegister(..)
        | ActionView::InsertIntoRegisterAtPos(..) | ActionView::DeletePrevFromRegister(..)
        | ActionView::DeletePrevFromCurrentRegister | ActionView::ClearRegister(..) => seq![
            ActionView::EventCallback(register_change_event()),
        ],
        _ => seq![],
    }
}

/// The events that a sequence of actions raises, last action first.
pub open spec fn events_rev(plan: Seq<ActionView>) -> Seq<ActionView>
    decreases plan.len(),
{
    if plan.len() == 0 {
        seq![]
    } else {
        events_rev(plan.drop_first()) + native_events(plan[0])
    }
}

/// The queue after a binding's actions are queued: the actions in front, in
/// order, and the events they raise at the back, last action's first.
pub open spec fn enqueue(queue: Seq<ActionView>, plan: Seq<ActionView>) -> Seq<ActionView> {
    plan + queue + events_rev(plan)
}


/// The mode after an action: a mode change takes the first character of its
/// name, or the default mode for an empty name.
pub open spec fn mode_after(mode: char, a: ActionView) -> char {
    match a {
        ActionView::ChangeMode(m) => if m.len() > 0 {
            m[0]
        } else {
            DEFAULT_MODE
        },
        _ => mode,
    }
}

/// The register being typed into after an action.
pub open spec fn current_after(cur: Option<Seq<char>>, a: ActionView) -> Option<Seq<char>> {
    match a {
        ActionView::EnterRegister(r) => Some(r),
        ActionView::LeaveRegister => None,
        _ => cur,
    }
}

/// The cursor after an action.
pub open spec fn pos_after(pos: (usize, usize), a: ActionView) -> (usize, usize) {
    match a {
        ActionView::MoveTo(x, y) => (x, y),
        ActionView::MoveRight => ((pos.0 + 1) as usize, pos.1),
        _ => pos,
    }
}

/// Appends `t` to register `r`, where `r` exists.
pub open spec fn append_to(regs: Map<Seq<char>, Seq<char>>, r: Seq<char>, t: Seq<char>) -> Map<
    Seq<char>,
    Seq<char>,
> {
    if regs.contains_key(r) {
        regs.insert(r, regs[r] + t)
    } else {
        regs
    }
}

/// Drops the last character of register `r`, where `r` exists and is not
/// empty.
pub open spec fn pop_from(regs: Map<Seq<char>, Seq<char>>, r: Seq<char>) -> Map<
    Seq<char>,
    Seq<char>,
> {
    if regs.contains_key(r) && regs[r].len() > 0 {
        regs.insert(r, regs[r].drop_last())
    } else {
        regs
    }
}

/// Empties register `r`, where `r` exists.
pub open spec fn clear_in(regs: Map<Seq<char>, Seq<char>>, r: Seq<char>) -> Map<
    Seq<char>,
    Seq<char>,
> {
    if regs.contains_key(r) {
        regs.insert(r, Seq::<char>::empty())
    } else {
        regs
    }
}

/// The registers after an action; an action on the current register does
/// nothing where there is none, and one on a register that does not exist
/// does nothing.
pub open spec fn registers_after(
    regs: Map<Seq<char>, Seq<char>>,
    cur: Option<Seq<char>>,
    a: ActionView,
) -> Map<Seq<char>, Seq<char>> {
    match a {
        ActionView::InsertIntoRegister(r, t) => append_to(regs, r, t),
        ActionView::InsertIntoCurrentRegister(t) => match cur {
            Some(r) => append_to(regs, r, t),
            None => regs,
        },
        ActionView::DeletePrevFromRegister(r) => pop_from(regs, r),
        ActionView::DeletePrevFromCurrentRegister => match cur {
            Some(r) => pop_from(regs, r),
            None => regs,
        },
        ActionView::ClearRegister(r) => clear_in(regs, r),
        _ => regs,
    }
}

/// What the driver does after an action.
#[derive(Debug)]
pub enum Outcome {
    /// Go on with the next action.
    Proceed,
    /// The editor is to close once the queue is empty.
    Quit,
    /// Run these callbacks in order, then draw a frame.
    Redraw(Vec<u64>),
}

/// What running one action from the queue gave.
#[derive(Debug)]
pub enum Step {
    /// The queue was empty.
    Idle,
    Ran(Outcome),
    /// The action that was taken from the queue has no implementation for
    /// the state it met (moving left, up or down, an unknown or nested
    /// command, typing at a position of the buffer that names no index).
    Unsupported(Action),
}


/// The prefix that a modifier set gives a key's name: one of Control, Shift
/// or Alt alone opens an angle bracket, any other set gives nothing.
pub open spec fn modifier_prefix(modifiers: u8) -> Seq<char> {
    if modifiers == CONTROL {
        seq!['<', 'c', '-']
    } else if modifiers == SHIFT {
        seq!['<', 's', '-']
    } else if modifiers == ALT {
        seq!['<', 'a', '-']
    } else {
        seq![]
    }
}

/// The part of a key's name that the key itself gives.
pub open spec fn key_body(code: KeyCode) -> Seq<char> {
    match code {
        KeyCode::Char(ch) => seq![ch],
        KeyCode::Enter => seq!['c', 'r'],
        KeyCode::Esc => seq!['e', 's', 'c'],
        KeyCode::Tab => seq!['t', 'a', 'b'],
        _ => seq![],
    }
}

/// The name under which a key with modifiers is looked up among the
/// bindings. Without modifiers, Enter, Escape and Tab are `<cr>`, `<esc>`
/// and `<tab>`, and the leader key in the default mode, outside the command
/// line, is `<leader>`. Otherwise the name is the modifier prefix followed by
/// the key's part, closed by `>` where it starts with `<`.
pub open spec fn key_name(
    code: KeyCode,
    modifiers: u8,
    mode: char,
    leader: char,
    in_cmd: bool,
) -> Seq<char> {
    if modifiers == 0 && code == KeyCode::Enter {
        seq!['<', 'c', 'r', '>']
    } else if modifiers == 0 && code == KeyCode::Esc {
        seq!['<', 'e', 's', 'c', '>']
    } else if modifiers == 0 && code == KeyCode::Tab {
        seq!['<', 't', 'a', 'b', '>']
    } else if modifiers == 0 && code == KeyCode::Char(leader) && mode == DEFAULT_MODE && !in_cmd {
        seq!['<', 'l', 'e', 'a', 'd', 'e', 'r', '>']
    } else {
        let key = modifier_prefix(modifiers) + key_body(code);
        if key.len() > 0 && key[0] == '<' {
            key.push('>')
        } else {
            key
        }
    }
}

/// The actions that a key event on the command line queues, if any: a
/// character goes into the command register, Backspace deletes its last
/// character, Enter executes the command line and leaves it, Escape leaves
/// it.
pub open spec fn command_event_plan(event: Event) -> Option<Seq<ActionView>> {
    match event.pressed() {
        Some(k) => match k.code {
            KeyCode::Char(ch) => Some(
                seq![ActionView::InsertIntoRegister(command_register_name(), seq![ch])],
            ),
            KeyCode::Enter => Some(
                seq![
                    ActionView::ExecuteCommand,
                    ActionView::ClearRegister(command_register_name()),
                    ActionView::LeaveRegister,
                    ActionView::ChangeMode(seq![DEFAULT_MODE]),
                ],
            ),
            KeyCode::Backspace => Some(
                seq![ActionView::DeletePrevFromRegister(command_register_name())],
            ),
            KeyCode::Esc => Some(
                seq![
                    ActionView::ClearRegister(command_register_name()),
                    ActionView::LeaveRegister,
                    ActionView::ChangeMode(seq![DEFAULT_MODE]),
                ],
            ),
            _ => None,
        },
        None => None,
    }
}

/// What the driver does after a key event was taken in.
#[derive(Debug)]
pub enum InputStep {
    /// Nothing was queued and nothing is to run.
    Skip,
    /// Run the queue, then draw a frame where `draw` holds.
    Run { draw: bool },
    /// The event met no implementation: a binding that is a nested level,
    /// or a character typed with the cursor at the last column there is.
    Unsupported,
}

/// The editor's state.
pub struct EditorInner {
    pub config: Config,
    pub buffer_manager: BufferManager,
    pub workspace: Option<String>,
    pub mode: char,
    pub size: (u16, u16),
    pub pos: (usize, usize),
    pub v_pos: (usize, usize),
    pub register_map: StringHashMap<String>,
    pub current_register: Option<String>,
    pub actions_queue: VecDeque<Action>,
    /// Per event name, the handles of the callbacks to run, in order.
    pub event_callbacks: StringHashMap<Vec<u64>>,
}

impl EditorInner {
    /// Contents of the registers by name.
    pub open spec fn registers(&self) -> Map<Seq<char>, Seq<char>> {
        self.register_map@.map_values(|s: String| s@)
    }

    /// Callback handles by event name.
    pub open spec fn callbacks(&self) -> Map<Seq<char>, Seq<u64>> {
        self.event_callbacks@.map_values(|v: Vec<u64>| v@)
    }

    /// Name of the register being typed into, if any.
    pub open spec fn current(&self) -> Option<Seq<char>> {
        match self.current_register {
            Some(r) => Some(r@),
            None => None,
        }
    }

    /// The actions waiting to run, first first.
    pub open spec fn queue(&self) -> Seq<ActionView> {
        views(self.actions_queue@)
    }

    /// Settings, workspace, size, scroll position and callbacks are those of
    /// `old`.
    pub open spec fn keeps_setup(&self, old: &EditorInner) -> bool {
        &&& self.config.0.keymaps@ == old.config.0.keymaps@
        &&& self.config.0.commands@ == old.config.0.commands@
        &&& self.config.0.leader == old.config.0.leader
        &&& self.config.0.theme@ == old.config.0.theme@
        &&& self.config.0.tab_width == old.config.0.tab_width
        &&& self.config.0.use_tabs == old.config.0.use_tabs
        &&& self.workspace == old.workspace
        &&& self.size == old.size
        &&& self.v_pos == old.v_pos
        &&& self.callbacks() == old.callbacks()
    }

    /// Everything but the queue is as in `old`.
    pub open spec fn same_but_queue(&self, old: &EditorInner) -> bool {
        &&& self.keeps_setup(old)
        &&& self.buffer_manager.buffers@ == old.buffer_manager.buffers@
        &&& self.buffer_manager.current_idx == old.buffer_manager.current_idx
        &&& self.mode == old.mode
        &&& self.pos == old.pos
        &&& self.registers() == old.registers()
        &&& self.current() == old.current()
    }

    /// A fresh editor for a workspace and a terminal size: default settings,
    /// no buffers, the default mode, the cursor at the origin, an empty
    /// command register, and no callbacks yet for `on_mode_change`.
    pub fn new(workspace: Option<String>, size: (u16, u16)) -> (e: EditorInner)
        ensures
            e.config.0.keymaps@ == Map::<Seq<char>, KeyAction>::empty(),
            e.config.0.commands@ == Map::<Seq<char>, KeyAction>::empty(),
            e.config.0.leader == ' ',
            e.config.0.theme@ == Seq::<char>::empty(),
            e.config.0.tab_width == 2,
            !e.config.0.use_tabs,
            e.buffer_manager.buffers@.len() == 0,
            e.buffer_manager.current_idx == usize::MAX,
            e.workspace == workspace,
            e.mode == DEFAULT_MODE,
            e.size == size,
            e.pos == (0usize, 0usize),
            e.v_pos == (0usize, 0usize),
            e.registers() == map![command_register_name() => Seq::<char>::empty()],
            e.current() is None,
            e.queue() == Seq::<ActionView>::empty(),
            e.callbacks() == map![mode_change_event() => Seq::<u64>::empty()],
    {
        let mut register_map: StringHashMap<String> = StringHashMap::new();
        register_map.insert(command_register(), String::new());
        let mut event_callbacks: StringHashMap<Vec<u64>> = StringHashMap::new();
        event_callbacks.insert(mode_change_name(), Vec::new());
        let e = EditorInner {
            config: Config::default(),
            buffer_manager: BufferManager::new(),
            workspace,
            mode: DEFAULT_MODE,
            size,
            pos: (0, 0),
            v_pos: (0, 0),
            register_map,
            current_register: None,
            actions_queue: VecDeque::new(),
            event_callbacks,
        };
        assert(e.registers() =~= map![command_register_name() => Seq::<char>::empty()]);
        assert(e.callbacks() =~= map![mode_change_event() => Seq::<u64>::empty()]);
        assert(e.queue() =~= Seq::<ActionView>::empty());
        e
    }


    /// The first word of the command register, where it exists and holds one.
    pub open spec fn command_word(&self) -> Option<Seq<char>> {
        if self.registers().contains_key(command_register_name()) {
            first_word(self.registers()[command_register_name()])
        } else {
            None
        }
    }

    /// Whether executing the command line is defined: the command named by
    /// its first word, if any, is bound and queues actions.
    pub open spec fn command_supported(&self) -> bool {
        match self.command_word() {
            Some(w) => self.config.command(w) matches Some(k) && k.plan() is Some,
            None => true,
        }
    }

    /// The queue after the command line is executed with `q` waiting.
    pub open spec fn command_queue(&self, q: Seq<ActionView>) -> Seq<ActionView> {
        match self.command_word() {
            Some(w) => enqueue(q, self.config.command(w).unwrap().plan().unwrap()),
            None => q,
        }
    }

    /// The queue after the command line is executed.
    pub open spec fn queue_after_command(&self) -> Seq<ActionView> {
        self.command_queue(self.queue())
    }

    /// Whether this state and `out` are what running action `a` in state
    /// `old`, with `q` left waiting, gives.
    pub open spec fn acted(
        &self,
        old: &EditorInner,
        q: Seq<ActionView>,
        a: ActionView,
        out: Outcome,
    ) -> bool {
        &&& old.outcome_of(a, out)
        &&& self.mode == mode_after(old.mode, a)
        &&& self.current() == current_after(old.current(), a)
        &&& self.pos == pos_after(old.pos, a)
        &&& self.registers() == registers_after(old.registers(), old.current(), a)
        &&& self.queue() == (if a is ExecuteCommand {
            old.command_queue(q)
        } else {
            q
        })
        &&& self.keeps_setup(old)
        &&& self.buffers_after(old, a)
    }

    /// Whether an action has an implementation for this state.
    pub open spec fn supports(&self, a: ActionView) -> bool {
        match a {
            ActionView::MoveLeft | ActionView::MoveUp | ActionView::MoveDown => false,
            ActionView::MoveRight => self.pos.0 < usize::MAX,
            ActionView::ExecuteCommand => self.command_supported(),
            ActionView::InsertIntoBufferAt(_, x, y) => self.buffer_manager.can_insert((x, y)),
            _ => true,
        }
    }

    /// The callbacks that an event runs.
    pub open spec fn callbacks_of(&self, event: Seq<char>) -> Seq<u64> {
        if self.callbacks().contains_key(event) {
            self.callbacks()[event]
        } else {
            Seq::<u64>::empty()
        }
    }

    /// Whether `out` is what an action gives in this state: leave for a quit,
    /// the event's callbacks and a frame for an event, and nothing otherwise.
    pub open spec fn outcome_of(&self, a: ActionView, out: Outcome) -> bool {
        match a {
            ActionView::Quit(_) => out is Quit,
            ActionView::EventCallback(e) => out matches Outcome::Redraw(ids) && ids@
                == self.callbacks_of(e),
            _ => out is Proceed,
        }
    }

    /// Whether the buffers after an action are those of `old`, but for text
    /// typed into the current buffer.
    pub open spec fn buffers_after(&self, old: &EditorInner, a: ActionView) -> bool {
        &&& self.buffer_manager.current_idx == old.buffer_manager.current_idx
        &&& match a {
            ActionView::InsertIntoBufferAt(t, x, y) => {
                &&& self.buffer_manager.buffers@.len() == old.buffer_manager.buffers@.len()
                &&& forall|j: int|
                    0 <= j < old.buffer_manager.buffers@.len() && j
                        != old.buffer_manager.current_idx ==> #[trigger] self.buffer_manager.buffers@[j]
                        == old.buffer_manager.buffers@[j]
                &&& old.buffer_manager.has_current() ==> {
                    let i = old.buffer_manager.current_idx as int;
                    let before = old.buffer_manager.buffers@[i].0;
                    let after = self.buffer_manager.buffers@[i].0;
                    let k = pos_index(before.text(), x as nat, y as nat) as int;
                    &&& after.text() == before.text().take(k) + t + before.text().skip(k)
                    &&& after.changed
                    &&& after.file == before.file
                    &&& after.pos == before.pos
                    &&& after.v_pos == before.v_pos
                }
            },
            _ => self.buffer_manager.buffers@ == old.buffer_manager.buffers@,
        }
    }

    /// Appends `text` to a register that exists.
    fn append_register(&mut self, register: &str, text: &str)
        ensures
            final(self).registers() == append_to(old(self).registers(), register@, text@),
            final(self).queue() == old(self).queue(),
            final(self).keeps_setup(old(self)),
            final(self).buffer_manager.buffers@ == old(self).buffer_manager.buffers@,
            final(self).buffer_manager.current_idx == old(self).buffer_manager.current_idx,
            final(self).mode == old(self).mode,
            final(self).pos == old(self).pos,
            final(self).current() == old(self).current(),
    {
        let ghost regs0 = self.registers();
        match self.register_map.get(register) {
            Some(content) => {
                let mut c = content.clone();
                c.append(text);
                self.register_map.insert(register.to_string(), c);
                assert(self.registers() =~= append_to(regs0, register@, text@));
            },
            None => {},
        }
    }

    /// Drops the last character of a register that exists.
    fn pop_register(&mut self, register: &str)
        ensures
            final(self).registers() == pop_from(old(self).registers(), register@),
            final(self).queue() == old(self).queue(),
            final(self).keeps_setup(old(self)),
            final(self).buffer_manager.buffers@ == old(self).buffer_manager.buffers@,
            final(self).buffer_manager.current_idx == old(self).buffer_manager.current_idx,
            final(self).mode == old(self).mode,
            final(self).pos == old(self).pos,
            final(self).current() == old(self).current(),
    {
        let ghost regs0 = self.registers();
        match self.register_map.get(register) {
            Some(content) => {
                let mut c = content.clone();
                let popped = string_pop(&mut c);
                if popped.is_some() {
                    self.register_map.insert(register.to_string(), c);
                    assert(self.registers() =~= pop_from(regs0, register@));
                }
            },
            None => {},
        }
    }

    /// Empties a register that exists.
    fn clear_register(&mut self, register: &str)
        ensures
            final(self).registers() == clear_in(old(self).registers(), register@),
            final(self).queue() == old(self).queue(),
            final(self).keeps_setup(old(self)),
            final(self).buffer_manager.buffers@ == old(self).buffer_manager.buffers@,
            final(self).buffer_manager.current_idx == old(self).buffer_manager.current_idx,
            final(self).mode == old(self).mode,
            final(self).pos == old(self).pos,
            final(self).current() == old(self).current(),
    {
        let ghost regs0 = self.registers();
        if self.register_map.contains_key(register) {
            self.register_map.insert(register.to_string(), String::new());
            assert(self.registers() =~= clear_in(regs0, register@));
        }
    }

    /// Runs the command named by the first word of the command register: its
    /// binding is queued.
    pub fn execute_command(&mut self)
        requires
            old(self).command_supported(),
        ensures
            final(self).queue() == old(self).queue_after_command(),
            final(self).same_but_queue(old(self)),
    {
        let cmd = command_register();
        let word = match self.register_map.get(cmd.as_str()) {
            Some(content) => first_word_of(content.as_str()),
            None => None,
        };
        match word {
            Some(w) => {
                let ka = self.config.command_action(w.as_str());
                match ka {
                    Some(ka) => {
                        if ka.plan_exists() {
                            self.handle_key_action(ka);
                        }
                    },
                    None => {},
                }
            },
            None => {},
        }
    }

    /// Runs one action; the callbacks of an event and the frame after them
    /// are left to the caller, as `Outcome::Redraw`.
    pub fn execute_action(&mut self, action: Action) -> (out: Outcome)
        requires
            old(self).supports(action@),
        ensures
            final(self).acted(old(self), old(self).queue(), action@, out),
    {
        match action {
            Action::Quit(force) => {
                if force {
                    return Outcome::Quit;
                }
                Outcome::Quit
            },
            Action::Save => Outcome::Proceed,
            Action::ChangeMode(mode) => {
                let n = mode.as_str().unicode_len();
                self.mode = if n > 0 {
                    mode.as_str().get_char(0)
                } else {
                    DEFAULT_MODE
                };
                Outcome::Proceed
            },
            Action::EnterRegister(register) => {
                self.current_register = Some(register);
                Outcome::Proceed
            },
            Action::LeaveRegister => {
                self.current_register = None;
                Outcome::Proceed
            },
            Action::ExecuteCommand => {
                self.execute_command();
                Outcome::Proceed
            },
            Action::MoveTo(cx, cy) => {
                self.pos = (cx, cy);
                Outcome::Proceed
            },
            Action::MoveRight => {
                self.pos.0 = self.pos.0 + 1;
                Outcome::Proceed
            },
            Action::InsertIntoRegister(register, append_char) => {
                self.append_register(register.as_str(), append_char.as_str());
                Outcome::Proceed
            },
            Action::InsertIntoCurrentRegister(append_char) => {
                match &self.current_register {
                    Some(register) => {
                        let r = register.clone();
                        self.append_register(r.as_str(), append_char.as_str());
                    },
                    None => {},
                }
                Outcome::Proceed
            },
            Action::DeletePrevFromRegister(register) => {
                self.pop_register(register.as_str());
                Outcome::Proceed
            },
            Action::DeletePrevFromCurrentRegister => {
                match &self.current_register {
                    Some(register) => {
                        let r = register.clone();
                        self.pop_register(r.as_str());
                    },
                    None => {},
                }
                Outcome::Proceed
            },
            Action::ClearRegister(register) => {
                self.clear_register(register.as_str());
                Outcome::Proceed
            },
            Action::InsertIntoBufferAt(append_char, cx, cy) => {
                self.buffer_manager.insert_into_current((cx, cy), append_char.as_str());
                Outcome::Proceed
            },
            Action::EventCallback(event_name) => {
                let ids = match self.event_callbacks.get(event_name.as_str()) {
                    Some(callbacks) => callbacks.clone(),
                    None => Vec::new(),
                };
                Outcome::Redraw(ids)
            },
            _ => Outcome::Proceed,
        }
    }

    /// Decides `command_supported`.
    pub fn check_command(&self) -> (b: bool)
        ensures
            b == self.command_supported(),
    {
        let cmd = command_register();
        let word = match self.register_map.get(cmd.as_str()) {
            Some(content) => first_word_of(content.as_str()),
            None => None,
        };
        match word {
            Some(w) => match self.config.command_action(w.as_str()) {
                Some(ka) => ka.plan_exists(),
                None => false,
            },
            None => true,
        }
    }

    /// Decides `supports`.
    pub fn is_supported(&self, action: &Action) -> (b: bool)
        ensures
            b == self.supports(action@),
    {
        match action {
            Action::MoveLeft | Action::MoveUp | Action::MoveDown => false,
            Action::MoveRight => self.pos.0 < usize::MAX,
            Action::ExecuteCommand => self.check_command(),
            Action::InsertIntoBufferAt(_, x, y) => self.buffer_manager.check_insert((*x, *y)),
            _ => true,
        }
    }

    /// Takes the first action from the queue and runs it, where it has an
    /// implementation; hands it back otherwise.
    pub fn execute_next(&mut self) -> (step: Step)
        ensures
            match step {
                Step::Idle => {
                    &&& old(self).queue().len() == 0
                    &&& final(self).same_but_queue(old(self))
                    &&& final(self).queue() == old(self).queue()
                },
                Step::Ran(out) => {
                    &&& old(self).queue().len() > 0
                    &&& old(self).supports(old(self).queue()[0])
                    &&& final(self).acted(
                        old(self),
                        old(self).queue().drop_first(),
                        old(self).queue()[0],
                        out,
                    )
                },
                Step::Unsupported(a) => {
                    &&& old(self).queue().len() > 0
                    &&& a@ == old(self).queue()[0]
                    &&& !old(self).supports(a@)
                    &&& final(self).same_but_queue(old(self))
                    &&& final(self).queue() == old(self).queue().drop_first()
                },
            },
    {
        let ghost q0 = self.actions_queue@;
        match self.actions_queue.pop_front() {
            None => Step::Idle,
            Some(action) => {
                assert(self.queue() =~= views(q0).drop_first());
                if self.is_supported(&action) {
                    Step::Ran(self.execute_action(action))
                } else {
                    Step::Unsupported(action)
                }
            },
        }
    }


    /// The name of a key with modifiers, in this state.
    pub fn format_key_event(&self, code: KeyCode, modifiers: u8) -> (s: String)
        ensures
            s@ == key_name(
                code,
                modifiers,
                self.mode,
                self.config.0.leader,
                self.current() == Some(command_register_name()),
            ),
    {
        if modifiers == 0 {
            match code {
                KeyCode::Enter => {
                    proof {
                        reveal_strlit("<cr>");
                    }
                    return "<cr>".to_string();
                },
                KeyCode::Esc => {
                    proof {
                        reveal_strlit("<esc>");
                    }
                    return "<esc>".to_string();
                },
                KeyCode::Tab => {
                    proof {
                        reveal_strlit("<tab>");
                    }
                    return "<tab>".to_string();
                },
                KeyCode::Char(ch) => {
                    if self.mode == DEFAULT_MODE && ch == self.config.0.leader
                        && !self.is_cmd_register() {
                        proof {
                            reveal_strlit("<leader>");
                        }
                        return "<leader>".to_string();
                    }
                },
                _ => {},
            }
        }
        let mut key = String::new();
        if modifiers == CONTROL {
            proof {
                reveal_strlit("<c-");
            }
            key.append("<c-");
        } else if modifiers == SHIFT {
            proof {
                reveal_strlit("<s-");
            }
            key.append("<s-");
        } else if modifiers == ALT {
            proof {
                reveal_strlit("<a-");
            }
            key.append("<a-");
        }
        match code {
            KeyCode::Char(ch) => string_push(&mut key, ch),
            KeyCode::Enter => {
                proof {
                    reveal_strlit("cr");
                }
                key.append("cr");
            },
            KeyCode::Esc => {
                proof {
                    reveal_strlit("esc");
                }
                key.append("esc");
            },
            KeyCode::Tab => {
                proof {
                    reveal_strlit("tab");
                }
                key.append("tab");
            },
            _ => {},
        }
        assert(key@ =~= modifier_prefix(modifiers) + key_body(code));
        let n = key.as_str().unicode_len();
        if n > 0 && key.as_str().get_char(0) == '<' {
            string_push(&mut key, '>');
        }
        key
    }

    /// The binding that a key press in this state looks up, if any.
    pub open spec fn pressed_binding(&self, event: Event) -> Option<KeyAction> {
        match event.pressed() {
            Some(k) => self.config.binding(
                key_name(
                    k.code,
                    k.modifiers,
                    self.mode,
                    self.config.0.leader,
                    self.current() == Some(command_register_name()),
                ),
                self.mode,
            ),
            None => None,
        }
    }

    /// Whether a key press in this state types into the buffer: it is bound
    /// to nothing and the editor is in buffer mode.
    pub open spec fn types_into_buffer(&self, event: Event) -> bool {
        &&& event.pressed() is Some
        &&& self.pressed_binding(event) is None
        &&& self.mode == BUFFER_MODE
    }

    /// The binding of a key event on the command line.
    pub fn handle_command_event(&self, event: &Event) -> (r: Option<KeyAction>)
        ensures
            match command_event_plan(*event) {
                Some(p) => r matches Some(ka) && ka.plan() == Some(p) && (ka is Single <==> p.len()
                    == 1) && (ka is Multiple <==> p.len() > 1),
                None => r is None,
            },
    {
        match event {
            Event::Key(k) => {
                if k.kind != KeyEventKind::Press {
                    return None;
                }
                match k.code {
                    KeyCode::Char(ch) => {
                        Some(
                            KeyAction::Single(
                                Action::InsertIntoRegister(command_register(), char_to_string(ch)),
                            ),
                        )
                    },
                    KeyCode::Enter => {
                        let mut v: Vec<Action> = Vec::new();
                        v.push(Action::ExecuteCommand);
                        v.push(Action::ClearRegister(command_register()));
                        v.push(Action::LeaveRegister);
                        v.push(Action::ChangeMode(char_to_string(DEFAULT_MODE)));
                        let r = KeyAction::Multiple(v);
                        assert(r.plan().unwrap() =~= command_event_plan(*event).unwrap());
                        Some(r)
                    },
                    KeyCode::Backspace => {
                        Some(KeyAction::Single(Action::DeletePrevFromRegister(command_register())))
                    },
                    KeyCode::Esc => {
                        let mut v: Vec<Action> = Vec::new();
                        v.push(Action::ClearRegister(command_register()));
                        v.push(Action::LeaveRegister);
                        v.push(Action::ChangeMode(char_to_string(DEFAULT_MODE)));
                        let r = KeyAction::Multiple(v);
                        assert(r.plan().unwrap() =~= command_event_plan(*event).unwrap());
                        Some(r)
                    },
                    _ => None,
                }
            },
            Event::Other => None,
        }
    }

    /// The binding of a key event outside the command line: the binding of
    /// the key's name in the current mode, or, in buffer mode, typing the
    /// key's name at the cursor and moving right.
    pub fn handle_event(&self, event: &Event) -> (r: Option<KeyAction>)
        requires
            self.types_into_buffer(*event) ==> self.pos.0 < usize::MAX,
        ensures
            match self.pressed_binding(*event) {
                Some(b) => r matches Some(ka) && same_binding(b, ka),
                None => if self.types_into_buffer(*event) {
                    r matches Some(ka) && ka is Multiple && ka.plan() == Some(
                        seq![
                            ActionView::InsertIntoBufferAt(
                                event->Key_0.name@,
                                self.pos.0,
                                self.pos.1,
                            ),
                            ActionView::MoveTo((self.pos.0 + 1) as usize, self.pos.1),
                        ],
                    )
                } else {
                    r is None
                },
            },
    {
        match event {
            Event::Key(k) => {
                if k.kind != KeyEventKind::Press {
                    return None;
                }
                let key_code = self.format_key_event(k.code, k.modifiers);
                let ka = self.config.keymap(key_code.as_str(), self.mode);
                match ka {
                    Some(ka) => {
                        return Some(ka);
                    },
                    None => {},
                }
                if self.mode == BUFFER_MODE {
                    let (cx, cy) = self.pos;
                    let mut v: Vec<Action> = Vec::new();
                    v.push(Action::InsertIntoBufferAt(k.name.clone(), cx, cy));
                    v.push(Action::MoveTo(cx + 1, cy));
                    let r = KeyAction::Multiple(v);
                    assert(r.plan().unwrap() =~= seq![
                        ActionView::InsertIntoBufferAt(k.name@, cx, cy),
                        ActionView::MoveTo((cx + 1) as usize, cy),
                    ]);
                    return Some(r);
                }
                None
            },
            Event::Other => None,
        }
    }

    /// Takes in a terminal event: on the command line its binding is queued
    /// and the queue is to run without a frame after it; elsewhere the
    /// binding, if any, is queued and the queue is to run and a frame be
    /// drawn.
    pub fn handle_input(&mut self, event: &Event) -> (step: InputStep)
        ensures
            old(self).current() == Some(command_register_name()) ==> match command_event_plan(
                *event,
            ) {
                Some(p) => step == (InputStep::Run { draw: false }) && final(self).queue()
                    == enqueue(old(self).queue(), p),
                None => step is Skip && final(self).queue() == old(self).queue(),
            },
            old(self).current() != Some(command_register_name()) ==> match old(self).pressed_binding(*event) {
                Some(b) => match b.plan() {
                    Some(p) => step == (InputStep::Run { draw: true }) && final(self).queue()
                        == enqueue(old(self).queue(), p),
                    None => step is Unsupported && final(self).queue() == old(self).queue(),
                },
                None => if old(self).types_into_buffer(*event) {
                    if old(self).pos.0 < usize::MAX {
                        step == (InputStep::Run { draw: true }) && final(self).queue() == enqueue(
                            old(self).queue(),
                            seq![
                                ActionView::InsertIntoBufferAt(
                                    event->Key_0.name@,
                                    old(self).pos.0,
                                    old(self).pos.1,
                                ),
                                ActionView::MoveTo((old(self).pos.0 + 1) as usize, old(self).pos.1),
                            ],
                        )
                    } else {
                        step is Unsupported && final(self).queue() == old(self).queue()
                    }
                } else {
                    step == (InputStep::Run { draw: true }) && final(self).queue() == old(self).queue()
                },
            },
            final(self).same_but_queue(old(self)),
    {
        if self.is_cmd_register() {
            match self.handle_command_event(event) {
                Some(ka) => {
                    self.handle_key_action(ka);
                    InputStep::Run { draw: false }
                },
                None => InputStep::Skip,
            }
        } else {
            if self.mode == BUFFER_MODE && self.pos.0 == usize::MAX {
                if let Event::Key(k) = event {
                    if k.kind == KeyEventKind::Press {
                        let key_code = self.format_key_event(k.code, k.modifiers);
                        if self.config.keymap(key_code.as_str(), self.mode).is_none() {
                            return InputStep::Unsupported;
                        }
                    }
                }
            }
            match self.handle_event(event) {
                Some(ka) => {
                    if !ka.plan_exists() {
                        return InputStep::Unsupported;
                    }
                    self.handle_key_action(ka);
                },
                None => {},
            }
            InputStep::Run { draw: true }
        }
    }

    /// Creates a register, or empties one that exists.
    pub fn create_register(&mut self, register: String)
        ensures
            final(self).registers() == old(self).registers().insert(register@, Seq::<char>::empty()),
            final(self).queue() == old(self).queue(),
            final(self).current() == old(self).current(),
            final(self).keeps_setup(old(self)),
            final(self).mode == old(self).mode,
            final(self).pos == old(self).pos,
            final(self).buffer_manager.buffers@ == old(self).buffer_manager.buffers@,
            final(self).buffer_manager.current_idx == old(self).buffer_manager.current_idx,
    {
        let ghost regs0 = self.registers();
        let ghost r = register@;
        self.register_map.insert(register, String::new());
        assert(self.registers() =~= regs0.insert(r, Seq::<char>::empty()));
    }

    /// The contents of a register, empty for one that does not exist.
    pub fn read_register(&self, register: &str) -> (s: String)
        ensures
            s@ == (if self.registers().contains_key(register@) {
                self.registers()[register@]
            } else {
                Seq::<char>::empty()
            }),
    {
        match self.register_map.get(register) {
            Some(content) => content.clone(),
            None => String::new(),
        }
    }

    /// The name of the register being typed into, empty where there is none.
    pub fn current_register(&self) -> (s: String)
        ensures
            s@ == (match self.current() {
                Some(r) => r,
                None => Seq::<char>::empty(),
            }),
    {
        match &self.current_register {
            Some(r) => r.clone(),
            None => String::new(),
        }
    }

    /// The current mode as a string of one character.
    pub fn mode(&self) -> (s: String)
        ensures
            s@ == seq![self.mode],
    {
        char_to_string(self.mode)
    }

    /// Adds a callback, by its handle, to the end of an event's callbacks.
    pub fn event_callback(&mut self, event_name: String, callback: u64)
        ensures
            final(self).callbacks() == old(self).callbacks().insert(
                event_name@,
                old(self).callbacks_of(event_name@).push(callback),
            ),
            final(self).registers() == old(self).registers(),
            final(self).queue() == old(self).queue(),
            final(self).current() == old(self).current(),
            final(self).mode == old(self).mode,
            final(self).pos == old(self).pos,
            final(self).config.0.keymaps@ == old(self).config.0.keymaps@,
            final(self).config.0.commands@ == old(self).config.0.commands@,
            final(self).config.0.leader == old(self).config.0.leader,
            final(self).config.0.theme@ == old(self).config.0.theme@,
            final(self).config.0.tab_width == old(self).config.0.tab_width,
            final(self).config.0.use_tabs == old(self).config.0.use_tabs,
            final(self).workspace == old(self).workspace,
            final(self).size == old(self).size,
            final(self).v_pos == old(self).v_pos,
            final(self).buffer_manager.buffers@ == old(self).buffer_manager.buffers@,
            final(self).buffer_manager.current_idx == old(self).buffer_manager.current_idx,
    {
        let ghost cbs0 = self.callbacks();
        let ghost e = event_name@;
        let mut list = match self.event_callbacks.get(event_name.as_str()) {
            Some(l) => l.clone(),
            None => Vec::new(),
        };
        list.push(callback);
        self.event_callbacks.insert(event_name, list);
        assert(self.callbacks() =~= cbs0.insert(e, old(self).callbacks_of(e).push(callback)));
    }

    /// Whether the register being typed into is the command register.
    pub fn is_cmd_register(&self) -> (b: bool)
        ensures
            b == (self.current() == Some(command_register_name())),
    {
        match &self.current_register {
            Some(r) => {
                let cmd = command_register();
                *r == cmd
            },
            None => false,
        }
    }

    /// Queues, at the back, the event that an action raises, if any.
    pub fn check_for_native_events(&mut self, action: &Action)
        ensures
            final(self).queue() == old(self).queue() + native_events(action@),
            final(self).same_but_queue(old(self)),
    {
        let ghost q0 = self.queue();
        match action {
            Action::ChangeMode(..) => {
                self.actions_queue.push_back(Action::EventCallback(mode_change_name()));
            },
            Action::InsertIntoRegister(..) | Action::InsertIntoCurrentRegister(..)
            | Action::InsertIntoRegisterAtPos(..) | Action::DeletePrevFromRegister(..)
            | Action::DeletePrevFromCurrentRegister | Action::ClearRegister(..) => {
                self.actions_queue.push_back(Action::EventCallback(register_change_name()));
            },
            _ => {},
        }
        assert(self.queue() =~= q0 + native_events(action@));
    }

    /// Queues a binding's actions in front of the queue and the events they
    /// raise at its back.
    pub fn handle_key_action(&mut self, ka: KeyAction)
        requires
            ka.plan() is Some,
        ensures
            final(self).queue() == enqueue(old(self).queue(), ka.plan().unwrap()),
            final(self).same_but_queue(old(self)),
    {
        let ghost q0 = self.queue();
        let ghost plan = ka.plan().unwrap();
        match ka {
            KeyAction::Single(action) => {
                let ghost av = action@;
                self.check_for_native_events(&action);
                let ghost q1 = self.actions_queue@;
                self.actions_queue.push_front(action);
                proof {
                    assert(plan.drop_first() =~= seq![]);
                    assert(events_rev(plan.drop_first()) =~= seq![]);
                    assert(events_rev(plan) == events_rev(plan.drop_first()) + native_events(
                        plan[0],
                    ));
                    assert(views(seq![action] + q1) =~= seq![av] + views(q1));
                    assert(self.queue() =~= enqueue(q0, plan));
                }
            },
            KeyAction::Multiple(mut actions) => {
                let ghost n = actions@.len();
                assert(plan.subrange(n as int, n as int) =~= seq![]);
                assert(events_rev(plan.subrange(n as int, n as int)) =~= seq![]);
                assert(self.queue() =~= plan.subrange(n as int, n as int) + q0 + events_rev(
                    plan.subrange(n as int, n as int),
                ));
                while actions.len() > 0
                    invariant
                        plan == views(actions@) + plan.subrange(actions@.len() as int, n as int),
                        actions@.len() <= n == plan.len(),
                        self.queue() == plan.subrange(actions@.len() as int, n as int) + q0
                            + events_rev(plan.subrange(actions@.len() as int, n as int)),
                        self.same_but_queue(old(self)),
                    decreases actions@.len(),
                {
                    let ghost k = actions@.len();
                    let action = actions.pop().unwrap();
                    self.check_for_native_events(&action);
                    let ghost q1 = self.actions_queue@;
                    self.actions_queue.push_front(action);
                    proof {
                        let s = plan.subrange(k - 1, n as int);
                        assert(views(actions@).push(action@) =~= views(actions@.push(action)));
                        assert(plan[k - 1] == action@);
                        assert(s.drop_first() =~= plan.subrange(k as int, n as int));
                        assert(s[0] == action@);
                        assert(views(seq![action] + q1) =~= seq![action@] + views(q1));
                        assert(events_rev(s) == events_rev(s.drop_first()) + native_events(s[0]));
                        assert(s =~= seq![action@] + plan.subrange(k as int, n as int));
                        assert(self.queue() =~= s + q0 + events_rev(s));
                        assert(plan =~= views(actions@) + s);
                    }
                }
                assert(plan.subrange(0, n as int) =~= plan);
            },
            KeyAction::Nested(_) => {},
        }
    }
}

} // verus!
