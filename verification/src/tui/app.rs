use vstd::prelude::*;

use std::collections::VecDeque;
use std::path::PathBuf;

use crate::color::Color;
use crate::storage::ColorStore;
use crate::tui::input::Action;

verus! {

/// How many sampled colours the stream keeps.
pub const MAX_STREAM_SIZE: usize = 200;

#[verifier::external_type_specification]
#[verifier::external_body]
pub struct ExPathBuf(PathBuf);

/// The front end's state: the saved colours, the stream of sampled colours
/// (newest first), the colour under the cursor, the selected saved colour,
/// a pending "clear all" confirmation and the status line.
pub struct App {
    pub store: ColorStore,
    pub color_stream: VecDeque<Color>,
    pub current_color: Option<Color>,
    pub selected_index: Option<usize>,
    pub should_quit: bool,
    pub clear_confirm: bool,
    pub status_message: Option<String>,
    pub storage_path: PathBuf,
}

/// What the caller must do after the state changed.
#[derive(Debug)]
pub enum Effect {
    /// Nothing outside the state.
    Nothing,
    /// Write the saved colours to the storage path.
    WriteStore,
    /// Put this text on the clipboard, then report with `record_copy_result`.
    CopyToClipboard(String),
}

/// How the status line is shown.
#[derive(Debug, Clone, Copy, PartialEq, Eq, Structural)]
pub enum StatusTone {
    /// No status message.
    Hidden,
    /// A message that asks for confirmation.
    Warning,
    /// Any other message.
    Notice,
}

/// The stream after a sampled colour: a repeat of the newest colour is not
/// added again; otherwise the colour goes to the front and the oldest colour
/// drops out once the stream is longer than the limit.
pub open spec fn stream_after_push(s: Seq<Color>, c: Color) -> Seq<Color> {
    if s.len() > 0 && s[0] == c {
        s
    } else if s.len() + 1 > MAX_STREAM_SIZE {
        (seq![c] + s).drop_last()
    } else {
        seq![c] + s
    }
}

/// No colour directly follows an equal one.
pub open spec fn no_adjacent_repeats(s: Seq<Color>) -> bool {
    forall|i: int| 0 <= i < s.len() - 1 ==> #[trigger] s[i] != s[i + 1]
}

/// `after` is `before` with one more entry for `c`, stamped `saved_at`, at
/// the end.
pub open spec fn appended_entry(
    before: Seq<crate::storage::SavedColor>,
    after: Seq<crate::storage::SavedColor>,
    c: Color,
    saved_at: String,
) -> bool {
    &&& after.len() == before.len() + 1
    &&& after.take(before.len() as int) == before
    &&& after.last().hex@ == crate::color::hex_text(c)
    &&& after.last().saved_at == saved_at
}

/// The selection after the entry at `i` was removed, leaving `len` entries.
pub open spec fn selection_after_delete(i: usize, len: nat) -> Option<usize> {
    if len == 0 {
        None
    } else if i >= len {
        Some((len - 1) as usize)
    } else {
        Some(i)
    }
}

impl App {
    /// The number of saved colours.
    pub open spec fn saved_len(self) -> nat {
        self.store.saved_colors@.len()
    }

    /// The status line holds `text`.
    pub open spec fn status_is(self, text: Seq<char>) -> bool {
        self.status_message matches Some(m) && m@ == text
    }

    /// The selection, if any, points at a saved colour.
    pub open spec fn selection_valid(self) -> bool {
        match self.selected_index {
            Some(i) => i < self.saved_len(),
            None => true,
        }
    }

    /// `post` is `pre` after sampling `c`.
    pub open spec fn pushed(pre: App, post: App, c: Color) -> bool {
        &&& post == App { color_stream: post.color_stream, current_color: Some(c), ..pre }
        &&& post.color_stream@ == stream_after_push(pre.color_stream@, c)
    }

    /// `post` is `pre` after saving the current colour stamped `saved_at`;
    /// `wrote` tells whether the saved colours changed.
    pub open spec fn saved_current(pre: App, post: App, wrote: bool, saved_at: String) -> bool {
        match pre.current_color {
            None => !wrote && post == pre,
            Some(c) => {
                &&& wrote
                &&& post == App { store: post.store, status_message: post.status_message, ..pre }
                &&& appended_entry(pre.store.saved_colors@, post.store.saved_colors@, c, saved_at)
                &&& post.status_is("Saved "@ + crate::color::hex_text(c))
            },
        }
    }

    /// `post` is `pre` after deleting the selected colour.
    pub open spec fn deleted_selected(pre: App, post: App, wrote: bool) -> bool {
        let unchanged = !wrote && post == pre;
        match pre.selected_index {
            None => unchanged,
            Some(i) => if i < pre.saved_len() {
                &&& wrote
                &&& post == App {
                    store: post.store,
                    selected_index: selection_after_delete(i, (pre.saved_len() - 1) as nat),
                    ..pre
                }
                &&& post.store.saved_colors@ == pre.store.saved_colors@.remove(i as int)
            } else {
                unchanged
            },
        }
    }

    /// `post` is `pre` after a request to clear all saved colours: the first
    /// request asks for confirmation, the second clears.
    pub open spec fn clear_requested(pre: App, post: App, wrote: bool) -> bool {
        if pre.clear_confirm {
            &&& wrote
            &&& post == App {
                store: post.store,
                clear_confirm: false,
                selected_index: None,
                status_message: post.status_message,
                ..pre
            }
            &&& post.saved_len() == 0
            &&& post.status_is("Cleared all colors"@)
        } else {
            &&& !wrote
            &&& post == App { clear_confirm: true, status_message: post.status_message, ..pre }
            &&& post.status_is("Press c again to clear all"@)
        }
    }

    /// The selection after moving down: the first entry when none is
    /// selected, the next one otherwise, staying on the last.
    pub open spec fn selection_below(self) -> Option<usize> {
        if self.saved_len() == 0 {
            self.selected_index
        } else {
            match self.selected_index {
                None => Some(0),
                Some(i) => if i + 1 < self.saved_len() { Some((i + 1) as usize) } else { Some(i) },
            }
        }
    }

    /// The selection after moving up: the first entry when none is selected,
    /// the previous one otherwise, staying on the first.
    pub open spec fn selection_above(self) -> Option<usize> {
        if self.saved_len() == 0 {
            self.selected_index
        } else {
            match self.selected_index {
                None => Some(0),
                Some(i) => if i > 0 { Some((i - 1) as usize) } else { Some(i) },
            }
        }
    }

    /// The hex text of the selected colour, if the selection points at one.
    pub open spec fn selected_hex_text(self) -> Option<Seq<char>> {
        match self.selected_index {
            Some(i) => if i < self.saved_len() {
                Some(self.store.saved_colors@[i as int].hex@)
            } else {
                None
            },
            None => None,
        }
    }

    /// `post` and `effect` are what handling `action` in `pre` gives. Every
    /// action but a clear request first drops a pending confirmation to clear
    /// (quitting leaves it as it is, and asks for the saved colours to be
    /// written one last time).
    pub open spec fn acted(
        pre: App,
        action: Option<Action>,
        saved_at: String,
        post: App,
        effect: Effect,
    ) -> bool {
        let calm = App { clear_confirm: false, ..pre };
        let wrote = effect is WriteStore;
        let plain = effect is WriteStore || effect is Nothing;
        match action {
            Some(Action::Quit) => post == App { should_quit: true, ..pre } && effect is WriteStore,
            Some(Action::Save) => plain && Self::saved_current(calm, post, wrote, saved_at),
            Some(Action::CopyHex) => post == calm && match calm.selected_hex_text() {
                Some(t) => effect matches Effect::CopyToClipboard(h) && h@ == t,
                None => effect is Nothing,
            },
            Some(Action::Delete) => plain && Self::deleted_selected(calm, post, wrote),
            Some(Action::Clear) => plain && Self::clear_requested(pre, post, wrote),
            Some(Action::NavigateUp) => {
                &&& post == App { selected_index: calm.selection_above(), ..calm }
                &&& effect is Nothing
            },
            Some(Action::NavigateDown) => {
                &&& post == App { selected_index: calm.selection_below(), ..calm }
                &&& effect is Nothing
            },
            None => post == calm && effect is Nothing,
        }
    }

    /// Colours have been sampled and every one of them is black: what the
    /// sampler sees when the screen may not be recorded.
    pub open spec fn only_black_sampled(self) -> bool {
        &&& self.color_stream@.len() > 0
        &&& forall|i: int|
            0 <= i < self.color_stream@.len() ==> #[trigger] self.color_stream@[i] == (Color {
                r: 0,
                g: 0,
                b: 0,
            })
    }

    /// A fresh state over the saved colours read from `storage_path`.
    pub fn new(storage_path: PathBuf, store: ColorStore) -> (app: Self)
        ensures
            app.store == store,
            app.storage_path == storage_path,
            app.color_stream@.len() == 0,
            (app.current_color is None),
            (app.selected_index is None),
            !app.should_quit,
            !app.clear_confirm,
            (app.status_message is None),
    {
        App {
            store,
            color_stream: VecDeque::new(),
            current_color: None,
            selected_index: None,
            should_quit: false,
            clear_confirm: false,
            status_message: None,
            storage_path,
        }
    }

    /// Takes a sampled colour: it becomes the current colour, and the front
    /// of the stream unless it already is.
    pub fn push_color(&mut self, color: Color)
        ensures
            Self::pushed(*old(self), *final(self), color),
    {
        if self.color_stream.len() > 0 && self.color_stream[0] == color {
            self.current_color = Some(color);
            return;
        }
        self.current_color = Some(color);
        self.color_stream.push_front(color);
        if self.color_stream.len() > MAX_STREAM_SIZE {
            self.color_stream.pop_back();
        }
    }

    /// Sets the status line.
    pub fn set_status(&mut self, msg: &str)
        ensures
            *final(self) == (App { status_message: final(self).status_message, ..*old(self) }),
            final(self).status_is(msg@),
    {
        self.status_message = Some(msg.to_owned());
    }
    /// Saves the current colour, if there is one, and says so on the status
    /// line; the entry is stamped `saved_at`. Returns whether the saved colours
    /// changed (they are then to be written out).
    pub fn save_current_color(&mut self, saved_at: String) -> (wrote: bool)
        ensures
            Self::saved_current(*old(self), *final(self), wrote, saved_at),
            old(self).selection_valid() ==> final(self).selection_valid(),
    {
        match self.current_color {
            Some(color) => {
                self.store.add(&color, saved_at);
                let mut msg = "Saved ".to_owned();
                let hex = color.to_hex();
                msg.append(hex.as_str());
                self.set_status(msg.as_str());
                true
            },
            None => false,
        }
    }

    /// Deletes the selected colour, if the selection points at one, keeping
    /// the selection on an entry: on the last one when the deleted entry was
    /// the last, on none when no entry is left. Returns whether the saved
    /// colours changed.
    pub fn delete_selected(&mut self) -> (wrote: bool)
        ensures
            Self::deleted_selected(*old(self), *final(self), wrote),
            old(self).selection_valid() ==> final(self).selection_valid(),
    {
        if let Some(idx) = self.selected_index {
            if idx < self.store.saved_colors.len() {
                self.store.remove(idx);
                let len = self.store.saved_colors.len();
                if len == 0 {
                    self.selected_index = None;
                } else if idx >= len {
                    self.selected_index = Some(len - 1);
                }
                return true;
            }
        }
        false
    }

    /// The first request asks for confirmation; a second one, with nothing
    /// in between, clears all saved colours. Returns whether the saved colours
    /// changed.
    pub fn request_clear(&mut self) -> (wrote: bool)
        ensures
            Self::clear_requested(*old(self), *final(self), wrote),
            old(self).selection_valid() ==> final(self).selection_valid(),
    {
        if self.clear_confirm {
            self.store.clear();
            self.clear_confirm = false;
            self.selected_index = None;
            self.set_status("Cleared all colors");
            true
        } else {
            self.clear_confirm = true;
            self.set_status("Press c again to clear all");
            false
        }
    }

    /// Drops a pending confirmation to clear.
    pub fn cancel_clear(&mut self)
        ensures
            *final(self) == (App { clear_confirm: false, ..*old(self) }),
    {
        self.clear_confirm = false;
    }

    /// Moves the selection down.
    pub fn navigate_down(&mut self)
        ensures
            *final(self) == (App { selected_index: old(self).selection_below(), ..*old(self) }),
            old(self).selection_valid() ==> final(self).selection_valid(),
    {
        let len = self.store.saved_colors.len();
        if len == 0 {
            return;
        }
        match self.selected_index {
            None => self.selected_index = Some(0),
            Some(i) => {
                if i < len - 1 {
                    self.selected_index = Some(i + 1);
                }
            },
        }
    }

    /// Moves the selection up.
    pub fn navigate_up(&mut self)
        ensures
            *final(self) == (App { selected_index: old(self).selection_above(), ..*old(self) }),
            old(self).selection_valid() ==> final(self).selection_valid(),
    {
        let len = self.store.saved_colors.len();
        if len == 0 {
            return;
        }
        match self.selected_index {
            None => self.selected_index = Some(0),
            Some(i) => {
                if i > 0 {
                    self.selected_index = Some(i - 1);
                }
            },
        }
    }

    /// The hex text of the selected colour, if the selection points at one.
    pub fn selected_hex(&self) -> (hex: Option<String>)
        ensures
            match self.selected_hex_text() {
                Some(t) => hex matches Some(h) && h@ == t,
                None => hex is None,
            },
    {
        match self.selected_index {
            Some(i) => if i < self.store.saved_colors.len() {
                Some(self.store.saved_colors[i].hex.clone())
            } else {
                None
            },
            None => None,
        }
    }
    /// Handles what the user asked for (`None` for an unbound key) and says
    /// what the caller must do next; a saved colour is stamped `saved_at`.
    pub fn handle_action(&mut self, action: Option<Action>, saved_at: String) -> (effect: Effect)
        ensures
            Self::acted(*old(self), action, saved_at, *final(self), effect),
            old(self).selection_valid() ==> final(self).selection_valid(),
    {
        match action {
            Some(Action::Quit) => {
                self.should_quit = true;
                Effect::WriteStore
            },
            Some(Action::Save) => {
                self.cancel_clear();
                if self.save_current_color(saved_at) {
                    Effect::WriteStore
                } else {
                    Effect::Nothing
                }
            },
            Some(Action::CopyHex) => {
                self.cancel_clear();
                match self.selected_hex() {
                    Some(hex) => Effect::CopyToClipboard(hex),
                    None => Effect::Nothing,
                }
            },
            Some(Action::Delete) => {
                self.cancel_clear();
                if self.delete_selected() {
                    Effect::WriteStore
                } else {
                    Effect::Nothing
                }
            },
            Some(Action::Clear) => {
                if self.request_clear() {
                    Effect::WriteStore
                } else {
                    Effect::Nothing
                }
            },
            Some(Action::NavigateUp) => {
                self.cancel_clear();
                self.navigate_up();
                Effect::Nothing
            },
            Some(Action::NavigateDown) => {
                self.cancel_clear();
                self.navigate_down();
                Effect::Nothing
            },
            None => {
                self.cancel_clear();
                Effect::Nothing
            },
        }
    }

    /// Reports on the status line whether `hex` reached the clipboard.
    pub fn record_copy_result(&mut self, hex: &str, copied: bool)
        ensures
            *final(self) == (App { status_message: final(self).status_message, ..*old(self) }),
            copied ==> final(self).status_is("Copied "@ + hex@),
            !copied ==> final(self).status_is("Failed to copy"@),
    {
        if copied {
            let mut msg = "Copied ".to_owned();
            msg.append(hex);
            self.set_status(msg.as_str());
        } else {
            self.set_status("Failed to copy");
        }
    }


    /// Whether to ask for the screen-recording permission: every colour
    /// sampled so far is black.
    pub fn needs_screen_permission(&self) -> (ask: bool)
        ensures
            ask == self.only_black_sampled(),
    {
        let len = self.color_stream.len();
        if len == 0 {
            return false;
        }
        let black = Color::new(0, 0, 0);
        let mut i: usize = 0;
        while i < len
            invariant
                len == self.color_stream@.len(),
                i <= len,
                black == (Color { r: 0, g: 0, b: 0 }),
                forall|k: int| 0 <= k < i ==> #[trigger] self.color_stream@[k] == black,
            decreases len - i,
        {
            if self.color_stream[i] != black {
                return false;
            }
            i += 1;
        }
        true
    }
    /// How the status line is shown: as a warning while a clear waits for
    /// confirmation, plainly otherwise, and not at all without a message.
    pub fn status_tone(&self) -> (tone: StatusTone)
        ensures
            tone == match self.status_message {
                None => StatusTone::Hidden,
                Some(_) => if self.clear_confirm { StatusTone::Warning } else { StatusTone::Notice },
            },
    {
        match &self.status_message {
            Some(_) => if self.clear_confirm {
                StatusTone::Warning
            } else {
                StatusTone::Notice
            },
            None => StatusTone::Hidden,
        }
    }
}

/// The stream never grows past its limit.
pub proof fn lemma_stream_stays_bounded(s: Seq<Color>, c: Color)
    requires
        s.len() <= MAX_STREAM_SIZE,
    ensures
        stream_after_push(s, c).len() <= MAX_STREAM_SIZE,
{
}

/// After a sample the stream starts with it, and a stream without two equal
/// neighbours keeps having none.
pub proof fn lemma_stream_newest_first(s: Seq<Color>, c: Color)
    ensures
        stream_after_push(s, c).len() > 0,
        stream_after_push(s, c)[0] == c,
        no_adjacent_repeats(s) ==> no_adjacent_repeats(stream_after_push(s, c)),
{
    let t = stream_after_push(s, c);
    if no_adjacent_repeats(s) && !(s.len() > 0 && s[0] == c) {
        let u = seq![c] + s;
        assert forall|i: int| 0 <= i < t.len() - 1 implies #[trigger] t[i] != t[i + 1] by {
            assert(t[i] == u[i] && t[i + 1] == u[i + 1]);
            if i > 0 {
                assert(u[i] == s[i - 1] && u[i + 1] == s[(i - 1) + 1]);
            }
        }
    }
}

/// Sampling the same colour twice in a row leaves the stream as one sample
/// did.
pub proof fn lemma_repeated_sample_ignored(s: Seq<Color>, c: Color)
    ensures
        stream_after_push(stream_after_push(s, c), c) == stream_after_push(s, c),
{
    lemma_stream_newest_first(s, c);
}

/// After any sample the current colour is the newest colour of the stream.
pub proof fn lemma_current_is_newest(pre: App, post: App, c: Color)
    requires
        App::pushed(pre, post, c),
    ensures
        post.color_stream@.len() > 0,
        post.current_color == Some(post.color_stream@[0]),
{
    lemma_stream_newest_first(pre.color_stream@, c);
}

/// Clearing takes two requests in a row: the first changes no saved colour
/// and waits for confirmation, the second empties the list.
pub proof fn lemma_clear_takes_two_requests(a: App, b: App, c: App, w1: bool, w2: bool)
    requires
        !a.clear_confirm,
        App::clear_requested(a, b, w1),
        App::clear_requested(b, c, w2),
    ensures
        !w1,
        b.store == a.store,
        b.clear_confirm,
        w2,
        c.saved_len() == 0,
        !c.clear_confirm,
        (c.selected_index is None),
{
}

/// Any action other than a clear request or quitting drops a pending
/// confirmation to clear.
pub proof fn lemma_other_actions_cancel_clear(
    pre: App,
    action: Option<Action>,
    saved_at: String,
    post: App,
    effect: Effect,
)
    requires
        App::acted(pre, action, saved_at, post, effect),
        action != Some(Action::Clear),
        action != Some(Action::Quit),
    ensures
        !post.clear_confirm,
{
}

/// Whenever handling an action changes the saved colours, the caller is told
/// to write them out.
pub proof fn lemma_changes_are_written(
    pre: App,
    action: Option<Action>,
    saved_at: String,
    post: App,
    effect: Effect,
)
    requires
        App::acted(pre, action, saved_at, post, effect),
        post.store.saved_colors@ != pre.store.saved_colors@,
    ensures
        effect is WriteStore,
{
}

/// How many clear requests end the first `n` actions, counted back from the
/// `n`-th until another action.
pub open spec fn clear_run(actions: Seq<Option<Action>>, n: nat) -> nat
    decreases n,
{
    if n == 0 || n > actions.len() || actions[n - 1] != Some(Action::Clear) {
        0
    } else {
        1 + clear_run(actions, (n - 1) as nat)
    }
}

/// `states` and `effects` are what handling `actions` one after another
/// gives, starting from `states[0]`.
pub open spec fn handled_in_turn(
    states: Seq<App>,
    actions: Seq<Option<Action>>,
    stamps: Seq<String>,
    effects: Seq<Effect>,
) -> bool {
    &&& states.len() == actions.len() + 1
    &&& stamps.len() == actions.len()
    &&& effects.len() == actions.len()
    &&& forall|i: int|
        0 <= i < actions.len() ==> #[trigger] App::acted(
            states[i],
            actions[i],
            stamps[i],
            states[i + 1],
            effects[i],
        )
}

/// Along a run of actions without quitting, a clear waits for confirmation
/// exactly when an odd number of clear requests ends the actions so far.
proof fn lemma_confirm_parity(
    states: Seq<App>,
    actions: Seq<Option<Action>>,
    stamps: Seq<String>,
    effects: Seq<Effect>,
    n: nat,
)
    requires
        handled_in_turn(states, actions, stamps, effects),
        forall|i: int| 0 <= i < actions.len() ==> actions[i] != Some(Action::Quit),
        !states[0].clear_confirm,
        n <= actions.len(),
    ensures
        states[n as int].clear_confirm <==> clear_run(actions, n) % 2 == 1,
    decreases n,
{
    if n > 0 {
        let j = n - 1;
        lemma_confirm_parity(states, actions, stamps, effects, j as nat);
        assert(App::acted(states[j], actions[j], stamps[j], states[j + 1], effects[j]));
        assert(actions[j] != Some(Action::Quit));
    }
}

/// Pressing clear clears the saved colours exactly when it ends an even run
/// of clear requests: any other action in between (quitting aside) starts the
/// count again, so clear, other, clear never clears. A clear that fires
/// empties the list, asks for it to be written and says so.
pub proof fn lemma_clear_fires_on_even_runs(
    states: Seq<App>,
    actions: Seq<Option<Action>>,
    stamps: Seq<String>,
    effects: Seq<Effect>,
)
    requires
        handled_in_turn(states, actions, stamps, effects),
        forall|i: int| 0 <= i < actions.len() ==> actions[i] != Some(Action::Quit),
        !states[0].clear_confirm,
    ensures
        forall|j: int|
            0 <= j < actions.len() ==> ((states[j].clear_confirm && actions[j] == Some(Action::Clear))
                <==> (actions[j] == Some(Action::Clear) && #[trigger] clear_run(actions, (j + 1) as nat) % 2 == 0)),
        forall|j: int|
            0 <= j < actions.len() && states[j].clear_confirm && actions[j] == Some(Action::Clear) ==> {
                &&& #[trigger] states[j + 1].saved_len() == 0
                &&& effects[j] is WriteStore
                &&& states[j + 1].status_is("Cleared all colors"@)
            },
{
    assert forall|j: int|
        0 <= j < actions.len() implies ((states[j].clear_confirm && actions[j] == Some(Action::Clear))
            <==> (actions[j] == Some(Action::Clear) && #[trigger] clear_run(actions, (j + 1) as nat) % 2 == 0)) by {
        lemma_confirm_parity(states, actions, stamps, effects, j as nat);
    }
    assert forall|j: int|
        0 <= j < actions.len() && states[j].clear_confirm && actions[j] == Some(Action::Clear) implies {
            &&& #[trigger] states[j + 1].saved_len() == 0
            &&& effects[j] is WriteStore
            &&& states[j + 1].status_is("Cleared all colors"@)
        } by {
        assert(App::acted(states[j], actions[j], stamps[j], states[j + 1], effects[j]));
    }
}

/// Quitting keeps the saved colours as they are and asks for them to be
/// written out, so the file holds them when the front end stops.
pub proof fn lemma_quit_saves_state(pre: App, saved_at: String, post: App, effect: Effect)
    requires
        App::acted(pre, Some(Action::Quit), saved_at, post, effect),
    ensures
        post.should_quit,
        post.store == pre.store,
        effect is WriteStore,
{
}

/// Moving the selection steps by one entry: from a selected entry `i`, down selects
/// `i + 1` unless `i` is the last entry, up selects `i - 1` unless `i` is the
/// first; with nothing selected either move selects the first entry, and an
/// empty list keeps the selection.
pub proof fn lemma_navigation_steps_by_one(a: App, i: usize)
    ensures
        a.saved_len() == 0 ==> a.selection_below() == a.selected_index
            && a.selection_above() == a.selected_index,
        a.saved_len() > 0 && a.selected_index is None ==> a.selection_below() == Some(0usize)
            && a.selection_above() == Some(0usize),
        a.saved_len() > 0 && a.selected_index == Some(i) ==> {
            &&& (i + 1 < a.saved_len() ==> a.selection_below() == Some((i + 1) as usize))
            &&& (i + 1 >= a.saved_len() ==> a.selection_below() == Some(i))
            &&& (i > 0 ==> a.selection_above() == Some((i - 1) as usize))
            &&& (i == 0 ==> a.selection_above() == Some(i))
        },
{
}

/// Moving down then up from an entry that is not the last comes back to it;
/// moving up then down from an entry that is not the first does too.
pub proof fn lemma_navigation_round_trip(a: App, i: usize)
    requires
        a.selected_index == Some(i),
        i < a.saved_len(),
    ensures
        i + 1 < a.saved_len() ==> (App { selected_index: a.selection_below(), ..a }).selection_above()
            == Some(i),
        i > 0 ==> (App { selected_index: a.selection_above(), ..a }).selection_below() == Some(i),
{
    let below = App { selected_index: a.selection_below(), ..a };
    let above = App { selected_index: a.selection_above(), ..a };
    assert(below.store == a.store && below.saved_len() == a.saved_len());
    assert(above.store == a.store && above.saved_len() == a.saved_len());
    assert(a.store.saved_colors.len() == a.saved_len());
    if i + 1 < a.saved_len() {
        assert(below.selected_index == Some((i + 1) as usize));
    }
}

/// The selected hex text is the text of the saved entry at the selected
/// index, whichever entry that is; nothing is selected past the end.
pub proof fn lemma_selected_hex_is_entry_at_index(a: App)
    ensures
        forall|i: usize|
            a.selected_index == Some(i) && i < a.saved_len() ==> a.selected_hex_text() == Some(
                #[trigger] a.store.saved_colors@[i as int].hex@,
            ),
        forall|i: usize|
            a.selected_index == Some(i) && i >= a.saved_len() ==> (#[trigger] a.selected_hex_text()
                is None),
        (a.selected_index is None) ==> (a.selected_hex_text() is None),
{
}

/// Two selections of different entries copy different texts when the entries'
/// texts differ, and the same entry always copies the same text.
pub proof fn lemma_selected_hex_tracks_selection(a: App, i: usize, j: usize)
    requires
        i < a.saved_len(),
        j < a.saved_len(),
    ensures
        (App { selected_index: Some(i), ..a }).selected_hex_text() == Some(
            a.store.saved_colors@[i as int].hex@,
        ),
        a.store.saved_colors@[i as int].hex@ != a.store.saved_colors@[j as int].hex@ ==> (App {
            selected_index: Some(i),
            ..a
        }).selected_hex_text() != (App { selected_index: Some(j), ..a }).selected_hex_text(),
{
}

/// Deleting the selected entry `i` of `n` removes exactly that entry; the
/// selection stays at position `i` when an entry follows it, moves to the new
/// last entry `n - 2` when `i` was the last, and goes when none is left.
pub proof fn lemma_delete_keeps_position(pre: App, post: App, wrote: bool, i: usize)
    requires
        App::deleted_selected(pre, post, wrote),
        pre.selected_index == Some(i),
        i < pre.saved_len(),
    ensures
        wrote,
        post.saved_len() == pre.saved_len() - 1,
        forall|k: int| 0 <= k < i ==> #[trigger] post.store.saved_colors@[k] == pre.store.saved_colors@[k],
        forall|k: int|
            i <= k < post.saved_len() ==> #[trigger] post.store.saved_colors@[k] == pre.store.saved_colors@[k + 1],
        i + 1 < pre.saved_len() ==> post.selected_index == Some(i),
        i + 1 == pre.saved_len() && pre.saved_len() > 1 ==> post.selected_index == Some(
            (pre.saved_len() - 2) as usize,
        ),
        pre.saved_len() == 1 ==> (post.selected_index is None),
{
}

} // verus!
