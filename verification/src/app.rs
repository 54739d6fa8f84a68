//! The state of the chat interface and the decisions it takes.

pub mod message;

pub use message::{CliMessage, MessageUtils, Role};

use crate::agent::AgentEvent;
use crate::app::message::{body_for, text_height, MessageBody};
use crate::text::{is_blank, join_lines, join_with_newlines, string_views, text_is_blank, textwrap_lines, wrap_text};
use vstd::prelude::*;

verus! {

/// The widget that keyboard input goes to.
#[derive(Clone, Copy, Debug, PartialEq, Eq, Structural)]
pub enum SelectedWidget {
    MessageHistory,
    TextArea,
}

/// A rectangle of the terminal, in cells.
#[derive(Clone, Copy, Debug, PartialEq, Eq, Structural)]
pub struct Area {
    pub x: u16,
    pub y: u16,
    pub width: u16,
    pub height: u16,
}

impl Area {
    /// Whether the cell at column `x` and row `y` lies in the rectangle,
    /// whose right and bottom edges saturate at `u16::MAX`.
    pub open spec fn holds(self, x: u16, y: u16) -> bool {
        &&& x >= self.x
        &&& x < self.x.saturating_add(self.width)
        &&& y >= self.y
        &&& y < self.y.saturating_add(self.height)
    }

    /// Whether the cell at column `x` and row `y` lies in the rectangle.
    pub fn contains(&self, x: u16, y: u16) -> (res: bool)
        ensures
            res == self.holds(x, y),
    {
        x >= self.x && x < self.x.saturating_add(self.width) && y >= self.y && y
            < self.y.saturating_add(self.height)
    }
}

/// How a transcript line is drawn: as the heading of a message by a role,
/// or as plain text.
#[derive(Clone, Copy, Debug, PartialEq, Eq, Structural)]
pub enum LineStyle {
    Heading(Role),
    Plain,
}

/// One line of the rendered transcript.
#[derive(Debug)]
pub struct TranscriptLine {
    pub style: LineStyle,
    pub text: String,
}

impl View for TranscriptLine {
    type V = (LineStyle, Seq<char>);

    open spec fn view(&self) -> (LineStyle, Seq<char>) {
        (self.style, self.text@)
    }
}

/// The name that a heading gives a role.
pub open spec fn role_label(role: Role) -> Seq<char> {
    match role {
        Role::User => seq!['U', 's', 'e', 'r'],
        Role::Agent => seq!['A', 'g', 'e', 'n', 't'],
        Role::System => seq!['S', 'y', 's', 't', 'e', 'm'],
    }
}

/// The heading line of a message: two rules, the role's name, and twenty rules.
pub open spec fn heading_text(role: Role) -> Seq<char> {
    seq!['─', '─', ' '] + role_label(role) + seq![' '] + Seq::new(20, |i: int| '─')
}

/// What the transcript needs of a message: its role and its text.
pub open spec fn entries(messages: Seq<CliMessage>) -> Seq<(Role, Seq<char>)> {
    messages.map_values(|m: CliMessage| (m.author(), m.text()))
}

/// The lines of one message at this width: its heading, its text wrapped,
/// and an empty line.
pub open spec fn message_block(entry: (Role, Seq<char>), width: u16) -> Seq<(LineStyle, Seq<char>)> {
    block_from_lines(entry.0, textwrap_lines(entry.1, width as nat))
}

/// The lines of a message by `role` whose text wrapped into `wrapped`: its
/// heading, the wrapped lines, and an empty line.
pub open spec fn block_from_lines(role: Role, wrapped: Seq<Seq<char>>) -> Seq<(LineStyle, Seq<char>)> {
    seq![(LineStyle::Heading(role), heading_text(role))] + wrapped.map_values(
        |l: Seq<char>| (LineStyle::Plain, l),
    ) + seq![(LineStyle::Plain, Seq::<char>::empty())]
}

/// The lines of the whole transcript at this width, message after message.
pub open spec fn transcript(es: Seq<(Role, Seq<char>)>, width: u16) -> Seq<(LineStyle, Seq<char>)>
    decreases es.len(),
{
    if es.len() == 0 {
        Seq::empty()
    } else {
        transcript(es.drop_last(), width) + message_block(es.last(), width)
    }
}

/// The sum of the heights of the messages at this width.
pub open spec fn total_height(es: Seq<(Role, Seq<char>)>, width: u16, has_border: bool) -> int
    decreases es.len(),
{
    if es.len() == 0 {
        0
    } else {
        total_height(es.drop_last(), width, has_border) + text_height(es.last().1, width, has_border)
    }
}

/// The views of transcript lines.
pub open spec fn line_views(lines: Seq<TranscriptLine>) -> Seq<(LineStyle, Seq<char>)> {
    lines.map_values(|l: TranscriptLine| l@)
}

proof fn lemma_transcript_step(es: Seq<(Role, Seq<char>)>, i: int, width: u16)
    requires
        0 <= i < es.len(),
    ensures
        transcript(es.take(i + 1), width) == transcript(es.take(i), width) + message_block(
            es[i],
            width,
        ),
{
    assert(es.take(i + 1).drop_last() =~= es.take(i));
}

proof fn lemma_total_height_step(es: Seq<(Role, Seq<char>)>, i: int, width: u16, has_border: bool)
    requires
        0 <= i < es.len(),
    ensures
        total_height(es.take(i + 1), width, has_border) == total_height(es.take(i), width, has_border)
            + text_height(es[i].1, width, has_border),
{
    assert(es.take(i + 1).drop_last() =~= es.take(i));
}

proof fn lemma_total_height_prefix(es: Seq<(Role, Seq<char>)>, i: int, width: u16, has_border: bool)
    requires
        0 <= i <= es.len(),
    ensures
        0 <= total_height(es.take(i), width, has_border) <= total_height(es, width, has_border),
    decreases es.len() - i,
{
    if i == es.len() {
        assert(es.take(i) =~= es);
        lemma_total_height_nonneg(es, width, has_border);
    } else {
        lemma_total_height_prefix(es, i + 1, width, has_border);
        lemma_total_height_step(es, i, width, has_border);
        lemma_total_height_nonneg(es.take(i), width, has_border);
    }
}

proof fn lemma_total_height_nonneg(es: Seq<(Role, Seq<char>)>, width: u16, has_border: bool)
    ensures
        total_height(es, width, has_border) >= 0,
    decreases es.len(),
{
    if es.len() > 0 {
        lemma_total_height_nonneg(es.drop_last(), width, has_border);
    }
}

/// Adding a message adds exactly its block of lines at the end of the
/// transcript, whatever the width.
pub proof fn lemma_transcript_of_appended(es: Seq<(Role, Seq<char>)>, entry: (Role, Seq<char>), width: u16)
    ensures
        transcript(es.push(entry), width) == transcript(es, width) + message_block(entry, width),
{
    assert(es.push(entry).drop_last() =~= es);
}

/// Adding a message adds exactly its height to the height of all messages.
pub proof fn lemma_total_height_of_appended(
    es: Seq<(Role, Seq<char>)>,
    entry: (Role, Seq<char>),
    width: u16,
    has_border: bool,
)
    ensures
        total_height(es.push(entry), width, has_border) == total_height(es, width, has_border)
            + text_height(entry.1, width, has_border),
{
    assert(es.push(entry).drop_last() =~= es);
}

/// The transcript has as many lines as the messages have rows when drawn
/// with a border, as long as no message wraps into more lines than a `u16`
/// counts: a heading and a closing line stand where the border rows do.
pub proof fn lemma_transcript_len_is_bordered_height(es: Seq<(Role, Seq<char>)>, width: u16)
    requires
        forall|i: int|
            0 <= i < es.len() ==> textwrap_lines(#[trigger] es[i].1, width as nat).len() <= u16::MAX,
    ensures
        transcript(es, width).len() == total_height(es, width, true),
    decreases es.len(),
{
    if es.len() > 0 {
        let last = es.last();
        assert(textwrap_lines(es[es.len() - 1].1, width as nat).len() <= u16::MAX);
        lemma_transcript_len_is_bordered_height(es.drop_last(), width);
        assert((textwrap_lines(last.1, width as nat).len() as u16) as int == textwrap_lines(
            last.1,
            width as nat,
        ).len());
    }
}

/// Whether submitting `input` while `generating` sends a request: only
/// non-blank input, and only while no reply is awaited.
pub open spec fn submit_sends(generating: bool, input: Seq<char>) -> bool {
    !generating && !is_blank(input)
}

/// One step of the interface loop as it touches the awaited reply: a
/// submission of some input, a reply or error taken in from the agent task,
/// or any other event.
pub enum LoopStep {
    Submit(Seq<char>),
    Reply,
    Other,
}

/// Whether a reply is awaited after `steps`, starting from a new chat:
/// a submission that sends starts awaiting, a reply ends it.
pub open spec fn awaiting_after(steps: Seq<LoopStep>) -> bool
    decreases steps.len(),
{
    if steps.len() == 0 {
        false
    } else {
        let before = awaiting_after(steps.drop_last());
        match steps.last() {
            LoopStep::Submit(input) => before || !is_blank(input),
            LoopStep::Reply => false,
            LoopStep::Other => before,
        }
    }
}

/// The requests sent during `steps` less the replies taken in.
pub open spec fn in_flight(steps: Seq<LoopStep>) -> int
    decreases steps.len(),
{
    if steps.len() == 0 {
        0
    } else {
        let before = in_flight(steps.drop_last());
        match steps.last() {
            LoopStep::Submit(input) => before + if submit_sends(
                awaiting_after(steps.drop_last()),
                input,
            ) {
                1int
            } else {
                0int
            },
            LoopStep::Reply => before - 1,
            LoopStep::Other => before,
        }
    }
}

/// Every reply taken in answers a request that is still in flight.
pub open spec fn replies_answer_requests(steps: Seq<LoopStep>) -> bool {
    forall|k: int|
        0 <= k < steps.len() ==> (#[trigger] steps[k] is Reply ==> in_flight(steps.take(k)) > 0)
}

/// At most one agent request is in flight at any time, and one is exactly
/// when a reply is awaited: `submit_input` sends only while none is awaited
/// and then awaits, and `apply_agent_event` ends the wait.
pub proof fn lemma_at_most_one_in_flight(steps: Seq<LoopStep>)
    requires
        replies_answer_requests(steps),
    ensures
        in_flight(steps) == if awaiting_after(steps) {
            1int
        } else {
            0int
        },
    decreases steps.len(),
{
    if steps.len() > 0 {
        let prefix = steps.drop_last();
        assert forall|k: int| 0 <= k < prefix.len() && #[trigger] prefix[k] is Reply implies in_flight(
            prefix.take(k),
        ) > 0 by {
            assert(prefix[k] == steps[k]);
            assert(prefix.take(k) =~= steps.take(k));
        }
        lemma_at_most_one_in_flight(prefix);
        if steps.last() is Reply {
            assert(steps.take(steps.len() - 1) =~= prefix);
            assert(steps[steps.len() - 1] is Reply);
        }
    }
}

/// The number of rows a page scroll moves when no history area is known.
pub open spec fn default_viewport() -> u16 {
    20
}

/// The state of the chat interface.
pub struct App {
    pub exit: bool,
    pub messages: Vec<CliMessage>,
    pub scroll_offset: u16,
    pub is_generating: bool,
    pub status: Option<String>,
    pub model: Option<String>,
    pub selected_widget: SelectedWidget,
    pub message_history_area: Option<Area>,
    pub text_area_area: Option<Area>,
    pub cached_lines: Vec<TranscriptLine>,
    pub cached_width: u16,
    pub cached_msg_count: usize,
}

impl App {
    /// Every message is consistent, and the cached lines are the transcript
    /// of the first `cached_msg_count` messages at `cached_width`.
    pub open spec fn wf(&self) -> bool {
        &&& forall|i: int| 0 <= i < self.messages@.len() ==> (#[trigger] self.messages@[i]).wf()
        &&& self.cached_msg_count <= self.messages@.len()
        &&& line_views(self.cached_lines@) == transcript(
            entries(self.messages@).take(self.cached_msg_count as int),
            self.cached_width,
        )
    }

    /// The transcript of all messages at `width`.
    pub open spec fn transcript_at(&self, width: u16) -> Seq<(LineStyle, Seq<char>)> {
        transcript(entries(self.messages@), width)
    }

    /// The number of cached lines, counted in a `u16` as a cast does.
    pub open spec fn cached_height(&self) -> u16 {
        self.cached_lines@.len() as u16
    }

    /// The height of the history view: its area's, or twenty rows before it
    /// was laid out.
    pub open spec fn viewport(&self) -> u16 {
        match self.message_history_area {
            Some(area) => area.height,
            None => default_viewport(),
        }
    }

    /// An empty chat with the given model, its input focused.
    pub fn new(model: String) -> (res: Self)
        ensures
            res.wf(),
            !res.exit,
            res.messages@.len() == 0,
            res.scroll_offset == 0,
            !res.is_generating,
            res.status is None,
            res.model matches Some(m) && m@ == model@,
            res.selected_widget == SelectedWidget::TextArea,
            res.message_history_area is None,
            res.text_area_area is None,
            res.cached_lines@.len() == 0,
            res.cached_width == 0,
            res.cached_msg_count == 0,
    {
        let res = App {
            exit: false,
            messages: Vec::new(),
            scroll_offset: 0,
            is_generating: false,
            status: None,
            model: Some(model),
            selected_widget: SelectedWidget::TextArea,
            message_history_area: None,
            text_area_area: None,
            cached_lines: Vec::new(),
            cached_width: 0,
            cached_msg_count: 0,
        };
        proof {
            assert(entries(res.messages@).take(0) =~= Seq::<(Role, Seq<char>)>::empty());
            assert(line_views(res.cached_lines@) =~= Seq::<(LineStyle, Seq<char>)>::empty());
        }
        res
    }

    /// Appends a message written by `role` with the text `content`.
    pub fn add_message(&mut self, role: Role, content: String)
        ensures
            old(self).wf() ==> final(self).wf(),
            final(self).messages@.len() == old(self).messages@.len() + 1,
            final(self).messages@.drop_last() == old(self).messages@,
            final(self).messages@.last().author() == role,
            final(self).messages@.last().body() == body_for(role, content@),
            final(self).messages@.last().remembered_height() is None,
            final(self).exit == old(self).exit,
            final(self).scroll_offset == old(self).scroll_offset,
            final(self).is_generating == old(self).is_generating,
            final(self).status == old(self).status,
            final(self).model == old(self).model,
            final(self).selected_widget == old(self).selected_widget,
            final(self).message_history_area == old(self).message_history_area,
            final(self).text_area_area == old(self).text_area_area,
            final(self).cached_lines == old(self).cached_lines,
            final(self).cached_width == old(self).cached_width,
            final(self).cached_msg_count == old(self).cached_msg_count,
    {
        let ghost before = self.messages@;
        self.messages.push(CliMessage::new(role, content));
        proof {
            assert(self.messages@.drop_last() =~= before);
            if self.cached_msg_count <= before.len() {
                assert(entries(self.messages@).take(self.cached_msg_count as int) =~= entries(
                    before,
                ).take(self.cached_msg_count as int));
            }
        }
    }

    /// The bodies of all messages, in order, as the model gets them.
    pub fn message_history(&self) -> (res: Vec<MessageBody>)
        ensures
            res@.len() == self.messages@.len(),
            forall|i: int|
                0 <= i < res@.len() ==> (#[trigger] res@[i]).deep_view()
                    == self.messages@[i].body(),
    {
        let mut res: Vec<MessageBody> = Vec::new();
        let mut i: usize = 0;
        while i < self.messages.len()
            invariant
                0 <= i <= self.messages@.len(),
                res@.len() == i,
                forall|j: int|
                    0 <= j < i ==> (#[trigger] res@[j]).deep_view()
                        == self.messages@[j].body(),
            decreases self.messages@.len() - i,
        {
            res.push(self.messages[i].message().clone());
            i = i + 1;
        }
        res
    }

    /// The number of transcript lines, counted in a `u16` as a cast does.
    pub fn get_height(&self) -> (res: u16)
        ensures
            res == self.cached_height(),
    {
        self.cached_lines.len() as u16
    }

    /// How far the history can scroll: the transcript's rows beyond the view.
    pub fn get_max_scroll(&self) -> (res: u16)
        ensures
            res == self.cached_height().saturating_sub(self.viewport()),
    {
        let max_h: u16 = self.get_height();
        let viewport: u16 = match self.message_history_area {
            Some(area) => area.height,
            None => 20,
        };
        max_h.saturating_sub(viewport)
    }

    /// Brings the cached transcript up to date for `width`; it is rebuilt
    /// only when the width or the number of messages changed.
    pub fn update_cache(&mut self, width: u16)
        ensures
            old(self).wf() ==> final(self).wf(),
            old(self).wf() ==> line_views(final(self).cached_lines@) == old(self).transcript_at(
                width,
            ),
            !(old(self).cached_width == width && old(self).cached_msg_count
                == old(self).messages@.len()) ==> line_views(final(self).cached_lines@) == old(
                self,
            ).transcript_at(width),
            final(self).cached_width == width,
            final(self).cached_msg_count == old(self).messages@.len(),
            old(self).cached_width == width && old(self).cached_msg_count
                == old(self).messages@.len() ==> final(self).cached_lines
                == old(self).cached_lines,
            final(self).messages == old(self).messages,
            final(self).exit == old(self).exit,
            final(self).scroll_offset == old(self).scroll_offset,
            final(self).is_generating == old(self).is_generating,
            final(self).status == old(self).status,
            final(self).model == old(self).model,
            final(self).selected_widget == old(self).selected_widget,
            final(self).message_history_area == old(self).message_history_area,
            final(self).text_area_area == old(self).text_area_area,
    {
        let ghost es = entries(self.messages@);
        if self.cached_width == width && self.cached_msg_count == self.messages.len() {
            proof {
                assert(es.take(self.cached_msg_count as int) =~= es);
            }
            return;
        }
        let lines = transcript_lines(&self.messages, self.messages.len(), width);
        proof {
            assert(es.take(self.messages@.len() as int) =~= es);
        }
        self.cached_lines = lines;
        self.cached_width = width;
        self.cached_msg_count = self.messages.len();
    }
}

impl MessageUtils for App {
    open spec fn height_fits(&self, width: u16, has_border: bool) -> bool {
        &&& forall|i: int| 0 <= i < self.messages@.len() ==> (#[trigger] self.messages@[i]).wf()
        &&& total_height(entries(self.messages@), width, has_border) <= u16::MAX
    }

    open spec fn rendered_height(&self, width: u16, has_border: bool) -> int {
        total_height(entries(self.messages@), width, has_border)
    }

    /// The sum of the heights of all messages.
    fn get_height(&mut self, width: u16, has_border: bool) -> (height: u16)
        ensures
            final(self).messages@.len() == old(self).messages@.len(),
            entries(final(self).messages@) == entries(old(self).messages@),
            forall|i: int|
                0 <= i < final(self).messages@.len() ==> (#[trigger] final(self).messages@[i]).wf(),
            forall|i: int|
                0 <= i < final(self).messages@.len() ==> (#[trigger] final(self).messages@[i]).author()
                    == old(self).messages@[i].author() && final(self).messages@[i].body() == old(
                    self,
                ).messages@[i].body(),
            final(self).exit == old(self).exit,
            final(self).scroll_offset == old(self).scroll_offset,
            final(self).is_generating == old(self).is_generating,
            final(self).status == old(self).status,
            final(self).model == old(self).model,
            final(self).selected_widget == old(self).selected_widget,
            final(self).message_history_area == old(self).message_history_area,
            final(self).text_area_area == old(self).text_area_area,
            final(self).cached_lines == old(self).cached_lines,
            final(self).cached_width == old(self).cached_width,
            final(self).cached_msg_count == old(self).cached_msg_count,
            old(self).wf() ==> final(self).wf(),
    {
        let ghost es = entries(self.messages@);
        let mut height: u16 = 0;
        let mut i: usize = 0;
        while i < self.messages.len()
            invariant
                0 <= i <= self.messages@.len(),
                es == entries(self.messages@),
                forall|j: int| 0 <= j < self.messages@.len() ==> (#[trigger] self.messages@[j]).wf(),
                total_height(es, width, has_border) <= u16::MAX,
                height as int == total_height(es.take(i as int), width, has_border),
                self.messages@.len() == old(self).messages@.len(),
                forall|j: int|
                    0 <= j < self.messages@.len() ==> (#[trigger] self.messages@[j]).author()
                        == old(self).messages@[j].author() && self.messages@[j].body() == old(
                        self,
                    ).messages@[j].body(),
                self.exit == old(self).exit,
                self.scroll_offset == old(self).scroll_offset,
                self.is_generating == old(self).is_generating,
                self.status == old(self).status,
                self.model == old(self).model,
                self.selected_widget == old(self).selected_widget,
                self.message_history_area == old(self).message_history_area,
                self.text_area_area == old(self).text_area_area,
                self.cached_lines == old(self).cached_lines,
                self.cached_width == old(self).cached_width,
                self.cached_msg_count == old(self).cached_msg_count,
            decreases self.messages@.len() - i,
        {
            proof {
                lemma_total_height_step(es, i as int, width, has_border);
                lemma_total_height_prefix(es, i + 1, width, has_border);
                lemma_total_height_prefix(es, i as int, width, has_border);
                assert(es[i as int].1 == self.messages@[i as int].text());
            }
            let ghost before = self.messages@;
            let h: u16 = self.messages[i].get_height(width, has_border);
            proof {
                assert(entries(self.messages@) =~= entries(before));
            }
            height = height + h;
            i = i + 1;
        }
        proof {
            assert(es.take(self.messages@.len() as int) =~= es);
        }
        height
    }
}

impl App {
    /// The sum of the heights of all messages, or `None` where it does not
    /// fit in a `u16`; the state is then left as it was.
    pub fn checked_height(&mut self, width: u16, has_border: bool) -> (res: Option<u16>)
        requires
            old(self).wf(),
        ensures
            match res {
                Some(h) => h as int == total_height(entries(old(self).messages@), width, has_border),
                None => total_height(entries(old(self).messages@), width, has_border) > u16::MAX
                    && *final(self) == *old(self),
            },
            final(self).wf(),
            entries(final(self).messages@) == entries(old(self).messages@),
    {
        let ghost es = entries(self.messages@);
        let mut total: u32 = 0;
        let mut i: usize = 0;
        while i < self.messages.len()
            invariant
                0 <= i <= self.messages@.len(),
                es == entries(self.messages@),
                total as int == total_height(es.take(i as int), width, has_border),
                total <= u16::MAX,
                *self == *old(self),
                old(self).wf(),
            decreases self.messages@.len() - i,
        {
            proof {
                lemma_total_height_step(es, i as int, width, has_border);
                assert(es[i as int].1 == self.messages@[i as int].text());
            }
            let rows: u16 = self.messages[i].wrapped_rows(width);
            let h: u32 = if has_border { rows as u32 + 2 } else { rows as u32 };
            if total + h > 65535 {
                proof {
                    lemma_total_height_prefix(es, i + 1, width, has_border);
                }
                return None;
            }
            total = total + h;
            i = i + 1;
        }
        proof {
            assert(es.take(self.messages@.len() as int) =~= es);
        }
        Some(MessageUtils::get_height(self, width, has_border))
    }
}

/// A key as the interface tells keys apart.
#[derive(Clone, Copy, Debug, PartialEq, Eq, Structural)]
pub enum KeyCode {
    Char(char),
    Enter,
    Up,
    Down,
    PageUp,
    PageDown,
    Home,
    End,
    Other,
}

/// A mouse action as the interface tells them apart.
#[derive(Clone, Copy, Debug, PartialEq, Eq, Structural)]
pub enum MouseKind {
    LeftDown,
    ScrollDown,
    ScrollUp,
    Other,
}

/// A terminal event: a key with whether Control was held, a mouse action at
/// a cell, or anything else.
#[derive(Clone, Copy, Debug, PartialEq, Eq, Structural)]
pub enum InputEvent {
    Key { code: KeyCode, control: bool },
    Mouse { kind: MouseKind, column: u16, row: u16 },
    Other,
}

/// What the caller must do after an event: nothing, take the text area's
/// input and submit it, or hand the key to the text area.
#[derive(Clone, Copy, Debug, PartialEq, Eq, Structural)]
pub enum InputAction {
    Nothing,
    Submit,
    ForwardKey,
}

/// Whether the event is Control-C.
pub open spec fn is_quit(event: InputEvent) -> bool {
    event matches InputEvent::Key { code: KeyCode::Char('c'), control: true }
}

/// Whether a key moves the history view.
pub open spec fn is_scroll_key(code: KeyCode) -> bool {
    ||| code == KeyCode::Up
    ||| code == KeyCode::Down
    ||| code == KeyCode::PageUp
    ||| code == KeyCode::PageDown
    ||| code == KeyCode::Home
    ||| code == KeyCode::End
}

/// What the caller must do after `event` when `selected` has the focus.
pub open spec fn action_for(selected: SelectedWidget, event: InputEvent) -> InputAction {
    match event {
        InputEvent::Key { code, control } => {
            if is_quit(event) {
                InputAction::Nothing
            } else if code == KeyCode::Enter && selected == SelectedWidget::TextArea {
                InputAction::Submit
            } else if is_scroll_key(code) && selected == SelectedWidget::MessageHistory {
                InputAction::Nothing
            } else if selected == SelectedWidget::TextArea {
                InputAction::ForwardKey
            } else {
                InputAction::Nothing
            }
        },
        _ => InputAction::Nothing,
    }
}

/// The scroll offset after a key that moves the history view.
pub open spec fn scrolled_by_key(offset: u16, page: u16, bottom: u16, code: KeyCode) -> u16 {
    match code {
        KeyCode::Up => offset.saturating_sub(1),
        KeyCode::Down => offset.saturating_add(1),
        KeyCode::PageUp => offset.saturating_add(1).saturating_sub(page),
        KeyCode::PageDown => offset.saturating_add(page).saturating_sub(1),
        KeyCode::Home => 0,
        KeyCode::End => bottom,
        _ => offset,
    }
}

/// The text of the status line while a reply is awaited.
pub open spec fn thinking_text() -> Seq<char> {
    seq!['T', 'h', 'i', 'n', 'k', 'i', 'n', 'g', '.', '.', '.']
}

/// The prefix of the status line that reports an agent error.
pub open spec fn agent_error_prefix() -> Seq<char> {
    seq!['A', 'g', 'e', 'n', 't', ' ', 'e', 'r', 'r', 'o', 'r', ':', ' ']
}

/// Only Control-C quits: a key event asks to exit exactly when it is the
/// character `c` with Control held; no other key, with any modifiers, and
/// no mouse or other event does.
pub proof fn lemma_only_control_c_quits(event: InputEvent)
    ensures
        is_quit(event) <==> event == (InputEvent::Key { code: KeyCode::Char('c'), control: true }),
        event matches InputEvent::Key { code: KeyCode::Char(ch), control } && ch != 'c'
            ==> !is_quit(event),
{
}

/// While the text area has the focus, Control-C quits and nothing else
/// happens, Enter submits, and every other key, whatever its code and
/// modifiers, goes to the text area. No key moves the history there.
pub proof fn lemma_text_area_key_routing(app: App, code: KeyCode, control: bool)
    requires
        app.selected_widget == SelectedWidget::TextArea,
    ensures
        ({
            let event = InputEvent::Key { code, control };
            &&& (code == KeyCode::Char('c') && control) ==> action_for(app.selected_widget, event)
                == InputAction::Nothing
            &&& (code == KeyCode::Enter && !(code == KeyCode::Char('c') && control)) ==> action_for(
                app.selected_widget,
                event,
            ) == InputAction::Submit
            &&& (code != KeyCode::Enter && !(code == KeyCode::Char('c') && control)) ==> action_for(
                app.selected_widget,
                event,
            ) == InputAction::ForwardKey
            &&& app.scroll_after(event) == app.scroll_offset
            &&& app.selected_after(event) == app.selected_widget
        }),
{
}

/// While the history has the focus, no key goes to the text area and none
/// submits; Up moves one row up and Down one row down, stopping at the
/// ends of the `u16` range; a page up or down moves one page less one row
/// (so it never moves the other way while a page has a row, except that a
/// page down from the very last `u16` row gives back one row, as the
/// saturating sum does);
/// Home goes to the first row and End to the bottom; any other key leaves
/// the offset alone.
pub proof fn lemma_history_key_scrolling(app: App, code: KeyCode, control: bool)
    requires
        app.selected_widget == SelectedWidget::MessageHistory,
        !(code == KeyCode::Char('c') && control),
    ensures
        ({
            let event = InputEvent::Key { code, control };
            let o = app.scroll_offset as int;
            let p = app.page_rows() as int;
            let r = app.scroll_after(event) as int;
            &&& action_for(app.selected_widget, event) == InputAction::Nothing
            &&& code == KeyCode::Up ==> r == if o == 0 {
                0
            } else {
                o - 1
            }
            &&& code == KeyCode::Up ==> r <= o
            &&& code == KeyCode::Down ==> r == if o == 65535 {
                o
            } else {
                o + 1
            }
            &&& code == KeyCode::Down ==> r >= o
            &&& code == KeyCode::PageDown ==> r == if o + p > 65535 {
                65534
            } else if o + p == 0 {
                0
            } else {
                o + p - 1
            }
            &&& code == KeyCode::PageDown && p >= 1 && o < 65535 ==> r >= o
            &&& code == KeyCode::PageUp ==> r == if o + 1 > 65535 {
                if 65535 >= p { 65535 - p } else { 0 }
            } else if o + 1 >= p {
                o + 1 - p
            } else {
                0
            }
            &&& code == KeyCode::PageUp && p >= 1 ==> r <= o
            &&& code == KeyCode::Home ==> r == 0
            &&& code == KeyCode::End ==> r == app.bottom_offset()
            &&& app.message_history_area matches Some(a) ==> p == a.height
            &&& app.message_history_area is None ==> p == 1
            &&& !is_scroll_key(code) ==> r == o
        }),
{}

/// Scrolling to the end and then bringing the offset back within the
/// transcript, as the next layout does, lands on the last page: the end is
/// never short of the largest offset the transcript allows.
pub proof fn lemma_end_reaches_last_page(app: App)
    requires
        app.viewport() >= 1,
    ensures
        app.bottom_offset() >= app.cached_height().saturating_sub(app.viewport()),
{
}

/// With the history focused and room to move, Down then Up comes back to
/// the same row, and so does Up then Down.
pub proof fn lemma_history_up_undoes_down(app: App)
    requires
        app.selected_widget == SelectedWidget::MessageHistory,
    ensures
        ({
            let up = InputEvent::Key { code: KeyCode::Up, control: false };
            let down = InputEvent::Key { code: KeyCode::Down, control: false };
            let after_down = App { scroll_offset: app.scroll_after(down), ..app };
            let after_up = App { scroll_offset: app.scroll_after(up), ..app };
            &&& app.scroll_offset < 65535 ==> after_down.scroll_after(up) == app.scroll_offset
            &&& app.scroll_offset > 0 ==> after_up.scroll_after(down) == app.scroll_offset
        }),
{
}

/// The mouse wheel scrolls the history one row whatever has the focus, a
/// mouse event never quits nor submits, and only a left click moves the
/// focus.
pub proof fn lemma_mouse_events(app: App, kind: MouseKind, column: u16, row: u16)
    ensures
        ({
            let event = InputEvent::Mouse { kind, column, row };
            let o = app.scroll_offset as int;
            let r = app.scroll_after(event) as int;
            &&& !is_quit(event)
            &&& action_for(app.selected_widget, event) == InputAction::Nothing
            &&& kind == MouseKind::ScrollDown ==> r == if o == 65535 {
                o
            } else {
                o + 1
            }
            &&& kind == MouseKind::ScrollUp ==> r == if o == 0 {
                0
            } else {
                o - 1
            }
            &&& kind != MouseKind::ScrollDown && kind != MouseKind::ScrollUp ==> r == o
            &&& kind != MouseKind::LeftDown ==> app.selected_after(event) == app.selected_widget
            &&& kind == MouseKind::LeftDown ==> app.selected_after(event) == app.selected_after_click(
                column,
                row,
            )
        }),
{
}

/// A click gives the focus to the widget whose area holds the clicked cell,
/// the history first; a click that neither area holds leaves the focus where
/// it was, so the text area gets the focus only from a click inside it and
/// the history only from a click inside the history.
pub proof fn lemma_click_focus(app: App, x: u16, y: u16)
    ensures
        ({
            let in_history = app.message_history_area matches Some(a) && a.holds(x, y);
            let in_text = app.text_area_area matches Some(a) && a.holds(x, y);
            let r = app.selected_after_click(x, y);
            &&& in_history ==> r == SelectedWidget::MessageHistory
            &&& !in_history && in_text ==> r == SelectedWidget::TextArea
            &&& !in_history && !in_text ==> r == app.selected_widget
            &&& r == SelectedWidget::TextArea ==> in_text || app.selected_widget
                == SelectedWidget::TextArea
            &&& r == SelectedWidget::MessageHistory ==> in_history || app.selected_widget
                == SelectedWidget::MessageHistory
        }),
{
}

/// A cell lies in an area exactly when it is at or right of its left edge,
/// left of its right edge, at or below its top edge and above its bottom
/// edge, the right and bottom edges stopping at the last cell a `u16` counts.
pub proof fn lemma_area_holds(area: Area, x: u16, y: u16)
    ensures
        area.holds(x, y) <==> (area.x <= x && (x as int) < (if area.x + area.width > 65535 {
            65535
        } else {
            area.x + area.width
        }) && area.y <= y && (y as int) < (if area.y + area.height > 65535 {
            65535
        } else {
            area.y + area.height
        })),
{
}

impl App {
    /// The number of rows a page scroll moves: the history view's height once
    /// it is laid out, one row before.
    pub open spec fn page_rows(&self) -> u16 {
        match self.message_history_area {
            Some(area) => area.height,
            None => 1,
        }
    }

    /// The offset that scrolling to the end gives: the last row of the
    /// transcript as last laid out, or `u16::MAX` while the history has not
    /// been laid out and its size is unknown.
    pub open spec fn bottom_offset(&self) -> u16 {
        match self.message_history_area {
            Some(_) => self.cached_height().saturating_sub(1),
            None => u16::MAX,
        }
    }

    /// The widget that a click at column `x` and row `y` gives the focus to:
    /// the history if it holds the cell, else the text area if it holds it,
    /// else the widget that has it now.
    pub open spec fn selected_after_click(&self, x: u16, y: u16) -> SelectedWidget {
        if self.message_history_area matches Some(area) && area.holds(x, y) {
            SelectedWidget::MessageHistory
        } else if self.text_area_area matches Some(area) && area.holds(x, y) {
            SelectedWidget::TextArea
        } else {
            self.selected_widget
        }
    }

    /// The scroll offset after `event`.
    pub open spec fn scroll_after(&self, event: InputEvent) -> u16 {
        match event {
            InputEvent::Key { code, control } => {
                if !is_quit(event) && is_scroll_key(code) && self.selected_widget
                    == SelectedWidget::MessageHistory {
                    scrolled_by_key(self.scroll_offset, self.page_rows(), self.bottom_offset(), code)
                } else {
                    self.scroll_offset
                }
            },
            InputEvent::Mouse { kind, column, row } => match kind {
                MouseKind::ScrollDown => self.scroll_offset.saturating_add(1),
                MouseKind::ScrollUp => self.scroll_offset.saturating_sub(1),
                _ => self.scroll_offset,
            },
            InputEvent::Other => self.scroll_offset,
        }
    }

    /// The focused widget after `event`.
    pub open spec fn selected_after(&self, event: InputEvent) -> SelectedWidget {
        match event {
            InputEvent::Mouse { kind: MouseKind::LeftDown, column, row } => self.selected_after_click(
                column,
                row,
            ),
            _ => self.selected_widget,
        }
    }

    /// Gives the focus to the widget under the cell at column `x` and row `y`.
    pub fn set_selected_widget_from_position(&mut self, x: u16, y: u16)
        ensures
            final(self).selected_widget == old(self).selected_after_click(x, y),
            final(self).exit == old(self).exit,
            final(self).messages == old(self).messages,
            final(self).scroll_offset == old(self).scroll_offset,
            final(self).is_generating == old(self).is_generating,
            final(self).status == old(self).status,
            final(self).model == old(self).model,
            final(self).message_history_area == old(self).message_history_area,
            final(self).text_area_area == old(self).text_area_area,
            final(self).cached_lines == old(self).cached_lines,
            final(self).cached_width == old(self).cached_width,
            final(self).cached_msg_count == old(self).cached_msg_count,
    {
        if let Some(area) = self.message_history_area {
            if area.contains(x, y) {
                self.selected_widget = SelectedWidget::MessageHistory;
                return;
            }
        }
        if let Some(area) = self.text_area_area {
            if area.contains(x, y) {
                self.selected_widget = SelectedWidget::TextArea;
            }
        }
    }

    /// Scrolls the history one row up.
    pub fn scroll_up(&mut self)
        ensures
            final(self).scroll_offset == old(self).scroll_offset.saturating_sub(1),
            *final(self) == (App { scroll_offset: final(self).scroll_offset, ..*old(self) }),
    {
        self.scroll_offset = self.scroll_offset.saturating_sub(1);
    }

    /// Scrolls the history one row down.
    pub fn scroll_down(&mut self)
        ensures
            final(self).scroll_offset == old(self).scroll_offset.saturating_add(1),
            *final(self) == (App { scroll_offset: final(self).scroll_offset, ..*old(self) }),
    {
        self.scroll_offset = self.scroll_offset.saturating_add(1);
    }

    /// The rows a page scroll moves.
    fn page_size(&self) -> (rows: u16)
        ensures
            rows == self.page_rows(),
    {
        match self.message_history_area {
            Some(area) => area.height,
            None => 1,
        }
    }

    /// Scrolls the history one page up, keeping one row of overlap.
    pub fn scroll_page_up(&mut self)
        ensures
            final(self).scroll_offset == old(self).scroll_offset.saturating_add(1).saturating_sub(
                old(self).page_rows(),
            ),
            *final(self) == (App { scroll_offset: final(self).scroll_offset, ..*old(self) }),
    {
        let page: u16 = self.page_size();
        self.scroll_offset = self.scroll_offset.saturating_add(1).saturating_sub(page);
    }

    /// Scrolls the history one page down, keeping one row of overlap.
    pub fn scroll_page_down(&mut self)
        ensures
            final(self).scroll_offset == old(self).scroll_offset.saturating_add(
                old(self).page_rows(),
            ).saturating_sub(1),
            *final(self) == (App { scroll_offset: final(self).scroll_offset, ..*old(self) }),
    {
        let page: u16 = self.page_size();
        self.scroll_offset = self.scroll_offset.saturating_add(page).saturating_sub(1);
    }

    /// Scrolls the history to its first row.
    pub fn scroll_to_top(&mut self)
        ensures
            final(self).scroll_offset == 0,
            *final(self) == (App { scroll_offset: 0, ..*old(self) }),
    {
        self.scroll_offset = 0;
    }

    /// Scrolls the history to its last row as last laid out, or past its end
    /// before the history was laid out; the next layout brings the offset
    /// back within the transcript.
    pub fn scroll_to_bottom(&mut self)
        ensures
            final(self).scroll_offset == old(self).bottom_offset(),
            *final(self) == (App { scroll_offset: old(self).bottom_offset(), ..*old(self) }),
    {
        let bottom: u16 = match self.message_history_area {
            Some(_) => App::get_height(self).saturating_sub(1),
            None => u16::MAX,
        };
        self.scroll_offset = bottom;
    }

    /// Brings the scroll offset back within the transcript.
    pub fn clamp_scroll(&mut self)
        ensures
            final(self).scroll_offset == if old(self).scroll_offset <= old(self).cached_height().saturating_sub(old(self).viewport()) {
                old(self).scroll_offset
            } else {
                old(self).cached_height().saturating_sub(old(self).viewport())
            },
            *final(self) == (App { scroll_offset: final(self).scroll_offset, ..*old(self) }),
    {
        let max: u16 = self.get_max_scroll();
        if self.scroll_offset > max {
            self.scroll_offset = max;
        }
    }

    /// Acts on a terminal event: Control-C asks to exit; keys that move the
    /// history move it while it has the focus; Enter in the text area asks
    /// the caller to submit the input; other keys go to the text area while
    /// it has the focus; a left click moves the focus; the mouse wheel always
    /// scrolls the history.
    pub fn handle_event(&mut self, event: InputEvent) -> (action: InputAction)
        ensures
            action == action_for(old(self).selected_widget, event),
            final(self).exit == (old(self).exit || is_quit(event)),
            final(self).scroll_offset == old(self).scroll_after(event),
            final(self).selected_widget == old(self).selected_after(event),
            final(self).messages == old(self).messages,
            final(self).is_generating == old(self).is_generating,
            final(self).status == old(self).status,
            final(self).model == old(self).model,
            final(self).message_history_area == old(self).message_history_area,
            final(self).text_area_area == old(self).text_area_area,
            final(self).cached_lines == old(self).cached_lines,
            final(self).cached_width == old(self).cached_width,
            final(self).cached_msg_count == old(self).cached_msg_count,
    {
        match event {
            InputEvent::Key { code, control } => {
                let history = match self.selected_widget {
                    SelectedWidget::MessageHistory => true,
                    SelectedWidget::TextArea => false,
                };
                let quit = match code {
                    KeyCode::Char(c) => c == 'c' && control,
                    _ => false,
                };
                if quit {
                    self.exit = true;
                    return InputAction::Nothing;
                }
                match code {
                    KeyCode::Enter => {
                        if !history {
                            return InputAction::Submit;
                        }
                    },
                    KeyCode::Up => {
                        if history {
                            self.scroll_up();
                            return InputAction::Nothing;
                        }
                    },
                    KeyCode::Down => {
                        if history {
                            self.scroll_down();
                            return InputAction::Nothing;
                        }
                    },
                    KeyCode::PageUp => {
                        if history {
                            self.scroll_page_up();
                            return InputAction::Nothing;
                        }
                    },
                    KeyCode::PageDown => {
                        if history {
                            self.scroll_page_down();
                            return InputAction::Nothing;
                        }
                    },
                    KeyCode::Home => {
                        if history {
                            self.scroll_to_top();
                            return InputAction::Nothing;
                        }
                    },
                    KeyCode::End => {
                        if history {
                            self.scroll_to_bottom();
                            return InputAction::Nothing;
                        }
                    },
                    _ => {},
                }
                if history {
                    InputAction::Nothing
                } else {
                    InputAction::ForwardKey
                }
            },
            InputEvent::Mouse { kind, column, row } => {
                match kind {
                    MouseKind::LeftDown => self.set_selected_widget_from_position(column, row),
                    _ => {},
                }
                match kind {
                    MouseKind::ScrollDown => self.scroll_down(),
                    MouseKind::ScrollUp => self.scroll_up(),
                    _ => {},
                }
                InputAction::Nothing
            },
            InputEvent::Other => InputAction::Nothing,
        }
    }

    /// Submits the text area's lines, joined by newlines: blank input, or
    /// input while a reply is awaited, is dropped; otherwise it becomes a user
    /// message, the history scrolls to its end, a reply is awaited, and the
    /// prompt to send is returned.
    pub fn submit_input(&mut self, lines: &Vec<String>) -> (prompt: Option<String>)
        ensures
            old(self).wf() ==> final(self).wf(),
            ({
                let input = join_lines(string_views(lines@));
                &&& prompt is Some <==> submit_sends(old(self).is_generating, input)
                &&& final(self).is_generating == (old(self).is_generating || !is_blank(input))
                &&& if is_blank(input) || old(self).is_generating {
                    &&& prompt is None
                    &&& *final(self) == *old(self)
                } else {
                    &&& prompt matches Some(p) && p@ == input
                    &&& final(self).messages@.len() == old(self).messages@.len() + 1
                    &&& final(self).messages@.drop_last() == old(self).messages@
                    &&& final(self).messages@.last().author() == Role::User
                    &&& final(self).messages@.last().body() == body_for(Role::User, input)
                    &&& final(self).messages@.last().remembered_height() is None
                    &&& final(self).scroll_offset == old(self).bottom_offset()
                    &&& final(self).is_generating
                    &&& final(self).status matches Some(s) && s@ == thinking_text()
                    &&& final(self).exit == old(self).exit
                    &&& final(self).model == old(self).model
                    &&& final(self).selected_widget == old(self).selected_widget
                    &&& final(self).message_history_area == old(self).message_history_area
                    &&& final(self).text_area_area == old(self).text_area_area
                    &&& final(self).cached_lines == old(self).cached_lines
                    &&& final(self).cached_width == old(self).cached_width
                    &&& final(self).cached_msg_count == old(self).cached_msg_count
                }
            }),
    {
        let input = join_with_newlines(lines);
        if text_is_blank(input.as_str()) || self.is_generating {
            return None;
        }
        let prompt = input.clone();
        self.add_message(Role::User, input);
        self.scroll_to_bottom();
        self.is_generating = true;
        self.status = Some(String::from_str("Thinking..."));
        proof {
            reveal_strlit("Thinking...");
        }
        Some(prompt)
    }

    /// Takes in what the agent task reported: a reply becomes an agent
    /// message, clears the status and scrolls to the end; an error shows in
    /// the status line. Either way no reply is awaited any more.
    pub fn apply_agent_event(&mut self, event: AgentEvent)
        ensures
            old(self).wf() ==> final(self).wf(),
            !final(self).is_generating,
            final(self).exit == old(self).exit,
            final(self).model == old(self).model,
            final(self).selected_widget == old(self).selected_widget,
            final(self).message_history_area == old(self).message_history_area,
            final(self).text_area_area == old(self).text_area_area,
            final(self).cached_lines == old(self).cached_lines,
            final(self).cached_width == old(self).cached_width,
            final(self).cached_msg_count == old(self).cached_msg_count,
            match event {
                AgentEvent::Response(reply) => {
                    &&& final(self).messages@.len() == old(self).messages@.len() + 1
                    &&& final(self).messages@.drop_last() == old(self).messages@
                    &&& final(self).messages@.last().author() == Role::Agent
                    &&& final(self).messages@.last().body() == body_for(Role::Agent, reply@)
                    &&& final(self).messages@.last().remembered_height() is None
                    &&& final(self).status is None
                    &&& final(self).scroll_offset == old(self).bottom_offset()
                },
                AgentEvent::Error(error) => {
                    &&& final(self).messages == old(self).messages
                    &&& final(self).status matches Some(s) && s@ == agent_error_prefix() + error@
                    &&& final(self).scroll_offset == old(self).scroll_offset
                },
            },
    {
        match event {
            AgentEvent::Response(reply) => {
                self.add_message(Role::Agent, reply);
                self.is_generating = false;
                self.status = None;
                self.scroll_to_bottom();
            },
            AgentEvent::Error(error) => {
                let mut status = String::from_str("Agent error: ");
                status.append(error.as_str());
                proof {
                    reveal_strlit("Agent error: ");
                }
                self.status = Some(status);
                self.is_generating = false;
            },
        }
    }
}

impl App {
    /// Whether every message is consistent and the cached lines are the
    /// transcript they claim to be: what the state's methods keep, checked.
    pub fn is_consistent(&self) -> (res: bool)
        ensures
            res == self.wf(),
    {
        let mut i: usize = 0;
        while i < self.messages.len()
            invariant
                0 <= i <= self.messages@.len(),
                forall|j: int| 0 <= j < i ==> (#[trigger] self.messages@[j]).wf(),
            decreases self.messages@.len() - i,
        {
            if !self.messages[i].is_consistent() {
                return false;
            }
            i = i + 1;
        }
        if self.cached_msg_count > self.messages.len() {
            return false;
        }
        let expected = transcript_lines(&self.messages, self.cached_msg_count, self.cached_width);
        if expected.len() != self.cached_lines.len() {
            proof {
                assert(line_views(expected@).len() != line_views(self.cached_lines@).len());
            }
            return false;
        }
        let mut k: usize = 0;
        while k < expected.len()
            invariant
                0 <= k <= expected@.len(),
                expected@.len() == self.cached_lines@.len(),
                line_views(expected@) == transcript(
                    entries(self.messages@).take(self.cached_msg_count as int),
                    self.cached_width,
                ),
                forall|j: int| 0 <= j < k ==> (#[trigger] expected@[j])@ == self.cached_lines@[j]@,
            decreases expected@.len() - k,
        {
            let same = expected[k].style == self.cached_lines[k].style && expected[k].text
                == self.cached_lines[k].text;
            if !same {
                proof {
                    assert(line_views(expected@)[k as int] != line_views(self.cached_lines@)[k as int]);
                }
                return false;
            }
            k = k + 1;
        }
        proof {
            assert(line_views(expected@) =~= line_views(self.cached_lines@));
        }
        true
    }
}

/// The transcript lines of a message by `role` whose text wrapped into the
/// given lines: its heading, those lines, and an empty line.
pub fn block_lines(role: Role, wrapped: &Vec<String>) -> (lines: Vec<TranscriptLine>)
    ensures
        line_views(lines@) == block_from_lines(role, string_views(wrapped@)),
{
    let ghost wrapped_views = string_views(wrapped@);
    let mut lines: Vec<TranscriptLine> = Vec::new();
    lines.push(heading_line(role));
    proof {
        assert(line_views(lines@) =~= seq![(LineStyle::Heading(role), heading_text(role))]);
    }
    let mut k: usize = 0;
    while k < wrapped.len()
        invariant
            0 <= k <= wrapped@.len(),
            string_views(wrapped@) == wrapped_views,
            line_views(lines@) == seq![(LineStyle::Heading(role), heading_text(role))]
                + wrapped_views.take(k as int).map_values(|l: Seq<char>| (LineStyle::Plain, l)),
        decreases wrapped@.len() - k,
    {
        let ghost prev = line_views(lines@);
        lines.push(TranscriptLine { style: LineStyle::Plain, text: wrapped[k].clone() });
        proof {
            assert(line_views(lines@) =~= prev.push((LineStyle::Plain, wrapped@[k as int]@)));
            assert(wrapped_views[k as int] == wrapped@[k as int]@);
            assert(wrapped_views.take(k + 1) =~= wrapped_views.take(k as int).push(
                wrapped@[k as int]@,
            ));
            assert(line_views(lines@) =~= seq![(LineStyle::Heading(role), heading_text(role))]
                + wrapped_views.take(k + 1).map_values(|l: Seq<char>| (LineStyle::Plain, l)));
        }
        k = k + 1;
    }
    let ghost prev = line_views(lines@);
    lines.push(TranscriptLine { style: LineStyle::Plain, text: String::new() });
    proof {
        assert(line_views(lines@) =~= prev.push((LineStyle::Plain, Seq::<char>::empty())));
        assert(wrapped_views.take(wrapped@.len() as int) =~= wrapped_views);
        assert(line_views(lines@) =~= block_from_lines(role, wrapped_views));
    }
    lines
}

/// The transcript lines of the first `count` messages at `width`.
fn transcript_lines(messages: &Vec<CliMessage>, count: usize, width: u16) -> (lines: Vec<
    TranscriptLine,
>)
    requires
        count <= messages@.len(),
    ensures
        line_views(lines@) == transcript(entries(messages@).take(count as int), width),
{
    let ghost es = entries(messages@);
    let mut lines: Vec<TranscriptLine> = Vec::new();
    let mut i: usize = 0;
    while i < count
        invariant
            0 <= i <= count,
            count <= messages@.len(),
            es == entries(messages@),
            line_views(lines@) == transcript(es.take(i as int), width),
        decreases count - i,
    {
        proof {
            lemma_transcript_step(es, i as int, width);
        }
        let ghost before = line_views(lines@);
        let role = messages[i].role();
        let content = messages[i].get_content();
        let wrapped = wrap_text(content.as_str(), width as usize);
        let mut block = block_lines(role, &wrapped);
        let ghost block_views = line_views(block@);
        lines.append(&mut block);
        proof {
            assert(line_views(lines@) =~= before + block_views);
            assert(es[i as int] == (role, content@));
        }
        i = i + 1;
    }
    lines
}

fn role_label_str(role: Role) -> (res: &'static str)
    ensures
        res@ == role_label(role),
{
    proof {
        reveal_strlit("User");
        reveal_strlit("Agent");
        reveal_strlit("System");
    }
    match role {
        Role::User => "User",
        Role::Agent => "Agent",
        Role::System => "System",
    }
}

/// The heading line of a message by `role`.
fn heading_line(role: Role) -> (res: TranscriptLine)
    ensures
        res@ == (LineStyle::Heading(role), heading_text(role)),
{
    let mut text = String::new();
    text.append("── ");
    text.append(role_label_str(role));
    text.append(" ");
    text.append("────────────────────");
    proof {
        reveal_strlit("── ");
        reveal_strlit(" ");
        reveal_strlit("────────────────────");
        assert(text@ =~= heading_text(role));
    }
    TranscriptLine { style: LineStyle::Heading(role), text }
}

} // verus!
