//! Chat messages as the interface holds them: who wrote them, what they
//! hold, and how tall they are once wrapped.

use crate::text::{join_lines, join_with_newlines, string_views, textwrap_lines, wrap_text};
use vstd::prelude::*;

verus! {

/// Who wrote a message.
#[derive(Clone, Copy, Debug, PartialEq, Eq, Structural)]
pub enum Role {
    User,
    Agent,
    System,
}

/// One item of a tool result.
#[derive(Debug)]
pub enum ToolResultPart {
    Text(String),
    /// An image or a JSON value: nothing the transcript shows.
    Other,
}

/// One item of what the user sent.
#[derive(Debug)]
pub enum UserPart {
    Text(String),
    ToolResult(Vec<ToolResultPart>),
    /// An image, audio, video or document: nothing the transcript shows.
    Media,
}

/// One item of what the assistant answered.
#[derive(Debug)]
pub enum AssistantPart {
    Text(String),
    /// The text that the reasoning block displays.
    Reasoning(String),
    /// A tool call, an image or a provider-specific block.
    Other,
}

/// The content of a chat message, by kind.
#[allow(inconsistent_fields)]
#[derive(Debug)]
pub enum MessageBody {
    System { content: String },
    User { content: Vec<UserPart> },
    Assistant { content: Vec<AssistantPart> },
}

/// The mathematical value of a [`UserPart`].
pub enum UserPartView {
    Text(Seq<char>),
    ToolResult(Seq<Option<Seq<char>>>),
    Media,
}

/// The mathematical value of an [`AssistantPart`].
pub enum AssistantPartView {
    Text(Seq<char>),
    Reasoning(Seq<char>),
    Other,
}

/// The mathematical value of a [`MessageBody`].
pub enum MessageBodyView {
    System(Seq<char>),
    User(Seq<UserPartView>),
    Assistant(Seq<AssistantPartView>),
}

impl DeepView for ToolResultPart {
    type V = Option<Seq<char>>;

    open spec fn deep_view(&self) -> Option<Seq<char>> {
        match self {
            ToolResultPart::Text(t) => Some(t@),
            ToolResultPart::Other => None,
        }
    }
}

impl DeepView for UserPart {
    type V = UserPartView;

    open spec fn deep_view(&self) -> UserPartView {
        match self {
            UserPart::Text(t) => UserPartView::Text(t@),
            UserPart::ToolResult(parts) => UserPartView::ToolResult(parts.deep_view()),
            UserPart::Media => UserPartView::Media,
        }
    }
}

impl DeepView for AssistantPart {
    type V = AssistantPartView;

    open spec fn deep_view(&self) -> AssistantPartView {
        match self {
            AssistantPart::Text(t) => AssistantPartView::Text(t@),
            AssistantPart::Reasoning(t) => AssistantPartView::Reasoning(t@),
            AssistantPart::Other => AssistantPartView::Other,
        }
    }
}

impl DeepView for MessageBody {
    type V = MessageBodyView;

    open spec fn deep_view(&self) -> MessageBodyView {
        match self {
            MessageBody::System { content } => MessageBodyView::System(content@),
            MessageBody::User { content } => MessageBodyView::User(content.deep_view()),
            MessageBody::Assistant { content } => MessageBodyView::Assistant(content.deep_view()),
        }
    }
}

/// The present values of `items`, in order.
pub open spec fn present(items: Seq<Option<Seq<char>>>) -> Seq<Seq<char>>
    decreases items.len(),
{
    if items.len() == 0 {
        Seq::empty()
    } else {
        let rest = present(items.drop_last());
        match items.last() {
            Some(t) => rest.push(t),
            None => rest,
        }
    }
}

/// A text that counts only when it is not empty.
pub open spec fn non_empty(t: Seq<char>) -> Option<Seq<char>> {
    if t.len() == 0 {
        None
    } else {
        Some(t)
    }
}

/// The text that a user item contributes to the transcript, if any.
pub open spec fn user_part_text(part: UserPartView) -> Option<Seq<char>> {
    match part {
        UserPartView::Text(t) => Some(t),
        UserPartView::ToolResult(items) => non_empty(join_lines(present(items))),
        UserPartView::Media => None,
    }
}

/// The text that an assistant item contributes to the transcript, if any.
pub open spec fn assistant_part_text(part: AssistantPartView) -> Option<Seq<char>> {
    match part {
        AssistantPartView::Text(t) => Some(t),
        AssistantPartView::Reasoning(t) => non_empty(t),
        AssistantPartView::Other => None,
    }
}

/// The text of a message as the transcript shows it: the pieces that its
/// items contribute, one per line.
pub open spec fn message_text(body: MessageBodyView) -> Seq<char> {
    match body {
        MessageBodyView::System(t) => t,
        MessageBodyView::User(parts) => join_lines(
            present(parts.map_values(|p: UserPartView| user_part_text(p))),
        ),
        MessageBodyView::Assistant(parts) => join_lines(
            present(parts.map_values(|p: AssistantPartView| assistant_part_text(p))),
        ),
    }
}

proof fn lemma_present_step(items: Seq<Option<Seq<char>>>, i: int)
    requires
        0 <= i < items.len(),
    ensures
        present(items.take(i + 1)) == match items[i] {
            Some(t) => present(items.take(i)).push(t),
            None => present(items.take(i)),
        },
{
    assert(items.take(i + 1).drop_last() =~= items.take(i));
}

/// The text of the present text items of a tool result, one per line.
fn tool_result_text(parts: &Vec<ToolResultPart>) -> (res: String)
    ensures
        res@ == join_lines(present(parts.deep_view())),
{
    let ghost items = parts.deep_view();
    let mut pieces: Vec<String> = Vec::new();
    let mut i: usize = 0;
    while i < parts.len()
        invariant
            0 <= i <= parts.len(),
            items == parts.deep_view(),
            string_views(pieces@) == present(items.take(i as int)),
        decreases parts.len() - i,
    {
        proof {
            lemma_present_step(items, i as int);
        }
        match &parts[i] {
            ToolResultPart::Text(t) => {
                pieces.push(t.clone());
                proof {
                    assert(string_views(pieces@) =~= present(items.take(i as int)).push(t@));
                }
            },
            ToolResultPart::Other => {},
        }
        i = i + 1;
    }
    proof {
        assert(items.take(parts.len() as int) =~= items);
    }
    join_with_newlines(&pieces)
}

/// The transcript text of a user message.
fn user_text(parts: &Vec<UserPart>) -> (res: String)
    ensures
        res@ == join_lines(
            present(parts.deep_view().map_values(|p: UserPartView| user_part_text(p))),
        ),
{
    let ghost items = parts.deep_view().map_values(|p: UserPartView| user_part_text(p));
    let mut pieces: Vec<String> = Vec::new();
    let mut i: usize = 0;
    while i < parts.len()
        invariant
            0 <= i <= parts.len(),
            items == parts.deep_view().map_values(|p: UserPartView| user_part_text(p)),
            string_views(pieces@) == present(items.take(i as int)),
        decreases parts.len() - i,
    {
        proof {
            lemma_present_step(items, i as int);
        }
        match &parts[i] {
            UserPart::Text(t) => {
                pieces.push(t.clone());
                proof {
                    assert(string_views(pieces@) =~= present(items.take(i as int)).push(t@));
                }
            },
            UserPart::ToolResult(result) => {
                let t = tool_result_text(result);
                if !t.as_str().is_empty() {
                    proof {
                        assert(t@.len() > 0);
                    }
                    pieces.push(t);
                    proof {
                        assert(string_views(pieces@) =~= present(items.take(i as int)).push(t@));
                    }
                } else {
                    proof {
                        assert(t@.len() == 0);
                    }
                }
            },
            UserPart::Media => {},
        }
        i = i + 1;
    }
    proof {
        assert(items.take(parts.len() as int) =~= items);
    }
    join_with_newlines(&pieces)
}

/// The transcript text of an assistant message.
fn assistant_text(parts: &Vec<AssistantPart>) -> (res: String)
    ensures
        res@ == join_lines(
            present(parts.deep_view().map_values(|p: AssistantPartView| assistant_part_text(p))),
        ),
{
    let ghost items = parts.deep_view().map_values(|p: AssistantPartView| assistant_part_text(p));
    let mut pieces: Vec<String> = Vec::new();
    let mut i: usize = 0;
    while i < parts.len()
        invariant
            0 <= i <= parts.len(),
            items == parts.deep_view().map_values(|p: AssistantPartView| assistant_part_text(p)),
            string_views(pieces@) == present(items.take(i as int)),
        decreases parts.len() - i,
    {
        proof {
            lemma_present_step(items, i as int);
        }
        match &parts[i] {
            AssistantPart::Text(t) => {
                pieces.push(t.clone());
                proof {
                    assert(string_views(pieces@) =~= present(items.take(i as int)).push(t@));
                }
            },
            AssistantPart::Reasoning(t) => {
                if !t.as_str().is_empty() {
                    proof {
                        assert(t@.len() > 0);
                    }
                    pieces.push(t.clone());
                    proof {
                        assert(string_views(pieces@) =~= present(items.take(i as int)).push(t@));
                    }
                } else {
                    proof {
                        assert(t@.len() == 0);
                    }
                }
            },
            AssistantPart::Other => {},
        }
        i = i + 1;
    }
    proof {
        assert(items.take(parts.len() as int) =~= items);
    }
    join_with_newlines(&pieces)
}


/// The body that a message written by `role` with the text `content` has.
pub open spec fn body_for(role: Role, content: Seq<char>) -> MessageBodyView {
    match role {
        Role::User => MessageBodyView::User(seq![UserPartView::Text(content)]),
        Role::Agent => MessageBodyView::Assistant(seq![AssistantPartView::Text(content)]),
        Role::System => MessageBodyView::System(content),
    }
}

/// The role that a message of this kind was written in.
pub open spec fn role_of(body: MessageBodyView) -> Role {
    match body {
        MessageBodyView::User(_) => Role::User,
        MessageBodyView::Assistant(_) => Role::Agent,
        MessageBodyView::System(_) => Role::System,
    }
}

/// How many rows a message of this text takes at this width: its wrapped
/// lines, counted in a `u16` as a cast does, and a border row above and
/// below when there is a border.
pub open spec fn text_height(text: Seq<char>, width: u16, has_border: bool) -> int {
    lines_height(textwrap_lines(text, width as nat).len(), has_border)
}

/// How many rows this many wrapped lines take: their count in a `u16`, as a
/// cast gives it, and a border row above and below when there is a border.
pub open spec fn lines_height(count: nat, has_border: bool) -> int {
    (count as u16) as int + if has_border {
        2int
    } else {
        0int
    }
}

/// The rows that the given wrapped lines take, with or without a border.
pub fn height_of_lines(lines: &Vec<String>, has_border: bool) -> (height: u16)
    requires
        lines_height(lines@.len(), has_border) <= u16::MAX,
    ensures
        height as int == lines_height(lines@.len(), has_border),
{
    let mut height: u16 = lines.len() as u16;
    if has_border {
        height += 2;
    }
    height
}

/// A height remembered for the width and border it was computed for.
#[derive(Clone, Copy, Debug, PartialEq, Eq)]
pub struct HeightCache {
    pub width: u16,
    pub has_border: bool,
    pub height: u16,
}

/// A chat message as the interface keeps it.
#[derive(Debug)]
pub struct CliMessage {
    pub role: Role,
    pub message: MessageBody,
    /// The last height computed, kept so that an unchanged message is not
    /// wrapped again.
    cached_height: Option<HeightCache>,
}

impl CliMessage {
    /// The text that the transcript shows for this message.
    pub open spec fn text(&self) -> Seq<char> {
        message_text(self.body())
    }

    /// Who wrote this message.
    pub closed spec fn author(&self) -> Role {
        self.role
    }

    /// The value of this message's body.
    pub closed spec fn body(&self) -> MessageBodyView {
        self.message.deep_view()
    }

    /// The height remembered for this message, if any.
    pub closed spec fn remembered_height(&self) -> Option<HeightCache> {
        self.cached_height
    }

    /// Who wrote this message.
    pub fn role(&self) -> (res: Role)
        ensures
            res == self.author(),
    {
        self.role
    }

    /// This message's body.
    pub fn message(&self) -> (res: &MessageBody)
        ensures
            res.deep_view() == self.body(),
    {
        &self.message
    }

    /// The height remembered for this message, if any.
    pub fn height_cache(&self) -> (res: Option<HeightCache>)
        ensures
            res == self.remembered_height(),
    {
        self.cached_height
    }

    /// How many rows this message takes at this width.
    pub open spec fn height(&self, width: u16, has_border: bool) -> int {
        text_height(self.text(), width, has_border)
    }

    /// The remembered height, if any, is the height of the current text at
    /// the width and border it was computed for.
    pub closed spec fn wf(&self) -> bool {
        match self.cached_height {
            Some(c) => c.height as int == self.height(c.width, c.has_border),
            None => true,
        }
    }

    /// A message written by `role` with the text `content`.
    pub fn new(role: Role, content: String) -> (res: Self)
        ensures
            res.author() == role,
            res.body() == body_for(role, content@),
            res.remembered_height() is None,
            res.wf(),
    {
        let ghost text = content@;
        let message = match role {
            Role::User => {
                let parts = vec![UserPart::Text(content)];
                assert(parts.deep_view() =~= seq![UserPartView::Text(text)]);
                MessageBody::User { content: parts }
            },
            Role::Agent => {
                let parts = vec![AssistantPart::Text(content)];
                assert(parts.deep_view() =~= seq![AssistantPartView::Text(text)]);
                MessageBody::Assistant { content: parts }
            },
            Role::System => MessageBody::System { content },
        };
        CliMessage { role, message, cached_height: None }
    }

    /// A message with the given body; its role follows from the body's kind.
    pub fn from_message(message: MessageBody) -> (res: Self)
        ensures
            res.author() == role_of(message.deep_view()),
            res.body() == message.deep_view(),
            res.remembered_height() is None,
            res.wf(),
    {
        let role = match &message {
            MessageBody::User { .. } => Role::User,
            MessageBody::Assistant { .. } => Role::Agent,
            MessageBody::System { .. } => Role::System,
        };
        CliMessage { role, message, cached_height: None }
    }

    /// The text that the transcript shows for this message: a system
    /// message's content, or the pieces of text that the items of a user or
    /// assistant message hold, one per line.
    pub fn get_content(&self) -> (res: String)
        ensures
            res@ == self.text(),
    {
        match &self.message {
            MessageBody::System { content } => content.clone(),
            MessageBody::User { content } => user_text(content),
            MessageBody::Assistant { content } => assistant_text(content),
        }
    }
}

impl CliMessage {
    /// The height in rows at this width, or `None` where it does not fit in a
    /// `u16`; the message is then left as it was.
    pub fn checked_height(&mut self, width: u16, has_border: bool) -> (res: Option<u16>)
        requires
            old(self).wf(),
        ensures
            match res {
                Some(h) => h as int == old(self).height(width, has_border),
                None => old(self).height(width, has_border) > u16::MAX && *final(self) == *old(self),
            },
            final(self).author() == old(self).author(),
            final(self).body() == old(self).body(),
            final(self).wf(),
    {
        let rows: u16 = self.wrapped_rows(width);
        if has_border && rows > u16::MAX - 2 {
            return None;
        }
        Some(self.get_height(width, has_border))
    }

    /// Whether the remembered height, if any, is that of the current text.
    pub fn is_consistent(&self) -> (res: bool)
        ensures
            res == self.wf(),
    {
        match self.cached_height {
            None => true,
            Some(c) => {
                let rows: u32 = self.wrapped_rows(c.width) as u32;
                let h: u32 = if c.has_border { rows + 2 } else { rows };
                h == c.height as u32
            },
        }
    }

    /// The number of wrapped lines of the text, counted in a `u16`.
    pub(crate) fn wrapped_rows(&self, width: u16) -> (rows: u16)
        ensures
            rows as int == textwrap_lines(self.text(), width as nat).len() as u16,
    {
        let content = self.get_content();
        let lines = wrap_text(content.as_str(), width as usize);
        proof {
            assert(lines@.len() == textwrap_lines(content@, width as nat).len());
        }
        lines.len() as u16
    }
}

/// A message written by `role` shows exactly the text it was written with,
/// and its body is of the kind that gives back `role`.
pub proof fn lemma_written_text_read_back(role: Role, content: Seq<char>)
    ensures
        message_text(body_for(role, content)) == content,
        role_of(body_for(role, content)) == role,
{
    match role {
        Role::User => {
            let items = seq![UserPartView::Text(content)].map_values(
                |p: UserPartView| user_part_text(p),
            );
            assert(items =~= seq![Some(content)]);
            assert(items.drop_last() =~= Seq::<Option<Seq<char>>>::empty());
            reveal_with_fuel(present, 2);
            assert(present(items) =~= seq![content]);
        },
        Role::Agent => {
            let items = seq![AssistantPartView::Text(content)].map_values(
                |p: AssistantPartView| assistant_part_text(p),
            );
            assert(items =~= seq![Some(content)]);
            assert(items.drop_last() =~= Seq::<Option<Seq<char>>>::empty());
            reveal_with_fuel(present, 2);
            assert(present(items) =~= seq![content]);
        },
        Role::System => {},
    }
}

impl Clone for ToolResultPart {
    fn clone(&self) -> (res: Self)
        ensures
            res.deep_view() == self.deep_view(),
    {
        match self {
            ToolResultPart::Text(t) => ToolResultPart::Text(t.clone()),
            ToolResultPart::Other => ToolResultPart::Other,
        }
    }
}

fn clone_tool_result(parts: &Vec<ToolResultPart>) -> (res: Vec<ToolResultPart>)
    ensures
        res.deep_view() == parts.deep_view(),
{
    let mut res: Vec<ToolResultPart> = Vec::new();
    let mut i: usize = 0;
    while i < parts.len()
        invariant
            0 <= i <= parts.len(),
            res@.len() == i,
            forall|j: int| 0 <= j < i ==> #[trigger] res@[j].deep_view() == parts@[j].deep_view(),
        decreases parts.len() - i,
    {
        let item = parts[i].clone();
        res.push(item);
        i = i + 1;
    }
    proof {
        assert(res.deep_view() =~= parts.deep_view());
    }
    res
}

impl Clone for UserPart {
    fn clone(&self) -> (res: Self)
        ensures
            res.deep_view() == self.deep_view(),
    {
        match self {
            UserPart::Text(t) => UserPart::Text(t.clone()),
            UserPart::ToolResult(parts) => UserPart::ToolResult(clone_tool_result(parts)),
            UserPart::Media => UserPart::Media,
        }
    }
}

impl Clone for AssistantPart {
    fn clone(&self) -> (res: Self)
        ensures
            res.deep_view() == self.deep_view(),
    {
        match self {
            AssistantPart::Text(t) => AssistantPart::Text(t.clone()),
            AssistantPart::Reasoning(t) => AssistantPart::Reasoning(t.clone()),
            AssistantPart::Other => AssistantPart::Other,
        }
    }
}

fn clone_user_parts(parts: &Vec<UserPart>) -> (res: Vec<UserPart>)
    ensures
        res.deep_view() == parts.deep_view(),
{
    let mut res: Vec<UserPart> = Vec::new();
    let mut i: usize = 0;
    while i < parts.len()
        invariant
            0 <= i <= parts.len(),
            res@.len() == i,
            forall|j: int| 0 <= j < i ==> #[trigger] res@[j].deep_view() == parts@[j].deep_view(),
        decreases parts.len() - i,
    {
        let item = parts[i].clone();
        res.push(item);
        i = i + 1;
    }
    proof {
        assert(res.deep_view() =~= parts.deep_view());
    }
    res
}

fn clone_assistant_parts(parts: &Vec<AssistantPart>) -> (res: Vec<AssistantPart>)
    ensures
        res.deep_view() == parts.deep_view(),
{
    let mut res: Vec<AssistantPart> = Vec::new();
    let mut i: usize = 0;
    while i < parts.len()
        invariant
            0 <= i <= parts.len(),
            res@.len() == i,
            forall|j: int| 0 <= j < i ==> #[trigger] res@[j].deep_view() == parts@[j].deep_view(),
        decreases parts.len() - i,
    {
        let item = parts[i].clone();
        res.push(item);
        i = i + 1;
    }
    proof {
        assert(res.deep_view() =~= parts.deep_view());
    }
    res
}

impl Clone for MessageBody {
    fn clone(&self) -> (res: Self)
        ensures
            res.deep_view() == self.deep_view(),
    {
        match self {
            MessageBody::System { content } => MessageBody::System { content: content.clone() },
            MessageBody::User { content } => MessageBody::User {
                content: clone_user_parts(content),
            },
            MessageBody::Assistant { content } => MessageBody::Assistant {
                content: clone_assistant_parts(content),
            },
        }
    }
}

/// The height of things drawn in rows of wrapped text.
pub trait MessageUtils {
    /// Whether `get_height` may be called: the state is consistent and the
    /// height fits in a `u16`.
    spec fn height_fits(&self, width: u16, has_border: bool) -> bool;

    /// The height that `get_height` returns.
    spec fn rendered_height(&self, width: u16, has_border: bool) -> int;

    /// The height in rows at this width, with or without a border.
    fn get_height(&mut self, width: u16, has_border: bool) -> (height: u16)
        requires
            old(self).height_fits(width, has_border),
        ensures
            height as int == old(self).rendered_height(width, has_border),
    ;
}

impl MessageUtils for CliMessage {
    open spec fn height_fits(&self, width: u16, has_border: bool) -> bool {
        self.wf() && self.height(width, has_border) <= u16::MAX
    }

    open spec fn rendered_height(&self, width: u16, has_border: bool) -> int {
        self.height(width, has_border)
    }

    /// Computes the height from the wrapped text, or answers from the height
    /// remembered for the same width and border.
    fn get_height(&mut self, width: u16, has_border: bool) -> (height: u16)
        ensures
            final(self).author() == old(self).author(),
            final(self).body() == old(self).body(),
            final(self).remembered_height() == Some(HeightCache { width, has_border, height }),
            final(self).wf(),
    {
        if let Some(cache) = self.cached_height {
            if cache.width == width && cache.has_border == has_border {
                return cache.height;
            }
        }
        let content = self.get_content();
        let lines = wrap_text(content.as_str(), width as usize);
        proof {
            assert(lines@.len() == textwrap_lines(content@, width as nat).len());
        }
        let height: u16 = height_of_lines(&lines, has_border);
        self.cached_height = Some(HeightCache { width, has_border, height });
        height
    }
}

} // verus!
