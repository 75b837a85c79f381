//! The conversation kept with the AI: messages, bounded by exchange count
//! and by an estimate of their size, with tool calls kept together with
//! their results.
use std::collections::VecDeque;
use vstd::prelude::*;

use crate::text::{sat64, utf8_len, utf8_len_sat};


verus! {

broadcast use vstd::std_specs::vecdeque::group_vec_dequeue_axioms;

/// Size budget, in estimated characters, of the messages sent with a request.
pub const MAX_CHARS: usize = 120000;

/// One call of a tool requested by the assistant.
pub struct ToolCall {
    pub id: String,
    pub name: String,
    pub arguments: String,
}

/// The plain content of a tool call.
pub struct ToolCallView {
    pub id: Seq<char>,
    pub name: Seq<char>,
    pub arguments: Seq<char>,
}

impl View for ToolCall {
    type V = ToolCallView;

    open spec fn view(&self) -> ToolCallView {
        ToolCallView { id: self.id@, name: self.name@, arguments: self.arguments@ }
    }
}

/// Views of a sequence of tool calls.
pub open spec fn tool_calls_view(v: Seq<ToolCall>) -> Seq<ToolCallView> {
    v.map_values(|t: ToolCall| t@)
}

/// The plain content of a message.
pub enum MessageView {
    System { content: Seq<char> },
    User { content: Seq<char> },
    Assistant { content: Option<Seq<char>>, tool_calls: Option<Seq<ToolCallView>> },
    Tool { tool_call_id: Seq<char>, content: Seq<char> },
}

impl ToolCall {
    /// A copy of this tool call.
    pub fn duplicate(&self) -> (r: ToolCall)
        ensures
            r@ == self@,
    {
        ToolCall { id: self.id.clone(), name: self.name.clone(), arguments: self.arguments.clone() }
    }
}

/// A message of the conversation, in the roles that the library sends.
pub enum ChatMessage {
    System { content: String },
    User { content: String },
    Assistant { content: Option<String>, tool_calls: Option<Vec<ToolCall>> },
    Tool { tool_call_id: String, content: String },
}

/// A copy of a list of tool calls.
pub fn duplicate_tool_calls(v: &Vec<ToolCall>) -> (r: Vec<ToolCall>)
    ensures
        tool_calls_view(r@) == tool_calls_view(v@),
{
    let mut r: Vec<ToolCall> = Vec::new();
    let mut i: usize = 0;
    while i < v.len()
        invariant
            i <= v@.len(),
            tool_calls_view(r@) == tool_calls_view(v@.subrange(0, i as int)),
        decreases v@.len() - i,
    {
        let t = v[i].duplicate();
        proof {
            lemma_tool_calls_view_push(r@, t);
            lemma_tool_calls_view_push(v@.subrange(0, i as int), v@[i as int]);
            assert(v@.subrange(0, i as int + 1) =~= v@.subrange(0, i as int).push(v@[i as int]));
        }
        r.push(t);
        i += 1;
    }
    assert(v@.subrange(0, v@.len() as int) == v@);
    r
}

impl View for ChatMessage {
    type V = MessageView;

    open spec fn view(&self) -> MessageView {
        match self {
            ChatMessage::System { content } => MessageView::System { content: content@ },
            ChatMessage::User { content } => MessageView::User { content: content@ },
            ChatMessage::Assistant { content, tool_calls } => MessageView::Assistant {
                content: match content {
                    Some(t) => Some(t@),
                    None => None,
                },
                tool_calls: match tool_calls {
                    Some(v) => Some(tool_calls_view(v@)),
                    None => None,
                },
            },
            ChatMessage::Tool { tool_call_id, content } => MessageView::Tool {
                tool_call_id: tool_call_id@,
                content: content@,
            },
        }
    }
}

/// Views of a sequence of messages.
pub open spec fn messages_view(v: Seq<ChatMessage>) -> Seq<MessageView> {
    v.map_values(|m: ChatMessage| m@)
}

pub proof fn lemma_messages_view_push(s: Seq<ChatMessage>, m: ChatMessage)
    ensures
        messages_view(s.push(m)) == messages_view(s).push(m@),
{
    assert(messages_view(s.push(m)) =~= messages_view(s).push(m@));
}

pub proof fn lemma_messages_view_prefix(s: Seq<ChatMessage>, i: int)
    requires
        0 <= i < s.len(),
    ensures
        messages_view(s.subrange(0, i + 1)) == messages_view(s.subrange(0, i)).push(s[i]@),
        messages_view(s)[i] == s[i]@,
{
    assert(s.subrange(0, i + 1) =~= s.subrange(0, i).push(s[i]));
    lemma_messages_view_push(s.subrange(0, i), s[i]);
}

pub proof fn lemma_tool_calls_view_push(s: Seq<ToolCall>, t: ToolCall)
    ensures
        tool_calls_view(s.push(t)) == tool_calls_view(s).push(t@),
{
    assert(tool_calls_view(s.push(t)) =~= tool_calls_view(s).push(t@));
}

impl ChatMessage {
    /// A copy of this message.
    pub fn duplicate(&self) -> (r: ChatMessage)
        ensures
            r@ == self@,
    {
        match self {
            ChatMessage::System { content } => ChatMessage::System { content: content.clone() },
            ChatMessage::User { content } => ChatMessage::User { content: content.clone() },
            ChatMessage::Assistant { content, tool_calls } => {
                let c = match content {
                    Some(t) => Some(t.clone()),
                    None => None,
                };
                let t = match tool_calls {
                    Some(v) => Some(duplicate_tool_calls(v)),
                    None => None,
                };
                ChatMessage::Assistant { content: c, tool_calls: t }
            },
            ChatMessage::Tool { tool_call_id, content } => ChatMessage::Tool {
                tool_call_id: tool_call_id.clone(),
                content: content.clone(),
            },
        }
    }

}

/// An assistant message that only requests tool calls.
pub open spec fn is_tool_call_request(m: MessageView) -> bool {
    m matches MessageView::Assistant { tool_calls: Some(_), .. }
}

/// A tool-call request with no text beside it.
pub open spec fn is_bare_tool_call_request(m: MessageView) -> bool {
    m matches MessageView::Assistant { tool_calls: Some(_), content: None }
}

/// A tool result.
pub open spec fn is_tool_result(m: MessageView) -> bool {
    m is Tool
}

/// Number of UTF-8 bytes of a text.
pub open spec fn byte_len(s: Seq<char>) -> nat {
    utf8_len(s)
}

/// The size estimate of a list of tool calls.
pub open spec fn tool_calls_estimate(tcs: Seq<ToolCallView>) -> nat
    decreases tcs.len(),
{
    if tcs.len() == 0 {
        0
    } else {
        tool_calls_estimate(tcs.drop_last()) + byte_len(tcs.last().arguments) + byte_len(
            tcs.last().name,
        ) + 50
    }
}

/// The size estimate of one message: the bytes of its text, and for each
/// tool call the bytes of its name and arguments plus 50.
pub open spec fn estimate_spec(m: MessageView) -> nat {
    match m {
        MessageView::System { content } => byte_len(content),
        MessageView::User { content } => byte_len(content),
        MessageView::Assistant { content, tool_calls } => {
            let c = match content {
                Some(t) => byte_len(t),
                None => 0,
            };
            let t = match tool_calls {
                Some(v) => tool_calls_estimate(v),
                None => 0,
            };
            c + t
        },
        MessageView::Tool { content, .. } => byte_len(content),
    }
}

/// The size estimate of a list of messages.
pub open spec fn total_estimate(m: Seq<MessageView>) -> nat
    decreases m.len(),
{
    if m.len() == 0 {
        0
    } else {
        total_estimate(m.drop_last()) + estimate_spec(m.last())
    }
}

/// `m` without its oldest entry; a tool-call request is removed together
/// with the tool result that follows it.
pub open spec fn pop_front_safe_spec(m: Seq<MessageView>) -> Seq<MessageView> {
    if m.len() > 1 && is_tool_call_request(m[0]) {
        let r = m.drop_first();
        if r.len() > 0 && is_tool_result(r[0]) {
            r.drop_first()
        } else {
            r
        }
    } else if m.len() > 0 {
        m.drop_first()
    } else {
        m
    }
}

/// Oldest entries removed until at most `2 * max_exchanges` are left.
pub open spec fn trim_spec(m: Seq<MessageView>, max_exchanges: nat) -> Seq<MessageView>
    decreases m.len(),
{
    if m.len() > 2 * max_exchanges {
        trim_spec(pop_front_safe_spec(m), max_exchanges)
    } else {
        m
    }
}

/// Oldest entries removed while more than two are left and their size
/// estimate exceeds `max_chars`.
pub open spec fn trim_by_size_spec(m: Seq<MessageView>, max_chars: nat) -> Seq<MessageView>
    decreases m.len(),
{
    if m.len() > 2 && total_estimate(m) > max_chars {
        trim_by_size_spec(pop_front_safe_spec(m), max_chars)
    } else {
        m
    }
}

/// Trailing tool results and bare tool-call requests removed.
pub open spec fn without_trailing_orphans(m: Seq<MessageView>) -> Seq<MessageView>
    decreases m.len(),
{
    if m.len() > 0 && (is_tool_result(m.last()) || is_bare_tool_call_request(m.last())) {
        without_trailing_orphans(m.drop_last())
    } else {
        m
    }
}

/// `s` is `m` with some of its first entries removed.
pub open spec fn is_suffix_of(s: Seq<MessageView>, m: Seq<MessageView>) -> bool {
    s.len() <= m.len() && s == m.subrange(m.len() - s.len(), m.len() as int)
}

pub proof fn lemma_pop_front_safe_shrinks(m: Seq<MessageView>)
    ensures
        m.len() > 0 ==> pop_front_safe_spec(m).len() < m.len(),
        m.len() > 0 ==> pop_front_safe_spec(m).len() + 2 >= m.len(),
        is_suffix_of(pop_front_safe_spec(m), m),
{
    let r = pop_front_safe_spec(m);
    if m.len() > 1 && is_tool_call_request(m[0]) {
        let d = m.drop_first();
        if d.len() > 0 && is_tool_result(d[0]) {
            assert(r == m.subrange(2, m.len() as int));
        } else {
            assert(r == m.subrange(1, m.len() as int));
        }
    } else if m.len() > 0 {
        assert(r == m.subrange(1, m.len() as int));
    } else {
        assert(r == m.subrange(0, 0));
    }
}

pub proof fn lemma_suffix_trans(a: Seq<MessageView>, b: Seq<MessageView>, c: Seq<MessageView>)
    requires
        is_suffix_of(a, b),
        is_suffix_of(b, c),
    ensures
        is_suffix_of(a, c),
{
    assert(a =~= c.subrange(c.len() - a.len(), c.len() as int));
}

pub proof fn lemma_trim_bound(m: Seq<MessageView>, max_exchanges: nat)
    ensures
        trim_spec(m, max_exchanges).len() <= 2 * max_exchanges || trim_spec(m, max_exchanges)
            == m,
        trim_spec(m, max_exchanges).len() <= 2 * max_exchanges,
        is_suffix_of(trim_spec(m, max_exchanges), m),
    decreases m.len(),
{
    if m.len() > 2 * max_exchanges {
        lemma_pop_front_safe_shrinks(m);
        lemma_trim_bound(pop_front_safe_spec(m), max_exchanges);
        lemma_suffix_trans(trim_spec(m, max_exchanges), pop_front_safe_spec(m), m);
    } else {
        assert(m == m.subrange(0, m.len() as int));
    }
}

/// Trimming a conversation with room for at least one exchange never
/// empties it.
pub proof fn lemma_trim_keeps_some(m: Seq<MessageView>, max_exchanges: nat)
    requires
        max_exchanges >= 1,
        m.len() >= 1,
    ensures
        trim_spec(m, max_exchanges).len() >= 1,
    decreases m.len(),
{
    if m.len() > 2 * max_exchanges {
        lemma_pop_front_safe_shrinks(m);
        assert(pop_front_safe_spec(m).len() + 2 >= m.len());
        lemma_trim_keeps_some(pop_front_safe_spec(m), max_exchanges);
    }
}

pub proof fn lemma_trim_by_size_bound(m: Seq<MessageView>, max_chars: nat)
    ensures
        trim_by_size_spec(m, max_chars).len() <= 2 || total_estimate(
            trim_by_size_spec(m, max_chars),
        ) <= max_chars,
        is_suffix_of(trim_by_size_spec(m, max_chars), m),
    decreases m.len(),
{
    if m.len() > 2 && total_estimate(m) > max_chars {
        lemma_pop_front_safe_shrinks(m);
        lemma_trim_by_size_bound(pop_front_safe_spec(m), max_chars);
        lemma_suffix_trans(trim_by_size_spec(m, max_chars), pop_front_safe_spec(m), m);
    } else {
        assert(m == m.subrange(0, m.len() as int));
    }
}

/// Saturating count of the bytes of a text.
fn text_size(s: &String) -> (r: u64)
    ensures
        r == sat(byte_len(s@)),
{
    utf8_len_sat(s.as_str())
}

/// `min(x, u64::MAX)`.
pub open spec fn sat(x: nat) -> u64 {
    sat64(x)
}

fn tool_calls_size(tcs: &Vec<ToolCall>) -> (r: u64)
    ensures
        r == sat(tool_calls_estimate(tool_calls_view(tcs@))),
{
    let mut acc: u64 = 0;
    let mut i: usize = 0;
    while i < tcs.len()
        invariant
            i <= tcs@.len(),
            acc == sat(tool_calls_estimate(tool_calls_view(tcs@.subrange(0, i as int)))),
        decreases tcs@.len() - i,
    {
        let ghost p = tool_calls_view(tcs@.subrange(0, i as int + 1));
        assert(p.drop_last() == tool_calls_view(tcs@.subrange(0, i as int)));
        assert(p.last() == tcs@[i as int]@);
        let a = text_size(&tcs[i].arguments);
        let n = text_size(&tcs[i].name);
        acc = acc.saturating_add(a).saturating_add(n).saturating_add(50);
        i += 1;
    }
    assert(tcs@.subrange(0, tcs@.len() as int) == tcs@);
    acc
}

/// The size estimate of one message, saturated at `u64::MAX`.
pub fn estimate_msg_chars(m: &ChatMessage) -> (r: u64)
    ensures
        r == sat(estimate_spec(m@)),
{
    match m {
        ChatMessage::System { content } => text_size(content),
        ChatMessage::User { content } => text_size(content),
        ChatMessage::Assistant { content, tool_calls } => {
            let c = match content {
                Some(t) => text_size(t),
                None => 0,
            };
            let t = match tool_calls {
                Some(v) => tool_calls_size(v),
                None => 0,
            };
            c.saturating_add(t)
        },
        ChatMessage::Tool { content, .. } => text_size(content),
    }
}

/// A conversation with the AI: the messages in order, bounded to
/// `2 * max_exchanges` entries by the pushes that trim.
pub struct ConversationHistory {
    messages: VecDeque<ChatMessage>,
    max_exchanges: usize,
}

impl ConversationHistory {
    /// The messages in order.
    pub closed spec fn view(&self) -> Seq<MessageView> {
        messages_view(self.messages@)
    }

    /// The exchange limit the conversation was made with.
    pub closed spec fn limit(&self) -> nat {
        self.max_exchanges as nat
    }

    /// The limit fits the arithmetic it is used in.
    pub closed spec fn wf(&self) -> bool {
        2 * self.max_exchanges <= usize::MAX
    }

    /// An empty conversation that keeps at most `max_exchanges` exchanges.
    pub fn new(max_exchanges: usize) -> (r: Self)
        requires
            2 * max_exchanges <= usize::MAX,
        ensures
            r@ == Seq::<MessageView>::empty(),
            r.limit() == max_exchanges,
            r.wf(),
    {
        let r = ConversationHistory { messages: VecDeque::new(), max_exchanges };
        assert(r@ =~= Seq::<MessageView>::empty());
        r
    }

    /// The messages in order.
    pub fn messages(&self) -> (r: &VecDeque<ChatMessage>)
        ensures
            messages_view(r@) == self@,
    {
        &self.messages
    }

    /// Appends a user message with the given text, then trims.
    pub fn push_user(&mut self, content: &str)
        requires
            old(self).wf(),
        ensures
            final(self).wf(),
            final(self).limit() == old(self).limit(),
            final(self)@ == trim_spec(
                old(self)@.push(MessageView::User { content: content@ }),
                old(self).limit(),
            ),
            final(self)@.len() <= 2 * old(self).limit(),
    {
        let m = ChatMessage::User { content: content.to_owned() };
        self.push_message(m);
    }

    /// Appends a message, then trims.
    pub fn push_message(&mut self, msg: ChatMessage)
        requires
            old(self).wf(),
        ensures
            final(self).wf(),
            final(self).limit() == old(self).limit(),
            final(self)@ == trim_spec(old(self)@.push(msg@), old(self).limit()),
            final(self)@.len() <= 2 * old(self).limit(),
    {
        let ghost m = msg@;
        self.messages.push_back(msg);
        assert(self@ =~= old(self)@.push(m));
        self.trim();
    }

    /// Appends an assistant message holding the given text, then trims.
    pub fn push_assistant(&mut self, content: &str)
        requires
            old(self).wf(),
        ensures
            final(self).wf(),
            final(self).limit() == old(self).limit(),
            final(self)@ == trim_spec(
                old(self)@.push(MessageView::Assistant { content: Some(content@), tool_calls: None }),
                old(self).limit(),
            ),
            final(self)@.len() <= 2 * old(self).limit(),
    {
        let c = content.to_owned();
        let m = ChatMessage::Assistant { content: Some(c), tool_calls: None };
        self.push_message(m);
    }

    /// Appends an assistant message that requests the given tool calls; it
    /// does not trim, so that the results can follow before anything is dropped.
    pub fn push_assistant_tool_call(&mut self, tool_calls: Vec<ToolCall>)
        ensures
            final(self).limit() == old(self).limit(),
            final(self).wf() == old(self).wf(),
            final(self)@ == old(self)@.push(
                MessageView::Assistant {
                    content: None,
                    tool_calls: Some(tool_calls_view(tool_calls@)),
                },
            ),
    {
        let m = ChatMessage::Assistant { content: None, tool_calls: Some(tool_calls) };
        let ghost mv = m@;
        self.messages.push_back(m);
        assert(self@ =~= old(self)@.push(mv));
    }

    /// Appends the result of a tool call, then trims.
    pub fn push_tool_result(&mut self, tool_call_id: &str, content: &str)
        requires
            old(self).wf(),
        ensures
            final(self).wf(),
            final(self).limit() == old(self).limit(),
            final(self)@ == trim_spec(
                old(self)@.push(MessageView::Tool { tool_call_id: tool_call_id@, content: content@ }),
                old(self).limit(),
            ),
            final(self)@.len() <= 2 * old(self).limit(),
    {
        let m = ChatMessage::Tool { tool_call_id: tool_call_id.to_owned(), content: content.to_owned() };
        self.push_message(m);
    }

    /// Appends restored messages in order, then trims.
    pub fn push_restored(&mut self, msgs: Vec<ChatMessage>)
        requires
            old(self).wf(),
        ensures
            final(self).wf(),
            final(self).limit() == old(self).limit(),
            final(self)@ == trim_spec(old(self)@ + messages_view(msgs@), old(self).limit()),
            final(self)@.len() <= 2 * old(self).limit(),
    {
        let mut i: usize = 0;
        while i < msgs.len()
            invariant
                i <= msgs@.len(),
                self.max_exchanges == old(self).max_exchanges,
                self@ == old(self)@ + messages_view(msgs@.subrange(0, i as int)),
            decreases msgs@.len() - i,
        {
            let m = msgs[i].duplicate();
            proof {
                lemma_messages_view_push(self.messages@, m);
                lemma_messages_view_prefix(msgs@, i as int);
            }
            self.messages.push_back(m);
            i += 1;
        }
        assert(msgs@.subrange(0, msgs@.len() as int) == msgs@);
        self.trim();
    }

    /// The messages to send: the system message first, then the
    /// conversation after dropping its oldest entries while the size
    /// estimate exceeds [`MAX_CHARS`] and more than two are left.
    pub fn build_messages(&mut self, system: ChatMessage) -> (r: Vec<ChatMessage>)
        ensures
            final(self).limit() == old(self).limit(),
            final(self).wf() == old(self).wf(),
            final(self)@ == trim_by_size_spec(old(self)@, MAX_CHARS as nat),
            messages_view(r@) == seq![system@] + final(self)@,
    {
        self.trim_by_size(MAX_CHARS);
        let ghost sv = system@;
        let mut msgs: Vec<ChatMessage> = Vec::new();
        msgs.push(system);
        let mut i: usize = 0;
        while i < self.messages.len()
            invariant
                i <= self@.len(),
                self@.len() == self.messages@.len(),
                messages_view(msgs@) == seq![sv] + self@.subrange(0, i as int),
            decreases self@.len() - i,
        {
            let m = self.messages[i].duplicate();
            proof {
                lemma_messages_view_push(msgs@, m);
                lemma_messages_view_prefix(self.messages@, i as int);
                assert(self@.subrange(0, i as int + 1) =~= self@.subrange(0, i as int).push(self@[i as int]));
            }
            msgs.push(m);
            i += 1;
        }
        assert(self@.subrange(0, self@.len() as int) == self@);
        msgs
    }

    /// Number of messages.
    pub fn len(&self) -> (r: usize)
        ensures
            r == self@.len(),
    {
        self.messages.len()
    }

    /// Removes every message.
    pub fn clear(&mut self)
        ensures
            final(self)@ == Seq::<MessageView>::empty(),
            final(self).limit() == old(self).limit(),
            final(self).wf() == old(self).wf(),
    {
        self.messages.clear();
        assert(self@ =~= Seq::<MessageView>::empty());
    }

    /// Removes tool results and bare tool-call requests from the end, so
    /// that no request is left waiting for a result that will not come.
    pub fn remove_trailing_orphans(&mut self)
        ensures
            final(self)@ == without_trailing_orphans(old(self)@),
            final(self).limit() == old(self).limit(),
            final(self).wf() == old(self).wf(),
    {
        loop
            invariant
                without_trailing_orphans(self@) == without_trailing_orphans(old(self)@),
                self.max_exchanges == old(self).max_exchanges,
            ensures
                self@ == without_trailing_orphans(old(self)@),
                self.max_exchanges == old(self).max_exchanges,
            decreases self@.len(),
        {
            let n = self.messages.len();
            if n == 0 {
                break;
            }
            let orphan = match &self.messages[n - 1] {
                ChatMessage::Assistant { content, tool_calls } => tool_calls.is_some()
                    && content.is_none(),
                ChatMessage::Tool { .. } => true,
                _ => false,
            };
            assert(self@.last() == self.messages@[n - 1]@);
            let ghost before = self@;
            if orphan {
                self.messages.pop_back();
                assert(self@ =~= before.drop_last());
            } else {
                break;
            }
        }
    }

    fn trim(&mut self)
        requires
            old(self).wf(),
        ensures
            final(self).wf(),
            final(self).max_exchanges == old(self).max_exchanges,
            final(self)@ == trim_spec(old(self)@, old(self).limit()),
            final(self)@.len() <= 2 * old(self).limit(),
    {
        proof {
            lemma_trim_bound(self@, self.max_exchanges as nat);
        }
        let limit: usize = self.max_exchanges * 2;
        while self.messages.len() > limit
            invariant
                limit == 2 * old(self).max_exchanges,
                self.max_exchanges == old(self).max_exchanges,
                self@.len() == self.messages@.len(),
                trim_spec(self@, self.max_exchanges as nat) == trim_spec(
                    old(self)@,
                    old(self).max_exchanges as nat,
                ),
            decreases self@.len(),
        {
            proof {
                lemma_pop_front_safe_shrinks(self@);
            }
            self.pop_front_safe();
        }
    }

    fn trim_by_size(&mut self, max_chars: usize)
        requires
            max_chars < u64::MAX,
        ensures
            final(self).max_exchanges == old(self).max_exchanges,
            final(self)@ == trim_by_size_spec(old(self)@, max_chars as nat),
    {
        loop
            invariant
                max_chars < u64::MAX,
                self.max_exchanges == old(self).max_exchanges,
                self@.len() == self.messages@.len(),
                trim_by_size_spec(self@, max_chars as nat) == trim_by_size_spec(
                    old(self)@,
                    max_chars as nat,
                ),
            ensures
                self.max_exchanges == old(self).max_exchanges,
                self@ == trim_by_size_spec(old(self)@, max_chars as nat),
            decreases self@.len(),
        {
            if self.messages.len() <= 2 {
                break;
            }
            let total = self.total_size();
            if total <= max_chars as u64 {
                break;
            }
            proof {
                lemma_pop_front_safe_shrinks(self@);
            }
            self.pop_front_safe();
        }
    }

    /// Size estimate of all messages, saturated at `u64::MAX`.
    fn total_size(&self) -> (r: u64)
        ensures
            r == sat(total_estimate(self@)),
    {
        let mut acc: u64 = 0;
        let mut i: usize = 0;
        while i < self.messages.len()
            invariant
                i <= self@.len(),
                self@.len() == self.messages@.len(),
                acc == sat(total_estimate(self@.subrange(0, i as int))),
            decreases self@.len() - i,
        {
            let ghost p = self@.subrange(0, i as int + 1);
            assert(p.drop_last() == self@.subrange(0, i as int));
            let e = estimate_msg_chars(&self.messages[i]);
            acc = acc.saturating_add(e);
            i += 1;
        }
        assert(self@.subrange(0, self@.len() as int) == self@);
        acc
    }

    fn pop_front_safe(&mut self)
        ensures
            final(self).max_exchanges == old(self).max_exchanges,
            final(self)@ == pop_front_safe_spec(old(self)@),
    {
        let n = self.messages.len();
        let front_is_request = n > 1 && match &self.messages[0] {
            ChatMessage::Assistant { tool_calls, .. } => tool_calls.is_some(),
            _ => false,
        };
        let ghost before = self@;
        if front_is_request {
            self.messages.pop_front();
            assert(self@ =~= before.drop_first());
            let next_is_result = self.messages.len() > 0 && match &self.messages[0] {
                ChatMessage::Tool { .. } => true,
                _ => false,
            };
            if next_is_result {
                let ghost mid = self@;
                self.messages.pop_front();
                assert(self@ =~= mid.drop_first());
            }
            return;
        }
        self.messages.pop_front();
        if n > 0 {
            assert(self@ =~= before.drop_first());
        }
    }
}

} // verus!
