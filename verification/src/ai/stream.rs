//! Turning the pieces of a streamed reply into the reports the router
//! reads: text as it comes, each tool call once its last piece has come,
//! and the end of the reply.
use vstd::prelude::*;

use crate::ai::bridge::{AiResponse, ResponseView};

verus! {

/// A piece of a tool call in a streamed reply: a new call starts with an
/// id; the name and the arguments may come in pieces.
pub struct ToolCallDelta {
    pub id: Option<String>,
    pub name: Option<String>,
    pub arguments: Option<String>,
}

/// The tool call being received.
pub struct ToolCallAssembler {
    id: String,
    name: String,
    arguments: String,
}

/// The plain content of the call being received.
pub struct AssemblerView {
    pub id: Seq<char>,
    pub name: Seq<char>,
    pub arguments: Seq<char>,
}

/// Views of a sequence of reports.
pub open spec fn responses_view(v: Seq<AiResponse>) -> Seq<ResponseView> {
    v.map_values(|r: AiResponse| r@)
}

/// The view of an optional string.
pub open spec fn opt_text(s: Option<String>) -> Option<Seq<char>> {
    match s {
        Some(t) => Some(t@),
        None => None,
    }
}

/// Reading one piece of a tool call: a new id first reports the call
/// received so far, if it has a name, and starts a new one; a name
/// replaces the name, arguments are appended.
pub open spec fn delta_spec(
    a: AssemblerView,
    id: Option<Seq<char>>,
    name: Option<Seq<char>>,
    arguments: Option<Seq<char>>,
) -> (AssemblerView, Seq<ResponseView>) {
    let (a1, out) = match id {
        Some(i) => (
            AssemblerView { id: i, name: Seq::empty(), arguments: Seq::empty() },
            if a.name.len() > 0 {
                seq![ResponseView::ToolCall { id: a.id, name: a.name, arguments: a.arguments }]
            } else {
                Seq::empty()
            },
        ),
        None => (a, Seq::empty()),
    };
    let a2 = match name {
        Some(n) => AssemblerView { name: n, ..a1 },
        None => a1,
    };
    let a3 = match arguments {
        Some(x) => AssemblerView { arguments: a2.arguments + x, ..a2 },
        None => a2,
    };
    (a3, out)
}

/// Reading the pieces of tool calls from index `i` on.
pub open spec fn deltas_spec(
    a: AssemblerView,
    ds: Seq<(Option<Seq<char>>, Option<Seq<char>>, Option<Seq<char>>)>,
) -> (AssemblerView, Seq<ResponseView>)
    decreases ds.len(),
{
    if ds.len() == 0 {
        (a, Seq::empty())
    } else {
        let (a1, o1) = deltas_spec(a, ds.drop_last());
        let (a2, o2) = delta_spec(a1, ds.last().0, ds.last().1, ds.last().2);
        (a2, o1 + o2)
    }
}

/// The plain content of a piece of a tool call.
pub open spec fn delta_view(d: ToolCallDelta) -> (Option<Seq<char>>, Option<Seq<char>>, Option<Seq<char>>) {
    (opt_text(d.id), opt_text(d.name), opt_text(d.arguments))
}

impl ToolCallAssembler {
    /// The call being received.
    pub closed spec fn view(&self) -> AssemblerView {
        AssemblerView { id: self.id@, name: self.name@, arguments: self.arguments@ }
    }

    /// No call received yet.
    pub fn new() -> (r: Self)
        ensures
            r@ == (AssemblerView {
                id: Seq::empty(),
                name: Seq::empty(),
                arguments: Seq::empty(),
            }),
    {
        ToolCallAssembler { id: String::new(), name: String::new(), arguments: String::new() }
    }

    fn apply_delta(&mut self, d: ToolCallDelta, out: &mut Vec<AiResponse>)
        ensures
            (final(self)@, responses_view(final(out)@).skip(old(out)@.len() as int)) == delta_spec(
                old(self)@,
                opt_text(d.id),
                opt_text(d.name),
                opt_text(d.arguments),
            ),
            responses_view(final(out)@).subrange(0, old(out)@.len() as int) == responses_view(
                old(out)@,
            ),
            final(out)@.len() >= old(out)@.len(),
    {
        let ghost n0 = out@.len();
        let ghost before = responses_view(out@);
        match d.id {
            Some(i) => {
                if !self.name.as_str().is_empty() {
                    let mut id = String::new();
                    let mut name = String::new();
                    let mut args = String::new();
                    std::mem::swap(&mut id, &mut self.id);
                    std::mem::swap(&mut name, &mut self.name);
                    std::mem::swap(&mut args, &mut self.arguments);
                    out.push(AiResponse::ToolCall { id, name, arguments: args });
                }
                self.id = i;
                self.name = String::new();
                self.arguments = String::new();
            },
            None => {},
        }
        match d.name {
            Some(n) => {
                self.name = n;
            },
            None => {},
        }
        match d.arguments {
            Some(a) => {
                self.arguments.push_str(a.as_str());
            },
            None => {},
        }
        proof {
            let s = delta_spec(old(self)@, opt_text(d.id), opt_text(d.name), opt_text(d.arguments));
            assert(self@ =~= s.0);
            assert(responses_view(out@).skip(n0 as int) =~= s.1);
            assert(responses_view(out@).subrange(0, n0 as int) =~= before);
        }
    }

    /// Reads one choice of a streamed reply: its text, then the pieces of
    /// its tool calls, returning the reports they complete.
    pub fn on_choice(&mut self, content: Option<String>, deltas: Vec<ToolCallDelta>) -> (r: Vec<
        AiResponse,
    >)
        ensures
            ({
                let (a, o) = deltas_spec(old(self)@, deltas@.map_values(|d: ToolCallDelta| delta_view(d)));
                &&& final(self)@ == a
                &&& responses_view(r@) == match opt_text(content) {
                    Some(t) => seq![ResponseView::Token(t)] + o,
                    None => o,
                }
            }),
    {
        let mut out: Vec<AiResponse> = Vec::new();
        let ghost head = match opt_text(content) {
            Some(t) => seq![ResponseView::Token(t)],
            None => Seq::<ResponseView>::empty(),
        };
        match content {
            Some(t) => out.push(AiResponse::Token(t)),
            None => {},
        }
        assert(responses_view(out@) =~= head);
        let ghost dv = deltas@.map_values(|d: ToolCallDelta| delta_view(d));
        let ghost start = self@;
        let mut deltas = deltas;
        let ghost orig = deltas@;
        let mut k: usize = 0;
        let total = deltas.len();
        while deltas.len() > 0
            invariant
                k + deltas@.len() == total,
                total == dv.len(),
                orig.len() == total,
                deltas@ == orig.skip(k as int),
                dv == orig.map_values(|d: ToolCallDelta| delta_view(d)),
                ({
                    let (a, o) = deltas_spec(start, dv.subrange(0, k as int));
                    self@ == a && responses_view(out@) == head + o
                }),
            decreases deltas@.len(),
        {
            let d = deltas.remove(0);
            let ghost dd = delta_view(d);
            assert(d == orig[k as int]);
            assert(dd == dv[k as int]);
            assert(deltas@ =~= orig.skip(k as int + 1));
            let ghost prev = responses_view(out@);
            self.apply_delta(d, &mut out);
            proof {
                let q = dv.subrange(0, k as int + 1);
                assert(q.drop_last() =~= dv.subrange(0, k as int));
                assert(q.last() == dd);
                let (a1, o1) = deltas_spec(start, dv.subrange(0, k as int));
                let (a2, o2) = delta_spec(a1, dd.0, dd.1, dd.2);
                assert(responses_view(out@) =~= prev + o2) by {
                    assert(responses_view(out@) =~= responses_view(out@).subrange(0, prev.len() as int)
                        + responses_view(out@).skip(prev.len() as int));
                }
                assert(head + o1 + o2 =~= head + (o1 + o2));
            }
            k += 1;
        }
        assert(dv.subrange(0, dv.len() as int) == dv);
        out
    }

    /// The end of the stream: the call received last, if it has a name,
    /// then the end of the reply.
    pub fn finish(self) -> (r: Vec<AiResponse>)
        ensures
            responses_view(r@) == if self@.name.len() > 0 {
                seq![
                    ResponseView::ToolCall {
                        id: self@.id,
                        name: self@.name,
                        arguments: self@.arguments,
                    },
                    ResponseView::Done,
                ]
            } else {
                seq![ResponseView::Done]
            },
    {
        let mut out: Vec<AiResponse> = Vec::new();
        let ghost v = self@;
        if !self.name.as_str().is_empty() {
            out.push(AiResponse::ToolCall { id: self.id, name: self.name, arguments: self.arguments });
        }
        out.push(AiResponse::Done);
        assert(responses_view(out@) =~= if v.name.len() > 0 {
            seq![
                ResponseView::ToolCall { id: v.id, name: v.name, arguments: v.arguments },
                ResponseView::Done,
            ]
        } else {
            seq![ResponseView::Done]
        });
        out
    }
}

} // verus!
