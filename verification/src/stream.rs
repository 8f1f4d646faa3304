//! Collecting a streamed reply: the text is gathered whole, and handed out
//! for printing in pieces of at least a few bytes rather than token by token.
use vstd::prelude::*;

use crate::conversation::ToolCall;
use crate::strings::{byte_len, utf8};

verus! {

/// The buffered text is printed once it holds this many bytes.
pub const STREAM_FLUSH_THRESHOLD: usize = 32;

/// Text waiting to be printed.
#[derive(Debug)]
pub struct StreamPrinter {
    buffer: String,
}

impl StreamPrinter {
    /// The text not yet handed out for printing.
    pub closed spec fn pending(&self) -> Seq<char> {
        self.buffer@
    }

    /// A printer with nothing waiting.
    pub fn new() -> (p: Self)
        ensures
            p.pending() == Seq::<char>::empty(),
    {
        StreamPrinter { buffer: String::new() }
    }

    /// Adds `delta` to the waiting text; once that holds at least
    /// `STREAM_FLUSH_THRESHOLD` bytes, all of it is handed out to print.
    pub fn push(&mut self, delta: &str) -> (out: Option<String>)
        ensures
            byte_len(old(self).pending() + delta@) >= STREAM_FLUSH_THRESHOLD ==> (out matches Some(s)
                && s@ == old(self).pending() + delta@ && final(self).pending() == Seq::<char>::empty()),
            byte_len(old(self).pending() + delta@) < STREAM_FLUSH_THRESHOLD ==> out is None
                && final(self).pending() == old(self).pending() + delta@,
    {
        self.buffer.append(delta);
        if self.buffer.as_str().len() >= STREAM_FLUSH_THRESHOLD {
            proof {
                if self.buffer@.len() == 0 {
                    assert(self.buffer@ =~= Seq::<char>::empty());
                    assert(utf8(self.buffer@).len() == 0);
                    assert(byte_len(self.buffer@) == 0);
                }
            }
            self.flush()
        } else {
            None
        }
    }

    /// Hands out all the waiting text, if there is any.
    pub fn flush(&mut self) -> (out: Option<String>)
        ensures
            old(self).pending().len() == 0 ==> out is None && final(self).pending() == old(
                self,
            ).pending(),
            old(self).pending().len() > 0 ==> (out matches Some(s) && s@ == old(self).pending()
                && final(self).pending() == Seq::<char>::empty()),
    {
        if self.buffer.as_str().is_empty() {
            return None;
        }
        let out = self.buffer.clone();
        self.buffer = String::new();
        Some(out)
    }
}

/// A streamed reply as it arrives: its whole text, its tool calls, and the
/// text waiting to be printed.
#[derive(Debug)]
pub struct StreamAccumulator {
    text: String,
    tool_calls: Vec<ToolCall>,
    printer: StreamPrinter,
}

impl StreamAccumulator {
    /// The text received so far.
    pub closed spec fn text(&self) -> Seq<char> {
        self.text@
    }

    /// The tool calls received so far, in order.
    pub closed spec fn calls(&self) -> Seq<ToolCall> {
        self.tool_calls@
    }

    /// The text received but not yet handed out for printing.
    pub closed spec fn unprinted(&self) -> Seq<char> {
        self.printer.pending()
    }

    /// Nothing received yet.
    pub fn new() -> (a: Self)
        ensures
            a.text() == Seq::<char>::empty(),
            a.calls().len() == 0,
            a.unprinted() == Seq::<char>::empty(),
    {
        StreamAccumulator { text: String::new(), tool_calls: Vec::new(), printer: StreamPrinter::new() }
    }

    /// Takes a piece of text; gives what is now to be printed, if anything.
    pub fn push_text(&mut self, delta: &str) -> (out: Option<String>)
        ensures
            final(self).text() == old(self).text() + delta@,
            final(self).calls() == old(self).calls(),
            byte_len(old(self).unprinted() + delta@) >= STREAM_FLUSH_THRESHOLD ==> (out matches Some(s)
                && s@ == old(self).unprinted() + delta@ && final(self).unprinted()
                == Seq::<char>::empty()),
            byte_len(old(self).unprinted() + delta@) < STREAM_FLUSH_THRESHOLD ==> out is None
                && final(self).unprinted() == old(self).unprinted() + delta@,
    {
        self.text.append(delta);
        self.printer.push(delta)
    }

    /// Takes a completed tool call.
    pub fn push_tool_call(&mut self, call: ToolCall)
        ensures
            final(self).text() == old(self).text(),
            final(self).calls() == old(self).calls().push(call),
            final(self).unprinted() == old(self).unprinted(),
    {
        self.tool_calls.push(call);
    }

    /// The whole text, the tool calls, and the text still to be printed.
    pub fn finish(self) -> (r: (String, Vec<ToolCall>, Option<String>))
        ensures
            r.0@ == self.text(),
            r.1@ == self.calls(),
            self.unprinted().len() == 0 ==> r.2 is None,
            self.unprinted().len() > 0 ==> (r.2 matches Some(s) && s@ == self.unprinted()),
    {
        let mut printer = self.printer;
        let rest = printer.flush();
        (self.text, self.tool_calls, rest)
    }
}

} // verus!
