//! A bounded buffer of log lines for viewing inside the application.

use crate::text::join3;
use std::collections::VecDeque;
use vstd::prelude::*;
use vstd::string::StrSliceExecFns;
use vstd::string::StringExecFns;

verus! {

/// The lines of a buffer of `capacity` after `line` is appended: when the
/// buffer is full the oldest line leaves first.
pub open spec fn spec_append(lines: Seq<String>, capacity: usize, line: String) -> Seq<String> {
    if lines.len() >= capacity && lines.len() > 0 {
        lines.drop_first().push(line)
    } else {
        lines.push(line)
    }
}

/// The text of a log line: the level in brackets, the target, a colon and
/// the message.
pub open spec fn spec_format_event(level: Seq<char>, target: Seq<char>, message: Seq<char>) -> Seq<
    char,
> {
    "["@ + level + "] "@ + target + ": "@ + message
}

/// A message without the double quotes that enclose it, if it is enclosed in
/// double quotes; else the message as it is.
pub open spec fn spec_unquote(text: Seq<char>) -> Seq<char> {
    if text.len() >= 2 && text.first() == '"' && text.last() == '"' {
        text.subrange(1, text.len() - 1)
    } else {
        text
    }
}

/// Buffer of the most recent log lines, oldest first.
pub struct LogBuffer {
    lines: VecDeque<String>,
    capacity: usize,
}

impl View for LogBuffer {
    type V = Seq<String>;

    /// The lines in the buffer, oldest first.
    closed spec fn view(&self) -> Seq<String> {
        self.lines@
    }
}

impl LogBuffer {
    /// The number of lines from which on an append drops the oldest line.
    pub closed spec fn capacity(&self) -> usize {
        self.capacity
    }

    /// Creates an empty buffer of the given capacity.
    pub fn new(capacity: usize) -> (buffer: LogBuffer)
        ensures
            buffer@ == Seq::<String>::empty(),
            buffer.capacity() == capacity,
    {
        LogBuffer { lines: VecDeque::new(), capacity }
    }

    /// Appends a line; a buffer that holds `capacity()` lines or more drops
    /// its oldest line first.
    pub fn append(&mut self, line: String)
        ensures
            final(self)@ == spec_append(old(self)@, old(self).capacity(), line),
            final(self).capacity() == old(self).capacity(),
    {
        if self.lines.len() >= self.capacity {
            let _ = self.lines.pop_front();
        }
        self.lines.push_back(line);
        assert(self@ =~= spec_append(old(self)@, old(self).capacity(), line));
    }

    /// The lines in the buffer, oldest first.
    pub fn get_lines(&self) -> (lines: Vec<String>)
        ensures
            lines@ == self@,
    {
        let mut lines: Vec<String> = Vec::new();
        let mut i: usize = 0;
        while i < self.lines.len()
            invariant
                i <= self.lines@.len(),
                lines@ == self.lines@.take(i as int),
            decreases self.lines@.len() - i,
        {
            lines.push(self.lines[i].clone());
            assert(lines@ =~= self.lines@.take(i + 1));
            i += 1;
        }
        assert(self.lines@.take(i as int) =~= self.lines@);
        lines
    }

    /// Removes all lines.
    pub fn clear(&mut self)
        ensures
            final(self)@ == Seq::<String>::empty(),
            final(self).capacity() == old(self).capacity(),
    {
        self.lines.clear();
    }
}

impl Clone for LogBuffer {
    /// A clone holds the same lines and has the same capacity.
    fn clone(&self) -> (copy: LogBuffer)
        ensures
            copy@ == self@,
            copy.capacity() == self.capacity(),
    {
        let lines = self.lines.clone();
        assert(lines@ =~= self.lines@);
        LogBuffer { lines, capacity: self.capacity }
    }
}

/// Writes the text of a log line.
pub fn format_event(level: &str, target: &str, message: &str) -> (line: String)
    ensures
        line@ == spec_format_event(level@, target@, message@),
{
    let mut line = join3("[", level, "] ");
    line.append(target);
    line.append(": ");
    line.append(message);
    line
}

/// Takes the enclosing double quotes off a message, if it has them.
pub fn unquote(text: &str) -> (plain: String)
    ensures
        plain@ == spec_unquote(text@),
{
    let n = text.unicode_len();
    if n >= 2 && text.get_char(0) == '"' && text.get_char(n - 1) == '"' {
        String::from_str(text.substring_char(1, n - 1))
    } else {
        String::from_str(text)
    }
}

/// Receives log events and keeps their lines in a buffer.
pub struct LogBufferLayer {
    buffer: LogBuffer,
}

impl LogBufferLayer {
    /// The lines kept so far, oldest first.
    pub closed spec fn lines(&self) -> Seq<String> {
        self.buffer@
    }

    /// The capacity of the buffer that keeps the lines.
    pub closed spec fn capacity(&self) -> usize {
        self.buffer.capacity()
    }

    /// Creates a layer that keeps its lines in `buffer`.
    pub fn new(buffer: LogBuffer) -> (layer: LogBufferLayer)
        ensures
            layer.lines() == buffer@,
            layer.capacity() == buffer.capacity(),
    {
        LogBufferLayer { buffer }
    }

    /// Records an event of the given level and target: its message, given
    /// in debug form, is unquoted, and the line is appended to the buffer.
    pub fn on_event(&mut self, level: &str, target: &str, debug_message: &str)
        ensures
            final(self).capacity() == old(self).capacity(),
            final(self).lines() == spec_append(
                old(self).lines(),
                old(self).capacity(),
                final(self).lines().last(),
            ),
            final(self).lines().last()@ == spec_format_event(
                level@,
                target@,
                spec_unquote(debug_message@),
            ),
    {
        let message = unquote(debug_message);
        let line = format_event(level, target, message.as_str());
        self.buffer.append(line);
    }

    /// The buffer that keeps the lines.
    pub fn buffer(&self) -> (buffer: &LogBuffer)
        ensures
            buffer@ == self.lines(),
            buffer.capacity() == self.capacity(),
    {
        &self.buffer
    }
}

/// A buffer that holds no more lines than its capacity, or than one line
/// where the capacity is zero, still does after an append.
pub proof fn law_log_buffer_bounded(lines: Seq<String>, capacity: usize, line: String)
    requires
        lines.len() <= capacity || lines.len() <= 1,
    ensures
        spec_append(lines, capacity, line).len() <= capacity || spec_append(
            lines,
            capacity,
            line,
        ).len() <= 1,
        spec_append(lines, capacity, line).last() == line,
{
}

} // verus!
