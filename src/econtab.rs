use vstd::prelude::*;

use crate::stringarray::{popped, pushed, StringArray};

verus! {

/// Identifier of a session.
pub type EconId = u8;

/// Capacity of the command line of each session.
pub const INPUT_CAPACITY: usize = 256;

/// A line as kept: one carriage return before the line feed removed.
pub open spec fn strip_cr(l: Seq<char>) -> Seq<char> {
    if l.len() > 0 && l.last() == '\r' {
        l.drop_last()
    } else {
        l
    }
}

/// A line, if it is not empty; empty lines are dropped.
pub open spec fn kept(l: Seq<char>) -> Seq<Seq<char>> {
    if l.len() == 0 {
        Seq::empty()
    } else {
        seq![l]
    }
}

/// After reading the first `i` characters of `t`: the non-empty lines already
/// ended by a line feed, and the line still open.
pub open spec fn scan(t: Seq<char>, i: nat) -> (Seq<Seq<char>>, Seq<char>)
    decreases i,
{
    if i == 0 || i > t.len() {
        (Seq::empty(), Seq::empty())
    } else {
        let (done, open) = scan(t, (i - 1) as nat);
        if t[i - 1] == '\n' {
            (done + kept(strip_cr(open)), Seq::empty())
        } else {
            (done, open.push(t[i - 1]))
        }
    }
}

/// The non-empty lines of `t`, in order: split at each line feed, a carriage
/// return right before a line feed removed, the last line ending at the end
/// of the text.
pub open spec fn text_lines(t: Seq<char>) -> Seq<Seq<char>> {
    let (done, open) = scan(t, t.len());
    done + kept(open)
}

/// The text of each line of a log.
pub open spec fn lines_of(v: Seq<Vec<char>>) -> Seq<Seq<char>> {
    v.map_values(|l: Vec<char>| l@)
}

/// Appends `line` to `out` unless it is empty.
fn push_kept(out: &mut Vec<Vec<char>>, line: Vec<char>)
    ensures
        lines_of(final(out)@) == lines_of(old(out)@) + kept(line@),
{
    let ghost before = lines_of(out@);
    let ghost l = line@;
    if line.len() > 0 {
        out.push(line);
        assert(lines_of(out@) =~= before + kept(l));
    } else {
        assert(before + kept(line@) =~= before);
    }
}

/// Appends to `out` the non-empty lines of `text`, in order.
pub fn append_lines(out: &mut Vec<Vec<char>>, text: &Vec<char>)
    ensures
        lines_of(final(out)@) == lines_of(old(out)@) + text_lines(text@),
{
    let ghost start = lines_of(out@);
    let mut open: Vec<char> = Vec::new();
    let mut i: usize = 0;
    assert(start + scan(text@, 0).0 =~= start);
    while i < text.len()
        invariant
            i <= text.len(),
            lines_of(out@) == start + scan(text@, i as nat).0,
            open@ == scan(text@, i as nat).1,
        decreases text.len() - i,
    {
        let c = text[i];
        if c == '\n' {
            if open.len() > 0 && open[open.len() - 1] == '\r' {
                open.pop();
            }
            let line = open;
            open = Vec::new();
            push_kept(out, line);
            assert(start + scan(text@, i as nat).0 + kept(strip_cr(scan(text@, i as nat).1))
                =~= start + (scan(text@, i as nat).0 + kept(strip_cr(scan(text@, i as nat).1))));
        } else {
            open.push(c);
        }
        i = i + 1;
    }
    push_kept(out, open);
    assert(start + scan(text@, text@.len()).0 + kept(scan(text@, text@.len()).1)
        =~= start + text_lines(text@));
}

/// The non-empty lines of `text`, in order.
pub fn split_lines(text: &Vec<char>) -> (r: Vec<Vec<char>>)
    ensures
        lines_of(r@) == text_lines(text@),
{
    let mut r: Vec<Vec<char>> = Vec::new();
    append_lines(&mut r, text);
    assert(Seq::<Seq<char>>::empty() + text_lines(text@) =~= text_lines(text@));
    r
}

/// One open session: its name, the lines received so far, the command being
/// typed and how far the console is scrolled.
pub struct EconTab {
    pub name: Vec<char>,
    pub messages: Vec<Vec<char>>,
    pub buffer: StringArray<INPUT_CAPACITY>,
    pub scroll: usize,
}

impl EconTab {
    /// A fresh session: no output, an empty command line, not scrolled.
    pub fn new(name: Vec<char>) -> (r: Self)
        ensures
            r.name@ == name@,
            r.messages@.len() == 0,
            r.buffer@ == Seq::<char>::empty(),
            r.scroll == 0,
    {
        EconTab { name, messages: Vec::new(), buffer: StringArray::new(), scroll: 0 }
    }

    /// The scroll offset stays within the log.
    pub open spec fn wf(&self) -> bool {
        self.scroll <= self.messages@.len()
    }

    /// Appends the non-empty lines of `text` to the log.
    pub fn receive(&mut self, text: &Vec<char>)
        ensures
            lines_of(final(self).messages@) == lines_of(old(self).messages@) + text_lines(text@),
            final(self).name == old(self).name,
            final(self).buffer == old(self).buffer,
            final(self).scroll == old(self).scroll,
            old(self).wf() ==> final(self).wf(),
    {
        append_lines(&mut self.messages, text);
        assert(self.messages@.len() == lines_of(self.messages@).len());
    }

    /// Scrolls one line back, not below zero.
    pub fn scroll_back(&mut self)
        ensures
            final(self).scroll == if old(self).scroll > 0 {
                (old(self).scroll - 1) as usize
            } else {
                old(self).scroll
            },
            final(self).name == old(self).name,
            final(self).messages == old(self).messages,
            final(self).buffer == old(self).buffer,
            old(self).wf() ==> final(self).wf(),
    {
        if self.scroll > 0 {
            self.scroll = self.scroll - 1;
        }
    }

    /// Scrolls one line forward, up to the length of the log.
    pub fn scroll_forward(&mut self)
        ensures
            final(self).scroll == if old(self).scroll < old(self).messages@.len() {
                (old(self).scroll + 1) as usize
            } else {
                old(self).scroll
            },
            final(self).name == old(self).name,
            final(self).messages == old(self).messages,
            final(self).buffer == old(self).buffer,
            old(self).wf() ==> final(self).wf(),
    {
        if self.scroll < self.messages.len() {
            self.scroll = self.scroll + 1;
        }
    }

    /// Types one character on the command line.
    pub fn type_char(&mut self, c: char)
        ensures
            final(self).buffer@ == pushed(old(self).buffer@, c, INPUT_CAPACITY as nat),
            final(self).name == old(self).name,
            final(self).messages == old(self).messages,
            final(self).scroll == old(self).scroll,
    {
        self.buffer.push(c);
    }

    /// Erases the last character of the command line.
    pub fn erase_char(&mut self)
        ensures
            final(self).buffer@ == popped(old(self).buffer@),
            final(self).name == old(self).name,
            final(self).messages == old(self).messages,
            final(self).scroll == old(self).scroll,
    {
        self.buffer.pop();
    }

    /// Takes the whole command line out, leaving it empty.
    pub fn take_input(&mut self) -> (r: Vec<char>)
        ensures
            r@ == old(self).buffer@,
            final(self).buffer@ == Seq::<char>::empty(),
            final(self).name == old(self).name,
            final(self).messages == old(self).messages,
            final(self).scroll == old(self).scroll,
    {
        let r = self.buffer.chars();
        self.buffer.clear();
        r
    }
}

} // verus!
