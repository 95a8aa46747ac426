//! Width-bounded line wrapping: a forward-only splitter that turns a text
//! into lines of at most a given number of code points, wrapping at ASCII
//! whitespace where it can and cutting hard where it cannot.

use vstd::prelude::*;
use crate::text::{
    ascii_space, chars_of, copy_range, find_newline, is_ascii_space, is_line_ending, is_space,
    lemma_first_newline_bound, lemma_trim_end, lemma_trim_start, line_end, string_of, strip_len,
    strip_line_end, stripped_end, trim_end, trim_start, trim_start_len, trimmed_end, trimmed_start,
};

verus! {

/// Why a splitter could not be made.
#[derive(Debug, Clone, Copy, PartialEq, Eq, Structural)]
pub enum WrapError {
    /// The maximum width was zero, with which no line can make progress.
    InvalidWidth,
}

/// Index of the last ASCII whitespace among the first `limit` code points of
/// `s`, or `-1` when there is none.
pub open spec fn last_space_before(s: Seq<char>, limit: int) -> int
    decreases limit,
{
    if limit <= 0 {
        -1
    } else if is_ascii_space(s[limit - 1]) {
        limit - 1
    } else {
        last_space_before(s, limit - 1)
    }
}

/// The two parts into which a line is split at `max_width`.
///
/// A line that fits is returned whole with an empty remainder. Otherwise the
/// line wraps at the last ASCII whitespace among its first `max_width` code
/// points, both parts trimmed at the wrap point; without such whitespace it is
/// cut after exactly `max_width` code points, and nothing is trimmed.
pub open spec fn split_line_spec(line: Seq<char>, max_width: nat) -> (Seq<char>, Seq<char>) {
    if line.len() <= max_width {
        (line, Seq::<char>::empty())
    } else {
        let w = last_space_before(line, max_width as int);
        if w >= 0 {
            (trim_end(line.subrange(0, w)), trim_start(line.subrange(w, line.len() as int)))
        } else {
            (line.subrange(0, max_width as int), line.subrange(max_width as int, line.len() as int))
        }
    }
}

/// The lines that a pending buffer still gives: nothing when it is empty,
/// itself when it fits, else its first part followed by what the remainder
/// gives. With a positive width the remainder is always shorter than the
/// buffer; with a width of zero, for which no splitter is made, the first part
/// stands alone where it is not.
pub open spec fn wrap_pending(buf: Seq<char>, max_width: nat) -> Seq<Seq<char>>
    decreases buf.len(),
{
    if buf.len() == 0 {
        Seq::<Seq<char>>::empty()
    } else if buf.len() <= max_width {
        seq![buf]
    } else {
        let parts = split_line_spec(buf, max_width);
        if parts.1.len() < buf.len() {
            seq![parts.0] + wrap_pending(parts.1, max_width)
        } else {
            seq![parts.0]
        }
    }
}

/// The lines that one source line gives. A line that fits passes through
/// unchanged, an empty one too.
pub open spec fn wrap_line(line: Seq<char>, max_width: nat) -> Seq<Seq<char>> {
    if line.len() <= max_width {
        seq![line]
    } else {
        wrap_pending(line, max_width)
    }
}

/// All the lines that a text gives: each source line, ended by a line feed
/// or by the end of the text, wrapped on its own.
pub open spec fn wrap_text(text: Seq<char>, max_width: nat) -> Seq<Seq<char>>
    decreases text.len(),
{
    if text.len() == 0 {
        Seq::<Seq<char>>::empty()
    } else {
        let end = line_end(text);
        wrap_line(strip_line_end(text.take(end)), max_width) + wrap_text(text.skip(end), max_width)
    }
}

/// Index of the last ASCII whitespace in `v[..limit]`.
pub fn last_ascii_space(v: &Vec<char>, limit: usize) -> (r: Option<usize>)
    requires
        limit <= v.len(),
    ensures
        match r {
            Some(i) => i < limit && i as int == last_space_before(v@, limit as int),
            None => last_space_before(v@, limit as int) == -1,
        },
{
    proof {
        lemma_last_space_before(v@, limit as int);
    }
    let mut k: usize = limit;
    while k > 0
        invariant
            k <= limit <= v.len(),
            last_space_before(v@, limit as int) == last_space_before(v@, k as int),
        decreases k,
    {
        if ascii_space(v[k - 1]) {
            return Some(k - 1);
        }
        k -= 1;
    }
    None
}

/// A wrap point lies in range and holds an ASCII whitespace; without one, no
/// code point before the limit is ASCII whitespace.
pub proof fn lemma_last_space_before(s: Seq<char>, limit: int)
    requires
        0 <= limit <= s.len(),
    ensures
        -1 <= last_space_before(s, limit) < limit || (limit == 0 && last_space_before(s, limit)
            == -1),
        last_space_before(s, limit) >= 0 ==> is_ascii_space(s[last_space_before(s, limit)]),
        forall|i: int| last_space_before(s, limit) < i < limit ==> !is_ascii_space(#[trigger] s[i]),
    decreases limit,
{
    if limit > 0 && !is_ascii_space(s[limit - 1]) {
        lemma_last_space_before(s, limit - 1);
    }
}

/// What a split keeps and what it drops: the first part is a prefix of the
/// line and the remainder a suffix, so nothing is reordered; only whitespace
/// lies between them; the first part never exceeds the width; and with a
/// positive width the remainder is shorter than the line.
pub proof fn lemma_split_line(line: Seq<char>, max_width: nat)
    ensures
        ({
            let parts = split_line_spec(line, max_width);
            &&& parts.0.len() + parts.1.len() <= line.len()
            &&& parts.0 == line.take(parts.0.len() as int)
            &&& parts.1 == line.skip(line.len() - parts.1.len())
            &&& forall|i: int|
                parts.0.len() <= i < line.len() - parts.1.len() ==> is_space(#[trigger] line[i])
            &&& parts.0.len() <= max_width
            &&& line.len() > max_width && max_width >= 1 ==> parts.1.len() < line.len()
            &&& line.len() > max_width && last_space_before(line, max_width as int) < 0
                ==> parts.0.len() == max_width && parts.0 + parts.1 == line
        }),
{
    let parts = split_line_spec(line, max_width);
    if line.len() <= max_width {
        assert(parts.0 =~= line.take(parts.0.len() as int));
        assert(parts.1 =~= line.skip(line.len() - parts.1.len()));
    } else {
        let w = last_space_before(line, max_width as int);
        lemma_last_space_before(line, max_width as int);
        if w >= 0 {
            let head = line.subrange(0, w);
            let tail = line.subrange(w, line.len() as int);
            lemma_trim_end(head);
            lemma_trim_start(tail);
            assert(is_space(tail[0]));
            assert(trim_start_len(tail) >= 1) by {
                reveal_with_fuel(trim_start_len, 2);
            }
            assert(parts.0 =~= line.take(parts.0.len() as int));
            assert(parts.1 =~= line.skip(line.len() - parts.1.len()));
            assert forall|i: int| parts.0.len() <= i < line.len() - parts.1.len() implies is_space(
                #[trigger] line[i],
            ) by {
                if i < w {
                    assert(head[i] == line[i]);
                } else {
                    assert(tail[i - w] == line[i]);
                }
            }
        } else {
            assert(parts.0 =~= line.take(parts.0.len() as int));
            assert(parts.1 =~= line.skip(line.len() - parts.1.len()));
            assert(parts.0 + parts.1 =~= line);
        }
    }
}

/// Splits a line of code points at `max_width`.
pub fn split_chars(line: &Vec<char>, max_width: usize) -> (r: (Vec<char>, Vec<char>))
    ensures
        (r.0@, r.1@) == split_line_spec(line@, max_width as nat),
{
    let n = line.len();
    if n <= max_width {
        let whole = copy_range(line, 0, n);
        assert(whole@ =~= line@);
        return (whole, Vec::new());
    }
    match last_ascii_space(line, max_width) {
        Some(w) => {
            let head_end = trimmed_end(line, 0, w);
            let tail_start = trimmed_start(line, w, n);
            let first = copy_range(line, 0, head_end);
            let second = copy_range(line, tail_start, n);
            proof {
                let head = line@.subrange(0, w as int);
                let tail = line@.subrange(w as int, n as int);
                assert(first@ =~= trim_end(head));
                assert(second@ =~= trim_start(tail));
            }
            (first, second)
        },
        None => {
            let first = copy_range(line, 0, max_width);
            let second = copy_range(line, max_width, n);
            (first, second)
        },
    }
}

/// Splits a line at `max_width` code points, wrapping at ASCII whitespace
/// where there is one among the first `max_width` code points.
pub fn split_line(line: &str, max_width: usize) -> (r: (String, String))
    ensures
        (r.0@, r.1@) == split_line_spec(line@, max_width as nat),
        r.0@.len() <= max_width,
{
    let chars = chars_of(line);
    let (first, second) = split_chars(&chars, max_width);
    proof {
        lemma_split_line(line@, max_width as nat);
    }
    let a = string_of(&first, 0, first.len());
    let b = string_of(&second, 0, second.len());
    assert(a@ =~= first@);
    assert(b@ =~= second@);
    (a, b)
}


/// A forward-only splitter over a text held in memory. Each call of
/// [`WidthLineIterator::next`] reads at most one source line and gives at
/// most one output line; what a split leaves over waits in a pending buffer.
pub struct WidthLineIterator {
    source: Vec<char>,
    pos: usize,
    max_width: usize,
    buffer: Vec<char>,
}

impl WidthLineIterator {
    #[verifier::type_invariant]
    spec fn inv(self) -> bool {
        self.pos <= self.source.len() && self.max_width >= 1
    }

    /// The maximum number of code points of an output line.
    pub closed spec fn max_width(&self) -> nat {
        self.max_width as nat
    }

    /// What the last split left over.
    pub closed spec fn pending(&self) -> Seq<char> {
        self.buffer@
    }

    /// The part of the source that was not read yet.
    pub closed spec fn unread(&self) -> Seq<char> {
        self.source@.skip(self.pos as int)
    }

    /// The lines that are still to come, in order.
    pub open spec fn remaining(&self) -> Seq<Seq<char>> {
        wrap_pending(self.pending(), self.max_width()) + wrap_text(
            self.unread(),
            self.max_width(),
        )
    }

    /// The pending buffer after one more line was asked for: the remainder of
    /// its split while it is too long, else empty, unless a source line was
    /// read and split.
    pub open spec fn pending_after_next(&self) -> Seq<char> {
        let max = self.max_width();
        if self.pending().len() > max {
            split_line_spec(self.pending(), max).1
        } else if self.pending().len() > 0 || self.unread().len() == 0 {
            Seq::<char>::empty()
        } else {
            let line = strip_line_end(self.unread().take(line_end(self.unread())));
            if line.len() > max {
                split_line_spec(line, max).1
            } else {
                Seq::<char>::empty()
            }
        }
    }

    /// What is left to read after one more line was asked for: one source
    /// line less where the pending buffer was empty, else as much as before.
    pub open spec fn unread_after_next(&self) -> Seq<char> {
        if self.pending().len() > 0 {
            self.unread()
        } else {
            self.unread().skip(line_end(self.unread()))
        }
    }

    /// A splitter over `text`. A width of zero is refused before anything is
    /// read.
    pub fn new(text: &str, max_width: usize) -> (r: Result<WidthLineIterator, WrapError>)
        ensures
            max_width == 0 <==> r is Err,
            r matches Ok(it) ==> it.max_width() == max_width && it.pending().len() == 0
                && it.unread() == text@ && it.remaining() == wrap_text(text@, max_width as nat),
    {
        if max_width == 0 {
            return Err(WrapError::InvalidWidth);
        }
        let it = WidthLineIterator {
            source: chars_of(text),
            pos: 0,
            max_width,
            buffer: Vec::new(),
        };
        assert(it.source@.skip(0) =~= text@);
        assert(wrap_pending(it.buffer@, max_width as nat) + wrap_text(text@, max_width as nat)
            =~= wrap_text(text@, max_width as nat));
        Ok(it)
    }

    /// The next output line, or `None` when the text is used up. At most one
    /// source line is read, and only when nothing is pending.
    pub fn next(&mut self) -> (r: Option<String>)
        ensures
            final(self).max_width() == old(self).max_width(),
            final(self).pending() == old(self).pending_after_next(),
            final(self).unread() == old(self).unread_after_next(),
            old(self).remaining().len() == 0 ==> r is None && final(self).remaining().len() == 0,
            old(self).remaining().len() > 0 ==> r is Some && r->0@ == old(self).remaining()[0]
                && final(self).remaining() == old(self).remaining().skip(1),
            r is Some ==> r->0@.len() <= old(self).max_width(),
    {
        proof {
            use_type_invariant(&*self);
        }
        let ghost max = self.max_width as nat;
        let ghost rest_text = wrap_text(self.unread(), max);
        if self.buffer.len() > self.max_width {
            let ghost buf = self.buffer@;
            let (first, rest) = split_chars(&self.buffer, self.max_width);
            proof {
                lemma_split_line(buf, max);
            }
            self.buffer = rest;
            let line = string_of(&first, 0, first.len());
            proof {
                assert(line@ =~= first@);
                let before = wrap_pending(buf, max) + rest_text;
                let after = wrap_pending(rest@, max) + rest_text;
                assert(before.skip(1) =~= after);
            }
            return Some(line);
        }
        if self.buffer.len() > 0 {
            let line = string_of(&self.buffer, 0, self.buffer.len());
            let ghost buf = self.buffer@;
            self.buffer = Vec::new();
            proof {
                assert(line@ =~= buf);
                let before = wrap_pending(buf, max) + rest_text;
                let after = wrap_pending(self.buffer@, max) + rest_text;
                assert(before.skip(1) =~= after);
            }
            return Some(line);
        }
        let n = self.source.len();
        if self.pos >= n {
            proof {
                assert(self.unread().len() == 0);
                assert(self.unread().skip(line_end(self.unread())) =~= self.unread());
                assert(self.buffer@ =~= Seq::<char>::empty());
            }
            return None;
        }
        let start = self.pos;
        let newline = find_newline(&self.source, start);
        let raw_end = if newline < n {
            newline + 1
        } else {
            n
        };
        let end = stripped_end(&self.source, start, raw_end);
        let ghost unread = self.source@.skip(start as int);
        let ghost source_line = self.source@.subrange(start as int, end as int);
        proof {
            assert(line_end(unread) == raw_end - start);
            assert(unread.take(raw_end - start) =~= self.source@.subrange(
                start as int,
                raw_end as int,
            ));
            assert(unread.skip(raw_end - start) =~= self.source@.skip(raw_end as int));
            assert(strip_line_end(unread.take(raw_end - start)) =~= source_line);
            assert(rest_text == wrap_line(source_line, max) + wrap_text(
                self.source@.skip(raw_end as int),
                max,
            ));
            assert(wrap_pending(self.buffer@, max) + rest_text =~= rest_text);
        }
        let ghost later = wrap_text(self.source@.skip(raw_end as int), max);
        if end - start <= self.max_width {
            let line = string_of(&self.source, start, end);
            self.pos = raw_end;
            proof {
                assert(rest_text.skip(1) =~= later);
                assert(wrap_pending(self.buffer@, max) + later =~= later);
            }
            Some(line)
        } else {
            let chars = copy_range(&self.source, start, end);
            let (first, rest) = split_chars(&chars, self.max_width);
            proof {
                lemma_split_line(source_line, max);
            }
            self.pos = raw_end;
            self.buffer = rest;
            let line = string_of(&first, 0, first.len());
            proof {
                assert(line@ =~= first@);
                assert(rest_text.skip(1) =~= wrap_pending(rest@, max) + later);
            }
            Some(line)
        }
    }

    /// All the lines that are still to come.
    pub fn collect(self) -> (lines: Vec<String>)
        ensures
            lines@.len() == self.remaining().len(),
            forall|i: int| 0 <= i < lines@.len() ==> (#[trigger] lines@[i])@ == self.remaining()[i],
            forall|i: int| 0 <= i < lines@.len() ==> (#[trigger] lines@[i])@.len() <= self.max_width(),
    {
        let ghost total = self.remaining();
        let ghost max = self.max_width();
        let mut it = self;
        let mut lines: Vec<String> = Vec::new();
        loop
            invariant
                it.max_width() == max,
                lines@.len() <= total.len(),
                it.remaining() == total.skip(lines@.len() as int),
                forall|i: int| 0 <= i < lines@.len() ==> (#[trigger] lines@[i])@ == total[i],
                forall|i: int| 0 <= i < lines@.len() ==> (#[trigger] lines@[i])@.len() <= max,
            ensures
                lines@.len() == total.len(),
            decreases total.len() - lines@.len(),
        {
            let ghost before = it.remaining();
            match it.next() {
                Some(line) => {
                    proof {
                        assert(before.len() > 0);
                        assert(total.skip(lines@.len() as int).skip(1) =~= total.skip(
                            lines@.len() as int + 1,
                        ));
                    }
                    lines.push(line);
                },
                None => {
                    break ;
                },
            }
        }
        lines
    }
}

/// The lines of `text`, none longer than `max_width` code points.
pub fn split_text(text: &str, max_width: usize) -> (r: Result<Vec<String>, WrapError>)
    ensures
        max_width == 0 <==> r is Err,
        r matches Ok(lines) ==> {
            &&& lines@.len() == wrap_text(text@, max_width as nat).len()
            &&& forall|i: int|
                0 <= i < lines@.len() ==> (#[trigger] lines@[i])@ == wrap_text(
                    text@,
                    max_width as nat,
                )[i]
            &&& forall|i: int| 0 <= i < lines@.len() ==> (#[trigger] lines@[i])@.len() <= max_width
        },
{
    match WidthLineIterator::new(text, max_width) {
        Ok(it) => Ok(it.collect()),
        Err(e) => Err(e),
    }
}


/// The lines of one source line, none longer than `max_width` code points.
/// The line may still hold the line feed and the carriage returns that end
/// it. With this, a text can be wrapped while it is read, one source line at
/// a time.
pub fn wrap_source_line(line: &str, max_width: usize) -> (r: Result<Vec<String>, WrapError>)
    ensures
        max_width == 0 <==> r is Err,
        r matches Ok(lines) ==> {
            let wrapped = wrap_line(strip_line_end(line@), max_width as nat);
            &&& lines@.len() == wrapped.len()
            &&& forall|i: int| 0 <= i < lines@.len() ==> (#[trigger] lines@[i])@ == wrapped[i]
            &&& forall|i: int| 0 <= i < lines@.len() ==> (#[trigger] lines@[i])@.len() <= max_width
        },
{
    if max_width == 0 {
        return Err(WrapError::InvalidWidth);
    }
    let source = chars_of(line);
    let end = stripped_end(&source, 0, source.len());
    let ghost stripped = strip_line_end(line@);
    let ghost wrapped = wrap_line(stripped, max_width as nat);
    let mut lines: Vec<String> = Vec::new();
    proof {
        assert(source@.subrange(0, source@.len() as int) =~= line@);
        assert(source@.subrange(0, end as int) =~= stripped);
        lemma_wrap_pending_bounded(stripped, max_width as nat);
    }
    if end <= max_width {
        lines.push(string_of(&source, 0, end));
        return Ok(lines);
    }
    let mut buffer = copy_range(&source, 0, end);
    while buffer.len() > 0
        invariant
            max_width >= 1,
            wrapped == wrap_pending(stripped, max_width as nat),
            lines@.len() <= wrapped.len(),
            wrap_pending(buffer@, max_width as nat) == wrapped.skip(lines@.len() as int),
            forall|i: int| 0 <= i < lines@.len() ==> (#[trigger] lines@[i])@ == wrapped[i],
            forall|i: int| 0 <= i < wrapped.len() ==> (#[trigger] wrapped[i]).len() <= max_width,
        decreases buffer@.len(),
    {
        let ghost pending = wrap_pending(buffer@, max_width as nat);
        proof {
            lemma_split_line(buffer@, max_width as nat);
            assert(wrapped.skip(lines@.len() as int).skip(1) =~= wrapped.skip(
                lines@.len() as int + 1,
            ));
        }
        if buffer.len() <= max_width {
            let line = string_of(&buffer, 0, buffer.len());
            proof {
                assert(line@ =~= buffer@);
                assert(pending[0] == buffer@);
                assert(pending.skip(1) =~= Seq::<Seq<char>>::empty());
            }
            lines.push(line);
            buffer = Vec::new();
        } else {
            let (first, rest) = split_chars(&buffer, max_width);
            let line = string_of(&first, 0, first.len());
            proof {
                assert(line@ =~= first@);
                assert(pending[0] == first@);
                assert(pending.skip(1) =~= wrap_pending(rest@, max_width as nat));
            }
            lines.push(line);
            buffer = rest;
        }
    }
    proof {
        assert(wrap_pending(buffer@, max_width as nat).len() == 0);
    }
    Ok(lines)
}

/// A source line without the line feed that ends it, nor the carriage return
/// just before that line feed.
pub open spec fn strip_newline(s: Seq<char>) -> Seq<char> {
    if s.len() > 0 && s.last() == '\n' {
        let t = s.drop_last();
        if t.len() > 0 && t.last() == '\r' {
            t.drop_last()
        } else {
            t
        }
    } else {
        s
    }
}

/// The source lines of a text, each ended by a line feed or by the end of
/// the text.
pub open spec fn text_lines(text: Seq<char>) -> Seq<Seq<char>>
    decreases text.len(),
{
    if text.len() == 0 {
        Seq::<Seq<char>>::empty()
    } else {
        let end = line_end(text);
        seq![strip_newline(text.take(end))] + text_lines(text.skip(end))
    }
}

/// The source lines of `text`, without width constraint.
pub fn read_lines(text: &str) -> (lines: Vec<String>)
    ensures
        lines@.len() == text_lines(text@).len(),
        forall|i: int| 0 <= i < lines@.len() ==> (#[trigger] lines@[i])@ == text_lines(text@)[i],
{
    let source = chars_of(text);
    let n = source.len();
    let mut lines: Vec<String> = Vec::new();
    let mut pos: usize = 0;
    let ghost total = text_lines(text@);
    assert(source@.skip(0) =~= text@);
    while pos < n
        invariant
            pos <= n == source.len(),
            source@ == text@,
            lines@.len() <= total.len(),
            text_lines(source@.skip(pos as int)) == total.skip(lines@.len() as int),
            forall|i: int| 0 <= i < lines@.len() ==> (#[trigger] lines@[i])@ == total[i],
        decreases n - pos,
    {
        let newline = find_newline(&source, pos);
        let raw_end = if newline < n {
            newline + 1
        } else {
            n
        };
        let end = if newline < n && newline > pos && source[newline - 1] == '\r' {
            newline - 1
        } else {
            newline
        };
        let line = string_of(&source, pos, end);
        proof {
            let unread = source@.skip(pos as int);
            assert(unread.take(raw_end - pos) =~= source@.subrange(pos as int, raw_end as int));
            assert(unread.skip(raw_end - pos) =~= source@.skip(raw_end as int));
            let raw = source@.subrange(pos as int, raw_end as int);
            if newline < n {
                assert(raw.last() == '\n');
                assert(raw.drop_last() =~= source@.subrange(pos as int, newline as int));
                if newline > pos {
                    assert(raw.drop_last().last() == source@[newline - 1]);
                    assert(raw.drop_last().drop_last() =~= source@.subrange(
                        pos as int,
                        newline - 1,
                    ));
                }
            } else {
                assert(raw.last() == source@[n - 1]);
            }
            assert(strip_newline(raw) =~= line@);
            let here = total.skip(lines@.len() as int);
            assert(here.len() > 0);
            assert(here[0] == line@);
            assert(here.skip(1) =~= total.skip(lines@.len() as int + 1));
        }
        lines.push(line);
        pos = raw_end;
    }
    proof {
        assert(source@.skip(pos as int).len() == 0);
    }
    lines
}


/// No line that a pending buffer gives exceeds the width.
pub proof fn lemma_wrap_pending_bounded(buf: Seq<char>, max_width: nat)
    ensures
        forall|i: int|
            0 <= i < wrap_pending(buf, max_width).len() ==> (#[trigger] wrap_pending(
                buf,
                max_width,
            )[i]).len() <= max_width,
    decreases buf.len(),
{
    let lines = wrap_pending(buf, max_width);
    if buf.len() > max_width {
        let parts = split_line_spec(buf, max_width);
        lemma_split_line(buf, max_width);
        if parts.1.len() < buf.len() {
            let rest = wrap_pending(parts.1, max_width);
            lemma_wrap_pending_bounded(parts.1, max_width);
            assert forall|i: int| 0 <= i < lines.len() implies (#[trigger] lines[i]).len()
                <= max_width by {
                if i > 0 {
                    assert(lines[i] == rest[i - 1]);
                }
            }
        }
    }
}

/// No line of a wrapped text exceeds the width, whether it was wrapped at
/// whitespace, cut hard or passed through.
pub proof fn lemma_wrap_text_bounded(text: Seq<char>, max_width: nat)
    ensures
        forall|i: int|
            0 <= i < wrap_text(text, max_width).len() ==> (#[trigger] wrap_text(
                text,
                max_width,
            )[i]).len() <= max_width,
    decreases text.len(),
{
    let lines = wrap_text(text, max_width);
    if text.len() > 0 {
        let end = line_end(text);
        lemma_first_newline_bound(text);
        let line = strip_line_end(text.take(end));
        let first = wrap_line(line, max_width);
        let rest = wrap_text(text.skip(end), max_width);
        lemma_wrap_pending_bounded(line, max_width);
        lemma_wrap_text_bounded(text.skip(end), max_width);
        assert forall|i: int| 0 <= i < lines.len() implies (#[trigger] lines[i]).len()
            <= max_width by {
            if i < first.len() {
                assert(lines[i] == first[i]);
            } else {
                assert(lines[i] == rest[i - first.len()]);
            }
        }
    }
}


/// The code points of `s` that are no whitespace, in order.
pub open spec fn visible(s: Seq<char>) -> Seq<char>
    decreases s.len(),
{
    if s.len() == 0 {
        s
    } else if is_space(s.last()) {
        visible(s.drop_last())
    } else {
        visible(s.drop_last()).push(s.last())
    }
}

/// The lines one after the other, as one sequence.
pub open spec fn joined(lines: Seq<Seq<char>>) -> Seq<char>
    decreases lines.len(),
{
    if lines.len() == 0 {
        Seq::<char>::empty()
    } else {
        joined(lines.drop_last()) + lines.last()
    }
}

/// What is visible of two sequences in a row is what is visible of each, in
/// a row.
pub proof fn lemma_visible_concat(a: Seq<char>, b: Seq<char>)
    ensures
        visible(a + b) == visible(a) + visible(b),
    decreases b.len(),
{
    if b.len() == 0 {
        assert(a + b =~= a);
        assert(visible(a) + visible(b) =~= visible(a));
    } else {
        lemma_visible_concat(a, b.drop_last());
        assert((a + b).drop_last() =~= a + b.drop_last());
        assert((a + b).last() == b.last());
        if !is_space(b.last()) {
            assert(visible(a + b) =~= visible(a) + visible(b));
        }
    }
}

/// Nothing is visible of whitespace.
pub proof fn lemma_visible_of_space(s: Seq<char>)
    requires
        forall|i: int| 0 <= i < s.len() ==> is_space(#[trigger] s[i]),
    ensures
        visible(s).len() == 0,
    decreases s.len(),
{
    if s.len() > 0 {
        assert forall|i: int| 0 <= i < s.len() - 1 implies is_space(#[trigger] s.drop_last()[i]) by {
            assert(s.drop_last()[i] == s[i]);
        }
        lemma_visible_of_space(s.drop_last());
    }
}

/// One line joins to itself.
pub proof fn lemma_joined_one(line: Seq<char>)
    ensures
        joined(seq![line]) == line,
{
    assert(seq![line].drop_last() =~= Seq::<Seq<char>>::empty());
    assert(joined(seq![line].drop_last()) =~= Seq::<char>::empty());
    assert(joined(seq![line]) =~= line);
}

/// Two runs of lines in a row join to the two joins in a row.
pub proof fn lemma_joined_concat(a: Seq<Seq<char>>, b: Seq<Seq<char>>)
    ensures
        joined(a + b) == joined(a) + joined(b),
    decreases b.len(),
{
    if b.len() == 0 {
        assert(a + b =~= a);
        assert(joined(a) + joined(b) =~= joined(a));
    } else {
        lemma_joined_concat(a, b.drop_last());
        assert((a + b).drop_last() =~= a + b.drop_last());
        assert((a + b).last() == b.last());
        assert(joined(a + b) =~= joined(a) + joined(b));
    }
}

/// A split neither reorders nor loses a visible code point: what is visible
/// of the two parts in a row is what is visible of the line.
pub proof fn lemma_split_keeps_visible(line: Seq<char>, max_width: nat)
    ensures
        visible(split_line_spec(line, max_width).0) + visible(split_line_spec(line, max_width).1)
            == visible(line),
{
    let parts = split_line_spec(line, max_width);
    lemma_split_line(line, max_width);
    let gap = line.subrange(parts.0.len() as int, line.len() - parts.1.len());
    assert(line =~= parts.0 + gap + parts.1);
    assert forall|i: int| 0 <= i < gap.len() implies is_space(#[trigger] gap[i]) by {
        assert(gap[i] == line[parts.0.len() + i]);
    }
    lemma_visible_of_space(gap);
    lemma_visible_concat(parts.0, gap);
    lemma_visible_concat(parts.0 + gap, parts.1);
    assert(visible(parts.0) + visible(gap) =~= visible(parts.0));
}

/// The lines of a pending buffer hold, in order, every visible code point of
/// the buffer and no other.
pub proof fn lemma_wrap_pending_keeps_visible(buf: Seq<char>, max_width: nat)
    requires
        max_width >= 1,
    ensures
        visible(joined(wrap_pending(buf, max_width))) == visible(buf),
    decreases buf.len(),
{
    let lines = wrap_pending(buf, max_width);
    if buf.len() == 0 {
        assert(joined(lines) =~= buf);
    } else if buf.len() <= max_width {
        lemma_joined_one(buf);
    } else {
        let parts = split_line_spec(buf, max_width);
        lemma_split_line(buf, max_width);
        lemma_split_keeps_visible(buf, max_width);
        lemma_wrap_pending_keeps_visible(parts.1, max_width);
        let rest = wrap_pending(parts.1, max_width);
        lemma_joined_concat(seq![parts.0], rest);
        lemma_joined_one(parts.0);
        lemma_visible_concat(parts.0, joined(rest));
    }
}

/// Wrapping neither reorders nor loses a visible code point: the lines of a
/// text hold, in order, every code point of the text that is no whitespace,
/// and no other. Only whitespace is dropped, at line ends and wrap points.
pub proof fn lemma_wrap_text_keeps_visible(text: Seq<char>, max_width: nat)
    requires
        max_width >= 1,
    ensures
        visible(joined(wrap_text(text, max_width))) == visible(text),
    decreases text.len(),
{
    if text.len() > 0 {
        let end = line_end(text);
        lemma_first_newline_bound(text);
        let raw = text.take(end);
        let line = strip_line_end(raw);
        let first = wrap_line(line, max_width);
        let rest = wrap_text(text.skip(end), max_width);
        lemma_wrap_text_keeps_visible(text.skip(end), max_width);
        lemma_joined_concat(first, rest);
        lemma_visible_concat(joined(first), joined(rest));
        // The line's own lines hold what is visible of the line.
        if line.len() <= max_width {
            lemma_joined_one(line);
        } else {
            lemma_wrap_pending_keeps_visible(line, max_width);
        }
        // What was stripped from the line's end is whitespace.
        lemma_strip_line_end(raw);
        let ending = raw.skip(line.len() as int);
        assert(raw =~= line + ending);
        assert forall|i: int| 0 <= i < ending.len() implies is_space(#[trigger] ending[i]) by {
            assert(ending[i] == raw[line.len() + i]);
        }
        lemma_visible_of_space(ending);
        lemma_visible_concat(line, ending);
        assert(visible(line) + visible(ending) =~= visible(line));
        assert(text =~= raw + text.skip(end));
        lemma_visible_concat(raw, text.skip(end));
    }
}

/// What is stripped from the end of a line is line feeds and carriage
/// returns.
pub proof fn lemma_strip_line_end(s: Seq<char>)
    ensures
        strip_len(s) <= s.len(),
        strip_line_end(s).len() == strip_len(s),
        forall|i: int| strip_len(s) <= i < s.len() ==> is_line_ending(#[trigger] s[i]),
    decreases s.len(),
{
    if s.len() > 0 && is_line_ending(s.last()) {
        lemma_strip_line_end(s.drop_last());
        assert forall|i: int| strip_len(s) <= i < s.len() implies is_line_ending(
            #[trigger] s[i],
        ) by {
            if i < s.len() - 1 {
                assert(s.drop_last()[i] == s[i]);
            }
        }
    }
}

} // verus!
