//! The line assembler: it gathers what was read from one stream and hands
//! it out line by line, keeping an unfinished line until its end arrives.

use vstd::prelude::*;
use crate::text::{
    contains, find, first_match, has_match, lemma_first_match_from, matches_at, starts_with,
    string_of, string_of_range, to_chars, trim, trimmed,
};

verus! {

/// What `String::from_utf8_lossy` makes of bytes: their text, with the
/// replacement character in place of what is not UTF-8.
pub uninterp spec fn utf8_lossy(bytes: Seq<u8>) -> Seq<char>;

/// `String::from_utf8_lossy`: the text of `bytes`.
#[verifier::external_body]
pub(crate) fn decode_lossy(bytes: &[u8]) -> (r: String)
    ensures
        r@ == utf8_lossy(bytes@),
{
    String::from_utf8_lossy(bytes).into_owned()
}

/// The mathematical content of a [`LineBuffer`].
pub ghost struct LineBufferView {
    /// The text that was fed and not handed out yet.
    pub partial: Seq<char>,
    /// Whether the stream has ended.
    pub ended: bool,
}

/// The lines `lines` with a line break between each two.
pub open spec fn join_lines(lines: Seq<Seq<char>>) -> Seq<char>
    decreases lines.len(),
{
    if lines.len() == 0 {
        Seq::empty()
    } else if lines.len() == 1 {
        lines[0]
    } else {
        join_lines(lines.drop_last()) + "\n"@ + lines.last()
    }
}

/// Whether a trimmed line is the noise that follows a panic: the hint at a
/// backtrace, or the head of one.
pub open spec fn is_noise(line: Seq<char>) -> bool {
    starts_with(line, "note: run with `RUST_BACKTRACE=1`"@) || starts_with(
        line,
        "stack backtrace:"@,
    )
}

/// Whether a trimmed line is the header of a panic.
pub open spec fn is_panic_header(line: Seq<char>) -> bool {
    starts_with(line, "thread '"@) && contains(line, "' panicked at "@)
}

/// What a scan for a panic group has gathered.
pub ghost struct GroupScan {
    pub buffer: LineBufferView,
    pub lines: Seq<Seq<char>>,
    pub found: bool,
}

impl LineBufferView {
    /// The next line that can be handed out: the text before the first line
    /// break; or, once the stream has ended, the rest where there is any.
    pub open spec fn next_line(self) -> Option<Seq<char>> {
        match first_match(self.partial, "\n"@) {
            Some(at) => Some(self.partial.subrange(0, at)),
            None => if self.ended && self.partial.len() > 0 {
                Some(self.partial)
            } else {
                None
            },
        }
    }

    /// The buffer once the next line was handed out.
    pub open spec fn after_line(self) -> Self {
        match first_match(self.partial, "\n"@) {
            Some(at) => LineBufferView { partial: self.partial.skip(at + "\n"@.len()), ..self },
            None => if self.ended {
                LineBufferView { partial: Seq::empty(), ..self }
            } else {
                self
            },
        }
    }

    /// The lines that `n` reads in a row hand out.
    pub open spec fn lines_taken(self, n: nat) -> Seq<Seq<char>>
        decreases n,
    {
        if n == 0 {
            Seq::empty()
        } else {
            match self.next_line() {
                Some(line) => seq![line] + self.after_line().lines_taken((n - 1) as nat),
                None => Seq::empty(),
            }
        }
    }

    /// The buffer after `n` reads in a row.
    pub open spec fn after_lines(self, n: nat) -> Self
        decreases n,
    {
        if n == 0 {
            self
        } else {
            match self.next_line() {
                Some(line) => self.after_line().after_lines((n - 1) as nat),
                None => self,
            }
        }
    }

    /// A scan for a panic group that may still read `attempts` lines.
    ///
    /// A line that is blank when trimmed is passed over, though it counts as
    /// read. A line of noise ends the scan and is not kept. Every other line
    /// is kept; the scan ends once a panic header is among at least two
    /// kept lines, once no line is left, or once the attempts are used up.
    pub open spec fn scan_group(self, attempts: nat, lines: Seq<Seq<char>>, found: bool) -> GroupScan
        decreases attempts,
    {
        if attempts == 0 {
            GroupScan { buffer: self, lines, found }
        } else {
            match self.next_line() {
                None => GroupScan { buffer: self, lines, found },
                Some(line) => {
                    let rest = self.after_line();
                    let shown = trim(line);
                    let found_now = found || is_panic_header(shown);
                    if shown.len() == 0 {
                        rest.scan_group((attempts - 1) as nat, lines, found)
                    } else if is_noise(shown) {
                        GroupScan { buffer: rest, lines, found }
                    } else if found_now && lines.len() + 1 >= 2 {
                        GroupScan { buffer: rest, lines: lines.push(line), found: found_now }
                    } else {
                        rest.scan_group((attempts - 1) as nat, lines.push(line), found_now)
                    }
                },
            }
        }
    }
}

impl GroupScan {
    /// The group that the scan gives: its lines, joined by line breaks,
    /// where a panic header is among at least two of them.
    pub open spec fn group(self) -> Option<Seq<char>> {
        if self.lines.len() >= 2 && self.found {
            Some(join_lines(self.lines))
        } else {
            None
        }
    }
}

/// The number of lines that a scan for a panic group reads at most.
pub const PANIC_GROUP_LINES: usize = 4;

/// The text read from one stream that has not been handed out yet.
#[derive(Debug)]
pub struct LineBuffer {
    partial: Vec<char>,
    ended: bool,
}

impl View for LineBuffer {
    type V = LineBufferView;

    closed spec fn view(&self) -> LineBufferView {
        LineBufferView { partial: self.partial@, ended: self.ended }
    }
}

impl LineBuffer {
    /// An empty buffer for a stream that has not ended.
    pub fn new() -> (r: Self)
        ensures
            r@ == (LineBufferView { partial: Seq::empty(), ended: false }),
    {
        LineBuffer { partial: Vec::new(), ended: false }
    }

    /// Appends text that was read from the stream.
    pub fn push_str(&mut self, text: &str)
        ensures
            final(self)@ == (LineBufferView {
                partial: old(self)@.partial + text@,
                ..old(self)@
            }),
    {
        let chars = to_chars(text);
        let mut i: usize = 0;
        while i < chars.len()
            invariant
                i <= chars.len(),
                chars@ == text@,
                self.ended == old(self).ended,
                self.partial@ == old(self).partial@ + chars@.take(i as int),
            decreases chars.len() - i,
        {
            self.partial.push(chars[i]);
            i += 1;
            assert(self.partial@ =~= old(self).partial@ + chars@.take(i as int));
        }
        assert(chars@.take(i as int) =~= chars@);
    }

    /// Appends bytes that were read from the stream, as the text they hold.
    pub fn feed(&mut self, bytes: &[u8])
        ensures
            final(self)@ == (LineBufferView {
                partial: old(self)@.partial + utf8_lossy(bytes@),
                ..old(self)@
            }),
    {
        let text = decode_lossy(bytes);
        self.push_str(text.as_str());
    }

    /// Records that the stream has ended: what is left in the buffer is its
    /// last line.
    pub fn close(&mut self)
        ensures
            final(self)@ == (LineBufferView { ended: true, ..old(self)@ }),
    {
        self.ended = true;
    }

    /// Whether nothing is left in the buffer.
    pub fn is_empty(&self) -> (r: bool)
        ensures
            r == (self@.partial.len() == 0),
    {
        self.partial.len() == 0
    }

    fn drop_front(&mut self, n: usize)
        requires
            n <= old(self).partial@.len(),
        ensures
            final(self).partial@ == old(self).partial@.skip(n as int),
            final(self).ended == old(self).ended,
    {
        let mut rest: Vec<char> = Vec::new();
        let mut i: usize = n;
        while i < self.partial.len()
            invariant
                n <= i <= self.partial.len(),
                rest@ == self.partial@.subrange(n as int, i as int),
            decreases self.partial.len() - i,
        {
            rest.push(self.partial[i]);
            i += 1;
            assert(rest@ =~= self.partial@.subrange(n as int, i as int));
        }
        assert(rest@ =~= self.partial@.skip(n as int));
        self.partial = rest;
    }

    /// Hands out the next complete line, without its line break. Where the
    /// buffer holds no line break, it hands out what is left once the stream
    /// has ended, and nothing before that.
    pub fn read_line(&mut self) -> (r: Option<String>)
        ensures
            crate::text::opt_text(r) == old(self)@.next_line(),
            final(self)@ == if r is Some {
                old(self)@.after_line()
            } else {
                old(self)@
            },
    {
        let line_break = to_chars("\n");
        proof {
            lemma_first_match_from(self.partial@, line_break@, 0);
        }
        match find(&self.partial, &line_break) {
            Some(at) => {
                assert(at + line_break.len() <= self.partial.len());
                let line = string_of_range(&self.partial, 0, at);
                self.drop_front(at + line_break.len());
                Some(line)
            },
            None => {
                if self.ended && self.partial.len() > 0 {
                    let line = string_of(&self.partial);
                    self.partial = Vec::new();
                    Some(line)
                } else {
                    None
                }
            },
        }
    }

    /// Hands out what is left in the buffer, whether or not the stream has
    /// ended, and leaves the buffer empty.
    pub fn flush_remaining(&mut self) -> (r: Option<String>)
        ensures
            crate::text::opt_text(r) == if old(self)@.partial.len() > 0 {
                Some(old(self)@.partial)
            } else {
                None
            },
            final(self)@ == (LineBufferView { partial: Seq::empty(), ..old(self)@ }),
    {
        if self.partial.len() > 0 {
            let line = string_of(&self.partial);
            self.partial = Vec::new();
            Some(line)
        } else {
            assert(self.partial@ =~= Seq::empty());
            None
        }
    }

    /// Hands out up to `n` lines: as many as `n` reads in a row give.
    pub fn take_lines(&mut self, n: usize) -> (lines: Vec<String>)
        ensures
            crate::text::texts(lines@) == old(self)@.lines_taken(n as nat),
            final(self)@ == old(self)@.after_lines(n as nat),
    {
        let mut lines: Vec<String> = Vec::new();
        let mut left: usize = n;
        assert(crate::text::texts(lines@) =~= Seq::empty());
        loop
            invariant
                left <= n,
                old(self)@.lines_taken(n as nat) == crate::text::texts(lines@) + self@.lines_taken(
                    left as nat,
                ),
                old(self)@.after_lines(n as nat) == self@.after_lines(left as nat),
            decreases left,
        {
            if left == 0 {
                assert(crate::text::texts(lines@) + Seq::<Seq<char>>::empty() =~= crate::text::texts(
                    lines@,
                ));
                return lines;
            }
            let ghost before = self@;
            let ghost had = crate::text::texts(lines@);
            match self.read_line() {
                Some(line) => {
                    lines.push(line);
                    left -= 1;
                    assert(crate::text::texts(lines@) =~= had.push(line@));
                    assert(had + (seq![line@] + self@.lines_taken(left as nat)) =~= had.push(line@)
                        + self@.lines_taken(left as nat));
                },
                None => {
                    assert(had + Seq::<Seq<char>>::empty() =~= had);
                    return lines;
                },
            }
        }
    }

    /// Hands out the next two lines. Where fewer than two can be had, it
    /// hands out nothing, and the one line that was read is lost.
    pub fn read_pair(&mut self) -> (r: Option<(String, String)>)
        ensures
            final(self)@ == old(self)@.after_lines(2),
            match r {
                Some((first, second)) => old(self)@.lines_taken(2) == seq![first@, second@],
                None => old(self)@.lines_taken(2).len() < 2,
            },
    {
        let mut lines = self.take_lines(2);
        if lines.len() == 2 {
            let second = lines.pop().unwrap();
            let first = lines.pop().unwrap();
            assert(old(self)@.lines_taken(2) =~= seq![first@, second@]);
            Some((first, second))
        } else {
            proof {
                lemma_lines_taken_bound(old(self)@, 2);
            }
            None
        }
    }

    /// Hands out the next panic group: the header of a panic and the line
    /// that follows it, gathered from at most four lines.
    pub fn read_panic_group(&mut self) -> (r: Option<String>)
        ensures
            final(self)@ == old(self)@.scan_group(
                PANIC_GROUP_LINES as nat,
                Seq::empty(),
                false,
            ).buffer,
            crate::text::opt_text(r) == old(self)@.scan_group(
                PANIC_GROUP_LINES as nat,
                Seq::empty(),
                false,
            ).group(),
    {
        let note = to_chars("note: run with `RUST_BACKTRACE=1`");
        let trace = to_chars("stack backtrace:");
        let thread = to_chars("thread '");
        let panicked = to_chars("' panicked at ");
        let mut lines: Vec<String> = Vec::new();
        let mut found = false;
        let mut left: usize = PANIC_GROUP_LINES;
        let ghost goal = self@.scan_group(PANIC_GROUP_LINES as nat, Seq::empty(), false);
        assert(crate::text::texts(lines@) =~= Seq::empty());
        while left > 0
            invariant_except_break
                goal == self@.scan_group(left as nat, crate::text::texts(lines@), found),
            invariant
                note@ == "note: run with `RUST_BACKTRACE=1`"@,
                trace@ == "stack backtrace:"@,
                thread@ == "thread '"@,
                panicked@ == "' panicked at "@,
            ensures
                goal == (GroupScan { buffer: self@, lines: crate::text::texts(lines@), found }),
            decreases left,
        {
            let ghost had = crate::text::texts(lines@);
            match self.read_line() {
                None => {
                    break ;
                },
                Some(line) => {
                    left -= 1;
                    let chars = to_chars(line.as_str());
                    let shown = trimmed(&chars);
                    if shown.len() == 0 {
                        continue ;
                    }
                    if matches_at(&shown, &note, 0) || matches_at(&shown, &trace, 0) {
                        break ;
                    }
                    if matches_at(&shown, &thread, 0) && has_match(&shown, &panicked) {
                        found = true;
                    }
                    lines.push(line);
                    assert(crate::text::texts(lines@) =~= had.push(line@));
                    if found && lines.len() >= 2 {
                        break ;
                    }
                },
            }
        }
        if lines.len() >= 2 && found {
            Some(join(&lines))
        } else {
            None
        }
    }
}

/// `n` reads in a row hand out at most `n` lines.
pub proof fn lemma_lines_taken_bound(buffer: LineBufferView, n: nat)
    ensures
        buffer.lines_taken(n).len() <= n,
    decreases n,
{
    if n > 0 && buffer.next_line() is Some {
        lemma_lines_taken_bound(buffer.after_line(), (n - 1) as nat);
    }
}

/// The lines `lines` with a line break between each two.
pub fn join(lines: &Vec<String>) -> (r: String)
    ensures
        r@ == join_lines(crate::text::texts(lines@)),
{
    let mut out: Vec<char> = Vec::new();
    let mut i: usize = 0;
    let ghost all = crate::text::texts(lines@);
    assert(all.take(0) =~= Seq::empty());
    while i < lines.len()
        invariant
            i <= lines.len(),
            all == crate::text::texts(lines@),
            out@ == join_lines(all.take(i as int)),
        decreases lines.len() - i,
    {
        let ghost before = out@;
        if i > 0 {
            out.push('\n');
        }
        let chars = to_chars(lines[i].as_str());
        let mut k: usize = 0;
        let ghost start = out@;
        while k < chars.len()
            invariant
                k <= chars.len(),
                out@ == start + chars@.take(k as int),
            decreases chars.len() - k,
        {
            out.push(chars[k]);
            k += 1;
            assert(out@ =~= start + chars@.take(k as int));
        }
        assert(chars@.take(k as int) =~= chars@);
        proof {
            reveal_strlit("\n");
            let next = all.take(i + 1);
            assert(next.drop_last() =~= all.take(i as int));
            assert(next.last() == chars@);
            if i > 0 {
                assert("\n"@ =~= seq!['\n']);
                assert(out@ =~= before + "\n"@ + chars@);
            } else {
                assert(next.len() == 1);
                assert(out@ =~= chars@);
            }
        }
        i += 1;
    }
    assert(all.take(i as int) =~= all);
    string_of(&out)
}

} // verus!
