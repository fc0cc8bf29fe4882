use vstd::prelude::*;

use crate::text::chars_of;

verus! {

/// The deepest nesting of a text that is handed to the TOML parser.
pub const MAX_NESTING: u64 = 128;

/// Where in a TOML text a scan stands.
#[derive(Clone, Copy, Debug, PartialEq, Eq, Structural)]
pub enum Mode {
    /// Between tokens, or in a key or a bare value.
    Plain,
    /// In a comment, which runs to the end of the line.
    Comment,
    /// In the line of a table header, outside its quoted keys.
    Header,
    /// In a quoted key of a table header, with escapes.
    HeaderBasic,
    /// Behind a backslash in such a key.
    HeaderBasicEscape,
    /// In a quoted key of a table header, without escapes.
    HeaderLiteral,
    /// In the comment behind a table header.
    HeaderComment,
    /// Behind one quotation mark, double if `basic`.
    Opened { basic: bool },
    /// Behind two quotation marks.
    OpenedTwice { basic: bool },
    /// In a string of one line.
    Line { basic: bool },
    /// Behind a backslash in a string of one line.
    LineEscape,
    /// In a string of several lines.
    Block { basic: bool },
    /// In a string of several lines, behind one quotation mark.
    BlockOne { basic: bool },
    /// In a string of several lines, behind two quotation marks.
    BlockTwo { basic: bool },
    /// Behind a backslash in a string of several lines.
    BlockEscape,
    /// Behind the three quotation marks that close a string of several
    /// lines: up to two more belong to the string.
    Closed { basic: bool },
    /// Behind the first of those two.
    ClosedOne { basic: bool },
}

/// What a scan of a TOML text knows at one point of it.
pub struct Scan {
    /// Where the scan stands.
    pub mode: Mode,
    /// For each array and inline table that is open, the nesting from the
    /// outermost of them down to it: one for each of them, and one for each
    /// dot of the key that is being given in each.
    pub levels: Seq<u64>,
    /// The dots in the statement at hand, outside arrays and inline tables.
    pub top: u64,
    /// Twice the parts of the last table header: each part may be a table
    /// in an array of tables.
    pub header: u64,
    /// Nothing but blanks has been seen of the statement at hand.
    pub fresh: bool,
    /// The nesting was beyond the limit at some point.
    pub over: bool,
}

/// One more, as far as the type reaches.
pub open spec fn bump(x: u64) -> u64 {
    if x < u64::MAX {
        (x + 1) as u64
    } else {
        x
    }
}

/// The nesting down to the innermost open array or inline table.
pub open spec fn inner(levels: Seq<u64>) -> u64 {
    if levels.len() == 0 {
        0
    } else {
        levels.last()
    }
}

/// The nesting at a point: the parts of the table header, the dots of the
/// keys on the way, and the arrays and inline tables that are open.
pub open spec fn nesting(s: Scan) -> int {
    s.header + s.top + inner(s.levels)
}

/// The quotation mark of a kind of string.
pub open spec fn delimiter(basic: bool) -> char {
    if basic {
        '"'
    } else {
        '\''
    }
}

/// The scan before the first character.
pub open spec fn start() -> Scan {
    Scan { mode: Mode::Plain, levels: Seq::empty(), top: 0, header: 0, fresh: true, over: false }
}

/// The end of a line outside strings: outside arrays and inline tables it
/// ends the statement.
pub open spec fn line_end(s: Scan) -> Scan {
    if s.levels.len() == 0 {
        Scan { mode: Mode::Plain, top: 0, fresh: true, ..s }
    } else {
        Scan { mode: Mode::Plain, ..s }
    }
}

/// A character between tokens.
pub open spec fn plain(s: Scan, c: char) -> Scan {
    let n = s.levels.len() as int;
    if c == '\n' {
        line_end(s)
    } else if c == ' ' || c == '\t' || c == '\u{feff}' {
        Scan { mode: Mode::Plain, ..s }
    } else if c == '#' {
        Scan { mode: Mode::Comment, ..s }
    } else if c == '"' {
        Scan { mode: Mode::Opened { basic: true }, fresh: false, ..s }
    } else if c == '\'' {
        Scan { mode: Mode::Opened { basic: false }, fresh: false, ..s }
    } else if c == '[' && s.fresh && n == 0 {
        Scan { mode: Mode::Header, header: 2, fresh: false, ..s }
    } else if c == '[' || c == '{' {
        Scan { mode: Mode::Plain, levels: s.levels.push(bump(inner(s.levels))), fresh: false, ..s }
    } else if c == ']' || c == '}' {
        if n == 0 {
            Scan { mode: Mode::Plain, fresh: false, ..s }
        } else {
            Scan { mode: Mode::Plain, levels: s.levels.drop_last(), fresh: false, ..s }
        }
    } else if c == '.' {
        if n == 0 {
            Scan { mode: Mode::Plain, top: bump(s.top), fresh: false, ..s }
        } else {
            Scan {
                mode: Mode::Plain,
                levels: s.levels.update(n - 1, bump(s.levels.last())),
                fresh: false,
                ..s
            }
        }
    } else if c == ',' {
        if n == 0 {
            Scan { mode: Mode::Plain, fresh: false, ..s }
        } else {
            Scan {
                mode: Mode::Plain,
                levels: s.levels.update(n - 1, bump(inner(s.levels.drop_last()))),
                fresh: false,
                ..s
            }
        }
    } else {
        Scan { mode: Mode::Plain, fresh: false, ..s }
    }
}

/// A character in the line of a table header. The line is left at its end,
/// whatever it holds.
pub open spec fn header_line(s: Scan, c: char) -> Scan {
    if c == '\n' {
        Scan { mode: Mode::Plain, top: 0, fresh: true, ..s }
    } else {
        match s.mode {
            Mode::Header => if c == '.' {
                Scan { header: bump(bump(s.header)), ..s }
            } else if c == '"' {
                Scan { mode: Mode::HeaderBasic, ..s }
            } else if c == '\'' {
                Scan { mode: Mode::HeaderLiteral, ..s }
            } else if c == '#' {
                Scan { mode: Mode::HeaderComment, ..s }
            } else {
                s
            },
            Mode::HeaderBasic => if c == '"' {
                Scan { mode: Mode::Header, ..s }
            } else if c == '\\' {
                Scan { mode: Mode::HeaderBasicEscape, ..s }
            } else {
                s
            },
            Mode::HeaderBasicEscape => Scan { mode: Mode::HeaderBasic, ..s },
            Mode::HeaderLiteral => if c == '\'' {
                Scan { mode: Mode::Header, ..s }
            } else {
                s
            },
            _ => s,
        }
    }
}

/// A character in a string of one line.
pub open spec fn in_line(s: Scan, basic: bool, c: char) -> Scan {
    if c == '\n' {
        line_end(s)
    } else if c == delimiter(basic) {
        Scan { mode: Mode::Plain, ..s }
    } else if basic && c == '\\' {
        Scan { mode: Mode::LineEscape, ..s }
    } else {
        Scan { mode: Mode::Line { basic }, ..s }
    }
}

/// A character in a string of several lines that is no quotation mark of
/// the string's kind.
pub open spec fn in_block(s: Scan, basic: bool, c: char) -> Scan {
    if basic && c == '\\' {
        Scan { mode: Mode::BlockEscape, ..s }
    } else {
        Scan { mode: Mode::Block { basic }, ..s }
    }
}

/// The scan after a character other than a carriage return.
pub open spec fn moved(s: Scan, c: char) -> Scan {
    match s.mode {
        Mode::Plain => plain(s, c),
        Mode::Comment => if c == '\n' {
            line_end(s)
        } else {
            s
        },
        Mode::Header | Mode::HeaderBasic | Mode::HeaderBasicEscape | Mode::HeaderLiteral | Mode::HeaderComment => header_line(
            s,
            c,
        ),
        Mode::Opened { basic } => if c == delimiter(basic) {
            Scan { mode: Mode::OpenedTwice { basic }, ..s }
        } else {
            in_line(s, basic, c)
        },
        Mode::OpenedTwice { basic } => if c == delimiter(basic) {
            Scan { mode: Mode::Block { basic }, ..s }
        } else {
            plain(s, c)
        },
        Mode::Line { basic } => in_line(s, basic, c),
        Mode::LineEscape => if c == '\n' {
            line_end(s)
        } else {
            Scan { mode: Mode::Line { basic: true }, ..s }
        },
        Mode::Block { basic } => if c == delimiter(basic) {
            Scan { mode: Mode::BlockOne { basic }, ..s }
        } else {
            in_block(s, basic, c)
        },
        Mode::BlockOne { basic } => if c == delimiter(basic) {
            Scan { mode: Mode::BlockTwo { basic }, ..s }
        } else {
            in_block(s, basic, c)
        },
        Mode::BlockTwo { basic } => if c == delimiter(basic) {
            Scan { mode: Mode::Closed { basic }, ..s }
        } else {
            in_block(s, basic, c)
        },
        Mode::BlockEscape => Scan { mode: Mode::Block { basic: true }, ..s },
        Mode::Closed { basic } => if c == delimiter(basic) {
            Scan { mode: Mode::ClosedOne { basic }, ..s }
        } else {
            plain(s, c)
        },
        Mode::ClosedOne { basic } => if c == delimiter(basic) {
            Scan { mode: Mode::Plain, ..s }
        } else {
            plain(s, c)
        },
    }
}

/// The scan after a character. A carriage return changes nothing: before a
/// line feed it belongs to the end of the line.
pub open spec fn step(s: Scan, c: char) -> Scan {
    let t = if c == '\r' {
        s
    } else {
        moved(s, c)
    };
    Scan { over: t.over || nesting(t) > MAX_NESTING, ..t }
}

/// The scan at the end of a text.
pub open spec fn scan(text: Seq<char>) -> Scan
    decreases text.len(),
{
    if text.len() == 0 {
        start()
    } else {
        step(scan(text.drop_last()), text.last())
    }
}

/// At no point of the text does the nesting go beyond the limit: the open
/// arrays and inline tables, the dots of the keys that lead to them, and
/// twice the parts of the table header above them, taken together.
/// Comments and strings are passed over.
pub open spec fn shallow(text: Seq<char>) -> bool {
    !scan(text).over
}

/// A scan in progress.
pub struct Scanner {
    mode: Mode,
    levels: Vec<u64>,
    top: u64,
    header: u64,
    fresh: bool,
    over: bool,
}

impl View for Scanner {
    type V = Scan;

    closed spec fn view(&self) -> Scan {
        Scan {
            mode: self.mode,
            levels: self.levels@,
            top: self.top,
            header: self.header,
            fresh: self.fresh,
            over: self.over,
        }
    }
}

fn raised(x: u64) -> (r: u64)
    ensures
        r == bump(x),
{
    if x < u64::MAX {
        x + 1
    } else {
        x
    }
}

impl Scanner {
    /// The scan before the first character.
    pub fn new() -> (r: Scanner)
        ensures
            r@ == start(),
    {
        Scanner { mode: Mode::Plain, levels: Vec::new(), top: 0, header: 0, fresh: true, over: false }
    }

    /// Whether the nesting was beyond the limit at some point.
    pub fn is_over(&self) -> (r: bool)
        ensures
            r == self@.over,
    {
        self.over
    }

    fn innermost(&self) -> (r: u64)
        ensures
            r == inner(self@.levels),
    {
        if self.levels.len() == 0 {
            0
        } else {
            self.levels[self.levels.len() - 1]
        }
    }

    fn end_line(&mut self)
        ensures
            final(self)@ == line_end(old(self)@),
    {
        self.mode = Mode::Plain;
        if self.levels.len() == 0 {
            self.top = 0;
            self.fresh = true;
        }
    }

    fn take_plain(&mut self, c: char)
        ensures
            final(self)@ == plain(old(self)@, c),
    {
        let n = self.levels.len();
        if c == '\n' {
            self.end_line();
        } else if c == ' ' || c == '\t' || c == '\u{feff}' {
            self.mode = Mode::Plain;
        } else if c == '#' {
            self.mode = Mode::Comment;
        } else if c == '"' {
            self.mode = Mode::Opened { basic: true };
            self.fresh = false;
        } else if c == '\'' {
            self.mode = Mode::Opened { basic: false };
            self.fresh = false;
        } else if c == '[' && self.fresh && n == 0 {
            self.mode = Mode::Header;
            self.header = 2;
            self.fresh = false;
        } else if c == '[' || c == '{' {
            let level = raised(self.innermost());
            self.mode = Mode::Plain;
            self.levels.push(level);
            self.fresh = false;
        } else if c == ']' || c == '}' {
            self.mode = Mode::Plain;
            self.fresh = false;
            if n > 0 {
                self.levels.pop();
            }
        } else if c == '.' {
            self.mode = Mode::Plain;
            self.fresh = false;
            if n == 0 {
                self.top = raised(self.top);
            } else {
                let level = raised(self.levels[n - 1]);
                self.levels.set(n - 1, level);
            }
        } else if c == ',' {
            self.mode = Mode::Plain;
            self.fresh = false;
            if n > 0 {
                let below = if n == 1 {
                    0
                } else {
                    self.levels[n - 2]
                };
                assert(below == inner(self.levels@.drop_last()));
                self.levels.set(n - 1, raised(below));
            }
        } else {
            self.mode = Mode::Plain;
            self.fresh = false;
        }
    }

    fn take_header(&mut self, c: char)
        requires
            old(self)@.mode is Header || old(self)@.mode is HeaderBasic || old(self)@.mode
                is HeaderBasicEscape || old(self)@.mode is HeaderLiteral || old(self)@.mode
                is HeaderComment,
        ensures
            final(self)@ == header_line(old(self)@, c),
    {
        if c == '\n' {
            self.mode = Mode::Plain;
            self.top = 0;
            self.fresh = true;
        } else {
            match self.mode {
                Mode::Header => {
                    if c == '.' {
                        self.header = raised(raised(self.header));
                    } else if c == '"' {
                        self.mode = Mode::HeaderBasic;
                    } else if c == '\'' {
                        self.mode = Mode::HeaderLiteral;
                    } else if c == '#' {
                        self.mode = Mode::HeaderComment;
                    }
                },
                Mode::HeaderBasic => {
                    if c == '"' {
                        self.mode = Mode::Header;
                    } else if c == '\\' {
                        self.mode = Mode::HeaderBasicEscape;
                    }
                },
                Mode::HeaderBasicEscape => {
                    self.mode = Mode::HeaderBasic;
                },
                Mode::HeaderLiteral => {
                    if c == '\'' {
                        self.mode = Mode::Header;
                    }
                },
                _ => {},
            }
        }
    }

    fn take_in_line(&mut self, basic: bool, c: char)
        ensures
            final(self)@ == in_line(old(self)@, basic, c),
    {
        if c == '\n' {
            self.end_line();
        } else if c == quote(basic) {
            self.mode = Mode::Plain;
        } else if basic && c == '\\' {
            self.mode = Mode::LineEscape;
        } else {
            self.mode = Mode::Line { basic };
        }
    }

    fn take_in_block(&mut self, basic: bool, c: char)
        ensures
            final(self)@ == in_block(old(self)@, basic, c),
    {
        if basic && c == '\\' {
            self.mode = Mode::BlockEscape;
        } else {
            self.mode = Mode::Block { basic };
        }
    }

    fn take_moved(&mut self, c: char)
        ensures
            final(self)@ == moved(old(self)@, c),
    {
        match self.mode {
            Mode::Plain => {
                self.take_plain(c);
            },
            Mode::Comment => {
                if c == '\n' {
                    self.end_line();
                }
            },
            Mode::Header | Mode::HeaderBasic | Mode::HeaderBasicEscape | Mode::HeaderLiteral | Mode::HeaderComment => {
                self.take_header(c);
            },
            Mode::Opened { basic } => {
                if c == quote(basic) {
                    self.mode = Mode::OpenedTwice { basic };
                } else {
                    self.take_in_line(basic, c);
                }
            },
            Mode::OpenedTwice { basic } => {
                if c == quote(basic) {
                    self.mode = Mode::Block { basic };
                } else {
                    self.take_plain(c);
                }
            },
            Mode::Line { basic } => {
                self.take_in_line(basic, c);
            },
            Mode::LineEscape => {
                if c == '\n' {
                    self.end_line();
                } else {
                    self.mode = Mode::Line { basic: true };
                }
            },
            Mode::Block { basic } => {
                if c == quote(basic) {
                    self.mode = Mode::BlockOne { basic };
                } else {
                    self.take_in_block(basic, c);
                }
            },
            Mode::BlockOne { basic } => {
                if c == quote(basic) {
                    self.mode = Mode::BlockTwo { basic };
                } else {
                    self.take_in_block(basic, c);
                }
            },
            Mode::BlockTwo { basic } => {
                if c == quote(basic) {
                    self.mode = Mode::Closed { basic };
                } else {
                    self.take_in_block(basic, c);
                }
            },
            Mode::BlockEscape => {
                self.mode = Mode::Block { basic: true };
            },
            Mode::Closed { basic } => {
                if c == quote(basic) {
                    self.mode = Mode::ClosedOne { basic };
                } else {
                    self.take_plain(c);
                }
            },
            Mode::ClosedOne { basic } => {
                if c == quote(basic) {
                    self.mode = Mode::Plain;
                } else {
                    self.take_plain(c);
                }
            },
        }
    }

    /// Takes the next character of the text in.
    pub fn take(&mut self, c: char)
        ensures
            final(self)@ == step(old(self)@, c),
    {
        if c != '\r' {
            self.take_moved(c);
        }
        let within = self.innermost();
        if self.header > MAX_NESTING || self.top > MAX_NESTING || within > MAX_NESTING {
            self.over = true;
        } else if self.header + self.top + within > MAX_NESTING {
            self.over = true;
        }
    }
}

fn quote(basic: bool) -> (r: char)
    ensures
        r == delimiter(basic),
{
    if basic {
        '"'
    } else {
        '\''
    }
}

/// Whether a text may be handed to the TOML parser.
pub fn is_shallow(text: &str) -> (r: bool)
    ensures
        r == shallow(text@),
{
    let chars = chars_of(text);
    let mut scanner = Scanner::new();
    let mut i: usize = 0;
    assert(text@.take(0) =~= Seq::<char>::empty());
    while i < chars.len()
        invariant
            chars@ == text@,
            i <= chars.len(),
            scanner@ == scan(text@.take(i as int)),
        decreases chars.len() - i,
    {
        assert(text@.take(i + 1).drop_last() =~= text@.take(i as int));
        assert(text@.take(i + 1).last() == chars[i as int]);
        scanner.take(chars[i]);
        i += 1;
    }
    assert(text@.take(chars.len() as int) =~= text@);
    !scanner.is_over()
}

} // verus!
