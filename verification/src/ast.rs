//! Syntax tree of the shell language.
//!
//! Every node carries its source location so that diagnostics can point
//! back into the command text.  Offsets count characters of the source.

use vstd::prelude::*;

verus! {

/// Half-open range of character offsets into the source text.
#[derive(Debug, Clone, Copy, PartialEq, Eq, Structural)]
pub struct Span {
    pub start: usize,
    pub end: usize,
}

impl Span {
    pub fn new(start: usize, end: usize) -> (r: Self)
        ensures
            r.start == start,
            r.end == end,
    {
        Self { start, end }
    }

    pub fn dummy() -> (r: Self)
        ensures
            r.start == 0,
            r.end == 0,
    {
        Self { start: 0, end: 0 }
    }
}

/// Line and column position in source text, both 1-based.
#[derive(Debug, Clone, Copy, PartialEq, Eq, Structural)]
pub struct Position {
    pub line: usize,
    pub column: usize,
}

impl Position {
    pub fn new(line: usize, column: usize) -> (r: Self)
        ensures
            r.line == line,
            r.column == column,
    {
        Self { line, column }
    }
}

/// Character offsets at which each line of `s` begins: offset 0, and one
/// offset just past every newline.
pub open spec fn line_starts_spec(s: Seq<char>) -> Seq<usize>
    decreases s.len(),
{
    if s.len() == 0 {
        seq![0usize]
    } else {
        let pre = line_starts_spec(s.drop_last());
        if s[s.len() - 1] == '\n' {
            pre.push(s.len() as usize)
        } else {
            pre
        }
    }
}

/// Index of the line that contains offset `off`: the largest `k` with
/// `starts[k] <= off`.
pub open spec fn line_index_spec(starts: Seq<usize>, off: int) -> int
    decreases starts.len(),
{
    if starts.len() <= 1 {
        0
    } else if starts[starts.len() - 1] <= off {
        starts.len() - 1
    } else {
        line_index_spec(starts.drop_last(), off)
    }
}

/// `n + 1`, capped at the largest `usize`.
pub open spec fn saturating_inc(n: int) -> int {
    if n + 1 <= usize::MAX {
        n + 1
    } else {
        usize::MAX as int
    }
}

/// The line/column position of offset `off` in `source`: what a source
/// map built from `source` reports.
pub open spec fn position_in(source: Seq<char>, off: int) -> Position {
    let starts = line_starts_spec(source);
    let k = line_index_spec(starts, off);
    Position { line: (k + 1) as usize, column: saturating_inc(off - starts[k]) as usize }
}

/// Converts character offsets to line/column positions for diagnostics.
pub struct SourceMap {
    line_starts: Vec<usize>,
}

impl SourceMap {
    /// The table of line start offsets.
    pub closed spec fn starts(self) -> Seq<usize> {
        self.line_starts@
    }

    /// The table is non-empty, begins at offset 0, and strictly increases.
    pub open spec fn wf(self) -> bool {
        &&& self.starts().len() >= 1
        &&& self.starts()[0] == 0
        &&& forall|i: int, j: int|
            0 <= i < j < self.starts().len() ==> self.starts()[i] < self.starts()[j]
    }

    /// The position that `position` reports for `off`.
    pub open spec fn position_spec(self, off: int) -> Position {
        let k = line_index_spec(self.starts(), off);
        Position {
            line: (k + 1) as usize,
            column: saturating_inc(off - self.starts()[k]) as usize,
        }
    }

    pub fn new(source: &str) -> (r: Self)
        ensures
            r.starts() == line_starts_spec(source@),
            r.wf(),
    {
        let len = source.unicode_len();
        let mut line_starts: Vec<usize> = Vec::new();
        line_starts.push(0);
        let mut pos: usize = 0;
        while pos < len
            invariant
                len == source@.len(),
                pos <= len,
                line_starts@ == line_starts_spec(source@.subrange(0, pos as int)),
                line_starts@.len() >= 1,
                line_starts@[0] == 0,
                forall|i: int, j: int|
                    0 <= i < j < line_starts@.len() ==> line_starts@[i] < line_starts@[j],
                forall|i: int| 0 <= i < line_starts@.len() ==> line_starts@[i] <= pos,
            decreases len - pos,
        {
            let ch = source.get_char(pos);
            if ch == '\n' {
                line_starts.push(pos + 1);
            }
            proof {
                assert(source@.subrange(0, pos + 1).drop_last() =~= source@.subrange(
                    0,
                    pos as int,
                ));
            }
            pos = pos + 1;
        }
        proof {
            assert(source@.subrange(0, len as int) =~= source@);
        }
        Self { line_starts }
    }

    pub fn position(&self, byte_offset: usize) -> (r: Position)
        requires
            self.wf(),
        ensures
            r == self.position_spec(byte_offset as int),
    {
        let n = self.line_starts.len();
        let mut k: usize = 0;
        while k + 1 < n && self.line_starts[k + 1] <= byte_offset
            invariant
                self.wf(),
                n == self.starts().len(),
                k < n,
                self.starts()[k as int] <= byte_offset,
            decreases n - k,
        {
            k = k + 1;
        }
        proof {
            lemma_line_index_bounds(self.starts(), byte_offset as int, k as int);
        }
        let start = self.line_starts[k];
        let diff = byte_offset - start;
        let column = if diff < usize::MAX {
            diff + 1
        } else {
            diff
        };
        Position { line: k + 1, column }
    }

    pub fn span_to_positions(&self, span: Span) -> (r: (Position, Position))
        requires
            self.wf(),
        ensures
            r.0 == self.position_spec(span.start as int),
            r.1 == self.position_spec(span.end as int),
    {
        (self.position(span.start), self.position(span.end))
    }
}

/// In a strictly increasing table that starts at or below `off`, the largest
/// index whose start is at most `off` is pinned down by its neighbours.
proof fn lemma_line_index_bounds(starts: Seq<usize>, off: int, k: int)
    requires
        starts.len() >= 1,
        forall|i: int, j: int| 0 <= i < j < starts.len() ==> starts[i] < starts[j],
        0 <= k < starts.len(),
        starts[k] <= off,
        k + 1 < starts.len() ==> starts[k + 1] > off,
    ensures
        line_index_spec(starts, off) == k,
    decreases starts.len(),
{
    if starts.len() <= 1 {
    } else if starts[starts.len() - 1] <= off {
        if k < starts.len() - 1 {
            assert(starts[k + 1] <= starts[starts.len() - 1]);
        }
        assert(line_index_spec(starts, off) == starts.len() - 1);
    } else {
        assert(k < starts.len() - 1);
        lemma_line_index_bounds(starts.drop_last(), off, k);
    }
}

/// A syntax tree node together with its source location.
#[derive(Debug, Clone)]
pub struct Spanned<T> {
    pub node: T,
    pub span: Span,
}

impl<T> Spanned<T> {
    pub fn new(node: T, span: Span) -> (r: Self)
        ensures
            r.node == node,
            r.span == span,
    {
        Self { node, span }
    }
}

/// Top-level program: the commands of a script, in order.
#[derive(Debug)]
pub struct Program {
    pub commands: Vec<Spanned<Command>>,
}

/// Kind of an I/O redirection.
#[derive(Debug, Clone)]
pub enum RedirectionKind {
    /// `< file`: standard input from file.
    Input,
    /// `> file`: standard output to file.
    Output,
    /// `>> file`: standard output appended to file.
    Append,
    /// `<< delimiter`: here-document.
    HereDoc { delimiter: String, text: String },
    /// `<<- delimiter`: here-document with tab stripping.
    HereDocDash { delimiter: String, text: String },
    /// `<& fd`: duplicate an input descriptor.
    InputDup,
    /// `>& fd`: duplicate an output descriptor.
    OutputDup,
    /// `<> file`: open for reading and writing.
    InputOutput,
    /// `>| file`: force truncation.
    Clobber,
}

/// One I/O redirection of a command.
#[derive(Debug, Clone)]
pub struct Redirection {
    /// Descriptor number; `None` means 0 for input kinds, 1 for output kinds.
    pub fd: Option<i32>,
    pub kind: RedirectionKind,
    /// Target file name or descriptor number.
    pub target: String,
}

/// A shell command, following the POSIX command hierarchy.
#[derive(Debug)]
pub enum Command {
    /// Executable leaf with prefix assignments and redirections.
    Simple {
        name: String,
        args: Vec<String>,
        assignments: Vec<(String, String)>,
        redirections: Vec<Redirection>,
    },
    /// `cmd1 | cmd2 | cmd3`
    Pipeline { commands: Vec<Spanned<Command>>, redirections: Vec<Redirection> },
    /// Standalone `var=value` list; no command is run.
    Assignment { assignments: Vec<(String, String)> },
    /// `left && right`
    AndIf { left: Box<Spanned<Command>>, right: Box<Spanned<Command>> },
    /// `left || right`
    OrIf { left: Box<Spanned<Command>>, right: Box<Spanned<Command>> },
    /// `cmd1; cmd2`
    Sequence { commands: Vec<Spanned<Command>> },
    /// `cmd &`
    Background { command: Box<Spanned<Command>> },
    /// `if c; then ...; elif c2; then ...; else ...; fi`
    If {
        condition: Box<Spanned<Command>>,
        then_body: Vec<Spanned<Command>>,
        elif_clauses: Vec<(Spanned<Command>, Vec<Spanned<Command>>)>,
        else_body: Option<Vec<Spanned<Command>>>,
    },
    /// `while c; do ...; done`
    While { condition: Box<Spanned<Command>>, body: Vec<Spanned<Command>> },
    /// `until c; do ...; done`
    Until { condition: Box<Spanned<Command>>, body: Vec<Spanned<Command>> },
    /// `for name in words; do ...; done`; `words = None` means the positional
    /// parameters, which this core treats as an empty list.
    For { variable: String, words: Option<Vec<String>>, body: Vec<Spanned<Command>> },
    /// `case word in pattern) ... ;; esac`
    Case { word: String, arms: Vec<CaseArm> },
    /// `name() { ... }`
    Function { name: String, body: Box<Spanned<Command>>, redirections: Vec<Redirection> },
    /// `( ... )`: runs in a copy of the enclosing scope.
    Subshell { commands: Vec<Spanned<Command>> },
    /// `{ ...; }`: runs in the enclosing scope itself.
    BraceGroup { commands: Vec<Spanned<Command>> },
}

/// One arm of a `case` command.
#[derive(Debug)]
pub struct CaseArm {
    /// Patterns the word is compared against; an exact match selects the arm.
    pub patterns: Vec<String>,
    /// Commands run when the arm is selected.
    pub commands: Vec<Spanned<Command>>,
}

/// The character for a single decimal digit.
pub open spec fn digit_char(d: int) -> char {
    if d == 1 {
        '1'
    } else if d == 2 {
        '2'
    } else if d == 3 {
        '3'
    } else if d == 4 {
        '4'
    } else if d == 5 {
        '5'
    } else if d == 6 {
        '6'
    } else if d == 7 {
        '7'
    } else if d == 8 {
        '8'
    } else if d == 9 {
        '9'
    } else {
        '0'
    }
}

/// The decimal digits of a non-negative number, most significant first.
pub open spec fn decimal_digits(n: int) -> Seq<char>
    decreases n,
{
    if n < 10 {
        seq![digit_char(n)]
    } else {
        decimal_digits(n / 10).push(digit_char(n % 10))
    }
}

fn digit_string(d: usize) -> (r: String)
    requires
        d < 10,
    ensures
        r@ =~= seq![digit_char(d as int)],
{
    if d == 1 {
        proof {
            reveal_strlit("1");
        }
        String::from_str("1")
    } else if d == 2 {
        proof {
            reveal_strlit("2");
        }
        String::from_str("2")
    } else if d == 3 {
        proof {
            reveal_strlit("3");
        }
        String::from_str("3")
    } else if d == 4 {
        proof {
            reveal_strlit("4");
        }
        String::from_str("4")
    } else if d == 5 {
        proof {
            reveal_strlit("5");
        }
        String::from_str("5")
    } else if d == 6 {
        proof {
            reveal_strlit("6");
        }
        String::from_str("6")
    } else if d == 7 {
        proof {
            reveal_strlit("7");
        }
        String::from_str("7")
    } else if d == 8 {
        proof {
            reveal_strlit("8");
        }
        String::from_str("8")
    } else if d == 9 {
        proof {
            reveal_strlit("9");
        }
        String::from_str("9")
    } else {
        proof {
            reveal_strlit("0");
        }
        String::from_str("0")
    }
}

/// Renders a number in decimal.
pub fn decimal_string(n: usize) -> (r: String)
    ensures
        r@ == decimal_digits(n as int),
    decreases n,
{
    if n < 10 {
        digit_string(n)
    } else {
        let prefix = decimal_string(n / 10);
        let last = digit_string(n % 10);
        let r = prefix.concat(last.as_str());
        proof {
            assert(r@ =~= decimal_digits(n as int));
        }
        r
    }
}

/// Spec-level image of a `ShexError`.
pub ghost enum ErrView {
    Syntax { message: Seq<char>, span: Span, filename: Seq<char>, line: int, column: int },
    UndefinedVariable { var: Seq<char>, span: Span, filename: Seq<char>, line: int, column: int },
    CommandNotFound {
        command: Seq<char>,
        span: Span,
        filename: Seq<char>,
        line: int,
        column: int,
    },
}

impl ErrView {
    pub open spec fn span(self) -> Span {
        match self {
            ErrView::Syntax { span, .. } => span,
            ErrView::UndefinedVariable { span, .. } => span,
            ErrView::CommandNotFound { span, .. } => span,
        }
    }
}

/// The error wire format: `Shex:{file}:{line}:{col}: ERR_{KIND}: {detail}`.
pub open spec fn render_spec(e: ErrView) -> Seq<char> {
    match e {
        ErrView::Syntax { message, filename, line, column, .. } => "Shex:"@ + filename + ":"@
            + decimal_digits(line) + ":"@ + decimal_digits(column) + ": ERR_SYNTAX: "@ + message,
        ErrView::UndefinedVariable { var, filename, line, column, .. } => "Shex:"@ + filename
            + ":"@ + decimal_digits(line) + ":"@ + decimal_digits(column) + ": ERR_UNDEF_VAR: "@
            + var + " is not set"@,
        ErrView::CommandNotFound { command, filename, line, column, .. } => "Shex:"@ + filename
            + ":"@ + decimal_digits(line) + ":"@ + decimal_digits(column)
            + ": ERR_COMMAND_NOT_FOUND: "@ + command + " not found"@,
    }
}

/// An error of the interpreter, located in the source text.
#[derive(Debug)]
pub enum ShexError {
    Syntax { message: String, span: Span, filename: String, line: usize, column: usize },
    UndefinedVariable { var: String, span: Span, filename: String, line: usize, column: usize },
    CommandNotFound { command: String, span: Span, filename: String, line: usize, column: usize },
}

impl View for ShexError {
    type V = ErrView;

    open spec fn view(&self) -> ErrView {
        match self {
            ShexError::Syntax { message, span, filename, line, column } => ErrView::Syntax {
                message: message@,
                span: *span,
                filename: filename@,
                line: *line as int,
                column: *column as int,
            },
            ShexError::UndefinedVariable {
                var,
                span,
                filename,
                line,
                column,
            } => ErrView::UndefinedVariable {
                var: var@,
                span: *span,
                filename: filename@,
                line: *line as int,
                column: *column as int,
            },
            ShexError::CommandNotFound {
                command,
                span,
                filename,
                line,
                column,
            } => ErrView::CommandNotFound {
                command: command@,
                span: *span,
                filename: filename@,
                line: *line as int,
                column: *column as int,
            },
        }
    }
}

impl ShexError {
    pub fn syntax(message: String, span: Span, source_map: &SourceMap, filename: &str) -> (r: Self)
        requires
            source_map.wf(),
        ensures
            r@ == (ErrView::Syntax {
                message: message@,
                span: span,
                filename: filename@,
                line: source_map.position_spec(span.start as int).line as int,
                column: source_map.position_spec(span.start as int).column as int,
            }),
    {
        let pos = source_map.position(span.start);
        ShexError::Syntax {
            message,
            span,
            filename: String::from_str(filename),
            line: pos.line,
            column: pos.column,
        }
    }

    pub fn undefined_variable(var: String, span: Span, source_map: &SourceMap, filename: &str) -> (r:
        Self)
        requires
            source_map.wf(),
        ensures
            r@ == (ErrView::UndefinedVariable {
                var: var@,
                span: span,
                filename: filename@,
                line: source_map.position_spec(span.start as int).line as int,
                column: source_map.position_spec(span.start as int).column as int,
            }),
    {
        let pos = source_map.position(span.start);
        ShexError::UndefinedVariable {
            var,
            span,
            filename: String::from_str(filename),
            line: pos.line,
            column: pos.column,
        }
    }

    pub fn command_not_found(command: String, span: Span, source_map: &SourceMap, filename: &str) -> (r:
        Self)
        requires
            source_map.wf(),
        ensures
            r@ == (ErrView::CommandNotFound {
                command: command@,
                span: span,
                filename: filename@,
                line: source_map.position_spec(span.start as int).line as int,
                column: source_map.position_spec(span.start as int).column as int,
            }),
    {
        let pos = source_map.position(span.start);
        ShexError::CommandNotFound {
            command,
            span,
            filename: String::from_str(filename),
            line: pos.line,
            column: pos.column,
        }
    }

    pub fn span(&self) -> (r: Span)
        ensures
            r == self@.span(),
    {
        match self {
            ShexError::Syntax { span, .. } => *span,
            ShexError::UndefinedVariable { span, .. } => *span,
            ShexError::CommandNotFound { span, .. } => *span,
        }
    }

    /// The error rendered in the wire format.
    pub fn message(&self) -> (r: String)
        ensures
            r@ == render_spec(self@),
    {
        match self {
            ShexError::Syntax { message, filename, line, column, .. } => {
                let mut s = String::from_str("Shex:");
                s.append(filename.as_str());
                s.append(":");
                s.append(decimal_string(*line).as_str());
                s.append(":");
                s.append(decimal_string(*column).as_str());
                s.append(": ERR_SYNTAX: ");
                s.append(message.as_str());
                s
            },
            ShexError::UndefinedVariable { var, filename, line, column, .. } => {
                let mut s = String::from_str("Shex:");
                s.append(filename.as_str());
                s.append(":");
                s.append(decimal_string(*line).as_str());
                s.append(":");
                s.append(decimal_string(*column).as_str());
                s.append(": ERR_UNDEF_VAR: ");
                s.append(var.as_str());
                s.append(" is not set");
                s
            },
            ShexError::CommandNotFound { command, filename, line, column, .. } => {
                let mut s = String::from_str("Shex:");
                s.append(filename.as_str());
                s.append(":");
                s.append(decimal_string(*line).as_str());
                s.append(":");
                s.append(decimal_string(*column).as_str());
                s.append(": ERR_COMMAND_NOT_FOUND: ");
                s.append(command.as_str());
                s.append(" not found");
                s
            },
        }
    }
}

} // verus!
