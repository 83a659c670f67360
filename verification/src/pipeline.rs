//! Reading the words of a line as a pipeline: commands joined by `|`, with an
//! optional input file, output file and background mark.

use vstd::prelude::*;
use vstd::string::*;
use crate::cmd::Cmd;
use crate::words::{texts, words, split_words, is_blank, blank_has_no_words};

verus! {

/// The word `&`, which sends the line to the background.
pub open spec fn amp() -> Seq<char> {
    seq!['&']
}

/// The word `|`, which ends a stage.
pub open spec fn bar() -> Seq<char> {
    seq!['|']
}

/// The word `<`, which names the input file.
pub open spec fn lt() -> Seq<char> {
    seq!['<']
}

/// The word `>`, which names the output file.
pub open spec fn gt() -> Seq<char> {
    seq!['>']
}

/// Whether `w` is one of the four operators.
pub open spec fn is_op(w: Seq<char>) -> bool {
    w == amp() || w == bar() || w == lt() || w == gt()
}

/// Why a line is no pipeline.
#[derive(Clone, Copy, Debug, PartialEq, Eq, Structural)]
pub enum ParseError {
    /// `&` stands before the last word.
    AmpNotLast,
    /// `|` is the first word of the line or follows another `|`.
    PipeFirst,
    /// `<` is the last word.
    NoFileIn,
    /// `<` is followed by an operator.
    BadFileIn,
    /// `<` stands after a `|`.
    InNotFirst,
    /// `>` is the last word.
    NoFileOut,
    /// `>` is followed by an operator.
    BadFileOut,
    /// `>` stands before a `|`.
    OutNotLast,
}

/// What a line asks for: the words of each stage, the files that the first
/// stage reads and the last one writes, and whether to wait.
pub ghost struct Pipeline {
    pub stages: Seq<Seq<Seq<char>>>,
    pub input: Option<Seq<char>>,
    pub output: Option<Seq<char>>,
    pub background: bool,
}

/// What is wrong with the word at `i`, if anything.
pub open spec fn fault_at(t: Seq<Seq<char>>, i: int) -> Option<ParseError> {
    if t[i] == amp() {
        if i != t.len() - 1 {
            Some(ParseError::AmpNotLast)
        } else {
            None
        }
    } else if t[i] == bar() {
        if i == 0 || t[i - 1] == bar() {
            Some(ParseError::PipeFirst)
        } else {
            None
        }
    } else if t[i] == lt() {
        if i == t.len() - 1 {
            Some(ParseError::NoFileIn)
        } else if is_op(t[i + 1]) {
            Some(ParseError::BadFileIn)
        } else if exists|j: int| 0 <= j < i && #[trigger] t[j] == bar() {
            Some(ParseError::InNotFirst)
        } else {
            None
        }
    } else if t[i] == gt() {
        if i == t.len() - 1 {
            Some(ParseError::NoFileOut)
        } else if is_op(t[i + 1]) {
            Some(ParseError::BadFileOut)
        } else if exists|j: int| i < j < t.len() && #[trigger] t[j] == bar() {
            Some(ParseError::OutNotLast)
        } else {
            None
        }
    } else {
        None
    }
}

/// Whether nothing is wrong with the first `n` words.
pub open spec fn faultless(t: Seq<Seq<char>>, n: int) -> bool {
    forall|i: int| 0 <= i < n ==> #[trigger] fault_at(t, i) is None
}

/// Whether `e` is what is wrong with the first word that something is wrong
/// with.
pub open spec fn first_fault(t: Seq<Seq<char>>, e: ParseError) -> bool {
    exists|i: int| 0 <= i < t.len() && faultless(t, i) && #[trigger] fault_at(t, i) == Some(e)
}

/// Whether the word at `i` belongs to a command: it is no operator and no
/// file name.
pub open spec fn is_word(t: Seq<Seq<char>>, i: int) -> bool {
    !is_op(t[i]) && (i == 0 || (t[i - 1] != lt() && t[i - 1] != gt()))
}

/// Whether a word at `n` would be the first of its stage: none stands
/// between it and the `|` before it, or the start of the line.
pub open spec fn opens_stage(t: Seq<Seq<char>>, n: int) -> bool
    decreases n,
{
    if n <= 0 {
        true
    } else if t[n - 1] == bar() {
        true
    } else if is_word(t, n - 1) {
        false
    } else {
        opens_stage(t, n - 1)
    }
}

/// The stages that the first `n` words make: each holds the words of one
/// command, and a stretch between two `|` that holds no word makes none.
pub open spec fn stages(t: Seq<Seq<char>>, n: int) -> Seq<Seq<Seq<char>>>
    decreases n,
{
    if n <= 0 {
        Seq::empty()
    } else {
        let before = stages(t, n - 1);
        if !is_word(t, n - 1) {
            before
        } else if opens_stage(t, n - 1) {
            before.push(seq![t[n - 1]])
        } else {
            before.drop_last().push(before.last().push(t[n - 1]))
        }
    }
}

/// The file that the last `op` among the first `n` words names: the word
/// that follows it.
pub open spec fn target(t: Seq<Seq<char>>, op: Seq<char>, n: int) -> Option<Seq<char>>
    decreases n,
{
    if n <= 0 {
        None
    } else if t[n - 1] == op && n < t.len() {
        Some(t[n])
    } else {
        target(t, op, n - 1)
    }
}

/// The pipeline that the words `t` make, where nothing is wrong with them.
pub open spec fn pipeline_of(t: Seq<Seq<char>>) -> Pipeline {
    Pipeline {
        stages: stages(t, t.len() as int),
        input: target(t, lt(), t.len() as int),
        output: target(t, gt(), t.len() as int),
        background: t.len() > 0 && t.last() == amp(),
    }
}

/// The contents of a list of commands.
pub open spec fn cmd_views(v: Seq<Cmd>) -> Seq<Seq<Seq<char>>> {
    v.map_values(|c: Cmd| c@)
}

/// The contents of an optional string.
pub open spec fn opt_text(o: Option<String>) -> Option<Seq<char>> {
    match o {
        Some(s) => Some(s@),
        None => None,
    }
}

/// The four operators are four different words.
pub proof fn operators_differ()
    ensures
        amp() != bar(),
        amp() != lt(),
        amp() != gt(),
        bar() != lt(),
        bar() != gt(),
        lt() != gt(),
{
    assert(amp()[0] == '&');
    assert(bar()[0] == '|');
    assert(lt()[0] == '<');
    assert(gt()[0] == '>');
}

/// Whether `w` is the one character `c`.
pub(crate) fn is_sign(w: &str, c: char) -> (r: bool)
    ensures
        r == (w@ == seq![c]),
{
    if w.unicode_len() == 1 {
        let d = w.get_char(0);
        if d == c {
            assert(w@ =~= seq![c]);
            true
        } else {
            assert(seq![c][0] == c);
            false
        }
    } else {
        assert(seq![c].len() == 1);
        false
    }
}

/// Whether `w` is one of the four operators.
pub fn is_operator(w: &str) -> (r: bool)
    ensures
        r == is_op(w@),
{
    is_sign(w, '&') || is_sign(w, '|') || is_sign(w, '<') || is_sign(w, '>')
}

/// A parsed line: its commands in order, the input and output files, and
/// whether it runs in the background.
#[derive(Debug)]
pub struct CmdLine {
    cmds: Vec<Cmd>,
    back: bool,
    filein: Option<String>,
    fileout: Option<String>,
}

impl View for CmdLine {
    type V = Pipeline;

    closed spec fn view(&self) -> Pipeline {
        Pipeline {
            stages: cmd_views(self.cmds@),
            input: opt_text(self.filein),
            output: opt_text(self.fileout),
            background: self.back,
        }
    }
}

impl CmdLine {
    /// Every command has a program name.
    #[verifier::type_invariant]
    closed spec fn solid(&self) -> bool {
        forall|k: int| 0 <= k < self.cmds@.len() ==> (#[trigger] self.cmds@[k])@.len() > 0
    }

    /// Reads the words `tokens` as a pipeline, or says what is wrong with the
    /// first word that something is wrong with.
    pub fn from_words(tokens: &Vec<String>) -> (r: Result<CmdLine, ParseError>)
        ensures
            match r {
                Ok(c) => faultless(texts(tokens@), tokens@.len() as int) && c@ == pipeline_of(
                    texts(tokens@),
                ),
                Err(e) => first_fault(texts(tokens@), e),
            },
    {
        let ghost t = texts(tokens@);
        let n: usize = tokens.len();
        let mut cmds: Vec<Cmd> = Vec::new();
        let mut fresh: bool = true;
        let mut back: bool = false;
        let mut piped: bool = false;
        let mut filein: Option<String> = None;
        let mut fileout: Option<String> = None;
        let mut i: usize = 0;
        proof {
            operators_differ();
            assert(cmd_views(cmds@) =~= stages(t, 0));
        }
        while i < n
            invariant
                t == texts(tokens@),
                n == tokens@.len(),
                n == t.len(),
                0 <= i <= n,
                faultless(t, i as int),
                cmd_views(cmds@) == stages(t, i as int),
                forall|k: int| 0 <= k < cmds@.len() ==> (#[trigger] cmds@[k])@.len() > 0,
                fresh == opens_stage(t, i as int),
                !fresh ==> cmds@.len() > 0,
                back == (i > 0 && t[i - 1] == amp()),
                piped == (exists|j: int| 0 <= j < i && #[trigger] t[j] == bar()),
                opt_text(filein) == target(t, lt(), i as int),
                opt_text(fileout) == target(t, gt(), i as int),
            decreases n - i,
        {
            proof {
                operators_differ();
            }
            let w = tokens[i].as_str();
            assert(w@ == t[i as int]);
            if i > 0 {
                assert(tokens[i - 1]@ == t[i - 1]);
                assert(fault_at(t, i - 1) is None);
            }
            if is_sign(w, '&') {
                if i != n - 1 {
                    assert(fault_at(t, i as int) == Some(ParseError::AmpNotLast));
                    return Err(ParseError::AmpNotLast);
                }
                back = true;
            } else if is_sign(w, '|') {
                if i == 0 || is_sign(tokens[i - 1].as_str(), '|') {
                    assert(fault_at(t, i as int) == Some(ParseError::PipeFirst));
                    return Err(ParseError::PipeFirst);
                }
                piped = true;
                fresh = true;
            } else if is_sign(w, '<') {
                if i == n - 1 {
                    assert(fault_at(t, i as int) == Some(ParseError::NoFileIn));
                    return Err(ParseError::NoFileIn);
                }
                assert(tokens[i + 1]@ == t[i + 1]);
                if is_operator(tokens[i + 1].as_str()) {
                    assert(fault_at(t, i as int) == Some(ParseError::BadFileIn));
                    return Err(ParseError::BadFileIn);
                }
                if piped {
                    assert(fault_at(t, i as int) == Some(ParseError::InNotFirst));
                    return Err(ParseError::InNotFirst);
                }
                filein = Some(tokens[i + 1].clone());
            } else if is_sign(w, '>') {
                if i == n - 1 {
                    assert(fault_at(t, i as int) == Some(ParseError::NoFileOut));
                    return Err(ParseError::NoFileOut);
                }
                assert(tokens[i + 1]@ == t[i + 1]);
                if is_operator(tokens[i + 1].as_str()) {
                    assert(fault_at(t, i as int) == Some(ParseError::BadFileOut));
                    return Err(ParseError::BadFileOut);
                }
                let mut j: usize = i + 1;
                while j < n
                    invariant
                        t == texts(tokens@),
                        n == tokens@.len(),
                        n == t.len(),
                        i < j <= n,
                        i < n - 1,
                        t[i as int] == gt(),
                        !is_op(t[i + 1]),
                        faultless(t, i as int),
                        forall|k: int| i < k < j ==> #[trigger] t[k] != bar(),
                    decreases n - j,
                {
                    assert(tokens[j as int]@ == t[j as int]);
                    if is_sign(tokens[j].as_str(), '|') {
                        proof {
                            operators_differ();
                            assert(fault_at(t, i as int) == Some(ParseError::OutNotLast));
                        }
                        return Err(ParseError::OutNotLast);
                    }
                    j = j + 1;
                }
                fileout = Some(tokens[i + 1].clone());
            } else {
                if i == 0 || (!is_sign(tokens[i - 1].as_str(), '<') && !is_sign(
                    tokens[i - 1].as_str(),
                    '>',
                )) {
                    if fresh {
                        let mut c = Cmd::new();
                        c.push(w);
                        let ghost before = cmds@;
                        cmds.push(c);
                        assert(cmd_views(cmds@) =~= cmd_views(before).push(seq![t[i as int]]));
                        fresh = false;
                    } else {
                        let ghost before = cmds@;
                        let mut c = cmds.pop().unwrap();
                        c.push(w);
                        cmds.push(c);
                        assert(cmd_views(cmds@) =~= cmd_views(before).drop_last().push(
                            cmd_views(before).last().push(t[i as int]),
                        ));
                    }
                }
            }
            assert(fault_at(t, i as int) is None);
            i = i + 1;
        }
        let r = CmdLine { cmds, back, filein, fileout };
        assert(r@ == pipeline_of(t));
        Ok(r)
    }

    /// Splits `line` into words and reads them as a pipeline.
    pub fn parse(line: &str) -> (r: Result<CmdLine, ParseError>)
        ensures
            match r {
                Ok(c) => faultless(words(line@), words(line@).len() as int) && c@ == pipeline_of(
                    words(line@),
                ),
                Err(e) => first_fault(words(line@), e),
            },
    {
        let tokens = split_words(line);
        CmdLine::from_words(&tokens)
    }

    /// The pipeline of `line`, or nothing where something is wrong with one of
    /// its words.
    pub fn new(line: &str) -> (r: Option<Self>)
        ensures
            r is Some == faultless(words(line@), words(line@).len() as int),
            r is Some ==> r->0@ == pipeline_of(words(line@)),
    {
        match CmdLine::parse(line) {
            Ok(c) => Some(c),
            Err(e) => None,
        }
    }

    /// The number of stages.
    pub fn len(&self) -> (n: usize)
        ensures
            n == self@.stages.len(),
    {
        self.cmds.len()
    }

    /// The command of stage `i`: it has a program name.
    pub fn stage(&self, i: usize) -> (c: &Cmd)
        requires
            i < self@.stages.len(),
        ensures
            c@ == self@.stages[i as int],
            c@.len() > 0,
    {
        proof {
            use_type_invariant(self);
        }
        &self.cmds[i]
    }

    /// Whether the line runs in the background.
    pub fn back(&self) -> (b: bool)
        ensures
            b == self@.background,
    {
        self.back
    }

    /// The file that the first stage reads, if one is named.
    pub fn filein(&self) -> (r: Option<&str>)
        ensures
            r is Some == self@.input is Some,
            r is Some ==> Some(r->0@) == self@.input,
    {
        match &self.filein {
            Some(s) => Some(s.as_str()),
            None => None,
        }
    }

    /// The file that the last stage writes, if one is named.
    pub fn fileout(&self) -> (r: Option<&str>)
        ensures
            r is Some == self@.output is Some,
            r is Some ==> Some(r->0@) == self@.output,
    {
        match &self.fileout {
            Some(s) => Some(s.as_str()),
            None => None,
        }
    }
}

impl ParseError {
    /// The diagnostic for this error.
    pub fn message(&self) -> (r: &'static str)
        ensures
            r@ == match *self {
                ParseError::AmpNotLast => "Parsing Error: & can appear only after the last command"@,
                ParseError::PipeFirst => "Parsing Error: | cannot appear as the first word in a command"@,
                ParseError::NoFileIn => "Parsing Error: No filename after <"@,
                ParseError::BadFileIn => "Parsing Error: Illegal filename after <"@,
                ParseError::InNotFirst => "Parsing Error: < can appear only in the first command"@,
                ParseError::NoFileOut => "Parsing Error: No filename after >"@,
                ParseError::BadFileOut => "Parsing Error: Illegal filename after >"@,
                ParseError::OutNotLast => "Parsing Error: > can appear only in the last command"@,
            },
    {
        match self {
            ParseError::AmpNotLast => "Parsing Error: & can appear only after the last command",
            ParseError::PipeFirst => "Parsing Error: | cannot appear as the first word in a command",
            ParseError::NoFileIn => "Parsing Error: No filename after <",
            ParseError::BadFileIn => "Parsing Error: Illegal filename after <",
            ParseError::InNotFirst => "Parsing Error: < can appear only in the first command",
            ParseError::NoFileOut => "Parsing Error: No filename after >",
            ParseError::BadFileOut => "Parsing Error: Illegal filename after >",
            ParseError::OutNotLast => "Parsing Error: > can appear only in the last command",
        }
    }
}

/// A line of white space alone is a pipeline without stages, files or
/// background mark.
pub proof fn blank_line_is_empty(line: Seq<char>)
    requires
        is_blank(line),
    ensures
        faultless(words(line), words(line).len() as int),
        pipeline_of(words(line)).stages.len() == 0,
        pipeline_of(words(line)).input is None,
        pipeline_of(words(line)).output is None,
        !pipeline_of(words(line)).background,
{
    blank_has_no_words(line);
}

/// A stage is open only where one exists: a word that does not start a stage
/// has a stage to join.
pub proof fn open_stage_exists(t: Seq<Seq<char>>, n: int)
    requires
        0 <= n <= t.len(),
        !opens_stage(t, n),
    ensures
        stages(t, n).len() > 0,
    decreases n,
{
    if n > 0 && !is_word(t, n - 1) {
        open_stage_exists(t, n - 1);
    } else if n > 0 && !opens_stage(t, n - 1) {
        open_stage_exists(t, n - 1);
    }
}

/// Every stage has a program name: no stage is without words.
pub proof fn stages_have_names(t: Seq<Seq<char>>, n: int, k: int)
    requires
        0 <= n <= t.len(),
        0 <= k < stages(t, n).len(),
    ensures
        stages(t, n)[k].len() > 0,
    decreases n,
{
    if n > 0 {
        let before = stages(t, n - 1);
        if !is_word(t, n - 1) {
            stages_have_names(t, n - 1, k);
        } else if opens_stage(t, n - 1) {
            if k < before.len() {
                stages_have_names(t, n - 1, k);
            }
        } else {
            open_stage_exists(t, n - 1);
            if k < before.len() - 1 {
                stages_have_names(t, n - 1, k);
            }
        }
    }
}

/// In a line that nothing is wrong with, the operators keep their places:
/// `&` is the last word; `<` and `>` are followed by a file name; `<` stands
/// before every `|`, in the first stage, and `>` after every `|`, in the
/// last.
pub proof fn operators_keep_their_places(t: Seq<Seq<char>>, i: int)
    requires
        faultless(t, t.len() as int),
        0 <= i < t.len(),
    ensures
        t[i] == amp() ==> i == t.len() - 1,
        t[i] == lt() || t[i] == gt() ==> i + 1 < t.len() && !is_op(t[i + 1]),
        t[i] == lt() ==> forall|j: int| 0 <= j < t.len() && #[trigger] t[j] == bar() ==> i < j,
        t[i] == gt() ==> forall|j: int| 0 <= j < t.len() && #[trigger] t[j] == bar() ==> j < i,
        t[i] == bar() ==> i > 0 && t[i - 1] != bar(),
{
    operators_differ();
    assert(fault_at(t, i) is None);
}

/// The file that an operator names is the word after its last occurrence,
/// and none is named where the operator does not occur.
pub proof fn target_follows_last(t: Seq<Seq<char>>, op: Seq<char>, n: int)
    requires
        0 <= n < t.len(),
    ensures
        match target(t, op, n) {
            None => forall|i: int| 0 <= i < n ==> #[trigger] t[i] != op,
            Some(f) => exists|i: int|
                0 <= i < n && #[trigger] t[i] == op && t[i + 1] == f && forall|j: int|
                    i < j < n ==> #[trigger] t[j] != op,
        },
    decreases n,
{
    if n > 0 {
        if t[n - 1] == op {
            assert(t[n - 1] == op && t[n] == target(t, op, n)->0);
        } else {
            target_follows_last(t, op, n - 1);
            match target(t, op, n - 1) {
                None => {},
                Some(f) => {
                    let i = choose|i: int|
                        0 <= i < n - 1 && #[trigger] t[i] == op && t[i + 1] == f && forall|j: int|
                            i < j < n - 1 ==> #[trigger] t[j] != op;
                    assert(0 <= i < n && t[i] == op && t[i + 1] == f && forall|j: int|
                        i < j < n ==> #[trigger] t[j] != op);
                },
            }
        }
    }
}

} // verus!
