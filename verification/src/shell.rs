//! The kernel shell's line editing, command parsing and command decoding.
use vstd::prelude::*;

verus! {

pub const BELL: u8 = 7;
pub const BACKSPACE: u8 = 8;
pub const DELETE: u8 = 127;
pub const SPACE: u8 = 0x20;
pub const SLASH: u8 = 0x2F;
pub const DOT: u8 = 0x2E;

/// Maximum length of an input line.
pub const LINE_CAPACITY: usize = 512;

/// Maximum number of arguments of a command.
pub const MAX_ARGS: usize = 64;

/// The run of non-space bytes at the end of `s`.
pub open spec fn pending_word(s: Seq<u8>) -> Seq<u8>
    decreases s.len(),
{
    if s.len() == 0 {
        Seq::empty()
    } else if s.last() == SPACE {
        Seq::empty()
    } else {
        pending_word(s.drop_last()).push(s.last())
    }
}

/// The words of `s` that a space has already ended.
pub open spec fn done_words(s: Seq<u8>) -> Seq<Seq<u8>>
    decreases s.len(),
{
    if s.len() == 0 {
        Seq::empty()
    } else if s.last() == SPACE && pending_word(s.drop_last()).len() > 0 {
        done_words(s.drop_last()).push(pending_word(s.drop_last()))
    } else {
        done_words(s.drop_last())
    }
}

/// The words of `s`: its maximal runs of non-space bytes, in order.
pub open spec fn words(s: Seq<u8>) -> Seq<Seq<u8>> {
    if pending_word(s).len() > 0 {
        done_words(s).push(pending_word(s))
    } else {
        done_words(s)
    }
}

/// Why a line could not be parsed as a command.
#[derive(Debug, Copy, Clone, PartialEq, Eq, Structural)]
pub enum ParseError {
    /// The line holds no word.
    Empty,
    /// The line holds more words than there is room for.
    TooManyArgs,
}

/// A single shell command: its words.
pub struct Command {
    pub args: Vec<Vec<u8>>,
}

impl Command {
    /// The command's words.
    pub open spec fn args_view(&self) -> Seq<Seq<u8>> {
        self.args@.map_values(|a: Vec<u8>| a@)
    }

    /// Parses a command from the line `s`, splitting it at spaces, with room
    /// for `capacity` arguments.
    ///
    /// # Errors
    ///
    /// If `s` holds no word, returns `Empty`. If it holds more than
    /// `capacity` words, returns `TooManyArgs`.
    pub fn parse(s: &[u8], capacity: usize) -> (r: Result<Command, ParseError>)
        ensures
            words(s@).len() > capacity ==> r == Err::<Command, ParseError>(ParseError::TooManyArgs),
            words(s@).len() == 0 ==> r == Err::<Command, ParseError>(ParseError::Empty),
            0 < words(s@).len() <= capacity ==> (r matches Ok(c) && c.args_view() == words(s@)),
    {
        let mut args: Vec<Vec<u8>> = Vec::new();
        let mut cur: Vec<u8> = Vec::new();
        let mut i: usize = 0;
        while i < s.len()
            invariant
                i <= s@.len(),
                args@.map_values(|a: Vec<u8>| a@) == done_words(s@.subrange(0, i as int)),
                cur@ == pending_word(s@.subrange(0, i as int)),
            decreases s@.len() - i,
        {
            let ghost p = s@.subrange(0, i as int);
            let ghost q = s@.subrange(0, i + 1);
            assert(q.drop_last() =~= p);
            assert(q.last() == s@[i as int]);
            if s[i] == SPACE {
                if cur.len() > 0 {
                    let w = cur;
                    args.push(w);
                    cur = Vec::new();
                    assert(args@.map_values(|a: Vec<u8>| a@) =~= done_words(q));
                } else {
                    assert(args@.map_values(|a: Vec<u8>| a@) =~= done_words(q));
                }
                assert(cur@ =~= pending_word(q));
            } else {
                cur.push(s[i]);
            }
            i = i + 1;
        }
        assert(s@.subrange(0, s@.len() as int) =~= s@);
        if cur.len() > 0 {
            args.push(cur);
        }
        assert(args@.map_values(|a: Vec<u8>| a@) =~= words(s@));
        if args.len() > capacity {
            return Err(ParseError::TooManyArgs);
        }
        if args.len() == 0 {
            return Err(ParseError::Empty);
        }
        Ok(Command { args })
    }

    /// Returns this command's path, its first word.
    pub fn path(&self) -> (r: &Vec<u8>)
        requires
            self.args@.len() >= 1,
        ensures
            r@ == self.args_view()[0],
    {
        &self.args[0]
    }

    /// Returns this command's second word.
    pub fn first(&self) -> (r: &Vec<u8>)
        requires
            self.args@.len() >= 2,
        ensures
            r@ == self.args_view()[1],
    {
        &self.args[1]
    }
}

/// What the shell does in reply to an input byte.
#[derive(Debug, Copy, Clone, PartialEq, Eq, Structural)]
pub enum LineEvent {
    /// The line is complete: run it.
    Submit,
    /// A byte was removed: rub it out on the terminal.
    Erase,
    /// The byte was refused: ring the bell.
    Bell,
    /// The byte was appended: echo it.
    Echo(u8),
}

/// The input line being edited, at most `LINE_CAPACITY` bytes.
pub struct LineBuffer {
    bytes: Vec<u8>,
}

impl LineBuffer {
    /// The bytes typed so far.
    pub closed spec fn contents(&self) -> Seq<u8> {
        self.bytes@
    }

    /// An empty line.
    pub fn new() -> (b: LineBuffer)
        ensures
            b.contents() == Seq::<u8>::empty(),
    {
        LineBuffer { bytes: Vec::new() }
    }

    /// The bytes typed so far.
    pub fn as_bytes(&self) -> (r: &[u8])
        ensures
            r@ == self.contents(),
    {
        self.bytes.as_slice()
    }

    /// Handles one input byte: carriage return or newline submits the line;
    /// backspace or delete removes the last byte (or rings the bell on an
    /// empty line); a byte above 127, or one that does not fit, rings the
    /// bell; any other byte is appended and echoed.
    pub fn on_byte(&mut self, b: u8) -> (ev: LineEvent)
        requires
            old(self).contents().len() <= LINE_CAPACITY,
        ensures
            final(self).contents().len() <= LINE_CAPACITY,
            ({
                let before = old(self).contents();
                let after = final(self).contents();
                let control = b == 13 || b == 10 || b == DELETE || b == BACKSPACE;
                &&& (b == 13 || b == 10) ==> ev == LineEvent::Submit && after == before
                &&& (b == DELETE || b == BACKSPACE) && before.len() > 0 ==> ev == LineEvent::Erase
                    && after == before.drop_last()
                &&& (b == DELETE || b == BACKSPACE) && before.len() == 0 ==> ev == LineEvent::Bell
                    && after == before
                &&& !control && (b > 127 || before.len() == LINE_CAPACITY) ==> ev == LineEvent::Bell
                    && after == before
                &&& !control && b <= 127 && before.len() < LINE_CAPACITY ==> ev == LineEvent::Echo(b)
                    && after == before.push(b)
            }),
    {
        if b == 13 || b == 10 {
            LineEvent::Submit
        } else if b == DELETE || b == BACKSPACE {
            match self.bytes.pop() {
                Some(_) => LineEvent::Erase,
                None => LineEvent::Bell,
            }
        } else if b > 127 {
            LineEvent::Bell
        } else if self.bytes.len() >= LINE_CAPACITY {
            LineEvent::Bell
        } else {
            self.bytes.push(b);
            LineEvent::Echo(b)
        }
    }

    /// Takes the completed line, leaving the buffer empty.
    pub fn take_line(&mut self) -> (r: Vec<u8>)
        ensures
            r@ == old(self).contents(),
            final(self).contents() == Seq::<u8>::empty(),
    {
        let mut fresh: Vec<u8> = Vec::new();
        std::mem::swap(&mut fresh, &mut self.bytes);
        fresh
    }
}

/// What a command asks the shell to do.
#[derive(Debug)]
pub enum Action {
    /// Print the arguments after the command word, each followed by a space.
    Echo(Vec<Vec<u8>>),
    /// `sleep` without exactly one argument.
    SleepUsage,
    /// Sleep for the milliseconds the argument spells, `None` when it is
    /// not a decimal number that fits a `u64`.
    Sleep(Option<u64>),
    /// Leave the shell.
    Exit,
    /// Print the working directory.
    Pwd,
    /// `cd` with more than one argument.
    CdTooManyArgs,
    /// Change directory; `None` goes to the root.
    Cd(Option<Vec<u8>>),
    /// List a directory (the working one when `None`); `hidden` lists only
    /// hidden entries, otherwise only visible ones.
    Ls { hidden: bool, path: Option<Vec<u8>> },
    /// `cat` without a file argument.
    CatUsage,
    /// Print the files named by the arguments.
    Cat(Vec<Vec<u8>>),
    /// Any other command word.
    Unknown(Vec<u8>),
}

/// Whether the bytes `a` equal `b`.
pub fn bytes_eq(a: &[u8], b: &[u8]) -> (r: bool)
    ensures
        r == (a@ == b@),
{
    if a.len() != b.len() {
        return false;
    }
    let mut i: usize = 0;
    while i < a.len()
        invariant
            a@.len() == b@.len(),
            i <= a@.len(),
            forall|j: int| 0 <= j < i ==> a@[j] == b@[j],
        decreases a@.len() - i,
    {
        if a[i] != b[i] {
            return false;
        }
        i = i + 1;
    }
    assert(a@ =~= b@);
    true
}

/// The command words the shell knows, and the `-a` flag of `ls`, in ASCII.
pub open spec fn word_echo() -> Seq<u8> { seq![0x65u8, 0x63, 0x68, 0x6f] }
pub open spec fn word_sleep() -> Seq<u8> { seq![0x73u8, 0x6c, 0x65, 0x65, 0x70] }
pub open spec fn word_exit() -> Seq<u8> { seq![0x65u8, 0x78, 0x69, 0x74] }
pub open spec fn word_pwd() -> Seq<u8> { seq![0x70u8, 0x77, 0x64] }
pub open spec fn word_cd() -> Seq<u8> { seq![0x63u8, 0x64] }
pub open spec fn word_ls() -> Seq<u8> { seq![0x6cu8, 0x73] }
pub open spec fn word_cat() -> Seq<u8> { seq![0x63u8, 0x61, 0x74] }
pub open spec fn word_all() -> Seq<u8> { seq![0x2du8, 0x61] }

/// The bytes of "echo".
fn lit_echo() -> (r: Vec<u8>)
    ensures
        r@ == word_echo(),
{
    vec![0x65u8, 0x63, 0x68, 0x6f]
}

/// The bytes of "sleep".
fn lit_sleep() -> (r: Vec<u8>)
    ensures
        r@ == word_sleep(),
{
    vec![0x73u8, 0x6c, 0x65, 0x65, 0x70]
}

/// The bytes of "exit".
fn lit_exit() -> (r: Vec<u8>)
    ensures
        r@ == word_exit(),
{
    vec![0x65u8, 0x78, 0x69, 0x74]
}

/// The bytes of "pwd".
fn lit_pwd() -> (r: Vec<u8>)
    ensures
        r@ == word_pwd(),
{
    vec![0x70u8, 0x77, 0x64]
}

/// The bytes of "cd".
fn lit_cd() -> (r: Vec<u8>)
    ensures
        r@ == word_cd(),
{
    vec![0x63u8, 0x64]
}

/// The bytes of "ls".
fn lit_ls() -> (r: Vec<u8>)
    ensures
        r@ == word_ls(),
{
    vec![0x6cu8, 0x73]
}

/// The bytes of "cat".
fn lit_cat() -> (r: Vec<u8>)
    ensures
        r@ == word_cat(),
{
    vec![0x63u8, 0x61, 0x74]
}

/// The bytes of "-a".
fn lit_all() -> (r: Vec<u8>)
    ensures
        r@ == word_all(),
{
    vec![0x2du8, 0x61]
}

/// The arguments after the command word.
fn tail_args(args: &Vec<Vec<u8>>) -> (r: Vec<Vec<u8>>)
    requires
        args@.len() >= 1,
    ensures
        r@.map_values(|a: Vec<u8>| a@) == args@.map_values(|a: Vec<u8>| a@).subrange(
            1,
            args@.len() as int,
        ),
{
    let mut r: Vec<Vec<u8>> = Vec::new();
    let mut i: usize = 1;
    while i < args.len()
        invariant
            1 <= i <= args@.len(),
            r@.map_values(|a: Vec<u8>| a@) == args@.map_values(|a: Vec<u8>| a@).subrange(
                1,
                i as int,
            ),
        decreases args@.len() - i,
    {
        let c = args[i].clone();
        assert(c@ =~= args@[i as int]@);
        let ghost prev = r@;
        r.push(c);
        assert(r@ == prev.push(c));
        let ghost lhs = r@.map_values(|a: Vec<u8>| a@);
        let ghost rhs = args@.map_values(|a: Vec<u8>| a@).subrange(1, i + 1);
        assert(prev.map_values(|a: Vec<u8>| a@).len() == prev.len());
        assert(prev.len() == i - 1);
        assert(lhs.len() == rhs.len());
        assert forall|j: int| 0 <= j < lhs.len() implies lhs[j] == rhs[j] by {
            if j < i - 1 {
                assert(lhs[j] == prev[j]@);
                assert(prev.map_values(|a: Vec<u8>| a@)[j] == prev[j]@);
            }
        }
        assert(lhs =~= rhs);
        i = i + 1;
    }
    r
}


/// The value of the decimal digits `s`.
pub open spec fn digits_value(s: Seq<u8>) -> int
    decreases s.len(),
{
    if s.len() == 0 {
        0
    } else {
        digits_value(s.drop_last()) * 10 + (s.last() - 0x30)
    }
}

/// Every byte of `s` is an ASCII digit.
pub open spec fn all_digits(s: Seq<u8>) -> bool {
    forall|i: int| 0 <= i < s.len() ==> 0x30 <= #[trigger] s[i] <= 0x39
}

/// The number `s` spells in decimal, with an optional leading `+`: `None`
/// unless at least one digit follows and the value fits a `u64`.
pub open spec fn decimal_of(s: Seq<u8>) -> Option<u64> {
    let d = if s.len() > 0 && s[0] == 0x2B {
        s.drop_first()
    } else {
        s
    };
    if d.len() > 0 && all_digits(d) && digits_value(d) <= u64::MAX {
        Some(digits_value(d) as u64)
    } else {
        None
    }
}

proof fn lemma_digits_value_grows(s: Seq<u8>, k: int)
    requires
        all_digits(s),
        0 <= k <= s.len(),
    ensures
        digits_value(s.subrange(0, k)) <= digits_value(s),
        digits_value(s.subrange(0, k)) >= 0,
    decreases s.len() - k,
{
    if k < s.len() {
        lemma_digits_value_grows(s, k + 1);
        let p = s.subrange(0, k + 1);
        assert(p.drop_last() =~= s.subrange(0, k));
        assert(all_digits(p));
        lemma_digits_value_nonneg(s.subrange(0, k));
    } else {
        assert(s.subrange(0, k) =~= s);
        lemma_digits_value_nonneg(s);
    }
}

proof fn lemma_digits_value_nonneg(s: Seq<u8>)
    requires
        all_digits(s),
    ensures
        digits_value(s) >= 0,
    decreases s.len(),
{
    if s.len() > 0 {
        assert(all_digits(s.drop_last()));
        lemma_digits_value_nonneg(s.drop_last());
    }
}

/// Parses a decimal number with an optional leading `+`.
pub fn parse_decimal(s: &[u8]) -> (r: Option<u64>)
    ensures
        r == decimal_of(s@),
{
    let start: usize = if s.len() > 0 && s[0] == 0x2B {
        1
    } else {
        0
    };
    let ghost d = if s@.len() > 0 && s@[0] == 0x2B {
        s@.drop_first()
    } else {
        s@
    };
    assert(d =~= s@.subrange(start as int, s@.len() as int));
    if start == s.len() {
        return None;
    }
    let mut acc: u64 = 0;
    let mut i: usize = start;
    while i < s.len()
        invariant
            start <= i <= s@.len(),
            d =~= s@.subrange(start as int, s@.len() as int),
            d == (if s@.len() > 0 && s@[0] == 0x2B {
                s@.drop_first()
            } else {
                s@
            }),
            all_digits(d.subrange(0, i - start)),
            acc == digits_value(d.subrange(0, i - start)),
        decreases s@.len() - i,
    {
        let c = s[i];
        let ghost p = d.subrange(0, i + 1 - start);
        assert(p.drop_last() =~= d.subrange(0, i - start));
        assert(p.last() == c);
        if c < 0x30 || c > 0x39 {
            assert(!all_digits(d)) by {
                assert(d[i - start] == c);
            }
            return None;
        }
        let digit = (c - 0x30) as u64;
        if acc > (u64::MAX - digit) / 10 {
            proof {
                assert(acc * 10 + digit > u64::MAX) by (nonlinear_arith)
                    requires
                        acc > (u64::MAX - digit) / 10,
                        digit <= 9,
                ;
                if all_digits(d) {
                    lemma_digits_value_grows(d, i + 1 - start);
                }
            }
            return None;
        }
        assert(acc * 10 + digit <= u64::MAX) by (nonlinear_arith)
            requires
                acc <= (u64::MAX - digit) / 10,
                digit <= 9,
        ;
        acc = acc * 10 + digit;
        assert(all_digits(p));
        i = i + 1;
    }
    assert(d.subrange(0, (s@.len() - start) as int) =~= d);
    Some(acc)
}

/// Decodes a parsed command into the action it asks for.
pub fn classify(cmd: &Command) -> (a: Action)
    requires
        cmd.args@.len() >= 1,
    ensures
        ({
            let args = cmd.args_view();
            let w = args[0];
            let n = args.len();
            &&& w == word_echo() ==> (a matches Action::Echo(v) && v@.map_values(|x: Vec<u8>| x@)
                == args.subrange(1, n as int))
            &&& w == word_sleep() && n != 2 ==> a is SleepUsage
            &&& w == word_sleep() && n == 2 ==> a == Action::Sleep(decimal_of(args[1]))
            &&& w == word_exit() ==> a is Exit
            &&& w == word_pwd() ==> a is Pwd
            &&& w == word_cd() && n > 2 ==> a is CdTooManyArgs
            &&& w == word_cd() && n == 1 ==> (a matches Action::Cd(None))
            &&& w == word_cd() && n == 2 ==> (a matches Action::Cd(Some(x)) && x@ == args[1])
            &&& w == word_ls() && n == 2 && args[1] == word_all() ==> (a matches Action::Ls {
                hidden: true,
                path: None,
            })
            &&& w == word_ls() && n == 2 && args[1] != word_all() ==> (a matches Action::Ls {
                hidden: false,
                path: Some(x),
            } && x@ == args[1])
            &&& w == word_ls() && n != 2 ==> (a matches Action::Ls { hidden: false, path: None })
            &&& w == word_cat() && n < 2 ==> a is CatUsage
            &&& w == word_cat() && n >= 2 ==> (a matches Action::Cat(v) && v@.map_values(
                |x: Vec<u8>| x@,
            ) == args.subrange(1, n as int))
            &&& w != word_echo() && w != word_sleep() && w != word_exit() && w != word_pwd() && w
                != word_cd() && w != word_ls() && w != word_cat() ==> (a matches Action::Unknown(x)
                && x@ == w)
        }),
{
    let n = cmd.args.len();
    let w = &cmd.args[0];
    assert(w@ == cmd.args_view()[0]);
    if bytes_eq(w.as_slice(), lit_echo().as_slice()) {
        Action::Echo(tail_args(&cmd.args))
    } else if bytes_eq(w.as_slice(), lit_sleep().as_slice()) {
        if n != 2 {
            Action::SleepUsage
        } else {
            assert(cmd.args@[1]@ == cmd.args_view()[1]);
            Action::Sleep(parse_decimal(cmd.args[1].as_slice()))
        }
    } else if bytes_eq(w.as_slice(), lit_exit().as_slice()) {
        Action::Exit
    } else if bytes_eq(w.as_slice(), lit_pwd().as_slice()) {
        Action::Pwd
    } else if bytes_eq(w.as_slice(), lit_cd().as_slice()) {
        if n > 2 {
            Action::CdTooManyArgs
        } else if n == 1 {
            Action::Cd(None)
        } else {
            let x = cmd.args[1].clone();
            assert(x@ =~= cmd.args_view()[1]);
            Action::Cd(Some(x))
        }
    } else if bytes_eq(w.as_slice(), lit_ls().as_slice()) {
        if n == 2 && bytes_eq(cmd.args[1].as_slice(), lit_all().as_slice()) {
            Action::Ls { hidden: true, path: None }
        } else if n == 2 {
            let x = cmd.args[1].clone();
            assert(x@ =~= cmd.args_view()[1]);
            Action::Ls { hidden: false, path: Some(x) }
        } else {
            Action::Ls { hidden: false, path: None }
        }
    } else if bytes_eq(w.as_slice(), lit_cat().as_slice()) {
        if n < 2 {
            Action::CatUsage
        } else {
            Action::Cat(tail_args(&cmd.args))
        }
    } else {
        let x = w.clone();
        assert(x@ =~= w@);
        Action::Unknown(x)
    }
}

/// The number of bytes of a chunk read by `cat` that are printed: those
/// before the first zero byte, or all of them; and whether a zero byte was
/// found, which ends the file's output.
pub fn text_before_nul(buf: &[u8]) -> (r: (usize, bool))
    ensures
        r.0 <= buf@.len(),
        forall|j: int| 0 <= j < r.0 ==> buf@[j] != 0,
        r.1 == (r.0 < buf@.len()),
        r.1 ==> buf@[r.0 as int] == 0,
{
    let mut i: usize = 0;
    while i < buf.len()
        invariant
            i <= buf@.len(),
            forall|j: int| 0 <= j < i ==> buf@[j] != 0,
        decreases buf@.len() - i,
    {
        if buf[i] == 0 {
            return (i, true);
        }
        i = i + 1;
    }
    (i, false)
}

/// A line of spaces only holds no word, so parsing it gives `Empty`.
pub proof fn law_words_of_blank_line(s: Seq<u8>)
    requires
        forall|i: int| 0 <= i < s.len() ==> s[i] == SPACE,
    ensures
        words(s).len() == 0,
    decreases s.len(),
{
    if s.len() > 0 {
        law_words_of_blank_line(s.drop_last());
    }
    lemma_pending_of_blank(s);
}

proof fn lemma_pending_of_blank(s: Seq<u8>)
    requires
        forall|i: int| 0 <= i < s.len() ==> s[i] == SPACE,
    ensures
        pending_word(s).len() == 0,
        done_words(s).len() == 0,
    decreases s.len(),
{
    if s.len() > 0 {
        lemma_pending_of_blank(s.drop_last());
    }
}

/// No word holds a space, and no word is empty.
pub proof fn law_words_are_nonblank(s: Seq<u8>)
    ensures
        forall|k: int| 0 <= k < words(s).len() ==> #[trigger] words(s)[k].len() > 0,
        forall|k: int, j: int|
            0 <= k < words(s).len() && 0 <= j < words(s)[k].len() ==> #[trigger] words(s)[k][j]
                != SPACE,
    decreases s.len(),
{
    lemma_words_nonblank(s);
}

proof fn lemma_words_nonblank(s: Seq<u8>)
    ensures
        forall|j: int| 0 <= j < pending_word(s).len() ==> #[trigger] pending_word(s)[j] != SPACE,
        forall|k: int| 0 <= k < done_words(s).len() ==> #[trigger] done_words(s)[k].len() > 0,
        forall|k: int, j: int|
            0 <= k < done_words(s).len() && 0 <= j < done_words(s)[k].len()
                ==> #[trigger] done_words(s)[k][j] != SPACE,
        forall|k: int| 0 <= k < words(s).len() ==> #[trigger] words(s)[k].len() > 0,
        forall|k: int, j: int|
            0 <= k < words(s).len() && 0 <= j < words(s)[k].len() ==> #[trigger] words(s)[k][j]
                != SPACE,
    decreases s.len(),
{
    if s.len() > 0 {
        let p = s.drop_last();
        lemma_words_nonblank(p);
        if s.last() != SPACE {
            assert(pending_word(s) == pending_word(p).push(s.last()));
            assert forall|j: int| 0 <= j < pending_word(s).len() implies #[trigger] pending_word(
                s,
            )[j] != SPACE by {
                if j < pending_word(p).len() {
                    assert(pending_word(s)[j] == pending_word(p)[j]);
                }
            }
            assert(done_words(s) == done_words(p));
        } else if pending_word(p).len() > 0 {
            assert(done_words(s) == done_words(p).push(pending_word(p)));
            assert forall|k: int| 0 <= k < done_words(s).len() implies #[trigger] done_words(
                s,
            )[k].len() > 0 by {
                if k < done_words(p).len() {
                    assert(done_words(s)[k] == done_words(p)[k]);
                }
            }
            assert forall|k: int, j: int|
                0 <= k < done_words(s).len() && 0 <= j < done_words(s)[k].len()
                    implies #[trigger] done_words(s)[k][j] != SPACE by {
                if k < done_words(p).len() {
                    assert(done_words(s)[k] == done_words(p)[k]);
                } else {
                    assert(done_words(s)[k] == pending_word(p));
                }
            }
        }
    }
    if pending_word(s).len() > 0 {
        assert(words(s) == done_words(s).push(pending_word(s)));
        assert forall|k: int| 0 <= k < words(s).len() implies #[trigger] words(s)[k].len() > 0 by {
            if k < done_words(s).len() {
                assert(words(s)[k] == done_words(s)[k]);
            }
        }
        assert forall|k: int, j: int|
            0 <= k < words(s).len() && 0 <= j < words(s)[k].len() implies #[trigger] words(
                s,
            )[k][j] != SPACE by {
            if k < done_words(s).len() {
                assert(words(s)[k] == done_words(s)[k]);
            } else {
                assert(words(s)[k] == pending_word(s));
            }
        }
    }
}


/// The line holding the words `ws` separated by single spaces.
pub open spec fn join_words(ws: Seq<Seq<u8>>) -> Seq<u8>
    decreases ws.len(),
{
    if ws.len() == 0 {
        Seq::empty()
    } else if ws.len() == 1 {
        ws[0]
    } else {
        join_words(ws.drop_last()) + seq![SPACE] + ws.last()
    }
}

/// `w` holds no space.
pub open spec fn spaceless(w: Seq<u8>) -> bool {
    forall|j: int| 0 <= j < w.len() ==> #[trigger] w[j] != SPACE
}

proof fn lemma_append_spaceless(s: Seq<u8>, w: Seq<u8>)
    requires
        spaceless(w),
    ensures
        pending_word(s + w) == pending_word(s) + w,
        done_words(s + w) == done_words(s),
    decreases w.len(),
{
    if w.len() == 0 {
        assert(s + w =~= s);
        assert(pending_word(s) + w =~= pending_word(s));
    } else {
        let w0 = w.drop_last();
        assert(spaceless(w0));
        lemma_append_spaceless(s, w0);
        assert((s + w).drop_last() =~= s + w0);
        assert((s + w).last() == w.last());
        assert(w.last() != SPACE);
        assert(pending_word(s) + w =~= (pending_word(s) + w0).push(w.last()));
    }
}

proof fn lemma_append_space(s: Seq<u8>)
    ensures
        pending_word(s.push(SPACE)).len() == 0,
        done_words(s.push(SPACE)) == words(s),
{
    assert(s.push(SPACE).drop_last() =~= s);
}

/// Joining nonempty, spaceless words with single spaces and splitting the
/// line again gives back the words.
pub proof fn law_split_inverts_join(ws: Seq<Seq<u8>>)
    requires
        forall|k: int| 0 <= k < ws.len() ==> (#[trigger] ws[k]).len() > 0 && spaceless(ws[k]),
    ensures
        words(join_words(ws)) == ws,
    decreases ws.len(),
{
    if ws.len() == 0 {
        assert(words(Seq::<u8>::empty()) =~= ws);
    } else if ws.len() == 1 {
        lemma_append_spaceless(Seq::empty(), ws[0]);
        assert(Seq::<u8>::empty() + ws[0] =~= ws[0]);
        assert(Seq::<u8>::empty() + ws[0] =~= ws[0]);
        assert(words(ws[0]) =~= ws);
    } else {
        let init = ws.drop_last();
        assert forall|k: int| 0 <= k < init.len() implies (#[trigger] init[k]).len() > 0 && spaceless(
            init[k],
        ) by {
            assert(init[k] == ws[k]);
        }
        law_split_inverts_join(init);
        let prefix = join_words(init);
        lemma_append_space(prefix);
        let last = ws.last();
        assert(ws[ws.len() - 1] == last);
        lemma_append_spaceless(prefix.push(SPACE), last);
        assert(prefix + seq![SPACE] + last =~= prefix.push(SPACE) + last);
        assert(pending_word(prefix.push(SPACE)) + last =~= last);
        assert(words(join_words(ws)) =~= init.push(last));
        assert(init.push(last) =~= ws);
    }
}

/// Whether a run of bytes between slashes names a path component: it is not
/// empty and is not `.`.
pub open spec fn keeps_component(c: Seq<u8>) -> bool {
    c.len() > 0 && c != seq![DOT]
}

/// Reading the path bytes `t` left to right: the components finished at a
/// slash so far, and the run of bytes after the last slash.
pub open spec fn scan_path(t: Seq<u8>) -> (Seq<Seq<u8>>, Seq<u8>)
    decreases t.len(),
{
    if t.len() == 0 {
        (Seq::empty(), Seq::empty())
    } else {
        let (done, cur) = scan_path(t.drop_last());
        if t.last() == SLASH {
            (if keeps_component(cur) { done.push(cur) } else { done }, Seq::empty())
        } else {
            (done, cur.push(t.last()))
        }
    }
}

/// The components of the path `t`: its runs of bytes between slashes,
/// leaving out empty runs and `.`.
pub open spec fn path_components(t: Seq<u8>) -> Seq<Seq<u8>> {
    let (done, cur) = scan_path(t);
    if keeps_component(cur) {
        done.push(cur)
    } else {
        done
    }
}

/// The directory `t` names from the directory `cwd` (both as components
/// below the root): an absolute `t` names its own components, a relative one
/// adds its components to `cwd`.
pub open spec fn join_path(cwd: Seq<Seq<u8>>, t: Seq<u8>) -> Seq<Seq<u8>> {
    if t.len() > 0 && t[0] == SLASH {
        path_components(t)
    } else {
        cwd + path_components(t)
    }
}

/// The directory `cd` moves to from `cwd`: the root without an argument,
/// the parent for `..` (the root stays the root), otherwise the directory
/// the argument names (`/` is the root, `.` is `cwd` itself).
pub open spec fn cd_target(cwd: Seq<Seq<u8>>, target: Option<Seq<u8>>) -> Seq<Seq<u8>> {
    match target {
        None => Seq::empty(),
        Some(t) => if t == seq![DOT, DOT] {
            if cwd.len() > 0 {
                cwd.drop_last()
            } else {
                cwd
            }
        } else {
            join_path(cwd, t)
        },
    }
}

/// Whether the run `c` names a component.
fn is_component(c: &Vec<u8>) -> (r: bool)
    ensures
        r == keeps_component(c@),
{
    if c.len() == 0 {
        false
    } else if c.len() == 1 && c[0] == DOT {
        assert(c@ =~= seq![DOT]);
        false
    } else {
        assert(c.len() == 1 ==> c@ != seq![DOT]);
        true
    }
}

/// Appends the run `c` to `done` as a component.
fn push_component(done: &mut Vec<Vec<u8>>, c: Vec<u8>)
    ensures
        final(done).deep_view() == old(done).deep_view().push(c@),
{
    let ghost before = done.deep_view();
    assert(c.deep_view() =~= c@);
    done.push(c);
    assert forall|i: int| 0 <= i < done.len() implies #[trigger] done.deep_view()[i] == before.push(c@)[i] by {
        if i < before.len() {
            assert(done@[i] == old(done)@[i]);
        }
    }
    assert(done.deep_view() =~= before.push(c@));
}

/// The components of the path `t`.
pub fn components(t: &[u8]) -> (r: Vec<Vec<u8>>)
    ensures
        r.deep_view() == path_components(t@),
{
    let mut done: Vec<Vec<u8>> = Vec::new();
    let mut cur: Vec<u8> = Vec::new();
    let mut i: usize = 0;
    assert(t@.subrange(0, 0) =~= Seq::<u8>::empty());
    assert(done.deep_view() =~= Seq::<Seq<u8>>::empty());
    while i < t.len()
        invariant
            i <= t.len(),
            (done.deep_view(), cur@) == scan_path(t@.subrange(0, i as int)),
        decreases t.len() - i,
    {
        let b = t[i];
        assert(t@.subrange(0, i + 1).drop_last() =~= t@.subrange(0, i as int));
        assert(t@.subrange(0, i + 1).last() == b);
        if b == SLASH {
            if is_component(&cur) {
                push_component(&mut done, cur);
            }
            cur = Vec::new();
            assert(cur@ =~= Seq::<u8>::empty());
        } else {
            cur.push(b);
        }
        i = i + 1;
    }
    assert(t@.subrange(0, t.len() as int) =~= t@);
    if is_component(&cur) {
        push_component(&mut done, cur);
    }
    done
}

/// A copy of the components `cwd`.
fn copy_components(cwd: &Vec<Vec<u8>>) -> (r: Vec<Vec<u8>>)
    ensures
        r.deep_view() == cwd.deep_view(),
{
    let mut r: Vec<Vec<u8>> = Vec::new();
    let mut k: usize = 0;
    while k < cwd.len()
        invariant
            k <= cwd.len(),
            r.deep_view() == cwd.deep_view().subrange(0, k as int),
        decreases cwd.len() - k,
    {
        let mut c: Vec<u8> = Vec::new();
        let mut j: usize = 0;
        while j < cwd[k].len()
            invariant
                k < cwd.len(),
                j <= cwd[k as int].len(),
                c@ == cwd[k as int]@.subrange(0, j as int),
            decreases cwd[k as int].len() - j,
        {
            c.push(cwd[k][j]);
            j = j + 1;
        }
        assert(c@ =~= cwd[k as int]@);
        assert(c@ == cwd.deep_view()[k as int]);
        push_component(&mut r, c);
        k = k + 1;
        assert(r.deep_view() =~= cwd.deep_view().subrange(0, k as int));
    }
    assert(cwd.deep_view().subrange(0, cwd.len() as int) =~= cwd.deep_view());
    r
}

/// The directory the path `t` names from the directory `cwd`.
pub fn join(cwd: &Vec<Vec<u8>>, t: &[u8]) -> (r: Vec<Vec<u8>>)
    ensures
        r.deep_view() == join_path(cwd.deep_view(), t@),
{
    let parts = components(t);
    if t.len() > 0 && t[0] == SLASH {
        parts
    } else {
        let mut r = copy_components(cwd);
        let mut k: usize = 0;
        let ghost base = r.deep_view();
        while k < parts.len()
            invariant
                k <= parts.len(),
                base == cwd.deep_view(),
                r.deep_view() == base + parts.deep_view().subrange(0, k as int),
            decreases parts.len() - k,
        {
            let mut c: Vec<u8> = Vec::new();
            let mut j: usize = 0;
            while j < parts[k].len()
                invariant
                    k < parts.len(),
                    j <= parts[k as int].len(),
                    c@ == parts[k as int]@.subrange(0, j as int),
                decreases parts[k as int].len() - j,
            {
                c.push(parts[k][j]);
                j = j + 1;
            }
            assert(c@ =~= parts[k as int]@);
            assert(c@ == parts.deep_view()[k as int]);
            push_component(&mut r, c);
            k = k + 1;
            assert(r.deep_view() =~= base + parts.deep_view().subrange(0, k as int));
        }
        assert(parts.deep_view().subrange(0, parts.len() as int) =~= parts.deep_view());
        r
    }
}

/// The working directory after `cd` with the argument `target`.
pub fn cd(cwd: &Vec<Vec<u8>>, target: Option<&[u8]>) -> (r: Vec<Vec<u8>>)
    ensures
        r.deep_view() == cd_target(
            cwd.deep_view(),
            match target {
                Some(t) => Some(t@),
                None => None,
            },
        ),
{
    match target {
        None => {
            let r: Vec<Vec<u8>> = Vec::new();
            assert(r.deep_view() =~= Seq::<Seq<u8>>::empty());
            r
        },
        Some(t) => {
            if t.len() == 2 && t[0] == DOT && t[1] == DOT {
                assert(t@ =~= seq![DOT, DOT]);
                let mut r = copy_components(cwd);
                if r.len() > 0 {
                    let ghost before = r.deep_view();
                    r.pop();
                    assert(r.deep_view() =~= before.drop_last());
                }
                r
            } else {
                assert(t@ != seq![DOT, DOT]) by {
                    if t@ == seq![DOT, DOT] {
                        assert(t@.len() == 2 && t@[0] == DOT && t@[1] == DOT);
                    }
                }
                join(cwd, t)
            }
        },
    }
}

/// Whether `ls` prints an entry: with `-a` only hidden entries, otherwise
/// only entries that are not hidden.
pub fn ls_lists(hidden_only: bool, entry_hidden: bool) -> (r: bool)
    ensures
        r == (hidden_only == entry_hidden),
{
    hidden_only == entry_hidden
}

} // verus!
