//! Operator command parsing: one line of text becomes one command.
//!
//! The recognized verbs are `help`, `uart <name|all>` and `i2c <name|all>`.
//! Tokens are separated by ASCII whitespace; anything after the first two
//! tokens is ignored, as the command reader only ever looks at the verb and
//! its argument.
use vstd::prelude::*;
use vstd::slice::slice_to_vec;
use crate::BusKind;
use crate::bytes_eq;

verus! {

/// ASCII whitespace: space, tab, line feed, form feed, carriage return.
pub open spec fn is_ws(b: u8) -> bool {
    b == 32 || b == 9 || b == 10 || b == 12 || b == 13
}

/// `s` without its leading whitespace.
pub open spec fn skip_ws(s: Seq<u8>) -> Seq<u8>
    decreases s.len(),
{
    if s.len() > 0 && is_ws(s[0]) {
        skip_ws(s.skip(1))
    } else {
        s
    }
}

/// Length of the leading run of non-whitespace bytes of `s`.
pub open spec fn token_len(s: Seq<u8>) -> int
    decreases s.len(),
{
    if s.len() > 0 && !is_ws(s[0]) {
        1 + token_len(s.skip(1))
    } else {
        0
    }
}

/// True when `s` still holds a token.
pub open spec fn has_token(s: Seq<u8>) -> bool {
    skip_ws(s).len() > 0
}

/// The first whitespace-separated token of `s` (empty when there is none).
pub open spec fn first_token(s: Seq<u8>) -> Seq<u8> {
    skip_ws(s).take(token_len(skip_ws(s)))
}

/// What follows the first token of `s`.
pub open spec fn after_token(s: Seq<u8>) -> Seq<u8> {
    skip_ws(s).skip(token_len(skip_ws(s)))
}

/// The verb `help`, as bytes.
pub open spec fn kw_help() -> Seq<u8> {
    seq![104u8, 101u8, 108u8, 112u8]
}

/// The verb `uart`, as bytes.
pub open spec fn kw_uart() -> Seq<u8> {
    seq![117u8, 97u8, 114u8, 116u8]
}

/// The verb `i2c`, as bytes.
pub open spec fn kw_i2c() -> Seq<u8> {
    seq![105u8, 50u8, 99u8]
}

/// The argument `all`, as bytes.
pub open spec fn kw_all() -> Seq<u8> {
    seq![97u8, 108u8, 108u8]
}

fn kw_help_bytes() -> (r: Vec<u8>)
    ensures
        r@ == kw_help(),
{
    let r: Vec<u8> = vec![104u8, 101u8, 108u8, 112u8];
    proof {
        assert(r@ =~= kw_help());
    }
    r
}

fn kw_uart_bytes() -> (r: Vec<u8>)
    ensures
        r@ == kw_uart(),
{
    let r: Vec<u8> = vec![117u8, 97u8, 114u8, 116u8];
    proof {
        assert(r@ =~= kw_uart());
    }
    r
}

fn kw_i2c_bytes() -> (r: Vec<u8>)
    ensures
        r@ == kw_i2c(),
{
    let r: Vec<u8> = vec![105u8, 50u8, 99u8];
    proof {
        assert(r@ =~= kw_i2c());
    }
    r
}

fn kw_all_bytes() -> (r: Vec<u8>)
    ensures
        r@ == kw_all(),
{
    let r: Vec<u8> = vec![97u8, 108u8, 108u8];
    proof {
        assert(r@ =~= kw_all());
    }
    r
}

/// What a start command points at: one named link, or every remaining link
/// of the kind.
#[derive(Debug, PartialEq, Eq)]
pub enum Target {
    All,
    Name(Vec<u8>),
}

/// Mathematical counterpart of `Target`.
pub enum TargetView {
    All,
    Name(Seq<u8>),
}

impl View for Target {
    type V = TargetView;

    open spec fn view(&self) -> TargetView {
        match self {
            Target::All => TargetView::All,
            Target::Name(n) => TargetView::Name(n@),
        }
    }
}

/// One parsed operator command.
#[derive(Debug, PartialEq, Eq)]
pub enum Command {
    /// The `help` verb.
    Help,
    /// `uart <name|all>` or `i2c <name|all>`.
    Start(BusKind, Target),
    /// A bus verb with no argument: the reader answers with its usage line.
    Usage(BusKind),
    /// An empty line or an unrecognized verb.
    Unknown,
}

/// Mathematical counterpart of `Command`.
pub enum CommandView {
    Help,
    Start(BusKind, TargetView),
    Usage(BusKind),
    Unknown,
}

impl View for Command {
    type V = CommandView;

    open spec fn view(&self) -> CommandView {
        match self {
            Command::Help => CommandView::Help,
            Command::Start(k, t) => CommandView::Start(*k, t@),
            Command::Usage(k) => CommandView::Usage(*k),
            Command::Unknown => CommandView::Unknown,
        }
    }
}

/// The command a bus verb with the rest of the line after it stands for.
pub open spec fn parse_target(kind: BusKind, rest: Seq<u8>) -> CommandView {
    if !has_token(rest) {
        CommandView::Usage(kind)
    } else if first_token(rest) == kw_all() {
        CommandView::Start(kind, TargetView::All)
    } else {
        CommandView::Start(kind, TargetView::Name(first_token(rest)))
    }
}

/// The command a whole line stands for.
pub open spec fn parse_command(line: Seq<u8>) -> CommandView {
    if !has_token(line) {
        CommandView::Unknown
    } else if first_token(line) == kw_help() {
        CommandView::Help
    } else if first_token(line) == kw_uart() {
        parse_target(BusKind::Uart, after_token(line))
    } else if first_token(line) == kw_i2c() {
        parse_target(BusKind::I2c, after_token(line))
    } else {
        CommandView::Unknown
    }
}

fn is_ws_byte(b: u8) -> (r: bool)
    ensures
        r == is_ws(b),
{
    b == 32 || b == 9 || b == 10 || b == 12 || b == 13
}

/// Index of the first non-whitespace byte at or after `from`.
fn scan_ws(line: &[u8], from: usize) -> (j: usize)
    requires
        (from as int) <= line@.len(),
    ensures
        from <= j,
        (j as int) <= line@.len(),
        skip_ws(line@.skip(from as int)) == line@.skip(j as int),
        (j as int) < line@.len() ==> !is_ws(line@[j as int]),
{
    let mut j = from;
    while j < line.len() && is_ws_byte(line[j])
        invariant
            from <= j,
            (j as int) <= line@.len(),
            skip_ws(line@.skip(from as int)) == skip_ws(line@.skip(j as int)),
        decreases line@.len() - j,
    {
        proof {
            let s = line@.skip(j as int);
            assert(s[0] == line@[j as int]);
            assert(s.skip(1) =~= line@.skip(j as int + 1));
        }
        j += 1;
    }
    proof {
        let s = line@.skip(j as int);
        if s.len() > 0 {
            assert(s[0] == line@[j as int]);
        }
        assert(skip_ws(s) == s);
    }
    j
}

/// Index just past the token that starts at `from`.
fn scan_token(line: &[u8], from: usize) -> (j: usize)
    requires
        (from as int) <= line@.len(),
    ensures
        from <= j,
        (j as int) <= line@.len(),
        token_len(line@.skip(from as int)) == j - from,
{
    let mut j = from;
    while j < line.len() && !is_ws_byte(line[j])
        invariant
            from <= j,
            (j as int) <= line@.len(),
            token_len(line@.skip(from as int)) == (j - from) + token_len(line@.skip(j as int)),
        decreases line@.len() - j,
    {
        proof {
            let s = line@.skip(j as int);
            assert(s[0] == line@[j as int]);
            assert(s.skip(1) =~= line@.skip(j as int + 1));
        }
        j += 1;
    }
    proof {
        let s = line@.skip(j as int);
        if s.len() > 0 {
            assert(s[0] == line@[j as int]);
        }
        assert(token_len(s) == 0);
    }
    j
}

/// Parses the argument of a bus verb: the rest of the line from `from` on.
fn parse_target_bytes(line: &[u8], kind: BusKind, from: usize) -> (c: Command)
    requires
        (from as int) <= line@.len(),
    ensures
        c@ == parse_target(kind, line@.skip(from as int)),
{
    let ghost rest = line@.skip(from as int);
    let s1 = scan_ws(line, from);
    if s1 == line.len() {
        proof {
            assert(line@.skip(s1 as int).len() == 0);
        }
        return Command::Usage(kind);
    }
    let e1 = scan_token(line, s1);
    proof {
        assert(line@.skip(s1 as int).len() > 0);
        assert(line@.skip(s1 as int)[0] == line@[s1 as int]);
        assert(first_token(rest) =~= line@.subrange(s1 as int, e1 as int));
    }
    let t1 = &line[s1..e1];
    let all_kw = kw_all_bytes();
    if bytes_eq(t1, all_kw.as_slice()) {
        return Command::Start(kind, Target::All);
    }
    let name = slice_to_vec(t1);
    Command::Start(kind, Target::Name(name))
}

/// Parses one line of operator input.
pub fn parse_line(line: &[u8]) -> (c: Command)
    ensures
        c@ == parse_command(line@),
{
    proof {
        assert(line@.skip(0) =~= line@);
    }
    let s0 = scan_ws(line, 0);
    if s0 == line.len() {
        proof {
            assert(line@.skip(s0 as int).len() == 0);
        }
        return Command::Unknown;
    }
    let e0 = scan_token(line, s0);
    proof {
        assert(line@.skip(s0 as int).len() > 0);
        assert(line@.skip(s0 as int)[0] == line@[s0 as int]);
        assert(first_token(line@) =~= line@.subrange(s0 as int, e0 as int));
        assert(after_token(line@) =~= line@.skip(e0 as int));
    }
    let t0 = &line[s0..e0];
    let help_kw = kw_help_bytes();
    if bytes_eq(t0, help_kw.as_slice()) {
        return Command::Help;
    }
    let uart_kw = kw_uart_bytes();
    if bytes_eq(t0, uart_kw.as_slice()) {
        return parse_target_bytes(line, BusKind::Uart, e0);
    }
    let i2c_kw = kw_i2c_bytes();
    if bytes_eq(t0, i2c_kw.as_slice()) {
        return parse_target_bytes(line, BusKind::I2c, e0);
    }
    Command::Unknown
}

} // verus!
