//! Parsing of a completed command line into the action the service takes.
//!
//! A line is split on its first space into a command word and its arguments.
//! With arguments, `test` is a diagnostic that only logs, and `conn 1` /
//! `conn 0` connect or disconnect the device core. Without arguments,
//! `conn` connects the core and prints the registers, `regs` prints the
//! registers, and `help` logs a placeholder. Anything else is reported as
//! unrecognized; no command line is ever fatal.

use vstd::prelude::*;

verus! {

/// The index of the first space of `s`, or `-1` when `s` has none.
pub open spec fn first_space(s: Seq<char>) -> int
    decreases s.len(),
{
    if s.len() == 0 {
        -1
    } else if s[0] == ' ' {
        0
    } else if first_space(s.drop_first()) < 0 {
        -1
    } else {
        1 + first_space(s.drop_first())
    }
}

/// The characters of the `test` keyword.
pub open spec fn kw_test() -> Seq<char> {
    seq!['t', 'e', 's', 't']
}

/// The characters of the `conn` keyword.
pub open spec fn kw_conn() -> Seq<char> {
    seq!['c', 'o', 'n', 'n']
}

/// The characters of the `regs` keyword.
pub open spec fn kw_regs() -> Seq<char> {
    seq!['r', 'e', 'g', 's']
}

/// The characters of the `help` keyword.
pub open spec fn kw_help() -> Seq<char> {
    seq!['h', 'e', 'l', 'p']
}

/// The action one command line asks for. Unrecognized text is carried along
/// so the dispatch loop can report it.
#[derive(Debug, PartialEq, Eq)]
pub enum CommandAction {
    /// `test <args>`: log the argument text, nothing more.
    TestArg(Vec<char>),
    /// `conn 1` / `conn 0`: connect or disconnect the device core.
    Connect(bool),
    /// `conn <args>` with any other argument: report the usage line.
    ConnUsage(Vec<char>),
    /// An unknown command word followed by arguments.
    UnknownWithArgs(Vec<char>),
    /// `help` alone.
    Help,
    /// `conn` alone: connect the device core, then print the registers.
    ConnectAndPrint,
    /// `regs` alone: print the registers.
    PrintRegs,
    /// Any other line without a space, the empty line included.
    Unknown,
}

/// The relation between a command line `l` and the action it parses to.
/// With a first space at `p`, the command word is `l[..p]` and the argument
/// text is `l[p+1..]`; without one the whole line is the command word.
pub open spec fn parses_to(l: Seq<char>, r: CommandAction) -> bool {
    let p = first_space(l);
    if p >= 0 {
        let cmd = l.subrange(0, p);
        let args = l.subrange(p + 1, l.len() as int);
        if cmd == kw_test() {
            r matches CommandAction::TestArg(a) && a@ == args
        } else if cmd == kw_conn() {
            if args == seq!['1'] {
                r == CommandAction::Connect(true)
            } else if args == seq!['0'] {
                r == CommandAction::Connect(false)
            } else {
                r matches CommandAction::ConnUsage(a) && a@ == args
            }
        } else {
            r matches CommandAction::UnknownWithArgs(c) && c@ == cmd
        }
    } else {
        if l == kw_help() {
            r == CommandAction::Help
        } else if l == kw_conn() {
            r == CommandAction::ConnectAndPrint
        } else if l == kw_regs() {
            r == CommandAction::PrintRegs
        } else {
            r == CommandAction::Unknown
        }
    }
}

/// The empty line parses to `Unknown`: it has no space and spells no
/// keyword.
pub proof fn lemma_empty_line_unknown(l: Seq<char>, a: CommandAction)
    requires
        l.len() == 0,
        parses_to(l, a),
    ensures
        a == CommandAction::Unknown,
{
    assert(first_space(l) == -1);
    assert(kw_help().len() == 4);
    assert(kw_conn().len() == 4);
    assert(kw_regs().len() == 4);
}

proof fn lemma_first_space_at(s: Seq<char>, i: int)
    requires
        0 <= i < s.len(),
        forall|j: int| 0 <= j < i ==> s[j] != ' ',
        s[i] == ' ',
    ensures
        first_space(s) == i,
    decreases i,
{
    if i > 0 {
        lemma_first_space_at(s.drop_first(), i - 1);
    }
}

proof fn lemma_first_space_none(s: Seq<char>)
    requires
        forall|j: int| 0 <= j < s.len() ==> s[j] != ' ',
    ensures
        first_space(s) < 0,
    decreases s.len(),
{
    if s.len() > 0 {
        lemma_first_space_none(s.drop_first());
    }
}

/// True exactly when `v` spells `test`.
fn is_kw_test(v: &Vec<char>) -> (r: bool)
    ensures
        r <==> v@ == kw_test(),
{
    let r = v.len() == 4 && v[0] == 't' && v[1] == 'e' && v[2] == 's' && v[3] == 't';
    proof {
        if r {
            assert(v@ =~= kw_test());
        }
    }
    r
}

/// True exactly when `v` spells `conn`.
fn is_kw_conn(v: &Vec<char>) -> (r: bool)
    ensures
        r <==> v@ == kw_conn(),
{
    let r = v.len() == 4 && v[0] == 'c' && v[1] == 'o' && v[2] == 'n' && v[3] == 'n';
    proof {
        if r {
            assert(v@ =~= kw_conn());
        }
    }
    r
}

/// True exactly when `v` spells `regs`.
fn is_kw_regs(v: &Vec<char>) -> (r: bool)
    ensures
        r <==> v@ == kw_regs(),
{
    let r = v.len() == 4 && v[0] == 'r' && v[1] == 'e' && v[2] == 'g' && v[3] == 's';
    proof {
        if r {
            assert(v@ =~= kw_regs());
        }
    }
    r
}

/// True exactly when `v` spells `help`.
fn is_kw_help(v: &Vec<char>) -> (r: bool)
    ensures
        r <==> v@ == kw_help(),
{
    let r = v.len() == 4 && v[0] == 'h' && v[1] == 'e' && v[2] == 'l' && v[3] == 'p';
    proof {
        if r {
            assert(v@ =~= kw_help());
        }
    }
    r
}

/// True exactly when `v` is the single character `c`.
fn is_single(v: &Vec<char>, c: char) -> (r: bool)
    ensures
        r <==> v@ == seq![c],
{
    let r = v.len() == 1 && v[0] == c;
    proof {
        if r {
            assert(v@ =~= seq![c]);
        }
    }
    r
}

/// Copy `line[from..to]` into a fresh vector.
fn copy_range(line: &Vec<char>, from: usize, to: usize) -> (r: Vec<char>)
    requires
        from <= to <= line@.len(),
    ensures
        r@ == line@.subrange(from as int, to as int),
{
    let mut out: Vec<char> = Vec::new();
    let mut j = from;
    while j < to
        invariant
            from <= j <= to <= line@.len(),
            out@ == line@.subrange(from as int, j as int),
        decreases to - j,
    {
        out.push(line[j]);
        proof {
            assert(out@ =~= line@.subrange(from as int, j as int + 1));
        }
        j = j + 1;
    }
    out
}

/// Parse one completed command line into the action it asks for, carrying
/// the argument or unknown-command text along for reporting.
pub fn parse_command(line: &Vec<char>) -> (r: CommandAction)
    ensures
        parses_to(line@, r),
{
    let n = line.len();
    let mut p: usize = 0;
    let mut found = false;
    while p < n && !found
        invariant
            0 <= p <= n,
            n == line@.len(),
            forall|j: int| 0 <= j < p ==> line@[j] != ' ',
            found ==> p < n && line@[p as int] == ' ',
        decreases n - p + (if found { 0int } else { 1int }),
    {
        if line[p] == ' ' {
            found = true;
        } else {
            p = p + 1;
        }
    }
    if found {
        proof {
            lemma_first_space_at(line@, p as int);
        }
        let cmd = copy_range(line, 0, p);
        let args = copy_range(line, p + 1, n);
        if is_kw_test(&cmd) {
            CommandAction::TestArg(args)
        } else if is_kw_conn(&cmd) {
            if is_single(&args, '1') {
                CommandAction::Connect(true)
            } else if is_single(&args, '0') {
                CommandAction::Connect(false)
            } else {
                CommandAction::ConnUsage(args)
            }
        } else {
            CommandAction::UnknownWithArgs(cmd)
        }
    } else {
        proof {
            lemma_first_space_none(line@);
        }
        if is_kw_help(line) {
            CommandAction::Help
        } else if is_kw_conn(line) {
            CommandAction::ConnectAndPrint
        } else if is_kw_regs(line) {
            CommandAction::PrintRegs
        } else {
            CommandAction::Unknown
        }
    }
}

} // verus!
