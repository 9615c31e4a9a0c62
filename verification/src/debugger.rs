//! The arithmetic and the decisions of a breakpoint debugger: where a word
//! begins, how one byte of it is swapped for a trap instruction, what a
//! breakpoint given on the command line points at, and what each command
//! leads to.

use crate::numerals::{is_numeral, parse_unsigned, value_of};
use std::collections::HashMap;
use vstd::prelude::*;
use vstd::slice::slice_subrange;
use vstd::string::StringExecFns;

verus! {

/// Bytes in a machine word of the debugged process.
pub const WORD_BYTES: usize = 8;

/// The instruction that traps into the debugger.
pub const TRAP_INSTRUCTION: u8 = 0xcc;

/// The byte of `word` at `offset`, counted from the least significant one.
pub open spec fn byte_at(word: u64, offset: u64) -> u8 {
    ((word >> (8 * offset)) & 0xff) as u8
}

/// The address of the word that holds the byte at `addr`.
pub fn align_addr_to_word(addr: usize) -> (r: usize)
    ensures
        r % WORD_BYTES == 0,
        r <= addr < r + WORD_BYTES,
{
    addr - addr % WORD_BYTES
}

/// Swaps one byte of a word that was read from the word-aligned address
/// below `addr`: the byte that lies at `addr` is handed out, and the word
/// comes back with `val` in its place and every other byte as it was.
pub fn patch_word(word: u64, addr: usize, val: u8) -> (r: (u8, u64))
    ensures
        r.0 == byte_at(word, (addr % WORD_BYTES) as u64),
        forall|i: u64|
            0 <= i < 8 ==> #[trigger] byte_at(r.1, i) == if i == (addr % WORD_BYTES) as u64 {
                val
            } else {
                byte_at(word, i)
            },
{
    let byte_offset: u64 = (addr - align_addr_to_word(addr)) as u64;
    let shift: u64 = 8 * byte_offset;
    let orig_byte: u64 = (word >> shift) & 0xff;
    let masked_word: u64 = word & !(0xffu64 << shift);
    let updated_word: u64 = masked_word | ((val as u64) << shift);
    proof {
        let v = val as u64;
        assert(orig_byte <= 0xff) by (bit_vector)
            requires
                orig_byte == (word >> shift) & 0xff,
        ;
        assert forall|i: u64| 0 <= i < 8 implies #[trigger] byte_at(updated_word, i) == if i
            == byte_offset {
            val
        } else {
            byte_at(word, i)
        } by {
            assert(((updated_word >> (8 * i)) & 0xff) == if i == byte_offset {
                v
            } else {
                (word >> (8 * i)) & 0xff
            }) by (bit_vector)
                requires
                    i < 8,
                    byte_offset < 8,
                    v <= 0xff,
                    updated_word == (word & !(0xffu64 << (8 * byte_offset))) | (v << (8
                        * byte_offset)),
            ;
        }
    }
    (orig_byte as u8, updated_word)
}

/// `s` without a leading `0x` or `0X`, if it has one.
pub open spec fn without_hex_prefix(s: Seq<u8>) -> Seq<u8> {
    if s.len() >= 2 && s[0] == 48 && (s[1] == 120 || s[1] == 88) {
        s.skip(2)
    } else {
        s
    }
}

/// `s` without a leading plus sign, if it has one.
pub open spec fn without_plus(s: Seq<u8>) -> Seq<u8> {
    if s.len() >= 1 && s[0] == 43 {
        s.skip(1)
    } else {
        s
    }
}

/// The number that `s` spells in the given radix, written as an optional
/// plus sign followed by at least one digit; `None` where `s` is not of
/// that form or the number does not fit.
pub open spec fn number_of(s: Seq<u8>, radix: nat) -> Option<usize> {
    let digits = without_plus(s);
    if is_numeral(digits, radix) && value_of(digits, radix) <= usize::MAX {
        Some(value_of(digits, radix) as usize)
    } else {
        None
    }
}

/// What a breakpoint given on the command line points at.
#[derive(Clone, Copy, Debug, PartialEq, Eq, Structural)]
pub enum BreakTarget {
    /// A raw address, given after a star.
    Address(usize),
    /// A star followed by something that is no address.
    InvalidAddress,
    /// A line of the source, given as a decimal number.
    Line(usize),
    /// Anything else is taken for the name of a function.
    Function,
}

/// The target that `arg` names.
pub open spec fn target_of(arg: Seq<u8>) -> BreakTarget {
    if arg.len() >= 1 && arg[0] == 42 {
        match number_of(without_hex_prefix(arg.skip(1)), 16) {
            Some(addr) => BreakTarget::Address(addr),
            None => BreakTarget::InvalidAddress,
        }
    } else {
        match number_of(arg, 10) {
            Some(line) => BreakTarget::Line(line),
            None => BreakTarget::Function,
        }
    }
}

/// Reads a number written as an optional plus sign followed by digits of
/// the given radix.
pub fn parse_number(s: &[u8], radix: u32) -> (r: Option<usize>)
    requires
        2 <= radix <= 36,
    ensures
        r == number_of(s@, radix as nat),
{
    if s.len() >= 1 && s[0] == 43 {
        let digits = slice_subrange(s, 1, s.len());
        assert(digits@ =~= s@.skip(1));
        parse_unsigned(digits, radix)
    } else {
        parse_unsigned(s, radix)
    }
}

/// Reads an address in hexadecimal, with or without a leading `0x`.
pub fn parse_address(addr: &[u8]) -> (r: Option<usize>)
    ensures
        r == number_of(without_hex_prefix(addr@), 16),
{
    if addr.len() >= 2 && addr[0] == 48 && (addr[1] == 120 || addr[1] == 88) {
        let rest = slice_subrange(addr, 2, addr.len());
        assert(rest@ =~= addr@.skip(2));
        parse_number(rest, 16)
    } else {
        parse_number(addr, 16)
    }
}

/// Tells what a breakpoint argument points at: an address after a star, a
/// line where it is a decimal number, and otherwise a function by name.
pub fn parse_breakpoint(arg: &[u8]) -> (r: BreakTarget)
    ensures
        r == target_of(arg@),
{
    if arg.len() >= 1 && arg[0] == 42 {
        let rest = slice_subrange(arg, 1, arg.len());
        assert(rest@ =~= arg@.skip(1));
        match parse_address(rest) {
            Some(addr) => BreakTarget::Address(addr),
            None => BreakTarget::InvalidAddress,
        }
    } else {
        match parse_number(arg, 10) {
            Some(line) => BreakTarget::Line(line),
            None => BreakTarget::Function,
        }
    }
}

/// The commands of the debugger's prompt.
#[derive(Clone, Copy, Debug, PartialEq, Eq, Structural)]
pub enum Command {
    Run,
    Continue,
    Quit,
    Backtrace,
    Break,
}

/// The command that a word at the prompt stands for: each command has a
/// short and a long name, `continue` a third.
pub open spec fn keyword_command(word: Seq<char>) -> Option<Command> {
    if word == "q"@ || word == "quit"@ {
        Some(Command::Quit)
    } else if word == "r"@ || word == "run"@ {
        Some(Command::Run)
    } else if word == "c"@ || word == "cont"@ || word == "continue"@ {
        Some(Command::Continue)
    } else if word == "bt"@ || word == "back"@ || word == "backtrace"@ {
        Some(Command::Backtrace)
    } else if word == "b"@ || word == "break"@ {
        Some(Command::Break)
    } else {
        None
    }
}

/// Whether `word` is the name `name`.
fn is_word(word: &String, name: &str) -> (r: bool)
    ensures
        r == (word@ == name@),
{
    *word == String::from_str(name)
}

impl Command {
    /// The command that the first word of a line stands for, if any.
    pub fn from_keyword(word: &String) -> (r: Option<Command>)
        ensures
            r == keyword_command(word@),
    {
        if is_word(word, "q") || is_word(word, "quit") {
            Some(Command::Quit)
        } else if is_word(word, "r") || is_word(word, "run") {
            Some(Command::Run)
        } else if is_word(word, "c") || is_word(word, "cont") || is_word(word, "continue") {
            Some(Command::Continue)
        } else if is_word(word, "bt") || is_word(word, "back") || is_word(word, "backtrace") {
            Some(Command::Backtrace)
        } else if is_word(word, "b") || is_word(word, "break") {
            Some(Command::Break)
        } else {
            None
        }
    }
}

/// What a command leads to.
#[derive(Clone, Copy, Debug, PartialEq, Eq, Structural)]
pub enum Plan {
    /// Start the program.
    Start,
    /// Kill the running program, then start it anew.
    KillAndStart,
    /// Let the stopped program go on.
    Resume,
    /// Leave the debugger.
    Exit,
    /// Kill the running program, then leave the debugger.
    KillAndExit,
    /// Print the program's call stack.
    ShowBacktrace,
    /// Tell the user that no program is being run.
    ReportNotRunning,
    /// Record a breakpoint.
    SetBreakpoint,
}

/// How a debugged program was last seen.
#[derive(Clone, Copy, Debug, PartialEq, Eq, Structural)]
pub enum Status {
    /// Stopped by a signal, at this instruction pointer.
    Stopped(usize),
    /// Exited with this status code.
    Exited(i32),
    /// Killed by a signal.
    Signaled,
}

/// The debugger's rule: what `command` leads to, given whether a program
/// is being run.
pub open spec fn plan_of(command: Command, running: bool) -> Plan {
    match command {
        Command::Run => if running {
            Plan::KillAndStart
        } else {
            Plan::Start
        },
        Command::Continue => if running {
            Plan::Resume
        } else {
            Plan::ReportNotRunning
        },
        Command::Quit => if running {
            Plan::KillAndExit
        } else {
            Plan::Exit
        },
        Command::Backtrace => if running {
            Plan::ShowBacktrace
        } else {
            Plan::ReportNotRunning
        },
        Command::Break => Plan::SetBreakpoint,
    }
}

/// What `command` leads to, given whether a program is being run.
pub fn plan(command: Command, running: bool) -> (r: Plan)
    ensures
        r == plan_of(command, running),
{
    match command {
        Command::Run => if running {
            Plan::KillAndStart
        } else {
            Plan::Start
        },
        Command::Continue => if running {
            Plan::Resume
        } else {
            Plan::ReportNotRunning
        },
        Command::Quit => if running {
            Plan::KillAndExit
        } else {
            Plan::Exit
        },
        Command::Backtrace => if running {
            Plan::ShowBacktrace
        } else {
            Plan::ReportNotRunning
        },
        Command::Break => Plan::SetBreakpoint,
    }
}

/// Whether a program seen in this status is still there to be debugged: a
/// stopped one is, one that exited or was killed is gone.
pub fn still_running(status: Status) -> (r: bool)
    ensures
        r == (status is Stopped),
{
    match status {
        Status::Stopped(_) => true,
        _ => false,
    }
}

/// The breakpoints set so far, in the order in which they were set.
pub struct Breakpoints {
    addresses: Vec<usize>,
}

impl View for Breakpoints {
    type V = Seq<usize>;

    closed spec fn view(&self) -> Seq<usize> {
        self.addresses@
    }
}

impl Breakpoints {
    /// No breakpoint yet.
    pub fn new() -> (r: Breakpoints)
        ensures
            r@ == Seq::<usize>::empty(),
    {
        Breakpoints { addresses: Vec::new() }
    }

    /// Records a breakpoint at `addr` and gives its number: breakpoints
    /// are numbered from 0 in the order in which they are set.
    pub fn add(&mut self, addr: usize) -> (index: usize)
        ensures
            index == old(self)@.len(),
            final(self)@ == old(self)@.push(addr),
    {
        let index = self.addresses.len();
        self.addresses.push(addr);
        index
    }

    /// The addresses, in the order in which they were set.
    pub fn addresses(&self) -> (r: &Vec<usize>)
        ensures
            r@ == self@,
    {
        &self.addresses
    }
}

/// The bytes that the trap instructions have replaced, by address.
pub struct SavedBytes {
    bytes: HashMap<usize, u8>,
}

impl View for SavedBytes {
    type V = Map<usize, u8>;

    closed spec fn view(&self) -> Map<usize, u8> {
        self.bytes@
    }
}

impl SavedBytes {
    /// Nothing replaced yet.
    pub fn new() -> (r: SavedBytes)
        ensures
            r@ == Map::<usize, u8>::empty(),
    {
        SavedBytes { bytes: HashMap::new() }
    }

    /// Remembers that the byte at `addr` was `byte` before the trap
    /// instruction was written over it; a byte remembered before for the
    /// same address is forgotten.
    pub fn record(&mut self, addr: usize, byte: u8)
        ensures
            final(self)@ == old(self)@.insert(addr, byte),
    {
        broadcast use vstd::std_specs::hash::group_hash_axioms;

        self.bytes.insert(addr, byte);
    }

    /// The breakpoint that a program stopped at `rip` has just run into,
    /// with the byte that belongs there: a trap instruction is one byte
    /// long, so the breakpoint lies one byte behind the instruction pointer.
    pub fn behind(&self, rip: usize) -> (r: Option<(usize, u8)>)
        ensures
            r is Some <==> rip >= 1 && self@.contains_key((rip - 1) as usize),
            r matches Some((addr, byte)) ==> addr == rip - 1 && byte == self@[addr],
    {
        broadcast use vstd::std_specs::hash::group_hash_axioms;

        if rip == 0 {
            return None;
        }
        let target = rip - 1;
        match self.bytes.get(&target) {
            Some(byte) => Some((target, *byte)),
            None => None,
        }
    }
}

} // verus!
