use vstd::prelude::*;

use crate::codec::chars_of;

verus! {

/// The deepest nesting of collections and tagged values that is admitted,
/// so that the reader's recursion stays shallow.
pub const MAX_NESTING: usize = 64;

/// A bound above every integer the reader can hold; larger runs of digits
/// are kept at this value.
pub const INT_CAP: u64 = 9223372036854775809;

/// Where a scan of an EDN text stands, following the reader form by form.
#[derive(Clone, Copy, Debug, PartialEq, Eq, Structural)]
pub enum ScanMode {
    /// Before an item, or before the closing bracket of the innermost
    /// open collection.
    Between,
    /// The first form is read; the reader looks no further.
    Done,
    /// Inside a string.
    Str,
    /// Just after a backslash inside a string.
    Escape,
    /// Inside a keyword or a symbol.
    Word,
    /// Inside a character literal.
    CharLit,
    /// Just after a leading `+` (false) or `-` (true).
    Sign(bool),
    /// Just after a leading `.`.
    Dot,
    /// Inside the digits of an integer, with its sign and its value so far.
    Int(bool, u64),
    /// Inside the fraction of a float.
    Frac,
    /// Just after a `#`.
    Hash,
    /// Just after the first character of a tag, which the reader skips
    /// together with the one after it.
    TagSkip,
    /// Inside the rest of a tag.
    TagName,
}

/// A character that the reader skips between items: Unicode white space
/// (as `char::is_whitespace` has it), or a comma.
pub open spec fn is_white(c: char) -> bool {
    ('\t' <= c <= '\r') || c == ' ' || c == '\u{85}' || c == '\u{a0}' || c == '\u{1680}' || (
    '\u{2000}' <= c <= '\u{200a}') || c == '\u{2028}' || c == '\u{2029}' || c == '\u{202f}' || c
        == '\u{205f}' || c == '\u{3000}'
}

pub open spec fn is_digit(c: char) -> bool {
    '0' <= c <= '9'
}

/// A character that starts a symbol.
pub open spec fn is_symbol_head(c: char) -> bool {
    ('a' <= c <= 'z') || ('A' <= c <= 'Z') || c == '.' || c == '*' || c == '+' || c == '!' || c
        == '-' || c == '_' || c == '?' || c == '$' || c == '%' || c == '&' || c == '=' || c
        == '<' || c == '>'
}

/// A character that continues a symbol, a keyword or a tag.
pub open spec fn is_symbol_tail(c: char) -> bool {
    is_symbol_head(c) || is_digit(c) || c == ':' || c == '#' || c == '/'
}

pub open spec fn digit_value(c: char) -> u64 {
    ((c as u32) - 48) as u64
}

/// The value of a run of digits after one more digit, kept at `INT_CAP`.
pub open spec fn next_value(v: u64, d: u64) -> u64 {
    if v * 10 + d > INT_CAP {
        INT_CAP
    } else {
        (v * 10 + d) as u64
    }
}

/// An integer of this sign and value fits in an `i64`.
pub open spec fn int_fits(neg: bool, v: u64) -> bool {
    if neg {
        v <= 9223372036854775808
    } else {
        v <= 9223372036854775807
    }
}

pub open spec fn valid_mode(m: ScanMode) -> bool {
    match m {
        ScanMode::Int(_, v) => v <= INT_CAP,
        _ => true,
    }
}

/// A form is finished: every tag waiting for it is finished too.
pub open spec fn complete(stack: Seq<char>) -> (ScanMode, Seq<char>)
    decreases stack.len(),
{
    if stack.len() == 0 {
        (ScanMode::Done, stack)
    } else if stack.last() == '#' {
        complete(stack.drop_last())
    } else {
        (ScanMode::Between, stack)
    }
}

/// Opens a collection that `close` ends, or a tagged value (`#`).
pub open spec fn open(stack: Seq<char>, close: char) -> Option<(ScanMode, Seq<char>)> {
    if stack.len() >= MAX_NESTING {
        None
    } else {
        Some((ScanMode::Between, stack.push(close)))
    }
}

/// The first character of an item.
pub open spec fn start(stack: Seq<char>, c: char) -> Option<(ScanMode, Seq<char>)> {
    if is_digit(c) {
        Some((ScanMode::Int(false, digit_value(c)), stack))
    } else if c == '+' || c == '-' {
        Some((ScanMode::Sign(c == '-'), stack))
    } else if c == '.' {
        Some((ScanMode::Dot, stack))
    } else if c == '\\' {
        Some((ScanMode::CharLit, stack))
    } else if c == '"' {
        Some((ScanMode::Str, stack))
    } else if c == ':' {
        Some((ScanMode::Word, stack))
    } else if c == '(' {
        open(stack, ')')
    } else if c == '[' {
        open(stack, ']')
    } else if c == '{' {
        open(stack, '}')
    } else if c == '#' {
        Some((ScanMode::Hash, stack))
    } else if is_symbol_head(c) {
        Some((ScanMode::Word, stack))
    } else if c == '/' {
        Some(complete(stack))
    } else {
        None
    }
}

/// A character between items.
pub open spec fn between(stack: Seq<char>, c: char) -> Option<(ScanMode, Seq<char>)> {
    if is_white(c) || c == ',' {
        Some((ScanMode::Between, stack))
    } else if stack.len() > 0 && stack.last() != '#' && c == stack.last() {
        Some(complete(stack.drop_last()))
    } else {
        start(stack, c)
    }
}

/// A character that ends the form before it and is then read afresh.
pub open spec fn after(stack: Seq<char>, c: char) -> Option<(ScanMode, Seq<char>)> {
    let (m, st) = complete(stack);
    if m == ScanMode::Done {
        Some((ScanMode::Done, st))
    } else {
        between(st, c)
    }
}

/// One step of the scan; `None` where the reader would panic, or the
/// nesting would pass `MAX_NESTING`.
pub open spec fn step(mode: ScanMode, stack: Seq<char>, c: char) -> Option<(ScanMode, Seq<char>)> {
    match mode {
        ScanMode::Between => between(stack, c),
        ScanMode::Done => Some((ScanMode::Done, stack)),
        ScanMode::Str => if c == '"' {
            Some(complete(stack))
        } else if c == '\\' {
            Some((ScanMode::Escape, stack))
        } else {
            Some((ScanMode::Str, stack))
        },
        ScanMode::Escape => Some((ScanMode::Str, stack)),
        ScanMode::Word => if is_symbol_tail(c) {
            Some((ScanMode::Word, stack))
        } else {
            after(stack, c)
        },
        ScanMode::CharLit => if !is_white(c) {
            Some((ScanMode::CharLit, stack))
        } else {
            after(stack, c)
        },
        ScanMode::Sign(neg) => if is_digit(c) {
            Some((ScanMode::Int(neg, digit_value(c)), stack))
        } else if is_symbol_tail(c) {
            Some((ScanMode::Word, stack))
        } else if c == ' ' || c == '\t' || c == '\n' {
            after(stack, c)
        } else {
            None
        },
        ScanMode::Dot => if is_digit(c) {
            Some((ScanMode::Frac, stack))
        } else if is_symbol_tail(c) {
            Some((ScanMode::Word, stack))
        } else {
            after(stack, c)
        },
        ScanMode::Int(neg, v) => if is_digit(c) {
            Some((ScanMode::Int(neg, next_value(v, digit_value(c))), stack))
        } else if c == '.' {
            Some((ScanMode::Frac, stack))
        } else if int_fits(neg, v) {
            after(stack, c)
        } else {
            None
        },
        ScanMode::Frac => if is_digit(c) {
            Some((ScanMode::Frac, stack))
        } else {
            after(stack, c)
        },
        ScanMode::Hash => if c == '{' {
            open(stack, '}')
        } else if is_symbol_head(c) {
            Some((ScanMode::TagSkip, stack))
        } else {
            None
        },
        ScanMode::TagSkip => Some((ScanMode::TagName, stack)),
        ScanMode::TagName => if is_symbol_tail(c) {
            Some((ScanMode::TagName, stack))
        } else {
            match open(stack, '#') {
                Some((_, st)) => between(st, c),
                None => None,
            }
        },
    }
}

/// The end of the text in this mode: a cut-off escape, a lone `#` and an
/// integer that does not fit make the reader panic.
pub open spec fn end_ok(mode: ScanMode) -> bool {
    match mode {
        ScanMode::Escape => false,
        ScanMode::Hash => false,
        ScanMode::Int(neg, v) => int_fits(neg, v),
        _ => true,
    }
}

/// The rest `s` of a text scans through from `mode` with the open forms
/// `stack` (each a closing bracket, or `#` for a tag waiting for its value).
pub open spec fn scans_from(s: Seq<char>, mode: ScanMode, stack: Seq<char>) -> bool
    decreases s.len(),
{
    if s.len() == 0 {
        end_ok(mode)
    } else {
        match step(mode, stack, s[0]) {
            Some((m, st)) => scans_from(s.drop_first(), m, st),
            None => false,
        }
    }
}

/// The texts that are handed to the EDN reader: those on which it returns
/// rather than panics, with at most `MAX_NESTING` open forms. Where the
/// reader stops at an error, the scan goes on, so this is a subset of the
/// texts on which the reader returns.
pub open spec fn edn_admitted(s: Seq<char>) -> bool {
    scans_from(s, ScanMode::Between, seq![])
}

/// The outcome of an exec step agrees with the spec step.
pub open spec fn agrees(
    r: Option<ScanMode>,
    st: Seq<char>,
    want: Option<(ScanMode, Seq<char>)>,
) -> bool {
    match r {
        None => want is None,
        Some(m) => want == Some((m, st)) && valid_mode(m),
    }
}

fn white(c: char) -> (r: bool)
    ensures
        r == (is_white(c) || c == ','),
{
    ('\t' <= c && c <= '\r') || c == ' ' || c == '\u{85}' || c == '\u{a0}' || c == '\u{1680}' || (
    '\u{2000}' <= c && c <= '\u{200a}') || c == '\u{2028}' || c == '\u{2029}' || c == '\u{202f}'
        || c == '\u{205f}' || c == '\u{3000}' || c == ','
}

fn digit(c: char) -> (r: bool)
    ensures
        r == is_digit(c),
{
    '0' <= c && c <= '9'
}

fn symbol_head(c: char) -> (r: bool)
    ensures
        r == is_symbol_head(c),
{
    ('a' <= c && c <= 'z') || ('A' <= c && c <= 'Z') || c == '.' || c == '*' || c == '+' || c
        == '!' || c == '-' || c == '_' || c == '?' || c == '$' || c == '%' || c == '&' || c == '='
        || c == '<' || c == '>'
}

fn symbol_tail(c: char) -> (r: bool)
    ensures
        r == is_symbol_tail(c),
{
    symbol_head(c) || digit(c) || c == ':' || c == '#' || c == '/'
}

fn digit_of(c: char) -> (r: u64)
    requires
        is_digit(c),
    ensures
        r == digit_value(c),
        r <= 9,
{
    ((c as u32) - 48) as u64
}

fn next_value_of(v: u64, d: u64) -> (r: u64)
    requires
        v <= INT_CAP,
        d <= 9,
    ensures
        r == next_value(v, d),
        r <= INT_CAP,
{
    if v >= 922337203685477581 {
        INT_CAP
    } else {
        v * 10 + d
    }
}

fn fits(neg: bool, v: u64) -> (r: bool)
    ensures
        r == int_fits(neg, v),
{
    if neg {
        v <= 9223372036854775808
    } else {
        v <= 9223372036854775807
    }
}

fn complete_exec(stack: &mut Vec<char>) -> (m: ScanMode)
    ensures
        (m, final(stack)@) == complete(old(stack)@),
        m == ScanMode::Done || m == ScanMode::Between,
{
    let ghost orig = stack@;
    while stack.len() > 0 && stack[stack.len() - 1] == '#'
        invariant
            complete(stack@) == complete(orig),
            orig == old(stack)@,
        decreases stack@.len(),
    {
        stack.pop();
    }
    if stack.len() == 0 {
        ScanMode::Done
    } else {
        ScanMode::Between
    }
}

fn open_exec(stack: &mut Vec<char>, close: char) -> (r: Option<ScanMode>)
    ensures
        agrees(r, final(stack)@, open(old(stack)@, close)),
{
    if stack.len() >= MAX_NESTING {
        None
    } else {
        stack.push(close);
        Some(ScanMode::Between)
    }
}

fn start_exec(stack: &mut Vec<char>, c: char) -> (r: Option<ScanMode>)
    ensures
        agrees(r, final(stack)@, start(old(stack)@, c)),
{
    if digit(c) {
        Some(ScanMode::Int(false, digit_of(c)))
    } else if c == '+' || c == '-' {
        Some(ScanMode::Sign(c == '-'))
    } else if c == '.' {
        Some(ScanMode::Dot)
    } else if c == '\\' {
        Some(ScanMode::CharLit)
    } else if c == '"' {
        Some(ScanMode::Str)
    } else if c == ':' {
        Some(ScanMode::Word)
    } else if c == '(' {
        open_exec(stack, ')')
    } else if c == '[' {
        open_exec(stack, ']')
    } else if c == '{' {
        open_exec(stack, '}')
    } else if c == '#' {
        Some(ScanMode::Hash)
    } else if symbol_head(c) {
        Some(ScanMode::Word)
    } else if c == '/' {
        Some(complete_exec(stack))
    } else {
        None
    }
}

fn between_exec(stack: &mut Vec<char>, c: char) -> (r: Option<ScanMode>)
    ensures
        agrees(r, final(stack)@, between(old(stack)@, c)),
{
    if white(c) {
        Some(ScanMode::Between)
    } else if stack.len() > 0 && stack[stack.len() - 1] != '#' && c == stack[stack.len() - 1] {
        stack.pop();
        Some(complete_exec(stack))
    } else {
        start_exec(stack, c)
    }
}

fn after_exec(stack: &mut Vec<char>, c: char) -> (r: Option<ScanMode>)
    ensures
        agrees(r, final(stack)@, after(old(stack)@, c)),
{
    let m = complete_exec(stack);
    if m == ScanMode::Done {
        Some(ScanMode::Done)
    } else {
        between_exec(stack, c)
    }
}

fn step_exec(mode: ScanMode, stack: &mut Vec<char>, c: char) -> (r: Option<ScanMode>)
    requires
        valid_mode(mode),
    ensures
        agrees(r, final(stack)@, step(mode, old(stack)@, c)),
{
    match mode {
        ScanMode::Between => between_exec(stack, c),
        ScanMode::Done => Some(ScanMode::Done),
        ScanMode::Str => if c == '"' {
            Some(complete_exec(stack))
        } else if c == '\\' {
            Some(ScanMode::Escape)
        } else {
            Some(ScanMode::Str)
        },
        ScanMode::Escape => Some(ScanMode::Str),
        ScanMode::Word => if symbol_tail(c) {
            Some(ScanMode::Word)
        } else {
            after_exec(stack, c)
        },
        ScanMode::CharLit => if !white(c) || c == ',' {
            Some(ScanMode::CharLit)
        } else {
            after_exec(stack, c)
        },
        ScanMode::Sign(neg) => if digit(c) {
            Some(ScanMode::Int(neg, digit_of(c)))
        } else if symbol_tail(c) {
            Some(ScanMode::Word)
        } else if c == ' ' || c == '\t' || c == '\n' {
            after_exec(stack, c)
        } else {
            None
        },
        ScanMode::Dot => if digit(c) {
            Some(ScanMode::Frac)
        } else if symbol_tail(c) {
            Some(ScanMode::Word)
        } else {
            after_exec(stack, c)
        },
        ScanMode::Int(neg, v) => if digit(c) {
            let d = digit_of(c);
            Some(ScanMode::Int(neg, next_value_of(v, d)))
        } else if c == '.' {
            Some(ScanMode::Frac)
        } else if fits(neg, v) {
            after_exec(stack, c)
        } else {
            None
        },
        ScanMode::Frac => if digit(c) {
            Some(ScanMode::Frac)
        } else {
            after_exec(stack, c)
        },
        ScanMode::Hash => if c == '{' {
            open_exec(stack, '}')
        } else if symbol_head(c) {
            Some(ScanMode::TagSkip)
        } else {
            None
        },
        ScanMode::TagSkip => Some(ScanMode::TagName),
        ScanMode::TagName => if symbol_tail(c) {
            Some(ScanMode::TagName)
        } else {
            match open_exec(stack, '#') {
                Some(_) => between_exec(stack, c),
                None => None,
            }
        },
    }
}

/// Whether the EDN reader can be handed the text: see `edn_admitted`.
pub fn is_edn_admitted(s: &str) -> (r: bool)
    ensures
        r == edn_admitted(s@),
{
    let cs = chars_of(s);
    let mut mode = ScanMode::Between;
    let mut stack: Vec<char> = Vec::new();
    let mut i: usize = 0;
    proof {
        assert(cs@.subrange(0, cs@.len() as int) =~= cs@);
        assert(stack@ =~= seq![]);
    }
    while i < cs.len()
        invariant
            i <= cs@.len(),
            cs@ == s@,
            valid_mode(mode),
            scans_from(cs@.subrange(i as int, cs@.len() as int), mode, stack@) == edn_admitted(s@),
        decreases cs@.len() - i,
    {
        let c = cs[i];
        let ghost rest = cs@.subrange(i as int, cs@.len() as int);
        proof {
            assert(rest[0] == c);
            assert(rest.drop_first() =~= cs@.subrange(i + 1, cs@.len() as int));
        }
        match step_exec(mode, &mut stack, c) {
            Some(m) => {
                mode = m;
            },
            None => {
                return false;
            },
        }
        i = i + 1;
    }
    match mode {
        ScanMode::Escape => false,
        ScanMode::Hash => false,
        ScanMode::Int(neg, v) => fits(neg, v),
        _ => true,
    }
}

} // verus!
