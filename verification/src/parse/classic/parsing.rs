//! Parsers for Tickflow syntax
use super::{
    failure_at, identifier_pattern, reversed, Command, CommandName, Expr, Identifier, Operation,
    Statement, Value, Written,
};
use crate::parse::better_nom_regex::{re_capture, re_find, regex_captures, regex_find};
use crate::parse::error::{Error, Failure, Fault, OldTfError};
use crate::parse::{
    parsed_i64, process_escapes, read_anysign, read_anysign_int, text_of, to_chars, unescaped,
};
use vstd::prelude::*;
use vstd::string::StrSliceExecFns;

verus! {

/// A set of characters that a run of input is made of.
#[derive(Debug, Clone, Copy, PartialEq, Eq, Structural)]
pub enum CharClass {
    /// Spaces and tabs.
    Space,
    /// The digits from 0 to 9.
    Digit,
    /// The digits from 0 to 9 and the letters from A to F, small or capital.
    HexDigit,
    /// The digits 0 and 1.
    BinDigit,
}

impl CharClass {
    /// Whether the character belongs to the class.
    pub open spec fn has(self, c: char) -> bool {
        match self {
            CharClass::Space => c == ' ' || c == '\t',
            CharClass::Digit => '0' <= c <= '9',
            CharClass::HexDigit => ('0' <= c <= '9') || ('a' <= c <= 'f') || ('A' <= c <= 'F'),
            CharClass::BinDigit => c == '0' || c == '1',
        }
    }

    /// Whether the character belongs to the class.
    pub fn contains(self, c: char) -> (yes: bool)
        ensures
            yes == self.has(c),
    {
        match self {
            CharClass::Space => c == ' ' || c == '\t',
            CharClass::Digit => '0' <= c && c <= '9',
            CharClass::HexDigit => ('0' <= c && c <= '9') || ('a' <= c && c <= 'f') || ('A' <= c
                && c <= 'F'),
            CharClass::BinDigit => c == '0' || c == '1',
        }
    }
}

/// Whether a character is a binary digit.
pub fn is_bin_digit(chr: char) -> (yes: bool)
    ensures
        yes == CharClass::BinDigit.has(chr),
{
    chr == '0' || chr == '1'
}

/// The number of characters at the front of `input`, from `from` on, that
/// belong to `class`.
pub open spec fn run_length(input: Seq<char>, class: CharClass, from: int) -> int
    decreases input.len() - from,
{
    if 0 <= from < input.len() && class.has(input[from]) {
        1 + run_length(input, class, from + 1)
    } else {
        0
    }
}

/// A run never goes beyond the end of the input.
pub proof fn lemma_run_length_bounds(input: Seq<char>, class: CharClass, from: int)
    requires
        0 <= from <= input.len(),
    ensures
        0 <= run_length(input, class, from) <= input.len() - from,
    decreases input.len() - from,
{
    if from < input.len() && class.has(input[from]) {
        lemma_run_length_bounds(input, class, from + 1);
    }
}

/// Counts the characters at the front of `input` that belong to `class`.
pub fn count_run(input: &str, class: CharClass) -> (count: usize)
    ensures
        count == run_length(input@, class, 0),
        count <= input@.len(),
{
    let len = input.unicode_len();
    let mut i: usize = 0;
    while i < len
        invariant
            i <= len,
            len == input@.len(),
            run_length(input@, class, 0) == i + run_length(input@, class, i as int),
        decreases len - i,
    {
        if !class.contains(input.get_char(i)) {
            return i;
        }
        i += 1;
    }
    i
}

/// The input from character `from` on.
pub fn skip_chars(input: &str, from: usize) -> (rest: &str)
    requires
        from <= input@.len(),
    ensures
        rest@ == input@.skip(from as int),
{
    let len = input.unicode_len();
    input.substring_char(from, len)
}

/// The first `count` characters of the input.
pub fn take_chars(input: &str, count: usize) -> (front: &str)
    requires
        count <= input@.len(),
    ensures
        front@ == input@.take(count as int),
{
    input.substring_char(0, count)
}

/// What follows the spaces and tabs at the front of `input`.
pub open spec fn after_spaces(input: Seq<char>) -> Seq<char> {
    input.skip(run_length(input, CharClass::Space, 0))
}

/// Skips the spaces and tabs at the front of `input`, if there are any.
pub fn space0(input: &str) -> (rest: &str)
    ensures
        rest@ == after_spaces(input@),
{
    let spaces = count_run(input, CharClass::Space);
    skip_chars(input, spaces)
}

/// Skips the spaces and tabs at the front of `input`, of which there must
/// be at least one.
pub fn space1(input: &str) -> (rest: Option<&str>)
    ensures
        match rest {
            Some(rest) => run_length(input@, CharClass::Space, 0) > 0 && rest@ == after_spaces(
                input@,
            ),
            None => run_length(input@, CharClass::Space, 0) == 0,
        },
{
    let spaces = count_run(input, CharClass::Space);
    if spaces == 0 {
        None
    } else {
        Some(skip_chars(input, spaces))
    }
}

/// The run of characters of `class` at the front of `input`, which must not
/// be empty, and what follows it.
pub open spec fn run_of(input: Seq<char>, class: CharClass) -> Option<(Seq<char>, Seq<char>)> {
    let count = run_length(input, class, 0);
    if count > 0 {
        Some((input.skip(count), input.take(count)))
    } else {
        None
    }
}

/// Splits the run of characters of `class` off the front of `input`. There
/// must be at least one such character.
pub fn take_run(input: &str, class: CharClass) -> (split: Option<(&str, &str)>)
    ensures
        match split {
            Some((rest, run)) => run_of(input@, class) == Some((rest@, run@)),
            None => run_of(input@, class) is None,
        },
{
    let count = count_run(input, class);
    if count == 0 {
        None
    } else {
        Some((skip_chars(input, count), take_chars(input, count)))
    }
}

/// Splits the binary digits off the front of `input`, of which there must
/// be at least one.
pub fn bin_digit1(input: &str) -> (split: Option<(&str, &str)>)
    ensures
        match split {
            Some((rest, run)) => run_of(input@, CharClass::BinDigit) == Some((rest@, run@)),
            None => run_of(input@, CharClass::BinDigit) is None,
        },
{
    take_run(input, CharClass::BinDigit)
}

/// What follows `word` at the front of `input`, if `input` begins with it.
pub open spec fn after_tag(input: Seq<char>, word: Seq<char>) -> Option<Seq<char>> {
    if word.is_prefix_of(input) {
        Some(input.skip(word.len() as int))
    } else {
        None
    }
}

/// Takes `word` off the front of `input`, which must begin with it.
#[verifier::rlimit(50)]
pub fn tag<'a>(input: &'a str, word: &str) -> (rest: Option<&'a str>)
    ensures
        match rest {
            Some(rest) => after_tag(input@, word@) == Some(rest@),
            None => after_tag(input@, word@) is None,
        },
{
    let len = word.unicode_len();
    if len > input.unicode_len() {
        return None;
    }
    let mut i: usize = 0;
    while i < len
        invariant
            i <= len,
            len == word@.len(),
            len <= input@.len(),
            forall|k: int| 0 <= k < i ==> word@[k] == input@[k],
        decreases len - i,
    {
        if word.get_char(i) != input.get_char(i) {
            return None;
        }
        i += 1;
    }
    assert(word@ =~= input@.subrange(0, word@.len() as int));
    Some(skip_chars(input, len))
}

/// Whether the input is at its end.
pub fn eof(input: &str) -> (yes: bool)
    ensures
        yes == (input@.len() == 0),
{
    input.unicode_len() == 0
}

/// The first match of a pattern in a text, where the regex crate finds one
/// that lies in the text: what follows it, and the match.
pub open spec fn found_at(pattern: Seq<char>, text: Seq<char>) -> Option<(Seq<char>, Seq<char>)> {
    match regex_find(pattern, text) {
        Some((rest, matched)) => if rest.len() + matched.len() <= text.len() {
            Some((rest, matched))
        } else {
            None
        },
        None => None,
    }
}

/// The first match of a pattern in a text with its groups, where the regex
/// crate finds one that lies in the text: what follows it, and the groups.
pub open spec fn captured_at(pattern: Seq<char>, text: Seq<char>) -> Option<
    (Seq<char>, Seq<Seq<char>>),
> {
    match regex_captures(pattern, text) {
        Some((rest, groups)) => if rest.len() <= text.len() {
            Some((rest, groups))
        } else {
            None
        },
        None => None,
    }
}

/// The regular expression that a string literal matches: an optional small
/// letter before it, and between double quotes any characters but
/// backslashes and double quotes, or a backslash and any character.
pub open spec fn string_pattern() -> Seq<char> {
    "^([a-z])?\"(([^\\\\\"]|\\\\.)*)\""@
}

/// The regular expression that an operator matches.
pub open spec fn op_pattern() -> Seq<char> {
    "^[+\\-*/&|^]|>>|<<"@
}

/// The name at the front of the input, and what follows it.
pub open spec fn ident_at(input: Seq<char>) -> Option<(Seq<char>, Seq<char>)> {
    found_at(identifier_pattern(), input)
}

/// The number that digits stand for in a radix, signed or not; what does
/// not fit 32 bits is out of range.
pub open spec fn number_of(digits: Seq<char>, radix: u32, fname: Seq<char>, line: usize) -> Result<
    i32,
    Failure,
> {
    match read_anysign(parsed_i64(digits, radix)) {
        Ok(number) => Ok(number),
        Err(_) => Err(failure_at(Fault::IntOutOfRange, fname, line)),
    }
}

/// The number at the front of the input, and what follows it. The input
/// must begin with a digit. The digits behind "0x" are hexadecimal and
/// those behind "0b" binary; without such digits the number is decimal.
pub open spec fn integer_at(input: Seq<char>, fname: Seq<char>, line: usize) -> Option<
    (Seq<char>, Result<i32, Failure>),
> {
    match run_of(input, CharClass::Digit) {
        None => None,
        Some((rest, digits)) => {
            let hex = match after_tag(input, "0x"@) {
                Some(behind) => run_of(behind, CharClass::HexDigit),
                None => None,
            };
            let bin = match after_tag(input, "0b"@) {
                Some(behind) => run_of(behind, CharClass::BinDigit),
                None => None,
            };
            match hex {
                Some((rest, digits)) => Some((rest, number_of(digits, 16, fname, line))),
                None => match bin {
                    Some((rest, digits)) => Some((rest, number_of(digits, 2, fname, line))),
                    None => Some((rest, number_of(digits, 10, fname, line))),
                },
            }
        },
    }
}

/// The name of the command at the front of the input, and what follows it:
/// a number, or else a name.
pub open spec fn cmd_name_at(input: Seq<char>, fname: Seq<char>, line: usize) -> Option<
    (Seq<char>, Result<Command, Failure>),
> {
    match integer_at(input, fname, line) {
        Some((rest, Ok(number))) => Some((rest, Ok(Command::Raw(number)))),
        Some((rest, Err(e))) => Some((rest, Err(e))),
        None => match ident_at(input) {
            Some((rest, name)) => Some((rest, Ok(Command::Named(name)))),
            None => None,
        },
    }
}

/// The place of the bracket that closes the brackets that are open at
/// `from`, `depth` of them: an opening bracket opens one more, a closing
/// bracket closes one.
pub open spec fn closing_at(
    input: Seq<char>,
    from: int,
    depth: int,
    opening: char,
    closing: char,
) -> Option<int>
    decreases input.len() - from,
{
    if from < 0 || from >= input.len() {
        None
    } else {
        let after = if input[from] == opening {
            depth + 1
        } else if input[from] == closing {
            depth - 1
        } else {
            depth
        };
        if after <= 0 {
            Some(from)
        } else {
            closing_at(input, from + 1, after, opening, closing)
        }
    }
}

/// The closing bracket lies within the input.
pub proof fn lemma_closing_at(input: Seq<char>, from: int, depth: int, opening: char, closing: char)
    requires
        0 <= from,
    ensures
        closing_at(input, from, depth, opening, closing) matches Some(at) ==> from <= at
            < input.len(),
    decreases input.len() - from,
{
    if from < input.len() {
        let after = if input[from] == opening {
            depth + 1
        } else if input[from] == closing {
            depth - 1
        } else {
            depth
        };
        if after > 0 {
            lemma_closing_at(input, from + 1, after, opening, closing);
        }
    }
}

/// What stands between the opening bracket at the front of the input and
/// the bracket that closes it, and what follows the closing bracket.
pub open spec fn bracketed(input: Seq<char>, opening: char, closing: char) -> Option<
    (Seq<char>, Seq<char>),
> {
    if input.len() > 0 && input[0] == opening {
        match closing_at(input, 1, 1, opening, closing) {
            Some(at) => Some((input.subrange(1, at), input.skip(at + 1))),
            None => None,
        }
    } else {
        None
    }
}

/// The operation that an operator stands for.
pub open spec fn operation_of(op: Seq<char>) -> Option<Operation> {
    if op == "+"@ {
        Some(Operation::Add)
    } else if op == "-"@ {
        Some(Operation::Sub)
    } else if op == "*"@ {
        Some(Operation::Mul)
    } else if op == "/"@ {
        Some(Operation::Div)
    } else if op == "<<"@ {
        Some(Operation::Shl)
    } else if op == ">>"@ {
        Some(Operation::Shr)
    } else if op == "|"@ {
        Some(Operation::Or)
    } else if op == "&"@ {
        Some(Operation::And)
    } else if op == "^"@ {
        Some(Operation::Xor)
    } else {
        None
    }
}

/// The rank of an operation: the operations of a lower rank are carried
/// out first.
pub open spec fn rank_of(op: Operation) -> int {
    match op {
        Operation::Mul | Operation::Div => 0,
        Operation::Add | Operation::Sub => 1,
        Operation::Shl | Operation::Shr => 2,
        Operation::And | Operation::Or | Operation::Xor => 3,
    }
}

/// The place of the first operation of the given rank from `from` on.
pub open spec fn first_of_rank(ops: Seq<Operation>, rank: int, from: int) -> Option<int>
    decreases ops.len() - from,
{
    if from < 0 || from >= ops.len() {
        None
    } else if rank_of(ops[from]) == rank {
        Some(from)
    } else {
        first_of_rank(ops, rank, from + 1)
    }
}

/// The place of the first operation of a rank lies within the list.
pub proof fn lemma_first_of_rank(ops: Seq<Operation>, rank: int, from: int)
    requires
        0 <= from,
    ensures
        first_of_rank(ops, rank, from) matches Some(at) ==> from <= at < ops.len() && rank_of(
            ops[at],
        ) == rank,
    decreases ops.len() - from,
{
    if from < ops.len() && rank_of(ops[from]) != rank {
        lemma_first_of_rank(ops, rank, from + 1);
    }
}

/// The value that a chain of values and the operations between them makes:
/// the operations of each rank are carried out from the left, those of the
/// ranks from `rank` on in turn. There is one value more than there are
/// operations.
#[verifier::rlimit(50)]
pub open spec fn chained(values: Seq<Expr>, ops: Seq<Operation>, rank: int) -> Expr
    decreases 4 - rank, ops.len(),
{
    if values.len() != ops.len() + 1 || rank < 0 || rank >= 4 {
        values[0]
    } else {
        match first_of_rank(ops, rank, 0) {
            Some(at) => {
                proof {
                    lemma_first_of_rank(ops, rank, 0);
                }
                chained(
                    values.remove(at + 1).update(
                        at,
                        Expr::Operation {
                            op: ops[at],
                            left: Box::new(values[at]),
                            right: Box::new(values[at + 1]),
                        },
                    ),
                    ops.remove(at),
                    rank,
                )
            },
            None => chained(values, ops, rank + 1),
        }
    }
}

/// What a parser of values hands back: what follows the value in the input,
/// and the value, or what is wrong with it.
pub type Parsed = Option<(Seq<char>, Result<Expr, Failure>)>;

/// An operator and the value behind it, and what follows the two.
pub ghost struct Link {
    pub rest: Seq<char>,
    pub op: Seq<char>,
    pub value: Result<Expr, Failure>,
}

/// A minus sign.
pub open spec fn minus() -> Seq<char> {
    seq!['-']
}

/// The string that a match of the pattern of string literals stands for.
/// The first group holds the prefix of the literal, which is "u" for a
/// string of 16-bit units or nothing, and the second what stands between
/// the quotes.
pub open spec fn string_of(groups: Seq<Seq<char>>, fname: Seq<char>, line: usize) -> Result<
    Expr,
    Failure,
> {
    if groups[1] =~= seq!['u'] {
        Ok(Expr::String { value: unescaped(groups[2]), is_unicode: true })
    } else if groups[1].len() == 0 {
        Ok(Expr::String { value: unescaped(groups[2]), is_unicode: false })
    } else {
        Err(failure_at(Fault::InvalidStrPrefix(groups[1]), fname, line))
    }
}

/// The value without operators at the front of the input, and what follows
/// it: a value in parentheses, a value with a minus sign before it, a
/// string literal, a number or a name, whichever is found first in this
/// order. Where the value in parentheses or behind the minus sign is
/// faulty, the parser hands the whole input back with the fault.
#[verifier::rlimit(50)]
pub open spec fn value_no_ops_at(input: Seq<char>, fname: Seq<char>, line: usize) -> Parsed
    decreases input.len(), 0nat,
{
    let in_parentheses: Parsed = match bracketed(input, '(', ')') {
        None => None,
        Some((inside, rest)) => {
            proof {
                lemma_closing_at(input, 1, 1, '(', ')');
                lemma_run_length_bounds(inside, CharClass::Space, 0);
            }
            match value_at(after_spaces(inside), fname, line) {
                None => None,
                Some((behind, value)) => if after_spaces(behind).len() == 0 {
                    Some((rest, value))
                } else {
                    None
                },
            }
        },
    };
    match in_parentheses {
        Some((rest, Ok(value))) => Some((rest, Ok(value))),
        Some((rest, Err(e))) => Some((input, Err(e))),
        None => {
            let negated: Parsed = match after_tag(input, minus()) {
                None => None,
                Some(behind) => {
                    proof {
                        lemma_run_length_bounds(behind, CharClass::Space, 0);
                    }
                    value_at(after_spaces(behind), fname, line)
                },
            };
            match negated {
                Some((rest, Ok(value))) => Some((rest, Ok(Expr::Negated(Box::new(value))))),
                Some((rest, Err(e))) => Some((input, Err(e))),
                None => match captured_at(string_pattern(), input) {
                    Some((rest, groups)) => if groups.len() >= 3 {
                        Some((rest, string_of(groups, fname, line)))
                    } else {
                        None
                    },
                    None => match integer_at(input, fname, line) {
                        Some((rest, Ok(number))) => Some((rest, Ok(Expr::Integer(number)))),
                        Some((rest, Err(e))) => Some((rest, Err(e))),
                        None => match ident_at(input) {
                            Some((rest, name)) => Some((rest, Ok(Expr::Constant(name)))),
                            None => None,
                        },
                    },
                },
            }
        },
    }
}

/// The operator at the front of the input, spaces apart, and the value
/// without operators behind it.
pub open spec fn link_at(input: Seq<char>, fname: Seq<char>, line: usize) -> Option<Link>
    decreases input.len(), 1nat,
{
    let spaced = after_spaces(input);
    match found_at(op_pattern(), spaced) {
        None => None,
        Some((behind, op)) => {
            proof {
                lemma_run_length_bounds(input, CharClass::Space, 0);
                lemma_run_length_bounds(behind, CharClass::Space, 0);
            }
            match value_no_ops_at(after_spaces(behind), fname, line) {
                None => None,
                Some((rest, value)) => Some(Link { rest, op, value }),
            }
        },
    }
}

/// The operators and values at the front of the input, as many as there
/// are, and what follows them. Each must take some input; of the first
/// there must be one.
pub open spec fn links_at(input: Seq<char>, fname: Seq<char>, line: usize, first: bool) -> Option<
    (Seq<char>, Seq<Link>),
>
    decreases input.len(), 2nat,
{
    match link_at(input, fname, line) {
        None => if first {
            None
        } else {
            Some((input, Seq::empty()))
        },
        Some(link) => if link.rest.len() >= input.len() {
            None
        } else {
            match links_at(link.rest, fname, line, false) {
                None => None,
                Some((rest, more)) => Some((rest, seq![link] + more)),
            }
        },
    }
}

/// What is wrong with the first faulty link from `from` on: its value is
/// faulty, or its operator is none.
pub open spec fn first_fault(links: Seq<Link>, from: int, fname: Seq<char>, line: usize) -> Option<
    Failure,
>
    decreases links.len() - from,
{
    if from < 0 || from >= links.len() {
        None
    } else {
        match links[from].value {
            Err(e) => Some(e),
            Ok(_) => if operation_of(links[from].op) is None {
                Some(failure_at(Fault::SyntaxError, fname, line))
            } else {
                first_fault(links, from + 1, fname, line)
            },
        }
    }
}

/// The values of a chain: the first, and those of the links.
pub open spec fn chain_values(first: Expr, links: Seq<Link>) -> Seq<Expr> {
    Seq::new(
        links.len() + 1,
        |i: int|
            if i == 0 {
                first
            } else {
                links[i - 1].value->Ok_0
            },
    )
}

/// The operations of a chain.
pub open spec fn chain_ops(links: Seq<Link>) -> Seq<Operation> {
    Seq::new(links.len(), |i: int| operation_of(links[i].op)->0)
}

/// The value at the front of the input, and what follows it: a value
/// without operators, or a chain of such values with operators between
/// them. In a chain, products and quotients are made first, then sums and
/// differences, then shifts, then the bitwise operations, each from the
/// left. Where a value of the chain is faulty, the parser hands the whole
/// input back with the fault.
pub open spec fn value_at(input: Seq<char>, fname: Seq<char>, line: usize) -> Parsed
    decreases input.len(), 3nat,
{
    match value_no_ops_at(input, fname, line) {
        None => None,
        Some((rest, first)) => {
            let links = if rest.len() <= input.len() {
                links_at(rest, fname, line, true)
            } else {
                None
            };
            match links {
                None => Some((rest, first)),
                Some((rest, links)) => match first {
                    Err(e) => Some((input, Err(e))),
                    Ok(first) => match first_fault(links, 0, fname, line) {
                        Some(e) => Some((input, Err(e))),
                        None => Some(
                            (rest, Ok(chained(chain_values(first, links), chain_ops(links), 0))),
                        ),
                    },
                },
            }
        },
    }
}

/// A parser of values hands back no more input than it was given: what
/// follows a value without operators is no longer than the input.
#[verifier::rlimit(50)]
pub proof fn lemma_value_no_ops_rest(input: Seq<char>, fname: Seq<char>, line: usize)
    ensures
        value_no_ops_at(input, fname, line) matches Some((rest, _)) ==> rest.len() <= input.len(),
    decreases input.len(), 0nat,
{
    lemma_run_length_bounds(input, CharClass::Digit, 0);
    if let Some((inside, rest)) = bracketed(input, '(', ')') {
        lemma_closing_at(input, 1, 1, '(', ')');
    }
    if let Some(behind) = after_tag(input, minus()) {
        lemma_run_length_bounds(behind, CharClass::Space, 0);
        lemma_value_rest(after_spaces(behind), fname, line);
    }
    if let Some(behind) = after_tag(input, "0x"@) {
        lemma_run_length_bounds(behind, CharClass::HexDigit, 0);
    }
    if let Some(behind) = after_tag(input, "0b"@) {
        lemma_run_length_bounds(behind, CharClass::BinDigit, 0);
    }
}

/// What follows an operator and the value behind it is no longer than the
/// input.
#[verifier::rlimit(50)]
pub proof fn lemma_link_rest(input: Seq<char>, fname: Seq<char>, line: usize)
    ensures
        link_at(input, fname, line) matches Some(link) ==> link.rest.len() <= input.len(),
    decreases input.len(), 1nat,
{
    lemma_run_length_bounds(input, CharClass::Space, 0);
    if let Some((behind, op)) = found_at(op_pattern(), after_spaces(input)) {
        lemma_run_length_bounds(behind, CharClass::Space, 0);
        lemma_value_no_ops_rest(after_spaces(behind), fname, line);
    }
}

/// What follows a chain of operators and values is no longer than the
/// input.
#[verifier::rlimit(50)]
pub proof fn lemma_links_rest(input: Seq<char>, fname: Seq<char>, line: usize, first: bool)
    ensures
        links_at(input, fname, line, first) matches Some((rest, _)) ==> rest.len() <= input.len(),
    decreases input.len(), 2nat,
{
    lemma_link_rest(input, fname, line);
    if let Some(link) = link_at(input, fname, line) {
        if link.rest.len() < input.len() {
            lemma_links_rest(link.rest, fname, line, false);
        }
    }
}

/// What follows a value is no longer than the input. So a chain is looked
/// for behind every value without operators, and a link that takes some
/// input leaves less than there was.
#[verifier::rlimit(50)]
pub proof fn lemma_value_rest(input: Seq<char>, fname: Seq<char>, line: usize)
    ensures
        value_at(input, fname, line) matches Some((rest, _)) ==> rest.len() <= input.len(),
    decreases input.len(), 3nat,
{
    lemma_value_no_ops_rest(input, fname, line);
    if let Some((rest, first)) = value_no_ops_at(input, fname, line) {
        lemma_links_rest(rest, fname, line, true);
    }
}

/// What a result of a parser holds.
pub open spec fn outcome(value: Result<Value, Error>) -> Result<Expr, Failure> {
    match value {
        Ok(value) => Ok(value@),
        Err(e) => Err(e@),
    }
}

/// Whether two texts are the same.
pub fn same_text(one: &str, other: &str) -> (same: bool)
    ensures
        same == (one@ == other@),
{
    let len = one.unicode_len();
    if len != other.unicode_len() {
        return false;
    }
    let mut i: usize = 0;
    while i < len
        invariant
            i <= len,
            len == one@.len(),
            len == other@.len(),
            forall|k: int| 0 <= k < i ==> one@[k] == other@[k],
        decreases len - i,
    {
        if one.get_char(i) != other.get_char(i) {
            return false;
        }
        i += 1;
    }
    assert(one@ =~= other@);
    true
}

/// Takes the name off the front of the input.
pub fn ident(input: &str) -> (found: Option<(&str, Identifier)>)
    ensures
        match found {
            Some((rest, name)) => ident_at(input@) == Some((rest@, name@)) && rest@.len()
                <= input@.len(),
            None => ident_at(input@) is None,
        },
{
    match re_find("^[A-Za-z_$][A-Za-z0-9_$]*", input) {
        Some((remaining, ident)) => Some((remaining, Identifier::new_unchecked(ident))),
        None => None,
    }
}

/// Reads digits as a number in a radix, which lies between 2 and 36.
pub fn int_ok(val: &str, radix: u32, fname: &str, line_num: usize) -> (number: Result<i32, Error>)
    requires
        2 <= radix <= 36,
    ensures
        match number {
            Ok(number) => number_of(val@, radix, fname@, line_num) == Ok::<i32, Failure>(number),
            Err(e) => number_of(val@, radix, fname@, line_num) == Err::<i32, Failure>(e@),
        },
{
    match read_anysign_int(val, radix) {
        Ok(number) => Ok(number),
        Err(_) => Err(OldTfError::IntOutOfRange.with_ctx(fname, line_num)),
    }
}

/// What a result of the parser of numbers holds.
pub open spec fn number_outcome(number: Result<i32, Error>) -> Result<i32, Failure> {
    match number {
        Ok(number) => Ok(number),
        Err(e) => Err(e@),
    }
}

/// Takes the number off the front of the input.
#[verifier::rlimit(50)]
pub fn integer<'a>(input: &'a str, fname: &str, line_num: usize) -> (found: Option<
    (&'a str, Result<i32, Error>),
>)
    ensures
        match found {
            Some((rest, number)) => integer_at(input@, fname@, line_num) == Some(
                (rest@, number_outcome(number)),
            ) && rest@.len() < input@.len(),
            None => integer_at(input@, fname@, line_num) is None,
        },
{
    let (remaining, val) = match take_run(input, CharClass::Digit) {
        Some(found) => found,
        None => {
            return None;
        },
    };
    proof {
        lemma_run_length_bounds(input@, CharClass::Digit, 0);
    }
    if let Some(behind) = tag(input, "0x") {
        if let Some((remaining, val)) = take_run(behind, CharClass::HexDigit) {
            proof {
                lemma_run_length_bounds(behind@, CharClass::HexDigit, 0);
            }
            return Some((remaining, int_ok(val, 16, fname, line_num)));
        }
    }
    if let Some(behind) = tag(input, "0b") {
        if let Some((remaining, val)) = bin_digit1(behind) {
            proof {
                lemma_run_length_bounds(behind@, CharClass::BinDigit, 0);
            }
            return Some((remaining, int_ok(val, 2, fname, line_num)));
        }
    }
    Some((remaining, int_ok(val, 10, fname, line_num)))
}

/// What a result of the parser of command names holds.
pub open spec fn name_outcome(name: Result<CommandName, Error>) -> Result<Command, Failure> {
    match name {
        Ok(name) => Ok(name@),
        Err(e) => Err(e@),
    }
}

/// Takes the name of a command off the front of the input: a number, or
/// else a name.
pub fn cmd_name<'a>(input: &'a str, fname: &str, line_num: usize) -> (found: Option<
    (&'a str, Result<CommandName, Error>),
>)
    ensures
        match found {
            Some((rest, name)) => cmd_name_at(input@, fname@, line_num) == Some(
                (rest@, name_outcome(name)),
            ) && rest@.len() <= input@.len(),
            None => cmd_name_at(input@, fname@, line_num) is None,
        },
{
    match integer(input, fname, line_num) {
        Some((remaining, Ok(val))) => Some((remaining, Ok(CommandName::Raw(val)))),
        Some((remaining, Err(e))) => Some((remaining, Err(e))),
        None => match ident(input) {
            Some((remaining, val)) => Some((remaining, Ok(CommandName::Named(val)))),
            None => None,
        },
    }
}

/// Splits the input at the brackets that it begins with: hands back what
/// stands between the opening bracket at its front and the bracket that
/// closes it, and what follows the closing bracket.
#[verifier::rlimit(50)]
pub fn with_matching_brackets(input: &str, opening: char, closing: char) -> (found: Option<
    (&str, &str),
>)
    ensures
        match found {
            Some((inside, rest)) => bracketed(input@, opening, closing) == Some(
                (inside@, rest@),
            ) && inside@.len() + rest@.len() + 2 == input@.len(),
            None => bracketed(input@, opening, closing) is None,
        },
{
    // step 1: ensure equal bracketing
    let len = input.unicode_len();
    if len == 0 || input.get_char(0) != opening {
        return None;
    }
    let mut depth: usize = 1;
    let mut at: usize = 1;
    while at < len
        invariant
            1 <= at <= len,
            len == input@.len(),
            input@[0] == opening,
            1 <= depth <= at,
            closing_at(input@, 1, 1, opening, closing) == closing_at(
                input@,
                at as int,
                depth as int,
                opening,
                closing,
            ),
        decreases len - at,
    {
        let c = input.get_char(at);
        if c == opening {
            depth += 1;
        } else if c == closing {
            depth -= 1;
        }
        if depth == 0 {
            // step 2: hand the inside over
            return Some((input.substring_char(1, at), skip_chars(input, at + 1)));
        }
        at += 1;
    }
    None
}

/// The operation that an operator stands for.
pub fn operation_from(op: &str) -> (operation: Option<Operation>)
    ensures
        operation == operation_of(op@),
{
    if same_text(op, "+") {
        Some(Operation::Add)
    } else if same_text(op, "-") {
        Some(Operation::Sub)
    } else if same_text(op, "*") {
        Some(Operation::Mul)
    } else if same_text(op, "/") {
        Some(Operation::Div)
    } else if same_text(op, "<<") {
        Some(Operation::Shl)
    } else if same_text(op, ">>") {
        Some(Operation::Shr)
    } else if same_text(op, "|") {
        Some(Operation::Or)
    } else if same_text(op, "&") {
        Some(Operation::And)
    } else if same_text(op, "^") {
        Some(Operation::Xor)
    } else {
        None
    }
}

/// The rank of an operation: the operations of a lower rank are carried
/// out first.
pub fn rank(op: Operation) -> (rank: u8)
    ensures
        rank == rank_of(op),
{
    match op {
        Operation::Mul | Operation::Div => 0,
        Operation::Add | Operation::Sub => 1,
        Operation::Shl | Operation::Shr => 2,
        Operation::And | Operation::Or | Operation::Xor => 3,
    }
}

/// Makes one value of a chain of values and the operations between them.
#[verifier::rlimit(50)]
pub fn chain(values: Vec<Value>, ops: Vec<Operation>) -> (value: Value)
    requires
        values.len() == ops.len() + 1,
    ensures
        value@ == chained(values.deep_view(), ops@, 0),
{
    let mut values = values;
    let mut ops = ops;
    let ghost goal = chained(values.deep_view(), ops@, 0);
    let mut op_type: u8 = 0;
    while op_type < 4
        invariant
            op_type <= 4,
            values.len() == ops.len() + 1,
            goal == chained(values.deep_view(), ops@, op_type as int),
            forall|k: int| 0 <= k < ops.len() ==> rank_of(#[trigger] ops@[k]) >= op_type,
        decreases 4 - op_type, ops.len(),
    {
        let mut i: usize = 0;
        let mut found = false;
        while i < ops.len()
            invariant_except_break
                !found,
            invariant
                i <= ops.len(),
                first_of_rank(ops@, op_type as int, 0) == first_of_rank(
                    ops@,
                    op_type as int,
                    i as int,
                ),
            ensures
                found ==> i < ops.len() && first_of_rank(ops@, op_type as int, 0) == Some(i as int),
                !found ==> first_of_rank(ops@, op_type as int, 0) is None,
            decreases ops.len() - i,
        {
            if rank(ops[i]) == op_type {
                found = true;
                break ;
            }
            i += 1;
        }
        if found {
            let ghost before = values.deep_view();
            let op = ops.remove(i);
            let val1 = values.remove(i);
            let val2 = values.remove(i);
            let ghost made = Expr::Operation {
                op,
                left: Box::new(val1@),
                right: Box::new(val2@),
            };
            values.insert(i, Value::Operation { op, left: Box::new(val1), right: Box::new(val2) });
            assert(values.deep_view() =~= before.remove(i + 1).update(i as int, made));
        } else {
            proof {
                lemma_none_of_rank(ops@, op_type as int, 0);
            }
            op_type += 1;
        }
    }
    assert(ops.len() == 0) by {
        if ops.len() > 0 {
            assert(rank_of(ops@[0]) >= 4);
        }
    }
    values.remove(0)
}

/// Where no operation of a rank is found, there is none.
pub proof fn lemma_none_of_rank(ops: Seq<Operation>, rank: int, from: int)
    requires
        0 <= from,
        first_of_rank(ops, rank, from) is None,
    ensures
        forall|k: int| from <= k < ops.len() ==> rank_of(#[trigger] ops[k]) != rank,
    decreases ops.len() - from,
{
    if from < ops.len() {
        lemma_none_of_rank(ops, rank, from + 1);
    }
}

/// An operator and the value behind it, as they were read, and what
/// follows the two.
pub struct ParsedLink<'a> {
    pub rest: &'a str,
    pub op: &'a str,
    pub value: Result<Value, Error>,
}

impl<'a> View for ParsedLink<'a> {
    type V = Link;

    open spec fn view(&self) -> Link {
        Link { rest: self.rest@, op: self.op@, value: outcome(self.value) }
    }
}

/// The links of a list.
pub open spec fn links_view(links: Seq<ParsedLink>) -> Seq<Link> {
    Seq::new(links.len(), |i: int| links[i]@)
}

/// Links that were read, followed by those that are read after them, if
/// these can be read.
pub open spec fn after_links(done: Seq<Link>, more: Option<(Seq<char>, Seq<Link>)>) -> Option<
    (Seq<char>, Seq<Link>),
> {
    match more {
        Some((rest, more)) => Some((rest, done + more)),
        None => None,
    }
}

/// The groups of a list of texts.
pub open spec fn groups_view(groups: Seq<&str>) -> Seq<Seq<char>> {
    Seq::new(groups.len(), |k: int| groups[k]@)
}

/// The string that a match of the pattern of string literals stands for,
/// given the groups of the match: the whole match, the prefix of the
/// literal, and what stands between the quotes.
pub fn string_literal(groups: &Vec<&str>, fname: &str, line_num: usize) -> (value: Result<
    Value,
    Error,
>)
    requires
        groups.len() >= 3,
    ensures
        outcome(value) == string_of(groups_view(groups@), fname@, line_num),
{
    proof {
        reveal_strlit("u");
    }
    assert("u"@ =~= seq!['u']);
    assert(groups_view(groups@)[1] == groups@[1]@ && groups_view(groups@)[2] == groups@[2]@);
    let prefix = groups[1];
    let is_unicode = if same_text(prefix, "u") {
        true
    } else if eof(prefix) {
        false
    } else {
        return Err(OldTfError::InvalidStrPrefix(prefix.to_owned()).with_ctx(fname, line_num));
    };
    Ok(Value::String { value: process_escapes(groups[2]), is_unicode })
}

/// Takes a value without operators off the front of the input.
#[verifier::rlimit(50)]
pub fn value_no_ops<'a>(input: &'a str, fname: &str, line_num: usize) -> (found: Option<
    (&'a str, Result<Value, Error>),
>)
    ensures
        match found {
            Some((rest, value)) => value_no_ops_at(input@, fname@, line_num) == Some(
                (rest@, outcome(value)),
            ) && rest@.len() <= input@.len(),
            None => value_no_ops_at(input@, fname@, line_num) is None,
        },
    decreases input@.len(), 0nat,
{
    proof {
        reveal_strlit("-");
    }
    assert("-"@ =~= minus());
    if let Some((inside, remaining)) = with_matching_brackets(input, '(', ')') {
        proof {
            lemma_run_length_bounds(inside@, CharClass::Space, 0);
        }
        if let Some((behind, val)) = value(space0(inside), fname, line_num) {
            if eof(space0(behind)) {
                return match val {
                    Ok(c) => Some((remaining, Ok(c))),
                    Err(e) => Some((input, Err(e))),
                };
            }
        }
    }
    if let Some(behind) = tag(input, "-") {
        proof {
            lemma_run_length_bounds(behind@, CharClass::Space, 0);
        }
        if let Some((remaining, val)) = value(space0(behind), fname, line_num) {
            return match val {
                Ok(c) => Some((remaining, Ok(Value::Negated(Box::new(c))))),
                Err(e) => Some((input, Err(e))),
            };
        }
    }
    if let Some((remaining, value)) = re_capture("^([a-z])?\"(([^\\\\\"]|\\\\.)*)\"", input) {
        if value.len() < 3 {
            return None;
        }
        return Some((remaining, string_literal(&value, fname, line_num)));
    }
    match integer(input, fname, line_num) {
        Some((remaining, Ok(c))) => {
            return Some((remaining, Ok(Value::Integer(c))));
        },
        Some((remaining, Err(e))) => {
            return Some((remaining, Err(e)));
        },
        None => {},
    }
    match ident(input) {
        Some((remaining, val)) => Some((remaining, Ok(Value::Constant(val)))),
        None => None,
    }
}

/// Takes an operator and the value without operators behind it off the
/// front of the input.
#[verifier::rlimit(50)]
pub fn link<'a>(input: &'a str, fname: &str, line_num: usize) -> (found: Option<ParsedLink<'a>>)
    ensures
        match found {
            Some(link) => link_at(input@, fname@, line_num) == Some(link@) && link.rest@.len()
                <= input@.len(),
            None => link_at(input@, fname@, line_num) is None,
        },
    decreases input@.len(), 1nat,
{
    proof {
        lemma_run_length_bounds(input@, CharClass::Space, 0);
    }
    let (behind, op) = match re_find("^[+\\-*/&|^]|>>|<<", space0(input)) {
        Some(found) => found,
        None => {
            return None;
        },
    };
    proof {
        lemma_run_length_bounds(behind@, CharClass::Space, 0);
    }
    match value_no_ops(space0(behind), fname, line_num) {
        Some((rest, value)) => Some(ParsedLink { rest, op, value }),
        None => None,
    }
}

/// Takes a value off the front of the input: a value without operators, or
/// a chain of such values with operators between them.
#[verifier::loop_isolation(false)]
#[verifier::rlimit(50)]
pub fn value<'a>(input: &'a str, fname: &str, line_num: usize) -> (found: Option<
    (&'a str, Result<Value, Error>),
>)
    ensures
        match found {
            Some((rest, value)) => value_at(input@, fname@, line_num) == Some(
                (rest@, outcome(value)),
            ) && rest@.len() <= input@.len(),
            None => value_at(input@, fname@, line_num) is None,
        },
    decreases input@.len(), 3nat,
{
    let (start, val1) = match value_no_ops(input, fname, line_num) {
        Some(found) => found,
        None => {
            return None;
        },
    };
    let ghost goal = links_at(start@, fname@, line_num, true);
    let mut pairs: Vec<ParsedLink<'a>> = Vec::new();
    let mut remaining = start;
    assert(links_view(pairs@) =~= Seq::empty());
    let mut finished = false;
    while !finished
        invariant
            remaining@.len() <= start@.len() <= input@.len(),
            !finished ==> goal == after_links(
                links_view(pairs@),
                links_at(remaining@, fname@, line_num, pairs@.len() == 0),
            ),
            finished ==> goal == Some((remaining@, links_view(pairs@))) && pairs@.len() > 0,
        decreases
                remaining@.len() + if finished {
                    0int
                } else {
                    1int
                },
    {
        let ghost before = links_view(pairs@);
        match link(remaining, fname, line_num) {
            None => {
                if pairs.len() == 0 {
                    return Some((start, val1));
                }
                assert(before + Seq::<Link>::empty() =~= before);
                finished = true;
            },
            Some(next) => {
                // the parser must always consume
                if next.rest.unicode_len() >= remaining.unicode_len() {
                    return Some((start, val1));
                }
                remaining = next.rest;
                let ghost one = next@;
                pairs.push(next);
                proof {
                    assert(links_view(pairs@) =~= before.push(one));
                    if let Some((rest, more)) = links_at(remaining@, fname@, line_num, false) {
                        assert(before + (seq![one] + more) =~= before.push(one) + more);
                    }
                }
            },
        }
    }
    let val1 = match val1 {
        Ok(c) => c,
        Err(e) => {
            return Some((input, Err(e)));
        },
    };
    let ghost first = val1@;
    let ghost links = links_view(pairs@);
    let ghost count = pairs@.len();
    let mut values: Vec<Value> = Vec::new();
    values.push(val1);
    let mut ops: Vec<Operation> = Vec::new();
    let mut rest = reversed(pairs);
    while rest.len() > 0
        invariant
            rest@.len() <= count,
            links.len() == count,
            forall|j: int| 0 <= j < rest@.len() ==> (#[trigger] rest@[j])@ == links[count - 1 - j],
            first_fault(links, 0, fname@, line_num) == first_fault(
                links,
                count - rest@.len(),
                fname@,
                line_num,
            ),
            values@.len() == count - rest@.len() + 1,
            ops@.len() == count - rest@.len(),
            values@[0]@ == first,
            forall|j: int|
                1 <= j < values@.len() ==> links[j - 1].value == Ok::<Expr, Failure>(
                    (#[trigger] values@[j])@,
                ),
            forall|j: int|
                0 <= j < ops@.len() ==> operation_of(links[j].op) == Some(#[trigger] ops@[j]),
        decreases rest.len(),
    {
        let ghost at = count - rest@.len();
        let next = match rest.pop() {
            Some(next) => next,
            None => {
                break ;
            },
        };
        assert(next@ == links[at]);
        let val = match next.value {
            Ok(c) => c,
            Err(e) => {
                return Some((input, Err(e)));
            },
        };
        let op = match operation_from(next.op) {
            Some(op) => op,
            None => {
                return Some((input, Err(OldTfError::SyntaxError.with_ctx(fname, line_num))));
            },
        };
        values.push(val);
        ops.push(op);
    }
    assert(values.deep_view() =~= chain_values(first, links));
    assert(ops@ =~= chain_ops(links));
    Some((remaining, Ok(chain(values, ops))))
}

/// Whether a character is white space, as Unicode defines it.
pub open spec fn is_white(c: char) -> bool {
    let code = c as u32;
    ||| 0x09 <= code <= 0x0D
    ||| code == 0x20
    ||| code == 0x85
    ||| code == 0xA0
    ||| code == 0x1680
    ||| 0x2000 <= code <= 0x200A
    ||| code == 0x2028
    ||| code == 0x2029
    ||| code == 0x202F
    ||| code == 0x205F
    ||| code == 0x3000
}

/// Whether a character is white space, as Unicode defines it.
pub fn is_whitespace(c: char) -> (yes: bool)
    ensures
        yes == is_white(c),
{
    let code = c as u32;
    (0x09 <= code && code <= 0x0D) || code == 0x20 || code == 0x85 || code == 0xA0 || code
        == 0x1680 || (0x2000 <= code && code <= 0x200A) || code == 0x2028 || code == 0x2029
        || code == 0x202F || code == 0x205F || code == 0x3000
}

/// The number of white characters at the front of `text[from..to]`.
pub open spec fn white_before(text: Seq<char>, from: int, to: int) -> int
    decreases to - from,
{
    if 0 <= from < to <= text.len() && is_white(text[from]) {
        1 + white_before(text, from + 1, to)
    } else {
        0
    }
}

/// The number of white characters at the end of `text[from..to]`.
pub open spec fn white_behind(text: Seq<char>, from: int, to: int) -> int
    decreases to - from,
{
    if 0 <= from < to <= text.len() && is_white(text[to - 1]) {
        1 + white_behind(text, from, to - 1)
    } else {
        0
    }
}

/// A text without the white space at its front.
pub open spec fn trimmed_start(text: Seq<char>) -> Seq<char> {
    text.skip(white_before(text, 0, text.len() as int))
}

/// A text without the white space at its front and at its end.
pub open spec fn trimmed(text: Seq<char>) -> Seq<char> {
    let front = white_before(text, 0, text.len() as int);
    let back = white_behind(text, front, text.len() as int);
    text.subrange(front, text.len() - back)
}

/// The name of the directive at the front of the input, and what follows
/// it: a number sign, a name, and spaces or tabs.
pub open spec fn directive_at(input: Seq<char>) -> Option<(Seq<char>, Seq<char>)> {
    match after_tag(input, "#"@) {
        None => None,
        Some(behind) => match ident_at(behind) {
            None => None,
            Some((rest, name)) => if run_length(rest, CharClass::Space, 0) > 0 {
                Some((after_spaces(rest), name))
            } else {
                None
            },
        },
    }
}

/// The directive with the given name whose arguments are `remaining`.
pub open spec fn directive_of(
    name: Seq<char>,
    remaining: Seq<char>,
    fname: Seq<char>,
    line: usize,
) -> Result<Written, Failure> {
    if name == "index"@ || name == "start"@ || name == "assets"@ {
        match integer_at(remaining, fname, line) {
            Some((rest, number)) => if rest.len() == 0 {
                match number {
                    Ok(number) => Ok(Written::Directive { name, args: seq![Expr::Integer(number)] }),
                    Err(e) => Err(e),
                }
            } else {
                Err(failure_at(Fault::SyntaxError, fname, line))
            },
            None => Err(failure_at(Fault::SyntaxError, fname, line)),
        }
    } else if name == "alias"@ {
        match ident_at(remaining) {
            None => Err(failure_at(Fault::SyntaxError, fname, line)),
            Some((behind, alias)) => match integer_at(after_spaces(behind), fname, line) {
                Some((rest, number)) => if rest.len() == 0 {
                    match number {
                        Ok(number) => Ok(
                            Written::Directive {
                                name,
                                args: seq![Expr::Constant(alias), Expr::Integer(number)],
                            },
                        ),
                        Err(e) => Err(e),
                    }
                } else {
                    Err(failure_at(Fault::SyntaxError, fname, line))
                },
                None => Err(failure_at(Fault::SyntaxError, fname, line)),
            },
        }
    } else if name == "include"@ {
        Ok(
            Written::Directive {
                name,
                args: seq![Expr::String { value: trimmed(remaining), is_unicode: false }],
            },
        )
    } else {
        Err(failure_at(Fault::InvalidDirective(name), fname, line))
    }
}

/// The name of the label that the input is: a name and a colon.
pub open spec fn label_at(input: Seq<char>) -> Option<Seq<char>> {
    match ident_at(input) {
        None => None,
        Some((rest, name)) => match after_tag(rest, ":"@) {
            Some(end) => if end.len() == 0 {
                Some(name)
            } else {
                None
            },
            None => None,
        },
    }
}

/// The constant that the input defines: a name, an equals sign and a
/// value.
pub open spec fn constant_at(input: Seq<char>, fname: Seq<char>, line: usize) -> Option<
    Result<Written, Failure>,
> {
    match ident_at(input) {
        None => None,
        Some((rest, name)) => match after_tag(after_spaces(rest), "="@) {
            None => None,
            Some(behind) => match value_at(after_spaces(behind), fname, line) {
                None => None,
                Some((end, value)) => if end.len() == 0 {
                    Some(
                        match value {
                            Ok(value) => Ok(Written::Constant { name, value }),
                            Err(e) => Err(e),
                        },
                    )
                } else {
                    None
                },
            },
        },
    }
}

/// The separator between two arguments at the front of the input: a comma,
/// with spaces or tabs around it.
pub open spec fn separator_at(input: Seq<char>) -> Option<Seq<char>> {
    match after_tag(after_spaces(input), ","@) {
        Some(behind) => Some(after_spaces(behind)),
        None => None,
    }
}

/// The arguments that follow those read so far, each behind a separator,
/// and what follows the last of them.
pub open spec fn more_args_at(
    input: Seq<char>,
    fname: Seq<char>,
    line: usize,
    done: Seq<Result<Expr, Failure>>,
) -> Option<(Seq<char>, Seq<Result<Expr, Failure>>)>
    decreases input.len(),
{
    match separator_at(input) {
        None => Some((input, done)),
        Some(behind) => if behind.len() == input.len() {
            None
        } else {
            match value_at(behind, fname, line) {
                None => Some((input, done)),
                Some((rest, value)) => if rest.len() < input.len() {
                    more_args_at(rest, fname, line, done.push(value))
                } else {
                    None
                },
            }
        },
    }
}

/// The arguments at the front of the input, separated by commas, and what
/// follows them. There may be none.
pub open spec fn args_at(input: Seq<char>, fname: Seq<char>, line: usize) -> Option<
    (Seq<char>, Seq<Result<Expr, Failure>>),
> {
    match value_at(input, fname, line) {
        None => Some((input, Seq::empty())),
        Some((rest, value)) => more_args_at(rest, fname, line, seq![value]),
    }
}

/// The discriminator behind the name of a command, if there is one, and
/// what follows it: a value between angle brackets, which may have spaces
/// or tabs before them. What follows the value between the brackets is
/// passed over.
pub open spec fn arg0_at(input: Seq<char>, fname: Seq<char>, line: usize) -> (
    Seq<char>,
    Option<Result<Expr, Failure>>,
) {
    match bracketed(after_spaces(input), '<', '>') {
        None => (input, None),
        Some((inside, rest)) => match value_at(inside, fname, line) {
            None => (input, None),
            Some((_, value)) => (rest, Some(value)),
        },
    }
}

/// The arguments behind the name and the discriminator of a command, if
/// there are any, and what follows them: spaces or tabs, and then the
/// arguments.
pub open spec fn spaced_args_at(input: Seq<char>, fname: Seq<char>, line: usize) -> (
    Seq<char>,
    Seq<Result<Expr, Failure>>,
) {
    if run_length(input, CharClass::Space, 0) > 0 {
        match args_at(after_spaces(input), fname, line) {
            Some((rest, args)) => (rest, args),
            None => (input, Seq::empty()),
        }
    } else {
        (input, Seq::empty())
    }
}

/// The values of a list of arguments, or what is wrong with the first
/// faulty one from `from` on.
pub open spec fn args_of(args: Seq<Result<Expr, Failure>>, from: int) -> Result<Seq<Expr>, Failure>
    decreases args.len() - from,
{
    if from < 0 || from >= args.len() {
        Ok(Seq::empty())
    } else {
        match args[from] {
            Err(e) => Err(e),
            Ok(value) => match args_of(args, from + 1) {
                Err(e) => Err(e),
                Ok(rest) => Ok(seq![value] + rest),
            },
        }
    }
}

/// The command that the input is: a name, a discriminator between angle
/// brackets if there is one, and arguments if there are any.
pub open spec fn command_at(input: Seq<char>, fname: Seq<char>, line: usize) -> Result<
    Written,
    Failure,
> {
    match cmd_name_at(input, fname, line) {
        None => Err(failure_at(Fault::SyntaxError, fname, line)),
        Some((behind, cmd)) => {
            let (behind, arg0) = arg0_at(behind, fname, line);
            let (end, args) = spaced_args_at(behind, fname, line);
            if end.len() != 0 {
                Err(failure_at(Fault::SyntaxError, fname, line))
            } else {
                match cmd {
                    Err(e) => Err(e),
                    Ok(cmd) => match arg0 {
                        Some(Err(e)) => Err(e),
                        _ => match args_of(args, 0) {
                            Err(e) => Err(e),
                            Ok(args) => Ok(
                                Written::Command {
                                    cmd,
                                    arg0: match arg0 {
                                        Some(Ok(value)) => Some(value),
                                        _ => None,
                                    },
                                    args,
                                },
                            ),
                        },
                    },
                }
            }
        },
    }
}

/// The statement that a line is: a directive, a label, the definition of a
/// constant or a command, whichever fits first in this order.
#[verifier::opaque]
pub open spec fn statement_at(input: Seq<char>, fname: Seq<char>, line: usize) -> Result<
    Written,
    Failure,
> {
    match directive_at(input) {
        Some((remaining, name)) => directive_of(name, remaining, fname, line),
        None => match label_at(input) {
            Some(name) => Ok(Written::Label(name)),
            None => match constant_at(input, fname, line) {
                Some(constant) => constant,
                None => command_at(input, fname, line),
            },
        },
    }
}

/// What a list of results of the parser of values holds.
pub open spec fn outcomes(values: Seq<Result<Value, Error>>) -> Seq<Result<Expr, Failure>> {
    Seq::new(values.len(), |i: int| outcome(values[i]))
}

/// A text without the white space at its front and at its end.
#[verifier::rlimit(50)]
pub fn trim(text: &str) -> (out: String)
    ensures
        out@ == trimmed(text@),
{
    let chars = to_chars(text);
    let len = chars.len();
    let mut front: usize = 0;
    while front < len && is_whitespace(chars[front])
        invariant
            front <= len,
            len == chars.len(),
            white_before(chars@, 0, len as int) == front + white_before(
                chars@,
                front as int,
                len as int,
            ),
        decreases len - front,
    {
        front += 1;
    }
    let mut back: usize = len;
    while back > front && is_whitespace(chars[back - 1])
        invariant
            front <= back <= len,
            len == chars.len(),
            white_behind(chars@, front as int, len as int) == (len - back) + white_behind(
                chars@,
                front as int,
                back as int,
            ),
        decreases back - front,
    {
        back -= 1;
    }
    text_of(&chars, front, back)
}

/// Takes the arguments of a command off the front of the input: values
/// with commas between them.
#[verifier::loop_isolation(false)]
#[verifier::rlimit(50)]
pub fn args<'a>(input: &'a str, fname: &str, line_num: usize) -> (found: Option<
    (&'a str, Vec<Result<Value, Error>>),
>)
    ensures
        match found {
            Some((rest, values)) => args_at(input@, fname@, line_num) == Some(
                (rest@, outcomes(values@)),
            ),
            None => args_at(input@, fname@, line_num) is None,
        },
{
    proof {
        reveal_strlit(",");
    }
    let mut res: Vec<Result<Value, Error>> = Vec::new();
    let mut i = input;
    match value(i, fname, line_num) {
        None => {
            assert(outcomes(res@) =~= Seq::empty());
            return Some((i, res));
        },
        Some((i1, o)) => {
            let ghost first = outcome(o);
            res.push(o);
            i = i1;
            assert(outcomes(res@) =~= seq![first]);
        },
    }
    let ghost goal = args_at(input@, fname@, line_num);
    let mut finished = false;
    while !finished
        invariant
            !finished ==> goal == more_args_at(i@, fname@, line_num, outcomes(res@)),
            finished ==> goal == Some((i@, outcomes(res@))),
        decreases
                i@.len() + if finished {
                    0int
                } else {
                    1int
                },
    {
        let ghost done = outcomes(res@);
        proof {
            lemma_run_length_bounds(i@, CharClass::Space, 0);
        }
        let behind = match tag(space0(i), ",") {
            Some(behind) => {
                proof {
                    lemma_run_length_bounds(behind@, CharClass::Space, 0);
                }
                space0(behind)
            },
            None => {
                finished = true;
                continue ;
            },
        };
        match value(behind, fname, line_num) {
            None => {
                finished = true;
            },
            Some((i2, o)) => {
                let ghost next = outcome(o);
                res.push(o);
                i = i2;
                assert(outcomes(res@) =~= done.push(next));
            },
        }
    }
    Some((i, res))
}

/// What a result of the parser of statements holds.
pub open spec fn statement_outcome(statement: Result<Statement, Error>) -> Result<
    Written,
    Failure,
> {
    match statement {
        Ok(statement) => Ok(statement.deep_view()),
        Err(e) => Err(e@),
    }
}

/// Reads the arguments of the directive with the given name.
#[verifier::rlimit(50)]
fn read_directive(name: Identifier, remaining: &str, fname: &str, line_num: usize) -> (statement:
    Result<Statement, Error>)
    ensures
        statement_outcome(statement) == directive_of(name@, remaining@, fname@, line_num),
{
    if same_text(name.as_str(), "index") || same_text(name.as_str(), "start") || same_text(
        name.as_str(),
        "assets",
    ) {
        match integer(remaining, fname, line_num) {
            Some((rest, val)) => {
                if !eof(rest) {
                    return Err(OldTfError::SyntaxError.with_ctx(fname, line_num));
                }
                match val {
                    Ok(val) => {
                        let mut args: Vec<Value> = Vec::new();
                        args.push(Value::Integer(val));
                        assert(args.deep_view() =~= seq![Expr::Integer(val)]);
                        Ok(Statement::Directive { name, args })
                    },
                    Err(e) => Err(e),
                }
            },
            None => Err(OldTfError::SyntaxError.with_ctx(fname, line_num)),
        }
    } else if same_text(name.as_str(), "alias") {
        let (behind, aname) = match ident(remaining) {
            Some(found) => found,
            None => {
                return Err(OldTfError::SyntaxError.with_ctx(fname, line_num));
            },
        };
        match integer(space0(behind), fname, line_num) {
            Some((rest, val)) => {
                if !eof(rest) {
                    return Err(OldTfError::SyntaxError.with_ctx(fname, line_num));
                }
                match val {
                    Ok(val) => {
                        let ghost alias = aname@;
                        let mut args: Vec<Value> = Vec::new();
                        args.push(Value::Constant(aname));
                        args.push(Value::Integer(val));
                        assert(args.deep_view() =~= seq![
                            Expr::Constant(alias),
                            Expr::Integer(val),
                        ]);
                        Ok(Statement::Directive { name, args })
                    },
                    Err(e) => Err(e),
                }
            },
            None => Err(OldTfError::SyntaxError.with_ctx(fname, line_num)),
        }
    } else if same_text(name.as_str(), "include") {
        let value = trim(remaining);
        let ghost file = value@;
        let mut args: Vec<Value> = Vec::new();
        args.push(Value::String { value, is_unicode: false });
        assert(args.deep_view() =~= seq![Expr::String { value: file, is_unicode: false }]);
        Ok(Statement::Directive { name, args })
    } else {
        Err(OldTfError::InvalidDirective(name).with_ctx(fname, line_num))
    }
}

/// Takes the values out of a list of results: gives the values, or the
/// first error of the list.
#[verifier::loop_isolation(false)]
#[verifier::rlimit(50)]
fn collect_args(args: Vec<Result<Value, Error>>) -> (values: Result<Vec<Value>, Error>)
    ensures
        match values {
            Ok(values) => args_of(outcomes(args@), 0) == Ok::<Seq<Expr>, Failure>(
                values.deep_view(),
            ),
            Err(e) => args_of(outcomes(args@), 0) == Err::<Seq<Expr>, Failure>(e@),
        },
{
    let ghost all = outcomes(args@);
    let ghost count = args@.len();
    let mut rest = reversed(args);
    let mut values: Vec<Value> = Vec::new();
    assert(values.deep_view() =~= Seq::empty());
    while rest.len() > 0
        invariant
            rest@.len() <= count,
            all.len() == count,
            forall|j: int|
                0 <= j < rest@.len() ==> outcome(#[trigger] rest@[j]) == all[count - 1 - j],
            args_of(all, 0) == match args_of(all, count - rest@.len()) {
                Ok(more) => Ok(values.deep_view() + more),
                Err(e) => Err(e),
            },
        decreases rest.len(),
    {
        let ghost from = count - rest@.len();
        let ghost before = values.deep_view();
        let next = match rest.pop() {
            Some(next) => next,
            None => {
                break ;
            },
        };
        assert(outcome(next) == all[from]);
        let value = match next {
            Ok(value) => value,
            Err(e) => {
                return Err(e);
            },
        };
        let ghost one = value@;
        values.push(value);
        proof {
            assert(values.deep_view() =~= before.push(one));
            if let Ok(more) = args_of(all, from + 1) {
                assert(before + (seq![one] + more) =~= before.push(one) + more);
            }
        }
    }
    assert(values.deep_view() + Seq::<Expr>::empty() =~= values.deep_view());
    Ok(values)
}

/// Reads a command.
#[verifier::rlimit(50)]
fn read_command(input: &str, fname: &str, line_num: usize) -> (statement: Result<Statement, Error>)
    ensures
        statement_outcome(statement) == command_at(input@, fname@, line_num),
{
    let (behind, cmd) = match cmd_name(input, fname, line_num) {
        Some(found) => found,
        None => {
            return Err(OldTfError::SyntaxError.with_ctx(fname, line_num));
        },
    };
    let mut arg0: Option<Result<Value, Error>> = None;
    let mut behind = behind;
    if let Some((inside, rest)) = with_matching_brackets(space0(behind), '<', '>') {
        if let Some((_, val)) = value(inside, fname, line_num) {
            arg0 = Some(val);
            behind = rest;
        }
    }
    let mut values: Vec<Result<Value, Error>> = Vec::new();
    assert(outcomes(values@) =~= Seq::empty());
    if let Some(spaced) = space1(behind) {
        if let Some((rest, found)) = args(spaced, fname, line_num) {
            values = found;
            behind = rest;
        }
    }
    if !eof(behind) {
        return Err(OldTfError::SyntaxError.with_ctx(fname, line_num));
    }
    let cmd = match cmd {
        Ok(cmd) => cmd,
        Err(e) => {
            return Err(e);
        },
    };
    let arg0 = match arg0 {
        Some(Err(e)) => {
            return Err(e);
        },
        Some(Ok(c)) => Some(c),
        None => None,
    };
    let args = match collect_args(values) {
        Ok(args) => args,
        Err(e) => {
            return Err(e);
        },
    };
    Ok(Statement::Command { cmd, arg0, args })
}

/// Reads a statement from a line: a directive, a label, the definition of
/// a constant or a command.
#[verifier::rlimit(50)]
pub fn read_statement(input: &str, fname: &str, line_num: usize) -> (statement: Result<
    Statement,
    Error,
>)
    ensures
        statement_outcome(statement) == statement_at(input@, fname@, line_num),
{
    reveal(statement_at);
    // directive
    if let Some(behind) = tag(input, "#") {
        if let Some((rest, name)) = ident(behind) {
            if let Some(remaining) = space1(rest) {
                return read_directive(name, remaining, fname, line_num);
            }
        }
    }
    // label
    if let Some((rest, name)) = ident(input) {
        if let Some(end) = tag(rest, ":") {
            if eof(end) {
                return Ok(Statement::Label(name));
            }
        }
    }
    // constant
    if let Some((rest, name)) = ident(input) {
        if let Some(behind) = tag(space0(rest), "=") {
            if let Some((end, value)) = value(space0(behind), fname, line_num) {
                if eof(end) {
                    return match value {
                        Ok(value) => Ok(Statement::Constant { name, value }),
                        Err(e) => Err(e),
                    };
                }
            }
        }
    }
    read_command(input, fname, line_num)
}

/// The place of the line feed that ends the line which `from` lies in, or
/// the end of the text where no line feed follows.
pub open spec fn line_end(text: Seq<char>, from: int) -> int
    decreases text.len() - from,
{
    if from < 0 || from >= text.len() {
        text.len() as int
    } else if text[from] == '\n' {
        from
    } else {
        line_end(text, from + 1)
    }
}

/// The end of a line lies within the text, at or behind its start.
pub proof fn lemma_line_end(text: Seq<char>, from: int)
    requires
        0 <= from <= text.len(),
    ensures
        from <= line_end(text, from) <= text.len(),
        line_end(text, from) < text.len() ==> text[line_end(text, from)] == '\n',
    decreases text.len() - from,
{
    if from < text.len() && text[from] != '\n' {
        lemma_line_end(text, from + 1);
    }
}

/// The line that begins at `from`, without the line feed that ends it and
/// without a carriage return before that line feed.
pub open spec fn line_at(text: Seq<char>, from: int) -> Seq<char> {
    let end = line_end(text, from);
    if from < end < text.len() && text[end - 1] == '\r' {
        text.subrange(from, end - 1)
    } else {
        text.subrange(from, end)
    }
}

/// The place of the first two slashes from `from` on.
pub open spec fn comment_at(line: Seq<char>, from: int) -> Option<int>
    decreases line.len() - from,
{
    if from < 0 || from + 1 >= line.len() {
        None
    } else if line[from] == '/' && line[from + 1] == '/' {
        Some(from)
    } else {
        comment_at(line, from + 1)
    }
}

/// A line without its comment: what stands before the first two slashes.
pub open spec fn before_comment(line: Seq<char>) -> Seq<char> {
    match comment_at(line, 0) {
        Some(at) => line.take(at),
        None => line,
    }
}

/// Whether a line holds no statement: it is empty, or it holds a comment
/// and nothing but white space before it.
pub open spec fn is_skipped(line: Seq<char>) -> bool {
    line.len() == 0 || after_tag(trimmed_start(line), "//"@) is Some
}

/// The number of the line behind line `number`.
pub open spec fn line_after(number: usize) -> usize {
    if number < usize::MAX {
        (number + 1) as usize
    } else {
        number
    }
}

/// The statements of the lines of a text from `from` on, behind those read
/// before, each with the number of its line. The line at `from` has the
/// number `number`.
#[verifier::rlimit(50)]
pub open spec fn statements_from(
    text: Seq<char>,
    from: int,
    number: usize,
    fname: Seq<char>,
    done: Seq<(usize, Written)>,
) -> Result<Seq<(usize, Written)>, Failure>
    decreases text.len() + 1 - from,
{
    if from < 0 || from >= text.len() {
        Ok(done)
    } else if is_skipped(line_at(text, from)) {
        proof {
            lemma_line_end(text, from);
        }
        statements_from(text, line_end(text, from) + 1, line_after(number), fname, done)
    } else {
        match statement_at(trimmed(before_comment(line_at(text, from))), fname, number) {
            Err(e) => Err(e),
            Ok(statement) => {
                proof {
                    lemma_line_end(text, from);
                }
                statements_from(
                    text,
                    line_end(text, from) + 1,
                    line_after(number),
                    fname,
                    done.push((number, statement)),
                )
            },
        }
    }
}

/// The statements of a text, each with the number of its line, the first
/// line being line 1. A line holds one statement; a comment begins with two
/// slashes and ends with its line.
pub open spec fn statements_of(text: Seq<char>, fname: Seq<char>) -> Result<
    Seq<(usize, Written)>,
    Failure,
> {
    statements_from(text, 0, 1, fname, Seq::empty())
}

/// A text without the white space at its front.
pub fn trim_start(text: &str) -> (out: String)
    ensures
        out@ == trimmed_start(text@),
{
    let chars = to_chars(text);
    let len = chars.len();
    let mut front: usize = 0;
    while front < len && is_whitespace(chars[front])
        invariant
            front <= len,
            len == chars.len(),
            white_before(chars@, 0, len as int) == front + white_before(
                chars@,
                front as int,
                len as int,
            ),
        decreases len - front,
    {
        front += 1;
    }
    text_of(&chars, front, len)
}

/// A line without its comment.
#[verifier::rlimit(50)]
pub fn cut_comment(line: &str) -> (out: String)
    ensures
        out@ == before_comment(line@),
{
    let chars = to_chars(line);
    let len = chars.len();
    let mut at: usize = 0;
    while at < len && len - at >= 2
        invariant
            at <= len,
            len == chars.len(),
            chars@ == line@,
            comment_at(chars@, 0) == comment_at(chars@, at as int),
        decreases len - at,
    {
        if chars[at] == '/' && chars[at + 1] == '/' {
            return text_of(&chars, 0, at);
        }
        at += 1;
    }
    assert(chars@.subrange(0, len as int) =~= chars@);
    text_of(&chars, 0, len)
}

/// Reads the statements of a text, each with the number of its line.
#[verifier::loop_isolation(false)]
#[verifier::rlimit(50)]
pub fn parse_from_text(fname: &str, text: &str) -> (statements: Result<
    Vec<(usize, Statement)>,
    Error,
>)
    ensures
        match statements {
            Ok(statements) => statements_of(text@, fname@) == Ok::<
                Seq<(usize, Written)>,
                Failure,
            >(super::lines_view(statements@)),
            Err(e) => statements_of(text@, fname@) == Err::<Seq<(usize, Written)>, Failure>(e@),
        },
{
    let chars = to_chars(text);
    let len = chars.len();
    let mut statements: Vec<(usize, Statement)> = Vec::new();
    let mut from: usize = 0;
    let mut i: usize = 0;
    assert(super::lines_view(statements@) =~= Seq::empty());
    while from < len
        invariant
            from <= len,
            i <= from,
            len == chars.len(),
            chars@ == text@,
            statements_of(text@, fname@) == statements_from(
                text@,
                from as int,
                (i + 1) as usize,
                fname@,
                super::lines_view(statements@),
            ),
        decreases len - from,
    {
        let ghost done = super::lines_view(statements@);
        let mut end: usize = from;
        while end < len && chars[end] != '\n'
            invariant
                from <= end <= len,
                line_end(text@, from as int) == line_end(text@, end as int),
            decreases len - end,
        {
            end += 1;
        }
        let stop = if from < end && end < len && chars[end - 1] == '\r' {
            end - 1
        } else {
            end
        };
        assert(line_end(text@, from as int) == end);
        let line = text_of(&chars, from, stop);
        assert(line@ == line_at(text@, from as int));
        let skipped = if eof(line.as_str()) {
            true
        } else {
            let front = trim_start(line.as_str());
            tag(front.as_str(), "//").is_some()
        };
        assert(skipped == is_skipped(line@));
        if !skipped {
            let code = cut_comment(line.as_str());
            let code = trim(code.as_str());
            let statement = match read_statement(code.as_str(), fname, i + 1) {
                Ok(statement) => statement,
                Err(e) => {
                    return Err(e);
                },
            };
            let ghost read = statement.deep_view();
            statements.push((i + 1, statement));
            assert(super::lines_view(statements@) =~= done.push(((i + 1) as usize, read)));
        }
        let ghost next = line_end(text@, from as int) + 1;
        let ghost number = line_after((i + 1) as usize);
        let ghost now = super::lines_view(statements@);
        assert(statements_of(text@, fname@) == statements_from(text@, next, number, fname@, now));
        from = if end < len {
            end + 1
        } else {
            len
        };
        i += 1;
        proof {
            if from >= len {
                assert(statements_from(text@, next, number, fname@, now) == Ok::<
                    Seq<(usize, Written)>,
                    Failure,
                >(now));
                assert(statements_from(text@, from as int, (i + 1) as usize, fname@, now) == Ok::<
                    Seq<(usize, Written)>,
                    Failure,
                >(now));
            }
        }
    }
    Ok(statements)
}

} // verus!
