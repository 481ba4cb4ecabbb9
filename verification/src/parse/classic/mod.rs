//! Tickflow (.tickflow / .tkm) language support
//!
//! How to use:
//! 1. Run [`parsing::parse_from_text`] on the text of a source file.
//! 2. Run the statements that it gives, which are what the file holds as it
//!    stands, through [`Context::parse_file`], together with the files that
//!    [`included_files`] says the statements include.
//! 3. The statements of the [`Context`] are ready to be compiled.
use crate::endian::u32_as_signed;
use crate::parse::better_nom_regex::{re_is_match, regex_is_match};
use crate::parse::error::{Error, Failure, Fault, OldTfError};
use vstd::prelude::*;
use vstd::std_specs::convert::FromSpecImpl;

/// Parsers for Tickflow syntax
pub mod parsing;
pub mod printing;

verus! {

/// What a source file comes to: where it is to be loaded, where it starts,
/// and its statements with every constant resolved.
#[derive(Debug, Clone)]
pub struct Context {
    pub index: i32,
    pub start: [Option<i32>; 2],
    pub parsed_cmds: Vec<ParsedStatement>,
}

/// A name: a letter, an underscore or a dollar sign, followed by any
/// number of those and of digits.
#[derive(Debug, Clone, PartialEq, Eq, Hash)]
pub struct Identifier(pub String);

impl View for Identifier {
    type V = Seq<char>;

    open spec fn view(&self) -> Seq<char> {
        self.0@
    }
}

impl std::ops::Deref for Identifier {
    type Target = String;

    fn deref(&self) -> (text: &String)
        ensures
            text@ == self@,
    {
        &self.0
    }
}

/// A value as it is written.
#[derive(Debug)]
pub enum Value {
    Operation { op: Operation, left: Box<Value>, right: Box<Value> },
    Negated(Box<Value>),
    Constant(Identifier),
    Integer(i32),
    String { value: String, is_unicode: bool },
}

/// What a [`Value`] holds.
pub ghost enum Expr {
    Operation { op: Operation, left: Box<Expr>, right: Box<Expr> },
    Negated(Box<Expr>),
    Constant(Seq<char>),
    Integer(i32),
    String { value: Seq<char>, is_unicode: bool },
}

impl Value {
    /// What the value holds.
    pub open spec fn expr(self) -> Expr
        decreases self,
    {
        match self {
            Value::Operation { op, left, right } => Expr::Operation {
                op,
                left: Box::new((*left).expr()),
                right: Box::new((*right).expr()),
            },
            Value::Negated(inner) => Expr::Negated(Box::new((*inner).expr())),
            Value::Constant(name) => Expr::Constant(name@),
            Value::Integer(number) => Expr::Integer(number),
            Value::String { value, is_unicode } => Expr::String { value: value@, is_unicode },
        }
    }
}

impl View for Value {
    type V = Expr;

    open spec fn view(&self) -> Expr {
        self.expr()
    }
}

/// A value with every constant resolved.
#[derive(Debug, Clone)]
pub enum ParsedValue {
    Integer(i32),
    String { value: String, is_unicode: bool },
    Label(String),
}

/// What a [`ParsedValue`] holds.
pub ghost enum Resolved {
    Integer(i32),
    String { value: Seq<char>, is_unicode: bool },
    Label(Seq<char>),
}

impl View for ParsedValue {
    type V = Resolved;

    open spec fn view(&self) -> Resolved {
        match self {
            ParsedValue::Integer(number) => Resolved::Integer(*number),
            ParsedValue::String { value, is_unicode } => Resolved::String {
                value: value@,
                is_unicode: *is_unicode,
            },
            ParsedValue::Label(name) => Resolved::Label(name@),
        }
    }
}

#[derive(Debug, Clone, PartialEq, Eq, Copy, Structural)]
pub enum Operation {
    Add,
    Sub,
    Mul,
    Div,
    Shl,
    Shr,
    And,
    Or,
    Xor,
}

#[derive(Debug)]
pub enum Statement {
    Directive { name: Identifier, args: Vec<Value> },
    Constant { name: Identifier, value: Value },
    Label(Identifier),
    Command { cmd: CommandName, arg0: Option<Value>, args: Vec<Value> },
}

#[derive(Debug, Clone)]
pub enum ParsedStatement {
    Label(String),
    Command { cmd: CommandName, arg0: Option<u32>, args: Vec<ParsedValue> },
}

#[derive(Debug, Clone)]
pub enum CommandName {
    Raw(i32),
    Named(Identifier),
}

/// The regular expression that a name begins with a match of.
pub open spec fn identifier_pattern() -> Seq<char> {
    "^[A-Za-z_$][A-Za-z0-9_$]*"@
}

impl Identifier {
    /// Makes a name of `contents`, given what the search for the pattern of
    /// names in it came to: a text in which the pattern is not found is
    /// refused.
    pub fn checked(contents: &str, matched: Option<bool>, fname: &str, line_num: usize) -> (made:
        Result<Self, Error>)
        ensures
            match made {
                Ok(name) => matched == Some(true) && name@ == contents@,
                Err(e) => matched != Some(true) && e@ == (Failure::OldTfError {
                    fname: fname@,
                    line: line_num,
                    error: Fault::InvalidIdentifier(contents@),
                }),
            },
    {
        match matched {
            Some(true) => Ok(Self(contents.to_owned())),
            _ => Err(OldTfError::InvalidIdentifier(contents.to_owned()).with_ctx(fname, line_num)),
        }
    }

    /// Makes a name of `contents`, which must begin as a name does.
    pub fn new(contents: &str, fname: &str, line_num: usize) -> (made: Result<Self, Error>)
        ensures
            match made {
                Ok(name) => regex_is_match(identifier_pattern(), contents@) == Some(true) && name@
                    == contents@,
                Err(e) => regex_is_match(identifier_pattern(), contents@) != Some(true) && e@ == (
                Failure::OldTfError {
                    fname: fname@,
                    line: line_num,
                    error: Fault::InvalidIdentifier(contents@),
                }),
            },
    {
        let matched = re_is_match("^[A-Za-z_$][A-Za-z0-9_$]*", contents);
        Self::checked(contents, matched, fname, line_num)
    }

    /// Makes a name of `contents` without looking at it.
    pub fn new_unchecked(contents: &str) -> (name: Self)
        ensures
            name@ == contents@,
    {
        Self(contents.to_owned())
    }

    /// The name as text.
    pub fn as_str(&self) -> (text: &str)
        ensures
            text@ == self@,
    {
        self.0.as_str()
    }
}

impl Value {
    pub fn unwrap_constant(&self) -> (name: &Identifier)
        requires
            self is Constant,
        ensures
            *name == self->Constant_0,
    {
        match self {
            Self::Constant(c) => c,
            _ => unreached(),
        }
    }

    pub fn unwrap_int(&self) -> (number: &i32)
        requires
            self is Integer,
        ensures
            *number == self->Integer_0,
    {
        match self {
            Self::Integer(c) => c,
            _ => unreached(),
        }
    }

    pub fn unwrap_string(&self) -> (text: (&String, bool))
        requires
            self is String,
        ensures
            *text.0 == self->value,
            text.1 == self->is_unicode,
    {
        match self {
            Self::String { value, is_unicode } => (value, *is_unicode),
            _ => unreached(),
        }
    }
}

impl Operation {
    /// Whether the operation has a result on two numbers: the sum, the
    /// difference, the product or the quotient is one that 32 bits hold, the
    /// divisor is not zero, and a shift moves by less than 32 bits.
    pub open spec fn defined(self, val1: i32, val2: i32) -> bool {
        match self {
            Operation::Add => i32::MIN <= val1 + val2 <= i32::MAX,
            Operation::Sub => i32::MIN <= val1 - val2 <= i32::MAX,
            Operation::Mul => i32::MIN <= val1 * val2 <= i32::MAX,
            Operation::Div => val2 != 0 && !(val1 == i32::MIN && val2 == -1),
            Operation::Shl => 0 <= val2 < 32,
            Operation::Shr => 0 <= val2 < 32,
            Operation::And => true,
            Operation::Or => true,
            Operation::Xor => true,
        }
    }

    /// The quotient of two numbers, rounded towards zero.
    pub open spec fn quotient(val1: int, val2: int) -> int {
        if val1 >= 0 {
            val1 / val2
        } else {
            -((-val1) / val2)
        }
    }

    /// A quotient is no larger than the dividend, sign apart.
    pub proof fn lemma_quotient_bounds(val1: int, val2: int)
        requires
            val2 != 0,
        ensures
            val1 >= 0 ==> -val1 <= Self::quotient(val1, val2) <= val1,
            val1 < 0 ==> val1 <= Self::quotient(val1, val2) <= -val1,
            val1 < 0 && val2 != -1 ==> Self::quotient(val1, val2) < -val1,
    {
        let x = if val1 >= 0 {
            val1
        } else {
            -val1
        };
        assert(-x <= x / val2 <= x) by (nonlinear_arith)
            requires
                x >= 0,
                val2 != 0,
        ;
        assert(val2 != -1 && x > 0 ==> -x < x / val2) by (nonlinear_arith)
            requires
                x >= 0,
                val2 != 0,
        ;
    }

    /// The result of the operation on two numbers.
    pub open spec fn applied(self, val1: i32, val2: i32) -> int {
        match self {
            Operation::Add => val1 + val2,
            Operation::Sub => val1 - val2,
            Operation::Mul => val1 * val2,
            Operation::Div => Self::quotient(val1 as int, val2 as int),
            Operation::Shl => (val1 << val2) as int,
            Operation::Shr => (val1 >> val2) as int,
            Operation::And => (val1 & val2) as int,
            Operation::Or => (val1 | val2) as int,
            Operation::Xor => (val1 ^ val2) as int,
        }
    }

    /// The result of the operation on two numbers, where it has one.
    pub fn apply(self, val1: i32, val2: i32) -> (result: i32)
        requires
            self.defined(val1, val2),
        ensures
            result == self.applied(val1, val2),
    {
        match self {
            Operation::Add => val1 + val2,
            Operation::Sub => val1 - val2,
            Operation::Mul => val1 * val2,
            Operation::Div => {
                proof {
                    Self::lemma_quotient_bounds(val1 as int, val2 as int);
                }
                val1 / val2
            },
            Operation::Shl => val1 << val2,
            Operation::Shr => val1 >> val2,
            Operation::And => val1 & val2,
            Operation::Or => val1 | val2,
            Operation::Xor => val1 ^ val2,
        }
    }

    /// The result of the operation on two numbers, or nothing where it has
    /// none.
    pub fn checked_apply(self, val1: i32, val2: i32) -> (result: Option<i32>)
        ensures
            match result {
                Some(value) => self.defined(val1, val2) && value == self.applied(val1, val2),
                None => !self.defined(val1, val2),
            },
    {
        let defined = match self {
            Operation::Add => val1.checked_add(val2).is_some(),
            Operation::Sub => val1.checked_sub(val2).is_some(),
            Operation::Mul => val1.checked_mul(val2).is_some(),
            Operation::Div => val2 != 0 && !(val1 == i32::MIN && val2 == -1),
            Operation::Shl => 0 <= val2 && val2 < 32,
            Operation::Shr => 0 <= val2 && val2 < 32,
            Operation::And => true,
            Operation::Or => true,
            Operation::Xor => true,
        };
        if defined {
            Some(self.apply(val1, val2))
        } else {
            None
        }
    }
}

impl ParsedValue {
    /// A copy of the value.
    pub fn duplicate(&self) -> (copy: ParsedValue)
        ensures
            copy@ == self@,
    {
        match self {
            ParsedValue::Integer(c) => ParsedValue::Integer(*c),
            ParsedValue::String { value, is_unicode } => ParsedValue::String {
                value: value.clone(),
                is_unicode: *is_unicode,
            },
            ParsedValue::Label(c) => ParsedValue::Label(c.clone()),
        }
    }
}

/// The names and values of a list of constants.
pub open spec fn constants_view(constants: Seq<(Identifier, ParsedValue)>) -> Seq<
    (Seq<char>, Resolved),
> {
    Seq::new(constants.len(), |i: int| (constants[i].0@, constants[i].1@))
}

/// The value of the constant `name` among the first `upto` constants of a
/// list: that of the last of them with this name.
pub open spec fn constant_value(
    constants: Seq<(Seq<char>, Resolved)>,
    name: Seq<char>,
    upto: int,
) -> Option<Resolved>
    decreases upto,
{
    if upto <= 0 || upto > constants.len() {
        None
    } else if constants[upto - 1].0 == name {
        Some(constants[upto - 1].1)
    } else {
        constant_value(constants, name, upto - 1)
    }
}

/// What a value comes to once its constants are resolved and its
/// operations carried out. A name that is no constant is a label.
/// Operations apply to numbers only, and their results must be numbers that
/// 32 bits hold.
#[verifier::rlimit(50)]
pub open spec fn resolved_value(constants: Seq<(Seq<char>, Resolved)>, value: Expr) -> Result<
    Resolved,
    Fault,
>
    decreases value,
{
    match value {
        Expr::Operation { op, left, right } => match resolved_value(constants, *left) {
            Err(e) => Err(e),
            Ok(first) => match resolved_value(constants, *right) {
                Err(e) => Err(e),
                Ok(second) => match (first, second) {
                    (Resolved::Integer(val1), Resolved::Integer(val2)) => if op.defined(
                        val1,
                        val2,
                    ) {
                        Ok(Resolved::Integer(op.applied(val1, val2) as i32))
                    } else {
                        Err(Fault::IntOutOfRange)
                    },
                    _ => Err(Fault::InvalidOpType),
                },
            },
        },
        Expr::Negated(inner) => match resolved_value(constants, *inner) {
            Err(e) => Err(e),
            Ok(Resolved::Integer(c)) => if c == i32::MIN {
                Err(Fault::IntOutOfRange)
            } else {
                Ok(Resolved::Integer((-c) as i32))
            },
            Ok(_) => Err(Fault::InvalidOpType),
        },
        Expr::Constant(name) => match constant_value(constants, name, constants.len() as int) {
            Some(known) => Ok(known),
            None => Ok(Resolved::Label(name)),
        },
        Expr::Integer(c) => Ok(Resolved::Integer(c)),
        Expr::String { value, is_unicode } => Ok(Resolved::String { value, is_unicode }),
    }
}

/// Looks a constant up: the last of the list with this name counts.
#[verifier::rlimit(50)]
pub fn find_constant<'a>(constants: &'a Vec<(Identifier, ParsedValue)>, name: &Identifier) -> (found:
    Option<&'a ParsedValue>)
    ensures
        match found {
            Some(value) => constant_value(
                constants_view(constants@),
                name@,
                constants.len() as int,
            ) == Some(value@),
            None => constant_value(constants_view(constants@), name@, constants.len() as int)
                is None,
        },
{
    let ghost all = constants_view(constants@);
    let mut i: usize = constants.len();
    while i > 0
        invariant
            i <= constants.len(),
            all == constants_view(constants@),
            constant_value(all, name@, constants.len() as int) == constant_value(
                all,
                name@,
                i as int,
            ),
        decreases i,
    {
        i -= 1;
        if constants[i].0.0 == name.0 {
            return Some(&constants[i].1);
        }
    }
    None
}

impl Context {
    /// Resolves the constants of a value and carries out its operations.
    #[verifier::rlimit(50)]
    pub fn parse_value(
        constants: &Vec<(Identifier, ParsedValue)>,
        value: Value,
        fname: &str,
        line_num: usize,
    ) -> (parsed: Result<ParsedValue, Error>)
        ensures
            match parsed {
                Ok(done) => resolved_value(constants_view(constants@), value@) == Ok::<
                    Resolved,
                    Fault,
                >(done@),
                Err(e) => resolved_value(constants_view(constants@), value@) matches Err(fault)
                    && e@ == (Failure::OldTfError { fname: fname@, line: line_num, error: fault }),
            },
        decreases value,
    {
        // labels are their own kind of value, so operations don't apply to them
        match value {
            Value::Operation { op, left, right } => {
                let val1 = Self::parse_value(constants, *left, fname, line_num);
                let val2 = Self::parse_value(constants, *right, fname, line_num);
                let val1 = match val1 {
                    Ok(c) => c,
                    Err(e) => {
                        return Err(e);
                    },
                };
                let val2 = match val2 {
                    Ok(c) => c,
                    Err(e) => {
                        return Err(e);
                    },
                };
                match (val1, val2) {
                    (ParsedValue::Integer(val1), ParsedValue::Integer(val2)) => {
                        match op.checked_apply(val1, val2) {
                            Some(result) => Ok(ParsedValue::Integer(result)),
                            None => Err(OldTfError::IntOutOfRange.with_ctx(fname, line_num)),
                        }
                    },
                    _ => Err(OldTfError::InvalidOpType.with_ctx(fname, line_num)),
                }
            },
            Value::Negated(c) => match Self::parse_value(constants, *c, fname, line_num) {
                Ok(ParsedValue::Integer(c)) => {
                    if c == i32::MIN {
                        Err(OldTfError::IntOutOfRange.with_ctx(fname, line_num))
                    } else {
                        Ok(ParsedValue::Integer(-c))
                    }
                },
                Ok(_) => Err(OldTfError::InvalidOpType.with_ctx(fname, line_num)),
                Err(e) => Err(e),
            },
            Value::Constant(c) => match find_constant(constants, &c) {
                Some(known) => Ok(known.duplicate()),
                None => Ok(ParsedValue::Label(c.0)),
            },
            Value::Integer(c) => Ok(ParsedValue::Integer(c)),
            Value::String { value, is_unicode } => Ok(ParsedValue::String { value, is_unicode }),
        }
    }
}

impl DeepView for Value {
    type V = Expr;

    open spec fn deep_view(&self) -> Expr {
        self.expr()
    }
}

impl DeepView for ParsedValue {
    type V = Resolved;

    open spec fn deep_view(&self) -> Resolved {
        self@
    }
}

/// What a [`CommandName`] holds.
pub ghost enum Command {
    Raw(i32),
    Named(Seq<char>),
}

impl View for CommandName {
    type V = Command;

    open spec fn view(&self) -> Command {
        match self {
            CommandName::Raw(number) => Command::Raw(*number),
            CommandName::Named(name) => Command::Named(name@),
        }
    }
}

/// What a [`Statement`] holds.
pub ghost enum Written {
    Directive { name: Seq<char>, args: Seq<Expr> },
    Constant { name: Seq<char>, value: Expr },
    Label(Seq<char>),
    Command { cmd: Command, arg0: Option<Expr>, args: Seq<Expr> },
}

impl DeepView for Statement {
    type V = Written;

    open spec fn deep_view(&self) -> Written {
        match self {
            Statement::Directive { name, args } => Written::Directive {
                name: name@,
                args: args.deep_view(),
            },
            Statement::Constant { name, value } => Written::Constant {
                name: name@,
                value: value@,
            },
            Statement::Label(name) => Written::Label(name@),
            Statement::Command { cmd, arg0, args } => Written::Command {
                cmd: cmd@,
                arg0: match arg0 {
                    Some(value) => Some(value@),
                    None => None,
                },
                args: args.deep_view(),
            },
        }
    }
}

/// What a [`ParsedStatement`] holds.
pub ghost enum Instruction {
    Label(Seq<char>),
    Command { cmd: Command, arg0: Option<u32>, args: Seq<Resolved> },
}

impl DeepView for ParsedStatement {
    type V = Instruction;

    open spec fn deep_view(&self) -> Instruction {
        match self {
            ParsedStatement::Label(name) => Instruction::Label(name@),
            ParsedStatement::Command { cmd, arg0, args } => Instruction::Command {
                cmd: cmd@,
                arg0: *arg0,
                args: args.deep_view(),
            },
        }
    }
}

/// What a [`Context`] holds.
pub ghost struct Program {
    pub index: i32,
    pub start: Option<i32>,
    pub assets: Option<i32>,
    pub parsed_cmds: Seq<Instruction>,
}

impl DeepView for Context {
    type V = Program;

    open spec fn deep_view(&self) -> Program {
        Program {
            index: self.index,
            start: self.start@[0],
            assets: self.start@[1],
            parsed_cmds: self.parsed_cmds.deep_view(),
        }
    }
}

/// The lines and statements of a list.
pub open spec fn lines_view(statements: Seq<(usize, Statement)>) -> Seq<(usize, Written)> {
    Seq::new(statements.len(), |i: int| (statements[i].0, statements[i].1.deep_view()))
}

/// A list with its items in the opposite order.
#[verifier::rlimit(50)]
pub fn reversed<T>(items: Vec<T>) -> (turned: Vec<T>)
    ensures
        turned@ == items@.reverse(),
{
    let mut items = items;
    let ghost all = items@;
    let mut turned: Vec<T> = Vec::new();
    while items.len() > 0
        invariant
            items@ == all.take(items.len() as int),
            turned@.len() + items.len() == all.len(),
            forall|i: int| 0 <= i < turned@.len() ==> turned@[i] == all[all.len() - 1 - i],
        decreases items.len(),
    {
        match items.pop() {
            Some(item) => {
                assert(item == all[items.len() as int]);
                turned.push(item);
                assert(items@ =~= all.take(items.len() as int));
            },
            None => {},
        }
    }
    assert(turned@ =~= all.reverse());
    turned
}

/// A file that a source file includes, as far as it could be read.
#[derive(Debug)]
pub struct IncludedFile {
    /// The name that the file is included by.
    pub name: String,
    /// The statements of the file, or why there are none.
    pub statements: Result<Vec<(usize, Statement)>, Error>,
}

/// What an [`IncludedFile`] holds.
pub ghost struct Included {
    pub name: Seq<char>,
    pub statements: Result<Seq<(usize, Written)>, Failure>,
}

impl DeepView for IncludedFile {
    type V = Included;

    open spec fn deep_view(&self) -> Included {
        Included {
            name: self.name@,
            statements: match self.statements {
                Ok(statements) => Ok(lines_view(statements@)),
                Err(e) => Err(e@),
            },
        }
    }
}

/// What the directives of a file come to, and the statements that are left
/// when they are taken out.
pub struct DirectiveResult {
    pub statements: Vec<(usize, Statement)>,
    pub index: Option<i32>,
    pub start: Option<i32>,
    pub assets: Option<i32>,
    pub aliases: Vec<(Identifier, i32)>,
}

/// What a [`DirectiveResult`] holds, and the number of included files that
/// were used up.
pub ghost struct Directives {
    pub statements: Seq<(usize, Written)>,
    pub index: Option<i32>,
    pub start: Option<i32>,
    pub assets: Option<i32>,
    pub aliases: Seq<(Seq<char>, i32)>,
    pub used: int,
}

/// The names and numbers of a list of aliases.
pub open spec fn aliases_view(aliases: Seq<(Identifier, i32)>) -> Seq<(Seq<char>, i32)> {
    Seq::new(aliases.len(), |i: int| (aliases[i].0@, aliases[i].1))
}

impl DirectiveResult {
    /// What the result holds, where `used` included files were used up.
    pub open spec fn directives(&self, used: int) -> Directives {
        Directives {
            statements: lines_view(self.statements@),
            index: self.index,
            start: self.start,
            assets: self.assets,
            aliases: aliases_view(self.aliases@),
            used,
        }
    }
}

/// No directive met, no statement kept.
pub open spec fn no_directives() -> Directives {
    Directives {
        statements: Seq::empty(),
        index: None,
        start: None,
        assets: None,
        aliases: Seq::empty(),
        used: 0,
    }
}

/// The fault with the file and the line that it came up at.
pub open spec fn failure_at(fault: Fault, fname: Seq<char>, line: usize) -> Failure {
    Failure::OldTfError { fname, line, error: fault }
}

/// The number that a directive gives, if its first argument is one.
pub open spec fn directive_number(args: Seq<Expr>) -> Option<i32> {
    if args.len() >= 1 && args[0] is Integer {
        Some(args[0]->Integer_0)
    } else {
        None
    }
}

/// What the directives of the statements from `from` on add to what came
/// before. A directive sets the index, the start or the assets, names an
/// alias, or includes a file; every other statement is kept. An included
/// file gives its aliases and the statements that it keeps; it may neither
/// include a file nor set the index, the start or the assets. The included
/// files are taken in the order in which they are asked for.
#[verifier::rlimit(50)]
pub open spec fn preprocessed(
    statements: Seq<(usize, Written)>,
    from: int,
    includes: Seq<Included>,
    is_included_file: bool,
    fname: Seq<char>,
    acc: Directives,
) -> Result<Directives, Failure>
    decreases
            (if is_included_file {
                0nat
            } else {
                1nat
            }),
            statements.len() - from,
{
    if from < 0 || from >= statements.len() {
        Ok(acc)
    } else {
        let (line, statement) = statements[from];
        match statement {
            Written::Directive { name, args } => {
                if name == "index"@ {
                    match directive_number(args) {
                        Some(number) => preprocessed(
                            statements,
                            from + 1,
                            includes,
                            is_included_file,
                            fname,
                            Directives { index: Some(number), ..acc },
                        ),
                        None => Err(failure_at(Fault::SyntaxError, fname, line)),
                    }
                } else if name == "start"@ {
                    match directive_number(args) {
                        Some(number) => preprocessed(
                            statements,
                            from + 1,
                            includes,
                            is_included_file,
                            fname,
                            Directives { start: Some(number), ..acc },
                        ),
                        None => Err(failure_at(Fault::SyntaxError, fname, line)),
                    }
                } else if name == "assets"@ {
                    match directive_number(args) {
                        Some(number) => preprocessed(
                            statements,
                            from + 1,
                            includes,
                            is_included_file,
                            fname,
                            Directives { assets: Some(number), ..acc },
                        ),
                        None => Err(failure_at(Fault::SyntaxError, fname, line)),
                    }
                } else if name == "alias"@ {
                    if args.len() >= 2 && args[0] is Constant && args[1] is Integer {
                        preprocessed(
                            statements,
                            from + 1,
                            includes,
                            is_included_file,
                            fname,
                            Directives {
                                aliases: acc.aliases.push(
                                    (args[0]->Constant_0, args[1]->Integer_0),
                                ),
                                ..acc
                            },
                        )
                    } else {
                        Err(failure_at(Fault::SyntaxError, fname, line))
                    }
                } else if name == "include"@ {
                    if is_included_file {
                        Err(failure_at(Fault::IncludedDirective, fname, 1))
                    } else if !(args.len() >= 1 && args[0] is String) {
                        Err(failure_at(Fault::SyntaxError, fname, line))
                    } else {
                        let wanted = args[0]->value;
                        if acc.used < 0 || acc.used >= includes.len() || includes[acc.used].name
                            != wanted {
                            Err(Failure::IoError(wanted))
                        } else {
                            match includes[acc.used].statements {
                                Err(e) => Err(e),
                                Ok(taken) => match preprocessed(
                                    taken,
                                    0,
                                    includes,
                                    true,
                                    wanted,
                                    no_directives(),
                                ) {
                                    Err(e) => Err(e),
                                    Ok(inner) => if inner.index is Some || inner.start is Some
                                        || inner.assets is Some {
                                        Err(failure_at(Fault::IncludedDirective, wanted, 1))
                                    } else {
                                        preprocessed(
                                            statements,
                                            from + 1,
                                            includes,
                                            is_included_file,
                                            fname,
                                            Directives {
                                                statements: acc.statements + inner.statements,
                                                aliases: acc.aliases + inner.aliases,
                                                used: acc.used + 1,
                                                ..acc
                                            },
                                        )
                                    },
                                },
                            }
                        }
                    }
                } else {
                    Err(failure_at(Fault::InvalidDirective(name), fname, line))
                }
            },
            _ => preprocessed(
                statements,
                from + 1,
                includes,
                is_included_file,
                fname,
                Directives { statements: acc.statements.push((line, statement)), ..acc },
            ),
        }
    }
}

/// In an included file the list of included files plays no part.
#[verifier::rlimit(50)]
pub proof fn lemma_included_ignores_includes(
    statements: Seq<(usize, Written)>,
    from: int,
    includes: Seq<Included>,
    others: Seq<Included>,
    fname: Seq<char>,
    acc: Directives,
)
    ensures
        preprocessed(statements, from, includes, true, fname, acc) == preprocessed(
            statements,
            from,
            others,
            true,
            fname,
            acc,
        ),
    decreases statements.len() - from,
{
    if 0 <= from < statements.len() {
        let (line, statement) = statements[from];
        match statement {
            Written::Directive { name, args } => {
                if name == "index"@ {
                    if let Some(number) = directive_number(args) {
                        lemma_included_ignores_includes(
                            statements,
                            from + 1,
                            includes,
                            others,
                            fname,
                            Directives { index: Some(number), ..acc },
                        );
                    }
                } else if name == "start"@ {
                    if let Some(number) = directive_number(args) {
                        lemma_included_ignores_includes(
                            statements,
                            from + 1,
                            includes,
                            others,
                            fname,
                            Directives { start: Some(number), ..acc },
                        );
                    }
                } else if name == "assets"@ {
                    if let Some(number) = directive_number(args) {
                        lemma_included_ignores_includes(
                            statements,
                            from + 1,
                            includes,
                            others,
                            fname,
                            Directives { assets: Some(number), ..acc },
                        );
                    }
                } else if name == "alias"@ {
                    if args.len() >= 2 && args[0] is Constant && args[1] is Integer {
                        lemma_included_ignores_includes(
                            statements,
                            from + 1,
                            includes,
                            others,
                            fname,
                            Directives {
                                aliases: acc.aliases.push(
                                    (args[0]->Constant_0, args[1]->Integer_0),
                                ),
                                ..acc
                            },
                        );
                    }
                }
            },
            _ => {
                lemma_included_ignores_includes(
                    statements,
                    from + 1,
                    includes,
                    others,
                    fname,
                    Directives { statements: acc.statements.push((line, statement)), ..acc },
                );
            },
        }
    }
}

/// Whether a name is the given word.
fn is_word(name: &Identifier, word: &str) -> (yes: bool)
    ensures
        yes == (name@ == word@),
{
    let word = word.to_owned();
    name.0 == word
}

/// The number that a directive gives, if its first argument is one.
fn number_of(args: &Vec<Value>) -> (number: Option<i32>)
    ensures
        number == directive_number(args.deep_view()),
{
    if args.len() >= 1 {
        match &args[0] {
            Value::Integer(number) => Some(*number),
            _ => None,
        }
    } else {
        None
    }
}

impl Context {
    /// Takes the directives out of the statements of a file and carries
    /// them out. `includes` holds the files that the statements include, in
    /// the order in which they are included.
    #[verifier::loop_isolation(false)]
    #[verifier::rlimit(50)]
    pub fn preprocess_directives(
        statements: Vec<(usize, Statement)>,
        includes: Vec<IncludedFile>,
        is_included_file: bool,
        fname: &str,
    ) -> (done: Result<DirectiveResult, Error>)
        ensures
            match done {
                Ok(result) => preprocessed(
                    lines_view(statements@),
                    0,
                    includes.deep_view(),
                    is_included_file,
                    fname@,
                    no_directives(),
                ) matches Ok(directives) && directives == result.directives(directives.used),
                Err(e) => preprocessed(
                    lines_view(statements@),
                    0,
                    includes.deep_view(),
                    is_included_file,
                    fname@,
                    no_directives(),
                ) == Err::<Directives, Failure>(e@),
            },
        decreases
                (if is_included_file {
                    0nat
                } else {
                    1nat
                }),
    {
        let ghost all = lines_view(statements@);
        let ghost files = includes.deep_view();
        let ghost goal = preprocessed(all, 0, files, is_included_file, fname@, no_directives());
        let ghost count = statements@.len();
        let ghost file_count = includes@.len();
        let mut rest = reversed(statements);
        let mut files_left = reversed(includes);
        let mut result = DirectiveResult {
            statements: Vec::new(),
            index: None,
            start: None,
            assets: None,
            aliases: Vec::new(),
        };
        let ghost mut used: int = 0;
        assert(result.directives(0) =~= no_directives()) by {
            assert(lines_view(result.statements@) =~= Seq::empty());
            assert(aliases_view(result.aliases@) =~= Seq::empty());
        }
        while rest.len() > 0
            invariant
                rest@.len() <= count,
                all.len() == count,
                forall|j: int|
                    0 <= j < rest@.len() ==> (rest@[j].0, (#[trigger] rest@[j]).1.deep_view())
                        == all[count - 1 - j],
                0 <= used <= file_count,
                files.len() == file_count,
                files_left@.len() == file_count - used,
                forall|j: int|
                    0 <= j < files_left@.len() ==> (#[trigger] files_left@[j]).deep_view()
                        == files[file_count - 1 - j],
                goal == preprocessed(
                    all,
                    count - rest@.len(),
                    files,
                    is_included_file,
                    fname@,
                    result.directives(used),
                ),
            decreases rest.len(),
        {
            let ghost from = count - rest@.len();
            let ghost acc = result.directives(used);
            let (l, st) = match rest.pop() {
                Some(next) => next,
                None => {
                    return Ok(result);
                },
            };
            assert((l, st.deep_view()) == all[from]);
            match st {
                Statement::Directive { name, args } => {
                    if is_word(&name, "index") {
                        match number_of(&args) {
                            Some(number) => {
                                result.index = Some(number);
                            },
                            None => {
                                return Err(OldTfError::SyntaxError.with_ctx(fname, l));
                            },
                        }
                    } else if is_word(&name, "start") {
                        match number_of(&args) {
                            Some(number) => {
                                result.start = Some(number);
                            },
                            None => {
                                return Err(OldTfError::SyntaxError.with_ctx(fname, l));
                            },
                        }
                    } else if is_word(&name, "assets") {
                        match number_of(&args) {
                            Some(number) => {
                                result.assets = Some(number);
                            },
                            None => {
                                return Err(OldTfError::SyntaxError.with_ctx(fname, l));
                            },
                        }
                    } else if is_word(&name, "alias") {
                        let mut args = args;
                        if args.len() < 2 {
                            return Err(OldTfError::SyntaxError.with_ctx(fname, l));
                        }
                        let ghost given = args.deep_view();
                        let number = match &args[1] {
                            Value::Integer(number) => *number,
                            _ => {
                                return Err(OldTfError::SyntaxError.with_ctx(fname, l));
                            },
                        };
                        let alias = match args.swap_remove(0) {
                            Value::Constant(alias) => alias,
                            _ => {
                                return Err(OldTfError::SyntaxError.with_ctx(fname, l));
                            },
                        };
                        result.aliases.push((alias, number));
                        assert(aliases_view(result.aliases@) =~= acc.aliases.push(
                            (given[0]->Constant_0, given[1]->Integer_0),
                        ));
                    } else if is_word(&name, "include") {
                        if is_included_file {
                            return Err(OldTfError::IncludedDirective.with_ctx(fname, 1));
                        }
                        let mut args = args;
                        if args.len() < 1 {
                            return Err(OldTfError::SyntaxError.with_ctx(fname, l));
                        }
                        let wanted = match args.swap_remove(0) {
                            Value::String { value, is_unicode: _ } => value,
                            _ => {
                                return Err(OldTfError::SyntaxError.with_ctx(fname, l));
                            },
                        };
                        let file = match files_left.pop() {
                            Some(file) => file,
                            None => {
                                return Err(Error::IoError(wanted));
                            },
                        };
                        assert(file.deep_view() == files[used]);
                        if !(file.name == wanted) {
                            return Err(Error::IoError(wanted));
                        }
                        let included_file = match file.statements {
                            Ok(statements) => statements,
                            Err(e) => {
                                return Err(e);
                            },
                        };
                        proof {
                            lemma_included_ignores_includes(
                                lines_view(included_file@),
                                0,
                                files,
                                Seq::empty(),
                                wanted@,
                                no_directives(),
                            );
                        }
                        let no_files: Vec<IncludedFile> = Vec::new();
                        assert(no_files.deep_view() =~= Seq::<Included>::empty());
                        let inner = match Self::preprocess_directives(
                            included_file,
                            no_files,
                            true,
                            wanted.as_str(),
                        ) {
                            Ok(inner) => inner,
                            Err(e) => {
                                return Err(e);
                            },
                        };
                        if inner.index.is_some() || inner.start.is_some() || inner.assets.is_some() {
                            return Err(OldTfError::IncludedDirective.with_ctx(wanted.as_str(), 1));
                        }
                        let DirectiveResult {
                            statements: mut included_statements,
                            index: _,
                            start: _,
                            assets: _,
                            aliases: mut included_aliases,
                        } = inner;
                        let ghost kept = lines_view(included_statements@);
                        let ghost named = aliases_view(included_aliases@);
                        result.statements.append(&mut included_statements);
                        result.aliases.append(&mut included_aliases);
                        proof {
                            used = used + 1;
                            assert(lines_view(result.statements@) =~= acc.statements + kept);
                            assert(aliases_view(result.aliases@) =~= acc.aliases + named);
                        }
                    } else {
                        return Err(OldTfError::InvalidDirective(name).with_ctx(fname, l));
                    }
                },
                st => {
                    let ghost kept = st.deep_view();
                    result.statements.push((l, st));
                    assert(lines_view(result.statements@) =~= acc.statements.push((l, kept)));
                },
            }
        }
        Ok(result)
    }
}

/// The number that `name` is an alias of among the first `upto` aliases of
/// a list: that of the last of them with this name.
pub open spec fn alias_value(aliases: Seq<(Seq<char>, i32)>, name: Seq<char>, upto: int) -> Option<
    i32,
>
    decreases upto,
{
    if upto <= 0 || upto > aliases.len() {
        None
    } else if aliases[upto - 1].0 == name {
        Some(aliases[upto - 1].1)
    } else {
        alias_value(aliases, name, upto - 1)
    }
}

/// The name of a command with its alias resolved: a name that is an alias
/// becomes the number that it stands for.
pub open spec fn command_name(aliases: Seq<(Seq<char>, i32)>, cmd: Command) -> Command {
    match cmd {
        Command::Raw(_) => cmd,
        Command::Named(name) => match alias_value(aliases, name, aliases.len() as int) {
            Some(number) => Command::Raw(number),
            None => cmd,
        },
    }
}

/// The largest discriminator that a command can have: 18 bits.
pub const MAX_ARG0: i32 = 0x3FFFF;

/// The discriminator that a command is given: a number of 18 bits at most.
pub open spec fn arg0_value(constants: Seq<(Seq<char>, Resolved)>, arg0: Option<Expr>) -> Result<
    Option<u32>,
    Fault,
> {
    match arg0 {
        None => Ok(None),
        Some(value) => match resolved_value(constants, value) {
            Err(e) => Err(e),
            Ok(Resolved::Integer(c)) => if 0 <= c <= MAX_ARG0 {
                Ok(Some(c as u32))
            } else {
                Err(Fault::OOBArg0(c))
            },
            Ok(_) => Err(Fault::InvalidArg0Type),
        },
    }
}

/// The arguments from `from` on with their constants resolved, or what is
/// wrong with the first of them that cannot be resolved.
pub open spec fn resolved_args(
    constants: Seq<(Seq<char>, Resolved)>,
    args: Seq<Expr>,
    from: int,
) -> Result<Seq<Resolved>, Fault>
    decreases args.len() - from,
{
    if from < 0 || from >= args.len() {
        Ok(Seq::empty())
    } else {
        match resolved_value(constants, args[from]) {
            Err(e) => Err(e),
            Ok(first) => match resolved_args(constants, args, from + 1) {
                Err(e) => Err(e),
                Ok(rest) => Ok(seq![first] + rest),
            },
        }
    }
}

/// Values that were resolved, followed by those that are resolved after
/// them, if these can be resolved.
pub open spec fn after_resolved(done: Seq<Resolved>, rest: Result<Seq<Resolved>, Fault>) -> Result<
    Seq<Resolved>,
    Fault,
> {
    match rest {
        Ok(rest) => Ok(done + rest),
        Err(e) => Err(e),
    }
}

/// The constants that were defined and the statements that were resolved
/// so far.
pub ghost struct Reading {
    pub constants: Seq<(Seq<char>, Resolved)>,
    pub parsed: Seq<Instruction>,
}

/// What the statements from `from` on add to what was read before: a
/// constant is defined, with the value that it has where it stands; a label
/// is kept; a command is kept with its alias, its discriminator and its
/// arguments resolved.
#[verifier::rlimit(50)]
pub open spec fn read_statements(
    statements: Seq<(usize, Written)>,
    from: int,
    aliases: Seq<(Seq<char>, i32)>,
    fname: Seq<char>,
    acc: Reading,
) -> Result<Reading, Failure>
    decreases statements.len() - from,
{
    if from < 0 || from >= statements.len() {
        Ok(acc)
    } else {
        let (line, statement) = statements[from];
        match statement {
            Written::Constant { name, value } => match resolved_value(acc.constants, value) {
                Err(e) => Err(failure_at(e, fname, line)),
                Ok(known) => read_statements(
                    statements,
                    from + 1,
                    aliases,
                    fname,
                    Reading { constants: acc.constants.push((name, known)), ..acc },
                ),
            },
            Written::Label(name) => read_statements(
                statements,
                from + 1,
                aliases,
                fname,
                Reading { parsed: acc.parsed.push(Instruction::Label(name)), ..acc },
            ),
            Written::Command { cmd, arg0, args } => match arg0_value(acc.constants, arg0) {
                Err(e) => Err(failure_at(e, fname, line)),
                Ok(arg0) => match resolved_args(acc.constants, args, 0) {
                    Err(e) => Err(failure_at(e, fname, line)),
                    Ok(args) => read_statements(
                        statements,
                        from + 1,
                        aliases,
                        fname,
                        Reading {
                            parsed: acc.parsed.push(
                                Instruction::Command {
                                    cmd: command_name(aliases, cmd),
                                    arg0,
                                    args,
                                },
                            ),
                            ..acc
                        },
                    ),
                },
            },
            Written::Directive { name, args } => Err(
                failure_at(Fault::InvalidDirective(name), fname, line),
            ),
        }
    }
}

/// Whether a label with this name is among the statements.
pub open spec fn has_label(parsed: Seq<Instruction>, name: Seq<char>) -> bool {
    exists|i: int| 0 <= i < parsed.len() && #[trigger] parsed[i] == Instruction::Label(name)
}

/// What a source file comes to. Its directives are carried out first, the
/// files that it includes taken in. The index must be given. The start must
/// be given by a directive or by a label named "start"; the assets are
/// given by a directive or by a label named "assets", and are zero
/// otherwise.
pub open spec fn parsed_file(
    statements: Seq<(usize, Written)>,
    includes: Seq<Included>,
    fname: Seq<char>,
) -> Result<Program, Failure> {
    match preprocessed(statements, 0, includes, false, fname, no_directives()) {
        Err(e) => Err(e),
        Ok(directives) => match directives.index {
            None => Err(failure_at(Fault::MissingRequiredDirective("index"@), fname, 1)),
            Some(index) => match read_statements(
                directives.statements,
                0,
                directives.aliases,
                fname,
                Reading { constants: Seq::empty(), parsed: Seq::empty() },
            ) {
                Err(e) => Err(e),
                Ok(reading) => if directives.start is None && !has_label(
                    reading.parsed,
                    "start"@,
                ) {
                    Err(failure_at(Fault::MissingRequiredDirective("start"@), fname, 1))
                } else {
                    Ok(
                        Program {
                            index,
                            start: directives.start,
                            assets: if directives.assets is Some {
                                directives.assets
                            } else if has_label(reading.parsed, "assets"@) {
                                None
                            } else {
                                Some(0)
                            },
                            parsed_cmds: reading.parsed,
                        },
                    )
                },
            },
        },
    }
}

/// Looks an alias up: the last of the list with this name counts.
pub fn find_alias(aliases: &Vec<(Identifier, i32)>, name: &Identifier) -> (found: Option<i32>)
    ensures
        found == alias_value(aliases_view(aliases@), name@, aliases.len() as int),
{
    let ghost all = aliases_view(aliases@);
    let mut i: usize = aliases.len();
    while i > 0
        invariant
            i <= aliases.len(),
            all == aliases_view(aliases@),
            alias_value(all, name@, aliases.len() as int) == alias_value(all, name@, i as int),
        decreases i,
    {
        i -= 1;
        if aliases[i].0.0 == name.0 {
            return Some(aliases[i].1);
        }
    }
    None
}

/// Whether a label with this name is among the statements.
#[verifier::rlimit(50)]
pub fn find_label(parsed: &Vec<ParsedStatement>, name: &str) -> (found: bool)
    ensures
        found == has_label(parsed.deep_view(), name@),
{
    let word = name.to_owned();
    let mut i: usize = 0;
    while i < parsed.len()
        invariant
            i <= parsed.len(),
            word@ == name@,
            forall|k: int|
                0 <= k < i ==> (#[trigger] parsed.deep_view()[k]) != Instruction::Label(name@),
        decreases parsed.len() - i,
    {
        match &parsed[i] {
            ParsedStatement::Label(label) => {
                if *label == word {
                    assert(parsed.deep_view()[i as int] == Instruction::Label(name@));
                    return true;
                }
            },
            _ => {},
        }
        i += 1;
    }
    false
}

impl Context {
    /// Resolves the discriminator of a command.
    #[verifier::rlimit(50)]
    fn parse_arg0(
        constants: &Vec<(Identifier, ParsedValue)>,
        arg0: Option<Value>,
        fname: &str,
        line_num: usize,
    ) -> (parsed: Result<Option<u32>, Error>)
        ensures
            match parsed {
                Ok(done) => arg0_value(
                    constants_view(constants@),
                    match arg0 {
                        Some(value) => Some(value@),
                        None => None,
                    },
                ) == Ok::<Option<u32>, Fault>(done),
                Err(e) => arg0_value(
                    constants_view(constants@),
                    match arg0 {
                        Some(value) => Some(value@),
                        None => None,
                    },
                ) matches Err(fault) && e@ == failure_at(fault, fname@, line_num),
            },
    {
        match arg0 {
            Some(c) => {
                match Self::parse_value(constants, c, fname, line_num) {
                    Ok(ParsedValue::Integer(c)) => {
                        assert((c == c & 0x3FFFFi32) <==> (0 <= c <= 0x3FFFFi32)) by (bit_vector);
                        if c == c & MAX_ARG0 {
                            Ok(Some(c as u32))
                        } else {
                            Err(OldTfError::OOBArg0(c).with_ctx(fname, line_num))
                        }
                    },
                    Ok(_) => Err(OldTfError::InvalidArg0Type.with_ctx(fname, line_num)),
                    Err(e) => Err(e),
                }
            },
            None => Ok(None),
        }
    }

    /// Resolves the arguments of a command.
    #[verifier::loop_isolation(false)]
    #[verifier::rlimit(50)]
    fn parse_args(
        constants: &Vec<(Identifier, ParsedValue)>,
        args: Vec<Value>,
        fname: &str,
        line_num: usize,
    ) -> (parsed: Result<Vec<ParsedValue>, Error>)
        ensures
            match parsed {
                Ok(done) => resolved_args(constants_view(constants@), args.deep_view(), 0) == Ok::<
                    Seq<Resolved>,
                    Fault,
                >(done.deep_view()),
                Err(e) => resolved_args(constants_view(constants@), args.deep_view(), 0) matches Err(
                    fault,
                ) && e@ == failure_at(fault, fname@, line_num),
            },
    {
        let ghost all = args.deep_view();
        let ghost known = constants_view(constants@);
        let ghost count = args@.len();
        let mut rest = reversed(args);
        let mut parsed: Vec<ParsedValue> = Vec::new();
        assert(parsed.deep_view() =~= Seq::empty());
        while rest.len() > 0
            invariant
                rest@.len() <= count,
                all.len() == count,
                forall|j: int|
                    0 <= j < rest@.len() ==> (#[trigger] rest@[j]).deep_view() == all[count - 1
                        - j],
                resolved_args(known, all, 0) == after_resolved(
                    parsed.deep_view(),
                    resolved_args(known, all, count - rest@.len()),
                ),
            decreases rest.len(),
        {
            let ghost from = count - rest@.len();
            let ghost before = parsed.deep_view();
            let value = match rest.pop() {
                Some(value) => value,
                None => {
                    break ;
                },
            };
            assert(value.deep_view() == all[from]);
            let first = match Self::parse_value(constants, value, fname, line_num) {
                Ok(first) => first,
                Err(e) => {
                    return Err(e);
                },
            };
            let ghost one = first@;
            parsed.push(first);
            proof {
                assert(parsed.deep_view() =~= before.push(one));
                if let Ok(others) = resolved_args(known, all, from + 1) {
                    assert(before + (seq![one] + others) =~= before.push(one) + others);
                }
            }
        }
        assert(parsed.deep_view() + Seq::<Resolved>::empty() =~= parsed.deep_view());
        Ok(parsed)
    }

    /// Resolves a source file: carries out its directives, takes in the
    /// files that it includes, and resolves the constants and the aliases
    /// of its statements. `includes` holds the files that the statements
    /// include, in the order in which they are included.
    #[verifier::loop_isolation(false)]
    #[verifier::rlimit(50)]
    pub fn parse_file(
        statements: Vec<(usize, Statement)>,
        includes: Vec<IncludedFile>,
        fname: &str,
    ) -> (context: Result<Self, Error>)
        ensures
            match context {
                Ok(program) => parsed_file(lines_view(statements@), includes.deep_view(), fname@)
                    == Ok::<Program, Failure>(program.deep_view()),
                Err(e) => parsed_file(lines_view(statements@), includes.deep_view(), fname@)
                    == Err::<Program, Failure>(e@),
            },
    {
        let mut constants: Vec<(Identifier, ParsedValue)> = Vec::new();
        let DirectiveResult { statements: kept, index, start, assets, aliases } =
            match Self::preprocess_directives(statements, includes, false, fname) {
            Ok(result) => result,
            Err(e) => {
                return Err(e);
            },
        };
        let index = match index {
            Some(index) => index,
            None => {
                return Err(OldTfError::MissingRequiredDirective("index").with_ctx(fname, 1));
            },
        };
        let mut parsed_cmds: Vec<ParsedStatement> = Vec::new();
        let ghost all = lines_view(kept@);
        let ghost named = aliases_view(aliases@);
        let ghost count = kept@.len();
        let ghost goal = read_statements(
            all,
            0,
            named,
            fname@,
            Reading { constants: Seq::empty(), parsed: Seq::empty() },
        );
        let mut rest = reversed(kept);
        assert(constants_view(constants@) =~= Seq::empty());
        assert(parsed_cmds.deep_view() =~= Seq::empty());
        // read file
        while rest.len() > 0
            invariant
                rest@.len() <= count,
                all.len() == count,
                forall|j: int|
                    0 <= j < rest@.len() ==> (rest@[j].0, (#[trigger] rest@[j]).1.deep_view())
                        == all[count - 1 - j],
                goal == read_statements(
                    all,
                    count - rest@.len(),
                    named,
                    fname@,
                    Reading {
                        constants: constants_view(constants@),
                        parsed: parsed_cmds.deep_view(),
                    },
                ),
            decreases rest.len(),
        {
            let ghost from = count - rest@.len();
            let ghost known = constants_view(constants@);
            let ghost so_far = parsed_cmds.deep_view();
            let (l, st) = match rest.pop() {
                Some(next) => next,
                None => {
                    break ;
                },
            };
            assert((l, st.deep_view()) == all[from]);
            match st {
                Statement::Constant { name, value } => {
                    let known_value = match Self::parse_value(&constants, value, fname, l) {
                        Ok(known_value) => known_value,
                        Err(e) => {
                            return Err(e);
                        },
                    };
                    let ghost pair = (name@, known_value@);
                    constants.push((name, known_value));
                    assert(constants_view(constants@) =~= known.push(pair));
                },
                Statement::Label(c) => {
                    let ghost label = Instruction::Label(c@);
                    parsed_cmds.push(ParsedStatement::Label(c.0));
                    assert(parsed_cmds.deep_view() =~= so_far.push(label));
                },
                Statement::Command { cmd, arg0, args } => {
                    let ghost written = cmd@;
                    let cmd = match cmd {
                        CommandName::Raw(c) => CommandName::Raw(c),
                        CommandName::Named(c) => {
                            match find_alias(&aliases, &c) {
                                Some(number) => CommandName::Raw(number),
                                None => CommandName::Named(c),
                            }
                        },
                    };
                    assert(cmd@ == command_name(named, written));
                    let arg0 = match Self::parse_arg0(&constants, arg0, fname, l) {
                        Ok(arg0) => arg0,
                        Err(e) => {
                            return Err(e);
                        },
                    };
                    let args = match Self::parse_args(&constants, args, fname, l) {
                        Ok(args) => args,
                        Err(e) => {
                            return Err(e);
                        },
                    };
                    let ghost command = Instruction::Command {
                        cmd: cmd@,
                        arg0,
                        args: args.deep_view(),
                    };
                    parsed_cmds.push(ParsedStatement::Command { cmd, arg0, args });
                    assert(parsed_cmds.deep_view() =~= so_far.push(command));
                },
                Statement::Directive { name, args: _ } => {
                    return Err(OldTfError::InvalidDirective(name).with_ctx(fname, l));
                },
            }
        }
        let start = match start {
            Some(c) => Some(c),
            None => {
                if find_label(&parsed_cmds, "start") {
                    None
                } else {
                    return Err(OldTfError::MissingRequiredDirective("start").with_ctx(fname, 1));
                }
            },
        };
        let assets = match assets {
            Some(c) => Some(c),
            None => {
                if find_label(&parsed_cmds, "assets") {
                    None
                } else {
                    Some(0)
                }
            },
        };
        Ok(Self { index, start: [start, assets], parsed_cmds })
    }
}

impl From<ParsedValue> for Value {
    fn from(value: ParsedValue) -> (made: Self) {
        match value {
            ParsedValue::Integer(c) => Value::Integer(c),
            ParsedValue::String { value, is_unicode } => Value::String { value, is_unicode },
            ParsedValue::Label(c) => Value::Constant(Identifier(c)),
        }
    }
}

impl FromSpecImpl<ParsedValue> for Value {
    open spec fn obeys_from_spec() -> bool {
        true
    }

    open spec fn from_spec(value: ParsedValue) -> Self {
        match value {
            ParsedValue::Integer(c) => Value::Integer(c),
            ParsedValue::String { value, is_unicode } => Value::String { value, is_unicode },
            ParsedValue::Label(c) => Value::Constant(Identifier(c)),
        }
    }
}

/// The value as it is written that a resolved value stands for: a label is
/// a name.
pub open spec fn unresolved_value(value: Resolved) -> Expr {
    match value {
        Resolved::Integer(c) => Expr::Integer(c),
        Resolved::String { value, is_unicode } => Expr::String { value, is_unicode },
        Resolved::Label(c) => Expr::Constant(c),
    }
}

/// The statement as it is written that a resolved statement stands for.
pub open spec fn unresolved(statement: Instruction) -> Written {
    match statement {
        Instruction::Label(name) => Written::Label(name),
        Instruction::Command { cmd, arg0, args } => Written::Command {
            cmd,
            arg0: match arg0 {
                Some(a0) => Some(Expr::Integer(u32_as_signed(a0))),
                None => None,
            },
            args: Seq::new(args.len(), |i: int| unresolved_value(args[i])),
        },
    }
}

impl Statement {
    /// The statement as it is written that a resolved statement stands
    /// for: a label is a name again, and a discriminator a number.
    #[verifier::rlimit(50)]
    pub fn from_parsed(value: ParsedStatement) -> (made: Statement)
        ensures
            made.deep_view() == unresolved(value.deep_view()),
    {
        match value {
            ParsedStatement::Label(name) => Statement::Label(Identifier(name)),
            ParsedStatement::Command { cmd, arg0, args } => {
                let arg0 = match arg0 {
                    Some(a0) => Some(
                        Value::Integer(
                            if a0 >= 0x8000_0000 {
                                (a0 - 0x8000_0000) as i32 + i32::MIN
                            } else {
                                a0 as i32
                            },
                        ),
                    ),
                    None => None,
                };
                let ghost resolved = args.deep_view();
                let mut written: Vec<Value> = Vec::new();
                let mut i: usize = 0;
                while i < args.len()
                    invariant
                        i <= args.len(),
                        resolved == args.deep_view(),
                        written@.len() == i,
                        forall|k: int|
                            0 <= k < i ==> (#[trigger] written@[k])@ == unresolved_value(
                                resolved[k],
                            ),
                    decreases args.len() - i,
                {
                    let value: Value = args[i].duplicate().into();
                    written.push(value);
                    i += 1;
                }
                assert(written.deep_view() =~= Seq::new(
                    resolved.len(),
                    |i: int| unresolved_value(resolved[i]),
                ));
                Statement::Command { cmd, arg0, args: written }
            },
        }
    }
}

impl From<ParsedStatement> for Statement {
    /// As [`Statement::from_parsed`].
    fn from(value: ParsedStatement) -> (made: Self)
        ensures
            made.deep_view() == unresolved(value.deep_view()),
    {
        Statement::from_parsed(value)
    }
}

impl FromSpecImpl<ParsedStatement> for Statement {
    open spec fn obeys_from_spec() -> bool {
        false
    }

    open spec fn from_spec(value: ParsedStatement) -> Self {
        arbitrary()
    }
}

/// The names of the files that the statements from `from` on include, in
/// the order in which they are included.
pub open spec fn included_names(statements: Seq<(usize, Written)>, from: int) -> Seq<Seq<char>>
    decreases statements.len() - from,
{
    if from < 0 || from >= statements.len() {
        Seq::empty()
    } else {
        let rest = included_names(statements, from + 1);
        match statements[from].1 {
            Written::Directive { name, args } => if name == "include"@ && args.len() >= 1
                && args[0] is String {
                seq![args[0]->value] + rest
            } else {
                rest
            },
            _ => rest,
        }
    }
}

/// The names of the files that the statements include, in the order in
/// which they are included: the files that [`Context::parse_file`] wants
/// to be given.
#[verifier::rlimit(50)]
pub fn included_files(statements: &Vec<(usize, Statement)>) -> (names: Vec<String>)
    ensures
        names.deep_view() == included_names(lines_view(statements@), 0),
{
    let ghost all = lines_view(statements@);
    let mut names: Vec<String> = Vec::new();
    let mut i: usize = 0;
    assert(names.deep_view() =~= Seq::empty());
    while i < statements.len()
        invariant
            i <= statements.len(),
            all == lines_view(statements@),
            included_names(all, 0) == names.deep_view() + included_names(all, i as int),
        decreases statements.len() - i,
    {
        let ghost before = names.deep_view();
        let ghost rest = included_names(all, i + 1);
        assert(all[i as int].1 == statements@[i as int].1.deep_view());
        match &statements[i].1 {
            Statement::Directive { name, args } => {
                if is_word(name, "include") && args.len() >= 1 {
                    match &args[0] {
                        Value::String { value, is_unicode: _ } => {
                            names.push(value.clone());
                            assert(names.deep_view() =~= before.push(value@));
                            assert(before + (seq![value@] + rest) =~= before.push(value@) + rest);
                        },
                        _ => {},
                    }
                }
            },
            _ => {},
        }
        i += 1;
    }
    assert(names.deep_view() + Seq::<Seq<char>>::empty() =~= names.deep_view());
    names
}

} // verus!
