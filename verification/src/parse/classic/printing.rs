//! Statements and values as they are written.
use super::{Command, CommandName, Expr, Operation, Statement, Value, Written};
use crate::parse::numbers::{decimal, decimal_text, hex, hex_text};
use crate::parse::{create_escapes, escaped};
use vstd::prelude::*;
use vstd::string::StringExecFns;

verus! {

/// A number as it is written: a number of one digit in decimal, any other
/// in hexadecimal.
pub open spec fn number_text(number: i32) -> Seq<char> {
    if number > 9 || number < -9 {
        "0x"@ + hex_text(number)
    } else {
        decimal_text(number as int)
    }
}

/// An operation as it is written.
pub open spec fn operation_text(op: Operation) -> Seq<char> {
    match op {
        Operation::Add => "+"@,
        Operation::Sub => "-"@,
        Operation::Mul => "*"@,
        Operation::Div => "/"@,
        Operation::Shl => "<<"@,
        Operation::Shr => ">>"@,
        Operation::And => "&"@,
        Operation::Or => "|"@,
        Operation::Xor => "^"@,
    }
}

/// A value as it is written.
pub open spec fn value_text(value: Expr) -> Seq<char>
    decreases value,
{
    match value {
        Expr::Operation { op, left, right } => value_text(*left) + " "@ + operation_text(op) + " "@
            + value_text(*right),
        Expr::String { value, is_unicode } => (if is_unicode {
            "u"@
        } else {
            ""@
        }) + "\""@ + escaped(value) + "\""@,
        Expr::Negated(inner) => "-"@ + value_text(*inner),
        Expr::Integer(number) => number_text(number),
        Expr::Constant(name) => name,
    }
}

/// The name of a command as it is written.
pub open spec fn command_text(cmd: Command) -> Seq<char> {
    match cmd {
        Command::Raw(number) => number_text(number),
        Command::Named(name) => name,
    }
}

/// The values from `from` on as they are written, with `separator` between
/// them.
pub open spec fn values_text(values: Seq<Expr>, separator: Seq<char>, from: int) -> Seq<char>
    decreases values.len() - from,
{
    if from < 0 || from >= values.len() {
        Seq::empty()
    } else if from == values.len() - 1 {
        value_text(values[from])
    } else {
        value_text(values[from]) + separator + values_text(values, separator, from + 1)
    }
}

/// A statement as it is written.
pub open spec fn statement_text(statement: Written) -> Seq<char> {
    match statement {
        Written::Command { cmd, arg0, args } => command_text(cmd) + (match arg0 {
            Some(value) => "<"@ + value_text(value) + ">"@,
            None => Seq::empty(),
        }) + (if args.len() == 0 {
            Seq::empty()
        } else {
            " "@ + values_text(args, ", "@, 0)
        }),
        Written::Label(name) => name + ":"@,
        Written::Directive { name, args } => "#"@ + name + " "@ + (if name == "include"@
            && args.len() > 0 && args[0] is String {
            // the file that is included stands without quotes
            args[0]->value
        } else {
            values_text(args, " "@, 0)
        }),
        Written::Constant { name, value } => name + " = "@ + value_text(value),
    }
}

/// A number as it is written.
pub fn number_to_string(number: i32) -> (text: String)
    ensures
        text@ == number_text(number),
{
    if number > 9 || number < -9 {
        let mut text = String::from_str("0x");
        text.append(hex(number).as_str());
        text
    } else {
        decimal(number as i64)
    }
}

impl Operation {
    /// The operation as it is written.
    #[verifier::rlimit(50)]
    pub fn to_string(&self) -> (text: String)
        ensures
            text@ == operation_text(*self),
    {
        String::from_str(
            match self {
                Self::Add => "+",
                Self::Sub => "-",
                Self::Mul => "*",
                Self::Div => "/",
                Self::Shl => "<<",
                Self::Shr => ">>",
                Self::And => "&",
                Self::Or => "|",
                Self::Xor => "^",
            },
        )
    }
}

impl CommandName {
    /// The name as it is written.
    #[verifier::rlimit(50)]
    pub fn to_string(&self) -> (text: String)
        ensures
            text@ == command_text(self@),
    {
        match self {
            Self::Raw(c) => number_to_string(*c),
            Self::Named(c) => c.0.clone(),
        }
    }
}

impl Value {
    /// The value as it is written.
    #[verifier::rlimit(50)]
    pub fn to_string(&self) -> (text: String)
        ensures
            text@ == value_text(self@),
        decreases self,
    {
        match self {
            Self::Operation { op, left, right } => {
                let mut text = left.to_string();
                text.append(" ");
                text.append(op.to_string().as_str());
                text.append(" ");
                text.append(right.to_string().as_str());
                text
            },
            Self::String { value, is_unicode } => {
                let mut text = String::from_str(
                    if *is_unicode {
                        "u"
                    } else {
                        ""
                    },
                );
                text.append("\"");
                text.append(create_escapes(value.as_str()).as_str());
                text.append("\"");
                text
            },
            Self::Negated(c) => {
                let mut text = String::from_str("-");
                text.append(c.to_string().as_str());
                text
            },
            Self::Integer(c) => number_to_string(*c),
            Self::Constant(c) => c.0.clone(),
        }
    }
}

/// A list of values as they are written, with `separator` between them.
#[verifier::rlimit(50)]
pub fn values_to_string(values: &Vec<Value>, separator: &str) -> (text: String)
    ensures
        text@ == values_text(values.deep_view(), separator@, 0),
{
    let ghost all = values.deep_view();
    let mut text = String::new();
    let mut i: usize = 0;
    while i < values.len()
        invariant
            i <= values.len(),
            all == values.deep_view(),
            values_text(all, separator@, 0) == text@ + values_text(all, separator@, i as int),
        decreases values.len() - i,
    {
        let ghost before = text@;
        text.append(values[i].to_string().as_str());
        if i + 1 < values.len() {
            text.append(separator);
        }
        proof {
            let one = value_text(all[i as int]);
            if i + 1 < values.len() {
                assert(before + (one + separator@ + values_text(all, separator@, i + 1)) =~= text@
                    + values_text(all, separator@, i + 1));
            } else {
                assert(before + one =~= text@ + values_text(all, separator@, i + 1));
            }
        }
        i += 1;
    }
    assert(text@ + Seq::<char>::empty() =~= text@);
    text
}

impl Statement {
    /// The statement as it is written.
    #[verifier::rlimit(50)]
    pub fn to_string(&self) -> (text: String)
        ensures
            text@ == statement_text(self.deep_view()),
    {
        match self {
            Self::Command { cmd, arg0, args } => {
                let mut text = cmd.to_string();
                let ghost name = text@;
                match arg0 {
                    Some(c) => {
                        text.append("<");
                        text.append(c.to_string().as_str());
                        text.append(">");
                    },
                    None => {
                        assert(name + Seq::<char>::empty() =~= name);
                    },
                }
                let ghost head = text@;
                if args.len() != 0 {
                    text.append(" ");
                    text.append(values_to_string(args, ", ").as_str());
                    assert(text@ =~= head + (" "@ + values_text(args.deep_view(), ", "@, 0)));
                } else {
                    assert(head + Seq::<char>::empty() =~= head);
                }
                text
            },
            Self::Label(l) => {
                let mut text = l.0.clone();
                text.append(":");
                text
            },
            Self::Directive { name, args } => {
                let mut text = String::from_str("#");
                text.append(name.0.as_str());
                text.append(" ");
                let file_directive = String::from_str("include");
                if name.0 == file_directive && args.len() > 0 {
                    if let Value::String { value, is_unicode: _ } = &args[0] {
                        text.append(value.as_str());
                        return text;
                    }
                }
                text.append(values_to_string(args, " ").as_str());
                text
            },
            Self::Constant { name, value } => {
                let mut text = name.0.clone();
                text.append(" = ");
                text.append(value.to_string().as_str());
                text
            },
        }
    }
}

} // verus!
