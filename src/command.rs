//! The command registry: which spellings name which native operations.
use vstd::prelude::*;

use crate::text::same_text;

verus! {

/// One of the three memory registers.
#[derive(Clone, Copy, Debug, PartialEq, Eq, Structural)]
pub enum Register {
    A,
    B,
    C,
}

/// An operation on 64-bit floats. Its operands are taken from the stack, the
/// earliest pushed first (`a`, then `b`, then `c`).
#[derive(Clone, Copy, Debug, PartialEq, Eq, Structural)]
pub enum MathOp {
    /// `a + b`
    Add,
    /// `a - b`
    Sub,
    /// `a * b`
    Mul,
    /// `a / b`
    Div,
    /// `-a`
    Chs,
    /// `|a|`
    Abs,
    /// `a` rounded to the nearest integer
    Round,
    /// `1 / a`
    Inv,
    /// the square root of `a`
    Sqrt,
    /// `a` to the power `1 / b`
    Throot,
    /// the roots of `a x^2 + b x + c`, as real and imaginary parts
    Proot,
    /// `a` to the power `b`
    Pow,
    /// the remainder of `a / b`
    Mod,
    /// the factorial of `a`, rounded down
    Fact,
    /// the constant pi
    Pi,
    /// Euler's number
    E,
    /// `a` degrees in radians
    DegToRad,
    /// `a` radians in degrees
    RadToDeg,
    /// the sine of `a`
    Sin,
    /// the arcsine of `a`
    Asin,
    /// the cosine of `a`
    Cos,
    /// the arccosine of `a`
    Acos,
    /// the tangent of `a`
    Tan,
    /// the arctangent of `a`
    Atan,
    /// the base-10 logarithm of `a`
    Log10,
    /// the base-2 logarithm of `a`
    Log2,
    /// the logarithm of `a` to base `b`
    Logn,
    /// the natural logarithm of `a`
    Ln,
}

impl MathOp {
    /// How many operands the operation takes from the stack.
    pub open spec fn arity_spec(self) -> nat {
        match self {
            MathOp::Pi | MathOp::E => 0,
            MathOp::Chs | MathOp::Abs | MathOp::Round | MathOp::Inv | MathOp::Sqrt | MathOp::Fact | MathOp::DegToRad | MathOp::RadToDeg | MathOp::Sin | MathOp::Asin | MathOp::Cos | MathOp::Acos | MathOp::Tan | MathOp::Atan | MathOp::Log10 | MathOp::Log2 | MathOp::Ln => 1,
            MathOp::Add | MathOp::Sub | MathOp::Mul | MathOp::Div | MathOp::Throot | MathOp::Pow | MathOp::Mod | MathOp::Logn => 2,
            MathOp::Proot => 3,
        }
    }

    pub fn arity(self) -> (r: usize)
        ensures
            r == self.arity_spec(),
    {
        match self {
            MathOp::Pi | MathOp::E => 0,
            MathOp::Chs | MathOp::Abs | MathOp::Round | MathOp::Inv | MathOp::Sqrt | MathOp::Fact | MathOp::DegToRad | MathOp::RadToDeg | MathOp::Sin | MathOp::Asin | MathOp::Cos | MathOp::Acos | MathOp::Tan | MathOp::Atan | MathOp::Log10 | MathOp::Log2 | MathOp::Ln => 1,
            MathOp::Add | MathOp::Sub | MathOp::Mul | MathOp::Div | MathOp::Throot | MathOp::Pow | MathOp::Mod | MathOp::Logn => 2,
            MathOp::Proot => 3,
        }
    }
}

/// A native command.
#[derive(Clone, Copy, Debug, PartialEq, Eq, Structural)]
pub enum Command {
    /// Discard the top of the stack.
    Drop,
    /// Push a copy of the top of the stack.
    Dup,
    /// Exchange the top two values.
    Swap,
    /// Empty the stack.
    Clear,
    /// Move the top value to the bottom of the stack.
    Roll,
    /// Move the bottom value to the top of the stack.
    Rot,
    /// Pop the top value into a register.
    Store(Register),
    /// Push the value of a register.
    Recall(Register),
    /// A float operation, answered by the caller.
    Math(MathOp),
    /// Add until one value remains.
    AddAll,
    /// Multiply until one value remains.
    MulAll,
    /// Greatest common divisor of the top two values, read as `u64`.
    Gcd,
    /// `fn name ... end`: define a function.
    Define,
    /// `( ... )`: skip a comment.
    Comment,
}

impl Command {
    /// How many values must be on the stack before the command runs.
    pub open spec fn depth_spec(self) -> nat {
        match self {
            Command::Drop | Command::Clear | Command::Recall(_) | Command::Define
            | Command::Comment => 0,
            Command::Dup | Command::Roll | Command::Rot | Command::Store(_) | Command::AddAll
            | Command::MulAll => 1,
            Command::Swap | Command::Gcd => 2,
            Command::Math(op) => op.arity_spec(),
        }
    }

    pub fn depth(self) -> (r: usize)
        ensures
            r == self.depth_spec(),
    {
        match self {
            Command::Drop | Command::Clear | Command::Recall(_) | Command::Define
            | Command::Comment => 0,
            Command::Dup | Command::Roll | Command::Rot | Command::Store(_) | Command::AddAll
            | Command::MulAll => 1,
            Command::Swap | Command::Gcd => 2,
            Command::Math(op) => op.arity(),
        }
    }
}

/// The registry: the command that a token names, if any.
pub open spec fn command_of(s: Seq<char>) -> Option<Command> {
    if s == "drop"@ {
        Some(Command::Drop)
    } else if s == "dup"@ {
        Some(Command::Dup)
    } else if s == "swap"@ {
        Some(Command::Swap)
    } else if s == "cls"@ {
        Some(Command::Clear)
    } else if s == "clr"@ {
        Some(Command::Clear)
    } else if s == "roll"@ {
        Some(Command::Roll)
    } else if s == "rot"@ {
        Some(Command::Rot)
    } else if s == "sa"@ {
        Some(Command::Store(Register::A))
    } else if s == ".a"@ {
        Some(Command::Store(Register::A))
    } else if s == "a"@ {
        Some(Command::Recall(Register::A))
    } else if s == "sb"@ {
        Some(Command::Store(Register::B))
    } else if s == ".b"@ {
        Some(Command::Store(Register::B))
    } else if s == "b"@ {
        Some(Command::Recall(Register::B))
    } else if s == "sc"@ {
        Some(Command::Store(Register::C))
    } else if s == ".c"@ {
        Some(Command::Store(Register::C))
    } else if s == "c"@ {
        Some(Command::Recall(Register::C))
    } else if s == "+"@ {
        Some(Command::Math(MathOp::Add))
    } else if s == "+_"@ {
        Some(Command::AddAll)
    } else if s == "-"@ {
        Some(Command::Math(MathOp::Sub))
    } else if s == "x"@ {
        Some(Command::Math(MathOp::Mul))
    } else if s == "x_"@ {
        Some(Command::MulAll)
    } else if s == "/"@ {
        Some(Command::Math(MathOp::Div))
    } else if s == "chs"@ {
        Some(Command::Math(MathOp::Chs))
    } else if s == "abs"@ {
        Some(Command::Math(MathOp::Abs))
    } else if s == "round"@ {
        Some(Command::Math(MathOp::Round))
    } else if s == "int"@ {
        Some(Command::Math(MathOp::Round))
    } else if s == "inv"@ {
        Some(Command::Math(MathOp::Inv))
    } else if s == "sqrt"@ {
        Some(Command::Math(MathOp::Sqrt))
    } else if s == "throot"@ {
        Some(Command::Math(MathOp::Throot))
    } else if s == "proot"@ {
        Some(Command::Math(MathOp::Proot))
    } else if s == "^"@ {
        Some(Command::Math(MathOp::Pow))
    } else if s == "exp"@ {
        Some(Command::Math(MathOp::Pow))
    } else if s == "%"@ {
        Some(Command::Math(MathOp::Mod))
    } else if s == "mod"@ {
        Some(Command::Math(MathOp::Mod))
    } else if s == "!"@ {
        Some(Command::Math(MathOp::Fact))
    } else if s == "gcd"@ {
        Some(Command::Gcd)
    } else if s == "pi"@ {
        Some(Command::Math(MathOp::Pi))
    } else if s == "e"@ {
        Some(Command::Math(MathOp::E))
    } else if s == "d_r"@ {
        Some(Command::Math(MathOp::DegToRad))
    } else if s == "dtor"@ {
        Some(Command::Math(MathOp::DegToRad))
    } else if s == "r_d"@ {
        Some(Command::Math(MathOp::RadToDeg))
    } else if s == "rtod"@ {
        Some(Command::Math(MathOp::RadToDeg))
    } else if s == "sin"@ {
        Some(Command::Math(MathOp::Sin))
    } else if s == "asin"@ {
        Some(Command::Math(MathOp::Asin))
    } else if s == "cos"@ {
        Some(Command::Math(MathOp::Cos))
    } else if s == "acos"@ {
        Some(Command::Math(MathOp::Acos))
    } else if s == "tan"@ {
        Some(Command::Math(MathOp::Tan))
    } else if s == "atan"@ {
        Some(Command::Math(MathOp::Atan))
    } else if s == "log2"@ {
        Some(Command::Math(MathOp::Log2))
    } else if s == "log"@ {
        Some(Command::Math(MathOp::Log10))
    } else if s == "log10"@ {
        Some(Command::Math(MathOp::Log10))
    } else if s == "logn"@ {
        Some(Command::Math(MathOp::Logn))
    } else if s == "ln"@ {
        Some(Command::Math(MathOp::Ln))
    } else if s == "fn"@ {
        Some(Command::Define)
    } else if s == "("@ {
        Some(Command::Comment)
    } else {
        None
    }
}

/// Looks a token up in the registry.
pub fn lookup(t: &str) -> (r: Option<Command>)
    ensures
        r == command_of(t@),
{
    if same_text(t, "drop") {
        return Some(Command::Drop);
    }
    if same_text(t, "dup") {
        return Some(Command::Dup);
    }
    if same_text(t, "swap") {
        return Some(Command::Swap);
    }
    if same_text(t, "cls") {
        return Some(Command::Clear);
    }
    if same_text(t, "clr") {
        return Some(Command::Clear);
    }
    if same_text(t, "roll") {
        return Some(Command::Roll);
    }
    if same_text(t, "rot") {
        return Some(Command::Rot);
    }
    if same_text(t, "sa") {
        return Some(Command::Store(Register::A));
    }
    if same_text(t, ".a") {
        return Some(Command::Store(Register::A));
    }
    if same_text(t, "a") {
        return Some(Command::Recall(Register::A));
    }
    if same_text(t, "sb") {
        return Some(Command::Store(Register::B));
    }
    if same_text(t, ".b") {
        return Some(Command::Store(Register::B));
    }
    if same_text(t, "b") {
        return Some(Command::Recall(Register::B));
    }
    if same_text(t, "sc") {
        return Some(Command::Store(Register::C));
    }
    if same_text(t, ".c") {
        return Some(Command::Store(Register::C));
    }
    if same_text(t, "c") {
        return Some(Command::Recall(Register::C));
    }
    if same_text(t, "+") {
        return Some(Command::Math(MathOp::Add));
    }
    if same_text(t, "+_") {
        return Some(Command::AddAll);
    }
    if same_text(t, "-") {
        return Some(Command::Math(MathOp::Sub));
    }
    if same_text(t, "x") {
        return Some(Command::Math(MathOp::Mul));
    }
    if same_text(t, "x_") {
        return Some(Command::MulAll);
    }
    if same_text(t, "/") {
        return Some(Command::Math(MathOp::Div));
    }
    if same_text(t, "chs") {
        return Some(Command::Math(MathOp::Chs));
    }
    if same_text(t, "abs") {
        return Some(Command::Math(MathOp::Abs));
    }
    if same_text(t, "round") {
        return Some(Command::Math(MathOp::Round));
    }
    if same_text(t, "int") {
        return Some(Command::Math(MathOp::Round));
    }
    if same_text(t, "inv") {
        return Some(Command::Math(MathOp::Inv));
    }
    if same_text(t, "sqrt") {
        return Some(Command::Math(MathOp::Sqrt));
    }
    if same_text(t, "throot") {
        return Some(Command::Math(MathOp::Throot));
    }
    if same_text(t, "proot") {
        return Some(Command::Math(MathOp::Proot));
    }
    if same_text(t, "^") {
        return Some(Command::Math(MathOp::Pow));
    }
    if same_text(t, "exp") {
        return Some(Command::Math(MathOp::Pow));
    }
    if same_text(t, "%") {
        return Some(Command::Math(MathOp::Mod));
    }
    if same_text(t, "mod") {
        return Some(Command::Math(MathOp::Mod));
    }
    if same_text(t, "!") {
        return Some(Command::Math(MathOp::Fact));
    }
    if same_text(t, "gcd") {
        return Some(Command::Gcd);
    }
    if same_text(t, "pi") {
        return Some(Command::Math(MathOp::Pi));
    }
    if same_text(t, "e") {
        return Some(Command::Math(MathOp::E));
    }
    if same_text(t, "d_r") {
        return Some(Command::Math(MathOp::DegToRad));
    }
    if same_text(t, "dtor") {
        return Some(Command::Math(MathOp::DegToRad));
    }
    if same_text(t, "r_d") {
        return Some(Command::Math(MathOp::RadToDeg));
    }
    if same_text(t, "rtod") {
        return Some(Command::Math(MathOp::RadToDeg));
    }
    if same_text(t, "sin") {
        return Some(Command::Math(MathOp::Sin));
    }
    if same_text(t, "asin") {
        return Some(Command::Math(MathOp::Asin));
    }
    if same_text(t, "cos") {
        return Some(Command::Math(MathOp::Cos));
    }
    if same_text(t, "acos") {
        return Some(Command::Math(MathOp::Acos));
    }
    if same_text(t, "tan") {
        return Some(Command::Math(MathOp::Tan));
    }
    if same_text(t, "atan") {
        return Some(Command::Math(MathOp::Atan));
    }
    if same_text(t, "log2") {
        return Some(Command::Math(MathOp::Log2));
    }
    if same_text(t, "log") {
        return Some(Command::Math(MathOp::Log10));
    }
    if same_text(t, "log10") {
        return Some(Command::Math(MathOp::Log10));
    }
    if same_text(t, "logn") {
        return Some(Command::Math(MathOp::Logn));
    }
    if same_text(t, "ln") {
        return Some(Command::Math(MathOp::Ln));
    }
    if same_text(t, "fn") {
        return Some(Command::Define);
    }
    if same_text(t, "(") {
        return Some(Command::Comment);
    }
    None
}

} // verus!
