//! The built-in words.

use crate::word::same_text;
use vstd::prelude::*;
use vstd::string::*;

verus! {

/// The operations on one number that the host carries out.
#[derive(Clone, Copy, Debug, PartialEq, Eq, Structural)]
pub enum UnaryOp {
    /// The natural logarithm.
    Ln,
    Sin,
    Cos,
    Tan,
    Asin,
    Acos,
    Atan,
    /// To the nearest whole number, halves away from zero.
    Round,
}

/// The operations on two numbers that the host carries out, each on a left
/// and a right operand.
#[derive(Clone, Copy, Debug, PartialEq, Eq, Structural)]
pub enum BinaryOp {
    Add,
    Sub,
    Mul,
    Div,
    /// The remainder of the division, with the sign of the left operand.
    Rem,
    /// The left operand to the power of the right one.
    Pow,
    /// The logarithm of the left operand to the base of the right one.
    Log,
}

/// What a built-in word does.
#[derive(Clone, Copy, Debug, PartialEq, Eq, Structural)]
pub enum Builtin {
    /// `+ - * / % ** log`
    Binary(BinaryOp),
    /// `ln sin cos tan asin acos atan round`
    Unary(UnaryOp),
    /// `fact`
    Factorial,
    /// `.`
    Show,
    /// `.s`
    ShowAll,
    /// `.stdf`
    ShowScientific,
    /// `swp`
    Swap,
    /// `pop`
    Pop,
    /// `dup`
    Dup,
    /// `over`
    Over,
    /// `rot`
    Rot,
    /// `-rot`
    RotBack,
    /// `pick`
    Pick,
    /// `put`
    Put,
    /// `pi`
    Pi,
    /// `e`
    Euler,
    /// `dice`
    Dice,
    /// `if`
    If,
    /// The word that ends what an `if` skips.
    EndIf,
    /// `clear`
    Clear,
    /// `bye`, `exit` and `quit`
    Bye,
    /// `:`
    Define,
}

/// The built-in word that `text` names, if it names one.
pub open spec fn named(text: Seq<char>) -> Option<Builtin> {
    if text == "+"@ {
        Some(Builtin::Binary(BinaryOp::Add))
    } else if text == "-"@ {
        Some(Builtin::Binary(BinaryOp::Sub))
    } else if text == "*"@ {
        Some(Builtin::Binary(BinaryOp::Mul))
    } else if text == "/"@ {
        Some(Builtin::Binary(BinaryOp::Div))
    } else if text == "%"@ {
        Some(Builtin::Binary(BinaryOp::Rem))
    } else if text == "**"@ {
        Some(Builtin::Binary(BinaryOp::Pow))
    } else if text == "log"@ {
        Some(Builtin::Binary(BinaryOp::Log))
    } else if text == "ln"@ {
        Some(Builtin::Unary(UnaryOp::Ln))
    } else if text == "sin"@ {
        Some(Builtin::Unary(UnaryOp::Sin))
    } else if text == "cos"@ {
        Some(Builtin::Unary(UnaryOp::Cos))
    } else if text == "tan"@ {
        Some(Builtin::Unary(UnaryOp::Tan))
    } else if text == "asin"@ {
        Some(Builtin::Unary(UnaryOp::Asin))
    } else if text == "acos"@ {
        Some(Builtin::Unary(UnaryOp::Acos))
    } else if text == "atan"@ {
        Some(Builtin::Unary(UnaryOp::Atan))
    } else if text == "round"@ {
        Some(Builtin::Unary(UnaryOp::Round))
    } else if text == "fact"@ {
        Some(Builtin::Factorial)
    } else if text == "."@ {
        Some(Builtin::Show)
    } else if text == ".s"@ {
        Some(Builtin::ShowAll)
    } else if text == ".stdf"@ {
        Some(Builtin::ShowScientific)
    } else if text == "swp"@ {
        Some(Builtin::Swap)
    } else if text == "pop"@ {
        Some(Builtin::Pop)
    } else if text == "dup"@ {
        Some(Builtin::Dup)
    } else if text == "over"@ {
        Some(Builtin::Over)
    } else if text == "rot"@ {
        Some(Builtin::Rot)
    } else if text == "-rot"@ {
        Some(Builtin::RotBack)
    } else if text == "pick"@ {
        Some(Builtin::Pick)
    } else if text == "put"@ {
        Some(Builtin::Put)
    } else if text == "pi"@ {
        Some(Builtin::Pi)
    } else if text == "e"@ {
        Some(Builtin::Euler)
    } else if text == "dice"@ {
        Some(Builtin::Dice)
    } else if text == "if"@ {
        Some(Builtin::If)
    } else if text == "then"@ {
        Some(Builtin::EndIf)
    } else if text == "clear"@ {
        Some(Builtin::Clear)
    } else if text == "bye"@ {
        Some(Builtin::Bye)
    } else if text == "exit"@ {
        Some(Builtin::Bye)
    } else if text == "quit"@ {
        Some(Builtin::Bye)
    } else if text == ":"@ {
        Some(Builtin::Define)
    } else {
        None
    }
}

/// How the words that the calculator knows are spelled, character by
/// character. A proof that tells one of these words from another calls this.
pub proof fn lemma_spellings()
    ensures
        "+"@.len() == 1 && "+"@[0] == '+',
        "-"@.len() == 1 && "-"@[0] == '-',
        "*"@.len() == 1 && "*"@[0] == '*',
        "/"@.len() == 1 && "/"@[0] == '/',
        "%"@.len() == 1 && "%"@[0] == '%',
        "**"@.len() == 2 && "**"@[0] == '*' && "**"@[1] == '*',
        "log"@.len() == 3 && "log"@[0] == 'l' && "log"@[1] == 'o' && "log"@[2] == 'g',
        "ln"@.len() == 2 && "ln"@[0] == 'l' && "ln"@[1] == 'n',
        "sin"@.len() == 3 && "sin"@[0] == 's' && "sin"@[1] == 'i' && "sin"@[2] == 'n',
        "cos"@.len() == 3 && "cos"@[0] == 'c' && "cos"@[1] == 'o' && "cos"@[2] == 's',
        "tan"@.len() == 3 && "tan"@[0] == 't' && "tan"@[1] == 'a' && "tan"@[2] == 'n',
        "asin"@.len() == 4 && "asin"@[0] == 'a' && "asin"@[1] == 's' && "asin"@[2] == 'i' && "asin"@[3] == 'n',
        "acos"@.len() == 4 && "acos"@[0] == 'a' && "acos"@[1] == 'c' && "acos"@[2] == 'o' && "acos"@[3] == 's',
        "atan"@.len() == 4 && "atan"@[0] == 'a' && "atan"@[1] == 't' && "atan"@[2] == 'a' && "atan"@[3] == 'n',
        "round"@.len() == 5 && "round"@[0] == 'r' && "round"@[1] == 'o' && "round"@[2] == 'u' && "round"@[3] == 'n' && "round"@[4] == 'd',
        "fact"@.len() == 4 && "fact"@[0] == 'f' && "fact"@[1] == 'a' && "fact"@[2] == 'c' && "fact"@[3] == 't',
        "."@.len() == 1 && "."@[0] == '.',
        ".s"@.len() == 2 && ".s"@[0] == '.' && ".s"@[1] == 's',
        ".stdf"@.len() == 5 && ".stdf"@[0] == '.' && ".stdf"@[1] == 's' && ".stdf"@[2] == 't' && ".stdf"@[3] == 'd' && ".stdf"@[4] == 'f',
        "swp"@.len() == 3 && "swp"@[0] == 's' && "swp"@[1] == 'w' && "swp"@[2] == 'p',
        "pop"@.len() == 3 && "pop"@[0] == 'p' && "pop"@[1] == 'o' && "pop"@[2] == 'p',
        "dup"@.len() == 3 && "dup"@[0] == 'd' && "dup"@[1] == 'u' && "dup"@[2] == 'p',
        "over"@.len() == 4 && "over"@[0] == 'o' && "over"@[1] == 'v' && "over"@[2] == 'e' && "over"@[3] == 'r',
        "rot"@.len() == 3 && "rot"@[0] == 'r' && "rot"@[1] == 'o' && "rot"@[2] == 't',
        "-rot"@.len() == 4 && "-rot"@[0] == '-' && "-rot"@[1] == 'r' && "-rot"@[2] == 'o' && "-rot"@[3] == 't',
        "pick"@.len() == 4 && "pick"@[0] == 'p' && "pick"@[1] == 'i' && "pick"@[2] == 'c' && "pick"@[3] == 'k',
        "put"@.len() == 3 && "put"@[0] == 'p' && "put"@[1] == 'u' && "put"@[2] == 't',
        "pi"@.len() == 2 && "pi"@[0] == 'p' && "pi"@[1] == 'i',
        "e"@.len() == 1 && "e"@[0] == 'e',
        "dice"@.len() == 4 && "dice"@[0] == 'd' && "dice"@[1] == 'i' && "dice"@[2] == 'c' && "dice"@[3] == 'e',
        "if"@.len() == 2 && "if"@[0] == 'i' && "if"@[1] == 'f',
        "then"@.len() == 4 && "then"@[0] == 't' && "then"@[1] == 'h' && "then"@[2] == 'e' && "then"@[3] == 'n',
        "clear"@.len() == 5 && "clear"@[0] == 'c' && "clear"@[1] == 'l' && "clear"@[2] == 'e' && "clear"@[3] == 'a' && "clear"@[4] == 'r',
        "bye"@.len() == 3 && "bye"@[0] == 'b' && "bye"@[1] == 'y' && "bye"@[2] == 'e',
        "exit"@.len() == 4 && "exit"@[0] == 'e' && "exit"@[1] == 'x' && "exit"@[2] == 'i' && "exit"@[3] == 't',
        "quit"@.len() == 4 && "quit"@[0] == 'q' && "quit"@[1] == 'u' && "quit"@[2] == 'i' && "quit"@[3] == 't',
        ":"@.len() == 1 && ":"@[0] == ':',
        ";"@.len() == 1 && ";"@[0] == ';',
        "("@.len() == 1 && "("@[0] == '(',
        ")"@.len() == 1 && ")"@[0] == ')',
{
    reveal_strlit("+");
    reveal_strlit("-");
    reveal_strlit("*");
    reveal_strlit("/");
    reveal_strlit("%");
    reveal_strlit("**");
    reveal_strlit("log");
    reveal_strlit("ln");
    reveal_strlit("sin");
    reveal_strlit("cos");
    reveal_strlit("tan");
    reveal_strlit("asin");
    reveal_strlit("acos");
    reveal_strlit("atan");
    reveal_strlit("round");
    reveal_strlit("fact");
    reveal_strlit(".");
    reveal_strlit(".s");
    reveal_strlit(".stdf");
    reveal_strlit("swp");
    reveal_strlit("pop");
    reveal_strlit("dup");
    reveal_strlit("over");
    reveal_strlit("rot");
    reveal_strlit("-rot");
    reveal_strlit("pick");
    reveal_strlit("put");
    reveal_strlit("pi");
    reveal_strlit("e");
    reveal_strlit("dice");
    reveal_strlit("if");
    reveal_strlit("then");
    reveal_strlit("clear");
    reveal_strlit("bye");
    reveal_strlit("exit");
    reveal_strlit("quit");
    reveal_strlit(":");
    reveal_strlit(";");
    reveal_strlit("(");
    reveal_strlit(")");
}

impl Builtin {
    /// How many numbers the stack must hold for the word to be carried out.
    pub open spec fn demand(self) -> nat {
        match self {
            Builtin::Binary(_) => 2,
            Builtin::Unary(_) => 1,
            Builtin::Factorial => 1,
            Builtin::Show => 1,
            Builtin::ShowAll => 0,
            Builtin::ShowScientific => 1,
            Builtin::Swap => 2,
            Builtin::Pop => 1,
            Builtin::Dup => 1,
            Builtin::Over => 2,
            Builtin::Rot => 3,
            Builtin::RotBack => 3,
            Builtin::Pick => 1,
            Builtin::Put => 2,
            Builtin::Pi => 0,
            Builtin::Euler => 0,
            Builtin::Dice => 1,
            Builtin::If => 1,
            Builtin::EndIf => 0,
            Builtin::Clear => 0,
            Builtin::Bye => 0,
            Builtin::Define => 0,
        }
    }

    /// The built-in word that `text` names, if it names one.
    pub fn lookup(text: &str) -> (found: Option<Builtin>)
        ensures
            found == named(text@),
    {
        if same_text(text, "+") {
            Some(Builtin::Binary(BinaryOp::Add))
        } else if same_text(text, "-") {
            Some(Builtin::Binary(BinaryOp::Sub))
        } else if same_text(text, "*") {
            Some(Builtin::Binary(BinaryOp::Mul))
        } else if same_text(text, "/") {
            Some(Builtin::Binary(BinaryOp::Div))
        } else if same_text(text, "%") {
            Some(Builtin::Binary(BinaryOp::Rem))
        } else if same_text(text, "**") {
            Some(Builtin::Binary(BinaryOp::Pow))
        } else if same_text(text, "log") {
            Some(Builtin::Binary(BinaryOp::Log))
        } else if same_text(text, "ln") {
            Some(Builtin::Unary(UnaryOp::Ln))
        } else if same_text(text, "sin") {
            Some(Builtin::Unary(UnaryOp::Sin))
        } else if same_text(text, "cos") {
            Some(Builtin::Unary(UnaryOp::Cos))
        } else if same_text(text, "tan") {
            Some(Builtin::Unary(UnaryOp::Tan))
        } else if same_text(text, "asin") {
            Some(Builtin::Unary(UnaryOp::Asin))
        } else if same_text(text, "acos") {
            Some(Builtin::Unary(UnaryOp::Acos))
        } else if same_text(text, "atan") {
            Some(Builtin::Unary(UnaryOp::Atan))
        } else if same_text(text, "round") {
            Some(Builtin::Unary(UnaryOp::Round))
        } else if same_text(text, "fact") {
            Some(Builtin::Factorial)
        } else if same_text(text, ".") {
            Some(Builtin::Show)
        } else if same_text(text, ".s") {
            Some(Builtin::ShowAll)
        } else if same_text(text, ".stdf") {
            Some(Builtin::ShowScientific)
        } else if same_text(text, "swp") {
            Some(Builtin::Swap)
        } else if same_text(text, "pop") {
            Some(Builtin::Pop)
        } else if same_text(text, "dup") {
            Some(Builtin::Dup)
        } else if same_text(text, "over") {
            Some(Builtin::Over)
        } else if same_text(text, "rot") {
            Some(Builtin::Rot)
        } else if same_text(text, "-rot") {
            Some(Builtin::RotBack)
        } else if same_text(text, "pick") {
            Some(Builtin::Pick)
        } else if same_text(text, "put") {
            Some(Builtin::Put)
        } else if same_text(text, "pi") {
            Some(Builtin::Pi)
        } else if same_text(text, "e") {
            Some(Builtin::Euler)
        } else if same_text(text, "dice") {
            Some(Builtin::Dice)
        } else if same_text(text, "if") {
            Some(Builtin::If)
        } else if same_text(text, "then") {
            Some(Builtin::EndIf)
        } else if same_text(text, "clear") {
            Some(Builtin::Clear)
        } else if same_text(text, "bye") {
            Some(Builtin::Bye)
        } else if same_text(text, "exit") {
            Some(Builtin::Bye)
        } else if same_text(text, "quit") {
            Some(Builtin::Bye)
        } else if same_text(text, ":") {
            Some(Builtin::Define)
        } else {
            None
        }
    }
}

} // verus!
