//! The element type stored in map entries: a small dynamically typed value
//! with value-equality and an explicit string rendering. `Value::Nil` doubles
//! as the absent sentinel that lookups return for a missing key.

use vstd::prelude::*;
use vstd::string::StringExecFns;

verus! {

/// The mathematical abstraction of a `Value`: integers as `int`, text as
/// sequences of characters.
pub enum ValueView {
    Nil,
    Int(int),
    Str(Seq<char>),
    Sym(Seq<char>),
}

/// A dynamically typed element value. `Nil` is the absent sentinel; a symbol
/// is an identifier-like name, distinct from a string with the same text.
#[derive(Debug, Hash)]
pub enum Value {
    Nil,
    Int(i64),
    Str(String),
    Sym(String),
}

impl View for Value {
    type V = ValueView;

    open spec fn view(&self) -> ValueView {
        match self {
            Value::Nil => ValueView::Nil,
            Value::Int(i) => ValueView::Int(*i as int),
            Value::Str(s) => ValueView::Str(s@),
            Value::Sym(s) => ValueView::Sym(s@),
        }
    }
}

impl Clone for Value {
    fn clone(&self) -> (r: Self)
        ensures
            r == *self,
    {
        match self {
            Value::Nil => Value::Nil,
            Value::Int(i) => Value::Int(*i),
            Value::Str(s) => Value::Str(s.clone()),
            Value::Sym(s) => Value::Sym(s.clone()),
        }
    }
}

impl PartialEq for Value {
    /// Value-equality: two values are equal exactly when their abstractions
    /// coincide.
    fn eq(&self, other: &Value) -> (r: bool) {
        match (self, other) {
            (Value::Nil, Value::Nil) => true,
            (Value::Int(a), Value::Int(b)) => *a == *b,
            (Value::Str(a), Value::Str(b)) => *a == *b,
            (Value::Sym(a), Value::Sym(b)) => *a == *b,
            _ => false,
        }
    }
}

impl vstd::std_specs::cmp::PartialEqSpecImpl for Value {
    open spec fn obeys_eq_spec() -> bool {
        true
    }

    open spec fn eq_spec(&self, other: &Value) -> bool {
        self@ == other@
    }
}

impl Eq for Value {}

/// The character of a single decimal digit.
pub open spec fn digit_char(d: nat) -> char {
    if d == 0 {
        '0'
    } else if d == 1 {
        '1'
    } else if d == 2 {
        '2'
    } else if d == 3 {
        '3'
    } else if d == 4 {
        '4'
    } else if d == 5 {
        '5'
    } else if d == 6 {
        '6'
    } else if d == 7 {
        '7'
    } else if d == 8 {
        '8'
    } else {
        '9'
    }
}

/// The decimal digits of a natural number, most significant first, with no
/// leading zero except for the number zero itself.
pub open spec fn dec_digits(n: nat) -> Seq<char>
    decreases n,
{
    if n < 10 {
        seq![digit_char(n)]
    } else {
        dec_digits(n / 10).push(digit_char(n % 10))
    }
}

/// The decimal rendering of an integer: a leading minus sign when negative.
pub open spec fn render_int(i: int) -> Seq<char> {
    if i < 0 {
        seq!['-'] + dec_digits((-i) as nat)
    } else {
        dec_digits(i as nat)
    }
}

/// The explicit rendering of a value: `nil` for the sentinel, decimal digits
/// for an integer, the text in double quotes for a string, the bare name for
/// a symbol.
pub open spec fn render_value(v: ValueView) -> Seq<char> {
    match v {
        ValueView::Nil => seq!['n', 'i', 'l'],
        ValueView::Int(i) => render_int(i),
        ValueView::Str(s) => seq!['"'] + s + seq!['"'],
        ValueView::Sym(s) => s,
    }
}

fn digit_str(d: u64) -> (s: &'static str)
    requires
        d < 10,
    ensures
        s@ == seq![digit_char(d as nat)],
{
    proof {
        reveal_strlit("0");
        reveal_strlit("1");
        reveal_strlit("2");
        reveal_strlit("3");
        reveal_strlit("4");
        reveal_strlit("5");
        reveal_strlit("6");
        reveal_strlit("7");
        reveal_strlit("8");
        reveal_strlit("9");
    }
    match d {
        0 => "0",
        1 => "1",
        2 => "2",
        3 => "3",
        4 => "4",
        5 => "5",
        6 => "6",
        7 => "7",
        8 => "8",
        _ => "9",
    }
}

fn push_dec(n: u64, out: &mut String)
    ensures
        final(out)@ == old(out)@ + dec_digits(n as nat),
    decreases n,
{
    if n < 10 {
        out.append(digit_str(n));
    } else {
        push_dec(n / 10, out);
        out.append(digit_str(n % 10));
        proof {
            assert(old(out)@ + dec_digits((n / 10) as nat) + seq![
                digit_char((n % 10) as nat),
            ] =~= old(out)@ + dec_digits(n as nat));
        }
    }
}

impl Value {
    /// A symbol value with this name, behind a fresh shared handle.
    pub fn symbol(name: &str) -> (v: std::rc::Rc<Value>)
        ensures
            v@ == ValueView::Sym(name@),
    {
        std::rc::Rc::new(Value::Sym(name.to_owned()))
    }

    /// An integer value behind a fresh shared handle.
    pub fn integer(i: i64) -> (v: std::rc::Rc<Value>)
        ensures
            v@ == ValueView::Int(i as int),
    {
        std::rc::Rc::new(Value::Int(i))
    }

    /// A string value behind a fresh shared handle.
    pub fn string(text: &str) -> (v: std::rc::Rc<Value>)
        ensures
            v@ == ValueView::Str(text@),
    {
        std::rc::Rc::new(Value::Str(text.to_owned()))
    }

    /// The absent sentinel behind a fresh shared handle.
    pub fn nil() -> (v: std::rc::Rc<Value>)
        ensures
            v@ == ValueView::Nil,
    {
        std::rc::Rc::new(Value::Nil)
    }

    /// The explicit string rendering of this value, as the map renderer
    /// prints it.
    pub fn to_string_explicit(&self) -> (r: String)
        ensures
            r@ == render_value(self@),
    {
        match self {
            Value::Nil => {
                let mut s = String::new();
                s.append("nil");
                proof {
                    reveal_strlit("nil");
                    assert(s@ =~= render_value(self@));
                }
                s
            },
            Value::Int(i) => {
                let n: i64 = *i;
                let mut s = String::new();
                let mag: u64;
                if n < 0 {
                    s.append("-");
                    proof {
                        reveal_strlit("-");
                    }
                    mag = (-(n + 1)) as u64 + 1;
                    proof {
                        assert(mag == -(n as int));
                    }
                } else {
                    mag = n as u64;
                }
                push_dec(mag, &mut s);
                proof {
                    assert(s@ =~= render_value(self@));
                }
                s
            },
            Value::Str(text) => {
                let mut s = String::new();
                s.append("\"");
                s.append(text.as_str());
                s.append("\"");
                proof {
                    reveal_strlit("\"");
                    assert(s@ =~= render_value(self@));
                }
                s
            },
            Value::Sym(name) => name.clone(),
        }
    }
}

} // verus!
