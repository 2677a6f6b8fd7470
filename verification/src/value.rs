//! The typed value model: tagged values, pointer indirection into the
//! value store, typed accessors, structural equality, and canonical text.
//!
//! A `Number` is carried as the raw bit pattern of an IEEE-754
//! double-precision value (a `u64`); the engine itself never performs
//! floating-point work, it hands bit patterns to its environment.

use vstd::prelude::*;
use vstd::string::StringExecFns;

verus! {

/// Mathematical model of a `Value`: strings as character sequences,
/// numbers as IEEE-754 bit patterns.
#[verifier::ext_equal]
pub enum ValModel {
    Str(Seq<char>),
    Num(u64),
    Bool(bool),
    Ptr(u64),
    Byte(u8),
    Uint(u64),
}

/// A tagged value as the machine stores it.  `Num` holds the bit
/// pattern of a 64-bit IEEE-754 double; `Ptr` holds an address into the
/// value store; `Uint` is the raw unsigned integer used for addresses
/// and jump targets.
#[derive(Debug, Clone, PartialEq)]
pub enum Value {
    Str(String),
    Num(u64),
    Bool(bool),
    Ptr(u64),
    Byte(u8),
    Uint(u64),
}

impl View for Value {
    type V = ValModel;

    open spec fn view(&self) -> ValModel {
        match self {
            Value::Str(s) => ValModel::Str(s@),
            Value::Num(n) => ValModel::Num(*n),
            Value::Bool(b) => ValModel::Bool(*b),
            Value::Ptr(p) => ValModel::Ptr(*p),
            Value::Byte(b) => ValModel::Byte(*b),
            Value::Uint(u) => ValModel::Uint(*u),
        }
    }
}

impl DeepView for Value {
    type V = ValModel;

    open spec fn deep_view(&self) -> ValModel {
        self.view()
    }
}

/// The fatal run-time error classes: bad addressing, wrong-variant
/// coercion, malformed jump targets, and the (documented) rejection of
/// pointer chains that never reach a non-pointer value.
#[derive(Debug, Clone, Copy, PartialEq, Eq, Structural)]
pub enum VmError {
    /// An address at or past the current store length was used.
    OutOfBounds,
    /// A numeric operation met a value that is not a `Num`.
    NotANumber,
    /// A store target was neither a `Ptr` nor a raw `Uint` address.
    NotAnAddress,
    /// A taken jump's target argument was not a raw `Uint`.
    BadJumpTarget,
    /// A pointer chain did not reach a non-pointer value within one
    /// dereference per store entry, so it must revisit an address.
    PointerCycle,
    /// An instruction carried fewer arguments than its opcode reads.
    MissingArg,
}

/// Typed read of a `Num`'s bit pattern.
pub open spec fn want_num(v: ValModel) -> Result<u64, VmError> {
    match v {
        ValModel::Num(n) => Ok(n),
        _ => Err(VmError::NotANumber),
    }
}

/// Typed read of a store address: a `Ptr` or a raw `Uint`.
pub open spec fn want_addr(v: ValModel) -> Result<u64, VmError> {
    match v {
        ValModel::Ptr(p) => Ok(p),
        ValModel::Uint(u) => Ok(u),
        _ => Err(VmError::NotAnAddress),
    }
}

/// Typed read of a jump target: only a raw `Uint` is accepted.
pub open spec fn want_jump(v: ValModel) -> Result<u64, VmError> {
    match v {
        ValModel::Uint(u) => Ok(u),
        _ => Err(VmError::BadJumpTarget),
    }
}

/// Transitive pointer dereference with a fuel bound.  Each dereference
/// step first checks the address against the store length; once `fuel`
/// dereferences have been spent the chain must have revisited an
/// address, so it is reported as a cycle.
pub open spec fn resolve_model(store: Seq<ValModel>, v: ValModel, fuel: nat) -> Result<
    ValModel,
    VmError,
>
    decreases fuel,
{
    match v {
        ValModel::Ptr(p) => {
            if p >= store.len() {
                Err(VmError::OutOfBounds)
            } else if fuel == 0 {
                Err(VmError::PointerCycle)
            } else {
                resolve_model(store, store[p as int], (fuel - 1) as nat)
            }
        },
        _ => Ok(v),
    }
}

/// Transitive dereference of `v` in `store`: the longest acyclic
/// pointer chain visits each store entry at most once, so one unit of
/// fuel per entry suffices.
pub open spec fn resolve_in(store: Seq<ValModel>, v: ValModel) -> Result<ValModel, VmError> {
    resolve_model(store, v, store.len())
}

/// Structural equality of two values whose variants are compared by
/// the engine itself.  Two `Num` values are never compared here: the
/// engine hands their bit patterns to the environment for IEEE-754
/// equality, so that pair never reaches this function.
pub open spec fn vals_eq(a: ValModel, b: ValModel) -> bool
    recommends
        !(a is Num && b is Num),
{
    match (a, b) {
        (ValModel::Str(x), ValModel::Str(y)) => x == y,
        (ValModel::Bool(x), ValModel::Bool(y)) => x == y,
        (ValModel::Ptr(x), ValModel::Ptr(y)) => x == y,
        (ValModel::Byte(x), ValModel::Byte(y)) => x == y,
        (ValModel::Uint(x), ValModel::Uint(y)) => x == y,
        _ => false,
    }
}

/// The decimal digit character for `d`.
pub open spec fn dec_digit(d: int) -> char
    recommends
        0 <= d < 10,
{
    if d == 0 {
        '0'
    } else if d == 1 {
        '1'
    } else if d == 2 {
        '2'
    } else if d == 3 {
        '3'
    } else if d == 4 {
        '4'
    } else if d == 5 {
        '5'
    } else if d == 6 {
        '6'
    } else if d == 7 {
        '7'
    } else if d == 8 {
        '8'
    } else {
        '9'
    }
}

/// Decimal text of a byte, without leading zeros.
pub open spec fn byte_text(n: u8) -> Seq<char> {
    if n < 10 {
        seq![dec_digit(n as int)]
    } else if n < 100 {
        seq![dec_digit(n as int / 10), dec_digit(n as int % 10)]
    } else {
        seq![dec_digit(n as int / 100), dec_digit((n as int / 10) % 10), dec_digit(n as int % 10)]
    }
}

/// Standard text of a boolean.
pub open spec fn bool_text(b: bool) -> Seq<char> {
    if b {
        "true"@
    } else {
        "false"@
    }
}

/// Canonical text form of a value: strings verbatim, booleans and
/// bytes via their standard representation, pointers and raw integers
/// as empty text.  A `Num` never reaches this function: its text comes
/// from the environment's IEEE-754 formatting.
pub open spec fn text_of(v: ValModel) -> Seq<char>
    recommends
        !(v is Num),
{
    match v {
        ValModel::Str(s) => s,
        ValModel::Bool(b) => bool_text(b),
        ValModel::Byte(n) => byte_text(n),
        _ => Seq::empty(),
    }
}

impl Value {
    /// An owned copy whose model is the same.
    pub fn dup(&self) -> (r: Value)
        ensures
            r@ == self@,
    {
        match self {
            Value::Str(s) => Value::Str(s.clone()),
            Value::Num(n) => Value::Num(*n),
            Value::Bool(b) => Value::Bool(*b),
            Value::Ptr(p) => Value::Ptr(*p),
            Value::Byte(b) => Value::Byte(*b),
            Value::Uint(u) => Value::Uint(*u),
        }
    }

    /// Fallible read of a `Num`'s bit pattern.
    pub fn as_num(&self) -> (r: Result<u64, VmError>)
        ensures
            r == want_num(self@),
    {
        match self {
            Value::Num(n) => Ok(*n),
            _ => Err(VmError::NotANumber),
        }
    }

    /// Fallible read of a store address (`Ptr` or raw `Uint`).
    pub fn as_pointer(&self) -> (r: Result<u64, VmError>)
        ensures
            r == want_addr(self@),
    {
        match self {
            Value::Ptr(p) => Ok(*p),
            Value::Uint(u) => Ok(*u),
            _ => Err(VmError::NotAnAddress),
        }
    }

    /// Fallible read of a jump target (raw `Uint` only).
    pub fn as_uint(&self) -> (r: Result<u64, VmError>)
        ensures
            r == want_jump(self@),
    {
        match self {
            Value::Uint(u) => Ok(*u),
            _ => Err(VmError::BadJumpTarget),
        }
    }

    /// Transitive pointer dereference: follow `Ptr` values through the
    /// store until a non-pointer value is reached.  Every address met
    /// on the way must be in bounds, and a chain that spends one
    /// dereference per store entry without terminating is a cycle.
    pub fn get(&self, store: &Vec<Value>) -> (r: Result<Value, VmError>)
        ensures
            match r {
                Ok(v) => resolve_in(store.deep_view(), self@) == Ok::<ValModel, VmError>(v@),
                Err(e) => resolve_in(store.deep_view(), self@) == Err::<ValModel, VmError>(e),
            },
    {
        let ghost s = store.deep_view();
        let mut cur: Value = self.dup();
        let mut fuel: usize = store.len();
        loop
            invariant
                s == store.deep_view(),
                fuel <= store.len(),
                resolve_model(s, self@, store.len() as nat) == resolve_model(
                    s,
                    cur@,
                    fuel as nat,
                ),
            decreases fuel,
        {
            match cur {
                Value::Ptr(p) => {
                    if p >= store.len() as u64 {
                        return Err(VmError::OutOfBounds);
                    }
                    if fuel == 0 {
                        return Err(VmError::PointerCycle);
                    }
                    fuel = fuel - 1;
                    cur = store[p as usize].dup();
                },
                other => {
                    return Ok(other);
                },
            }
        }
    }

    /// Canonical text form; see `text_of`.  A `Num` has no text here:
    /// the engine obtains it from the environment instead.
    pub fn to_string(&self) -> (r: String)
        requires
            !(self@ is Num),
        ensures
            r@ == text_of(self@),
    {
        match self {
            Value::Str(s) => s.clone(),
            Value::Bool(b) => bool_to_string(*b),
            Value::Byte(n) => byte_to_string(*n),
            _ => String::new(),
        }
    }
}

/// Structural equality on the variants the engine compares itself;
/// two `Num` values are compared by the environment instead.
pub fn value_eq(a: &Value, b: &Value) -> (r: bool)
    requires
        !(a@ is Num && b@ is Num),
    ensures
        r == vals_eq(a@, b@),
{
    match (a, b) {
        (Value::Str(x), Value::Str(y)) => x.eq(y),
        (Value::Bool(x), Value::Bool(y)) => x == y,
        (Value::Ptr(x), Value::Ptr(y)) => x == y,
        (Value::Byte(x), Value::Byte(y)) => x == y,
        (Value::Uint(x), Value::Uint(y)) => x == y,
        _ => false,
    }
}

/// The one-character string for a decimal digit.
fn digit_str(d: u8) -> (r: &'static str)
    requires
        d < 10,
    ensures
        r@ == seq![dec_digit(d as int)],
{
    proof {
        reveal_strlit("0");
        reveal_strlit("1");
        reveal_strlit("2");
        reveal_strlit("3");
        reveal_strlit("4");
        reveal_strlit("5");
        reveal_strlit("6");
        reveal_strlit("7");
        reveal_strlit("8");
        reveal_strlit("9");
    }
    let r = match d {
        0 => "0",
        1 => "1",
        2 => "2",
        3 => "3",
        4 => "4",
        5 => "5",
        6 => "6",
        7 => "7",
        8 => "8",
        _ => "9",
    };
    proof {
        assert(r@ =~= seq![dec_digit(d as int)]);
    }
    r
}

/// Decimal text of a byte, matching `byte_text`.
pub fn byte_to_string(n: u8) -> (r: String)
    ensures
        r@ == byte_text(n),
{
    let mut s = String::new();
    if n >= 100 {
        s.append(digit_str(n / 100));
    }
    if n >= 10 {
        s.append(digit_str((n / 10) % 10));
    }
    s.append(digit_str(n % 10));
    proof {
        assert(s@ =~= byte_text(n));
    }
    s
}

/// Standard text of a boolean, matching `bool_text`.
pub fn bool_to_string(b: bool) -> (r: String)
    ensures
        r@ == bool_text(b),
{
    if b {
        String::from_str("true")
    } else {
        String::from_str("false")
    }
}

/// One decoded instruction: an opcode and its argument values.
#[derive(Debug, Clone, PartialEq)]
pub struct Inst {
    pub opcode: u8,
    pub args: Vec<Value>,
}

/// Mathematical model of an instruction.
#[verifier::ext_equal]
pub struct InstModel {
    pub opcode: u8,
    pub args: Seq<ValModel>,
}

impl View for Inst {
    type V = InstModel;

    open spec fn view(&self) -> InstModel {
        InstModel { opcode: self.opcode, args: self.args.deep_view() }
    }
}

impl DeepView for Inst {
    type V = InstModel;

    open spec fn deep_view(&self) -> InstModel {
        self.view()
    }
}

} // verus!
