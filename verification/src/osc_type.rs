//! OSC argument values, their type tags, and the coercion of received
//! arguments to the types a handler expects.
use vstd::prelude::*;

verus! {

/// An OSC time tag: seconds since 1900-01-01 and the fraction of a second.
#[derive(Clone, Copy, Debug, PartialEq, Eq, Structural)]
pub struct OscTime {
    pub seconds: u32,
    pub fractional: u32,
}

/// An RGBA color.
#[derive(Clone, Copy, Debug, PartialEq, Eq, Structural)]
pub struct OscColor {
    pub red: u8,
    pub green: u8,
    pub blue: u8,
    pub alpha: u8,
}

/// The parts of a MIDI message tunneled over OSC.
#[derive(Clone, Copy, Debug, PartialEq, Eq, Structural)]
pub struct OscMidiMessage {
    pub port: u8,
    pub status: u8,
    pub data1: u8,
    pub data2: u8,
}

/// One OSC argument.
///
/// `Float` and `Double` hold the IEEE-754 bit pattern of the value
/// (what `to_bits` gives), so that every value here is an integer.
#[derive(Debug)]
pub enum OscArg {
    Int(i32),
    Float(u32),
    String(String),
    Blob(Vec<u8>),
    Time(OscTime),
    Long(i64),
    Double(u64),
    Char(char),
    Color(OscColor),
    Midi(OscMidiMessage),
    Bool(bool),
    Array(Vec<OscArg>),
    Nil,
    Inf,
}

/// The mathematical value of an [`OscArg`].
pub enum SpecArg {
    Int(i32),
    Float(u32),
    String(Seq<char>),
    Blob(Seq<u8>),
    Time(OscTime),
    Long(i64),
    Double(u64),
    Char(char),
    Color(OscColor),
    Midi(OscMidiMessage),
    Bool(bool),
    Array(Seq<SpecArg>),
    Nil,
    Inf,
}

impl View for OscArg {
    type V = SpecArg;

    open spec fn view(&self) -> SpecArg
        decreases self,
    {
        match self {
            OscArg::Int(v) => SpecArg::Int(*v),
            OscArg::Float(v) => SpecArg::Float(*v),
            OscArg::String(s) => SpecArg::String(s@),
            OscArg::Blob(b) => SpecArg::Blob(b@),
            OscArg::Time(t) => SpecArg::Time(*t),
            OscArg::Long(v) => SpecArg::Long(*v),
            OscArg::Double(v) => SpecArg::Double(*v),
            OscArg::Char(c) => SpecArg::Char(*c),
            OscArg::Color(c) => SpecArg::Color(*c),
            OscArg::Midi(m) => SpecArg::Midi(*m),
            OscArg::Bool(b) => SpecArg::Bool(*b),
            OscArg::Array(items) => SpecArg::Array(
                Seq::new(
                    items@.len(),
                    |i: int|
                        if 0 <= i < items@.len() {
                            items@[i].view()
                        } else {
                            SpecArg::Nil
                        },
                ),
            ),
            OscArg::Nil => SpecArg::Nil,
            OscArg::Inf => SpecArg::Inf,
        }
    }
}

/// The values of a sequence of arguments.
pub open spec fn args_view(args: Seq<OscArg>) -> Seq<SpecArg> {
    args.map_values(|a: OscArg| a@)
}

/// Which variant an argument is, as a number (its discriminant).
pub open spec fn kind(a: SpecArg) -> int {
    match a {
        SpecArg::Int(_) => 0,
        SpecArg::Float(_) => 1,
        SpecArg::String(_) => 2,
        SpecArg::Blob(_) => 3,
        SpecArg::Time(_) => 4,
        SpecArg::Long(_) => 5,
        SpecArg::Double(_) => 6,
        SpecArg::Char(_) => 7,
        SpecArg::Color(_) => 8,
        SpecArg::Midi(_) => 9,
        SpecArg::Bool(_) => 10,
        SpecArg::Array(_) => 11,
        SpecArg::Nil => 12,
        SpecArg::Inf => 13,
    }
}

/// The OSC type tag of an argument; an array has none.
pub open spec fn type_tag(a: SpecArg) -> Option<char> {
    match a {
        SpecArg::Int(_) => Some('i'),
        SpecArg::Float(_) => Some('f'),
        SpecArg::String(_) => Some('s'),
        SpecArg::Blob(_) => Some('b'),
        SpecArg::Time(_) => Some('t'),
        SpecArg::Long(_) => Some('h'),
        SpecArg::Double(_) => Some('d'),
        SpecArg::Char(_) => Some('c'),
        SpecArg::Color(_) => Some('r'),
        SpecArg::Midi(_) => Some('m'),
        SpecArg::Bool(b) => Some(if b { 'T' } else { 'F' }),
        SpecArg::Array(_) => None,
        SpecArg::Nil => Some('N'),
        SpecArg::Inf => Some('I'),
    }
}

/// The characters that name an argument type.
pub open spec fn is_type_tag(c: char) -> bool {
    ||| c == 'i'
    ||| c == 'f'
    ||| c == 's'
    ||| c == 'b'
    ||| c == 't'
    ||| c == 'h'
    ||| c == 'd'
    ||| c == 'c'
    ||| c == 'r'
    ||| c == 'm'
    ||| c == 'T'
    ||| c == 'F'
    ||| c == 'N'
    ||| c == 'I'
}

/// The zero value of the type that a tag names.
pub open spec fn default_for_tag(c: char) -> SpecArg
    recommends
        is_type_tag(c),
{
    if c == 'i' {
        SpecArg::Int(0)
    } else if c == 'f' {
        SpecArg::Float(0)
    } else if c == 's' {
        SpecArg::String(Seq::empty())
    } else if c == 'b' {
        SpecArg::Blob(Seq::empty())
    } else if c == 't' {
        SpecArg::Time(OscTime { seconds: 0, fractional: 0 })
    } else if c == 'h' {
        SpecArg::Long(0)
    } else if c == 'd' {
        SpecArg::Double(0)
    } else if c == 'c' {
        SpecArg::Char('\0')
    } else if c == 'r' {
        SpecArg::Color(OscColor { red: 0, green: 0, blue: 0, alpha: 0 })
    } else if c == 'm' {
        SpecArg::Midi(OscMidiMessage { port: 0, status: 0, data1: 0, data2: 0 })
    } else if c == 'T' {
        SpecArg::Bool(true)
    } else if c == 'F' {
        SpecArg::Bool(false)
    } else if c == 'N' {
        SpecArg::Nil
    } else {
        SpecArg::Inf
    }
}

/// Integers and floating-point numbers of either width.
pub open spec fn is_numerical(a: SpecArg) -> bool {
    ||| a is Int
    ||| a is Float
    ||| a is Long
    ||| a is Double
}

/// Two arguments can be coerced into one another when they are the same
/// variant, or when both are numbers.
pub open spec fn coercible(a: SpecArg, b: SpecArg) -> bool {
    kind(a) == kind(b) || (is_numerical(a) && is_numerical(b))
}

/// A conversion that involves a floating-point number. Floating-point values
/// are carried by their bit pattern; the conversion itself is left to the
/// caller, who applies Rust's `as` cast (after `round` where the target is an
/// integer) to the decoded value.
#[derive(Clone, Copy, Debug, PartialEq, Eq, Structural)]
pub enum FloatCast {
    /// `a as f32`
    IntToFloat(i32),
    /// `a as f64`
    IntToDouble(i32),
    /// `a as f32`
    LongToFloat(i64),
    /// `a as f64`
    LongToDouble(i64),
    /// `f32::from_bits(a).round() as i32`
    FloatToInt(u32),
    /// `f32::from_bits(a).round() as i64`
    FloatToLong(u32),
    /// `f32::from_bits(a) as f64`
    FloatToDouble(u32),
    /// `f64::from_bits(a).round() as i32`
    DoubleToInt(u64),
    /// `f64::from_bits(a) as f32`
    DoubleToFloat(u64),
    /// `f64::from_bits(a).round() as i64`
    DoubleToLong(u64),
}

/// The result of coercing one argument: a value, or a floating-point
/// conversion still to be applied.
#[derive(Debug)]
pub enum Coerced {
    Value(OscArg),
    Cast(FloatCast),
}

/// The mathematical value of a [`Coerced`].
pub enum SpecCoerced {
    Value(SpecArg),
    Cast(FloatCast),
}

impl View for Coerced {
    type V = SpecCoerced;

    open spec fn view(&self) -> SpecCoerced {
        match self {
            Coerced::Value(v) => SpecCoerced::Value(v@),
            Coerced::Cast(c) => SpecCoerced::Cast(*c),
        }
    }
}

/// The values of a sequence of coerced arguments.
pub open spec fn coerced_view(s: Seq<Coerced>) -> Seq<SpecCoerced> {
    s.map_values(|c: Coerced| c@)
}

/// The variant that a coerced argument has once any cast is applied.
pub open spec fn coerced_kind(c: SpecCoerced) -> int {
    match c {
        SpecCoerced::Value(v) => kind(v),
        SpecCoerced::Cast(f) => match f {
            FloatCast::IntToFloat(_) => 1,
            FloatCast::LongToFloat(_) => 1,
            FloatCast::DoubleToFloat(_) => 1,
            FloatCast::IntToDouble(_) => 6,
            FloatCast::LongToDouble(_) => 6,
            FloatCast::FloatToDouble(_) => 6,
            FloatCast::FloatToInt(_) => 0,
            FloatCast::DoubleToInt(_) => 0,
            FloatCast::FloatToLong(_) => 5,
            FloatCast::DoubleToLong(_) => 5,
        },
    }
}

/// Coercion of `from` to the type of `to`. Pairs of numbers convert;
/// every other pair gives the integer zero.
pub open spec fn coerce_value(from: SpecArg, to: SpecArg) -> SpecCoerced {
    match from {
        SpecArg::Int(a) => match to {
            SpecArg::Float(_) => SpecCoerced::Cast(FloatCast::IntToFloat(a)),
            SpecArg::Long(_) => SpecCoerced::Value(SpecArg::Long(a as i64)),
            SpecArg::Double(_) => SpecCoerced::Cast(FloatCast::IntToDouble(a)),
            _ => SpecCoerced::Value(SpecArg::Int(0)),
        },
        SpecArg::Float(a) => match to {
            SpecArg::Int(_) => SpecCoerced::Cast(FloatCast::FloatToInt(a)),
            SpecArg::Long(_) => SpecCoerced::Cast(FloatCast::FloatToLong(a)),
            SpecArg::Double(_) => SpecCoerced::Cast(FloatCast::FloatToDouble(a)),
            _ => SpecCoerced::Value(SpecArg::Int(0)),
        },
        SpecArg::Long(a) => match to {
            SpecArg::Int(_) => SpecCoerced::Value(SpecArg::Int(a as i32)),
            SpecArg::Float(_) => SpecCoerced::Cast(FloatCast::LongToFloat(a)),
            SpecArg::Double(_) => SpecCoerced::Cast(FloatCast::LongToDouble(a)),
            _ => SpecCoerced::Value(SpecArg::Int(0)),
        },
        SpecArg::Double(a) => match to {
            SpecArg::Int(_) => SpecCoerced::Cast(FloatCast::DoubleToInt(a)),
            SpecArg::Float(_) => SpecCoerced::Cast(FloatCast::DoubleToFloat(a)),
            SpecArg::Long(_) => SpecCoerced::Cast(FloatCast::DoubleToLong(a)),
            _ => SpecCoerced::Value(SpecArg::Int(0)),
        },
        _ => SpecCoerced::Value(SpecArg::Int(0)),
    }
}

/// What becomes of one received argument `a` when the handler expects the
/// type tagged `t`: kept as it is when its tag is `t`, coerced when the two
/// types are coercible, dropped otherwise.
pub open spec fn coerce_step(a: SpecArg, t: char) -> Option<SpecCoerced> {
    if type_tag(a) == Some(t) {
        Some(SpecCoerced::Value(a))
    } else if coercible(a, default_for_tag(t)) {
        Some(coerce_value(a, default_for_tag(t)))
    } else {
        None
    }
}

pub open spec fn shared_len(a: int, b: int) -> int {
    if a < b {
        a
    } else {
        b
    }
}

/// The coerced arguments of the first `n` positions, in order, without the
/// dropped ones.
pub open spec fn coerce_list(args: Seq<SpecArg>, types: Seq<char>, n: nat) -> Seq<SpecCoerced>
    decreases n,
{
    if n == 0 {
        Seq::empty()
    } else {
        let prev = coerce_list(args, types, (n - 1) as nat);
        match coerce_step(args[n - 1], types[n - 1]) {
            Some(c) => prev.push(c),
            None => prev,
        }
    }
}

/// The expected type tags of the positions below `n` whose argument is
/// dropped by coercion, in order.
pub open spec fn dropped_tags(args: Seq<SpecArg>, types: Seq<char>, n: nat) -> Seq<char>
    decreases n,
{
    if n == 0 {
        Seq::empty()
    } else {
        let prev = dropped_tags(args, types, (n - 1) as nat);
        match coerce_step(args[n - 1], types[n - 1]) {
            Some(_) => prev,
            None => prev.push(types[n - 1]),
        }
    }
}

/// The expected type tags of all dropped arguments.
pub open spec fn dropped_all(args: Seq<SpecArg>, types: Seq<char>) -> Seq<char> {
    dropped_tags(args, types, shared_len(args.len() as int, types.len() as int) as nat)
}

/// Coercion is defined on the positions that both lists share when each
/// requested tag names a type and no received argument is an array.
pub open spec fn coercion_defined(args: Seq<SpecArg>, types: Seq<char>) -> bool {
    forall|i: int|
        0 <= i < shared_len(args.len() as int, types.len() as int) ==> is_type_tag(#[trigger] types[i])
            && !(args[i] is Array)
}

/// All coerced arguments of `args` against `types`.
pub open spec fn coerce_all(args: Seq<SpecArg>, types: Seq<char>) -> Seq<SpecCoerced> {
    coerce_list(args, types, shared_len(args.len() as int, types.len() as int) as nat)
}

/// The type tag of an argument. Arrays have no tag and are not accepted.
pub fn osc_type_to_char(osc_type: &OscArg) -> (c: char)
    requires
        !(osc_type@ is Array),
    ensures
        type_tag(osc_type@) == Some(c),
{
    match osc_type {
        OscArg::Int(_) => 'i',
        OscArg::Float(_) => 'f',
        OscArg::String(_) => 's',
        OscArg::Blob(_) => 'b',
        OscArg::Time(_) => 't',
        OscArg::Long(_) => 'h',
        OscArg::Double(_) => 'd',
        OscArg::Char(_) => 'c',
        OscArg::Color(_) => 'r',
        OscArg::Midi(_) => 'm',
        OscArg::Bool(val) => if *val {
            'T'
        } else {
            'F'
        },
        OscArg::Nil => 'N',
        OscArg::Inf => 'I',
        OscArg::Array(_) => {
            proof {
                assert(false);
            }
            'N'
        },
    }
}

/// The zero value of the type named by a type tag.
pub fn char_to_osc_type(osc_type: char) -> (r: OscArg)
    requires
        is_type_tag(osc_type),
    ensures
        r@ == default_for_tag(osc_type),
{
    if osc_type == 'i' {
        OscArg::Int(0)
    } else if osc_type == 'f' {
        OscArg::Float(0)
    } else if osc_type == 's' {
        let s = String::new();
        OscArg::String(s)
    } else if osc_type == 'b' {
        let v: Vec<u8> = Vec::new();
        proof {
            assert(v@ =~= Seq::<u8>::empty());
        }
        OscArg::Blob(v)
    } else if osc_type == 't' {
        OscArg::Time(OscTime { seconds: 0, fractional: 0 })
    } else if osc_type == 'h' {
        OscArg::Long(0)
    } else if osc_type == 'd' {
        OscArg::Double(0)
    } else if osc_type == 'c' {
        OscArg::Char('\0')
    } else if osc_type == 'r' {
        OscArg::Color(OscColor { red: 0, green: 0, blue: 0, alpha: 0 })
    } else if osc_type == 'm' {
        OscArg::Midi(OscMidiMessage { port: 0, status: 0, data1: 0, data2: 0 })
    } else if osc_type == 'T' {
        OscArg::Bool(true)
    } else if osc_type == 'F' {
        OscArg::Bool(false)
    } else if osc_type == 'N' {
        OscArg::Nil
    } else {
        OscArg::Inf
    }
}

/// The discriminant of an argument.
fn kind_of(a: &OscArg) -> (k: u8)
    ensures
        k == kind(a@),
{
    match a {
        OscArg::Int(_) => 0,
        OscArg::Float(_) => 1,
        OscArg::String(_) => 2,
        OscArg::Blob(_) => 3,
        OscArg::Time(_) => 4,
        OscArg::Long(_) => 5,
        OscArg::Double(_) => 6,
        OscArg::Char(_) => 7,
        OscArg::Color(_) => 8,
        OscArg::Midi(_) => 9,
        OscArg::Bool(_) => 10,
        OscArg::Array(_) => 11,
        OscArg::Nil => 12,
        OscArg::Inf => 13,
    }
}

/// Whether two arguments can be coerced into one another.
pub fn osctype_is_coercible(a: &OscArg, b: &OscArg) -> (r: bool)
    ensures
        r == coercible(a@, b@),
{
    if kind_of(a) == kind_of(b) {
        return true;
    }
    if osctype_is_numerical(a) && osctype_is_numerical(b) {
        return true;
    }
    false
}

/// Whether an argument is a number.
pub fn osctype_is_numerical(a: &OscArg) -> (r: bool)
    ensures
        r == is_numerical(a@),
{
    match a {
        OscArg::Int(_) | OscArg::Float(_) | OscArg::Long(_) | OscArg::Double(_) => true,
        _ => false,
    }
}

/// Coerces `from` to the type of `to`.
pub fn osctype_coerce(from: &OscArg, to: &OscArg) -> (r: Coerced)
    ensures
        r@ == coerce_value(from@, to@),
{
    match from {
        OscArg::Int(a) => match to {
            OscArg::Float(_) => Coerced::Cast(FloatCast::IntToFloat(*a)),
            OscArg::Long(_) => Coerced::Value(OscArg::Long(*a as i64)),
            OscArg::Double(_) => Coerced::Cast(FloatCast::IntToDouble(*a)),
            _ => Coerced::Value(OscArg::Int(0)),
        },
        OscArg::Float(a) => match to {
            OscArg::Int(_) => Coerced::Cast(FloatCast::FloatToInt(*a)),
            OscArg::Long(_) => Coerced::Cast(FloatCast::FloatToLong(*a)),
            OscArg::Double(_) => Coerced::Cast(FloatCast::FloatToDouble(*a)),
            _ => Coerced::Value(OscArg::Int(0)),
        },
        OscArg::Long(a) => match to {
            OscArg::Int(_) => Coerced::Value(OscArg::Int(*a as i32)),
            OscArg::Float(_) => Coerced::Cast(FloatCast::LongToFloat(*a)),
            OscArg::Double(_) => Coerced::Cast(FloatCast::LongToDouble(*a)),
            _ => Coerced::Value(OscArg::Int(0)),
        },
        OscArg::Double(a) => match to {
            OscArg::Int(_) => Coerced::Cast(FloatCast::DoubleToInt(*a)),
            OscArg::Float(_) => Coerced::Cast(FloatCast::DoubleToFloat(*a)),
            OscArg::Long(_) => Coerced::Cast(FloatCast::DoubleToLong(*a)),
            _ => Coerced::Value(OscArg::Int(0)),
        },
        _ => Coerced::Value(OscArg::Int(0)),
    }
}

/// A copy of a bytes vector.
fn copy_bytes(b: &Vec<u8>) -> (r: Vec<u8>)
    ensures
        r@ == b@,
{
    let mut r: Vec<u8> = Vec::new();
    let mut i: usize = 0;
    while i < b.len()
        invariant
            i <= b.len(),
            r@ == b@.subrange(0, i as int),
        decreases b.len() - i,
    {
        r.push(b[i]);
        i = i + 1;
        proof {
            assert(r@ =~= b@.subrange(0, i as int));
        }
    }
    proof {
        assert(r@ =~= b@);
    }
    r
}

/// A copy of an argument.
pub fn copy_arg(a: &OscArg) -> (r: OscArg)
    ensures
        r@ == a@,
    decreases a,
{
    match a {
        OscArg::Int(v) => OscArg::Int(*v),
        OscArg::Float(v) => OscArg::Float(*v),
        OscArg::String(s) => OscArg::String(s.clone()),
        OscArg::Blob(b) => OscArg::Blob(copy_bytes(b)),
        OscArg::Time(t) => OscArg::Time(*t),
        OscArg::Long(v) => OscArg::Long(*v),
        OscArg::Double(v) => OscArg::Double(*v),
        OscArg::Char(c) => OscArg::Char(*c),
        OscArg::Color(c) => OscArg::Color(*c),
        OscArg::Midi(m) => OscArg::Midi(*m),
        OscArg::Bool(b) => OscArg::Bool(*b),
        OscArg::Nil => OscArg::Nil,
        OscArg::Inf => OscArg::Inf,
        OscArg::Array(items) => {
            let mut out: Vec<OscArg> = Vec::new();
            let mut i: usize = 0;
            proof {
                assert(a->Array_0 == *items);
                assert(decreases_to!(*a => a->Array_0));
            }
            while i < items.len()
                invariant
                    i <= items@.len(),
                    out@.len() == i,
                    decreases_to!(*a => *items),
                    *a == OscArg::Array(*items),
                    forall|j: int| 0 <= j < i ==> (#[trigger] out@[j])@ == items@[j]@,
                decreases items.len() - i,
            {
                proof {
                    assert(decreases_to!(*items => items[i as int]));
                }
                let c = copy_arg(&items[i]);
                out.push(c);
                i = i + 1;
            }
            let r = OscArg::Array(out);
            proof {
                lemma_array_items(*a);
                lemma_array_items(r);
                assert(r@->Array_0 =~= a@->Array_0);
            }
            r
        },
    }
}

/// The value of an array argument is the sequence of its items' values.
proof fn lemma_array_items(a: OscArg)
    requires
        a is Array,
    ensures
        a@ is Array,
        a@->Array_0.len() == a->Array_0@.len(),
        forall|j: int| 0 <= j < a->Array_0@.len() ==> #[trigger] a@->Array_0[j] == a->Array_0@[j]@,
{
    reveal_with_fuel(<OscArg as View>::view, 2);
}

/// An argument is an array exactly when its value is.
proof fn lemma_array_view(a: OscArg)
    ensures
        (a is Array) == (a@ is Array),
{
}

/// Whether [`coerce_arguments`] is defined on these lists (see
/// [`coercion_defined`]).
pub fn coercion_is_defined(src_list: &[OscArg], types: &[char]) -> (r: bool)
    ensures
        r == coercion_defined(args_view(src_list@), types@),
{
    let n = if src_list.len() < types.len() {
        src_list.len()
    } else {
        types.len()
    };
    let ghost args = args_view(src_list@);
    let mut i: usize = 0;
    while i < n
        invariant
            n == shared_len(src_list@.len() as int, types@.len() as int),
            args == args_view(src_list@),
            args.len() == src_list@.len(),
            i <= n,
            forall|j: int| 0 <= j < i ==> is_type_tag(#[trigger] types@[j]) && !(args[j] is Array),
        decreases n - i,
    {
        let is_array = match &src_list[i] {
            OscArg::Array(_) => true,
            _ => false,
        };
        let tag = types[i];
        proof {
            assert(args[i as int] == src_list@[i as int]@);
            lemma_array_view(src_list@[i as int]);
            assert(is_array == (args[i as int] is Array));
            assert(tag == types@[i as int]);
        }
        if !is_tag_char(tag) || is_array {
            return false;
        }
        assert(is_type_tag(types@[i as int]) && !(args[i as int] is Array));
        i = i + 1;
    }
    proof {
        assert(coercion_defined(args, types@));
    }
    true
}

/// Whether a character names an argument type.
pub fn is_tag_char(c: char) -> (r: bool)
    ensures
        r == is_type_tag(c),
{
    c == 'i' || c == 'f' || c == 's' || c == 'b' || c == 't' || c == 'h' || c == 'd' || c == 'c'
        || c == 'r' || c == 'm' || c == 'T' || c == 'F' || c == 'N' || c == 'I'
}

/// Coerces received arguments to the types a handler expects, position by
/// position over the positions both lists share. An argument that already
/// has the expected tag is kept, one of a coercible type is coerced, any
/// other is dropped.
pub fn coerce_arguments(src_list: &[OscArg], types: &[char]) -> (r: Vec<Coerced>)
    requires
        coercion_defined(args_view(src_list@), types@),
    ensures
        coerced_view(r@) == coerce_all(args_view(src_list@), types@),
{
    let mut coerced_arguments: Vec<Coerced> = Vec::new();
    let min_len = if src_list.len() < types.len() {
        src_list.len()
    } else {
        types.len()
    };
    let ghost args = args_view(src_list@);
    let mut i: usize = 0;
    while i < min_len
        invariant
            min_len == shared_len(src_list@.len() as int, types@.len() as int),
            args == args_view(src_list@),
            coercion_defined(args, types@),
            i <= min_len,
            coerced_view(coerced_arguments@) == coerce_list(args, types@, i as nat),
        decreases min_len - i,
    {
        assert(is_type_tag(types@[i as int]));
        assert(args[i as int] == src_list@[i as int]@);
        let temp_destination_type = char_to_osc_type(types[i]);
        let ghost before = coerced_arguments@;
        if osc_type_to_char(&src_list[i]) == types[i] {
            coerced_arguments.push(Coerced::Value(copy_arg(&src_list[i])));
            proof {
                assert(coerced_view(coerced_arguments@) =~= coerced_view(before).push(
                    coerced_arguments@.last()@,
                ));
            }
        } else if osctype_is_coercible(&src_list[i], &temp_destination_type) {
            coerced_arguments.push(osctype_coerce(&src_list[i], &temp_destination_type));
            proof {
                assert(coerced_view(coerced_arguments@) =~= coerced_view(before).push(
                    coerced_arguments@.last()@,
                ));
            }
        }
        i = i + 1;
    }
    coerced_arguments
}

/// The expected type tags of the arguments that [`coerce_arguments`] drops
/// (neither of the expected tag nor coercible to it), in order.
pub fn unsupported_arguments(src_list: &[OscArg], types: &[char]) -> (r: Vec<char>)
    requires
        coercion_defined(args_view(src_list@), types@),
    ensures
        r@ == dropped_all(args_view(src_list@), types@),
{
    let mut dropped: Vec<char> = Vec::new();
    let n = if src_list.len() < types.len() {
        src_list.len()
    } else {
        types.len()
    };
    let ghost args = args_view(src_list@);
    let mut i: usize = 0;
    while i < n
        invariant
            n == shared_len(src_list@.len() as int, types@.len() as int),
            args == args_view(src_list@),
            coercion_defined(args, types@),
            i <= n,
            dropped@ == dropped_tags(args, types@, i as nat),
        decreases n - i,
    {
        assert(is_type_tag(types@[i as int]));
        assert(args[i as int] == src_list@[i as int]@);
        let target = char_to_osc_type(types[i]);
        if osc_type_to_char(&src_list[i]) != types[i] && !osctype_is_coercible(&src_list[i], &target) {
            dropped.push(types[i]);
        }
        i = i + 1;
    }
    dropped
}

/// The type tag string of a list of arguments, none of them an array.
pub fn type_tags(args: &[OscArg]) -> (r: Vec<char>)
    requires
        forall|i: int| 0 <= i < args@.len() ==> !(#[trigger] args@[i]@ is Array),
    ensures
        r@.len() == args@.len(),
        forall|i: int| 0 <= i < args@.len() ==> Some(#[trigger] r@[i]) == type_tag(args@[i]@),
{
    let mut tags: Vec<char> = Vec::new();
    let mut i: usize = 0;
    while i < args.len()
        invariant
            i <= args@.len(),
            forall|j: int| 0 <= j < args@.len() ==> !(#[trigger] args@[j]@ is Array),
            tags@.len() == i,
            forall|j: int| 0 <= j < i ==> Some(#[trigger] tags@[j]) == type_tag(args@[j]@),
        decreases args.len() - i,
    {
        let c = osc_type_to_char(&args[i]);
        tags.push(c);
        i = i + 1;
    }
    tags
}

/// A floating-point argument that a handler expects as another kind of
/// number is converted from its own value, by the cast to the expected kind
/// (rounded where that kind is an integer), and never by reading its bit
/// pattern as an integer.
pub proof fn lemma_floats_cast_from_their_value(f: u32, d: u64)
    ensures
        coerce_step(SpecArg::Float(f), 'i') == Some(SpecCoerced::Cast(FloatCast::FloatToInt(f))),
        coerce_step(SpecArg::Float(f), 'h') == Some(SpecCoerced::Cast(FloatCast::FloatToLong(f))),
        coerce_step(SpecArg::Float(f), 'd') == Some(SpecCoerced::Cast(FloatCast::FloatToDouble(f))),
        coerce_step(SpecArg::Double(d), 'i') == Some(SpecCoerced::Cast(FloatCast::DoubleToInt(d))),
        coerce_step(SpecArg::Double(d), 'h') == Some(SpecCoerced::Cast(FloatCast::DoubleToLong(d))),
        coerce_step(SpecArg::Double(d), 'f') == Some(SpecCoerced::Cast(FloatCast::DoubleToFloat(d))),
{
}

/// An integer argument that a handler expects as a floating-point number
/// is cast from its value; one expected as the other width of integer keeps
/// its value when it fits.
pub proof fn lemma_integers_keep_their_value(i: i32, l: i64)
    ensures
        coerce_step(SpecArg::Int(i), 'f') == Some(SpecCoerced::Cast(FloatCast::IntToFloat(i))),
        coerce_step(SpecArg::Int(i), 'd') == Some(SpecCoerced::Cast(FloatCast::IntToDouble(i))),
        coerce_step(SpecArg::Long(l), 'f') == Some(SpecCoerced::Cast(FloatCast::LongToFloat(l))),
        coerce_step(SpecArg::Long(l), 'd') == Some(SpecCoerced::Cast(FloatCast::LongToDouble(l))),
        coerce_step(SpecArg::Int(i), 'h') matches Some(SpecCoerced::Value(SpecArg::Long(x))) && x == i,
        i32::MIN <= l <= i32::MAX ==> (coerce_step(SpecArg::Long(l), 'i') matches Some(
            SpecCoerced::Value(SpecArg::Int(x)),
        ) && x == l),
{
}

/// A type tag names the type of its own zero value.
pub proof fn lemma_tag_of_default(c: char)
    requires
        is_type_tag(c),
    ensures
        type_tag(default_for_tag(c)) == Some(c),
{
}

/// The zero value named by an argument's tag is of the argument's own variant.
pub proof fn lemma_default_of_tag(a: SpecArg)
    requires
        !(a is Array),
    ensures
        is_type_tag(type_tag(a).unwrap()),
        kind(default_for_tag(type_tag(a).unwrap())) == kind(a),
{
}

/// Coercing an integer to a long integer and back gives the integer.
pub proof fn lemma_int_long_roundtrip(a: i32)
    ensures
        coerce_value(SpecArg::Int(a), SpecArg::Long(0)) == SpecCoerced::Value(SpecArg::Long(a as i64)),
        coerce_value(SpecArg::Long(a as i64), SpecArg::Int(0)) == SpecCoerced::Value(SpecArg::Int(a)),
{
}

/// A number requested as a number arrives as the requested kind of number.
pub proof fn lemma_numbers_reach_requested_type(a: SpecArg, t: char)
    requires
        is_numerical(a),
        is_type_tag(t),
        is_numerical(default_for_tag(t)),
    ensures
        coerce_step(a, t) is Some,
        coerced_kind(coerce_step(a, t).unwrap()) == kind(default_for_tag(t)),
{
}

/// An argument that carries the requested tag is passed on unchanged.
pub proof fn lemma_matching_tag_kept(a: SpecArg, t: char)
    requires
        type_tag(a) == Some(t),
    ensures
        coerce_step(a, t) == Some(SpecCoerced::Value(a)),
{
}

/// Arguments that already carry the expected tags, as many as expected, are
/// passed on unchanged.
pub proof fn lemma_well_typed_arguments_unchanged(args: Seq<SpecArg>, types: Seq<char>)
    requires
        args.len() == types.len(),
        forall|i: int| 0 <= i < args.len() ==> type_tag(#[trigger] args[i]) == Some(types[i]),
    ensures
        coerce_all(args, types) == args.map_values(|a: SpecArg| SpecCoerced::Value(a)),
{
    lemma_coerce_list_identity(args, types, args.len());
    assert(args.take(args.len() as int) =~= args);
}

proof fn lemma_coerce_list_identity(args: Seq<SpecArg>, types: Seq<char>, n: nat)
    requires
        n <= args.len(),
        args.len() == types.len(),
        forall|i: int| 0 <= i < args.len() ==> type_tag(#[trigger] args[i]) == Some(types[i]),
    ensures
        coerce_list(args, types, n) == args.take(n as int).map_values(|a: SpecArg| SpecCoerced::Value(a)),
    decreases n,
{
    if n > 0 {
        lemma_coerce_list_identity(args, types, (n - 1) as nat);
        assert(type_tag(args[n - 1]) == Some(types[n - 1]));
        assert(args.take(n as int).map_values(|a: SpecArg| SpecCoerced::Value(a)) =~= args.take(
            (n - 1) as int,
        ).map_values(|a: SpecArg| SpecCoerced::Value(a)).push(SpecCoerced::Value(args[n - 1])));
    } else {
        assert(args.take(0).map_values(|a: SpecArg| SpecCoerced::Value(a)) =~= Seq::<SpecCoerced>::empty());
    }
}

} // verus!
