use vstd::prelude::*;

use vstd::string::*;

use crate::error::GenError;
use crate::text::{join, join_spec, views_of};

verus! {

/// The value types of an interface description, as far as this generator reads them.
#[derive(Debug, Clone, Copy, PartialEq, Eq, Structural)]
pub enum AbstractType {
    U8,
    U16,
    U32,
    U64,
    S8,
    S16,
    S32,
    S64,
    F32,
    F64,
    Char,
    CChar,
    Usize,
    /// A resource handle, by the resource's index.
    Handle(u64),
    /// A named type, by its index.
    Id(u64),
}

/// The Java primitive types.
#[derive(Debug, Clone, Copy, PartialEq, Eq, Structural, Hash)]
pub enum JavaType {
    /// Signed 8 bit integer
    Byte,
    /// Signed 16 bit integer
    Short,
    /// Signed 32 bit integer
    Int,
    /// Signed 64 bit integer
    Long,
    /// 32 bit floating point number
    Float,
    /// 64 bit floating point number
    Double,
    /// Unsigned 16 bits
    Char,
    /// True | False
    Boolean,
}

/// The Java type that carries a value type; `None` for handles and named types.
/// Unsigned integers widen to the next signed width that holds their range.
pub open spec fn java_of(ty: AbstractType) -> Option<JavaType> {
    match ty {
        AbstractType::U8 => Some(JavaType::Short),
        AbstractType::U16 => Some(JavaType::Int),
        AbstractType::U32 => Some(JavaType::Long),
        AbstractType::U64 => Some(JavaType::Long),
        AbstractType::S8 => Some(JavaType::Byte),
        AbstractType::S16 => Some(JavaType::Short),
        AbstractType::S32 => Some(JavaType::Int),
        AbstractType::S64 => Some(JavaType::Long),
        AbstractType::F32 => Some(JavaType::Float),
        AbstractType::F64 => Some(JavaType::Double),
        AbstractType::Char => Some(JavaType::Char),
        AbstractType::CChar => Some(JavaType::Char),
        AbstractType::Usize => Some(JavaType::Long),
        AbstractType::Handle(_) => None,
        AbstractType::Id(_) => None,
    }
}

/// The keyword of a Java primitive, as a parameter or return type.
pub open spec fn keyword_of(t: JavaType) -> Seq<char> {
    match t {
        JavaType::Short => "short"@,
        JavaType::Int => "int"@,
        JavaType::Long => "long"@,
        JavaType::Byte => "byte"@,
        JavaType::Float => "float"@,
        JavaType::Double => "double"@,
        JavaType::Char => "char"@,
        JavaType::Boolean => "boolean"@,
    }
}

/// The boxed class of a Java primitive, as a generic type argument.
pub open spec fn boxed_of(t: JavaType) -> Seq<char> {
    match t {
        JavaType::Short => "Short"@,
        JavaType::Int => "Integer"@,
        JavaType::Long => "Long"@,
        JavaType::Byte => "Byte"@,
        JavaType::Float => "Float"@,
        JavaType::Double => "Double"@,
        JavaType::Char => "Character"@,
        JavaType::Boolean => "Boolean"@,
    }
}

impl JavaType {
    /// The Java type of a value type; handles and named types are refused.
    pub fn from_type(ty: AbstractType) -> (r: Result<JavaType, GenError>)
        ensures
            java_of(ty) is Some ==> r == Ok::<JavaType, GenError>(java_of(ty)->Some_0),
            java_of(ty) is None ==> r == Err::<JavaType, GenError>(GenError::UnsupportedType),
    {
        match ty {
            AbstractType::U8 => Ok(JavaType::Short),
            AbstractType::U16 => Ok(JavaType::Int),
            AbstractType::U32 => Ok(JavaType::Long),
            AbstractType::U64 => Ok(JavaType::Long),
            AbstractType::S8 => Ok(JavaType::Byte),
            AbstractType::S16 => Ok(JavaType::Short),
            AbstractType::S32 => Ok(JavaType::Int),
            AbstractType::S64 => Ok(JavaType::Long),
            AbstractType::F32 => Ok(JavaType::Float),
            AbstractType::F64 => Ok(JavaType::Double),
            AbstractType::Char => Ok(JavaType::Char),
            AbstractType::CChar => Ok(JavaType::Char),
            AbstractType::Usize => Ok(JavaType::Long),
            AbstractType::Handle(_) => Err(GenError::UnsupportedType),
            AbstractType::Id(_) => Err(GenError::UnsupportedType),
        }
    }

    pub fn for_fn_param(self) -> (r: &'static str)
        ensures
            r@ == keyword_of(self),
    {
        match self {
            JavaType::Short => "short",
            JavaType::Int => "int",
            JavaType::Long => "long",
            JavaType::Byte => "byte",
            JavaType::Float => "float",
            JavaType::Double => "double",
            JavaType::Char => "char",
            JavaType::Boolean => "boolean",
        }
    }

    pub fn for_fn_return(self) -> (r: &'static str)
        ensures
            r@ == keyword_of(self),
    {
        self.for_fn_param()
    }

    pub fn for_type_param(self) -> (r: &'static str)
        ensures
            r@ == boxed_of(self),
    {
        match self {
            JavaType::Short => "Short",
            JavaType::Int => "Integer",
            JavaType::Long => "Long",
            JavaType::Byte => "Byte",
            JavaType::Float => "Float",
            JavaType::Double => "Double",
            JavaType::Char => "Character",
            JavaType::Boolean => "Boolean",
        }
    }
}


/// The Java tuple classes of the javatuples library, by arity.
#[derive(Debug, Clone, Copy, PartialEq, Eq, Structural, Hash)]
pub enum JavaTuple {
    Unit,
    Pair,
    Triplet,
    Quartet,
    Quintet,
    Sextet,
    Septet,
    Octet,
    Ennead,
    Decade,
}

/// The name of the tuple class of arity `n`, for `1 <= n <= 10`.
pub open spec fn tuple_word(n: nat) -> Seq<char> {
    if n == 1 {
        "Unit"@
    } else if n == 2 {
        "Pair"@
    } else if n == 3 {
        "Triplet"@
    } else if n == 4 {
        "Quartet"@
    } else if n == 5 {
        "Quintet"@
    } else if n == 6 {
        "Sextet"@
    } else if n == 7 {
        "Septet"@
    } else if n == 8 {
        "Octet"@
    } else if n == 9 {
        "Ennead"@
    } else {
        "Decade"@
    }
}

/// The arity of each tuple class.
pub open spec fn tuple_arity(t: JavaTuple) -> nat {
    match t {
        JavaTuple::Unit => 1,
        JavaTuple::Pair => 2,
        JavaTuple::Triplet => 3,
        JavaTuple::Quartet => 4,
        JavaTuple::Quintet => 5,
        JavaTuple::Sextet => 6,
        JavaTuple::Septet => 7,
        JavaTuple::Octet => 8,
        JavaTuple::Ennead => 9,
        JavaTuple::Decade => 10,
    }
}

/// The boxed renderings of a sequence of Java types.
pub open spec fn boxed_all(ts: Seq<JavaType>) -> Seq<Seq<char>> {
    ts.map_values(|t: JavaType| boxed_of(t))
}

/// The generic tuple type that carries `ts`, e.g. `Triplet<Short, Integer, Float>`.
pub open spec fn tuple_text(ts: Seq<JavaType>) -> Seq<char> {
    tuple_word(ts.len()) + "<"@ + join_spec(boxed_all(ts), ", "@) + ">"@
}

impl JavaTuple {
    /// The tuple class of arity `n`, for `1 <= n <= 10`.
    pub fn for_arity(n: usize) -> (r: Option<JavaTuple>)
        ensures
            (1 <= n <= 10) <==> r is Some,
            r is Some ==> tuple_arity(r->Some_0) == n,
    {
        match n {
            1 => Some(JavaTuple::Unit),
            2 => Some(JavaTuple::Pair),
            3 => Some(JavaTuple::Triplet),
            4 => Some(JavaTuple::Quartet),
            5 => Some(JavaTuple::Quintet),
            6 => Some(JavaTuple::Sextet),
            7 => Some(JavaTuple::Septet),
            8 => Some(JavaTuple::Octet),
            9 => Some(JavaTuple::Ennead),
            10 => Some(JavaTuple::Decade),
            _ => None,
        }
    }

    pub fn to_str(self) -> (r: &'static str)
        ensures
            r@ == tuple_word(tuple_arity(self)),
    {
        match self {
            JavaTuple::Unit => "Unit",
            JavaTuple::Pair => "Pair",
            JavaTuple::Triplet => "Triplet",
            JavaTuple::Quartet => "Quartet",
            JavaTuple::Quintet => "Quintet",
            JavaTuple::Sextet => "Sextet",
            JavaTuple::Septet => "Septet",
            JavaTuple::Octet => "Octet",
            JavaTuple::Ennead => "Ennead",
            JavaTuple::Decade => "Decade",
        }
    }
}

/// An ordered sequence of Java types to be returned together as one tuple.
pub struct JavaTupleType(pub Vec<JavaType>);

impl View for JavaTupleType {
    type V = Seq<JavaType>;

    open spec fn view(&self) -> Seq<JavaType> {
        self.0@
    }
}

impl JavaTupleType {
    pub fn from(types: Vec<JavaType>) -> (r: Self)
        ensures
            r@ == types@,
    {
        JavaTupleType(types)
    }

    /// The tuple type as Java source; refused for zero or more than ten elements.
    pub fn for_ty(&self) -> (r: Result<String, GenError>)
        ensures
            (1 <= self@.len() <= 10) ==> r is Ok && r->Ok_0@ == tuple_text(self@),
            !(1 <= self@.len() <= 10) ==> r == Err::<String, GenError>(GenError::TupleArity),
    {
        let tuple = match JavaTuple::for_arity(self.0.len()) {
            Some(t) => t,
            None => return Err(GenError::TupleArity),
        };
        let mut params: Vec<String> = Vec::new();
        let mut i: usize = 0;
        while i < self.0.len()
            invariant
                i <= self.0@.len(),
                params@.len() == i,
                forall|j: int| 0 <= j < i ==> #[trigger] params@[j]@ == boxed_of(self.0@[j]),
            decreases self.0@.len() - i,
        {
            params.push(String::from_str(self.0[i].for_type_param()));
            i = i + 1;
        }
        let type_list = join(&params, ", ");
        proof {
            assert(views_of(params@) =~= boxed_all(self@));
        }
        let mut out = String::from_str(tuple.to_str());
        out.append("<");
        out.append(type_list.as_str());
        out.append(">");
        Ok(out)
    }
}

} // verus!
