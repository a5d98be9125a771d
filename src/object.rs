use vstd::prelude::*;
use crate::ast::{BlockStatement, NodeModel};
use crate::render::{bool_text, items_text, names_text};
use crate::text::{decimal, decimal_string, owned, push_str};

verus! {

/// A runtime value of the language.
pub enum Value {
    Int(i64),
    Bool(bool),
    /// A value on its way out of a function body.
    Ret(Box<Value>),
    /// Parameters, body, and the scope the function was defined in.
    Func(Seq<Seq<char>>, Seq<NodeModel>, nat),
    Null,
    Failure(Seq<char>),
}

#[derive(Debug, PartialEq, Eq, Structural, Clone, Copy)]
pub enum ObjectType {
    Integer,
    Boolean,
    Return,
    Function,
    Null,
    Error,
}

pub open spec fn type_of(v: Value) -> ObjectType {
    match v {
        Value::Int(_) => ObjectType::Integer,
        Value::Bool(_) => ObjectType::Boolean,
        Value::Ret(_) => ObjectType::Return,
        Value::Func(..) => ObjectType::Function,
        Value::Null => ObjectType::Null,
        Value::Failure(_) => ObjectType::Error,
    }
}

/// The name of a value's type, as error messages print it.
pub open spec fn kind_name(t: ObjectType) -> Seq<char> {
    match t {
        ObjectType::Integer => "Integer"@,
        ObjectType::Boolean => "Boolean"@,
        ObjectType::Return => "Return"@,
        ObjectType::Function => "Function"@,
        ObjectType::Null => "Null"@,
        ObjectType::Error => "Error"@,
    }
}

/// The text shown for a value.
pub open spec fn inspect_text(v: Value) -> Seq<char>
    decreases v,
{
    match v {
        Value::Int(i) => decimal(i as int),
        Value::Bool(b) => bool_text(b),
        Value::Ret(inner) => inspect_text(*inner),
        Value::Func(ps, body, _) => "fn ("@ + names_text(ps) + ") {\n"@ + items_text(body) + "\n}"@,
        Value::Null => "null"@,
        Value::Failure(m) => m,
    }
}

#[derive(Debug)]
pub enum Object {
    Integer(Integer),
    Boolean(Boolean),
    Return(Return),
    Function(Function),
    Null(Null),
    Error(Error),
}

#[derive(Debug, PartialEq, Eq, Structural, Clone, Copy)]
pub struct Integer {
    pub value: i64,
}

#[derive(Debug, PartialEq, Eq, Structural, Clone, Copy)]
pub struct Boolean {
    pub value: bool,
}

#[derive(Debug)]
pub struct Return {
    pub value: Box<Object>,
}

/// A function value: its parameter names, its body, and the index of the scope it was
/// defined in, within the environment that evaluated it.
#[derive(Debug)]
pub struct Function {
    pub parameters: Vec<String>,
    pub body: BlockStatement,
    pub env: usize,
}

#[derive(Debug, PartialEq, Eq, Structural, Clone, Copy)]
pub struct Null {}

#[derive(Debug)]
pub struct Error {
    pub message: String,
}

pub open spec fn strings_model(v: Seq<String>) -> Seq<Seq<char>> {
    Seq::new(v.len(), |i: int| v[i]@)
}

impl Function {
    pub open spec fn model(&self) -> Value {
        Value::Func(strings_model(self.parameters@), self.body.model(), self.env as nat)
    }
}

impl Object {
    pub open spec fn model(&self) -> Value
        decreases self,
    {
        match self {
            Object::Integer(i) => Value::Int(i.value),
            Object::Boolean(b) => Value::Bool(b.value),
            Object::Return(r) => Value::Ret(Box::new(r.value.model())),
            Object::Function(f) => f.model(),
            Object::Null(_) => Value::Null,
            Object::Error(e) => Value::Failure(e.message@),
        }
    }

    pub fn object_type(&self) -> (r: ObjectType)
        ensures
            r == type_of(self.model()),
    {
        match self {
            Object::Integer(i) => i.object_type(),
            Object::Boolean(b) => b.object_type(),
            Object::Return(r) => r.object_type(),
            Object::Function(f) => f.object_type(),
            Object::Null(n) => n.object_type(),
            Object::Error(e) => e.object_type(),
        }
    }

    /// The text shown for this value.
    pub fn inspect(&self) -> (r: String)
        ensures
            r@ == inspect_text(self.model()),
        decreases self,
    {
        match self {
            Object::Integer(i) => decimal_string(i.value),
            Object::Boolean(b) => {
                if b.value {
                    owned("true")
                } else {
                    owned("false")
                }
            },
            Object::Return(r) => r.value.inspect(),
            Object::Function(f) => f.inspect(),
            Object::Null(_) => owned("null"),
            Object::Error(e) => owned(e.message.as_str()),
        }
    }

    /// The payload of this value, if it is of the variant that `T` stands for.
    pub fn downcast<T: Variant>(self) -> (r: Option<T>)
        ensures
            r.is_some() <==> type_of(self.model()) == T::kind(),
            r == T::payload(self),
    {
        T::from_object(self)
    }

    /// The value carried by a return signal.
    pub fn get_return_value(&self) -> (r: Object)
        requires
            self is Return,
        ensures
            Value::Ret(Box::new(r.model())) == self.model(),
    {
        match self {
            Object::Return(r) => r.value.copy(),
            _ => Object::Null(Null {}),
        }
    }

    /// A copy of this value.
    pub fn copy(&self) -> (r: Object)
        ensures
            r.model() == self.model(),
        decreases self,
    {
        match self {
            Object::Integer(i) => Object::Integer(Integer { value: i.value }),
            Object::Boolean(b) => Object::Boolean(Boolean { value: b.value }),
            Object::Return(r) => Object::Return(Return { value: Box::new(r.value.copy()) }),
            Object::Function(f) => {
                let mut ps: Vec<String> = Vec::new();
                let mut i: usize = 0;
                while i < f.parameters.len()
                    invariant
                        i <= f.parameters@.len(),
                        ps@.len() == i,
                        forall|j: int| 0 <= j < i ==> (#[trigger] ps@[j])@ == f.parameters@[j]@,
                    decreases f.parameters.len() - i,
                {
                    ps.push(owned(f.parameters[i].as_str()));
                    i = i + 1;
                }
                assert(strings_model(ps@) =~= strings_model(f.parameters@));
                Object::Function(Function { parameters: ps, body: f.body.copy(), env: f.env })
            },
            Object::Null(_) => Object::Null(Null {}),
            Object::Error(e) => Object::Error(Error { message: owned(e.message.as_str()) }),
        }
    }
}

/// The variants of `Object` that a value can be taken out as.
pub trait Variant: Sized {
    spec fn kind() -> ObjectType;

    /// The payload of `o` when `o` is of this variant.
    spec fn payload(o: Object) -> Option<Self>;

    fn from_object(o: Object) -> (r: Option<Self>)
        ensures
            r.is_some() <==> type_of(o.model()) == Self::kind(),
            r == Self::payload(o),
    ;
}

impl Variant for Integer {
    open spec fn kind() -> ObjectType {
        ObjectType::Integer
    }

    open spec fn payload(o: Object) -> Option<Integer> {
        match o {
            Object::Integer(x) => Some(x),
            _ => None,
        }
    }

    fn from_object(o: Object) -> (r: Option<Integer>) {
        match o {
            Object::Integer(i) => Some(i),
            _ => None,
        }
    }
}

impl Variant for Boolean {
    open spec fn kind() -> ObjectType {
        ObjectType::Boolean
    }

    open spec fn payload(o: Object) -> Option<Boolean> {
        match o {
            Object::Boolean(x) => Some(x),
            _ => None,
        }
    }

    fn from_object(o: Object) -> (r: Option<Boolean>) {
        match o {
            Object::Boolean(b) => Some(b),
            _ => None,
        }
    }
}

impl Variant for Return {
    open spec fn kind() -> ObjectType {
        ObjectType::Return
    }

    open spec fn payload(o: Object) -> Option<Return> {
        match o {
            Object::Return(x) => Some(x),
            _ => None,
        }
    }

    fn from_object(o: Object) -> (r: Option<Return>) {
        match o {
            Object::Return(x) => Some(x),
            _ => None,
        }
    }
}

impl Variant for Function {
    open spec fn kind() -> ObjectType {
        ObjectType::Function
    }

    open spec fn payload(o: Object) -> Option<Function> {
        match o {
            Object::Function(x) => Some(x),
            _ => None,
        }
    }

    fn from_object(o: Object) -> (r: Option<Function>) {
        match o {
            Object::Function(f) => Some(f),
            _ => None,
        }
    }
}

impl Variant for Null {
    open spec fn kind() -> ObjectType {
        ObjectType::Null
    }

    open spec fn payload(o: Object) -> Option<Null> {
        match o {
            Object::Null(x) => Some(x),
            _ => None,
        }
    }

    fn from_object(o: Object) -> (r: Option<Null>) {
        match o {
            Object::Null(n) => Some(n),
            _ => None,
        }
    }
}

impl Variant for Error {
    open spec fn kind() -> ObjectType {
        ObjectType::Error
    }

    open spec fn payload(o: Object) -> Option<Error> {
        match o {
            Object::Error(x) => Some(x),
            _ => None,
        }
    }

    fn from_object(o: Object) -> (r: Option<Error>) {
        match o {
            Object::Error(e) => Some(e),
            _ => None,
        }
    }
}

impl Integer {
    fn inspect(&self) -> (r: String)
        ensures
            r@ == decimal(self.value as int),
    {
        decimal_string(self.value)
    }

    pub fn object_type(&self) -> (r: ObjectType)
        ensures
            r == ObjectType::Integer,
    {
        ObjectType::Integer
    }
}

impl Boolean {
    pub fn object_type(&self) -> (r: ObjectType)
        ensures
            r == ObjectType::Boolean,
    {
        ObjectType::Boolean
    }
}

impl Return {
    pub fn object_type(&self) -> (r: ObjectType)
        ensures
            r == ObjectType::Return,
    {
        ObjectType::Return
    }
}

impl Function {
    fn inspect(&self) -> (r: String)
        ensures
            r@ == inspect_text(self.model()),
    {
        let mut ps = String::new();
        let mut i: usize = 0;
        let ghost names = strings_model(self.parameters@);
        assert(names.subrange(0, 0) =~= Seq::<Seq<char>>::empty());
        while i < self.parameters.len()
            invariant
                names == strings_model(self.parameters@),
                i <= self.parameters@.len(),
                ps@ == names_text(names.subrange(0, i as int)),
            decreases self.parameters.len() - i,
        {
            proof {
                let x = names.subrange(0, i as int);
                assert(names.subrange(0, i + 1) =~= x.push(names[i as int]));
                assert(x.push(names[i as int]).subrange(0, i as int) =~= x);
            }
            if i > 0 {
                push_str(&mut ps, ", ");
            }
            push_str(&mut ps, self.parameters[i].as_str());
            i = i + 1;
        }
        assert(names.subrange(0, names.len() as int) =~= names);
        let mut s = owned("fn (");
        push_str(&mut s, ps.as_str());
        push_str(&mut s, ") {\n");
        let b = self.body.string();
        push_str(&mut s, b.as_str());
        push_str(&mut s, "\n}");
        s
    }

    pub fn object_type(&self) -> (r: ObjectType)
        ensures
            r == ObjectType::Function,
    {
        ObjectType::Function
    }
}

impl Null {
    pub fn object_type(&self) -> (r: ObjectType)
        ensures
            r == ObjectType::Null,
    {
        ObjectType::Null
    }
}

impl Error {
    pub fn object_type(&self) -> (r: ObjectType)
        ensures
            r == ObjectType::Error,
    {
        ObjectType::Error
    }
}

} // verus!
