//! The type model: a closed set of structurally-compared C types.

use vstd::prelude::*;

verus! {

/// Mathematical model of a C type.  Identifier text is modelled as a
/// sequence of characters, member and parameter lists as sequences.
#[verifier::ext_equal]
pub ghost enum TypeV {
    Void,
    Int,
    Char,
    Float,
    Double,
    StringLit,
    Pointer(Box<TypeV>),
    Array(Box<TypeV>, nat),
    Function { return_ty: Box<TypeV>, param_tys: Seq<TypeV> },
    Struct { name: Seq<char>, members: Seq<(Seq<char>, TypeV)> },
    TypeDef { name: Seq<char>, ty: Box<TypeV> },
    SignedChar,
    UnSignedChar,
    Short,
    UnSignedShort,
    UnSigned,
    Long,
    UnSignedLong,
    LongLong,
    UnSignedLongLong,
    LongDouble,
}

/// A C type as the analyzer computes it.  Two types are compatible exactly
/// when they are structurally equal; `type_eq` decides that.
#[derive(Debug)]
pub enum Type {
    Void,
    Int,
    Char,
    Float,
    Double,
    StringLit,
    Pointer(Box<Type>),
    Array(Box<Type>, usize),
    Function { return_ty: Box<Type>, param_tys: Vec<Type> },
    Struct { name: String, members: Vec<(String, Type)> },
    TypeDef { name: String, ty: Box<Type> },
    SignedChar,
    UnSignedChar,
    Short,
    UnSignedShort,
    UnSigned,
    Long,
    UnSignedLong,
    LongLong,
    UnSignedLongLong,
    LongDouble,
}

/// The mathematical values that a sequence of `Type`s stands for.
pub open spec fn seq_type_view(s: Seq<Type>) -> Seq<TypeV>
    decreases s,
{
    if s.len() == 0 {
        Seq::empty()
    } else {
        seq_type_view(s.drop_last()).push(type_view(s.last()))
    }
}

/// The mathematical values of a member list: each name as characters,
/// each member type as its model.
pub open spec fn seq_member_view(s: Seq<(String, Type)>) -> Seq<(Seq<char>, TypeV)>
    decreases s,
{
    if s.len() == 0 {
        Seq::empty()
    } else {
        seq_member_view(s.drop_last()).push((s.last().0@, type_view(s.last().1)))
    }
}

/// The mathematical value that a `Type` stands for.
pub open spec fn type_view(t: Type) -> TypeV
    decreases t,
{
    match t {
        Type::Void => TypeV::Void,
        Type::Int => TypeV::Int,
        Type::Char => TypeV::Char,
        Type::Float => TypeV::Float,
        Type::Double => TypeV::Double,
        Type::StringLit => TypeV::StringLit,
        Type::Pointer(inner) => TypeV::Pointer(Box::new(type_view(*inner))),
        Type::Array(inner, n) => TypeV::Array(Box::new(type_view(*inner)), n as nat),
        Type::Function { return_ty, param_tys } => {
            proof {
                assert(decreases_to!(t => param_tys));
                assert(decreases_to!(param_tys => param_tys@));
            }
            TypeV::Function {
                return_ty: Box::new(type_view(*return_ty)),
                param_tys: seq_type_view(param_tys@),
            }
        },
        Type::Struct { name, members } => {
            proof {
                assert(decreases_to!(t => members));
                assert(decreases_to!(members => members@));
            }
            TypeV::Struct { name: name@, members: seq_member_view(members@) }
        },
        Type::TypeDef { name, ty } => TypeV::TypeDef {
            name: name@,
            ty: Box::new(type_view(*ty)),
        },
        Type::SignedChar => TypeV::SignedChar,
        Type::UnSignedChar => TypeV::UnSignedChar,
        Type::Short => TypeV::Short,
        Type::UnSignedShort => TypeV::UnSignedShort,
        Type::UnSigned => TypeV::UnSigned,
        Type::Long => TypeV::Long,
        Type::UnSignedLong => TypeV::UnSignedLong,
        Type::LongLong => TypeV::LongLong,
        Type::UnSignedLongLong => TypeV::UnSignedLongLong,
        Type::LongDouble => TypeV::LongDouble,
    }
}

impl View for Type {
    type V = TypeV;

    open spec fn view(&self) -> TypeV {
        type_view(*self)
    }
}

/// `seq_type_view` maps `type_view` over the sequence, element by element.
pub proof fn lemma_seq_type_view(s: Seq<Type>)
    ensures
        seq_type_view(s).len() == s.len(),
        forall|i: int| 0 <= i < s.len() ==> seq_type_view(s)[i] == type_view(s[i]),
    decreases s,
{
    if s.len() > 0 {
        lemma_seq_type_view(s.drop_last());
    }
}

/// `seq_member_view` maps name views and `type_view` over the member list.
pub proof fn lemma_seq_member_view(s: Seq<(String, Type)>)
    ensures
        seq_member_view(s).len() == s.len(),
        forall|i: int|
            0 <= i < s.len() ==> seq_member_view(s)[i] == (s[i].0@, type_view(s[i].1)),
    decreases s,
{
    if s.len() > 0 {
        lemma_seq_member_view(s.drop_last());
    }
}

/// Structural equality of two types: equal shapes, equal nested types,
/// equal names and array sizes.  This is the only notion of type
/// compatibility the analyzer has.
pub fn type_eq(a: &Type, b: &Type) -> (r: bool)
    ensures
        r == (a@ == b@),
    decreases *a,
{
    match (a, b) {
        (Type::Void, Type::Void) => true,
        (Type::Int, Type::Int) => true,
        (Type::Char, Type::Char) => true,
        (Type::Float, Type::Float) => true,
        (Type::Double, Type::Double) => true,
        (Type::StringLit, Type::StringLit) => true,
        (Type::Pointer(x), Type::Pointer(y)) => type_eq(x, y),
        (Type::Array(x, n), Type::Array(y, m)) => *n == *m && type_eq(x, y),
        (
            Type::Function { return_ty: ra, param_tys: pa },
            Type::Function { return_ty: rb, param_tys: pb },
        ) => {
            proof {
                assert(decreases_to!(*a => pa));
                assert(decreases_to!(pa => pa@));
                lemma_seq_type_view(pa@);
                lemma_seq_type_view(pb@);
            }
            if !type_eq(ra, rb) {
                return false;
            }
            if pa.len() != pb.len() {
                return false;
            }
            let mut i: usize = 0;
            while i < pa.len()
                invariant
                    i <= pa.len(),
                    pa.len() == pb.len(),
                    a@ == type_view(*a),
                    *a matches Type::Function { return_ty: ra2, param_tys: pa2 }
                        && ra2 == *ra && pa2 == *pa,
                    *b matches Type::Function { return_ty: rb2, param_tys: pb2 }
                        && rb2 == *rb && pb2 == *pb,
                    type_view(**ra) == type_view(**rb),
                    forall|j: int| 0 <= j < i ==> type_view(pa@[j]) == type_view(pb@[j]),
                decreases pa.len() - i,
            {
                proof {
                    assert(decreases_to!(*a => pa));
                    assert(decreases_to!(pa => pa@[i as int]));
                    lemma_seq_type_view(pa@);
                    lemma_seq_type_view(pb@);
                }
                if !type_eq(&pa[i], &pb[i]) {
                    proof {
                        assert(seq_type_view(pa@)[i as int] != seq_type_view(pb@)[i as int]);
                    }
                    return false;
                }
                i += 1;
            }
            proof {
                lemma_seq_type_view(pa@);
                lemma_seq_type_view(pb@);
                assert(seq_type_view(pa@) =~= seq_type_view(pb@));
            }
            true
        },
        (
            Type::Struct { name: na, members: ma },
            Type::Struct { name: nb, members: mb },
        ) => {
            proof {
                lemma_seq_member_view(ma@);
                lemma_seq_member_view(mb@);
            }
            if !(*na == *nb) {
                return false;
            }
            if ma.len() != mb.len() {
                return false;
            }
            let mut i: usize = 0;
            while i < ma.len()
                invariant
                    i <= ma.len(),
                    ma.len() == mb.len(),
                    *a matches Type::Struct { name: na2, members: ma2 }
                        && na2 == *na && ma2 == *ma,
                    *b matches Type::Struct { name: nb2, members: mb2 }
                        && nb2 == *nb && mb2 == *mb,
                    na@ == nb@,
                    forall|j: int|
                        0 <= j < i ==> ma@[j].0@ == mb@[j].0@
                            && type_view(ma@[j].1) == type_view(mb@[j].1),
                decreases ma.len() - i,
            {
                proof {
                    assert(decreases_to!(*a => ma));
                    assert(decreases_to!(ma => ma@[i as int]));
                    assert(decreases_to!(ma@[i as int] => ma@[i as int].1));
                    lemma_seq_member_view(ma@);
                    lemma_seq_member_view(mb@);
                }
                if !(ma[i].0 == mb[i].0) {
                    proof {
                        assert(seq_member_view(ma@)[i as int] != seq_member_view(mb@)[i as int]);
                    }
                    return false;
                }
                if !type_eq(&ma[i].1, &mb[i].1) {
                    proof {
                        assert(seq_member_view(ma@)[i as int] != seq_member_view(mb@)[i as int]);
                    }
                    return false;
                }
                i += 1;
            }
            proof {
                lemma_seq_member_view(ma@);
                lemma_seq_member_view(mb@);
                assert(seq_member_view(ma@) =~= seq_member_view(mb@));
            }
            true
        },
        (Type::TypeDef { name: na, ty: ta }, Type::TypeDef { name: nb, ty: tb }) => {
            *na == *nb && type_eq(ta, tb)
        },
        (Type::SignedChar, Type::SignedChar) => true,
        (Type::UnSignedChar, Type::UnSignedChar) => true,
        (Type::Short, Type::Short) => true,
        (Type::UnSignedShort, Type::UnSignedShort) => true,
        (Type::UnSigned, Type::UnSigned) => true,
        (Type::Long, Type::Long) => true,
        (Type::UnSignedLong, Type::UnSignedLong) => true,
        (Type::LongLong, Type::LongLong) => true,
        (Type::UnSignedLongLong, Type::UnSignedLongLong) => true,
        (Type::LongDouble, Type::LongDouble) => true,
        _ => false,
    }
}

/// A structurally equal copy of a type.
pub fn clone_type(t: &Type) -> (r: Type)
    ensures
        r@ == t@,
    decreases *t,
{
    match t {
        Type::Void => Type::Void,
        Type::Int => Type::Int,
        Type::Char => Type::Char,
        Type::Float => Type::Float,
        Type::Double => Type::Double,
        Type::StringLit => Type::StringLit,
        Type::Pointer(inner) => Type::Pointer(Box::new(clone_type(inner))),
        Type::Array(inner, n) => Type::Array(Box::new(clone_type(inner)), *n),
        Type::Function { return_ty, param_tys } => {
            proof {
                assert(decreases_to!(*t => param_tys));
                lemma_seq_type_view(param_tys@);
            }
            let mut ps: Vec<Type> = Vec::new();
            let mut i: usize = 0;
            while i < param_tys.len()
                invariant
                    i <= param_tys.len(),
                    *t matches Type::Function { return_ty: r2, param_tys: p2 }
                        && r2 == *return_ty && p2 == *param_tys,
                    ps@.len() == i,
                    forall|j: int| 0 <= j < i ==> type_view(ps@[j]) == type_view(param_tys@[j]),
                decreases param_tys.len() - i,
            {
                proof {
                    assert(decreases_to!(*t => param_tys));
                    assert(decreases_to!(param_tys => param_tys@[i as int]));
                }
                ps.push(clone_type(&param_tys[i]));
                i += 1;
            }
            proof {
                lemma_seq_type_view(param_tys@);
                lemma_seq_type_view(ps@);
                assert(seq_type_view(ps@) =~= seq_type_view(param_tys@));
            }
            Type::Function { return_ty: Box::new(clone_type(return_ty)), param_tys: ps }
        },
        Type::Struct { name, members } => {
            proof {
                assert(decreases_to!(*t => members));
                lemma_seq_member_view(members@);
            }
            let mut ms: Vec<(String, Type)> = Vec::new();
            let mut i: usize = 0;
            while i < members.len()
                invariant
                    i <= members.len(),
                    *t matches Type::Struct { name: n2, members: m2 }
                        && n2 == *name && m2 == *members,
                    ms@.len() == i,
                    forall|j: int|
                        0 <= j < i ==> ms@[j].0@ == members@[j].0@
                            && type_view(ms@[j].1) == type_view(members@[j].1),
                decreases members.len() - i,
            {
                proof {
                    assert(decreases_to!(*t => members));
                    assert(decreases_to!(members => members@[i as int]));
                    assert(decreases_to!(members@[i as int] => members@[i as int].1));
                }
                let nm = members[i].0.clone();
                ms.push((nm, clone_type(&members[i].1)));
                i += 1;
            }
            proof {
                lemma_seq_member_view(members@);
                lemma_seq_member_view(ms@);
                assert(seq_member_view(ms@) =~= seq_member_view(members@));
            }
            Type::Struct { name: name.clone(), members: ms }
        },
        Type::TypeDef { name, ty } => Type::TypeDef {
            name: name.clone(),
            ty: Box::new(clone_type(ty)),
        },
        Type::SignedChar => Type::SignedChar,
        Type::UnSignedChar => Type::UnSignedChar,
        Type::Short => Type::Short,
        Type::UnSignedShort => Type::UnSignedShort,
        Type::UnSigned => Type::UnSigned,
        Type::Long => Type::Long,
        Type::UnSignedLong => Type::UnSignedLong,
        Type::LongLong => Type::LongLong,
        Type::UnSignedLongLong => Type::UnSignedLongLong,
        Type::LongDouble => Type::LongDouble,
    }
}

impl Clone for Type {
    /// A clone is structurally equal to the original.
    fn clone(&self) -> (r: Type)
        ensures
            r@ == self@,
    {
        clone_type(self)
    }
}

} // verus!
