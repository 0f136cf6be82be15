//! The types of the source language: the two integer widths and function
//! types built from them.

use vstd::prelude::*;

verus! {

/// A source-language type, carried on declarations and typed expressions.
#[derive(Debug)]
pub enum Type {
    Int,
    Long,
    FunType { param_types: Vec<Type>, ret_type: Box<Type> },
}

/// The mathematical model of a [`Type`]: the same tree with `Seq` in place
/// of `Vec`, so that contracts can state structural equality directly.
pub enum TypeV {
    Int,
    Long,
    FunType { param_types: Seq<TypeV>, ret_type: Box<TypeV> },
}

/// The model of a sequence of types, element by element.
pub open spec fn type_views(ts: Seq<Type>) -> Seq<TypeV>
    decreases ts,
{
    if ts.len() == 0 {
        Seq::empty()
    } else {
        type_views(ts.drop_last()).push(type_view(ts.last()))
    }
}

/// The model of one type.
pub open spec fn type_view(t: Type) -> TypeV
    decreases t,
{
    match t {
        Type::Int => TypeV::Int,
        Type::Long => TypeV::Long,
        Type::FunType { param_types, ret_type } => TypeV::FunType {
            param_types: type_views(param_types@),
            ret_type: Box::new(type_view(*ret_type)),
        },
    }
}

/// `type_views` maps the sequence pointwise.
pub broadcast proof fn lemma_type_views(ts: Seq<Type>)
    ensures
        #[trigger] type_views(ts).len() == ts.len(),
        forall|i: int| 0 <= i < ts.len() ==> type_views(ts)[i] == type_view(ts[i]),
    decreases ts.len(),
{
    if ts.len() > 0 {
        lemma_type_views(ts.drop_last());
        assert(forall|i: int|
            0 <= i < ts.len() - 1 ==> type_views(ts)[i] == type_views(ts.drop_last())[i]);
        assert(forall|i: int| 0 <= i < ts.len() - 1 ==> ts.drop_last()[i] == ts[i]);
    }
}

impl View for Type {
    type V = TypeV;

    open spec fn view(&self) -> TypeV {
        type_view(*self)
    }
}

/// Whether a type is one of the two integer types rather than a function type.
pub open spec fn is_scalar(t: TypeV) -> bool {
    t == TypeV::Int || t == TypeV::Long
}

impl Clone for Type {
    fn clone(&self) -> (r: Self)
        ensures
            r@ == self@,
        decreases self,
    {
        match self {
            Type::Int => Type::Int,
            Type::Long => Type::Long,
            Type::FunType { param_types, ret_type } => {
                let mut ps: Vec<Type> = Vec::new();
                let mut i: usize = 0;
                while i < param_types.len()
                    invariant
                        i <= param_types.len(),
                        ps@.len() == i,
                        forall|j: int|
                            0 <= j < i ==> type_view(#[trigger] ps@[j]) == type_view(
                                param_types@[j],
                            ),
                    decreases param_types.len() - i,
                {
                    ps.push(param_types[i].clone());
                    i += 1;
                }
                proof {
                    lemma_type_views(ps@);
                    lemma_type_views(param_types@);
                    assert(type_views(ps@) =~= type_views(param_types@));
                }
                Type::FunType { param_types: ps, ret_type: Box::new((**ret_type).clone()) }
            },
        }
    }
}

/// Decides structural equality of two types.
pub fn type_eq(a: &Type, b: &Type) -> (r: bool)
    ensures
        r == (a@ == b@),
    decreases a,
{
    match (a, b) {
        (Type::Int, Type::Int) => true,
        (Type::Long, Type::Long) => true,
        (
            Type::FunType { param_types: pa, ret_type: ra },
            Type::FunType { param_types: pb, ret_type: rb },
        ) => {
            proof {
                lemma_type_views(pa@);
                lemma_type_views(pb@);
            }
            if pa.len() != pb.len() {
                false
            } else {
                let mut i: usize = 0;
                let mut same = true;
                while i < pa.len()
                    invariant
                        i <= pa.len(),
                        pa.len() == pb.len(),
                        a@ == (TypeV::FunType {
                            param_types: type_views(pa@),
                            ret_type: Box::new((**ra)@),
                        }),
                        b@ == (TypeV::FunType {
                            param_types: type_views(pb@),
                            ret_type: Box::new((**rb)@),
                        }),
                        same == (type_views(pa@).subrange(0, i as int) =~= type_views(
                            pb@,
                        ).subrange(0, i as int)),
                    decreases pa.len() - i,
                {
                    proof {
                        lemma_type_views(pa@);
                        lemma_type_views(pb@);
                    }
                    let eq_here = type_eq(&pa[i], &pb[i]);
                    proof {
                        if same && eq_here {
                            assert(type_views(pa@).subrange(0, i + 1) =~= type_views(pb@).subrange(
                                0,
                                i + 1,
                            ));
                        }
                        if !eq_here {
                            assert(type_views(pa@).subrange(0, i + 1)[i as int] != type_views(
                                pb@,
                            ).subrange(0, i + 1)[i as int]);
                        }
                        if !same {
                            let j = choose|j: int|
                                0 <= j < i && type_views(pa@).subrange(0, i as int)[j]
                                    != type_views(pb@).subrange(0, i as int)[j];
                            assert(type_views(pa@).subrange(0, i + 1)[j] != type_views(
                                pb@,
                            ).subrange(0, i + 1)[j]);
                        }
                    }
                    same = same && eq_here;
                    i += 1;
                }
                proof {
                    lemma_type_views(pa@);
                    lemma_type_views(pb@);
                    assert(type_views(pa@).subrange(0, pa@.len() as int) =~= type_views(pa@));
                    assert(type_views(pb@).subrange(0, pb@.len() as int) =~= type_views(pb@));
                }
                if same {
                    let req = type_eq(ra, rb);
                    proof {
                        if req {
                            assert(type_views(pa@) =~= type_views(pb@));
                        }
                    }
                    req
                } else {
                    false
                }
            }
        }
        _ => false,
    }
}

} // verus!
