//! Questions about tuples, objects and functions that need the index.

use vstd::prelude::*;

use crate::{db, types};
use crate::db::{DbIndex, DbTy, TypeOps};
use crate::type_check::assignable;
use crate::type_check::assignable::is_assignable;
use crate::types::{
    BasicTypeKind, FunctionTy, KeyTy, LuaFunctionType, LuaMemberKey, LuaObjectType, LuaTupleType,
    LuaType, LuaUnionType, ObjectTy, Ty, UnionTy, complex,
};
use crate::types::complex::text_is;

verus! {

/// A literal as it is written in a type.
pub open spec fn documented(t: Ty) -> Ty {
    match t {
        Ty::IntegerConst(i) => Ty::DocIntegerConst(i),
        Ty::FloatConst(_) => Ty::Number,
        Ty::StringConst(s) => Ty::DocStringConst(s),
        _ => t,
    }
}

pub open spec fn documented_union(types: Seq<Ty>) -> Ty
    decreases types.len(),
{
    if types.len() == 0 {
        Ty::Never
    } else {
        db::union_ty(documented_union(types.drop_last()), documented(types.last()))
    }
}

impl LuaTupleType {
    /// The union of the elements, literals as they are written in types.
    pub fn collapse_to_union(&self) -> (r: LuaType)
        ensures
            r@ == (if self@.types.len() == 0 {
                Ty::Unknown
            } else {
                documented_union(self@.types)
            }),
    {
        let ghost all = types::tys(self.types@);
        assert(self@.types == all);
        if self.types.len() == 0 {
            return LuaType::Unknown;
        }
        let mut ty = LuaType::Never;
        let mut i: usize = 0;
        assert(all.take(0) =~= Seq::<Ty>::empty());
        while i < self.types.len()
            invariant
                i <= self.types@.len(),
                all == types::tys(self.types@),
                ty@ == documented_union(all.take(i as int)),
            decreases self.types@.len() - i,
        {
            proof {
                assert(all.take(i + 1).drop_last() =~= all.take(i as int));
                assert(all.take(i + 1).last() == all[i as int]);
                assert(all[i as int] == self.types@[i as int]@);
            }
            let t = match &self.types[i] {
                LuaType::IntegerConst(n) => LuaType::DocIntegerConst(*n),
                LuaType::FloatConst(_) => LuaType::Number,
                LuaType::StringConst(s) => LuaType::DocStringConst(s.clone()),
                t => t.clone(),
            };
            ty = TypeOps::union(&ty, &t);
            i += 1;
        }
        assert(all.take(i as int) =~= all);
        ty
    }
}

/// A type added to a union that may be empty.
pub open spec fn joined_with(base: Option<Ty>, t: Ty) -> Option<Ty> {
    match base {
        Some(base) => Some(db::union_ty(base, t)),
        None => Some(t),
    }
}

/// The union of what is under any integer.
pub open spec fn integer_values(indexes: Seq<(Ty, Ty)>) -> Option<Ty>
    decreases indexes.len(),
{
    if indexes.len() == 0 {
        None
    } else {
        let front = integer_values(indexes.drop_last());
        if indexes.last().0 is Integer {
            joined_with(front, indexes.last().1)
        } else {
            front
        }
    }
}

/// The union of the fields 1 to `n`, where all are there.
pub open spec fn place_values(fields: Seq<(KeyTy, Ty)>, n: nat) -> Option<Option<Ty>>
    decreases n,
{
    if n == 0 {
        Some(None)
    } else {
        match place_values(fields, (n - 1) as nat) {
            Some(front) => match complex::first_field(fields, KeyTy::Integer(n as i64)) {
                Some(t) => Some(joined_with(front, t)),
                None => None,
            },
            None => None,
        }
    }
}

/// The element type of an object that is an array: its indexes, or all of its fields.
pub open spec fn array_base(o: ObjectTy) -> Option<Ty> {
    if o.index_access.len() > 0 {
        integer_values(o.index_access)
    } else if o.fields.len() > i64::MAX {
        None
    } else {
        match place_values(o.fields, o.fields.len()) {
            Some(Some(t)) => Some(t),
            Some(None) => Some(Ty::Unknown),
            None => None,
        }
    }
}

fn join_type(base: Option<LuaType>, t: &LuaType) -> (r: Option<LuaType>)
    ensures
        types::opt_ty(r) == joined_with(types::opt_ty(base), t@),
{
    match base {
        Some(base) => Some(TypeOps::union(&base, t)),
        None => Some(t.clone()),
    }
}

impl LuaObjectType {
    /// The element type of an object that is an array.
    pub fn cast_down_array_base(&self) -> (r: Option<LuaType>)
        ensures
            types::opt_ty(r) == array_base(self@),
    {
        let ghost indexes = types::pair_tys(self.index_access@);
        assert(self@.index_access == indexes && self@.fields == types::field_tys(self.fields@));
        let mut base: Option<LuaType> = None;
        if self.index_access.len() > 0 {
            let mut i: usize = 0;
            assert(indexes.take(0) =~= Seq::<(Ty, Ty)>::empty());
            while i < self.index_access.len()
                invariant
                    i <= self.index_access@.len(),
                    indexes == types::pair_tys(self.index_access@),
                    types::opt_ty(base) == integer_values(indexes.take(i as int)),
                decreases self.index_access@.len() - i,
            {
                let (key, value) = &self.index_access[i];
                proof {
                    assert(indexes.take(i + 1).drop_last() =~= indexes.take(i as int));
                    assert(indexes.take(i + 1).last() == indexes[i as int]);
                    assert(indexes[i as int] == (key@, value@));
                }
                if matches!(key, LuaType::Integer) {
                    base = join_type(base, value);
                }
                i += 1;
            }
            assert(indexes.take(i as int) =~= indexes);
            return base;
        }
        let ghost fields = types::field_tys(self.fields@);
        let len: u64 = self.fields.len() as u64;
        if len > i64::MAX as u64 {
            return None;
        }
        let n: i64 = len as i64;
        let mut i: i64 = 0;
        while i < n
            invariant
                0 <= i <= n,
                fields == types::field_tys(self.fields@),
                self@.fields == fields,
                self@.index_access.len() == 0,
                n == fields.len(),
                place_values(fields, i as nat) == Some(types::opt_ty(base)),
            decreases n - i,
        {
            match self.get_field(&LuaMemberKey::Integer(i + 1)) {
                Some(t) => {
                    base = join_type(base, t);
                },
                None => {
                    proof {
                        lemma_place_missing(fields, (i + 1) as nat, n as nat);
                    }
                    return None;
                },
            }
            i += 1;
        }
        match base {
            Some(t) => Some(t),
            None => Some(LuaType::Unknown),
        }
    }
}

/// Once a place is missing, it stays so.
proof fn lemma_place_missing(fields: Seq<(KeyTy, Ty)>, i: nat, n: nat)
    requires
        i <= n,
        place_values(fields, i) is None,
    ensures
        place_values(fields, n) is None,
    decreases n,
{
    if i < n {
        lemma_place_missing(fields, i, (n - 1) as nat);
    }
}

/// A type that a receiver does not have.
pub open spec fn is_no_receiver(t: Ty) -> bool
    decreases t, 0nat,
{
    match t {
        Ty::Table
        | Ty::TableGeneric(_)
        | Ty::TableConst(_)
        | Ty::Global
        | Ty::Tuple(_)
        | Ty::Array(_)
        | Ty::Object(_)
        | Ty::Ref(_)
        | Ty::Def(_) => false,
        Ty::Union(u) => match *u {
            UnionTy::Basic(kinds) => exists|i: int|
                0 <= i < kinds.len() && #[trigger] kinds[i] != BasicTypeKind::Table && kinds[i]
                    != BasicTypeKind::Global,
            UnionTy::Nullable(_) => true,
            UnionTy::Multi(types) => some_no_receiver(types),
        },
        _ => true,
    }
}

pub open spec fn some_no_receiver(types: Seq<Ty>) -> bool
    decreases types, 1nat,
{
    exists|i: int| 0 <= i < types.len() && is_no_receiver(#[trigger] types[i])
}

/// Whether the first parameter cannot be a receiver.
pub fn first_param_may_not_self(t: &LuaType) -> (r: bool)
    ensures
        r == is_no_receiver(t@),
    decreases t, 0nat,
{
    match t {
        LuaType::Table
        | LuaType::TableGeneric(_)
        | LuaType::TableConst(_)
        | LuaType::Global
        | LuaType::Tuple(_)
        | LuaType::Array(_)
        | LuaType::Object(_)
        | LuaType::Ref(_)
        | LuaType::Def(_) => false,
        LuaType::Union(union) => {
            assert(t@ == Ty::Union(Box::new(union@)));
            match &**union {
                LuaUnionType::Basic(basic) => {
                    assert(union@ == UnionTy::Basic(basic@));
                    let kinds = basic.iter_kinds();
                    let mut i: usize = 0;
                    while i < kinds.len()
                        invariant
                            i <= kinds@.len(),
                            kinds@ == basic@,
                            t@ == Ty::Union(Box::new(UnionTy::Basic(basic@))),
                            forall|j: int|
                                0 <= j < i ==> (#[trigger] basic@[j] == BasicTypeKind::Table
                                    || basic@[j] == BasicTypeKind::Global),
                        decreases kinds@.len() - i,
                    {
                        if kinds[i] != BasicTypeKind::Table && kinds[i] != BasicTypeKind::Global {
                            assert(basic@[i as int] == kinds@[i as int]);
                            return true;
                        }
                        assert(basic@[i as int] == kinds@[i as int]);
                        i += 1;
                    }
                    false
                },
                LuaUnionType::Nullable(x) => {
                    assert(union@ == UnionTy::Nullable(x@));
                    true
                },
                LuaUnionType::Multi(members) => {
                    assert(union@ == UnionTy::Multi(members@));
                    assert(members@ == types::tys(members.types@));
                    any_may_not_self(&members.types)
                },
            }
        },
        _ => true,
    }
}

#[verifier::loop_isolation(false)]
fn any_may_not_self(types: &Vec<LuaType>) -> (r: bool)
    ensures
        r == some_no_receiver(types::tys(types@)),
    decreases types, 1nat,
{
    let ghost all = types::tys(types@);
    let mut i: usize = 0;
    while i < types.len()
        invariant
            i <= types@.len(),
            forall|j: int| 0 <= j < i ==> !is_no_receiver(#[trigger] all[j]),
        decreases types@.len() - i,
    {
        assert(all[i as int] == types@[i as int]@);
        if first_param_may_not_self(&types[i]) {
            return true;
        }
        i += 1;
    }
    false
}

/// The function takes its receiver: it is written as a method, or its first parameter is the owner.
pub open spec fn takes_receiver(db: DbTy, f: FunctionTy, owner: Option<Ty>) -> bool {
    f.is_colon_define || (f.params.len() > 0 && match f.params[0].1 {
        Some(t) => t is SelfInfer || match owner {
            Some(owner) => if (owner is Ref || owner is Def) && is_no_receiver(t) {
                false
            } else {
                assignable::fits(db, t, owner) || (f.params[0].0 == "self"@ && assignable::fits(db, owner, t))
            },
            None => f.params[0].0 == "self"@,
        },
        None => f.params[0].0 == "self"@,
    })
}

impl LuaFunctionType {
    /// Whether the function takes its receiver.
    pub fn is_method(&self, db: &DbIndex, owner_type: Option<&LuaType>) -> (r: bool)
        ensures
            r == takes_receiver(db@, self@, complex::opt_ref_ty(owner_type)),
    {
        if self.is_colon_define {
            return true;
        }
        assert(self@.params == types::named_tys(self.params@));
        if self.params.len() == 0 {
            return false;
        }
        let (name, t) = &self.params[0];
        assert(types::named_tys(self.params@)[0] == (name@, types::opt_ty(*t)));
        match t {
            Some(t) => {
                if t.is_self_infer() {
                    return true;
                }
                match owner_type {
                    Some(owner) => {
                        if matches!(owner, LuaType::Ref(_) | LuaType::Def(_))
                            && first_param_may_not_self(t) {
                            return false;
                        }
                        if is_assignable(db, t, owner, None) {
                            return true;
                        }
                        text_is(name, "self") && is_assignable(db, owner, t, None)
                    },
                    None => text_is(name, "self"),
                }
            },
            None => text_is(name, "self"),
        }
    }
}

} // verus!
