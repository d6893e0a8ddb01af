//! Names, places and the built-in types.

use vstd::prelude::*;

verus! {

/// A source file of the workspace.
#[derive(Debug, Clone, Copy, PartialEq, Eq, Structural)]
pub struct FileId {
    pub id: u32,
}

impl FileId {
    pub fn new(id: u32) -> (r: Self)
        ensures
            r.id == id,
    {
        FileId { id }
    }
}

/// A half open range of text offsets.
#[derive(Debug, Clone, Copy, PartialEq, Eq, Structural)]
pub struct TextRange {
    pub start: u32,
    pub end: u32,
}

/// A range of text together with the file it lies in.
#[derive(Debug, Clone, Copy, PartialEq, Eq, Structural)]
pub struct InFiled {
    pub file_id: FileId,
    pub value: TextRange,
}

impl InFiled {
    pub fn new(file_id: FileId, value: TextRange) -> (r: Self)
        ensures
            r == (InFiled { file_id, value }),
    {
        InFiled { file_id, value }
    }
}

/// The place of a function literal.
#[derive(Debug, Clone, Copy, PartialEq, Eq, Structural)]
pub struct LuaSignatureId {
    pub file_id: FileId,
    pub position: u32,
}

/// Whether calling a function may suspend.
#[derive(Debug, Clone, Copy, PartialEq, Eq, Structural)]
pub enum AsyncState {
    Unspecified,
    Async,
    Sync,
}

/// A double precision number, kept as its bit pattern.
#[derive(Debug, Clone, Copy)]
pub struct LuaFloat {
    pub bits: u64,
}

/// The bit pattern without the sign.
pub open spec fn float_magnitude(bits: u64) -> int {
    bits as int % 0x8000_0000_0000_0000
}

/// The bit pattern of infinity; patterns above it are not numbers.
pub open spec fn float_is_nan(bits: u64) -> bool {
    float_magnitude(bits) > 0x7ff0_0000_0000_0000
}

/// Numeric equality of two bit patterns: no pattern that is not a number equals
/// anything, and the two zeros are equal.
pub open spec fn float_eq(a: u64, b: u64) -> bool {
    !float_is_nan(a) && !float_is_nan(b) && (a == b || (float_magnitude(a) == 0 && float_magnitude(
        b,
    ) == 0))
}

impl LuaFloat {
    pub fn from_bits(bits: u64) -> (r: Self)
        ensures
            r.bits == bits,
    {
        LuaFloat { bits }
    }

    /// Numeric equality.
    pub fn same_number(self, other: LuaFloat) -> (r: bool)
        ensures
            r == float_eq(self.bits, other.bits),
    {
        let a: u64 = self.bits % 0x8000_0000_0000_0000;
        let b: u64 = other.bits % 0x8000_0000_0000_0000;
        a <= 0x7ff0_0000_0000_0000 && b <= 0x7ff0_0000_0000_0000 && (self.bits == other.bits || (a
            == 0 && b == 0))
    }
}

/// The identity of a declared type: its full name.
#[derive(Debug)]
pub struct LuaTypeDeclId {
    name: String,
}

impl View for LuaTypeDeclId {
    type V = Seq<char>;

    closed spec fn view(&self) -> Seq<char> {
        self.name@
    }
}

impl LuaTypeDeclId {
    /// The id of a type declared for the whole workspace.
    pub fn global(name: &str) -> (r: Self)
        ensures
            r@ == name@,
    {
        LuaTypeDeclId { name: name.to_owned() }
    }

    pub fn get_name(&self) -> (r: &str)
        ensures
            r@ == self@,
    {
        self.name.as_str()
    }

    pub fn same(&self, other: &LuaTypeDeclId) -> (r: bool)
        ensures
            r == (self@ == other@),
    {
        self.name == other.name
    }
}

impl Clone for LuaTypeDeclId {
    fn clone(&self) -> (r: Self)
        ensures
            r == *self,
    {
        LuaTypeDeclId { name: self.name.clone() }
    }
}

impl PartialEq for LuaTypeDeclId {
    fn eq(&self, other: &LuaTypeDeclId) -> (r: bool) {
        self.same(other)
    }
}

impl vstd::std_specs::cmp::PartialEqSpecImpl for LuaTypeDeclId {
    open spec fn obeys_eq_spec() -> bool {
        true
    }

    open spec fn eq_spec(&self, other: &LuaTypeDeclId) -> bool {
        self@ == other@
    }
}

impl Eq for LuaTypeDeclId {

}

/// The types without parts, in the order in which a union of them lists them.
#[derive(Debug, Clone, Copy, PartialEq, Eq, Structural)]
pub enum BasicTypeKind {
    Unknown,
    Any,
    Nil,
    Table,
    Userdata,
    Function,
    Thread,
    Boolean,
    String,
    Integer,
    Number,
    Io,
    SelfInfer,
    Global,
    Never,
}

/// The place of a kind in that order.
pub open spec fn kind_rank(kind: BasicTypeKind) -> int {
    match kind {
        BasicTypeKind::Unknown => 0,
        BasicTypeKind::Any => 1,
        BasicTypeKind::Nil => 2,
        BasicTypeKind::Table => 3,
        BasicTypeKind::Userdata => 4,
        BasicTypeKind::Function => 5,
        BasicTypeKind::Thread => 6,
        BasicTypeKind::Boolean => 7,
        BasicTypeKind::String => 8,
        BasicTypeKind::Integer => 9,
        BasicTypeKind::Number => 10,
        BasicTypeKind::Io => 11,
        BasicTypeKind::SelfInfer => 12,
        BasicTypeKind::Global => 13,
        BasicTypeKind::Never => 14,
    }
}

impl BasicTypeKind {
    pub fn rank(self) -> (r: u8)
        ensures
            r == kind_rank(self),
    {
        match self {
            BasicTypeKind::Unknown => 0,
            BasicTypeKind::Any => 1,
            BasicTypeKind::Nil => 2,
            BasicTypeKind::Table => 3,
            BasicTypeKind::Userdata => 4,
            BasicTypeKind::Function => 5,
            BasicTypeKind::Thread => 6,
            BasicTypeKind::Boolean => 7,
            BasicTypeKind::String => 8,
            BasicTypeKind::Integer => 9,
            BasicTypeKind::Number => 10,
            BasicTypeKind::Io => 11,
            BasicTypeKind::SelfInfer => 12,
            BasicTypeKind::Global => 13,
            BasicTypeKind::Never => 14,
        }
    }
}

/// A set of kinds, listed by rank.
#[derive(Debug)]
pub struct BasicTypeUnion {
    kinds: Vec<BasicTypeKind>,
}

/// The kinds stand in the order of their ranks, each at most once.
pub open spec fn kinds_ascending(kinds: Seq<BasicTypeKind>) -> bool {
    forall|i: int, j: int|
        0 <= i < j < kinds.len() ==> kind_rank(#[trigger] kinds[i]) < kind_rank(#[trigger] kinds[j])
}

/// The list `kinds` with `kind` put at its place, unchanged where it is listed already.
pub open spec fn with_kind(kinds: Seq<BasicTypeKind>, kind: BasicTypeKind) -> Seq<BasicTypeKind>
    decreases kinds.len(),
{
    if kinds.len() == 0 {
        seq![kind]
    } else if kind_rank(kinds.last()) < kind_rank(kind) {
        kinds.push(kind)
    } else if kinds.last() == kind {
        kinds
    } else {
        with_kind(kinds.drop_last(), kind).push(kinds.last())
    }
}

impl View for BasicTypeUnion {
    type V = Seq<BasicTypeKind>;

    closed spec fn view(&self) -> Seq<BasicTypeKind> {
        self.kinds@
    }
}

/// Adding a kind to an ascending list keeps it ascending and adds just that kind.
pub proof fn lemma_with_kind(kinds: Seq<BasicTypeKind>, kind: BasicTypeKind)
    requires
        kinds_ascending(kinds),
    ensures
        kinds_ascending(with_kind(kinds, kind)),
        forall|k: BasicTypeKind| #[trigger]
            with_kind(kinds, kind).contains(k) <==> kinds.contains(k) || k == kind,
    decreases kinds.len(),
{
    let all = with_kind(kinds, kind);
    if kinds.len() == 0 {
        assert(all[0] == kind);
        assert(all.contains(kind));
    } else if kind_rank(kinds.last()) < kind_rank(kind) {
        assert(all[kinds.len() as int] == kind);
        assert forall|k: BasicTypeKind| kinds.contains(k) implies #[trigger] all.contains(k) by {
            let i = kinds.index_of(k);
            assert(all[i] == k);
        }
        assert forall|k: BasicTypeKind| #[trigger] all.contains(k) implies kinds.contains(k) || k
            == kind by {
            let i = choose|i: int| 0 <= i < all.len() && all[i] == k;
            if i < kinds.len() {
                assert(kinds[i] == k);
            }
        }
    } else if kinds.last() == kind {
        assert(kinds[kinds.len() - 1] == kind);
        assert(kinds.contains(kind));
    } else {
        let front = kinds.drop_last();
        let rest = with_kind(front, kind);
        assert(forall|i: int| 0 <= i < front.len() ==> front[i] == kinds[i]);
        lemma_with_kind(front, kind);
        assert(all =~= rest.push(kinds.last()));
        assert forall|i: int| 0 <= i < rest.len() implies kind_rank(#[trigger] rest[i])
            < kind_rank(kinds.last()) by {
            assert(rest.contains(rest[i]));
            if front.contains(rest[i]) {
                let j = choose|j: int| 0 <= j < front.len() && front[j] == rest[i];
                assert(kinds[j] == rest[i]);
                assert(kind_rank(kinds[j]) < kind_rank(kinds[kinds.len() - 1]));
            }
        }
        assert forall|k: BasicTypeKind| #[trigger] all.contains(k) implies kinds.contains(k) || k
            == kind by {
            let i = choose|i: int| 0 <= i < all.len() && all[i] == k;
            if i < rest.len() {
                assert(rest[i] == k);
                assert(rest.contains(k));
                if front.contains(k) {
                    let j = choose|j: int| 0 <= j < front.len() && front[j] == k;
                    assert(kinds[j] == k);
                }
            } else {
                assert(kinds[kinds.len() - 1] == k);
            }
        }
        assert forall|k: BasicTypeKind| kinds.contains(k) || k == kind implies #[trigger] all.contains(k) by {
            if k == kinds.last() {
                assert(all[rest.len() as int] == k);
            } else {
                if kinds.contains(k) {
                    let j = choose|j: int| 0 <= j < kinds.len() && kinds[j] == k;
                    assert(front[j] == k);
                }
                assert(rest.contains(k));
                let i = choose|i: int| 0 <= i < rest.len() && rest[i] == k;
                assert(all[i] == k);
            }
        }
    }
}

impl BasicTypeUnion {
    #[verifier::type_invariant]
    spec fn ascending(self) -> bool {
        kinds_ascending(self.kinds@)
    }

    pub fn new() -> (r: Self)
        ensures
            r@ == Seq::<BasicTypeKind>::empty(),
    {
        BasicTypeUnion { kinds: Vec::new() }
    }

    /// Lists the kinds of `kinds`, each once, in the order of their ranks.
    pub fn add(self, kind: BasicTypeKind) -> (r: Self)
        ensures
            r@ == with_kind(self@, kind),
    {
        proof {
            use_type_invariant(&self);
            lemma_with_kind(self.kinds@, kind);
        }
        let old_kinds = self.kinds;
        let mut kinds: Vec<BasicTypeKind> = Vec::new();
        let mut i: usize = 0;
        let ghost all = old_kinds@;
        while i < old_kinds.len() && old_kinds[i].rank() < kind.rank()
            invariant
                i <= old_kinds@.len(),
                old_kinds@ == all,
                kinds@ == all.take(i as int),
                forall|j: int| 0 <= j < i ==> kind_rank(#[trigger] all[j]) < kind_rank(kind),
            decreases old_kinds@.len() - i,
        {
            kinds.push(old_kinds[i]);
            i += 1;
        }
        proof {
            lemma_split_kinds(all, kind, i as int);
        }
        if i < old_kinds.len() && old_kinds[i] == kind {
            return BasicTypeUnion { kinds: old_kinds };
        }
        kinds.push(kind);
        let ghost start = i as int;
        while i < old_kinds.len()
            invariant
                0 <= start <= i <= old_kinds@.len(),
                old_kinds@ == all,
                kinds@ == all.take(start).push(kind) + all.subrange(start, i as int),
            decreases old_kinds@.len() - i,
        {
            kinds.push(old_kinds[i]);
            i += 1;
        }
        BasicTypeUnion { kinds }
    }

    pub fn contains(&self, kind: BasicTypeKind) -> (r: bool)
        ensures
            r == self@.contains(kind),
    {
        let mut i: usize = 0;
        while i < self.kinds.len()
            invariant
                i <= self.kinds@.len(),
                forall|j: int| 0 <= j < i ==> self.kinds@[j] != kind,
            decreases self.kinds@.len() - i,
        {
            if self.kinds[i] == kind {
                return true;
            }
            i += 1;
        }
        false
    }

    /// The kinds in the order of their ranks.
    pub fn iter_kinds(&self) -> (r: &[BasicTypeKind])
        ensures
            r@ == self@,
            kinds_ascending(self@),
    {
        proof {
            use_type_invariant(self);
        }
        self.kinds.as_slice()
    }

    pub fn same(&self, other: &BasicTypeUnion) -> (r: bool)
        ensures
            r == (self@ == other@),
    {
        if self.kinds.len() != other.kinds.len() {
            return false;
        }
        let mut i: usize = 0;
        while i < self.kinds.len()
            invariant
                i <= self.kinds@.len(),
                self.kinds@.len() == other.kinds@.len(),
                forall|j: int| 0 <= j < i ==> self.kinds@[j] == other.kinds@[j],
            decreases self.kinds@.len() - i,
        {
            if self.kinds[i] != other.kinds[i] {
                return false;
            }
            i += 1;
        }
        assert(self.kinds@ =~= other.kinds@);
        true
    }
}

/// What `with_kind` gives where the kinds of lesser rank are the first `n`.
proof fn lemma_split_kinds(kinds: Seq<BasicTypeKind>, kind: BasicTypeKind, n: int)
    requires
        kinds_ascending(kinds),
        0 <= n <= kinds.len(),
        forall|j: int| 0 <= j < n ==> kind_rank(#[trigger] kinds[j]) < kind_rank(kind),
        n < kinds.len() ==> kind_rank(kinds[n]) >= kind_rank(kind),
    ensures
        n < kinds.len() && kinds[n] == kind ==> with_kind(kinds, kind) == kinds,
        !(n < kinds.len() && kinds[n] == kind) ==> with_kind(kinds, kind) == kinds.take(n).push(
            kind,
        ) + kinds.subrange(n, kinds.len() as int),
    decreases kinds.len(),
{
    if kinds.len() == 0 {
    } else if n == kinds.len() {
        assert(kinds.take(n) =~= kinds);
    } else {
        assert(kind_rank(kinds.last()) >= kind_rank(kinds[n]));
        if kinds.last() == kind {
            if n < kinds.len() - 1 {
                assert(kind_rank(kinds[n]) < kind_rank(kinds[kinds.len() - 1]));
            }
        } else {
            let front = kinds.drop_last();
            assert(forall|i: int| 0 <= i < front.len() ==> front[i] == kinds[i]);
            if n == front.len() {
                assert(kinds[n] == kinds.last());
            }
            lemma_split_kinds(front, kind, n);
            if n < front.len() && front[n] == kind {
                assert(with_kind(front, kind).push(kinds.last()) =~= kinds);
            } else {
                assert(front.take(n) =~= kinds.take(n));
                assert(front.subrange(n, front.len() as int).push(kinds.last()) =~= kinds.subrange(
                    n,
                    kinds.len() as int,
                ));
                assert(with_kind(kinds, kind) =~= kinds.take(n).push(kind) + kinds.subrange(
                    n,
                    kinds.len() as int,
                ));
            }
        }
    }
}

} // verus!
