//! Declared field types and the shapes they are classified into.

use vstd::prelude::*;

verus! {

/// The integer types a field can have.
#[derive(Clone, Copy, Debug, PartialEq, Eq, Structural)]
pub enum IntKind {
    I8,
    I16,
    I32,
    I64,
    I128,
    U8,
    U16,
    U32,
    U64,
    U128,
}

/// The scalar types a field can have.
#[derive(Clone, Copy, Debug, PartialEq, Eq, Structural)]
pub enum ScalarKind {
    /// One of the integer types.
    Int(IntKind),
    /// A string.
    Text,
}

/// The attribute types that the store accepts for a key.
#[derive(Clone, Copy, Debug, PartialEq, Eq, Structural)]
pub enum ScalarAttributeType {
    /// A string attribute.
    S,
    /// A number attribute.
    N,
}

impl IntKind {
    /// Whether the type has negative values.
    pub open spec fn signed(self) -> bool {
        match self {
            IntKind::I8 | IntKind::I16 | IntKind::I32 | IntKind::I64 | IntKind::I128 => true,
            _ => false,
        }
    }

    /// The least value of the type.
    pub open spec fn min(self) -> int {
        match self {
            IntKind::I8 => -0x80,
            IntKind::I16 => -0x8000,
            IntKind::I32 => -0x8000_0000,
            IntKind::I64 => -0x8000_0000_0000_0000,
            IntKind::I128 => -0x8000_0000_0000_0000_0000_0000_0000_0000,
            _ => 0,
        }
    }

    /// The greatest value of the type.
    pub open spec fn max(self) -> int {
        match self {
            IntKind::I8 => 0x7f,
            IntKind::I16 => 0x7fff,
            IntKind::I32 => 0x7fff_ffff,
            IntKind::I64 => 0x7fff_ffff_ffff_ffff,
            IntKind::I128 => 0x7fff_ffff_ffff_ffff_ffff_ffff_ffff_ffff,
            IntKind::U8 => 0xff,
            IntKind::U16 => 0xffff,
            IntKind::U32 => 0xffff_ffff,
            IntKind::U64 => 0xffff_ffff_ffff_ffff,
            IntKind::U128 => 0xffff_ffff_ffff_ffff_ffff_ffff_ffff_ffff,
        }
    }

    /// Whether `n` is a value of the type.
    pub open spec fn holds(self, n: int) -> bool {
        self.min() <= n <= self.max()
    }

    /// Whether the type has negative values.
    pub fn is_signed(self) -> (signed: bool)
        ensures
            signed == self.signed(),
    {
        match self {
            IntKind::I8 | IntKind::I16 | IntKind::I32 | IntKind::I64 | IntKind::I128 => true,
            _ => false,
        }
    }

    /// Whether the signed integer `n` is a value of the type.
    pub fn holds_signed(self, n: i128) -> (fits: bool)
        ensures
            fits == (self.signed() && self.holds(n as int)),
    {
        match self {
            IntKind::I8 => -0x80 <= n && n <= 0x7f,
            IntKind::I16 => -0x8000 <= n && n <= 0x7fff,
            IntKind::I32 => -0x8000_0000 <= n && n <= 0x7fff_ffff,
            IntKind::I64 => -0x8000_0000_0000_0000 <= n && n <= 0x7fff_ffff_ffff_ffff,
            IntKind::I128 => true,
            _ => false,
        }
    }

    /// Whether the unsigned integer `n` is a value of the type.
    pub fn holds_unsigned(self, n: u128) -> (fits: bool)
        ensures
            fits == (!self.signed() && self.holds(n as int)),
    {
        match self {
            IntKind::U8 => n <= 0xff,
            IntKind::U16 => n <= 0xffff,
            IntKind::U32 => n <= 0xffff_ffff,
            IntKind::U64 => n <= 0xffff_ffff_ffff_ffff,
            IntKind::U128 => true,
            _ => false,
        }
    }
}

impl ScalarKind {
    /// The attribute type under which the store keeps a scalar of this kind.
    pub open spec fn attribute_type(self) -> ScalarAttributeType {
        match self {
            ScalarKind::Int(_) => ScalarAttributeType::N,
            ScalarKind::Text => ScalarAttributeType::S,
        }
    }
}

/// The scalar kind that a type name stands for, if it is one of the fixed
/// scalar names.
pub open spec fn scalar_kind_of(name: Seq<char>) -> Option<ScalarKind> {
    if name == "i8"@ {
        Some(ScalarKind::Int(IntKind::I8))
    } else if name == "i16"@ {
        Some(ScalarKind::Int(IntKind::I16))
    } else if name == "i32"@ {
        Some(ScalarKind::Int(IntKind::I32))
    } else if name == "i64"@ {
        Some(ScalarKind::Int(IntKind::I64))
    } else if name == "i128"@ {
        Some(ScalarKind::Int(IntKind::I128))
    } else if name == "u8"@ {
        Some(ScalarKind::Int(IntKind::U8))
    } else if name == "u16"@ {
        Some(ScalarKind::Int(IntKind::U16))
    } else if name == "u32"@ {
        Some(ScalarKind::Int(IntKind::U32))
    } else if name == "u64"@ {
        Some(ScalarKind::Int(IntKind::U64))
    } else if name == "u128"@ {
        Some(ScalarKind::Int(IntKind::U128))
    } else if name == "String"@ {
        Some(ScalarKind::Text)
    } else {
        None
    }
}

/// Whether `name` is the text `word`.
pub fn name_is(name: &String, word: &str) -> (same: bool)
    ensures
        same == (name@ == word@),
{
    let word = String::from_str(word);
    *name == word
}

/// The scalar kind that a type name stands for, if it is one of the fixed
/// scalar names.
pub fn scalar_kind(name: &String) -> (kind: Option<ScalarKind>)
    ensures
        kind == scalar_kind_of(name@),
{
    if name_is(name, "i8") {
        Some(ScalarKind::Int(IntKind::I8))
    } else if name_is(name, "i16") {
        Some(ScalarKind::Int(IntKind::I16))
    } else if name_is(name, "i32") {
        Some(ScalarKind::Int(IntKind::I32))
    } else if name_is(name, "i64") {
        Some(ScalarKind::Int(IntKind::I64))
    } else if name_is(name, "i128") {
        Some(ScalarKind::Int(IntKind::I128))
    } else if name_is(name, "u8") {
        Some(ScalarKind::Int(IntKind::U8))
    } else if name_is(name, "u16") {
        Some(ScalarKind::Int(IntKind::U16))
    } else if name_is(name, "u32") {
        Some(ScalarKind::Int(IntKind::U32))
    } else if name_is(name, "u64") {
        Some(ScalarKind::Int(IntKind::U64))
    } else if name_is(name, "u128") {
        Some(ScalarKind::Int(IntKind::U128))
    } else if name_is(name, "String") {
        Some(ScalarKind::Text)
    } else {
        None
    }
}

/// A field's type as it is declared: a path of segments, each with the types
/// given to it in angle brackets. A type that is not a path (a reference, a
/// tuple, an array) has no segments.
#[derive(Debug, PartialEq, Eq)]
pub struct DeclaredType {
    pub segments: Vec<PathSegment>,
}

/// One segment of a path type.
#[derive(Debug, PartialEq, Eq)]
pub struct PathSegment {
    pub ident: String,
    pub arguments: Vec<DeclaredType>,
}

/// The mathematical content of a declared type.
pub ghost struct TypeModel {
    pub segments: Seq<SegmentModel>,
}

/// The mathematical content of a path segment.
pub ghost struct SegmentModel {
    pub ident: Seq<char>,
    pub arguments: Seq<TypeModel>,
}

/// The content of a declared type, read recursively.
pub open spec fn type_model(ty: DeclaredType) -> TypeModel
    decreases ty,
{
    TypeModel {
        segments: Seq::new(
            ty.segments@.len(),
            |i: int|
                if 0 <= i < ty.segments@.len() {
                    SegmentModel {
                        ident: ty.segments@[i].ident@,
                        arguments: Seq::new(
                            ty.segments@[i].arguments@.len(),
                            |j: int|
                                if 0 <= j < ty.segments@[i].arguments@.len() {
                                    type_model(ty.segments@[i].arguments@[j])
                                } else {
                                    arbitrary()
                                },
                        ),
                    }
                } else {
                    arbitrary()
                },
        ),
    }
}

impl View for DeclaredType {
    type V = TypeModel;

    open spec fn view(&self) -> TypeModel {
        type_model(*self)
    }
}

impl View for PathSegment {
    type V = SegmentModel;

    open spec fn view(&self) -> SegmentModel {
        SegmentModel {
            ident: self.ident@,
            arguments: Seq::new(self.arguments@.len(), |j: int| self.arguments@[j]@),
        }
    }
}

/// The view of a declared type is made of the views of its segments.
pub proof fn lemma_type_view(ty: DeclaredType)
    ensures
        ty@.segments.len() == ty.segments@.len(),
        forall|i: int|
            0 <= i < ty.segments@.len() ==> ty@.segments[i] == (#[trigger] ty.segments@[i])@,
{
    assert forall|i: int| 0 <= i < ty.segments@.len() implies ty@.segments[i] == (
    #[trigger] ty.segments@[i])@ by {
        assert(ty@.segments[i].arguments =~= ty.segments@[i]@.arguments);
    }
}

/// The shape of a field's type: what wraps it, outermost first, down to a
/// scalar or a record.
#[derive(Debug, PartialEq, Eq)]
pub enum TypeShape {
    /// A value that may be absent.
    Optional(Box<TypeShape>),
    /// A list of values of one shape.
    List(Box<TypeShape>),
    /// A scalar.
    Scalar(ScalarKind),
    /// A nested record, by the name of its type.
    Record(String),
}

/// The mathematical content of a shape.
pub ghost enum ShapeModel {
    Optional(Box<ShapeModel>),
    List(Box<ShapeModel>),
    Scalar(ScalarKind),
    Record(Seq<char>),
}

/// The content of a shape, read recursively.
pub open spec fn shape_model(shape: TypeShape) -> ShapeModel
    decreases shape,
{
    match shape {
        TypeShape::Optional(inner) => ShapeModel::Optional(Box::new(shape_model(*inner))),
        TypeShape::List(inner) => ShapeModel::List(Box::new(shape_model(*inner))),
        TypeShape::Scalar(kind) => ShapeModel::Scalar(kind),
        TypeShape::Record(name) => ShapeModel::Record(name@),
    }
}

impl View for TypeShape {
    type V = ShapeModel;

    open spec fn view(&self) -> ShapeModel {
        shape_model(*self)
    }
}

/// The names of the first `n` types of `arguments`, one type after the other.
pub open spec fn arguments_paths(arguments: Seq<TypeModel>, n: nat) -> Seq<Seq<char>>
    decreases arguments, n,
{
    if n == 0 || n > arguments.len() {
        Seq::empty()
    } else {
        arguments_paths(arguments, (n - 1) as nat) + type_paths(arguments[n - 1])
    }
}

/// The names of the first `n` segments of `segments`: each segment's own name,
/// then the names of the types given to it.
pub open spec fn segments_paths(segments: Seq<SegmentModel>, n: nat) -> Seq<Seq<char>>
    decreases segments, n,
{
    if n == 0 || n > segments.len() {
        Seq::empty()
    } else {
        segments_paths(segments, (n - 1) as nat) + seq![segments[n - 1].ident] + arguments_paths(
            segments[n - 1].arguments,
            segments[n - 1].arguments.len(),
        )
    }
}

/// Every name that occurs in a declared type, in the order in which it is
/// written.
pub open spec fn type_paths(ty: TypeModel) -> Seq<Seq<char>>
    decreases ty, 0nat,
{
    segments_paths(ty.segments, ty.segments.len())
}

/// The shape of a declared type. The last segment of the path names the type.
/// `Option` and `Vec` with a type in angle brackets wrap the shape of that
/// type; the fixed scalar names are scalars; every other type is taken to be
/// a nested record.
pub open spec fn classify_type(ty: TypeModel) -> ShapeModel
    decreases ty,
{
    if ty.segments.len() == 0 {
        ShapeModel::Record(Seq::empty())
    } else {
        let head = ty.segments.last();
        if head.ident == "Option"@ && head.arguments.len() > 0 {
            ShapeModel::Optional(Box::new(classify_type(head.arguments[0])))
        } else if head.ident == "Vec"@ && head.arguments.len() > 0 {
            ShapeModel::List(Box::new(classify_type(head.arguments[0])))
        } else {
            match scalar_kind_of(head.ident) {
                Some(kind) => ShapeModel::Scalar(kind),
                None => ShapeModel::Record(head.ident),
            }
        }
    }
}

/// The type inside `Option<..>`, or the type itself where it is no such option.
pub open spec fn non_option(ty: TypeModel) -> TypeModel {
    if ty.segments.len() > 0 && ty.segments.last().ident == "Option"@
        && ty.segments.last().arguments.len() > 0 {
        ty.segments.last().arguments[0]
    } else {
        ty
    }
}

impl ShapeModel {
    /// Whether the shape is that of a value that may be absent.
    pub open spec fn is_optional(self) -> bool {
        self is Optional
    }
}

/// The texts of a list of strings.
pub open spec fn texts(names: Seq<String>) -> Seq<Seq<char>> {
    Seq::new(names.len(), |i: int| names[i]@)
}

/// Appends to `idents` every name that occurs in `ty`, in the order in which
/// it is written.
fn collect(ty: &DeclaredType, idents: &mut Vec<String>)
    ensures
        texts(final(idents)@) == texts(old(idents)@) + type_paths(ty@),
    decreases ty,
{
    let ghost before = texts(idents@);
    proof {
        lemma_type_view(*ty);
    }
    let mut i: usize = 0;
    while i < ty.segments.len()
        invariant
            i <= ty.segments@.len(),
            ty@.segments.len() == ty.segments@.len(),
            forall|k: int|
                0 <= k < ty.segments@.len() ==> ty@.segments[k] == (#[trigger] ty.segments@[k])@,
            texts(idents@) == before + segments_paths(ty@.segments, i as nat),
            decreases_to!(ty => ty.segments),
        decreases ty.segments@.len() - i,
    {
        let segment = &ty.segments[i];
        proof {
            assert(decreases_to!(ty.segments => ty.segments[i as int]));
            assert(decreases_to!(segment => segment.arguments));
            assert(ty@.segments[i as int] == ty.segments@[i as int]@);
        }
        let ghost start = texts(idents@);
        idents.push(segment.ident.clone());
        let ghost mid = texts(idents@);
        proof {
            assert(mid =~= start + seq![segment.ident@]);
        }
        let mut j: usize = 0;
        while j < segment.arguments.len()
            invariant
                j <= segment.arguments@.len(),
                segment@.arguments.len() == segment.arguments@.len(),
                texts(idents@) == mid + arguments_paths(segment@.arguments, j as nat),
                decreases_to!(ty => segment.arguments),
            decreases segment.arguments@.len() - j,
        {
            proof {
                assert(decreases_to!(segment.arguments => segment.arguments[j as int]));
            }
            let ghost here = texts(idents@);
            collect(&segment.arguments[j], idents);
            proof {
                assert(segment@.arguments[j as int] == segment.arguments@[j as int]@);
                assert(texts(idents@) =~= mid + arguments_paths(
                    segment@.arguments,
                    (j + 1) as nat,
                ));
            }
            j += 1;
        }
        proof {
            assert(texts(idents@) =~= before + segments_paths(ty@.segments, (i + 1) as nat));
        }
        i += 1;
    }
}

impl DeclaredType {
    /// Every name that occurs in the type, in the order in which it is written:
    /// `Option<Vec<String>>` gives `Option`, `Vec`, `String`.
    pub fn type_paths(&self) -> (idents: Vec<String>)
        ensures
            texts(idents@) == type_paths(self@),
    {
        let mut idents: Vec<String> = Vec::new();
        collect(self, &mut idents);
        proof {
            assert(texts(Seq::<String>::empty()) =~= Seq::<Seq<char>>::empty());
            assert(texts(idents@) =~= type_paths(self@));
        }
        idents
    }

    /// The type inside `Option<..>`, or the type itself where it is no such
    /// option.
    pub fn non_option(&self) -> (inner: &DeclaredType)
        ensures
            inner@ == non_option(self@),
    {
        proof {
            lemma_type_view(*self);
        }
        let n = self.segments.len();
        if n > 0 {
            let last = &self.segments[n - 1];
            assert(self@.segments.last() == last@);
            if name_is(&last.ident, "Option") && last.arguments.len() > 0 {
                return &last.arguments[0];
            }
        }
        self
    }

    /// The shape of the type.
    pub fn classify(&self) -> (shape: TypeShape)
        ensures
            shape@ == classify_type(self@),
        decreases self,
    {
        proof {
            lemma_type_view(*self);
        }
        let n = self.segments.len();
        if n == 0 {
            return TypeShape::Record(String::new());
        }
        let head = &self.segments[n - 1];
        proof {
            assert(self@.segments.last() == head@);
            assert(decreases_to!(self => self.segments));
            assert(decreases_to!(self.segments => self.segments[n - 1]));
            assert(decreases_to!(head => head.arguments));
        }
        if name_is(&head.ident, "Option") && head.arguments.len() > 0 {
            proof {
                assert(decreases_to!(head.arguments => head.arguments[0]));
            }
            TypeShape::Optional(Box::new(head.arguments[0].classify()))
        } else if name_is(&head.ident, "Vec") && head.arguments.len() > 0 {
            proof {
                assert(decreases_to!(head.arguments => head.arguments[0]));
            }
            TypeShape::List(Box::new(head.arguments[0].classify()))
        } else {
            match scalar_kind(&head.ident) {
                Some(kind) => TypeShape::Scalar(kind),
                None => TypeShape::Record(head.ident.clone()),
            }
        }
    }
}

impl Clone for DeclaredType {
    fn clone(&self) -> (copy: DeclaredType)
        ensures
            copy@ == self@,
        decreases self,
    {
        let mut segments: Vec<PathSegment> = Vec::new();
        let mut i: usize = 0;
        while i < self.segments.len()
            invariant
                i <= self.segments@.len(),
                segments@.len() == i,
                forall|k: int| 0 <= k < i ==> (#[trigger] segments@[k])@ == self.segments@[k]@,
                decreases_to!(self => self.segments),
            decreases self.segments@.len() - i,
        {
            let segment = &self.segments[i];
            proof {
                assert(decreases_to!(self.segments => self.segments[i as int]));
                assert(decreases_to!(segment => segment.arguments));
            }
            let mut arguments: Vec<DeclaredType> = Vec::new();
            let mut j: usize = 0;
            while j < segment.arguments.len()
                invariant
                    j <= segment.arguments@.len(),
                    arguments@.len() == j,
                    forall|k: int|
                        0 <= k < j ==> (#[trigger] arguments@[k])@ == segment.arguments@[k]@,
                    decreases_to!(self => segment.arguments),
                decreases segment.arguments@.len() - j,
            {
                proof {
                    assert(decreases_to!(segment.arguments => segment.arguments[j as int]));
                }
                arguments.push(segment.arguments[j].clone());
                j += 1;
            }
            let copy = PathSegment { ident: segment.ident.clone(), arguments };
            proof {
                assert(copy@.arguments =~= segment@.arguments);
            }
            segments.push(copy);
            i += 1;
        }
        let copy = DeclaredType { segments };
        proof {
            lemma_type_view(copy);
            lemma_type_view(*self);
            assert(copy@.segments =~= self@.segments);
        }
        copy
    }
}

impl DeclaredType {
    /// The type that is written as the one name `name`.
    pub fn simple(name: &str) -> (ty: DeclaredType)
        ensures
            ty@ == (TypeModel {
                segments: seq![SegmentModel { ident: name@, arguments: Seq::empty() }],
            }),
    {
        let mut segments: Vec<PathSegment> = Vec::new();
        segments.push(PathSegment { ident: String::from_str(name), arguments: Vec::new() });
        let ty = DeclaredType { segments };
        proof {
            lemma_type_view(ty);
            assert(ty.segments@[0]@.arguments =~= Seq::<TypeModel>::empty());
            assert(ty@.segments =~= seq![SegmentModel { ident: name@, arguments: Seq::empty() }]);
        }
        ty
    }

    /// The type that is written as `name` with `argument` in angle brackets.
    pub fn generic(name: &str, argument: DeclaredType) -> (ty: DeclaredType)
        ensures
            ty@ == (TypeModel {
                segments: seq![SegmentModel { ident: name@, arguments: seq![argument@] }],
            }),
    {
        let mut arguments: Vec<DeclaredType> = Vec::new();
        arguments.push(argument);
        let mut segments: Vec<PathSegment> = Vec::new();
        segments.push(PathSegment { ident: String::from_str(name), arguments });
        let ty = DeclaredType { segments };
        proof {
            lemma_type_view(ty);
            assert(ty.segments@[0]@.arguments =~= seq![argument@]);
            assert(ty@.segments =~= seq![
                SegmentModel { ident: name@, arguments: seq![argument@] },
            ]);
        }
        ty
    }
}

/// A type is classified as optional exactly where it has an `Option` around
/// another type, and the shape inside is the shape of that type.
pub proof fn lemma_non_option(ty: TypeModel)
    ensures
        classify_type(ty) is Optional <==> ty.segments.len() > 0 && ty.segments.last().ident
            == "Option"@ && ty.segments.last().arguments.len() > 0,
        !(classify_type(ty) is Optional) ==> non_option(ty) == ty,
        classify_type(ty) is Optional ==> classify_type(ty) == ShapeModel::Optional(
            Box::new(classify_type(non_option(ty))),
        ),
{
    reveal_strlit("Option");
    reveal_strlit("Vec");
    assert("Option"@.len() == 6);
    assert("Vec"@.len() == 3);
}

} // verus!
