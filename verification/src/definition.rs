//! Record declarations and the definitions that are built from them.

use crate::shape::{
    classify_type, name_is, non_option, texts, type_paths, DeclaredType, ScalarAttributeType,
    ScalarKind, ShapeModel, TypeModel, TypeShape,
};
use vstd::prelude::*;

verus! {

/// The value given to an option of a marker.
#[derive(Debug, PartialEq, Eq)]
pub enum OptionValue {
    /// A string literal.
    Text(String),
    /// A literal that is no string.
    OtherLiteral,
    /// An expression that is no literal.
    NotLiteral,
}

/// An option of a marker, as `name = "units_produced"`.
#[derive(Debug, PartialEq, Eq)]
pub struct MarkerOption {
    pub name: String,
    pub value: OptionValue,
}

/// A marker on a field, as `hash_key` or `attribute(name = "units_produced")`.
#[derive(Debug, PartialEq, Eq)]
pub struct Marker {
    pub name: String,
    pub options: Vec<MarkerOption>,
}

/// A field of a record declaration.
#[derive(Debug, PartialEq, Eq)]
pub struct FieldDecl {
    pub ident: String,
    pub ty: DeclaredType,
    pub markers: Vec<Marker>,
}

/// The form of a declaration.
#[derive(Clone, Copy, Debug, PartialEq, Eq, Structural)]
pub enum DeclForm {
    /// A struct with named fields.
    NamedStruct,
    /// A struct without named fields.
    OtherStruct,
    /// An enum or a union.
    NotStruct,
}

/// A record declaration.
#[derive(Debug, PartialEq, Eq)]
pub struct RecordDecl {
    pub name: String,
    pub form: DeclForm,
    pub fields: Vec<FieldDecl>,
}

/// Why a declaration gives no definition.
#[derive(Clone, Copy, Debug, PartialEq, Eq, Structural)]
pub enum DefinitionError {
    /// The declaration is no struct.
    OnlyStructs,
    /// The struct has no named fields.
    OnlyNamedFields,
    /// A second field is marked as hash key.
    MultipleHashKeys,
    /// A second field is marked as sort key.
    MultipleSortKeys,
    /// An option of a marker has a literal for its value that is no string.
    ExpectedString,
    /// An option of a marker has a value that is no literal.
    ExpectedLiteral,
    /// The hash key may be absent.
    HashKeyOptional,
    /// The sort key may be absent.
    SortKeyOptional,
    /// No field is marked as hash key.
    MissingHashKey,
    /// The hash key is neither a string nor an integer.
    HashKeyNotScalar,
    /// The sort key is neither a string nor an integer.
    SortKeyNotScalar,
    /// A field of a nested record is marked as a key.
    KeyInNestedItem,
}

/// One attribute of a record: the field it comes from, its name on the wire
/// and its declared type.
#[derive(Debug, PartialEq, Eq)]
pub struct ItemAttribute {
    pub ident: String,
    pub attr_name: String,
    pub ty: DeclaredType,
}

/// The definition of a root item: its hash key, its sort key if it has one,
/// and its other attributes in the order of their declaration.
#[derive(Debug, PartialEq, Eq)]
pub struct ItemDefinition {
    pub name: String,
    pub hash_key: ItemAttribute,
    pub sort_key: Option<ItemAttribute>,
    pub other_attributes: Vec<ItemAttribute>,
}

/// The definition of a nested record: its attributes in the order of their
/// declaration.
#[derive(Debug, PartialEq, Eq)]
pub struct NestedItemDefinition {
    pub attributes: Vec<ItemAttribute>,
}

pub ghost enum OptionValueModel {
    Text(Seq<char>),
    OtherLiteral,
    NotLiteral,
}

pub ghost struct MarkerOptionModel {
    pub name: Seq<char>,
    pub value: OptionValueModel,
}

pub ghost struct MarkerModel {
    pub name: Seq<char>,
    pub options: Seq<MarkerOptionModel>,
}

pub ghost struct FieldModel {
    pub ident: Seq<char>,
    pub ty: TypeModel,
    pub markers: Seq<MarkerModel>,
}

pub ghost struct DeclModel {
    pub name: Seq<char>,
    pub form: DeclForm,
    pub fields: Seq<FieldModel>,
}

pub ghost struct AttributeModel {
    pub ident: Seq<char>,
    pub attr_name: Seq<char>,
    pub ty: TypeModel,
}

pub ghost struct DefinitionModel {
    pub name: Seq<char>,
    pub hash_key: AttributeModel,
    pub sort_key: Option<AttributeModel>,
    pub other_attributes: Seq<AttributeModel>,
}

impl View for OptionValue {
    type V = OptionValueModel;

    open spec fn view(&self) -> OptionValueModel {
        match self {
            OptionValue::Text(text) => OptionValueModel::Text(text@),
            OptionValue::OtherLiteral => OptionValueModel::OtherLiteral,
            OptionValue::NotLiteral => OptionValueModel::NotLiteral,
        }
    }
}

impl View for MarkerOption {
    type V = MarkerOptionModel;

    open spec fn view(&self) -> MarkerOptionModel {
        MarkerOptionModel { name: self.name@, value: self.value@ }
    }
}

/// The contents of a list of options.
pub open spec fn option_models(options: Seq<MarkerOption>) -> Seq<MarkerOptionModel> {
    Seq::new(options.len(), |i: int| options[i]@)
}

impl View for Marker {
    type V = MarkerModel;

    open spec fn view(&self) -> MarkerModel {
        MarkerModel {
            name: self.name@,
            options: option_models(self.options@),
        }
    }
}

/// The contents of a list of markers.
pub open spec fn marker_models(markers: Seq<Marker>) -> Seq<MarkerModel> {
    Seq::new(markers.len(), |i: int| markers[i]@)
}

impl View for FieldDecl {
    type V = FieldModel;

    open spec fn view(&self) -> FieldModel {
        FieldModel {
            ident: self.ident@,
            ty: self.ty@,
            markers: marker_models(self.markers@),
        }
    }
}

/// The contents of a list of fields.
pub open spec fn field_models(fields: Seq<FieldDecl>) -> Seq<FieldModel> {
    Seq::new(fields.len(), |i: int| fields[i]@)
}

impl View for RecordDecl {
    type V = DeclModel;

    open spec fn view(&self) -> DeclModel {
        DeclModel {
            name: self.name@,
            form: self.form,
            fields: field_models(self.fields@),
        }
    }
}

impl View for ItemAttribute {
    type V = AttributeModel;

    open spec fn view(&self) -> AttributeModel {
        AttributeModel { ident: self.ident@, attr_name: self.attr_name@, ty: self.ty@ }
    }
}

/// The contents of a list of attributes.
pub open spec fn attribute_models(attributes: Seq<ItemAttribute>) -> Seq<AttributeModel> {
    Seq::new(attributes.len(), |i: int| attributes[i]@)
}

impl View for ItemDefinition {
    type V = DefinitionModel;

    open spec fn view(&self) -> DefinitionModel {
        DefinitionModel {
            name: self.name@,
            hash_key: self.hash_key@,
            sort_key: match self.sort_key {
                Some(key) => Some(key@),
                None => None,
            },
            other_attributes: attribute_models(self.other_attributes@),
        }
    }
}

impl View for NestedItemDefinition {
    type V = Seq<AttributeModel>;

    open spec fn view(&self) -> Seq<AttributeModel> {
        attribute_models(self.attributes@)
    }
}

impl AttributeModel {
    /// The shape of the attribute's type.
    pub open spec fn shape(self) -> ShapeModel {
        classify_type(self.ty)
    }

    /// Whether the attribute may be absent.
    pub open spec fn is_optional(self) -> bool {
        self.shape() is Optional
    }

    /// Whether the attribute can be a key: a string or an integer.
    pub open spec fn is_scalar(self) -> bool {
        self.shape() is Scalar
    }
}

impl DefinitionModel {
    /// Both keys are scalars.
    pub open spec fn valid(self) -> bool {
        &&& self.hash_key.is_scalar()
        &&& match self.sort_key {
            Some(key) => key.is_scalar(),
            None => true,
        }
    }

    /// The key attributes: the hash key, then the sort key if there is one.
    pub open spec fn key_attributes(self) -> Seq<AttributeModel> {
        match self.sort_key {
            Some(key) => seq![self.hash_key, key],
            None => seq![self.hash_key],
        }
    }

    /// All attributes: the hash key, then the sort key if there is one, then
    /// the others in the order of their declaration.
    pub open spec fn all_attributes(self) -> Seq<AttributeModel> {
        self.key_attributes() + self.other_attributes
    }
}

/// The first marker of `markers` that is named `word`.
pub open spec fn first_marker(markers: Seq<MarkerModel>, word: Seq<char>) -> Option<MarkerModel>
    decreases markers.len(),
{
    if markers.len() == 0 {
        None
    } else if markers[0].name == word {
        Some(markers[0])
    } else {
        first_marker(markers.skip(1), word)
    }
}

/// The name that the options of a marker give to an attribute. The options
/// are read in order. The first one whose value is no string literal is an
/// error, whatever its name; of several options called `name` the last counts.
pub open spec fn rename_of(options: Seq<MarkerOptionModel>) -> Result<
    Option<Seq<char>>,
    DefinitionError,
>
    decreases options.len(),
{
    if options.len() == 0 {
        Ok(None)
    } else {
        match rename_of(options.drop_last()) {
            Err(e) => Err(e),
            Ok(before) => match options.last().value {
                OptionValueModel::Text(text) => if options.last().name == "name"@ {
                    Ok(Some(text))
                } else {
                    Ok(before)
                },
                OptionValueModel::OtherLiteral => Err(DefinitionError::ExpectedString),
                OptionValueModel::NotLiteral => Err(DefinitionError::ExpectedLiteral),
            },
        }
    }
}

/// The content of a marker that may be missing.
pub open spec fn marker_option(marker: Option<&Marker>) -> Option<MarkerModel> {
    match marker {
        Some(m) => Some(m@),
        None => None,
    }
}

/// The name that a marker gives to an attribute; a missing marker gives none.
pub open spec fn marker_rename(marker: Option<MarkerModel>) -> Result<
    Option<Seq<char>>,
    DefinitionError,
> {
    match marker {
        Some(m) => rename_of(m.options),
        None => Ok(None),
    }
}

/// The wire name of a field with the role marker `role` and the `attribute`
/// marker `plain`. Both markers are read, the role marker first, and a
/// malformed option of either is an error. The name that the `attribute`
/// marker gives counts on every field, whatever its role. Where it gives
/// none, the name that the role marker gives counts; where neither gives
/// one, the field's own name.
pub open spec fn wire_name(
    ident: Seq<char>,
    role: Option<MarkerModel>,
    plain: Option<MarkerModel>,
) -> Result<Seq<char>, DefinitionError> {
    match marker_rename(role) {
        Err(e) => Err(e),
        Ok(by_role) => match marker_rename(plain) {
            Err(e) => Err(e),
            Ok(Some(name)) => Ok(name),
            Ok(None) => match by_role {
                Some(name) => Ok(name),
                None => Ok(ident),
            },
        },
    }
}

/// What has been gathered of a root item while its fields are read.
pub ghost struct Gathered {
    pub hash_key: Option<AttributeModel>,
    pub sort_key: Option<AttributeModel>,
    pub other_attributes: Seq<AttributeModel>,
}

/// Reads one field of a root item. A field marked as hash key becomes the hash
/// key, one marked as sort key (and not as hash key) the sort key, any other a
/// plain attribute. The field's `attribute` marker names the attribute,
/// whatever the role; where it gives no name, the marker that assigns the
/// role does.
pub open spec fn gather_field(so_far: Gathered, field: FieldModel) -> Result<
    Gathered,
    DefinitionError,
> {
    let hash = first_marker(field.markers, "hash_key"@);
    let sort = first_marker(field.markers, "sort_key"@);
    let plain = first_marker(field.markers, "attribute"@);
    if hash.is_some() && so_far.hash_key.is_some() {
        Err(DefinitionError::MultipleHashKeys)
    } else if sort.is_some() && so_far.sort_key.is_some() {
        Err(DefinitionError::MultipleSortKeys)
    } else {
        let role = if hash.is_some() {
            hash
        } else {
            sort
        };
        match wire_name(field.ident, role, plain) {
            Err(e) => Err(e),
            Ok(attr_name) => {
                let attribute = AttributeModel { ident: field.ident, attr_name, ty: field.ty };
                if hash.is_some() {
                    if attribute.is_optional() {
                        Err(DefinitionError::HashKeyOptional)
                    } else {
                        Ok(Gathered { hash_key: Some(attribute), ..so_far })
                    }
                } else if sort.is_some() {
                    if attribute.is_optional() {
                        Err(DefinitionError::SortKeyOptional)
                    } else {
                        Ok(Gathered { sort_key: Some(attribute), ..so_far })
                    }
                } else {
                    Ok(
                        Gathered {
                            other_attributes: so_far.other_attributes.push(attribute),
                            ..so_far
                        },
                    )
                }
            },
        }
    }
}

/// Reads the first `n` fields of a root item, in order, up to the first error.
pub open spec fn gather_fields(fields: Seq<FieldModel>, n: nat) -> Result<
    Gathered,
    DefinitionError,
>
    decreases n,
{
    if n == 0 || n > fields.len() {
        Ok(Gathered { hash_key: None, sort_key: None, other_attributes: Seq::empty() })
    } else {
        match gather_fields(fields, (n - 1) as nat) {
            Err(e) => Err(e),
            Ok(so_far) => gather_field(so_far, fields[n - 1]),
        }
    }
}

/// The definition of the root item that `decl` declares, or the first rule
/// that the declaration breaks.
pub open spec fn build_item(decl: DeclModel) -> Result<DefinitionModel, DefinitionError> {
    match decl.form {
        DeclForm::NotStruct => Err(DefinitionError::OnlyStructs),
        DeclForm::OtherStruct => Err(DefinitionError::OnlyNamedFields),
        DeclForm::NamedStruct => match gather_fields(decl.fields, decl.fields.len()) {
            Err(e) => Err(e),
            Ok(gathered) => match gathered.hash_key {
                None => Err(DefinitionError::MissingHashKey),
                Some(hash_key) => if !hash_key.is_scalar() {
                    Err(DefinitionError::HashKeyNotScalar)
                } else if gathered.sort_key.is_some() && !gathered.sort_key.unwrap().is_scalar() {
                    Err(DefinitionError::SortKeyNotScalar)
                } else {
                    Ok(
                        DefinitionModel {
                            name: decl.name,
                            hash_key,
                            sort_key: gathered.sort_key,
                            other_attributes: gathered.other_attributes,
                        },
                    )
                },
            },
        },
    }
}

/// Reads one field of a nested record. It may carry no key marker; its
/// `attribute` marker names it.
pub open spec fn nested_field(field: FieldModel) -> Result<AttributeModel, DefinitionError> {
    if first_marker(field.markers, "hash_key"@).is_some() || first_marker(
        field.markers,
        "sort_key"@,
    ).is_some() {
        Err(DefinitionError::KeyInNestedItem)
    } else {
        match wire_name(field.ident, None, first_marker(field.markers, "attribute"@)) {
            Err(e) => Err(e),
            Ok(attr_name) => Ok(AttributeModel { ident: field.ident, attr_name, ty: field.ty }),
        }
    }
}

/// Reads the first `n` fields of a nested record, in order, up to the first
/// error.
pub open spec fn nested_fields(fields: Seq<FieldModel>, n: nat) -> Result<
    Seq<AttributeModel>,
    DefinitionError,
>
    decreases n,
{
    if n == 0 || n > fields.len() {
        Ok(Seq::empty())
    } else {
        match nested_fields(fields, (n - 1) as nat) {
            Err(e) => Err(e),
            Ok(so_far) => match nested_field(fields[n - 1]) {
                Err(e) => Err(e),
                Ok(attribute) => Ok(so_far.push(attribute)),
            },
        }
    }
}

/// The definition of the nested record that `decl` declares, or the first rule
/// that the declaration breaks.
pub open spec fn build_nested(decl: DeclModel) -> Result<Seq<AttributeModel>, DefinitionError> {
    match decl.form {
        DeclForm::NotStruct => Err(DefinitionError::OnlyStructs),
        DeclForm::OtherStruct => Err(DefinitionError::OnlyNamedFields),
        DeclForm::NamedStruct => nested_fields(decl.fields, decl.fields.len()),
    }
}

/// Whether a marker of this name is taken off the declaration once the
/// definition is built: the role markers of a root item, and `attribute`.
pub open spec fn is_stripped(name: Seq<char>, nested: bool) -> bool {
    name == "attribute"@ || (!nested && (name == "hash_key"@ || name == "sort_key"@))
}

/// The content of an attribute that may be missing.
pub open spec fn attribute_option(attribute: Option<ItemAttribute>) -> Option<AttributeModel> {
    match attribute {
        Some(a) => Some(a@),
        None => None,
    }
}

/// An error among the first fields is the error of the whole declaration.
pub proof fn lemma_gather_error(fields: Seq<FieldModel>, n: nat, m: nat)
    requires
        n <= m <= fields.len(),
        gather_fields(fields, n) is Err,
    ensures
        gather_fields(fields, m) == gather_fields(fields, n),
    decreases m,
{
    if n < m {
        lemma_gather_error(fields, n, (m - 1) as nat);
    }
}

/// An error among the first fields is the error of the whole declaration.
pub proof fn lemma_nested_error(fields: Seq<FieldModel>, n: nat, m: nat)
    requires
        n <= m <= fields.len(),
        nested_fields(fields, n) is Err,
    ensures
        nested_fields(fields, m) == nested_fields(fields, n),
    decreases m,
{
    if n < m {
        lemma_nested_error(fields, n, (m - 1) as nat);
    }
}

/// The first marker of `markers` that is named `word`.
pub fn find_marker<'a>(markers: &'a Vec<Marker>, word: &str) -> (found: Option<&'a Marker>)
    ensures
        match found {
            Some(marker) => first_marker(
                marker_models(markers@),
                word@,
            ) == Some(marker@),
            None => first_marker(marker_models(markers@), word@).is_none(),
        },
{
    let ghost all = marker_models(markers@);
    proof {
        assert(all.skip(0) =~= all);
    }
    let mut i: usize = 0;
    while i < markers.len()
        invariant
            i <= markers@.len(),
            all == marker_models(markers@),
            first_marker(all, word@) == first_marker(all.skip(i as int), word@),
        decreases markers@.len() - i,
    {
        proof {
            assert(all.skip(i as int)[0] == markers@[i as int]@);
            assert(all.skip(i as int).skip(1) =~= all.skip(i + 1));
        }
        if name_is(&markers[i].name, word) {
            return Some(&markers[i]);
        }
        i += 1;
    }
    None
}

/// The name that the options of a marker give to an attribute.
pub fn rename(options: &Vec<MarkerOption>) -> (renamed: Result<Option<String>, DefinitionError>)
    ensures
        rename_outcome(renamed) == rename_of(option_models(options@)),
{
    let ghost all = option_models(options@);
    let mut name: Option<String> = None;
    let mut i: usize = 0;
    while i < options.len()
        invariant
            i <= options@.len(),
            all == option_models(options@),
            rename_of(all.take(i as int)) == Ok::<Option<Seq<char>>, DefinitionError>(
                match name {
                    Some(n) => Some(n@),
                    None => None,
                },
            ),
        decreases options@.len() - i,
    {
        proof {
            assert(all.take(i + 1).drop_last() =~= all.take(i as int));
            assert(all.take(i + 1).last() == options@[i as int]@);
        }
        match &options[i].value {
            OptionValue::Text(text) => {
                if name_is(&options[i].name, "name") {
                    name = Some(text.clone());
                }
            },
            OptionValue::OtherLiteral => {
                proof {
                    lemma_rename_error(all, (i + 1) as nat);
                }
                return Err(DefinitionError::ExpectedString);
            },
            OptionValue::NotLiteral => {
                proof {
                    lemma_rename_error(all, (i + 1) as nat);
                }
                return Err(DefinitionError::ExpectedLiteral);
            },
        }
        i += 1;
    }
    proof {
        assert(all.take(options@.len() as int) =~= all);
    }
    Ok(name)
}

/// An error among the first options is the error of all the options.
pub proof fn lemma_rename_error(options: Seq<MarkerOptionModel>, n: nat)
    requires
        n <= options.len(),
        rename_of(options.take(n as int)) is Err,
    ensures
        rename_of(options) == rename_of(options.take(n as int)),
    decreases options.len(),
{
    if n < options.len() {
        assert(options.drop_last().take(n as int) =~= options.take(n as int));
        lemma_rename_error(options.drop_last(), n);
    } else {
        assert(options.take(n as int) =~= options);
    }
}

/// The content of the outcome of reading the name that a marker gives.
pub open spec fn rename_outcome(outcome: Result<Option<String>, DefinitionError>) -> Result<
    Option<Seq<char>>,
    DefinitionError,
> {
    match outcome {
        Ok(Some(name)) => Ok(Some(name@)),
        Ok(None) => Ok(None),
        Err(e) => Err(e),
    }
}

/// The name that a marker gives to an attribute; a missing marker gives none.
fn marker_name(marker: Option<&Marker>) -> (named: Result<Option<String>, DefinitionError>)
    ensures
        rename_outcome(named) == marker_rename(marker_option(marker)),
{
    match marker {
        Some(m) => rename(&m.options),
        None => Ok(None),
    }
}

/// The content of the outcome of naming an attribute.
pub open spec fn named_outcome(outcome: Result<String, DefinitionError>) -> Result<
    Seq<char>,
    DefinitionError,
> {
    match outcome {
        Ok(name) => Ok(name@),
        Err(e) => Err(e),
    }
}

/// The wire name of a field with the role marker `role` and the `attribute`
/// marker `plain`: the name that the `attribute` marker gives, or else the
/// name that the role marker gives, or else the field's own name.
fn attribute_name(ident: &String, role: Option<&Marker>, plain: Option<&Marker>) -> (named: Result<
    String,
    DefinitionError,
>)
    ensures
        named_outcome(named) == wire_name(ident@, marker_option(role), marker_option(plain)),
{
    let by_role = match marker_name(role) {
        Ok(name) => name,
        Err(e) => {
            return Err(e);
        },
    };
    match marker_name(plain) {
        Err(e) => Err(e),
        Ok(Some(name)) => Ok(name),
        Ok(None) => match by_role {
            Some(name) => Ok(name),
            None => Ok(ident.clone()),
        },
    }
}

impl ItemAttribute {
    /// The shape of the attribute's type.
    pub fn shape(&self) -> (shape: TypeShape)
        ensures
            shape@ == self@.shape(),
    {
        self.ty.classify()
    }

    /// Whether the attribute may be absent.
    pub fn is_option(&self) -> (optional: bool)
        ensures
            optional == self@.is_optional(),
    {
        match self.ty.classify() {
            TypeShape::Optional(_) => true,
            _ => false,
        }
    }

    /// Every name that occurs in the attribute's type, in the order in which
    /// it is written.
    pub fn type_paths(&self) -> (idents: Vec<String>)
        ensures
            texts(idents@) == type_paths(self@.ty),
    {
        self.ty.type_paths()
    }

    /// The attribute's type without the `Option` around it, if it has one.
    pub fn ty_non_option(&self) -> (inner: &DeclaredType)
        ensures
            inner@ == non_option(self@.ty),
    {
        self.ty.non_option()
    }

    /// The attribute type under which the store keeps the attribute as a key:
    /// `S` for a string, `N` for an integer, none for any other shape.
    pub fn scalar_type(&self) -> (kind: Option<ScalarAttributeType>)
        ensures
            kind == match self@.shape() {
                ShapeModel::Scalar(scalar) => Some(scalar.attribute_type()),
                _ => None,
            },
    {
        match self.ty.classify() {
            TypeShape::Scalar(ScalarKind::Text) => Some(ScalarAttributeType::S),
            TypeShape::Scalar(ScalarKind::Int(_)) => Some(ScalarAttributeType::N),
            _ => None,
        }
    }
}

/// The content of the outcome of building a root item.
pub open spec fn item_outcome(outcome: Result<ItemDefinition, DefinitionError>) -> Result<
    DefinitionModel,
    DefinitionError,
> {
    match outcome {
        Ok(definition) => Ok(definition@),
        Err(e) => Err(e),
    }
}

/// The content of the outcome of building a nested record.
pub open spec fn nested_outcome(outcome: Result<NestedItemDefinition, DefinitionError>) -> Result<
    Seq<AttributeModel>,
    DefinitionError,
> {
    match outcome {
        Ok(definition) => Ok(definition@),
        Err(e) => Err(e),
    }
}

impl ItemDefinition {
    /// Builds the definition of the root item that `decl` declares. The fields
    /// are read in order and the first broken rule is reported: a second hash
    /// or sort key, a malformed option of the field's role marker or of its
    /// `attribute` marker, a key that may be absent. After the fields: a
    /// missing hash key, then a key that is no scalar. The `attribute` marker
    /// names the attribute on every field; the role marker does where the
    /// `attribute` marker gives no name.
    pub fn new(decl: &RecordDecl) -> (outcome: Result<ItemDefinition, DefinitionError>)
        ensures
            item_outcome(outcome) == build_item(decl@),
            outcome is Ok ==> outcome.unwrap()@.valid(),
    {
        match decl.form {
            DeclForm::NotStruct => {
                return Err(DefinitionError::OnlyStructs);
            },
            DeclForm::OtherStruct => {
                return Err(DefinitionError::OnlyNamedFields);
            },
            DeclForm::NamedStruct => {},
        }
        let ghost fields = decl@.fields;
        let mut hash_key: Option<ItemAttribute> = None;
        let mut sort_key: Option<ItemAttribute> = None;
        let mut other_attributes: Vec<ItemAttribute> = Vec::new();
        proof {
            assert(attribute_models(other_attributes@) =~= Seq::<AttributeModel>::empty());
        }
        let mut i: usize = 0;
        while i < decl.fields.len()
            invariant
                i <= decl.fields@.len(),
                fields == decl@.fields,
                fields.len() == decl.fields@.len(),
                decl.form == DeclForm::NamedStruct,
                gather_fields(fields, i as nat) == Ok::<Gathered, DefinitionError>(
                    Gathered {
                        hash_key: attribute_option(hash_key),
                        sort_key: attribute_option(sort_key),
                        other_attributes: attribute_models(other_attributes@),
                    },
                ),
            decreases decl.fields@.len() - i,
        {
            let field = &decl.fields[i];
            proof {
                assert(fields[i as int] == field@);
            }
            let hash = find_marker(&field.markers, "hash_key");
            let sort = find_marker(&field.markers, "sort_key");
            let plain = find_marker(&field.markers, "attribute");
            if hash.is_some() && hash_key.is_some() {
                proof {
                    lemma_gather_error(fields, (i + 1) as nat, fields.len());
                }
                return Err(DefinitionError::MultipleHashKeys);
            }
            if sort.is_some() && sort_key.is_some() {
                proof {
                    lemma_gather_error(fields, (i + 1) as nat, fields.len());
                }
                return Err(DefinitionError::MultipleSortKeys);
            }
            let role = if hash.is_some() {
                hash
            } else {
                sort
            };
            let attr_name = match attribute_name(&field.ident, role, plain) {
                Ok(name) => name,
                Err(e) => {
                    proof {
                        lemma_gather_error(fields, (i + 1) as nat, fields.len());
                    }
                    return Err(e);
                },
            };
            let attribute = ItemAttribute {
                ident: field.ident.clone(),
                attr_name,
                ty: field.ty.clone(),
            };
            if hash.is_some() {
                if attribute.is_option() {
                    proof {
                        lemma_gather_error(fields, (i + 1) as nat, fields.len());
                    }
                    return Err(DefinitionError::HashKeyOptional);
                }
                hash_key = Some(attribute);
            } else if sort.is_some() {
                if attribute.is_option() {
                    proof {
                        lemma_gather_error(fields, (i + 1) as nat, fields.len());
                    }
                    return Err(DefinitionError::SortKeyOptional);
                }
                sort_key = Some(attribute);
            } else {
                let ghost before = attribute_models(other_attributes@);
                other_attributes.push(attribute);
                proof {
                    assert(attribute_models(other_attributes@) =~= before.push(attribute@));
                }
            }
            i += 1;
        }
        match hash_key {
            None => Err(DefinitionError::MissingHashKey),
            Some(hash_key) => {
                if hash_key.scalar_type().is_none() {
                    return Err(DefinitionError::HashKeyNotScalar);
                }
                let sort_is_scalar = match &sort_key {
                    Some(key) => key.scalar_type().is_some(),
                    None => true,
                };
                if !sort_is_scalar {
                    return Err(DefinitionError::SortKeyNotScalar);
                }
                Ok(ItemDefinition { name: decl.name.clone(), hash_key, sort_key, other_attributes })
            },
        }
    }

    /// All attributes: the hash key, then the sort key if there is one, then
    /// the others in the order of their declaration.
    pub fn all_attributes(&self) -> (all: Vec<&ItemAttribute>)
        ensures
            all@.len() == self@.all_attributes().len(),
            forall|i: int|
                0 <= i < all@.len() ==> (#[trigger] all@[i])@ == self@.all_attributes()[i],
    {
        let mut all: Vec<&ItemAttribute> = Vec::new();
        all.push(&self.hash_key);
        match &self.sort_key {
            Some(key) => {
                all.push(key);
            },
            None => {},
        }
        let ghost keys = all@;
        let mut i: usize = 0;
        while i < self.other_attributes.len()
            invariant
                i <= self.other_attributes@.len(),
                keys.len() == self@.key_attributes().len(),
                forall|k: int|
                    0 <= k < keys.len() ==> (#[trigger] keys[k])@ == self@.key_attributes()[k],
                all@.len() == keys.len() + i,
                forall|k: int| 0 <= k < keys.len() ==> (#[trigger] all@[k]) == keys[k],
                forall|k: int|
                    0 <= k < i ==> *(#[trigger] all@[keys.len() + k])
                        == self.other_attributes@[k],
            decreases self.other_attributes@.len() - i,
        {
            all.push(&self.other_attributes[i]);
            i += 1;
        }
        proof {
            assert forall|k: int| 0 <= k < all@.len() implies (#[trigger] all@[k])@
                == self@.all_attributes()[k] by {
                if k < keys.len() {
                    assert(all@[k] == keys[k]);
                } else {
                    assert(*all@[keys.len() + (k - keys.len())] == self.other_attributes@[k
                        - keys.len()]);
                }
            }
        }
        all
    }
}

impl NestedItemDefinition {
    /// Builds the definition of the nested record that `decl` declares. The
    /// fields are read in order and the first broken rule is reported: a field
    /// marked as a key, or a malformed option of its `attribute` marker.
    pub fn new(decl: &RecordDecl) -> (outcome: Result<NestedItemDefinition, DefinitionError>)
        ensures
            nested_outcome(outcome) == build_nested(decl@),
    {
        match decl.form {
            DeclForm::NotStruct => {
                return Err(DefinitionError::OnlyStructs);
            },
            DeclForm::OtherStruct => {
                return Err(DefinitionError::OnlyNamedFields);
            },
            DeclForm::NamedStruct => {},
        }
        let ghost fields = decl@.fields;
        let mut attributes: Vec<ItemAttribute> = Vec::new();
        proof {
            assert(attribute_models(attributes@) =~= Seq::<AttributeModel>::empty());
        }
        let mut i: usize = 0;
        while i < decl.fields.len()
            invariant
                i <= decl.fields@.len(),
                fields == decl@.fields,
                fields.len() == decl.fields@.len(),
                decl.form == DeclForm::NamedStruct,
                nested_fields(fields, i as nat) == Ok::<Seq<AttributeModel>, DefinitionError>(
                    attribute_models(attributes@),
                ),
            decreases decl.fields@.len() - i,
        {
            let field = &decl.fields[i];
            proof {
                assert(fields[i as int] == field@);
            }
            let hash = find_marker(&field.markers, "hash_key");
            let sort = find_marker(&field.markers, "sort_key");
            if hash.is_some() || sort.is_some() {
                proof {
                    lemma_nested_error(fields, (i + 1) as nat, fields.len());
                }
                return Err(DefinitionError::KeyInNestedItem);
            }
            let plain = find_marker(&field.markers, "attribute");
            let attr_name = match attribute_name(&field.ident, None, plain) {
                Ok(name) => name,
                Err(e) => {
                    proof {
                        lemma_nested_error(fields, (i + 1) as nat, fields.len());
                    }
                    return Err(e);
                },
            };
            let attribute = ItemAttribute {
                ident: field.ident.clone(),
                attr_name,
                ty: field.ty.clone(),
            };
            let ghost before = attribute_models(attributes@);
            attributes.push(attribute);
            proof {
                assert(attribute_models(attributes@) =~= before.push(attribute@));
            }
            i += 1;
        }
        Ok(NestedItemDefinition { attributes })
    }
}

/// Whether a marker of this name is taken off the declaration once the
/// definition is built.
pub fn strips(name: &String, nested: bool) -> (stripped: bool)
    ensures
        stripped == is_stripped(name@, nested),
{
    name_is(name, "attribute") || (!nested && (name_is(name, "hash_key") || name_is(
        name,
        "sort_key",
    )))
}

/// Whether a field carries a marker of the name.
pub open spec fn is_marked(field: FieldModel, word: Seq<char>) -> bool {
    first_marker(field.markers, word).is_some()
}

/// The name that the `attribute` marker of a field gives is the wire name
/// of the attribute that the field becomes, whatever its role: hash key,
/// sort key or plain attribute.
pub proof fn lemma_rename_on_every_field(so_far: Gathered, field: FieldModel, name: Seq<char>)
    requires
        marker_rename(first_marker(field.markers, "attribute"@)) == Ok::<
            Option<Seq<char>>,
            DefinitionError,
        >(Some(name)),
        gather_field(so_far, field) is Ok,
    ensures
        ({
            let renamed = AttributeModel { ident: field.ident, attr_name: name, ty: field.ty };
            let gathered = gather_field(so_far, field).unwrap();
            if is_marked(field, "hash_key"@) {
                gathered.hash_key == Some(renamed)
            } else if is_marked(field, "sort_key"@) {
                gathered.sort_key == Some(renamed)
            } else {
                gathered.other_attributes == so_far.other_attributes.push(renamed)
            }
        }),
{
}

/// A field without a name from any marker is named by its identifier.
pub proof fn lemma_default_name(so_far: Gathered, field: FieldModel)
    requires
        marker_rename(first_marker(field.markers, "attribute"@)) == Ok::<
            Option<Seq<char>>,
            DefinitionError,
        >(None),
        marker_rename(first_marker(field.markers, "hash_key"@)) == Ok::<
            Option<Seq<char>>,
            DefinitionError,
        >(None),
        marker_rename(first_marker(field.markers, "sort_key"@)) == Ok::<
            Option<Seq<char>>,
            DefinitionError,
        >(None),
        gather_field(so_far, field) is Ok,
    ensures
        ({
            let plain = AttributeModel { ident: field.ident, attr_name: field.ident, ty: field.ty };
            let gathered = gather_field(so_far, field).unwrap();
            if is_marked(field, "hash_key"@) {
                gathered.hash_key == Some(plain)
            } else if is_marked(field, "sort_key"@) {
                gathered.sort_key == Some(plain)
            } else {
                gathered.other_attributes == so_far.other_attributes.push(plain)
            }
        }),
{
}

/// Where the fields are read without error, so is every shorter run of them.
pub proof fn lemma_gather_prefix(fields: Seq<FieldModel>, n: nat, m: nat)
    requires
        n <= m <= fields.len(),
        gather_fields(fields, m) is Ok,
    ensures
        gather_fields(fields, n) is Ok,
{
    if gather_fields(fields, n) is Err {
        lemma_gather_error(fields, n, m);
    }
}

/// Once a hash key is gathered, it stays: reading more fields without error
/// leaves a hash key in place.
pub proof fn lemma_hash_key_stays(fields: Seq<FieldModel>, n: nat, m: nat)
    requires
        n <= m <= fields.len(),
        gather_fields(fields, n) is Ok,
        gather_fields(fields, n).unwrap().hash_key is Some,
        gather_fields(fields, m) is Ok,
    ensures
        gather_fields(fields, m).unwrap().hash_key is Some,
    decreases m,
{
    if n < m {
        lemma_gather_prefix(fields, (m - 1) as nat, m);
        lemma_hash_key_stays(fields, n, (m - 1) as nat);
    }
}

/// A declaration of a root item in which two fields are marked as hash key
/// gives no definition.
pub proof fn lemma_two_hash_keys_rejected(decl: DeclModel, i: int, j: int)
    requires
        0 <= i < j < decl.fields.len(),
        is_marked(decl.fields[i], "hash_key"@),
        is_marked(decl.fields[j], "hash_key"@),
    ensures
        build_item(decl) is Err,
{
    let fields = decl.fields;
    if gather_fields(fields, fields.len()) is Ok {
        lemma_gather_prefix(fields, (i + 1) as nat, fields.len());
        lemma_gather_prefix(fields, i as nat, fields.len());
        lemma_gather_prefix(fields, (j + 1) as nat, fields.len());
        lemma_gather_prefix(fields, j as nat, fields.len());
        assert(gather_fields(fields, (i + 1) as nat).unwrap().hash_key is Some);
        lemma_hash_key_stays(fields, (i + 1) as nat, j as nat);
        assert(gather_fields(fields, (j + 1) as nat) is Err);
    }
}

/// A declaration of a root item in which two fields are marked as sort key,
/// neither of them as hash key, gives no definition.
pub proof fn lemma_two_sort_keys_rejected(decl: DeclModel, i: int, j: int)
    requires
        0 <= i < j < decl.fields.len(),
        is_marked(decl.fields[i], "sort_key"@),
        !is_marked(decl.fields[i], "hash_key"@),
        is_marked(decl.fields[j], "sort_key"@),
    ensures
        build_item(decl) is Err,
{
    let fields = decl.fields;
    if gather_fields(fields, fields.len()) is Ok {
        lemma_gather_prefix(fields, (i + 1) as nat, fields.len());
        lemma_gather_prefix(fields, i as nat, fields.len());
        lemma_gather_prefix(fields, (j + 1) as nat, fields.len());
        lemma_gather_prefix(fields, j as nat, fields.len());
        assert(gather_fields(fields, (i + 1) as nat).unwrap().sort_key is Some);
        lemma_sort_key_stays(fields, (i + 1) as nat, j as nat);
        assert(gather_fields(fields, (j + 1) as nat) is Err);
    }
}

/// Once a sort key is gathered, it stays.
pub proof fn lemma_sort_key_stays(fields: Seq<FieldModel>, n: nat, m: nat)
    requires
        n <= m <= fields.len(),
        gather_fields(fields, n) is Ok,
        gather_fields(fields, n).unwrap().sort_key is Some,
        gather_fields(fields, m) is Ok,
    ensures
        gather_fields(fields, m).unwrap().sort_key is Some,
    decreases m,
{
    if n < m {
        lemma_gather_prefix(fields, (m - 1) as nat, m);
        lemma_sort_key_stays(fields, n, (m - 1) as nat);
    }
}

/// A declaration of a root item whose hash key may be absent gives no
/// definition; nor does one whose sort key may be absent.
pub proof fn lemma_optional_key_rejected(decl: DeclModel, i: int)
    requires
        0 <= i < decl.fields.len(),
        is_marked(decl.fields[i], "hash_key"@) || is_marked(decl.fields[i], "sort_key"@),
        classify_type(decl.fields[i].ty) is Optional,
    ensures
        build_item(decl) is Err,
{
    let fields = decl.fields;
    if gather_fields(fields, fields.len()) is Ok {
        lemma_gather_prefix(fields, (i + 1) as nat, fields.len());
        lemma_gather_prefix(fields, i as nat, fields.len());
        assert(gather_fields(fields, (i + 1) as nat) is Err);
    }
}

/// Where none of the first fields is marked as hash key, no hash key is
/// gathered from them.
pub proof fn lemma_no_hash_key(fields: Seq<FieldModel>, n: nat)
    requires
        n <= fields.len(),
        forall|i: int| 0 <= i < n ==> !is_marked(#[trigger] fields[i], "hash_key"@),
        gather_fields(fields, n) is Ok,
    ensures
        gather_fields(fields, n).unwrap().hash_key is None,
    decreases n,
{
    if n > 0 {
        lemma_gather_prefix(fields, (n - 1) as nat, n);
        lemma_no_hash_key(fields, (n - 1) as nat);
        assert(!is_marked(fields[n - 1], "hash_key"@));
    }
}

/// A declaration of a root item in which no field is marked as hash key
/// gives no definition.
pub proof fn lemma_missing_hash_key_rejected(decl: DeclModel)
    requires
        forall|i: int| 0 <= i < decl.fields.len() ==> !is_marked(
            #[trigger] decl.fields[i],
            "hash_key"@,
        ),
    ensures
        build_item(decl) is Err,
{
    if gather_fields(decl.fields, decl.fields.len()) is Ok {
        lemma_no_hash_key(decl.fields, decl.fields.len());
    }
}

/// A declaration of a nested record in which a field is marked as a key
/// gives no definition.
pub proof fn lemma_nested_key_rejected(decl: DeclModel, i: int)
    requires
        0 <= i < decl.fields.len(),
        is_marked(decl.fields[i], "hash_key"@) || is_marked(decl.fields[i], "sort_key"@),
    ensures
        build_nested(decl) is Err,
{
    let fields = decl.fields;
    if nested_fields(fields, fields.len()) is Ok {
        if nested_fields(fields, (i + 1) as nat) is Err {
            lemma_nested_error(fields, (i + 1) as nat, fields.len());
        }
        if nested_fields(fields, i as nat) is Err {
            lemma_nested_error(fields, i as nat, fields.len());
        }
        assert(nested_fields(fields, (i + 1) as nat) is Err);
    }
}

/// The hash key of a definition comes from a field that is marked as hash
/// key, wherever among the fields it is declared; its sort key, if it has
/// one, from a field marked as sort key.
pub proof fn lemma_keys_are_marked(fields: Seq<FieldModel>, n: nat)
    requires
        n <= fields.len(),
        gather_fields(fields, n) is Ok,
    ensures
        match gather_fields(fields, n).unwrap().hash_key {
            Some(key) => exists|i: int|
                0 <= i < n && is_marked(#[trigger] fields[i], "hash_key"@) && fields[i].ident
                    == key.ident,
            None => true,
        },
        match gather_fields(fields, n).unwrap().sort_key {
            Some(key) => exists|i: int|
                0 <= i < n && is_marked(#[trigger] fields[i], "sort_key"@) && fields[i].ident
                    == key.ident,
            None => true,
        },
    decreases n,
{
    if n > 0 {
        lemma_gather_prefix(fields, (n - 1) as nat, n);
        lemma_keys_are_marked(fields, (n - 1) as nat);
        let before = gather_fields(fields, (n - 1) as nat).unwrap();
        let after = gather_fields(fields, n).unwrap();
        let field = fields[n - 1];
        match after.hash_key {
            Some(key) => {
                if is_marked(field, "hash_key"@) {
                    assert(is_marked(fields[n - 1], "hash_key"@) && fields[n - 1].ident
                        == key.ident);
                } else {
                    assert(before.hash_key == after.hash_key);
                    let i = choose|i: int|
                        0 <= i < n - 1 && is_marked(#[trigger] fields[i], "hash_key"@)
                            && fields[i].ident == key.ident;
                    assert(is_marked(fields[i], "hash_key"@) && fields[i].ident == key.ident);
                }
            },
            None => {},
        }
        match after.sort_key {
            Some(key) => {
                if !is_marked(field, "hash_key"@) && is_marked(field, "sort_key"@) {
                    assert(is_marked(fields[n - 1], "sort_key"@) && fields[n - 1].ident
                        == key.ident);
                } else {
                    assert(before.sort_key == after.sort_key);
                    let i = choose|i: int|
                        0 <= i < n - 1 && is_marked(#[trigger] fields[i], "sort_key"@)
                            && fields[i].ident == key.ident;
                    assert(is_marked(fields[i], "sort_key"@) && fields[i].ident == key.ident);
                }
            },
            None => {},
        }
    }
}

/// What is said of a declaration that gives no definition.
pub open spec fn message_of(error: DefinitionError) -> Seq<char> {
    match error {
        DefinitionError::OnlyStructs => "Only structs are supported"@,
        DefinitionError::OnlyNamedFields => "Only named fields are supported"@,
        DefinitionError::MultipleHashKeys => "Multiple attributes with #[hash_key]"@,
        DefinitionError::MultipleSortKeys => "Multiple attributes with #[sort_key]"@,
        DefinitionError::ExpectedString => "Expected value to be String"@,
        DefinitionError::ExpectedLiteral => "Expected value to be literal"@,
        DefinitionError::HashKeyOptional => "Hash key cannot be Option type"@,
        DefinitionError::SortKeyOptional => "Sort key cannot be Option type"@,
        DefinitionError::MissingHashKey => "#[hash_key] must be defined"@,
        DefinitionError::HashKeyNotScalar => "Hash key must be a string or an integer"@,
        DefinitionError::SortKeyNotScalar => "Sort key must be a string or an integer"@,
        DefinitionError::KeyInNestedItem => "A nested item cannot have a key"@,
    }
}

impl DefinitionError {
    /// What is said of a declaration that gives no definition.
    pub fn message(&self) -> (text: String)
        ensures
            text@ == message_of(*self),
    {
        match self {
            DefinitionError::OnlyStructs => String::from_str("Only structs are supported"),
            DefinitionError::OnlyNamedFields => String::from_str("Only named fields are supported"),
            DefinitionError::MultipleHashKeys => String::from_str(
                "Multiple attributes with #[hash_key]",
            ),
            DefinitionError::MultipleSortKeys => String::from_str(
                "Multiple attributes with #[sort_key]",
            ),
            DefinitionError::ExpectedString => String::from_str("Expected value to be String"),
            DefinitionError::ExpectedLiteral => String::from_str("Expected value to be literal"),
            DefinitionError::HashKeyOptional => String::from_str("Hash key cannot be Option type"),
            DefinitionError::SortKeyOptional => String::from_str("Sort key cannot be Option type"),
            DefinitionError::MissingHashKey => String::from_str("#[hash_key] must be defined"),
            DefinitionError::HashKeyNotScalar => String::from_str(
                "Hash key must be a string or an integer",
            ),
            DefinitionError::SortKeyNotScalar => String::from_str(
                "Sort key must be a string or an integer",
            ),
            DefinitionError::KeyInNestedItem => String::from_str("A nested item cannot have a key"),
        }
    }
}

impl Marker {
    /// A marker without options, as `hash_key`.
    pub fn plain(name: &str) -> (marker: Marker)
        ensures
            marker@ == (MarkerModel { name: name@, options: Seq::empty() }),
    {
        let marker = Marker { name: String::from_str(name), options: Vec::new() };
        assert(marker@.options =~= Seq::<MarkerOptionModel>::empty());
        marker
    }

    /// A marker that gives the attribute a wire name, as
    /// `attribute(name = "units_produced")`.
    pub fn renamed(name: &str, wire_name: &str) -> (marker: Marker)
        ensures
            marker@ == (MarkerModel {
                name: name@,
                options: seq![
                    MarkerOptionModel {
                        name: "name"@,
                        value: OptionValueModel::Text(wire_name@),
                    },
                ],
            }),
    {
        let mut options: Vec<MarkerOption> = Vec::new();
        options.push(
            MarkerOption {
                name: String::from_str("name"),
                value: OptionValue::Text(String::from_str(wire_name)),
            },
        );
        let marker = Marker { name: String::from_str(name), options };
        assert(marker@.options =~= seq![
            MarkerOptionModel { name: "name"@, value: OptionValueModel::Text(wire_name@) },
        ]);
        marker
    }
}

impl FieldDecl {
    /// The field `ident` of type `ty` with its markers.
    pub fn new(ident: &str, ty: DeclaredType, markers: Vec<Marker>) -> (field: FieldDecl)
        ensures
            field@ == (FieldModel { ident: ident@, ty: ty@, markers: marker_models(markers@) }),
    {
        FieldDecl { ident: String::from_str(ident), ty, markers }
    }
}

impl RecordDecl {
    /// The struct `name` with these named fields.
    pub fn new(name: &str, fields: Vec<FieldDecl>) -> (decl: RecordDecl)
        ensures
            decl@ == (DeclModel {
                name: name@,
                form: DeclForm::NamedStruct,
                fields: field_models(fields@),
            }),
    {
        RecordDecl { name: String::from_str(name), form: DeclForm::NamedStruct, fields }
    }
}

/// The first `n` markers without those that are taken off.
pub open spec fn kept_markers(markers: Seq<MarkerModel>, nested: bool, n: nat) -> Seq<MarkerModel>
    decreases n,
{
    if n == 0 || n > markers.len() {
        Seq::empty()
    } else {
        let before = kept_markers(markers, nested, (n - 1) as nat);
        if is_stripped(markers[n - 1].name, nested) {
            before
        } else {
            before.push(markers[n - 1])
        }
    }
}

/// The field as it is emitted: without the markers that are taken off.
pub open spec fn stripped_field(field: FieldModel, nested: bool) -> FieldModel {
    FieldModel { markers: kept_markers(field.markers, nested, field.markers.len()), ..field }
}

/// The declaration as it is emitted: each field without the markers that are
/// taken off, and nothing else changed.
pub open spec fn stripped(decl: DeclModel, nested: bool) -> DeclModel {
    DeclModel {
        fields: Seq::new(decl.fields.len(), |i: int| stripped_field(decl.fields[i], nested)),
        ..decl
    }
}

/// Takes the markers that the definition was built from off the declaration:
/// `hash_key`, `sort_key` and `attribute` off a root item, `attribute` off a
/// nested record. Every other marker stays, in its place.
pub fn strip_markers(decl: RecordDecl, nested: bool) -> (emitted: RecordDecl)
    ensures
        emitted@ == stripped(decl@, nested),
{
    let ghost before = decl@;
    let name = decl.name;
    let form = decl.form;
    let ghost all = decl.fields@;
    let mut fields: Vec<FieldDecl> = Vec::new();
    for field in it: decl.fields
        invariant
            it.seq() == all,
            fields@.len() == it.index(),
            forall|i: int|
                0 <= i < it.index() ==> (#[trigger] fields@[i])@ == stripped_field(all[i]@, nested),
    {
        let ghost model = field@;
        let ghost old_markers = field.markers@;
        let ident = field.ident;
        let ty = field.ty;
        let mut markers: Vec<Marker> = Vec::new();
        proof {
            assert(marker_models(markers@) =~= Seq::<MarkerModel>::empty());
        }
        for marker in mi: field.markers
            invariant
                mi.seq() == old_markers,
                model.markers == marker_models(old_markers),
                marker_models(markers@) == kept_markers(model.markers, nested, mi.index() as nat),
        {
            let ghost kept = marker_models(markers@);
            proof {
                assert(model.markers[mi.index()] == marker@);
            }
            if !strips(&marker.name, nested) {
                markers.push(marker);
                proof {
                    assert(marker_models(markers@) =~= kept.push(marker@));
                }
            }
        }
        fields.push(FieldDecl { ident, ty, markers });
    }
    let emitted = RecordDecl { name, form, fields };
    proof {
        assert(emitted@.fields =~= stripped(before, nested).fields);
    }
    emitted
}

/// The definition built from a declaration: that of a root item or that of a
/// nested record.
#[derive(Debug, PartialEq, Eq)]
pub enum RecordDefinition {
    /// A root item: exactly one hash key, at most one sort key.
    Root(ItemDefinition),
    /// A nested record: no keys.
    Nested(NestedItemDefinition),
}

/// The mathematical content of a record definition.
pub ghost enum RecordDefinitionModel {
    Root(DefinitionModel),
    Nested(Seq<AttributeModel>),
}

impl View for RecordDefinition {
    type V = RecordDefinitionModel;

    open spec fn view(&self) -> RecordDefinitionModel {
        match self {
            RecordDefinition::Root(definition) => RecordDefinitionModel::Root(definition@),
            RecordDefinition::Nested(definition) => RecordDefinitionModel::Nested(definition@),
        }
    }
}

/// The definition that a declaration gives, as a root item or as a nested
/// record, or the first rule that it breaks.
pub open spec fn build_record(decl: DeclModel, nested: bool) -> Result<
    RecordDefinitionModel,
    DefinitionError,
> {
    if nested {
        match build_nested(decl) {
            Ok(attributes) => Ok(RecordDefinitionModel::Nested(attributes)),
            Err(e) => Err(e),
        }
    } else {
        match build_item(decl) {
            Ok(definition) => Ok(RecordDefinitionModel::Root(definition)),
            Err(e) => Err(e),
        }
    }
}

/// The content of the outcome of building a definition.
pub open spec fn record_outcome(outcome: Result<RecordDefinition, DefinitionError>) -> Result<
    RecordDefinitionModel,
    DefinitionError,
> {
    match outcome {
        Ok(definition) => Ok(definition@),
        Err(e) => Err(e),
    }
}

/// Builds the definition that a declaration gives, as a nested record where
/// `nested` is set and as a root item where it is not, or reports the first
/// rule that the declaration breaks.
pub fn build(
    decl: &RecordDecl,
    nested: bool,
) -> (outcome: Result<RecordDefinition, DefinitionError>)
    ensures
        record_outcome(outcome) == build_record(decl@, nested),
        match outcome {
            Ok(RecordDefinition::Root(definition)) => definition@.valid(),
            _ => true,
        },
{
    if nested {
        match NestedItemDefinition::new(decl) {
            Ok(definition) => Ok(RecordDefinition::Nested(definition)),
            Err(e) => Err(e),
        }
    } else {
        match ItemDefinition::new(decl) {
            Ok(definition) => Ok(RecordDefinition::Root(definition)),
            Err(e) => Err(e),
        }
    }
}

impl ItemDefinition {
    /// Whether both keys are scalars, as they are in every definition that
    /// was built from a declaration.
    pub fn is_valid(&self) -> (valid: bool)
        ensures
            valid == self@.valid(),
    {
        if self.hash_key.scalar_type().is_none() {
            return false;
        }
        match &self.sort_key {
            Some(key) => key.scalar_type().is_some(),
            None => true,
        }
    }
}

} // verus!
