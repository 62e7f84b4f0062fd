use vstd::prelude::*;
use vstd::string::*;
use vstd::std_specs::cmp::PartialEqSpecImpl;
use crate::definitions::{DeclrType, DeclrTypeModel};
use crate::text::{
    ascii_lower, chars_of, decimal_string, decimal_text, eq_ignore_case, parse_unsigned,
    string_is, unsigned_value,
};

verus! {

/// The mathematical value of a resolved type.
pub enum VarTypeModel {
    Pointer(Box<VarTypeModel>),
    U8,
    I8,
    U16,
    I16,
    U32,
    I32,
    U64,
    I64,
    UserStruct(StructDefModel),
    UserEnum(EnumDefModel),
    Void,
    Array(Box<VarTypeModel>, u16),
}

/// The mathematical value of a struct definition: its name and its fields
/// in order, each a name and a type.
pub struct StructDefModel {
    pub name: Seq<char>,
    pub fields: Seq<(Seq<char>, FieldTypeModel)>,
}

/// The mathematical value of a field's type: resolved, or still as written.
pub enum FieldTypeModel {
    Defined(VarTypeModel),
    Undefined(DeclrTypeModel),
}

/// The mathematical value of an enum definition: its name and the names of
/// its variants in order.
pub struct EnumDefModel {
    pub name: Seq<char>,
    pub variants: Seq<Seq<char>>,
}

/// The mathematical value of a user type.
pub enum UserTypeModel {
    UserStruct(StructDefModel),
    UserEnum(EnumDefModel),
}

impl UserTypeModel {
    /// The name of the type.
    pub open spec fn name(self) -> Seq<char> {
        match self {
            UserTypeModel::UserStruct(s) => s.name,
            UserTypeModel::UserEnum(e) => e.name,
        }
    }
}

/// A variable: its name and its type.
#[derive(Debug)]
pub struct VarData {
    pub name: String,
    pub var_type: VarType,
}

/// A resolved type.
#[derive(Debug)]
pub enum VarType {
    Pointer(Box<VarType>),
    U8,
    I8,
    U16,
    I16,
    U32,
    I32,
    U64,
    I64,
    UserStruct(UserStructDef),
    UserEnum(UserEnumDef),
    Void,
    Array(Box<VarType>, u16),
}

/// A type that a program declares.
#[derive(Debug)]
pub enum UserType {
    UserStruct(UserStructDef),
    UserEnum(UserEnumDef),
}

/// The definition of a struct: its name and its fields in order.
#[derive(Debug)]
pub struct UserStructDef {
    pub name: String,
    pub fields: Vec<(String, FieldType)>,
}

/// The type of a field: resolved, or still as it was written.
#[derive(Debug)]
pub enum FieldType {
    Defined(VarType),
    Undefined(DeclrType),
}

/// The definition of an enum: its name and the names of its variants.
#[derive(Debug)]
pub struct UserEnumDef {
    pub name: String,
    pub variants: Vec<String>,
}

/// The values of a sequence of strings.
pub open spec fn string_models(ss: Seq<String>) -> Seq<Seq<char>> {
    Seq::new(ss.len(), |i: int| ss[i]@)
}

/// The value of a resolved type.
pub open spec fn var_type_model(t: VarType) -> VarTypeModel
    decreases t,
{
    match t {
        VarType::Pointer(b) => VarTypeModel::Pointer(Box::new(var_type_model(*b))),
        VarType::U8 => VarTypeModel::U8,
        VarType::I8 => VarTypeModel::I8,
        VarType::U16 => VarTypeModel::U16,
        VarType::I16 => VarTypeModel::I16,
        VarType::U32 => VarTypeModel::U32,
        VarType::I32 => VarTypeModel::I32,
        VarType::U64 => VarTypeModel::U64,
        VarType::I64 => VarTypeModel::I64,
        VarType::UserStruct(d) => VarTypeModel::UserStruct(
            StructDefModel { name: d.name@, fields: field_models(d.fields@) },
        ),
        VarType::UserEnum(e) => VarTypeModel::UserEnum(
            EnumDefModel { name: e.name@, variants: string_models(e.variants@) },
        ),
        VarType::Void => VarTypeModel::Void,
        VarType::Array(b, n) => VarTypeModel::Array(Box::new(var_type_model(*b)), n),
    }
}

/// The values of a sequence of fields, in order.
pub open spec fn field_models(fs: Seq<(String, FieldType)>) -> Seq<(Seq<char>, FieldTypeModel)>
    decreases fs,
{
    if fs.len() == 0 {
        Seq::empty()
    } else {
        field_models(fs.drop_last()).push(
            (
                fs.last().0@,
                match fs.last().1 {
                    FieldType::Defined(t) => FieldTypeModel::Defined(var_type_model(t)),
                    FieldType::Undefined(d) => FieldTypeModel::Undefined(d@),
                },
            ),
        )
    }
}

impl View for VarType {
    type V = VarTypeModel;

    open spec fn view(&self) -> VarTypeModel {
        var_type_model(*self)
    }
}

impl View for FieldType {
    type V = FieldTypeModel;

    open spec fn view(&self) -> FieldTypeModel {
        match self {
            FieldType::Defined(t) => FieldTypeModel::Defined(t@),
            FieldType::Undefined(d) => FieldTypeModel::Undefined(d@),
        }
    }
}

impl View for UserStructDef {
    type V = StructDefModel;

    open spec fn view(&self) -> StructDefModel {
        StructDefModel { name: self.name@, fields: field_models(self.fields@) }
    }
}

impl View for UserEnumDef {
    type V = EnumDefModel;

    open spec fn view(&self) -> EnumDefModel {
        EnumDefModel { name: self.name@, variants: string_models(self.variants@) }
    }
}

impl View for UserType {
    type V = UserTypeModel;

    open spec fn view(&self) -> UserTypeModel {
        match self {
            UserType::UserStruct(s) => UserTypeModel::UserStruct(s@),
            UserType::UserEnum(e) => UserTypeModel::UserEnum(e@),
        }
    }
}

impl View for VarData {
    type V = (Seq<char>, VarTypeModel);

    open spec fn view(&self) -> (Seq<char>, VarTypeModel) {
        (self.name@, self.var_type@)
    }
}

/// The values of a sequence of user types.
pub open spec fn user_type_models(ts: Seq<UserType>) -> Seq<UserTypeModel> {
    Seq::new(ts.len(), |i: int| ts[i]@)
}

/// `field_models` takes the value of each field in its place.
pub proof fn lemma_field_models(fs: Seq<(String, FieldType)>)
    ensures
        field_models(fs).len() == fs.len(),
        forall|i: int| 0 <= i < fs.len() ==> (#[trigger] field_models(fs)[i]) == (fs[i].0@, fs[i].1@),
    decreases fs.len(),
{
    if fs.len() > 0 {
        lemma_field_models(fs.drop_last());
    }
}

/// The values of a sequence with one more field at its end.
pub proof fn lemma_field_models_push(fs: Seq<(String, FieldType)>, f: (String, FieldType))
    ensures
        field_models(fs.push(f)) == field_models(fs).push((f.0@, f.1@)),
{
    assert(fs.push(f).drop_last() =~= fs);
}

/// A copy of a list of strings.
pub fn clone_strings(ss: &Vec<String>) -> (r: Vec<String>)
    ensures
        string_models(r@) == string_models(ss@),
{
    let mut v: Vec<String> = Vec::new();
    let mut i: usize = 0;
    while i < ss.len()
        invariant
            0 <= i <= ss.len(),
            v.len() == i,
            forall|j: int| 0 <= j < i ==> (#[trigger] v@[j])@ == ss@[j]@,
        decreases ss.len() - i,
    {
        let c = ss[i].clone();
        v.push(c);
        i += 1;
    }
    assert(string_models(v@) =~= string_models(ss@));
    v
}

/// A copy of a list of fields.
fn clone_fields(fs: &Vec<(String, FieldType)>) -> (r: Vec<(String, FieldType)>)
    ensures
        field_models(r@) == field_models(fs@),
    decreases fs, 0nat,
{
    let mut v: Vec<(String, FieldType)> = Vec::new();
    let mut i: usize = 0;
    while i < fs.len()
        invariant
            0 <= i <= fs.len(),
            field_models(v@) == field_models(fs@.take(i as int)),
        decreases fs.len() - i,
    {
        let t = match &fs[i].1 {
            FieldType::Defined(t) => FieldType::Defined(t.clone()),
            FieldType::Undefined(d) => FieldType::Undefined(d.clone()),
        };
        let c = (fs[i].0.clone(), t);
        proof {
            lemma_field_models_push(v@, c);
            lemma_field_models_push(fs@.take(i as int), fs@[i as int]);
            assert(fs@.take(i as int).push(fs@[i as int]) =~= fs@.take(i + 1));
        }
        v.push(c);
        i += 1;
    }
    assert(fs@.take(fs.len() as int) =~= fs@);
    v
}

impl Clone for UserEnumDef {
    fn clone(&self) -> (r: Self)
        ensures
            r@ == self@,
    {
        UserEnumDef { name: self.name.clone(), variants: clone_strings(&self.variants) }
    }
}

impl Clone for VarType {
    fn clone(&self) -> (r: Self)
        ensures
            r@ == self@,
        decreases self, 1nat,
    {
        match self {
            VarType::Pointer(b) => VarType::Pointer(Box::new((**b).clone())),
            VarType::U8 => VarType::U8,
            VarType::I8 => VarType::I8,
            VarType::U16 => VarType::U16,
            VarType::I16 => VarType::I16,
            VarType::U32 => VarType::U32,
            VarType::I32 => VarType::I32,
            VarType::U64 => VarType::U64,
            VarType::I64 => VarType::I64,
            VarType::UserStruct(d) => VarType::UserStruct(
                UserStructDef { name: d.name.clone(), fields: clone_fields(&d.fields) },
            ),
            VarType::UserEnum(e) => VarType::UserEnum(e.clone()),
            VarType::Void => VarType::Void,
            VarType::Array(b, n) => VarType::Array(Box::new((**b).clone()), *n),
        }
    }
}

impl Clone for FieldType {
    fn clone(&self) -> (r: Self)
        ensures
            r@ == self@,
    {
        match self {
            FieldType::Defined(t) => FieldType::Defined(t.clone()),
            FieldType::Undefined(d) => FieldType::Undefined(d.clone()),
        }
    }
}

impl Clone for UserStructDef {
    fn clone(&self) -> (r: Self)
        ensures
            r@ == self@,
    {
        UserStructDef { name: self.name.clone(), fields: clone_fields(&self.fields) }
    }
}

impl Clone for UserType {
    fn clone(&self) -> (r: Self)
        ensures
            r@ == self@,
    {
        match self {
            UserType::UserStruct(s) => UserType::UserStruct(s.clone()),
            UserType::UserEnum(e) => UserType::UserEnum(e.clone()),
        }
    }
}

impl Clone for VarData {
    fn clone(&self) -> (r: Self)
        ensures
            r@ == self@,
    {
        VarData { name: self.name.clone(), var_type: self.var_type.clone() }
    }
}

impl VarType {
    /// The type of a pointer to a type.
    pub fn new_pointer(inner: VarType) -> (r: VarType)
        ensures
            r@ == VarTypeModel::Pointer(Box::new(inner@)),
    {
        VarType::Pointer(Box::new(inner))
    }

    /// The type of an array of a number of elements.
    pub fn new_array(element: VarType, count: u16) -> (r: VarType)
        ensures
            r@ == VarTypeModel::Array(Box::new(element@), count),
    {
        VarType::Array(Box::new(element), count)
    }

    /// The type of a struct.
    pub fn new_struct(def: UserStructDef) -> (r: VarType)
        ensures
            r@ == VarTypeModel::UserStruct(def@),
    {
        VarType::UserStruct(def)
    }

    /// The type of an enum.
    pub fn new_enum(def: UserEnumDef) -> (r: VarType)
        ensures
            r@ == VarTypeModel::UserEnum(def@),
    {
        VarType::UserEnum(def)
    }
}

/// Whether two resolved types are the same type: integers by width and
/// sign, pointers by what they point to, arrays by element and count, user
/// types by name.
pub open spec fn same_type(a: VarTypeModel, b: VarTypeModel) -> bool
    decreases a,
{
    match (a, b) {
        (VarTypeModel::Pointer(x), VarTypeModel::Pointer(y)) => same_type(*x, *y),
        (VarTypeModel::U8, VarTypeModel::U8) => true,
        (VarTypeModel::I8, VarTypeModel::I8) => true,
        (VarTypeModel::U16, VarTypeModel::U16) => true,
        (VarTypeModel::I16, VarTypeModel::I16) => true,
        (VarTypeModel::U32, VarTypeModel::U32) => true,
        (VarTypeModel::I32, VarTypeModel::I32) => true,
        (VarTypeModel::U64, VarTypeModel::U64) => true,
        (VarTypeModel::I64, VarTypeModel::I64) => true,
        (VarTypeModel::UserStruct(x), VarTypeModel::UserStruct(y)) => x.name == y.name,
        (VarTypeModel::UserEnum(x), VarTypeModel::UserEnum(y)) => x.name == y.name,
        (VarTypeModel::Void, VarTypeModel::Void) => true,
        (VarTypeModel::Array(x, n), VarTypeModel::Array(y, m)) => same_type(*x, *y) && n == m,
        _ => false,
    }
}

/// Every type is the same type as itself.
pub proof fn lemma_same_type_reflexive(a: VarTypeModel)
    ensures
        same_type(a, a),
    decreases a,
{
    match a {
        VarTypeModel::Pointer(x) => lemma_same_type_reflexive(*x),
        VarTypeModel::Array(x, _) => lemma_same_type_reflexive(*x),
        _ => {},
    }
}

/// Being the same type does not depend on the order of the two types.
pub proof fn lemma_same_type_symmetric(a: VarTypeModel, b: VarTypeModel)
    ensures
        same_type(a, b) == same_type(b, a),
    decreases a,
{
    match (a, b) {
        (VarTypeModel::Pointer(x), VarTypeModel::Pointer(y)) => lemma_same_type_symmetric(*x, *y),
        (VarTypeModel::Array(x, _), VarTypeModel::Array(y, _)) => lemma_same_type_symmetric(
            *x,
            *y,
        ),
        _ => {},
    }
}

/// Two types that are each the same type as a third are the same type.
pub proof fn lemma_same_type_transitive(a: VarTypeModel, b: VarTypeModel, c: VarTypeModel)
    requires
        same_type(a, b),
        same_type(b, c),
    ensures
        same_type(a, c),
    decreases a,
{
    match (a, b, c) {
        (
            VarTypeModel::Pointer(x),
            VarTypeModel::Pointer(y),
            VarTypeModel::Pointer(z),
        ) => lemma_same_type_transitive(*x, *y, *z),
        (
            VarTypeModel::Array(x, _),
            VarTypeModel::Array(y, _),
            VarTypeModel::Array(z, _),
        ) => lemma_same_type_transitive(*x, *y, *z),
        _ => {},
    }
}

/// Whether two resolved types are the same type.
pub fn types_match(a: &VarType, b: &VarType) -> (r: bool)
    ensures
        r == same_type(a@, b@),
    decreases a,
{
    match (a, b) {
        (VarType::Pointer(x), VarType::Pointer(y)) => types_match(x, y),
        (VarType::U8, VarType::U8) => true,
        (VarType::I8, VarType::I8) => true,
        (VarType::U16, VarType::U16) => true,
        (VarType::I16, VarType::I16) => true,
        (VarType::U32, VarType::U32) => true,
        (VarType::I32, VarType::I32) => true,
        (VarType::U64, VarType::U64) => true,
        (VarType::I64, VarType::I64) => true,
        (VarType::UserStruct(x), VarType::UserStruct(y)) => x.name == y.name,
        (VarType::UserEnum(x), VarType::UserEnum(y)) => x.name == y.name,
        (VarType::Void, VarType::Void) => true,
        (VarType::Array(x, n), VarType::Array(y, m)) => types_match(x, y) && *n == *m,
        _ => false,
    }
}

impl PartialEq for VarType {
    fn eq(&self, other: &Self) -> (r: bool) {
        types_match(self, other)
    }
}

impl PartialEqSpecImpl for VarType {
    open spec fn obeys_eq_spec() -> bool {
        true
    }

    open spec fn eq_spec(&self, other: &Self) -> bool {
        same_type(self@, other@)
    }
}

/// The size of a resolved type in bytes: an integer by its width, a pointer
/// 2, an enum 1, void 0, an array its element's size times its count, a
/// struct the sum of its fields' sizes.
pub open spec fn size_of(t: VarTypeModel) -> nat
    decreases t,
{
    match t {
        VarTypeModel::Pointer(_) => 2,
        VarTypeModel::U8 => 1,
        VarTypeModel::I8 => 1,
        VarTypeModel::U16 => 2,
        VarTypeModel::I16 => 2,
        VarTypeModel::U32 => 4,
        VarTypeModel::I32 => 4,
        VarTypeModel::U64 => 8,
        VarTypeModel::I64 => 8,
        VarTypeModel::UserStruct(d) => fields_size(d.fields),
        VarTypeModel::UserEnum(_) => 1,
        VarTypeModel::Void => 0,
        VarTypeModel::Array(e, n) => size_of(*e) * (n as nat),
    }
}

/// The sum of the sizes of fields; a field whose type is not resolved
/// counts as nothing.
pub open spec fn fields_size(fs: Seq<(Seq<char>, FieldTypeModel)>) -> nat
    decreases fs,
{
    if fs.len() == 0 {
        0
    } else {
        fields_size(fs.drop_last()) + match fs.last().1 {
            FieldTypeModel::Defined(t) => size_of(t),
            FieldTypeModel::Undefined(_) => 0,
        }
    }
}

/// Whether the size of a type can be computed in 16 bits: the fields of
/// each struct in it are resolved, and the size of the type and of each type
/// in it is at most 65535.
pub open spec fn sized(t: VarTypeModel) -> bool
    decreases t,
{
    match t {
        VarTypeModel::UserStruct(d) => fields_sized(d.fields) && fields_size(d.fields) <= u16::MAX,
        VarTypeModel::Array(e, n) => sized(*e) && size_of(*e) * (n as nat) <= u16::MAX,
        _ => true,
    }
}

/// Whether every field is resolved to a type whose size can be computed.
pub open spec fn fields_sized(fs: Seq<(Seq<char>, FieldTypeModel)>) -> bool
    decreases fs,
{
    if fs.len() == 0 {
        true
    } else {
        fields_sized(fs.drop_last()) && match fs.last().1 {
            FieldTypeModel::Defined(t) => sized(t),
            FieldTypeModel::Undefined(_) => false,
        }
    }
}

/// What holds of the first fields of a list whose sizes can be computed:
/// theirs can too, their sum is no larger, and so can the size of the field
/// that follows them.
pub proof fn lemma_fields_prefix(fs: Seq<(Seq<char>, FieldTypeModel)>, n: int)
    requires
        0 <= n <= fs.len(),
        fields_sized(fs),
    ensures
        fields_sized(fs.take(n)),
        fields_size(fs.take(n)) <= fields_size(fs),
        n < fs.len() ==> fs[n].1 is Defined && sized(fs[n].1->Defined_0) && fields_size(
            fs.take(n + 1),
        ) == fields_size(fs.take(n)) + size_of(fs[n].1->Defined_0),
    decreases fs.len(),
{
    if n < fs.len() {
        assert(fs.drop_last().take(n) =~= fs.take(n));
        if n < fs.len() - 1 {
            lemma_fields_prefix(fs.drop_last(), n);
            assert(fs.drop_last().take(n + 1) =~= fs.take(n + 1));
        } else {
            lemma_fields_prefix(fs.drop_last(), n);
            assert(fs.take(n + 1) =~= fs);
            assert(fs.drop_last() =~= fs.take(n));
        }
    } else {
        assert(fs.take(n) =~= fs);
    }
}

/// The sum of the sizes of the fields of a list.
fn fields_byte_size(fs: &Vec<(String, FieldType)>) -> (r: u16)
    requires
        fields_sized(field_models(fs@)),
        fields_size(field_models(fs@)) <= u16::MAX,
    ensures
        r == fields_size(field_models(fs@)),
    decreases fs, 0nat,
{
    let ghost all = field_models(fs@);
    proof {
        lemma_field_models(fs@);
    }
    let mut sum: u16 = 0;
    let mut i: usize = 0;
    while i < fs.len()
        invariant
            0 <= i <= fs.len(),
            all == field_models(fs@),
            all.len() == fs.len(),
            forall|j: int| 0 <= j < fs.len() ==> (#[trigger] all[j]) == (fs@[j].0@, fs@[j].1@),
            fields_sized(all),
            fields_size(all) <= u16::MAX,
            sum == fields_size(all.take(i as int)),
        decreases fs.len() - i,
    {
        proof {
            lemma_fields_prefix(all, i as int);
            lemma_fields_prefix(all, i + 1);
            assert(all[i as int] == (fs@[i as int].0@, fs@[i as int].1@));
        }
        match &fs[i].1 {
            FieldType::Defined(t) => {
                let n = t.size();
                sum = sum + n;
            },
            FieldType::Undefined(_) => {},
        }
        i += 1;
    }
    assert(all.take(fs.len() as int) =~= all);
    sum
}

impl VarType {
    /// The size of the type in bytes.
    pub fn size(&self) -> (r: u16)
        requires
            sized(self@),
        ensures
            r == size_of(self@),
        decreases self, 1nat,
    {
        match self {
            VarType::U8 => 1,
            VarType::I8 => 1,
            VarType::U16 => 2,
            VarType::I16 => 2,
            VarType::U32 => 4,
            VarType::I32 => 4,
            VarType::U64 => 8,
            VarType::I64 => 8,
            VarType::Pointer(_) => 2,
            VarType::UserStruct(s) => fields_byte_size(&s.fields),
            VarType::Void => 0,
            VarType::Array(t, n) => {
                let e = t.size();
                assert(e * *n == size_of(t@) * (*n as nat));
                e * *n
            },
            VarType::UserEnum(_) => 1,
        }
    }
}

impl UserType {
    /// The name of the type.
    pub fn name(&self) -> (r: String)
        ensures
            r@ == self@.name(),
    {
        match self {
            UserType::UserStruct(s) => s.name.clone(),
            UserType::UserEnum(e) => e.name.clone(),
        }
    }
}

/// The type of the first field of the given name, if there is one.
pub open spec fn first_field_named(fs: Seq<(Seq<char>, FieldTypeModel)>, name: Seq<char>) -> Option<
    FieldTypeModel,
>
    decreases fs.len(),
{
    if fs.len() == 0 {
        None
    } else if fs[0].0 == name {
        Some(fs[0].1)
    } else {
        first_field_named(fs.skip(1), name)
    }
}

impl FieldType {
    /// The resolved type of a field.
    pub fn unwrap(&self) -> (r: VarType)
        requires
            self@ is Defined,
        ensures
            r@ == self@->Defined_0,
    {
        match self {
            FieldType::Defined(t) => t.clone(),
            FieldType::Undefined(_) => unreached(),
        }
    }
}

impl UserStructDef {
    /// The type of the first field of the given name.
    pub fn get_field_type(&self, name: String) -> (r: Option<FieldType>)
        ensures
            match r {
                Some(f) => first_field_named(self@.fields, name@) == Some(f@),
                None => first_field_named(self@.fields, name@) is None,
            },
    {
        let ghost all = self@.fields;
        proof {
            lemma_field_models(self.fields@);
            assert(all.skip(0) =~= all);
        }
        let mut i: usize = 0;
        while i < self.fields.len()
            invariant
                0 <= i <= self.fields.len(),
                all == self@.fields,
                all.len() == self.fields.len(),
                forall|j: int|
                    0 <= j < self.fields.len() ==> (#[trigger] all[j]) == (
                        self.fields@[j].0@,
                        self.fields@[j].1@,
                    ),
                first_field_named(all, name@) == first_field_named(all.skip(i as int), name@),
            decreases self.fields.len() - i,
        {
            proof {
                assert(all.skip(i as int)[0] == all[i as int]);
                assert(all.skip(i as int).skip(1) =~= all.skip(i + 1));
            }
            if self.fields[i].0 == name {
                return Some(self.fields[i].1.clone());
            }
            i += 1;
        }
        None
    }
}

impl UserEnumDef {
    /// Whether the enum has a variant of the given name.
    pub fn check_variant(&self, v_target: String) -> (r: bool)
        ensures
            r == self@.variants.contains(v_target@),
    {
        let mut i: usize = 0;
        while i < self.variants.len()
            invariant
                0 <= i <= self.variants.len(),
                forall|j: int| 0 <= j < i ==> self.variants@[j]@ != v_target@,
            decreases self.variants.len() - i,
        {
            if self.variants[i] == v_target {
                assert(self@.variants[i as int] == v_target@);
                return true;
            }
            i += 1;
        }
        assert forall|j: int| 0 <= j < self@.variants.len() implies self@.variants[j]
            != v_target@ by {
            assert(self@.variants[j] == self.variants@[j]@);
        }
        false
    }
}

/// The integer type that a name stands for, whatever the case of its
/// letters.
pub open spec fn int_type_named(name: Seq<char>) -> Option<VarTypeModel> {
    let l = ascii_lower(name);
    if l == "u8"@ {
        Some(VarTypeModel::U8)
    } else if l == "i8"@ {
        Some(VarTypeModel::I8)
    } else if l == "u16"@ {
        Some(VarTypeModel::U16)
    } else if l == "i16"@ {
        Some(VarTypeModel::I16)
    } else if l == "u32"@ {
        Some(VarTypeModel::U32)
    } else if l == "i32"@ {
        Some(VarTypeModel::I32)
    } else if l == "u64"@ {
        Some(VarTypeModel::U64)
    } else if l == "i64"@ {
        Some(VarTypeModel::I64)
    } else {
        None
    }
}

/// The user type of the given name that was declared last.
pub open spec fn last_type_named(known: Seq<UserTypeModel>, name: Seq<char>) -> Option<
    UserTypeModel,
>
    decreases known.len(),
{
    if known.len() == 0 {
        None
    } else if known.last().name() == name {
        Some(known.last())
    } else {
        last_type_named(known.drop_last(), name)
    }
}

/// A user type as the type of a value.
pub open spec fn as_var_type(u: UserTypeModel) -> VarTypeModel {
    match u {
        UserTypeModel::UserStruct(s) => VarTypeModel::UserStruct(s),
        UserTypeModel::UserEnum(e) => VarTypeModel::UserEnum(e),
    }
}

/// The count that the size literal of an array stands for: an unsigned
/// decimal number of at most 65535.
pub open spec fn array_count(text: Seq<char>) -> Option<u16> {
    match unsigned_value(text) {
        Some(v) => if v <= u16::MAX {
            Some(v as u16)
        } else {
            None
        },
        None => None,
    }
}

/// The type that a written type stands for among the known user types. A
/// basic type is an integer type by its name in any case, else `void`, else
/// the user type of that name declared last. An array resolves its element
/// and reads its size; a pointer resolves what it points to.
pub open spec fn resolve(t: DeclrTypeModel, known: Seq<UserTypeModel>) -> Result<
    VarTypeModel,
    Seq<char>,
>
    decreases t,
{
    match t {
        DeclrTypeModel::BasicType(token) => {
            let name = token.kind.data();
            match int_type_named(name) {
                Some(v) => Ok(v),
                None => if name == "void"@ {
                    Ok(VarTypeModel::Void)
                } else {
                    match last_type_named(known, name) {
                        Some(u) => Ok(as_var_type(u)),
                        None => Err("Undefined Type"@),
                    }
                },
            }
        },
        DeclrTypeModel::Array(element, size) => match resolve(*element, known) {
            Err(e) => Err(e),
            Ok(v) => match array_count(size.kind.data()) {
                Some(n) => Ok(VarTypeModel::Array(Box::new(v), n)),
                None => Err("Cannot Parse Array Size"@),
            },
        },
        DeclrTypeModel::Pointer(inner) => match resolve(*inner, known) {
            Err(e) => Err(e),
            Ok(v) => Ok(VarTypeModel::Pointer(Box::new(v))),
        },
    }
}

/// An executable result says what the resolution says.
pub open spec fn resolved_as(r: Result<VarType, &'static str>, expected: Result<
    VarTypeModel,
    Seq<char>,
>) -> bool {
    match r {
        Ok(v) => expected == Ok::<VarTypeModel, Seq<char>>(v@),
        Err(m) => expected == Err::<VarTypeModel, Seq<char>>(m@),
    }
}

/// The integer type that a name stands for.
fn int_type_of(name: &Vec<char>) -> (r: Option<VarType>)
    ensures
        match r {
            Some(v) => int_type_named(name@) == Some(v@),
            None => int_type_named(name@) is None,
        },
{
    if eq_ignore_case(name, "u8") {
        Some(VarType::U8)
    } else if eq_ignore_case(name, "i8") {
        Some(VarType::I8)
    } else if eq_ignore_case(name, "u16") {
        Some(VarType::U16)
    } else if eq_ignore_case(name, "i16") {
        Some(VarType::I16)
    } else if eq_ignore_case(name, "u32") {
        Some(VarType::U32)
    } else if eq_ignore_case(name, "i32") {
        Some(VarType::I32)
    } else if eq_ignore_case(name, "u64") {
        Some(VarType::U64)
    } else if eq_ignore_case(name, "i64") {
        Some(VarType::I64)
    } else {
        None
    }
}

/// The user type of the given name that was declared last.
pub fn find_user_type(known: &Vec<UserType>, name: &String) -> (r: Option<UserType>)
    ensures
        match r {
            Some(u) => last_type_named(user_type_models(known@), name@) == Some(u@),
            None => last_type_named(user_type_models(known@), name@) is None,
        },
{
    let ghost all = user_type_models(known@);
    let mut i: usize = known.len();
    assert(all.take(i as int) =~= all);
    while i > 0
        invariant
            0 <= i <= known.len(),
            all == user_type_models(known@),
            last_type_named(all, name@) == last_type_named(all.take(i as int), name@),
        decreases i,
    {
        i -= 1;
        proof {
            assert(all.take(i + 1).last() == known@[i as int]@);
            assert(all.take(i + 1).drop_last() =~= all.take(i as int));
        }
        let matches = match &known[i] {
            UserType::UserStruct(s) => s.name == *name,
            UserType::UserEnum(e) => e.name == *name,
        };
        if matches {
            return Some(known[i].clone());
        }
    }
    None
}

/// The type that a written type stands for among the known user types.
pub fn resolve_type(t: &DeclrType, known: &Vec<UserType>) -> (r: Result<VarType, &'static str>)
    ensures
        resolved_as(r, resolve(t@, user_type_models(known@))),
    decreases t,
{
    match t {
        DeclrType::BasicType(token) => {
            let name = token.data();
            let chars = chars_of(name.as_str());
            match int_type_of(&chars) {
                Some(v) => Ok(v),
                None => {
                    if string_is(&name, "void") {
                        return Ok(VarType::Void);
                    }
                    match find_user_type(known, &name) {
                        Some(UserType::UserStruct(s)) => Ok(VarType::new_struct(s)),
                        Some(UserType::UserEnum(e)) => Ok(VarType::new_enum(e)),
                        None => Err("Undefined Type"),
                    }
                },
            }
        },
        DeclrType::Array(element, size) => {
            let v = match resolve_type(element, known) {
                Ok(v) => v,
                Err(m) => {
                    return Err(m);
                },
            };
            let text = size.data();
            let chars = chars_of(text.as_str());
            match parse_unsigned(&chars, 65535) {
                Some(n) => Ok(VarType::new_array(v, n as u16)),
                None => Err("Cannot Parse Array Size"),
            }
        },
        DeclrType::Pointer(inner) => {
            let v = match resolve_type(inner, known) {
                Ok(v) => v,
                Err(m) => {
                    return Err(m);
                },
            };
            Ok(VarType::new_pointer(v))
        },
    }
}

/// The name of a type as it is shown: an integer type and `void` by their
/// keyword, a user type by its name, an array as `[element;count]`, and a
/// pointer by the name of what it points to.
pub open spec fn shown_name(t: VarTypeModel) -> Seq<char>
    decreases t,
{
    match t {
        VarTypeModel::U8 => "u8"@,
        VarTypeModel::I8 => "i8"@,
        VarTypeModel::U16 => "u16"@,
        VarTypeModel::I16 => "i16"@,
        VarTypeModel::U32 => "u32"@,
        VarTypeModel::I32 => "i32"@,
        VarTypeModel::U64 => "u64"@,
        VarTypeModel::I64 => "i64"@,
        VarTypeModel::Pointer(inner) => shown_name(*inner),
        VarTypeModel::Array(element, count) => "["@ + shown_name(*element) + ";"@ + decimal_text(
            count as nat,
        ) + "]"@,
        VarTypeModel::UserEnum(e) => e.name,
        VarTypeModel::UserStruct(s) => s.name,
        VarTypeModel::Void => "void"@,
    }
}

/// The name of a field's type as it is shown: that of a resolved type; of a
/// type still as written, the text of a basic type and nothing for an array
/// or a pointer.
pub open spec fn field_shown_name(f: FieldTypeModel) -> Seq<char> {
    match f {
        FieldTypeModel::Defined(t) => shown_name(t),
        FieldTypeModel::Undefined(DeclrTypeModel::BasicType(token)) => token.kind.data(),
        FieldTypeModel::Undefined(_) => Seq::empty(),
    }
}

impl VarType {
    /// The type that a written type stands for among the known user types.
    pub fn from(t: DeclrType, defined_types: &Vec<UserType>) -> (r: Result<Self, &'static str>)
        ensures
            resolved_as(r, resolve(t@, user_type_models(defined_types@))),
    {
        resolve_type(&t, defined_types)
    }

    /// The name of the type as it is shown.
    pub fn to_string(&self) -> (r: String)
        ensures
            r@ == shown_name(self@),
        decreases self,
    {
        match self {
            VarType::U8 => String::from_str("u8"),
            VarType::I8 => String::from_str("i8"),
            VarType::U16 => String::from_str("u16"),
            VarType::I16 => String::from_str("i16"),
            VarType::U32 => String::from_str("u32"),
            VarType::I32 => String::from_str("i32"),
            VarType::U64 => String::from_str("u64"),
            VarType::I64 => String::from_str("i64"),
            VarType::Pointer(t) => t.to_string(),
            VarType::Array(t, s) => {
                let mut temp = String::from_str("[");
                let inner = t.to_string();
                temp.append(inner.as_str());
                temp.append(";");
                let count = decimal_string(*s);
                temp.append(count.as_str());
                temp.append("]");
                temp
            },
            VarType::UserEnum(e) => e.name.clone(),
            VarType::UserStruct(s) => s.name.clone(),
            VarType::Void => String::from_str("void"),
        }
    }
}

impl FieldType {
    /// The name of the field's type as it is shown.
    pub fn name_to_string(&self) -> (r: String)
        ensures
            r@ == field_shown_name(self@),
    {
        match self {
            FieldType::Defined(t) => t.to_string(),
            FieldType::Undefined(t) => match t {
                DeclrType::BasicType(basic) => basic.ttype.data(),
                _ => String::new(),
            },
        }
    }
}

} // verus!
