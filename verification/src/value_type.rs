//! Value types: how a Rust type named in an interface crosses the
//! host/guest boundary, and the pool of declared types.
use vstd::prelude::*;
use crate::text::{chars_of, string_of, trim, trimmed_bounds};

verus! {

/// A type name written in a parameter position.
pub struct ParamType<'a>(pub &'a str);

/// A type name written in a return position.
pub struct ReturnType<'a>(pub &'a str);

/// How a value is converted when it crosses the boundary.
#[derive(Debug, PartialEq, Eq, Clone, Copy, Structural)]
pub enum ValueKind {
    /// Custom type, serialized and passed by fat pointer.
    FatPtr,
    /// Small value that fits in a wasm type (e.g. i32 or f32).
    Native,
    /// A bool, passed as an i32 and read back with `== 1`.
    Bool,
    /// A string, passed as raw UTF-8 bytes.
    String,
}

/// The wasm-level representation of a value.
#[derive(Debug, PartialEq, Eq, Clone, Copy, Structural)]
pub enum ValueRepr {
    I32,
    U32,
    I64,
    U64,
    F32,
    F64,
    FatPtr,
}

/// A declared value type.
#[derive(Debug, PartialEq)]
pub struct ValueType {
    /// The Rust type as written in signatures.
    pub name: String,
    /// The Rust type a value is deserialized into, when it differs.
    pub de: Option<String>,
    pub kind: ValueKind,
    pub repr: ValueRepr,
    /// Whether the type may appear as a parameter.
    pub can_be_param: bool,
}

/// The mathematical content of a [`ValueType`].
pub struct ValueTypeModel {
    pub name: Seq<char>,
    pub de: Option<Seq<char>>,
    pub kind: ValueKind,
    pub repr: ValueRepr,
    pub can_be_param: bool,
}

pub open spec fn opt_string_view(o: Option<String>) -> Option<Seq<char>> {
    match o {
        Some(s) => Some(s@),
        None => None,
    }
}

impl View for ValueType {
    type V = ValueTypeModel;

    open spec fn view(&self) -> ValueTypeModel {
        ValueTypeModel {
            name: self.name@,
            de: opt_string_view(self.de),
            kind: self.kind,
            repr: self.repr,
            can_be_param: self.can_be_param,
        }
    }
}

impl Clone for ValueType {
    fn clone(&self) -> (res: Self)
        ensures
            res@ == self@,
    {
        let de = match &self.de {
            Some(d) => Some(d.clone()),
            None => None,
        };
        ValueType {
            name: self.name.clone(),
            de,
            kind: self.kind,
            repr: self.repr,
            can_be_param: self.can_be_param,
        }
    }
}

/// Whether `s` holds exactly the characters of `lit`.
pub fn str_is(s: &String, lit: &str) -> (res: bool)
    ensures
        res == (s@ == lit@),
{
    let l = lit.to_owned();
    *s == l
}

/// The kind named by `s`, if any.
pub open spec fn spec_value_kind(s: Seq<char>) -> Option<ValueKind> {
    if s == "FatPtr"@ {
        Some(ValueKind::FatPtr)
    } else if s == "Native"@ {
        Some(ValueKind::Native)
    } else if s == "Bool"@ {
        Some(ValueKind::Bool)
    } else if s == "String"@ {
        Some(ValueKind::String)
    } else {
        None
    }
}

impl ValueKind {
    /// The kind named by `value`; `None` for an unknown name.
    pub fn from_name(value: &String) -> (res: Option<ValueKind>)
        ensures
            res == spec_value_kind(value@),
    {
        if str_is(value, "FatPtr") {
            Some(ValueKind::FatPtr)
        } else if str_is(value, "Native") {
            Some(ValueKind::Native)
        } else if str_is(value, "Bool") {
            Some(ValueKind::Bool)
        } else if str_is(value, "String") {
            Some(ValueKind::String)
        } else {
            None
        }
    }
}

/// The representation named by `s`, if any.
pub open spec fn spec_value_repr(s: Seq<char>) -> Option<ValueRepr> {
    if s == "I32"@ {
        Some(ValueRepr::I32)
    } else if s == "U32"@ {
        Some(ValueRepr::U32)
    } else if s == "I64"@ {
        Some(ValueRepr::I64)
    } else if s == "U64"@ {
        Some(ValueRepr::U64)
    } else if s == "F32"@ {
        Some(ValueRepr::F32)
    } else if s == "F64"@ {
        Some(ValueRepr::F64)
    } else if s == "FatPtr"@ {
        Some(ValueRepr::FatPtr)
    } else {
        None
    }
}

/// The Rust type that stands for a representation in generated code.
pub open spec fn spec_repr_rust_type(r: ValueRepr) -> Seq<char> {
    match r {
        ValueRepr::I32 => "i32"@,
        ValueRepr::U32 => "u32"@,
        ValueRepr::I64 => "i64"@,
        ValueRepr::U64 => "u64"@,
        ValueRepr::F32 => "f32"@,
        ValueRepr::F64 => "f64"@,
        ValueRepr::FatPtr => "super::__shared::FatPtr"@,
    }
}

impl ValueRepr {
    /// The representation named by `value`; `None` for an unknown name.
    pub fn from_name(value: &String) -> (res: Option<ValueRepr>)
        ensures
            res == spec_value_repr(value@),
    {
        if str_is(value, "I32") {
            Some(ValueRepr::I32)
        } else if str_is(value, "U32") {
            Some(ValueRepr::U32)
        } else if str_is(value, "I64") {
            Some(ValueRepr::I64)
        } else if str_is(value, "U64") {
            Some(ValueRepr::U64)
        } else if str_is(value, "F32") {
            Some(ValueRepr::F32)
        } else if str_is(value, "F64") {
            Some(ValueRepr::F64)
        } else if str_is(value, "FatPtr") {
            Some(ValueRepr::FatPtr)
        } else {
            None
        }
    }

    /// The Rust type that stands for this representation in generated code.
    pub fn rust_type(&self) -> (res: &'static str)
        ensures
            res@ == spec_repr_rust_type(*self),
    {
        match self {
            ValueRepr::I32 => "i32",
            ValueRepr::U32 => "u32",
            ValueRepr::I64 => "i64",
            ValueRepr::U64 => "u64",
            ValueRepr::F32 => "f32",
            ValueRepr::F64 => "f64",
            ValueRepr::FatPtr => "super::__shared::FatPtr",
        }
    }
}


/// The name of a kind's variant, as a declaration writes it.
pub open spec fn kind_name(k: ValueKind) -> Seq<char> {
    match k {
        ValueKind::FatPtr => "FatPtr"@,
        ValueKind::Native => "Native"@,
        ValueKind::Bool => "Bool"@,
        ValueKind::String => "String"@,
    }
}

/// The name of a representation's variant, as a declaration writes it.
pub open spec fn repr_name(r: ValueRepr) -> Seq<char> {
    match r {
        ValueRepr::I32 => "I32"@,
        ValueRepr::U32 => "U32"@,
        ValueRepr::I64 => "I64"@,
        ValueRepr::U64 => "U64"@,
        ValueRepr::F32 => "F32"@,
        ValueRepr::F64 => "F64"@,
        ValueRepr::FatPtr => "FatPtr"@,
    }
}

/// A kind is named by its variant's name and by nothing else: a
/// declaration that says `kind: K` gets the kind `K`.
pub proof fn lemma_kind_names(s: Seq<char>, k: ValueKind)
    ensures
        spec_value_kind(s) == Some(k) <==> s == kind_name(k),
{
    reveal_strlit("FatPtr");
    reveal_strlit("Native");
    reveal_strlit("Bool");
    reveal_strlit("String");
    assert("FatPtr"@[0] == 'F' && "Native"@[0] == 'N' && "Bool"@[0] == 'B' && "String"@[0] == 'S');
    assert("FatPtr"@ != "Native"@ && "FatPtr"@ != "Bool"@ && "FatPtr"@ != "String"@);
    assert("Native"@ != "Bool"@ && "Native"@ != "String"@ && "Bool"@ != "String"@);
}

/// A representation is named by its variant's name and by nothing else,
/// and, but for the fat pointer, stands for the Rust number type that its
/// name spells in lower case.
pub proof fn lemma_repr_names(s: Seq<char>, r: ValueRepr)
    ensures
        spec_value_repr(s) == Some(r) <==> s == repr_name(r),
        r != ValueRepr::FatPtr ==> spec_repr_rust_type(r) == crate::case::lowercase(repr_name(r)),
{
    reveal_strlit("I32");
    reveal_strlit("U32");
    reveal_strlit("I64");
    reveal_strlit("U64");
    reveal_strlit("F32");
    reveal_strlit("F64");
    reveal_strlit("FatPtr");
    reveal_strlit("i32");
    reveal_strlit("u32");
    reveal_strlit("i64");
    reveal_strlit("u64");
    reveal_strlit("f32");
    reveal_strlit("f64");
    assert("I32"@[0] == 'I' && "I32"@[1] == '3' && "U32"@[0] == 'U' && "U32"@[1] == '3');
    assert("I64"@[0] == 'I' && "I64"@[1] == '6' && "U64"@[0] == 'U' && "U64"@[1] == '6');
    assert("F32"@[0] == 'F' && "F32"@[1] == '3' && "F64"@[0] == 'F' && "F64"@[1] == '6');
    assert("FatPtr"@.len() == 6 && "I32"@.len() == 3);
    if r != ValueRepr::FatPtr {
        let n = repr_name(r);
        let l = crate::case::lowercase(n);
        assert(l.len() == 3);
        assert(l[0] == crate::case::to_lower(n[0]));
        assert(l[1] == n[1]);
        assert(l[2] == n[2]);
        assert(n[0] == 'I' || n[0] == 'U' || n[0] == 'F');
        assert(l =~= spec_repr_rust_type(r));
    }
}

/// Why a type declaration was refused.
#[derive(Debug, PartialEq, Eq, Clone, Copy, Structural)]
pub enum TypeDeclError {
    /// A property is not of the form `name: value`.
    MalformedProperty,
    /// A property other than `type`, `de`, `kind`, `repr`, `can_be_param`.
    UnknownProperty,
    /// `kind` names no [`ValueKind`].
    UnknownKind,
    /// `repr` names no [`ValueRepr`].
    UnknownRepr,
    MissingType,
    MissingKind,
    MissingRepr,
    MissingCanBeParam,
}

/// Characters that start a property value.
pub open spec fn is_word_char(c: char) -> bool {
    ('A' <= c <= 'Z') || ('a' <= c <= 'z') || ('0' <= c <= '9') || c == '_'
}

/// One step of the property splitter: given a character and the state
/// (`colon`: a `:` is awaited; `ignore`: blanks before a value are skipped),
/// whether the character separates two properties, and the next state.
pub open spec fn split_step(c: char, colon: bool, ignore: bool) -> (bool, bool, bool) {
    if c == ':' && colon {
        (false, false, true)
    } else if c == ' ' && !colon && !ignore {
        (true, true, false)
    } else if is_word_char(c) && !colon && ignore {
        (false, false, false)
    } else {
        (false, colon, ignore)
    }
}

/// The properties of `s`, given the splitter state and the part read so far.
pub open spec fn split_from(s: Seq<char>, colon: bool, ignore: bool, cur: Seq<char>) -> Seq<
    Seq<char>,
>
    decreases s.len(),
{
    if s.len() == 0 {
        seq![cur]
    } else {
        let (sep, colon2, ignore2) = split_step(s[0], colon, ignore);
        if sep {
            seq![cur] + split_from(s.drop_first(), colon2, ignore2, Seq::empty())
        } else {
            split_from(s.drop_first(), colon2, ignore2, cur.push(s[0]))
        }
    }
}

/// A declaration such as `type: &String de: String kind: String` cut into
/// its properties: a blank after a value ends the property.
pub open spec fn split_declaration(s: Seq<char>) -> Seq<Seq<char>> {
    split_from(s, true, false, Seq::empty())
}

/// Whether `": "` starts at index `i` of `p`.
pub open spec fn is_sep_at(p: Seq<char>, i: int) -> bool {
    0 <= i && i + 1 < p.len() && p[i] == ':' && p[i + 1] == ' '
}

/// Whether `": "` occurs exactly once in `p`, at `i`.
pub open spec fn single_sep_at(p: Seq<char>, i: int) -> bool {
    is_sep_at(p, i) && forall|j: int| #[trigger] is_sep_at(p, j) ==> j == i
}

/// A property cut at its only `": "` into name and value; `None` when
/// `": "` does not occur exactly once.
pub open spec fn split_property(p: Seq<char>) -> Option<(Seq<char>, Seq<char>)> {
    if exists|i: int| single_sep_at(p, i) {
        let i = choose|i: int| single_sep_at(p, i);
        Some((p.take(i), p.skip(i + 2)))
    } else {
        None
    }
}

/// The properties of a declaration read so far.
pub struct TypeFields {
    pub name: Option<Seq<char>>,
    pub de: Option<Seq<char>>,
    pub kind: Option<ValueKind>,
    pub repr: Option<ValueRepr>,
    pub can_be_param: Option<bool>,
}

pub open spec fn no_fields() -> TypeFields {
    TypeFields { name: None, de: None, kind: None, repr: None, can_be_param: None }
}

/// The fields after reading one property; a later property overrides an
/// earlier one of the same name.
pub open spec fn apply_property(f: TypeFields, part: Seq<char>) -> Result<TypeFields, TypeDeclError> {
    match split_property(part) {
        None => Err(TypeDeclError::MalformedProperty),
        Some((prop, value)) => {
            let prop = trim(prop);
            let value = trim(value);
            if prop == "type"@ {
                Ok(TypeFields { name: Some(value), ..f })
            } else if prop == "de"@ {
                Ok(TypeFields { de: Some(value), ..f })
            } else if prop == "kind"@ {
                match spec_value_kind(value) {
                    Some(k) => Ok(TypeFields { kind: Some(k), ..f }),
                    None => Err(TypeDeclError::UnknownKind),
                }
            } else if prop == "repr"@ {
                match spec_value_repr(value) {
                    Some(r) => Ok(TypeFields { repr: Some(r), ..f }),
                    None => Err(TypeDeclError::UnknownRepr),
                }
            } else if prop == "can_be_param"@ {
                Ok(TypeFields { can_be_param: Some(value == "true"@), ..f })
            } else {
                Err(TypeDeclError::UnknownProperty)
            }
        },
    }
}

/// The fields after reading `parts` in order; the first refusal stops.
pub open spec fn apply_properties(parts: Seq<Seq<char>>) -> Result<TypeFields, TypeDeclError>
    decreases parts.len(),
{
    if parts.len() == 0 {
        Ok(no_fields())
    } else {
        match apply_properties(parts.drop_last()) {
            Ok(f) => apply_property(f, parts.last()),
            Err(e) => Err(e),
        }
    }
}

/// The value type that a declaration describes, or why it is refused.
pub open spec fn spec_parse_type(raw: Seq<char>) -> Result<ValueTypeModel, TypeDeclError> {
    match apply_properties(split_declaration(raw)) {
        Err(e) => Err(e),
        Ok(f) => {
            if f.name is None {
                Err(TypeDeclError::MissingType)
            } else if f.kind is None {
                Err(TypeDeclError::MissingKind)
            } else if f.repr is None {
                Err(TypeDeclError::MissingRepr)
            } else if f.can_be_param is None {
                Err(TypeDeclError::MissingCanBeParam)
            } else {
                Ok(
                    ValueTypeModel {
                        name: f.name->Some_0,
                        de: f.de,
                        kind: f.kind->Some_0,
                        repr: f.repr->Some_0,
                        can_be_param: f.can_be_param->Some_0,
                    },
                )
            }
        },
    }
}

/// Fields read so far, as executable values.
struct ExecFields {
    name: Option<String>,
    de: Option<String>,
    kind: Option<ValueKind>,
    repr: Option<ValueRepr>,
    can_be_param: Option<bool>,
}

impl ExecFields {
    spec fn model(&self) -> TypeFields {
        TypeFields {
            name: opt_string_view(self.name),
            de: opt_string_view(self.de),
            kind: self.kind,
            repr: self.repr,
            can_be_param: self.can_be_param,
        }
    }
}

/// The index of the only `": "` in `p`, if it occurs exactly once.
fn find_single_sep(p: &Vec<char>) -> (res: Option<usize>)
    ensures
        match res {
            Some(i) => i + 2 <= p.len() && split_property(p@) == Some(
                (p@.take(i as int), p@.skip(i + 2)),
            ),
            None => split_property(p@) is None,
        },
{
    let n = p.len();
    let mut first: Option<usize> = None;
    let mut count: usize = 0;
    let mut i: usize = 0;
    while i < n && i + 1 < n
        invariant
            n == p.len(),
            i <= n,
            count <= i,
            count == 0 <==> first is None,
            count == 0 ==> forall|j: int| 0 <= j < i ==> !is_sep_at(p@, j),
            count == 1 ==> (first is Some && first.unwrap() < i && is_sep_at(
                p@,
                first.unwrap() as int,
            ) && forall|j: int| 0 <= j < i && is_sep_at(p@, j) ==> j == first.unwrap()),
            count >= 2 ==> (first is Some && is_sep_at(p@, first.unwrap() as int) && exists|j: int|
                0 <= j < i && j != first.unwrap() && is_sep_at(p@, j)),
        decreases n - i,
    {
        if p[i] == ':' && p[i + 1] == ' ' {
            assert(is_sep_at(p@, i as int));
            if count == 0 {
                first = Some(i);
            }
            if count < 2 {
                count = count + 1;
            }
        }
        i = i + 1;
    }
    assert forall|j: int| i <= j && is_sep_at(p@, j) implies false by {}
    if count == 1 {
        let f = first.unwrap();
        assert(single_sep_at(p@, f as int));
        let ghost k = choose|k: int| single_sep_at(p@, k);
        assert(k == f);
        Some(f)
    } else {
        if count >= 2 {
            let f = first.unwrap();
            assert forall|k: int| !single_sep_at(p@, k) by {
                if single_sep_at(p@, k) {
                    let j = choose|j: int| 0 <= j < i && j != f && is_sep_at(p@, j);
                    assert(j == k);
                    assert(f == k);
                }
            }
        }
        None
    }
}

/// Reads one property into `fields`.
fn apply_property_exec(fields: &mut ExecFields, part: &Vec<char>) -> (res: Result<(), TypeDeclError>)
    ensures
        match res {
            Ok(()) => apply_property(old(fields).model(), part@) == Ok::<TypeFields, TypeDeclError>(final(fields).model()),
            Err(e) => apply_property(old(fields).model(), part@) == Err::<TypeFields, TypeDeclError>(e),
        },
{
    let sep = match find_single_sep(part) {
        Some(i) => i,
        None => return Err(TypeDeclError::MalformedProperty),
    };
    let ghost prop_seq = part@.take(sep as int);
    let ghost value_seq = part@.skip(sep + 2);
    let mut prop_chars: Vec<char> = Vec::new();
    let mut k: usize = 0;
    while k < sep
        invariant
            k <= sep,
            sep + 2 <= part.len(),
            prop_chars@ == part@.take(k as int),
        decreases sep - k,
    {
        prop_chars.push(part[k]);
        assert(part@.take(k + 1) =~= part@.take(k as int).push(part@[k as int]));
        k = k + 1;
    }
    let mut value_chars: Vec<char> = Vec::new();
    let mut k: usize = sep + 2;
    while k < part.len()
        invariant
            sep + 2 <= k <= part.len(),
            value_chars@ == part@.subrange(sep + 2, k as int),
        decreases part.len() - k,
    {
        value_chars.push(part[k]);
        assert(part@.subrange(sep + 2, k + 1) =~= part@.subrange(sep + 2, k as int).push(part@[k as int]));
        k = k + 1;
    }
    assert(value_chars@ =~= value_seq);
    let (ps, pe) = trimmed_bounds(&prop_chars);
    let prop = string_of(&prop_chars, ps, pe);
    let (vs, ve) = trimmed_bounds(&value_chars);
    let value = string_of(&value_chars, vs, ve);
    if str_is(&prop, "type") {
        fields.name = Some(value);
    } else if str_is(&prop, "de") {
        fields.de = Some(value);
    } else if str_is(&prop, "kind") {
        match ValueKind::from_name(&value) {
            Some(kd) => fields.kind = Some(kd),
            None => return Err(TypeDeclError::UnknownKind),
        }
    } else if str_is(&prop, "repr") {
        match ValueRepr::from_name(&value) {
            Some(r) => fields.repr = Some(r),
            None => return Err(TypeDeclError::UnknownRepr),
        }
    } else if str_is(&prop, "can_be_param") {
        let b = str_is(&value, "true");
        fields.can_be_param = Some(b);
    } else {
        return Err(TypeDeclError::UnknownProperty);
    }
    Ok(())
}

proof fn lemma_apply_properties_err(d: Seq<Seq<char>>, rest: Seq<Seq<char>>, e: TypeDeclError)
    requires
        apply_properties(d) == Err::<TypeFields, TypeDeclError>(e),
    ensures
        apply_properties(d + rest) == Err::<TypeFields, TypeDeclError>(e),
    decreases rest.len(),
{
    if rest.len() == 0 {
        assert(d + rest =~= d);
    } else {
        lemma_apply_properties_err(d, rest.drop_last(), e);
        assert((d + rest).drop_last() =~= d + rest.drop_last());
    }
}

/// Parses one declaration such as
/// `type: &String de: String kind: String repr: FatPtr can_be_param: true`.
pub fn parse_type(raw: &String) -> (res: Result<ValueType, TypeDeclError>)
    ensures
        match res {
            Ok(v) => spec_parse_type(raw@) == Ok::<ValueTypeModel, TypeDeclError>(v@),
            Err(e) => spec_parse_type(raw@) == Err::<ValueTypeModel, TypeDeclError>(e),
        },
{
    let s = chars_of(raw.as_str());
    let n = s.len();
    let mut fields = ExecFields { name: None, de: None, kind: None, repr: None, can_be_param: None };
    let mut colon = true;
    let mut ignore = false;
    let mut cur: Vec<char> = Vec::new();
    let ghost mut done: Seq<Seq<char>> = Seq::empty();
    let mut i: usize = 0;
    assert(s@.skip(0) =~= s@);
    while i < n
        invariant
            n == s.len(),
            i <= n,
            s@ == raw@,
            split_declaration(raw@) == done + split_from(s@.skip(i as int), colon, ignore, cur@),
            apply_properties(done) == Ok::<TypeFields, TypeDeclError>(fields.model()),
        decreases n - i,
    {
        let c = s[i];
        let ghost rest = s@.skip(i as int);
        assert(rest[0] == c);
        assert(rest.drop_first() =~= s@.skip(i + 1));
        let sep;
        let colon2;
        let ignore2;
        if c == ':' && colon {
            sep = false; colon2 = false; ignore2 = true;
        } else if c == ' ' && !colon && !ignore {
            sep = true; colon2 = true; ignore2 = false;
        } else if (('A' <= c && c <= 'Z') || ('a' <= c && c <= 'z') || ('0' <= c && c <= '9') || c == '_') && !colon && ignore {
            sep = false; colon2 = false; ignore2 = false;
        } else {
            sep = false; colon2 = colon; ignore2 = ignore;
        }
        assert(split_step(c, colon, ignore) == (sep, colon2, ignore2));
        if sep {
            let ghost old_done = done;
            let r = apply_property_exec(&mut fields, &cur);
            proof {
                done = done.push(cur@);
                assert(done.drop_last() =~= old_done);
                assert(old_done + (seq![cur@] + split_from(s@.skip(i + 1), colon2, ignore2, Seq::empty()))
                    =~= done + split_from(s@.skip(i + 1), colon2, ignore2, Seq::empty()));
            }
            match r {
                Ok(()) => {},
                Err(e) => {
                    proof {
                        lemma_apply_properties_err(done, split_from(s@.skip(i + 1), colon2, ignore2, Seq::empty()), e);
                    }
                    return Err(e);
                },
            }
            cur = Vec::new();
            assert(cur@ =~= Seq::<char>::empty());
        } else {
            cur.push(c);
        }
        colon = colon2;
        ignore = ignore2;
        i = i + 1;
    }
    assert(s@.skip(n as int) =~= Seq::<char>::empty());
    let ghost all = done.push(cur@);
    assert(split_declaration(raw@) =~= all);
    assert(all.drop_last() =~= done);
    let r = apply_property_exec(&mut fields, &cur);
    match r {
        Ok(()) => {},
        Err(e) => return Err(e),
    }
    let name = match fields.name {
        Some(x) => x,
        None => return Err(TypeDeclError::MissingType),
    };
    let kind = match fields.kind {
        Some(x) => x,
        None => return Err(TypeDeclError::MissingKind),
    };
    let repr = match fields.repr {
        Some(x) => x,
        None => return Err(TypeDeclError::MissingRepr),
    };
    let can_be_param = match fields.can_be_param {
        Some(x) => x,
        None => return Err(TypeDeclError::MissingCanBeParam),
    };
    Ok(ValueType { name, de: fields.de, kind, repr, can_be_param })
}


/// The models of a sequence of value types.
pub open spec fn models_of(v: Seq<ValueType>) -> Seq<ValueTypeModel> {
    v.map_values(|t: ValueType| t@)
}

/// The texts of a sequence of strings.
pub open spec fn texts_of(v: Seq<String>) -> Seq<Seq<char>> {
    v.map_values(|s: String| s@)
}

/// The value types that the declarations describe, in order, or the
/// refusal of the first declaration that is refused.
pub open spec fn spec_parse_types(raws: Seq<Seq<char>>) -> Result<Seq<ValueTypeModel>, TypeDeclError>
    decreases raws.len(),
{
    if raws.len() == 0 {
        Ok(Seq::empty())
    } else {
        match spec_parse_types(raws.drop_last()) {
            Err(e) => Err(e),
            Ok(ms) => match spec_parse_type(raws.last()) {
                Err(e) => Err(e),
                Ok(m) => Ok(ms.push(m)),
            },
        }
    }
}

/// The first type named `name` that may be a parameter.
pub open spec fn find_param_type(types: Seq<ValueTypeModel>, name: Seq<char>) -> Option<ValueTypeModel>
    decreases types.len(),
{
    if types.len() == 0 {
        None
    } else if types[0].name == name && types[0].can_be_param {
        Some(types[0])
    } else {
        find_param_type(types.drop_first(), name)
    }
}

/// The first type named `name`.
pub open spec fn find_return_type(types: Seq<ValueTypeModel>, name: Seq<char>) -> Option<ValueTypeModel>
    decreases types.len(),
{
    if types.len() == 0 {
        None
    } else if types[0].name == name {
        Some(types[0])
    } else {
        find_return_type(types.drop_first(), name)
    }
}

pub open spec fn opt_type_view(o: Option<ValueType>) -> Option<ValueTypeModel> {
    match o {
        Some(t) => Some(t@),
        None => None,
    }
}

/// The value types declared so far, in declaration order.
#[derive(Debug)]
pub struct ValueTypePool {
    types: Vec<ValueType>,
}

impl View for ValueTypePool {
    type V = Seq<ValueTypeModel>;

    closed spec fn view(&self) -> Seq<ValueTypeModel> {
        models_of(self.types@)
    }
}

impl Default for ValueTypePool {
    fn default() -> (res: Self)
        ensures
            res@ == Seq::<ValueTypeModel>::empty(),
    {
        let res = ValueTypePool { types: Vec::new() };
        assert(res@ =~= Seq::<ValueTypeModel>::empty());
        res
    }
}

impl Clone for ValueTypePool {
    fn clone(&self) -> (res: Self)
        ensures
            res@ == self@,
    {
        let mut types: Vec<ValueType> = Vec::new();
        let mut i: usize = 0;
        while i < self.types.len()
            invariant
                i <= self.types.len(),
                models_of(types@) == models_of(self.types@).take(i as int),
            decreases self.types.len() - i,
        {
            let t = self.types[i].clone();
            proof {
                let old_types = types@;
                assert(models_of(old_types.push(t)) =~= models_of(old_types).push(t@));
            }
            types.push(t);
            assert(models_of(self.types@).take(i + 1) =~= models_of(self.types@).take(i as int).push(self.types@[i as int]@));
            i = i + 1;
        }
        assert(models_of(self.types@).take(i as int) =~= models_of(self.types@));
        ValueTypePool { types }
    }
}

proof fn lemma_parse_types_err(d: Seq<Seq<char>>, rest: Seq<Seq<char>>, e: TypeDeclError)
    requires
        spec_parse_types(d) == Err::<Seq<ValueTypeModel>, TypeDeclError>(e),
    ensures
        spec_parse_types(d + rest) == Err::<Seq<ValueTypeModel>, TypeDeclError>(e),
    decreases rest.len(),
{
    if rest.len() == 0 {
        assert(d + rest =~= d);
    } else {
        lemma_parse_types_err(d, rest.drop_last(), e);
        assert((d + rest).drop_last() =~= d + rest.drop_last());
    }
}

impl ValueTypePool {
    /// Parses each declaration in order: the types, or the refusal of the
    /// first declaration that is refused.
    pub fn parse_types(types: Vec<String>) -> (res: Result<Vec<ValueType>, TypeDeclError>)
        ensures
            match res {
                Ok(v) => spec_parse_types(texts_of(types@)) == Ok::<Seq<ValueTypeModel>, TypeDeclError>(models_of(v@)),
                Err(e) => spec_parse_types(texts_of(types@)) == Err::<Seq<ValueTypeModel>, TypeDeclError>(e),
            },
    {
        let mut parsed: Vec<ValueType> = Vec::new();
        let mut i: usize = 0;
        assert(texts_of(types@).take(0) =~= Seq::<Seq<char>>::empty());
        assert(models_of(parsed@) =~= Seq::<ValueTypeModel>::empty());
        while i < types.len()
            invariant
                i <= types.len(),
                spec_parse_types(texts_of(types@).take(i as int)) == Ok::<Seq<ValueTypeModel>, TypeDeclError>(models_of(parsed@)),
            decreases types.len() - i,
        {
            let ghost prefix = texts_of(types@).take(i + 1);
            assert(prefix.drop_last() =~= texts_of(types@).take(i as int));
            assert(prefix.last() == types@[i as int]@);
            match parse_type(&types[i]) {
                Ok(t) => {
                    proof {
                        let old_parsed = parsed@;
                        assert(models_of(old_parsed.push(t)) =~= models_of(old_parsed).push(t@));
                    }
                    parsed.push(t);
                },
                Err(e) => {
                    proof {
                        lemma_parse_types_err(prefix, texts_of(types@).skip(i + 1), e);
                        assert(prefix + texts_of(types@).skip(i + 1) =~= texts_of(types@));
                    }
                    return Err(e);
                },
            }
            i = i + 1;
        }
        assert(texts_of(types@).take(i as int) =~= texts_of(types@));
        Ok(parsed)
    }

    /// Parses each declaration; on success appends the types in order and
    /// returns `Ok`, else leaves the pool as it was and returns the refusal
    /// of the first declaration that is refused.
    pub fn try_append_types(&mut self, types: Vec<String>) -> (res: Result<(), TypeDeclError>)
        ensures
            match res {
                Ok(()) => spec_parse_types(texts_of(types@)) matches Ok(ms) && final(self)@ == old(self)@ + ms,
                Err(e) => spec_parse_types(texts_of(types@)) == Err::<Seq<ValueTypeModel>, TypeDeclError>(e)
                    && final(self)@ == old(self)@,
            },
    {
        let ghost texts = texts_of(types@);
        let parsed = match Self::parse_types(types) {
            Ok(v) => v,
            Err(e) => {
                return Err(e);
            },
        };
        let ghost before = self.types@;
        let mut k: usize = 0;
        assert(models_of(before) + models_of(parsed@).take(0) =~= models_of(before));
        while k < parsed.len()
            invariant
                k <= parsed.len(),
                models_of(self.types@) == models_of(before) + models_of(parsed@).take(k as int),
            decreases parsed.len() - k,
        {
            let t = parsed[k].clone();
            proof {
                let old_types = self.types@;
                assert(models_of(old_types.push(t)) =~= models_of(old_types).push(t@));
                assert(models_of(parsed@).take(k + 1) =~= models_of(parsed@).take(k as int).push(parsed@[k as int]@));
            }
            self.types.push(t);
            k = k + 1;
        }
        assert(models_of(parsed@).take(k as int) =~= models_of(parsed@));
        Ok(())
    }

    /// Parses each declaration and appends the types in order.
    pub fn append_types(&mut self, types: Vec<String>)
        requires
            spec_parse_types(texts_of(types@)) is Ok,
        ensures
            spec_parse_types(texts_of(types@)) matches Ok(ms) && final(self)@ == old(self)@ + ms,
    {
        let r = self.try_append_types(types);
        match r {
            Ok(()) => {},
            Err(_) => {},
        }
    }

    /// The first declared type named `param_type` that may be a parameter.
    pub fn from_param_type(&self, param_type: ParamType) -> (res: Option<ValueType>)
        ensures
            opt_type_view(res) == find_param_type(self@, param_type.0@),
    {
        let mut i: usize = 0;
        assert(self@.skip(0) =~= self@);
        while i < self.types.len()
            invariant
                i <= self.types.len(),
                find_param_type(self@, param_type.0@) == find_param_type(self@.skip(i as int), param_type.0@),
            decreases self.types.len() - i,
        {
            let t = &self.types[i];
            assert(self@.skip(i as int)[0] == t@);
            assert(self@.skip(i as int).drop_first() =~= self@.skip(i + 1));
            if str_is(&t.name, param_type.0) && t.can_be_param {
                return Some(t.clone());
            }
            i = i + 1;
        }
        assert(self@.skip(i as int) =~= Seq::<ValueTypeModel>::empty());
        None
    }

    /// The first declared type named `return_type`.
    pub fn from_return_type(&self, return_type: ReturnType) -> (res: Option<ValueType>)
        ensures
            opt_type_view(res) == find_return_type(self@, return_type.0@),
    {
        let mut i: usize = 0;
        assert(self@.skip(0) =~= self@);
        while i < self.types.len()
            invariant
                i <= self.types.len(),
                find_return_type(self@, return_type.0@) == find_return_type(self@.skip(i as int), return_type.0@),
            decreases self.types.len() - i,
        {
            let t = &self.types[i];
            assert(self@.skip(i as int)[0] == t@);
            assert(self@.skip(i as int).drop_first() =~= self@.skip(i + 1));
            if str_is(&t.name, return_type.0) {
                return Some(t.clone());
            }
            i = i + 1;
        }
        assert(self@.skip(i as int) =~= Seq::<ValueTypeModel>::empty());
        None
    }
}

} // verus!
