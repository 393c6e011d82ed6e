//! Deriving the description of an entity from the declaration of a record:
//! what the attributes on the record and on its fields mean.
//!
//! A declaration is given as plain data: the name of the record, its
//! attributes, and its fields with their names, attributes and types.

use vstd::prelude::*;
use vstd::string::StringExecFns;
use crate::entity::{Cardinality, EntitySchema, FieldDefinition, FieldType, Keyword, Unique};
use crate::text::{chars_of, same_text, text_of};
use crate::view::{FieldKind, FieldKindView, FieldSpec, FieldSpecView};

verus! {

/// Whether `char::is_uppercase` holds of a character.
pub uninterp spec fn char_is_upper(c: char) -> bool;

/// The lower-case mapping that `char::to_lowercase` gives for a character.
pub uninterp spec fn char_lowercase(c: char) -> Seq<char>;

/// The lower-case form of a character as a name in snake case holds it: the
/// first character of its lower-case mapping.
pub open spec fn char_lowered(c: char) -> char {
    if char_lowercase(c).len() > 0 {
        char_lowercase(c)[0]
    } else {
        c
    }
}

/// Asks `char::is_uppercase`. The result is the one that `char_is_upper`
/// names.
#[verifier::external_body]
fn is_upper(c: char) -> (b: bool)
    ensures
        b == char_is_upper(c),
{
    c.is_uppercase()
}

/// Collects the lower-case mapping that `char::to_lowercase` gives. The
/// result is the one that `char_lowercase` names.
#[verifier::external_body]
fn lowercase(c: char) -> (mapping: Vec<char>)
    ensures
        mapping@ == char_lowercase(c),
{
    c.to_lowercase().collect()
}

fn lowered(c: char) -> (l: char)
    ensures
        l == char_lowered(c),
{
    let mapping = lowercase(c);
    if mapping.len() > 0 {
        mapping[0]
    } else {
        c
    }
}

/// A character of a name with what is known of it: the character, whether
/// it is upper-case, and its lower-case form.
pub struct CharCase {
    pub ch: char,
    pub upper: bool,
    pub lowered: char,
}

/// The characters in snake case: each upper-case character is replaced by
/// its lower-case form, and an underscore stands before it unless it is the
/// first character or follows an upper-case one.
pub open spec fn snake_from(chars: Seq<CharCase>) -> Seq<char>
    decreases chars.len(),
{
    if chars.len() == 0 {
        Seq::empty()
    } else {
        let c = chars.last();
        let head = snake_from(chars.drop_last());
        if !c.upper {
            head.push(c.ch)
        } else if chars.len() > 1 && !chars[chars.len() - 2].upper {
            head.push('_').push(c.lowered)
        } else {
            head.push(c.lowered)
        }
    }
}

/// A character with what `char::is_uppercase` and `char::to_lowercase` say
/// of it.
pub open spec fn case_of(c: char) -> CharCase {
    CharCase { ch: c, upper: char_is_upper(c), lowered: char_lowered(c) }
}

/// The characters of a name with what `char::is_uppercase` and
/// `char::to_lowercase` say of each.
pub open spec fn cases_of(s: Seq<char>) -> Seq<CharCase> {
    Seq::new(s.len(), |i: int| case_of(s[i]))
}

/// A name in snake case.
pub open spec fn snake_case(s: Seq<char>) -> Seq<char> {
    snake_from(cases_of(s))
}

/// Writes characters in snake case.
pub fn snake_case_of(chars: &Vec<CharCase>) -> (r: Vec<char>)
    ensures
        r@ == snake_from(chars@),
{
    let mut result: Vec<char> = Vec::new();
    let mut prev_was_uppercase = false;
    let mut i: usize = 0;
    assert(chars@.take(0) =~= Seq::empty());
    while i < chars.len()
        invariant
            i <= chars.len(),
            result@ == snake_from(chars@.take(i as int)),
            prev_was_uppercase == (i > 0 && chars@[i - 1].upper),
        decreases chars.len() - i,
    {
        let c = &chars[i];
        proof {
            let now = chars@.take(i + 1);
            assert(now.drop_last() =~= chars@.take(i as int));
            assert(now.last() == chars@[i as int]);
            if i > 0 {
                assert(now[now.len() - 2] == chars@[i - 1]);
            }
        }
        if c.upper {
            if i > 0 && !prev_was_uppercase {
                result.push('_');
            }
            result.push(c.lowered);
            prev_was_uppercase = true;
        } else {
            result.push(c.ch);
            prev_was_uppercase = false;
        }
        i += 1;
    }
    assert(chars@.take(chars.len() as int) =~= chars@);
    result
}

/// The character at `index`.
fn char_at(chars: &Vec<char>, index: usize) -> (c: char)
    requires
        index < chars.len(),
    ensures
        c == chars[index as int],
{
    chars[index]
}

/// Writes a name in snake case.
pub fn to_snake_case(s: &str) -> (r: String)
    ensures
        r@ == snake_case(s@),
{
    let chars = chars_of(s);
    let mut cases: Vec<CharCase> = Vec::new();
    let mut i: usize = 0;
    while i < chars.len()
        invariant
            i <= chars.len(),
            chars@ == s@,
            cases.len() == i,
            forall|k: int| 0 <= k < i ==> cases[k] == cases_of(s@)[k],
        decreases chars.len() - i,
    {
        let ch = char_at(&chars, i);
        let upper = is_upper(ch);
        let low = lowered(ch);
        cases.push(CharCase { ch, upper, lowered: low });
        i += 1;
    }
    assert(cases@ =~= cases_of(s@));
    let snake = snake_case_of(&cases);
    text_of(&snake)
}

/// One argument of an attribute.
#[derive(Clone, Debug)]
pub enum MetaArg {
    /// A bare word, as `indexed` in `#[entity(indexed)]`.
    Flag(String),
    /// A name with a text, as `ns = "person"` in `#[entity(ns = "person")]`.
    NameValue { name: String, value: String },
    /// A text, as in `#[attr(":db/id")]`.
    Literal(String),
    /// Anything else.
    Other,
}

/// An attribute on a record or on a field: its name and, where it has a
/// list of arguments, the arguments.
#[derive(Clone, Debug)]
pub struct Attribute {
    pub name: String,
    pub args: Option<Vec<MetaArg>>,
}

/// A type as a declaration names it: the last word of its path and, where
/// it has type arguments, the first of them.
#[derive(Debug)]
pub struct TypeDesc {
    pub name: String,
    pub arg: Option<Box<TypeDesc>>,
}

/// A field of a record.
#[derive(Debug)]
pub struct FieldInput {
    pub name: String,
    pub attrs: Vec<Attribute>,
    pub ty: TypeDesc,
}

/// The declaration of a record.
#[derive(Debug)]
pub struct StructInput {
    pub name: String,
    pub attrs: Vec<Attribute>,
    pub fields: Vec<FieldInput>,
}

/// The arguments of all attributes named `first` or `second`, in order.
pub open spec fn args_named(attrs: Seq<Attribute>, first: Seq<char>, second: Seq<char>) -> Seq<
    MetaArg,
>
    decreases attrs.len(),
{
    if attrs.len() == 0 {
        Seq::empty()
    } else {
        let last = attrs.last();
        let head = args_named(attrs.drop_last(), first, second);
        match last.args {
            Some(args) if last.name@ == first || last.name@ == second => head + args@,
            _ => head,
        }
    }
}

/// One of the attributes is named `name`.
pub open spec fn has_attr(attrs: Seq<Attribute>, name: Seq<char>) -> bool {
    exists|i: int| 0 <= i < attrs.len() && (#[trigger] attrs[i]).name@ == name
}

/// The text of the first argument that gives a text to `first` or to
/// `second`.
pub open spec fn first_value(args: Seq<MetaArg>, first: Seq<char>, second: Seq<char>) -> Option<
    Seq<char>,
>
    decreases args.len(),
{
    if args.len() == 0 {
        None
    } else {
        match args[0] {
            MetaArg::NameValue { name, value } if name@ == first || name@ == second => Some(
                value@,
            ),
            _ => first_value(args.drop_first(), first, second),
        }
    }
}

/// The text of the last argument that gives a text to `key`.
pub open spec fn last_value(args: Seq<MetaArg>, key: Seq<char>) -> Option<Seq<char>>
    decreases args.len(),
{
    if args.len() == 0 {
        None
    } else {
        match args.last() {
            MetaArg::NameValue { name, value } if name@ == key => Some(value@),
            _ => last_value(args.drop_last(), key),
        }
    }
}

/// The last argument that is a text.
pub open spec fn last_literal(args: Seq<MetaArg>) -> Option<Seq<char>>
    decreases args.len(),
{
    if args.len() == 0 {
        None
    } else {
        match args.last() {
            MetaArg::Literal(text) => Some(text@),
            _ => last_literal(args.drop_last()),
        }
    }
}

/// One of the arguments is the bare word `flag`.
pub open spec fn has_flag(args: Seq<MetaArg>, flag: Seq<char>) -> bool {
    exists|i: int| 0 <= i < args.len() && (#[trigger] args[i] matches MetaArg::Flag(word) && word@
        == flag)
}

/// What the references refer to, in order.
pub open spec fn arg_targets(refs: Seq<&MetaArg>) -> Seq<MetaArg> {
    Seq::new(refs.len(), |i: int| *refs[i])
}

/// The view of an optional text.
pub open spec fn text_view(text: Option<String>) -> Option<Seq<char>> {
    match text {
        Some(t) => Some(t@),
        None => None,
    }
}

/// Collects the arguments of all attributes named `first` or `second`.
pub fn collect_args<'a>(attrs: &'a Vec<Attribute>, first: &str, second: &str) -> (r: Vec<
    &'a MetaArg,
>)
    ensures
        arg_targets(r@) == args_named(attrs@, first@, second@),
{
    let mut out: Vec<&'a MetaArg> = Vec::new();
    let mut i: usize = 0;
    proof {
        assert(attrs@.take(0) =~= Seq::empty());
        assert(arg_targets(out@) =~= Seq::empty());
    }
    while i < attrs.len()
        invariant
            i <= attrs.len(),
            arg_targets(out@) == args_named(attrs@.take(i as int), first@, second@),
        decreases attrs.len() - i,
    {
        let attr = &attrs[i];
        let ghost head = arg_targets(out@);
        proof {
            assert(attrs@.take(i + 1).drop_last() =~= attrs@.take(i as int));
            assert(attrs@.take(i + 1).last() == attrs@[i as int]);
        }
        let named = same_text(attr.name.as_str(), first) || same_text(attr.name.as_str(), second);
        match &attr.args {
            Some(args) => {
                if named {
                    let mut k: usize = 0;
                    assert(arg_targets(out@) =~= head + args@.take(0));
                    while k < args.len()
                        invariant
                            k <= args.len(),
                            arg_targets(out@) == head + args@.take(k as int),
                        decreases args.len() - k,
                    {
                        let ghost so_far = arg_targets(out@);
                        out.push(&args[k]);
                        proof {
                            assert(arg_targets(out@) =~= so_far.push(args@[k as int]));
                            assert(args@.take(k + 1) =~= args@.take(k as int).push(args@[k as int]));
                            assert(arg_targets(out@) =~= head + args@.take(k + 1));
                        }
                        k += 1;
                    }
                    assert(args@.take(args.len() as int) =~= args@);
                } else {
                    assert(arg_targets(out@) =~= head);
                }
            },
            None => {},
        }
        i += 1;
    }
    assert(attrs@.take(attrs.len() as int) =~= attrs@);
    out
}

/// Whether one of the attributes is named `name`.
pub fn attr_present(attrs: &Vec<Attribute>, name: &str) -> (found: bool)
    ensures
        found == has_attr(attrs@, name@),
{
    let mut i: usize = 0;
    while i < attrs.len()
        invariant
            i <= attrs.len(),
            forall|k: int| 0 <= k < i ==> (#[trigger] attrs[k]).name@ != name@,
        decreases attrs.len() - i,
    {
        if same_text(attrs[i].name.as_str(), name) {
            return true;
        }
        i += 1;
    }
    false
}

/// Finds the text of the first argument that gives a text to `first` or to
/// `second`.
pub fn find_first_value(args: &Vec<&MetaArg>, first: &str, second: &str) -> (r: Option<String>)
    ensures
        text_view(r) == first_value(arg_targets(args@), first@, second@),
{
    let ghost all = arg_targets(args@);
    let mut i: usize = 0;
    assert(all.skip(0) =~= all);
    while i < args.len()
        invariant
            i <= args.len(),
            all == arg_targets(args@),
            first_value(all, first@, second@) == first_value(all.skip(i as int), first@, second@),
        decreases args.len() - i,
    {
        proof {
            assert(all.skip(i as int)[0] == *args@[i as int]);
            assert(all.skip(i as int).drop_first() =~= all.skip(i + 1));
        }
        match args[i] {
            MetaArg::NameValue { name, value } => {
                if same_text(name.as_str(), first) || same_text(name.as_str(), second) {
                    return Some(value.clone());
                }
            },
            _ => {},
        }
        i += 1;
    }
    None
}

/// Finds the text of the last argument that gives a text to `key`.
pub fn find_last_value(args: &Vec<&MetaArg>, key: &str) -> (r: Option<String>)
    ensures
        text_view(r) == last_value(arg_targets(args@), key@),
{
    let ghost all = arg_targets(args@);
    let mut found: Option<String> = None;
    let mut i: usize = 0;
    assert(all.take(0) =~= Seq::empty());
    while i < args.len()
        invariant
            i <= args.len(),
            all == arg_targets(args@),
            text_view(found) == last_value(all.take(i as int), key@),
        decreases args.len() - i,
    {
        proof {
            assert(all.take(i + 1).drop_last() =~= all.take(i as int));
            assert(all.take(i + 1).last() == *args@[i as int]);
        }
        match args[i] {
            MetaArg::NameValue { name, value } => {
                if same_text(name.as_str(), key) {
                    found = Some(value.clone());
                }
            },
            _ => {},
        }
        i += 1;
    }
    assert(all.take(args.len() as int) =~= all);
    found
}

/// Finds the last argument that is a text.
pub fn find_last_literal(args: &Vec<&MetaArg>) -> (r: Option<String>)
    ensures
        text_view(r) == last_literal(arg_targets(args@)),
{
    let ghost all = arg_targets(args@);
    let mut found: Option<String> = None;
    let mut i: usize = 0;
    assert(all.take(0) =~= Seq::empty());
    while i < args.len()
        invariant
            i <= args.len(),
            all == arg_targets(args@),
            text_view(found) == last_literal(all.take(i as int)),
        decreases args.len() - i,
    {
        proof {
            assert(all.take(i + 1).drop_last() =~= all.take(i as int));
            assert(all.take(i + 1).last() == *args@[i as int]);
        }
        match args[i] {
            MetaArg::Literal(text) => {
                found = Some(text.clone());
            },
            _ => {},
        }
        i += 1;
    }
    assert(all.take(args.len() as int) =~= all);
    found
}

/// Whether one of the arguments is the bare word `flag`.
pub fn flag_present(args: &Vec<&MetaArg>, flag: &str) -> (found: bool)
    ensures
        found == has_flag(arg_targets(args@), flag@),
{
    let ghost all = arg_targets(args@);
    let mut i: usize = 0;
    while i < args.len()
        invariant
            i <= args.len(),
            all == arg_targets(args@),
            forall|k: int|
                0 <= k < i ==> !(#[trigger] all[k] matches MetaArg::Flag(word) && word@ == flag@),
        decreases args.len() - i,
    {
        assert(all[i as int] == *args@[i as int]);
        match args[i] {
            MetaArg::Flag(word) => {
                if same_text(word.as_str(), flag) {
                    return true;
                }
            },
            _ => {},
        }
        i += 1;
    }
    false
}

/// The namespace that the attributes of a record give with
/// `#[entity(namespace = "...")]`, the first where there are several.
pub open spec fn namespace_given(attrs: Seq<Attribute>) -> Option<Seq<char>> {
    first_value(args_named(attrs, "entity"@, "entity"@), "namespace"@, "namespace"@)
}

/// Reads the namespace that the attributes of a record give.
pub fn extract_namespace(attrs: &Vec<Attribute>) -> (r: Option<String>)
    ensures
        text_view(r) == namespace_given(attrs@),
{
    let args = collect_args(attrs, "entity", "entity");
    find_first_value(&args, "namespace", "namespace")
}

/// What the `entity` attributes of a field say.
#[derive(Debug)]
pub struct FieldAttributes {
    /// The uniqueness asked for with `unique = "..."`, the last where
    /// there are several.
    pub unique: Option<String>,
    /// Whether `indexed` is among the arguments.
    pub indexed: bool,
    /// Whether `many` is among the arguments.
    pub many: bool,
}

/// Reads what the `entity` attributes of a field say.
pub fn parse_field_attributes(attrs: &Vec<Attribute>) -> (r: FieldAttributes)
    ensures
        text_view(r.unique) == last_value(args_named(attrs@, "entity"@, "entity"@), "unique"@),
        r.indexed == has_flag(args_named(attrs@, "entity"@, "entity"@), "indexed"@),
        r.many == has_flag(args_named(attrs@, "entity"@, "entity"@), "many"@),
{
    let args = collect_args(attrs, "entity", "entity");
    FieldAttributes {
        unique: find_last_value(&args, "unique"),
        indexed: flag_present(&args, "indexed"),
        many: flag_present(&args, "many"),
    }
}

/// The type is `wrapper<...>` with a type argument.
pub open spec fn wraps(ty: TypeDesc, wrapper: Seq<char>) -> bool {
    ty.name@ == wrapper && ty.arg is Some
}

/// The type of the values of a field: the type itself, or the type that an
/// `Option` holds.
pub open spec fn value_type_name(ty: TypeDesc) -> Seq<char>
    decreases ty,
{
    if ty.name@ == "Option"@ {
        match ty.arg {
            Some(inner) => value_type_name(*inner),
            None => ty.name@,
        }
    } else {
        ty.name@
    }
}

/// Reads the type of the values of a field and whether the field is
/// optional.
pub fn extract_field_type(ty: &TypeDesc) -> (r: (String, bool))
    ensures
        r.0@ == value_type_name(*ty),
        r.1 == wraps(*ty, "Option"@),
    decreases ty,
{
    if same_text(ty.name.as_str(), "Option") {
        match &ty.arg {
            Some(inner) => {
                let (inner_type, _) = extract_field_type(inner);
                return (inner_type, true);
            },
            None => {},
        }
    }
    (ty.name.clone(), false)
}

/// The field type that stands for a type of the language.
pub open spec fn field_type_for(name: Seq<char>) -> Option<FieldType> {
    if name == "String"@ {
        Some(FieldType::String)
    } else if name == "i64"@ {
        Some(FieldType::Long)
    } else if name == "f64"@ {
        Some(FieldType::Double)
    } else if name == "bool"@ {
        Some(FieldType::Boolean)
    } else if name == "DateTime"@ {
        Some(FieldType::Instant)
    } else if name == "Uuid"@ {
        Some(FieldType::Uuid)
    } else if name == "Keyword"@ {
        Some(FieldType::Keyword)
    } else if name == "Entid"@ {
        Some(FieldType::Ref)
    } else {
        None
    }
}

/// Finds the field type that stands for a type of the language; there is
/// none for a type that an entity cannot hold.
pub fn rust_type_to_field_type(rust_type: &str) -> (r: Option<FieldType>)
    ensures
        r == field_type_for(rust_type@),
{
    if same_text(rust_type, "String") {
        Some(FieldType::String)
    } else if same_text(rust_type, "i64") {
        Some(FieldType::Long)
    } else if same_text(rust_type, "f64") {
        Some(FieldType::Double)
    } else if same_text(rust_type, "bool") {
        Some(FieldType::Boolean)
    } else if same_text(rust_type, "DateTime") {
        Some(FieldType::Instant)
    } else if same_text(rust_type, "Uuid") {
        Some(FieldType::Uuid)
    } else if same_text(rust_type, "Keyword") {
        Some(FieldType::Keyword)
    } else if same_text(rust_type, "Entid") {
        Some(FieldType::Ref)
    } else {
        None
    }
}

/// The namespace of a view or a patch: the one given with `ns` or
/// `namespace` in an `entity` attribute, else the name of the record in
/// snake case.
pub open spec fn namespace_or_default(attrs: Seq<Attribute>, struct_name: Seq<char>) -> Seq<char> {
    match first_value(args_named(attrs, "entity"@, "entity"@), "ns"@, "namespace"@) {
        Some(ns) => ns,
        None => snake_case(struct_name),
    }
}

/// Reads the namespace of a view or a patch.
pub fn extract_namespace_or_default(attrs: &Vec<Attribute>, struct_name: &str) -> (r: String)
    ensures
        r@ == namespace_or_default(attrs@, struct_name@),
{
    let args = collect_args(attrs, "entity", "entity");
    match find_first_value(&args, "ns", "namespace") {
        Some(ns) => ns,
        None => to_snake_case(struct_name),
    }
}

/// What the attributes of a field of a view say.
#[derive(Debug)]
pub struct ViewFieldAttributes {
    /// The attribute given with `#[attr("...")]`.
    pub attr_override: Option<String>,
    /// The attribute given with `attr = "..."` in `#[ref(...)]` or
    /// `#[backref(...)]`.
    pub ref_attr: Option<String>,
    /// Whether the field has a `ref` attribute.
    pub is_ref: bool,
    /// Whether the field has a `backref` attribute.
    pub is_backref: bool,
}

/// Reads what the attributes of a field of a view say.
pub fn parse_view_field_attributes(attrs: &Vec<Attribute>) -> (r: ViewFieldAttributes)
    ensures
        text_view(r.attr_override) == last_literal(args_named(attrs@, "attr"@, "attr"@)),
        text_view(r.ref_attr) == last_value(args_named(attrs@, "ref"@, "backref"@), "attr"@),
        r.is_ref == has_attr(attrs@, "ref"@),
        r.is_backref == has_attr(attrs@, "backref"@),
{
    let overrides = collect_args(attrs, "attr", "attr");
    let references = collect_args(attrs, "ref", "backref");
    ViewFieldAttributes {
        attr_override: find_last_literal(&overrides),
        ref_attr: find_last_value(&references, "attr"),
        is_ref: attr_present(attrs, "ref"),
        is_backref: attr_present(attrs, "backref"),
    }
}

/// What the type of a field of a view says.
#[derive(Debug)]
pub struct TypeInfo {
    /// The type of the values.
    pub base: String,
    /// Whether the field holds a list.
    pub is_vec: bool,
    /// The type of the items of the list.
    pub nested: Option<String>,
}

/// The type below every `Option` around a type.
pub open spec fn below_options(ty: TypeDesc) -> TypeDesc
    decreases ty,
{
    if ty.name@ == "Option"@ {
        match ty.arg {
            Some(inner) => below_options(*inner),
            None => ty,
        }
    } else {
        ty
    }
}

/// The type of the values of a field of a view: of the items where the
/// field holds a list, below every `Option`.
pub open spec fn base_type_name(ty: TypeDesc) -> Seq<char> {
    let core = below_options(ty);
    if core.name@ == "Vec"@ {
        match core.arg {
            Some(item) => item.name@,
            None => core.name@,
        }
    } else {
        core.name@
    }
}

/// Reads what the type of a field of a view says.
pub fn extract_type_info(ty: &TypeDesc) -> (r: TypeInfo)
    ensures
        r.base@ == base_type_name(*ty),
        r.is_vec == wraps(below_options(*ty), "Vec"@),
        text_view(r.nested) == if wraps(below_options(*ty), "Vec"@) {
            Some(base_type_name(*ty))
        } else {
            None
        },
    decreases ty,
{
    if same_text(ty.name.as_str(), "Option") {
        match &ty.arg {
            Some(inner) => {
                return extract_type_info(inner);
            },
            None => {},
        }
    }
    if same_text(ty.name.as_str(), "Vec") {
        match &ty.arg {
            Some(item) => {
                return TypeInfo {
                    base: item.name.clone(),
                    is_vec: true,
                    nested: Some(item.name.clone()),
                };
            },
            None => {},
        }
    }
    TypeInfo { base: ty.name.clone(), is_vec: false, nested: None }
}

/// The attribute that holds a field by default: `:namespace/field`, with
/// the name of the field in snake case.
pub open spec fn default_attr(ns: Seq<char>, field_name: Seq<char>) -> Seq<char> {
    ":"@ + ns + "/"@ + snake_case(field_name)
}

fn default_attr_of(ns: &str, field_name: &str) -> (r: String)
    ensures
        r@ == default_attr(ns@, field_name@),
{
    let mut out = String::from_str(":");
    out.append(ns);
    out.append("/");
    out.append(to_snake_case(field_name).as_str());
    out
}

/// What a view says of a field of the record: the attribute is the one
/// given with `attr`, else the one given with `ref` or `backref`, else the
/// default; the field is a back reference where it has `backref`, else a
/// reference where it has `ref`, else plain; it holds many values where its
/// type is a list.
pub open spec fn view_field(ns: Seq<char>, field: FieldInput) -> FieldSpecView {
    let attr = match last_literal(args_named(field.attrs@, "attr"@, "attr"@)) {
        Some(given) => given,
        None => match last_value(args_named(field.attrs@, "ref"@, "backref"@), "attr"@) {
            Some(given) => given,
            None => default_attr(ns, field.name@),
        },
    };
    let kind = if has_attr(field.attrs@, "backref"@) {
        FieldKindView::Backref { nested: base_type_name(field.ty) }
    } else if has_attr(field.attrs@, "ref"@) {
        FieldKindView::Ref { nested: base_type_name(field.ty) }
    } else {
        FieldKindView::Scalar
    };
    FieldSpecView {
        rust_name: field.name@,
        attr,
        kind,
        cardinality_many: wraps(below_options(field.ty), "Vec"@),
        profiles: None,
        is_component: false,
    }
}

/// What a view is derived to: its name, its namespace and its fields.
#[derive(Debug)]
pub struct ViewDescription {
    pub name: String,
    pub ns: String,
    pub fields: Vec<FieldSpec>,
}

/// Derives the view of a record.
pub fn derive_entity_view(input: &StructInput) -> (r: ViewDescription)
    ensures
        r.name@ == input.name@,
        r.ns@ == namespace_or_default(input.attrs@, input.name@),
        r.fields.len() == input.fields.len(),
        forall|i: int|
            0 <= i < r.fields.len() ==> (#[trigger] r.fields[i])@ == view_field(
                r.ns@,
                input.fields[i],
            ),
{
    let namespace = extract_namespace_or_default(&input.attrs, input.name.as_str());
    let mut field_specs: Vec<FieldSpec> = Vec::new();
    let mut i: usize = 0;
    while i < input.fields.len()
        invariant
            i <= input.fields.len(),
            field_specs.len() == i,
            forall|k: int|
                0 <= k < i ==> (#[trigger] field_specs[k])@ == view_field(
                    namespace@,
                    input.fields[k],
                ),
        decreases input.fields.len() - i,
    {
        let field = &input.fields[i];
        let attrs = parse_view_field_attributes(&field.attrs);
        let info = extract_type_info(&field.ty);
        let attr_ident = match attrs.attr_override {
            Some(given) => given,
            None => match attrs.ref_attr {
                Some(given) => given,
                None => default_attr_of(namespace.as_str(), field.name.as_str()),
            },
        };
        let nested = match info.nested {
            Some(item) => item,
            None => info.base,
        };
        let kind = if attrs.is_backref {
            FieldKind::Backref { nested }
        } else if attrs.is_ref {
            FieldKind::Ref { nested }
        } else {
            FieldKind::Scalar
        };
        field_specs.push(
            FieldSpec {
                rust_name: field.name.clone(),
                attr: attr_ident,
                kind,
                cardinality_many: info.is_vec,
                profiles: None,
                is_component: false,
            },
        );
        i += 1;
    }
    ViewDescription { name: input.name.clone(), ns: namespace, fields: field_specs }
}

/// Reads what the attributes of a field of a patch say: whether the field
/// names the entity, and the attribute given with `#[attr("...")]`.
pub fn parse_patch_field_attributes(attrs: &Vec<Attribute>) -> (r: (bool, Option<String>))
    ensures
        r.0 == has_attr(attrs@, "entity_id"@),
        text_view(r.1) == last_literal(args_named(attrs@, "attr"@, "attr"@)),
{
    let overrides = collect_args(attrs, "attr", "attr");
    (attr_present(attrs, "entity_id"), find_last_literal(&overrides))
}

/// The type of the values that a field of a patch changes: what a `Patch`
/// or a `ManyPatch` holds, else the type itself.
pub open spec fn patched_type_name(ty: TypeDesc) -> Seq<char> {
    if wraps(ty, "Patch"@) || wraps(ty, "ManyPatch"@) {
        ty.arg->0.name@
    } else {
        ty.name@
    }
}

/// Reads the type of a field of a patch: whether it is a `Patch`, whether
/// it is a `ManyPatch`, and the type of the values.
pub fn extract_patch_type_info(ty: &TypeDesc) -> (r: (bool, bool, String))
    ensures
        r.0 == wraps(*ty, "Patch"@),
        r.1 == (!wraps(*ty, "Patch"@) && wraps(*ty, "ManyPatch"@)),
        r.2@ == patched_type_name(*ty),
{
    if same_text(ty.name.as_str(), "Patch") {
        match &ty.arg {
            Some(inner) => {
                return (true, false, inner.name.clone());
            },
            None => {},
        }
    }
    if same_text(ty.name.as_str(), "ManyPatch") {
        match &ty.arg {
            Some(inner) => {
                return (false, true, inner.name.clone());
            },
            None => {},
        }
    }
    (false, false, ty.name.clone())
}

/// A field of a patch: its name, whether it is a `Patch` or a `ManyPatch`,
/// the attribute that it changes and the type of the values.
#[derive(Debug)]
pub struct PatchField {
    pub name: String,
    pub is_patch: bool,
    pub is_many_patch: bool,
    pub attr: String,
    pub inner_type: String,
}

/// What a `PatchField` holds, as mathematics.
pub struct PatchFieldView {
    pub name: Seq<char>,
    pub is_patch: bool,
    pub is_many_patch: bool,
    pub attr: Seq<char>,
    pub inner_type: Seq<char>,
}

impl View for PatchField {
    type V = PatchFieldView;

    open spec fn view(&self) -> PatchFieldView {
        PatchFieldView {
            name: self.name@,
            is_patch: self.is_patch,
            is_many_patch: self.is_many_patch,
            attr: self.attr@,
            inner_type: self.inner_type@,
        }
    }
}

/// The views of a sequence of patch fields, in order.
pub open spec fn patch_fields_view(fields: Seq<PatchField>) -> Seq<PatchFieldView> {
    Seq::new(fields.len(), |i: int| fields[i]@)
}

/// What a patch is derived to: its namespace, the field that names the
/// entity, and the fields that change attributes.
#[derive(Debug)]
pub struct PatchDescription {
    pub ns: String,
    pub entity_id_field: String,
    pub fields: Vec<PatchField>,
}

/// What a patch says of a field that changes an attribute.
pub open spec fn patch_field(ns: Seq<char>, field: FieldInput) -> PatchFieldView {
    PatchFieldView {
        name: field.name@,
        is_patch: wraps(field.ty, "Patch"@),
        is_many_patch: !wraps(field.ty, "Patch"@) && wraps(field.ty, "ManyPatch"@),
        attr: match last_literal(args_named(field.attrs@, "attr"@, "attr"@)) {
            Some(given) => given,
            None => default_attr(ns, field.name@),
        },
        inner_type: patched_type_name(field.ty),
    }
}

/// The fields of a patch that change attributes: all but those that name
/// the entity, in order.
pub open spec fn patch_fields(ns: Seq<char>, fields: Seq<FieldInput>) -> Seq<PatchFieldView>
    decreases fields.len(),
{
    if fields.len() == 0 {
        Seq::empty()
    } else if has_attr(fields.last().attrs@, "entity_id"@) {
        patch_fields(ns, fields.drop_last())
    } else {
        patch_fields(ns, fields.drop_last()).push(patch_field(ns, fields.last()))
    }
}

/// The field that names the entity: the last that has `entity_id`.
pub open spec fn entity_id_field(fields: Seq<FieldInput>) -> Option<Seq<char>>
    decreases fields.len(),
{
    if fields.len() == 0 {
        None
    } else if has_attr(fields.last().attrs@, "entity_id"@) {
        Some(fields.last().name@)
    } else {
        entity_id_field(fields.drop_last())
    }
}

/// Derives the patch of a record. A record without a field that names the
/// entity has none.
pub fn derive_entity_patch(input: &StructInput) -> (r: Option<PatchDescription>)
    ensures
        match entity_id_field(input.fields@) {
            Some(name) => r matches Some(patch) && patch.entity_id_field@ == name && patch.ns@
                == namespace_or_default(input.attrs@, input.name@) && patch_fields_view(
                patch.fields@,
            ) == patch_fields(patch.ns@, input.fields@),
            None => r is None,
        },
{
    let namespace = extract_namespace_or_default(&input.attrs, input.name.as_str());
    let mut id_field: Option<String> = None;
    let mut fields: Vec<PatchField> = Vec::new();
    let mut i: usize = 0;
    proof {
        assert(input.fields@.take(0) =~= Seq::empty());
        assert(patch_fields_view(fields@) =~= Seq::empty());
    }
    while i < input.fields.len()
        invariant
            i <= input.fields.len(),
            text_view(id_field) == entity_id_field(input.fields@.take(i as int)),
            patch_fields_view(fields@) == patch_fields(namespace@, input.fields@.take(i as int)),
        decreases input.fields.len() - i,
    {
        let field = &input.fields[i];
        let ghost so_far = patch_fields_view(fields@);
        proof {
            assert(input.fields@.take(i + 1).drop_last() =~= input.fields@.take(i as int));
            assert(input.fields@.take(i + 1).last() == input.fields@[i as int]);
        }
        let (is_entity_id, attr_override) = parse_patch_field_attributes(&field.attrs);
        if is_entity_id {
            id_field = Some(field.name.clone());
        } else {
            let (is_patch, is_many_patch, inner_type) = extract_patch_type_info(&field.ty);
            let attr = match attr_override {
                Some(given) => given,
                None => default_attr_of(namespace.as_str(), field.name.as_str()),
            };
            fields.push(
                PatchField { name: field.name.clone(), is_patch, is_many_patch, attr, inner_type },
            );
            assert(patch_fields_view(fields@) =~= so_far.push(patch_field(namespace@, *field)));
        }
        i += 1;
    }
    assert(input.fields@.take(input.fields.len() as int) =~= input.fields@);
    match id_field {
        Some(name) => Some(PatchDescription { ns: namespace, entity_id_field: name, fields }),
        None => None,
    }
}

/// A name without the marks of a raw identifier: every `r#` is left out,
/// read from the left.
pub open spec fn without_raw(s: Seq<char>) -> Seq<char>
    decreases s.len(),
{
    if s.len() == 0 {
        Seq::empty()
    } else if s.len() >= 2 && s[0] == 'r' && s[1] == '#' {
        without_raw(s.skip(2))
    } else {
        seq![s[0]] + without_raw(s.skip(1))
    }
}

/// Removes the marks of a raw identifier from a name.
pub fn strip_raw(name: &str) -> (r: String)
    ensures
        r@ == without_raw(name@),
{
    let chars = chars_of(name);
    let mut kept: Vec<char> = Vec::new();
    let mut i: usize = 0;
    assert(chars@.skip(0) =~= chars@);
    while i < chars.len()
        invariant
            i <= chars.len(),
            without_raw(chars@) == kept@ + without_raw(chars@.skip(i as int)),
        decreases chars.len() - i,
    {
        let ghost rest = chars@.skip(i as int);
        if chars[i] == 'r' && i + 1 < chars.len() && chars[i + 1] == '#' {
            proof {
                assert(rest[0] == 'r' && rest[1] == '#');
                assert(rest.skip(2) =~= chars@.skip(i + 2));
            }
            i += 2;
        } else {
            proof {
                assert(rest[0] == chars@[i as int]);
                if rest.len() >= 2 {
                    assert(rest[1] == chars@[i + 1]);
                }
                assert(rest.skip(1) =~= chars@.skip(i + 1));
                assert(kept@.push(chars@[i as int]) + without_raw(rest.skip(1)) =~= kept@ + (
                seq![rest[0]] + without_raw(rest.skip(1))));
            }
            kept.push(chars[i]);
            i += 1;
        }
    }
    assert(kept@ + Seq::<char>::empty() =~= kept@);
    text_of(&kept)
}

/// The uniqueness that a text asks for.
pub open spec fn unique_for(asked: Option<Seq<char>>) -> Unique {
    match asked {
        Some(text) => if text == "identity"@ {
            Unique::Identity
        } else if text == "value"@ {
            Unique::Value
        } else {
            Unique::NotUnique
        },
        None => Unique::NotUnique,
    }
}

/// The definition is the one that the schema of an entity with the
/// namespace `ns` holds for the field.
pub open spec fn defines(def: FieldDefinition, ns: Seq<char>, field: FieldInput) -> bool {
    let entity = args_named(field.attrs@, "entity"@, "entity"@);
    &&& def.name@ == without_raw(field.name@)
    &&& def.ident.namespace matches Some(n) && n@ == ns
    &&& def.ident.name@ == without_raw(field.name@)
    &&& Some(def.field_type) == field_type_for(value_type_name(field.ty))
    &&& def.cardinality == if has_flag(entity, "many"@) {
        Cardinality::Many
    } else {
        Cardinality::One
    }
    &&& def.unique == unique_for(last_value(entity, "unique"@))
    &&& def.indexed == has_flag(entity, "indexed"@)
    &&& def.optional == wraps(field.ty, "Option"@)
}

/// An entity can hold the values of every field.
pub open spec fn all_supported(fields: Seq<FieldInput>) -> bool {
    forall|i: int|
        0 <= i < fields.len() ==> field_type_for(value_type_name((#[trigger] fields[i]).ty))
            is Some
}

/// Derives the schema of a record as an entity. A record without a
/// namespace, or with a field whose values an entity cannot hold, has none.
pub fn derive_entity(input: &StructInput) -> (r: Option<EntitySchema>)
    ensures
        match namespace_given(input.attrs@) {
            Some(ns) if all_supported(input.fields@) => r matches Some(schema)
                && schema.namespace@ == ns && schema.fields.len() == input.fields.len()
                && forall|i: int|
                0 <= i < schema.fields.len() ==> defines(
                    #[trigger] schema.fields[i],
                    ns,
                    input.fields[i],
                ),
            _ => r is None,
        },
{
    let namespace = match extract_namespace(&input.attrs) {
        Some(ns) => ns,
        None => {
            return None;
        },
    };
    let mut field_defs: Vec<FieldDefinition> = Vec::new();
    let mut i: usize = 0;
    while i < input.fields.len()
        invariant
            i <= input.fields.len(),
            Some(namespace@) == namespace_given(input.attrs@),
            field_defs.len() == i,
            forall|k: int|
                0 <= k < i ==> field_type_for(value_type_name((#[trigger] input.fields[k]).ty))
                    is Some,
            forall|k: int|
                0 <= k < i ==> defines(#[trigger] field_defs[k], namespace@, input.fields[k]),
        decreases input.fields.len() - i,
    {
        let field = &input.fields[i];
        let field_name = strip_raw(field.name.as_str());
        let field_attrs = parse_field_attributes(&field.attrs);
        let (field_type, is_optional) = extract_field_type(&field.ty);
        let field_type_enum = match rust_type_to_field_type(field_type.as_str()) {
            Some(t) => t,
            None => {
                return None;
            },
        };
        let unique = match &field_attrs.unique {
            Some(asked) => if same_text(asked.as_str(), "identity") {
                Unique::Identity
            } else if same_text(asked.as_str(), "value") {
                Unique::Value
            } else {
                Unique::NotUnique
            },
            None => Unique::NotUnique,
        };
        let cardinality = if field_attrs.many {
            Cardinality::Many
        } else {
            Cardinality::One
        };
        field_defs.push(
            FieldDefinition {
                name: field_name.clone(),
                ident: Keyword::namespaced(namespace.as_str(), field_name.as_str()),
                field_type: field_type_enum,
                cardinality,
                unique,
                indexed: field_attrs.indexed,
                optional: is_optional,
            },
        );
        i += 1;
    }
    Some(EntitySchema { namespace, fields: field_defs })
}

} // verus!
