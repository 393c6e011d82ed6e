//! Views of entities: which fields a view shows and the pull pattern that
//! fetches them.

use vstd::prelude::*;
use vstd::string::StringExecFns;
use crate::text::{chars_of, join, joined, same_text, text_of, texts};

verus! {

/// The kind of a field of a view.
#[derive(Debug, PartialEq)]
pub enum FieldKind {
    /// A plain value.
    Scalar,
    /// A reference to another entity, shown through the view `nested`.
    Ref { nested: String },
    /// The entities that refer to this one, shown through the view
    /// `nested`.
    Backref { nested: String },
}

/// What a view says of one of its fields.
#[derive(Debug)]
pub struct FieldSpec {
    /// The name of the field in the record.
    pub rust_name: String,
    /// The attribute that holds the field; for a back reference the
    /// attribute that refers to this entity.
    pub attr: String,
    /// The kind of the field.
    pub kind: FieldKind,
    /// Whether the field holds many values.
    pub cardinality_many: bool,
    /// The profiles that show the field; all of them where none is named.
    pub profiles: Option<Vec<String>>,
    /// Whether the entity that the field refers to is a part of this one.
    pub is_component: bool,
}

/// What a `FieldKind` holds, as mathematics.
pub enum FieldKindView {
    Scalar,
    Ref { nested: Seq<char> },
    Backref { nested: Seq<char> },
}

impl View for FieldKind {
    type V = FieldKindView;

    open spec fn view(&self) -> FieldKindView {
        match *self {
            FieldKind::Scalar => FieldKindView::Scalar,
            FieldKind::Ref { nested } => FieldKindView::Ref { nested: nested@ },
            FieldKind::Backref { nested } => FieldKindView::Backref { nested: nested@ },
        }
    }
}

/// What a `FieldSpec` holds, as mathematics.
pub struct FieldSpecView {
    pub rust_name: Seq<char>,
    pub attr: Seq<char>,
    pub kind: FieldKindView,
    pub cardinality_many: bool,
    pub profiles: Option<Seq<Seq<char>>>,
    pub is_component: bool,
}

impl View for FieldSpec {
    type V = FieldSpecView;

    open spec fn view(&self) -> FieldSpecView {
        FieldSpecView {
            rust_name: self.rust_name@,
            attr: self.attr@,
            kind: self.kind@,
            cardinality_many: self.cardinality_many,
            profiles: match self.profiles {
                Some(profiles) => Some(texts(profiles@)),
                None => None,
            },
            is_component: self.is_component,
        }
    }
}

/// The views of a sequence of field descriptions, in order.
pub open spec fn specs_view(fields: Seq<FieldSpec>) -> Seq<FieldSpecView> {
    Seq::new(fields.len(), |i: int| fields[i]@)
}

/// A copy of a list of texts.
pub fn clone_texts(list: &Vec<String>) -> (r: Vec<String>)
    ensures
        texts(r@) == texts(list@),
{
    let mut out: Vec<String> = Vec::new();
    let mut i: usize = 0;
    while i < list.len()
        invariant
            i <= list.len(),
            out.len() == i,
            forall|k: int| 0 <= k < i ==> out[k]@ == list[k]@,
        decreases list.len() - i,
    {
        out.push(list[i].clone());
        i += 1;
    }
    assert(texts(out@) =~= texts(list@));
    out
}

impl Clone for FieldKind {
    fn clone(&self) -> (r: FieldKind)
        ensures
            r@ == self@,
    {
        match self {
            FieldKind::Scalar => FieldKind::Scalar,
            FieldKind::Ref { nested } => FieldKind::Ref { nested: nested.clone() },
            FieldKind::Backref { nested } => FieldKind::Backref { nested: nested.clone() },
        }
    }
}

impl Clone for FieldSpec {
    fn clone(&self) -> (r: FieldSpec)
        ensures
            r@ == self@,
    {
        FieldSpec {
            rust_name: self.rust_name.clone(),
            attr: self.attr.clone(),
            kind: self.kind.clone(),
            cardinality_many: self.cardinality_many,
            profiles: match &self.profiles {
                Some(profiles) => Some(clone_texts(profiles)),
                None => None,
            },
            is_component: self.is_component,
        }
    }
}

/// One of the texts is `wanted`.
pub open spec fn lists(list: Seq<Seq<char>>, wanted: Seq<char>) -> bool {
    exists|i: int| 0 <= i < list.len() && #[trigger] list[i] == wanted
}

/// One of the texts is `wanted`.
pub open spec fn names(list: Seq<String>, wanted: Seq<char>) -> bool {
    lists(texts(list), wanted)
}

/// Whether one of the texts is `wanted`.
pub fn contains_text(list: &Vec<String>, wanted: &str) -> (found: bool)
    ensures
        found == names(list@, wanted@),
{
    let mut i: usize = 0;
    while i < list.len()
        invariant
            i <= list.len(),
            forall|k: int| 0 <= k < i ==> (#[trigger] texts(list@)[k]) != wanted@,
        decreases list.len() - i,
    {
        if same_text(list[i].as_str(), wanted) {
            assert(texts(list@)[i as int] == wanted@);
            return true;
        }
        assert(texts(list@)[i as int] == list@[i as int]@);
        i += 1;
    }
    false
}

/// The profile shows the field: the field names no profiles, or it names
/// this one.
pub open spec fn shows(field: FieldSpecView, profile: Seq<char>) -> bool {
    match field.profiles {
        None => true,
        Some(profiles) => lists(profiles, profile),
    }
}

/// The fields that the profile shows, in order; all of them where no
/// profile is given.
pub open spec fn shown(fields: Seq<FieldSpecView>, profile: Option<Seq<char>>) -> Seq<
    FieldSpecView,
>
    decreases fields.len(),
{
    if fields.len() == 0 {
        Seq::empty()
    } else if profile matches Some(p) && !shows(fields.last(), p) {
        shown(fields.drop_last(), profile)
    } else {
        shown(fields.drop_last(), profile).push(fields.last())
    }
}

/// What the references refer to, in order.
pub open spec fn targets(refs: Seq<&FieldSpec>) -> Seq<FieldSpec> {
    Seq::new(refs.len(), |i: int| *refs[i])
}

/// The view of an optional text.
pub open spec fn optional_text(text: Option<&str>) -> Option<Seq<char>> {
    match text {
        Some(t) => Some(t@),
        None => None,
    }
}

/// Selects the fields that the profile shows; all of them where no profile
/// is given.
pub fn fields_shown<'a>(fields: &'a Vec<FieldSpec>, profile: Option<&str>) -> (r: Vec<
    &'a FieldSpec,
>)
    ensures
        specs_view(targets(r@)) == shown(specs_view(fields@), optional_text(profile)),
{
    let ghost all = specs_view(fields@);
    let mut out: Vec<&'a FieldSpec> = Vec::new();
    let mut i: usize = 0;
    proof {
        assert(all.take(0) =~= Seq::empty());
        assert(specs_view(targets(out@)) =~= Seq::empty());
    }
    while i < fields.len()
        invariant
            i <= fields.len(),
            all == specs_view(fields@),
            specs_view(targets(out@)) == shown(all.take(i as int), optional_text(profile)),
        decreases fields.len() - i,
    {
        let field = &fields[i];
        let ghost before = specs_view(targets(out@));
        proof {
            assert(all.take(i + 1).drop_last() =~= all.take(i as int));
            assert(all.take(i + 1).last() == fields@[i as int]@);
        }
        let wanted = match profile {
            None => true,
            Some(p) => match &field.profiles {
                None => true,
                Some(profiles) => contains_text(profiles, p),
            },
        };
        if wanted {
            out.push(field);
            assert(specs_view(targets(out@)) =~= before.push(fields@[i as int]@));
        }
        i += 1;
    }
    assert(all.take(fields.len() as int) =~= all);
    out
}

/// A text without its hash signs.
pub open spec fn without_hash(s: Seq<char>) -> Seq<char>
    decreases s.len(),
{
    if s.len() == 0 {
        Seq::empty()
    } else if s.last() == '#' {
        without_hash(s.drop_last())
    } else {
        without_hash(s.drop_last()).push(s.last())
    }
}

/// Removes the hash signs from a text.
pub fn strip_hash(s: &str) -> (r: String)
    ensures
        r@ == without_hash(s@),
{
    let chars = chars_of(s);
    let mut kept: Vec<char> = Vec::new();
    let mut i: usize = 0;
    assert(chars@.take(0) =~= Seq::empty());
    while i < chars.len()
        invariant
            i <= chars.len(),
            kept@ == without_hash(chars@.take(i as int)),
        decreases chars.len() - i,
    {
        proof {
            assert(chars@.take(i + 1).drop_last() =~= chars@.take(i as int));
            assert(chars@.take(i + 1).last() == chars@[i as int]);
        }
        if chars[i] != '#' {
            kept.push(chars[i]);
        }
        i += 1;
    }
    assert(chars@.take(chars.len() as int) =~= chars@);
    text_of(&kept)
}

/// What a pull pattern names for a field: the attribute of a plain field,
/// without hash signs; the attribute of a reference or a back reference
/// only where the pattern goes deeper than the entity itself.
pub open spec fn pulled(field: FieldSpecView, depth: usize) -> Option<Seq<char>> {
    match field.kind {
        FieldKindView::Scalar => Some(without_hash(field.attr)),
        _ => if depth > 0 {
            Some(field.attr)
        } else {
            None
        },
    }
}

/// What a pull pattern names: the wildcard, then what it names for each
/// field, in order.
pub open spec fn pattern_attrs(fields: Seq<FieldSpecView>, depth: usize) -> Seq<Seq<char>>
    decreases fields.len(),
{
    if fields.len() == 0 {
        seq!["*"@]
    } else {
        match pulled(fields.last(), depth) {
            Some(attr) => pattern_attrs(fields.drop_last(), depth).push(attr),
            None => pattern_attrs(fields.drop_last(), depth),
        }
    }
}

/// The pull pattern for the fields: what it names, separated by blanks, in
/// square brackets.
pub open spec fn pattern(fields: Seq<FieldSpecView>, depth: usize) -> Seq<char> {
    "["@ + joined(pattern_attrs(fields, depth), " "@) + "]"@
}

/// Writes the pull pattern for the fields.
pub fn pattern_for(fields: &Vec<&FieldSpec>, depth: usize) -> (r: String)
    ensures
        r@ == pattern(specs_view(targets(fields@)), depth),
{
    let ghost source = specs_view(targets(fields@));
    let mut attrs: Vec<String> = Vec::new();
    attrs.push(String::from_str("*"));
    let mut i: usize = 0;
    proof {
        assert(source.take(0) =~= Seq::empty());
        assert(texts(attrs@) =~= seq!["*"@]);
    }
    while i < fields.len()
        invariant
            i <= fields.len(),
            source == specs_view(targets(fields@)),
            texts(attrs@) == pattern_attrs(source.take(i as int), depth),
        decreases fields.len() - i,
    {
        let field = fields[i];
        let ghost before = texts(attrs@);
        proof {
            assert(source.take(i + 1).drop_last() =~= source.take(i as int));
            assert(source.take(i + 1).last() == (*fields@[i as int])@);
        }
        match &field.kind {
            FieldKind::Scalar => {
                attrs.push(strip_hash(field.attr.as_str()));
                assert(texts(attrs@) =~= before.push(without_hash(field.attr@)));
            },
            _ => {
                if depth > 0 {
                    attrs.push(field.attr.clone());
                    assert(texts(attrs@) =~= before.push(field.attr@));
                }
            },
        }
        i += 1;
    }
    assert(source.take(fields.len() as int) =~= source);
    let mut out = String::from_str("[");
    out.append(join(&attrs, " ").as_str());
    out.append("]");
    out
}

/// What is written for a view: `...` where the view is among those that
/// are being written, else the pull pattern of the fields that the profile
/// shows.
pub open spec fn guarded(
    name: Seq<char>,
    fields: Seq<FieldSpecView>,
    depth: usize,
    profile: Option<Seq<char>>,
    visited: Seq<Seq<char>>,
) -> Seq<char> {
    if lists(visited, name) {
        "..."@
    } else {
        pattern(shown(fields, profile), depth)
    }
}

/// Writes the pull pattern of a view unless the view is being written
/// already: a view whose name is among `visited` is written as `...`.
/// While the pattern is written the name is among `visited`; afterwards
/// `visited` is as it was.
pub fn guarded_pattern(
    name: &str,
    fields: &Vec<FieldSpec>,
    depth: usize,
    profile: Option<&str>,
    visited: &mut Vec<String>,
) -> (r: String)
    ensures
        texts(final(visited)@) == texts(old(visited)@),
        r@ == guarded(
            name@,
            specs_view(fields@),
            depth,
            optional_text(profile),
            texts(old(visited)@),
        ),
{
    if contains_text(visited, name) {
        return String::from_str("...");
    }
    visited.push(String::from_str(name));
    let selected = fields_shown(fields, profile);
    let written = pattern_for(&selected, depth);
    visited.pop();
    assert(texts(visited@) =~= texts(old(visited)@));
    written
}

/// The description of a view of an entity type.
pub trait EntityViewSpec {
    /// The name of the view. A view that gives no model of itself is taken
    /// to have the empty name.
    open spec fn view_name() -> Seq<char> {
        Seq::empty()
    }

    /// What the view says of its fields. A view that gives no model of
    /// itself is taken to have none.
    open spec fn field_views() -> Seq<FieldSpecView> {
        Seq::empty()
    }

    /// The name of the view, by which a view that is being written is
    /// known.
    fn name() -> (r: String)
        ensures
            r@ == Self::view_name(),
    ;

    /// The namespace of the attributes of the entity type.
    fn ns() -> String;

    /// The fields of the view.
    fn fields() -> (r: Vec<FieldSpec>)
        ensures
            specs_view(r@) == Self::field_views(),
    ;

    /// The profiles of the view; none unless the view says otherwise.
    fn profiles() -> (r: Vec<String>)
        default_ensures
            r@ == Seq::<String>::empty(),
    {
        Vec::new()
    }

    /// The fields that a profile shows: those that name no profiles and
    /// those that name this one, in order.
    fn fields_for_profile(profile: &str) -> (r: Vec<FieldSpec>)
        ensures
            specs_view(r@) == shown(Self::field_views(), Some(profile@)),
    {
        let all = Self::fields();
        let selected = fields_shown(&all, Some(profile));
        let mut out: Vec<FieldSpec> = Vec::new();
        let mut i: usize = 0;
        while i < selected.len()
            invariant
                i <= selected.len(),
                out.len() == i,
                forall|k: int| 0 <= k < i ==> out[k]@ == (*selected[k])@,
            decreases selected.len() - i,
        {
            out.push(selected[i].clone());
            i += 1;
        }
        assert(specs_view(out@) =~= specs_view(targets(selected@)));
        out
    }

    /// The pull pattern of the view for the fields that the profile shows,
    /// all fields where no profile is given. With depth zero it names plain
    /// fields only, with a greater depth references and back references
    /// too.
    fn pull_pattern(depth: usize, profile: Option<&str>) -> (r: String)
        ensures
            r@ == pattern(shown(Self::field_views(), optional_text(profile)), depth),
    {
        let mut visited: Vec<String> = Vec::new();
        assert(texts(visited@) =~= Seq::empty());
        Self::pull_pattern_impl(depth, profile, &mut visited)
    }

    /// The pull pattern of the view, or `...` where the view is among
    /// those that are being written. `visited` is afterwards as it was.
    fn pull_pattern_impl(depth: usize, profile: Option<&str>, visited: &mut Vec<String>) -> (r:
        String)
        ensures
            texts(final(visited)@) == texts(old(visited)@),
            r@ == guarded(
                Self::view_name(),
                Self::field_views(),
                depth,
                optional_text(profile),
                texts(old(visited)@),
            ),
    {
        let name = Self::name();
        let all = Self::fields();
        guarded_pattern(name.as_str(), &all, depth, profile, visited)
    }
}

} // verus!
