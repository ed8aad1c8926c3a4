//! The field classifier: from the annotations and the declared type of a
//! field to the key that it answers to and the kind that it is of.

use crate::text::same_text;
use vstd::prelude::*;
use vstd::string::StringExecFns;

verus! {

/// What stands behind the name of an annotation.
#[derive(Debug)]
pub enum AttrValue {
    /// Nothing: the name stands alone.
    Bare,
    /// `=` and a string.
    Str(String),
    /// `=` and a literal that is no string.
    Other,
}

/// One annotation of a field: a name, and what stands behind it.
#[derive(Debug)]
pub struct Annotation {
    pub name: String,
    pub value: AttrValue,
}

/// One attribute of a field: its path, and the annotations in its brackets.
#[derive(Debug)]
pub struct Attribute {
    pub path: String,
    pub items: Vec<Annotation>,
}

/// What the annotations of one field say.
#[derive(Debug)]
pub struct FieldAttr {
    pub rename: Option<String>,
    pub help: Option<String>,
    pub ns: Option<String>,
    pub skip: bool,
}

/// Why the annotations of a field are refused.
#[derive(Clone, Copy, Debug, PartialEq, Eq, Structural)]
pub enum AttrError {
    RenameNotString,
    HelpNotString,
    NsNotString,
    UnknownAttribute,
    /// `rename` or `help` without `=` and a value.
    MissingValue,
    /// `skip` with `=` and a value.
    UnexpectedValue,
}

pub enum AttrValueView {
    Bare,
    Str(Seq<char>),
    Other,
}

pub struct AnnotationView {
    pub name: Seq<char>,
    pub value: AttrValueView,
}

pub struct AttributeView {
    pub path: Seq<char>,
    pub items: Seq<AnnotationView>,
}

pub struct FieldAttrView {
    pub rename: Option<Seq<char>>,
    pub help: Option<Seq<char>>,
    pub ns: Option<Seq<char>>,
    pub skip: bool,
}

impl View for AttrValue {
    type V = AttrValueView;

    open spec fn view(&self) -> AttrValueView {
        match self {
            AttrValue::Bare => AttrValueView::Bare,
            AttrValue::Str(s) => AttrValueView::Str(s@),
            AttrValue::Other => AttrValueView::Other,
        }
    }
}

impl View for Annotation {
    type V = AnnotationView;

    open spec fn view(&self) -> AnnotationView {
        AnnotationView { name: self.name@, value: self.value@ }
    }
}

impl View for Attribute {
    type V = AttributeView;

    open spec fn view(&self) -> AttributeView {
        AttributeView { path: self.path@, items: self.items@.map_values(|a: Annotation| a@) }
    }
}

/// The view of an optional text.
pub open spec fn text_of(s: Option<String>) -> Option<Seq<char>> {
    match s {
        Some(t) => Some(t@),
        None => None,
    }
}

impl View for FieldAttr {
    type V = FieldAttrView;

    open spec fn view(&self) -> FieldAttrView {
        FieldAttrView {
            rename: text_of(self.rename),
            help: text_of(self.help),
            ns: text_of(self.ns),
            skip: self.skip,
        }
    }
}

/// The views of a field's attributes, one by one.
pub open spec fn attribute_views(attrs: Seq<Attribute>) -> Seq<AttributeView> {
    attrs.map_values(|a: Attribute| a@)
}

/// What no annotation at all says.
pub open spec fn blank() -> FieldAttrView {
    FieldAttrView { rename: None, help: None, ns: None, skip: false }
}

/// What is known of a field once the annotation `a` is read, where `acc`
/// was known before it. `rename` and `help` take a string; `ns` takes a
/// string, or alone stands for the field's own name; `skip` stands alone.
/// A later annotation overrides an earlier one of the same name.
pub open spec fn noted(acc: FieldAttrView, a: AnnotationView, field_name: Seq<char>) -> Result<
    FieldAttrView,
    AttrError,
> {
    if a.name == "rename"@ {
        match a.value {
            AttrValueView::Str(s) => Ok(FieldAttrView { rename: Some(s), ..acc }),
            AttrValueView::Other => Err(AttrError::RenameNotString),
            AttrValueView::Bare => Err(AttrError::MissingValue),
        }
    } else if a.name == "help"@ {
        match a.value {
            AttrValueView::Str(s) => Ok(FieldAttrView { help: Some(s), ..acc }),
            AttrValueView::Other => Err(AttrError::HelpNotString),
            AttrValueView::Bare => Err(AttrError::MissingValue),
        }
    } else if a.name == "ns"@ {
        match a.value {
            AttrValueView::Str(s) => Ok(FieldAttrView { ns: Some(s), ..acc }),
            AttrValueView::Other => Err(AttrError::NsNotString),
            AttrValueView::Bare => Ok(FieldAttrView { ns: Some(field_name), ..acc }),
        }
    } else if a.name == "skip"@ {
        match a.value {
            AttrValueView::Bare => Ok(FieldAttrView { skip: true, ..acc }),
            _ => Err(AttrError::UnexpectedValue),
        }
    } else {
        Err(AttrError::UnknownAttribute)
    }
}

/// What is known once the annotations of `items` from `from` on are read
/// in order; the first one that is refused ends the reading.
pub open spec fn noted_from(
    acc: FieldAttrView,
    items: Seq<AnnotationView>,
    from: int,
    field_name: Seq<char>,
) -> Result<FieldAttrView, AttrError>
    decreases items.len() - from,
{
    if from < 0 || from >= items.len() {
        Ok(acc)
    } else {
        match noted(acc, items[from], field_name) {
            Ok(next) => noted_from(next, items, from + 1, field_name),
            Err(e) => Err(e),
        }
    }
}

/// What is known once the attributes from `from` on are read in order.
/// Only an attribute under the path `clikey` is read at all.
pub open spec fn attrs_from(
    acc: FieldAttrView,
    attrs: Seq<AttributeView>,
    from: int,
    field_name: Seq<char>,
) -> Result<FieldAttrView, AttrError>
    decreases attrs.len() - from,
{
    if from < 0 || from >= attrs.len() {
        Ok(acc)
    } else if attrs[from].path != "clikey"@ {
        attrs_from(acc, attrs, from + 1, field_name)
    } else {
        match noted_from(acc, attrs[from].items, 0, field_name) {
            Ok(next) => attrs_from(next, attrs, from + 1, field_name),
            Err(e) => Err(e),
        }
    }
}

/// What the attributes of the field `field_name` say.
pub open spec fn field_attr(attrs: Seq<AttributeView>, field_name: Seq<char>) -> Result<
    FieldAttrView,
    AttrError,
> {
    attrs_from(blank(), attrs, 0, field_name)
}

impl AttrError {
    /// The words that the refusal is reported with.
    pub fn message(&self) -> (text: &'static str)
        ensures
            text@ == match *self {
                AttrError::RenameNotString => "rename must be string"@,
                AttrError::HelpNotString => "help must be string"@,
                AttrError::NsNotString => "ns must be string"@,
                AttrError::UnknownAttribute => "unknown attribute"@,
                AttrError::MissingValue => "expected `=`"@,
                AttrError::UnexpectedValue => "expected `,`"@,
            },
    {
        match self {
            AttrError::RenameNotString => "rename must be string",
            AttrError::HelpNotString => "help must be string",
            AttrError::NsNotString => "ns must be string",
            AttrError::UnknownAttribute => "unknown attribute",
            AttrError::MissingValue => "expected `=`",
            AttrError::UnexpectedValue => "expected `,`",
        }
    }
}

/// Reads one annotation into `acc`.
fn note(acc: FieldAttr, a: &Annotation, field_name: &str) -> (r: Result<FieldAttr, AttrError>)
    ensures
        match r {
            Ok(next) => noted(acc@, a@, field_name@) == Ok::<FieldAttrView, AttrError>(next@),
            Err(e) => noted(acc@, a@, field_name@) == Err::<FieldAttrView, AttrError>(e),
        },
{
    let name = a.name.as_str();
    if same_text(name, "rename") {
        match &a.value {
            AttrValue::Str(s) => Ok(
                FieldAttr { rename: Some(s.clone()), help: acc.help, ns: acc.ns, skip: acc.skip },
            ),
            AttrValue::Other => Err(AttrError::RenameNotString),
            AttrValue::Bare => Err(AttrError::MissingValue),
        }
    } else if same_text(name, "help") {
        match &a.value {
            AttrValue::Str(s) => Ok(
                FieldAttr { rename: acc.rename, help: Some(s.clone()), ns: acc.ns, skip: acc.skip },
            ),
            AttrValue::Other => Err(AttrError::HelpNotString),
            AttrValue::Bare => Err(AttrError::MissingValue),
        }
    } else if same_text(name, "ns") {
        match &a.value {
            AttrValue::Str(s) => Ok(
                FieldAttr { rename: acc.rename, help: acc.help, ns: Some(s.clone()), skip: acc.skip },
            ),
            AttrValue::Other => Err(AttrError::NsNotString),
            AttrValue::Bare => Ok(
                FieldAttr {
                    rename: acc.rename,
                    help: acc.help,
                    ns: Some(String::from_str(field_name)),
                    skip: acc.skip,
                },
            ),
        }
    } else if same_text(name, "skip") {
        match &a.value {
            AttrValue::Bare => Ok(
                FieldAttr { rename: acc.rename, help: acc.help, ns: acc.ns, skip: true },
            ),
            _ => Err(AttrError::UnexpectedValue),
        }
    } else {
        Err(AttrError::UnknownAttribute)
    }
}

/// Reads the annotations of a field: those of every attribute under the
/// path `clikey`, in order. The first annotation that is refused ends the
/// reading with its error.
pub fn parse_attrs(attrs: &Vec<Attribute>, field_name: &str) -> (r: Result<FieldAttr, AttrError>)
    ensures
        match r {
            Ok(out) => field_attr(attribute_views(attrs@), field_name@) == Ok::<
                FieldAttrView,
                AttrError,
            >(out@),
            Err(e) => field_attr(attribute_views(attrs@), field_name@) == Err::<
                FieldAttrView,
                AttrError,
            >(e),
        },
{
    let mut out = FieldAttr { rename: None, help: None, ns: None, skip: false };
    let ghost views = attribute_views(attrs@);
    let mut i: usize = 0;
    while i < attrs.len()
        invariant
            i <= attrs.len(),
            views == attribute_views(attrs@),
            attrs_from(out@, views, i as int, field_name@) == field_attr(views, field_name@),
        decreases attrs.len() - i,
    {
        let attr = &attrs[i];
        assert(views[i as int] == attr@);
        if same_text(attr.path.as_str(), "clikey") {
            let ghost before = out@;
            let mut j: usize = 0;
            while j < attr.items.len()
                invariant
                    j <= attr.items.len(),
                    0 <= i < views.len(),
                    views == attribute_views(attrs@),
                    views[i as int] == attr@,
                    attr@.path == "clikey"@,
                    attrs_from(before, views, i as int, field_name@) == field_attr(
                        views,
                        field_name@,
                    ),
                    noted_from(out@, attr@.items, j as int, field_name@) == noted_from(
                        before,
                        attr@.items,
                        0,
                        field_name@,
                    ),
                decreases attr.items.len() - j,
            {
                assert(attr@.items[j as int] == attr.items@[j as int]@);
                match note(out, &attr.items[j], field_name) {
                    Ok(next) => {
                        out = next;
                    },
                    Err(e) => {
                        return Err(e);
                    },
                }
                j += 1;
            }
        }
        i += 1;
    }
    Ok(out)
}

/// The declared type of a field.
#[derive(Debug)]
pub enum TypeDecl {
    /// A path, as its segments: `std::string::String` has three.
    Path(Vec<String>),
    /// Any type that is no path.
    Other,
}

pub enum TypeDeclView {
    Path(Seq<Seq<char>>),
    Other,
}

impl View for TypeDecl {
    type V = TypeDeclView;

    open spec fn view(&self) -> TypeDeclView {
        match self {
            TypeDecl::Path(segments) => TypeDeclView::Path(segments@.map_values(|s: String| s@)),
            TypeDecl::Other => TypeDeclView::Other,
        }
    }
}

/// Whether `name` names one of the registry's primitive types.
pub open spec fn is_leaf_name(name: Seq<char>) -> bool {
    name == "bool"@ || name == "usize"@ || name == "u32"@ || name == "u64"@ || name == "i32"@
        || name == "i64"@ || name == "f32"@ || name == "f64"@ || name == "String"@
}

/// The tag of the leaf type that `ty` declares: the last segment of a path
/// that names a primitive type. Every other type declares a namespace.
pub open spec fn leaf_tag(ty: TypeDeclView) -> Option<Seq<char>> {
    match ty {
        TypeDeclView::Path(segments) => if segments.len() > 0 && is_leaf_name(segments.last()) {
            Some(segments.last())
        } else {
            None
        },
        TypeDeclView::Other => None,
    }
}

/// The tag of the leaf type that `ty` declares, or `None` where it declares
/// a namespace.
pub fn is_leaf_type(ty: &TypeDecl) -> (tag: Option<&'static str>)
    ensures
        match tag {
            Some(t) => leaf_tag(ty@) == Some(t@),
            None => leaf_tag(ty@) is None,
        },
{
    match ty {
        TypeDecl::Path(segments) => {
            if segments.len() == 0 {
                return None;
            }
            let last = segments[segments.len() - 1].as_str();
            assert(ty@->Path_0.last() == last@);
            if same_text(last, "bool") {
                Some("bool")
            } else if same_text(last, "usize") {
                Some("usize")
            } else if same_text(last, "u32") {
                Some("u32")
            } else if same_text(last, "u64") {
                Some("u64")
            } else if same_text(last, "i32") {
                Some("i32")
            } else if same_text(last, "i64") {
                Some("i64")
            } else if same_text(last, "f32") {
                Some("f32")
            } else if same_text(last, "f64") {
                Some("f64")
            } else if same_text(last, "String") {
                Some("String")
            } else {
                None
            }
        },
        TypeDecl::Other => None,
    }
}

/// A field as it is declared: its name, its type and its attributes.
#[derive(Debug)]
pub struct FieldDecl {
    pub name: String,
    pub ty: TypeDecl,
    pub attrs: Vec<Attribute>,
}

/// The kind of a field.
#[derive(Debug)]
pub enum FieldKind {
    /// A primitive value, of the type that the tag names.
    Leaf(String),
    /// A configuration of its own.
    Namespace,
}

/// What the classifier makes of one declared field.
#[derive(Debug)]
pub struct FieldSpec {
    /// The key of a leaf, or the prefix of a namespace.
    pub local_key: String,
    pub kind: FieldKind,
    pub help: String,
    pub skip: bool,
}

pub enum FieldKindView {
    Leaf(Seq<char>),
    Namespace,
}

pub struct FieldSpecView {
    pub local_key: Seq<char>,
    pub kind: FieldKindView,
    pub help: Seq<char>,
    pub skip: bool,
}

impl View for FieldKind {
    type V = FieldKindView;

    open spec fn view(&self) -> FieldKindView {
        match self {
            FieldKind::Leaf(tag) => FieldKindView::Leaf(tag@),
            FieldKind::Namespace => FieldKindView::Namespace,
        }
    }
}

impl View for FieldSpec {
    type V = FieldSpecView;

    open spec fn view(&self) -> FieldSpecView {
        FieldSpecView {
            local_key: self.local_key@,
            kind: self.kind@,
            help: self.help@,
            skip: self.skip,
        }
    }
}

/// `s`, or `otherwise` where there is none.
pub open spec fn or_else(s: Option<Seq<char>>, otherwise: Seq<char>) -> Seq<char> {
    match s {
        Some(t) => t,
        None => otherwise,
    }
}

/// The kind that the type `ty` gives a field.
pub open spec fn kind_for(ty: TypeDeclView) -> FieldKindView {
    match leaf_tag(ty) {
        Some(tag) => FieldKindView::Leaf(tag),
        None => FieldKindView::Namespace,
    }
}

/// What a field with the name `name`, the type `ty` and the annotations
/// `attr` is classified as. A skipped field keeps its name and has no help:
/// `skip` takes the effect of every other annotation away. A leaf answers
/// to its `rename`, or else to its name. A namespace answers to its `ns`,
/// or else to what a leaf would answer to.
pub open spec fn classified(name: Seq<char>, ty: TypeDeclView, attr: FieldAttrView)
    -> FieldSpecView {
    if attr.skip {
        FieldSpecView { local_key: name, kind: kind_for(ty), help: Seq::empty(), skip: true }
    } else {
        let field_key = or_else(attr.rename, name);
        FieldSpecView {
            local_key: match leaf_tag(ty) {
                Some(tag) => field_key,
                None => or_else(attr.ns, field_key),
            },
            kind: kind_for(ty),
            help: or_else(attr.help, Seq::empty()),
            skip: false,
        }
    }
}

/// `s`, or `otherwise` where there is none.
fn text_or(s: Option<String>, otherwise: &str) -> (text: String)
    ensures
        text@ == or_else(text_of(s), otherwise@),
{
    match s {
        Some(t) => t,
        None => String::from_str(otherwise),
    }
}

/// Classifies a declared field: reads its annotations, and decides by its
/// type whether it is a leaf or a namespace. Annotations that are refused
/// are the only error.
pub fn classify(decl: &FieldDecl) -> (r: Result<FieldSpec, AttrError>)
    ensures
        match r {
            Ok(spec) => match field_attr(attribute_views(decl.attrs@), decl.name@) {
                Ok(attr) => spec@ == classified(decl.name@, decl.ty@, attr),
                Err(_) => false,
            },
            Err(e) => field_attr(attribute_views(decl.attrs@), decl.name@) == Err::<
                FieldAttrView,
                AttrError,
            >(e),
        },
{
    let name = decl.name.as_str();
    let attr = match parse_attrs(&decl.attrs, name) {
        Ok(attr) => attr,
        Err(e) => {
            return Err(e);
        },
    };
    let tag = is_leaf_type(&decl.ty);
    if attr.skip {
        let kind = match tag {
            Some(t) => FieldKind::Leaf(String::from_str(t)),
            None => FieldKind::Namespace,
        };
        return Ok(
            FieldSpec { local_key: String::from_str(name), kind, help: String::new(), skip: true },
        );
    }
    let field_key = text_or(attr.rename, name);
    let help = text_or(attr.help, "");
    proof {
        reveal_strlit("");
        assert(""@ =~= Seq::<char>::empty());
    }
    match tag {
        Some(t) => Ok(
            FieldSpec {
                local_key: field_key,
                kind: FieldKind::Leaf(String::from_str(t)),
                help,
                skip: false,
            },
        ),
        None => {
            let ns = text_or(attr.ns, field_key.as_str());
            Ok(FieldSpec { local_key: ns, kind: FieldKind::Namespace, help, skip: false })
        },
    }
}

} // verus!
