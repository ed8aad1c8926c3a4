//! A configuration as a tree of fields: leaves that hold a value, and
//! namespaces that hold a configuration of their own.

use crate::error::{NsError, NsErrorView};
use crate::field::{FieldKind, FieldKindView, FieldSpec, FieldSpecView};
use crate::help::{format_options_help, help_text};
use crate::meta::{meta_views, prefix_meta, prefixed_all, OptionMeta, OptionMetaView};
use crate::text::{after_prefix, has_prefix, same_text, strip_prefix};
use crate::value::{kind_of, leaf_read, leaf_text, type_tag, LeafValue, LeafView};
use vstd::prelude::*;
use vstd::string::StringExecFns;

verus! {

/// What a field holds.
#[derive(Debug)]
pub enum Slot {
    /// A primitive value, with the value that it started as.
    Leaf { value: LeafValue, default: LeafValue },
    /// A configuration, addressed through this field's key and a dot.
    Nested(Config),
}

/// One declared field of a configuration.
#[derive(Debug)]
pub struct Field {
    /// The key of a leaf, or the prefix of a namespace.
    pub key: String,
    /// Description, empty where none was given.
    pub help: String,
    /// A skipped field takes no override and is not listed.
    pub skip: bool,
    pub slot: Slot,
}

/// A configuration: its fields in the order of their declaration.
#[derive(Debug)]
pub struct Config {
    pub fields: Vec<Field>,
}

/// A `Slot` as plain values.
pub enum SlotView {
    Leaf { value: LeafView, default: LeafView },
    Nested(ConfigView),
}

/// A `Field` as plain values.
pub struct FieldView {
    pub key: Seq<char>,
    pub help: Seq<char>,
    pub skip: bool,
    pub slot: SlotView,
}

/// A `Config` as plain values.
pub struct ConfigView {
    pub fields: Seq<FieldView>,
}

impl View for Slot {
    type V = SlotView;

    open spec fn view(&self) -> SlotView
        decreases self,
    {
        match self {
            Slot::Leaf { value, default } => SlotView::Leaf { value: value@, default: default@ },
            Slot::Nested(c) => SlotView::Nested(c@),
        }
    }
}

impl View for Field {
    type V = FieldView;

    open spec fn view(&self) -> FieldView
        decreases self,
    {
        FieldView { key: self.key@, help: self.help@, skip: self.skip, slot: self.slot@ }
    }
}

impl View for Config {
    type V = ConfigView;

    open spec fn view(&self) -> ConfigView
        decreases self,
    {
        ConfigView {
            fields: Seq::new(
                self.fields.len() as nat,
                |i: int|
                    if 0 <= i < self.fields.len() {
                        self.fields[i]@
                    } else {
                        arbitrary()
                    },
            ),
        }
    }
}

/// `c` with the field at `at` replaced by `f`.
pub open spec fn with_field(c: ConfigView, at: int, f: FieldView) -> ConfigView {
    ConfigView { fields: c.fields.update(at, f) }
}

/// `f` holding `slot`.
pub open spec fn with_slot(f: FieldView, slot: SlotView) -> FieldView {
    FieldView { key: f.key, help: f.help, skip: f.skip, slot }
}

/// Whether `key` addresses the namespace `ns`: it begins with `ns` and a
/// dot. The prefix `ns` may hold dots of its own.
pub open spec fn enters(key: Seq<char>, ns: Seq<char>) -> bool {
    has_prefix(key, ns + seq!['.'])
}

/// What follows `ns` and a dot in a `key` that enters `ns`; all of a `key`
/// that does not.
pub open spec fn remainder(key: Seq<char>, ns: Seq<char>) -> Seq<char> {
    match after_prefix(key, ns + seq!['.']) {
        Some(rest) => rest,
        None => key,
    }
}

/// Whether the field `f` answers to `key`. A skipped field never answers;
/// a leaf answers to its own key; a namespace answers to a key that
/// enters it.
pub open spec fn answers(f: FieldView, key: Seq<char>) -> bool {
    !f.skip && match f.slot {
        SlotView::Leaf { value, default } => key == f.key,
        SlotView::Nested(child) => enters(key, f.key),
    }
}

/// What the override `key` = `value` makes of a field that answers to
/// `key`. A leaf takes the value that `value` is read as for its type, or
/// refuses with the reader's message. A namespace hands what follows the
/// dot to its own configuration. `full` is the key as the caller of the
/// root gave it, which an error carries.
pub open spec fn offered(f: FieldView, full: Seq<char>, key: Seq<char>, value: Seq<char>) -> Result<
    FieldView,
    NsErrorView,
>
    decreases f, 0nat,
{
    match f.slot {
        SlotView::Leaf { value: current, default } => match leaf_read(kind_of(default), value) {
            Ok(v) => Ok(with_slot(f, SlotView::Leaf { value: v, default })),
            Err(msg) => Err(NsErrorView::ParseError { key: full, value, msg }),
        },
        SlotView::Nested(child) => match resolve_from(
            child,
            0,
            full,
            remainder(key, f.key),
            value,
        ) {
            Ok(after) => Ok(with_slot(f, SlotView::Nested(after))),
            Err(e) => Err(e),
        },
    }
}

/// The outcome of the override `key` = `value` on `c`, where the fields
/// before `from` did not answer: the configuration after it, or the error.
/// The fields are tried in the order of their declaration, and the first
/// one that answers decides; where none does, the key is unknown.
pub open spec fn resolve_from(
    c: ConfigView,
    from: int,
    full: Seq<char>,
    key: Seq<char>,
    value: Seq<char>,
) -> Result<ConfigView, NsErrorView>
    decreases c, c.fields.len() - from,
{
    if from < 0 || from >= c.fields.len() {
        Err(NsErrorView::UnknownKey(full))
    } else if answers(c.fields[from], key) {
        match offered(c.fields[from], full, key, value) {
            Ok(f) => Ok(with_field(c, from, f)),
            Err(e) => Err(e),
        }
    } else {
        resolve_from(c, from + 1, full, key, value)
    }
}

/// The outcome of the override `key` = `value` on the root `c`.
pub open spec fn resolve(c: ConfigView, key: Seq<char>, value: Seq<char>) -> Result<
    ConfigView,
    NsErrorView,
> {
    resolve_from(c, 0, key, key, value)
}

/// The entries that the field `f` is listed with: none where it is
/// skipped; one for a leaf, under its key, with the text of its default;
/// for a namespace those of its configuration, each key behind the
/// namespace's prefix and a dot.
pub open spec fn field_listing(f: FieldView) -> Seq<OptionMetaView>
    decreases f, 0nat,
{
    if f.skip {
        Seq::empty()
    } else {
        match f.slot {
            SlotView::Leaf { value, default } => seq![
                OptionMetaView {
                    key: f.key,
                    ty: type_tag(kind_of(default)),
                    help: f.help,
                    default: leaf_text(default),
                },
            ],
            SlotView::Nested(child) => prefixed_all(f.key, listing_from(child, 0)),
        }
    }
}

/// The entries of the fields of `c` from `from` on, in the order of their
/// declaration.
pub open spec fn listing_from(c: ConfigView, from: int) -> Seq<OptionMetaView>
    decreases c, c.fields.len() - from,
{
    if from < 0 || from >= c.fields.len() {
        Seq::empty()
    } else {
        field_listing(c.fields[from]) + listing_from(c, from + 1)
    }
}

/// Every overridable key of `c`, in the order of declaration.
pub open spec fn listing(c: ConfigView) -> Seq<OptionMetaView> {
    listing_from(c, 0)
}

/// Whether every leaf of the field holds a value of the type of its
/// default.
pub open spec fn field_well_typed(f: FieldView) -> bool
    decreases f, 0nat,
{
    match f.slot {
        SlotView::Leaf { value, default } => kind_of(value) == kind_of(default),
        SlotView::Nested(child) => well_typed_from(child, 0),
    }
}

/// Whether every leaf from the field `from` on holds a value of the type
/// of its default.
pub open spec fn well_typed_from(c: ConfigView, from: int) -> bool
    decreases c, c.fields.len() - from,
{
    if from < 0 || from >= c.fields.len() {
        true
    } else {
        field_well_typed(c.fields[from]) && well_typed_from(c, from + 1)
    }
}

/// Whether every leaf of the configuration holds a value of the type of
/// its default.
pub open spec fn well_typed(c: ConfigView) -> bool {
    well_typed_from(c, 0)
}

/// The value of the leaf that answers to `key`, among the fields from
/// `from` on: found as an override finds it.
pub open spec fn found_from(c: ConfigView, from: int, key: Seq<char>) -> Option<LeafView>
    decreases c, c.fields.len() - from,
{
    if from < 0 || from >= c.fields.len() {
        None
    } else if answers(c.fields[from], key) {
        match c.fields[from].slot {
            SlotView::Leaf { value, default } => Some(value),
            SlotView::Nested(child) => found_from(
                child,
                0,
                remainder(key, c.fields[from].key),
            ),
        }
    } else {
        found_from(c, from + 1, key)
    }
}

/// The value of the leaf that answers to `key`.
pub open spec fn found(c: ConfigView, key: Seq<char>) -> Option<LeafView> {
    found_from(c, 0, key)
}

/// Whether the content `slot` is of the kind that the classifier's `spec`
/// names: a leaf whose default is of the type that the tag names, or a
/// namespace.
pub open spec fn fits(spec: FieldSpecView, slot: SlotView) -> bool {
    match (spec.kind, slot) {
        (FieldKindView::Leaf(tag), SlotView::Leaf { value, default }) => tag == type_tag(
            kind_of(default),
        ),
        (FieldKindView::Namespace, SlotView::Nested(child)) => true,
        _ => false,
    }
}

/// The capability of a configuration: it takes overrides by key, and lists
/// the keys that it takes.
pub trait CliKeys: Sized {
    /// This configuration as a tree of fields.
    spec fn model(&self) -> ConfigView;

    /// Every overridable key, in the order of declaration, with the default
    /// of each.
    fn options_meta(&self) -> (metas: Vec<OptionMeta>)
        ensures
            meta_views(metas@) == listing(self.model()),
    ;

    /// The help text of every overridable key, by group.
    fn options_help(&self) -> (text: String)
        ensures
            text@ == help_text(listing(self.model())),
    {
        let metas = self.options_meta();
        format_options_help(metas.as_slice())
    }

    /// Applies the override `key` = `value`: the first field that answers
    /// to `key` takes it. On an error the configuration stays as it was.
    fn apply_kv(&mut self, key: &str, value: &str) -> (r: Result<(), NsError>)
        ensures
            match r {
                Ok(_) => resolve(old(self).model(), key@, value@) == Ok::<ConfigView, NsErrorView>(
                    final(self).model(),
                ),
                Err(e) => resolve(old(self).model(), key@, value@) == Err::<
                    ConfigView,
                    NsErrorView,
                >(e@) && final(self).model() == old(self).model(),
            },
    ;
}

/// What follows `ns` and a dot in `key`, or `None` where `key` does not
/// begin with them.
fn behind<'a>(key: &'a str, ns: &str) -> (rest: Option<&'a str>)
    ensures
        match rest {
            Some(r) => enters(key@, ns@) && r@ == remainder(key@, ns@),
            None => !enters(key@, ns@),
        },
{
    let mut prefix = String::from_str(ns);
    proof {
        reveal_strlit(".");
        assert("."@ =~= seq!['.']);
    }
    prefix.append(".");
    strip_prefix(key, prefix.as_str())
}

impl Field {
    /// A leaf under `key`, which holds `default` until an override.
    pub fn leaf(key: &str, help: &str, default: LeafValue) -> (field: Field)
        ensures
            field@ == (FieldView {
                key: key@,
                help: help@,
                skip: false,
                slot: SlotView::Leaf { value: default@, default: default@ },
            }),
            field_well_typed(field@),
    {
        Field {
            key: String::from_str(key),
            help: String::from_str(help),
            skip: false,
            slot: Slot::Leaf { value: default.clone(), default },
        }
    }

    /// A namespace: `child`, addressed through `key` and a dot.
    pub fn namespace(key: &str, child: Config) -> (field: Field)
        ensures
            field@ == (FieldView {
                key: key@,
                help: Seq::empty(),
                skip: false,
                slot: SlotView::Nested(child@),
            }),
    {
        Field {
            key: String::from_str(key),
            help: String::new(),
            skip: false,
            slot: Slot::Nested(child),
        }
    }

    /// The field that the classifier's `spec` and the content `slot` make:
    /// under the key, with the help and skipped as `spec` says. There is
    /// none where `slot` is not of the kind that `spec` names: a leaf of
    /// another type than the tag names, a leaf for a namespace or a
    /// namespace for a leaf. No slot holds a floating-point number, so a
    /// leaf whose tag names one is never registered: such a leaf lives
    /// beside the configuration.
    pub fn register(spec: &FieldSpec, slot: Slot) -> (field: Option<Field>)
        ensures
            match field {
                Some(f) => fits(spec@, slot@) && f@ == (FieldView {
                    key: spec@.local_key,
                    help: spec@.help,
                    skip: spec@.skip,
                    slot: slot@,
                }),
                None => !fits(spec@, slot@),
            },
    {
        let fitting = match (&spec.kind, &slot) {
            (FieldKind::Leaf(tag), Slot::Leaf { value, default }) => same_text(
                tag.as_str(),
                default.kind().name(),
            ),
            (FieldKind::Namespace, Slot::Nested(child)) => true,
            _ => false,
        };
        if fitting {
            Some(
                Field {
                    key: spec.local_key.clone(),
                    help: spec.help.clone(),
                    skip: spec.skip,
                    slot,
                },
            )
        } else {
            None
        }
    }

    /// This field as a skipped one: it takes no override and is not
    /// listed.
    pub fn skipped(self) -> (field: Field)
        ensures
            field@ == (FieldView {
                key: self@.key,
                help: self@.help,
                skip: true,
                slot: self@.slot,
            }),
    {
        Field { key: self.key, help: self.help, skip: true, slot: self.slot }
    }

    /// The value of the leaf that answers to `key`, which this field
    /// answers to.
    fn value_at(&self, key: &str) -> (value: Option<LeafValue>)
        ensures
            match value {
                Some(v) => Some(v@) == self.found_in(key@),
                None => self.found_in(key@) is None,
            },
        decreases self, 0nat,
    {
        match &self.slot {
            Slot::Leaf { value, default } => Some(value.clone()),
            Slot::Nested(child) => {
                let rest = match behind(key, self.key.as_str()) {
                    Some(rest) => rest,
                    None => key,
                };
                child.value_from(rest)
            },
        }
    }

    /// The value that `key` finds in this field, which answers to it.
    pub open spec fn found_in(&self, key: Seq<char>) -> Option<LeafView> {
        match self@.slot {
            SlotView::Leaf { value, default } => Some(value),
            SlotView::Nested(child) => found_from(child, 0, remainder(key, self@.key)),
        }
    }

    /// The entries that this field is listed with.
    fn entries(&self) -> (metas: Vec<OptionMeta>)
        ensures
            meta_views(metas@) == field_listing(self@),
        decreases self, 0nat,
    {
        if self.skip {
            let metas: Vec<OptionMeta> = Vec::new();
            assert(meta_views(metas@) =~= field_listing(self@));
            return metas;
        }
        match &self.slot {
            Slot::Leaf { value, default } => {
                let mut metas: Vec<OptionMeta> = Vec::new();
                metas.push(
                    OptionMeta::with_default(
                        self.key.as_str(),
                        default.kind().name(),
                        self.help.as_str(),
                        default.to_text(),
                    ),
                );
                assert(meta_views(metas@) =~= field_listing(self@));
                metas
            },
            Slot::Nested(child) => prefix_meta(self.key.as_str(), child.entries_of()),
        }
    }

    /// Whether this field answers to `key`.
    pub fn answers_to(&self, key: &str) -> (yes: bool)
        ensures
            yes == answers(self@, key@),
    {
        if self.skip {
            return false;
        }
        match &self.slot {
            Slot::Leaf { value, default } => same_text(key, self.key.as_str()),
            Slot::Nested(child) => behind(key, self.key.as_str()).is_some(),
        }
    }

    /// Applies the override `key` = `value` to this field, which answers to
    /// `key`. On an error the field stays as it was.
    fn take(&mut self, full: &str, key: &str, value: &str) -> (r: Result<(), NsError>)
        ensures
            match r {
                Ok(_) => offered(old(self)@, full@, key@, value@) == Ok::<FieldView, NsErrorView>(
                    final(self)@,
                ),
                Err(e) => offered(old(self)@, full@, key@, value@) == Err::<
                    FieldView,
                    NsErrorView,
                >(e@) && final(self)@ == old(self)@,
            },
        decreases *old(self), 0nat,
    {
        let rest = match behind(key, self.key.as_str()) {
            Some(rest) => rest,
            None => key,
        };
        match &mut self.slot {
            Slot::Leaf { value: current, default } => match default.kind().read(value) {
                Ok(v) => {
                    *current = v;
                    Ok(())
                },
                Err(msg) => Err(
                    NsError::ParseError {
                        key: String::from_str(full),
                        value: String::from_str(value),
                        msg,
                    },
                ),
            },
            Slot::Nested(child) => child.apply_from(full, rest, value),
        }
    }
}

impl Config {
    /// A configuration of these fields, in this order.
    pub fn new(fields: Vec<Field>) -> (cfg: Config)
        ensures
            cfg.fields == fields,
    {
        Config { fields }
    }

    /// The value of the leaf that answers to `key`.
    fn value_from(&self, key: &str) -> (value: Option<LeafValue>)
        ensures
            match value {
                Some(v) => Some(v@) == found(self@, key@),
                None => found(self@, key@) is None,
            },
        decreases self, 1nat,
    {
        let n = self.fields.len();
        let mut i: usize = 0;
        while i < n
            invariant
                i <= n,
                n == self.fields.len(),
                found_from(self@, i as int, key@) == found(self@, key@),
            decreases n - i,
        {
            if self.fields[i].answers_to(key) {
                return self.fields[i].value_at(key);
            }
            i += 1;
        }
        None
    }

    /// The value that the leaf under `key` holds, found as an override
    /// finds the leaf; `None` where no leaf answers to `key`.
    pub fn value_of(&self, key: &str) -> (value: Option<LeafValue>)
        ensures
            match value {
                Some(v) => Some(v@) == found(self@, key@),
                None => found(self@, key@) is None,
            },
    {
        self.value_from(key)
    }

    /// Every overridable key of this configuration.
    fn entries_of(&self) -> (metas: Vec<OptionMeta>)
        ensures
            meta_views(metas@) == listing(self@),
        decreases self, 1nat,
    {
        let mut metas: Vec<OptionMeta> = Vec::new();
        let n = self.fields.len();
        let mut i: usize = n;
        assert(meta_views(metas@) =~= listing_from(self@, n as int));
        while i > 0
            invariant
                i <= n,
                n == self.fields.len(),
                meta_views(metas@) == listing_from(self@, i as int),
            decreases i,
        {
            i -= 1;
            let mut head = self.fields[i].entries();
            let ghost head_views = meta_views(head@);
            let ghost tail_views = meta_views(metas@);
            head.append(&mut metas);
            assert(meta_views(head@) =~= head_views + tail_views);
            metas = head;
        }
        metas
    }

    /// Applies the override `key` = `value`, where `full` is the key as the
    /// caller of the root gave it. On an error the configuration stays as
    /// it was.
    fn apply_from(&mut self, full: &str, key: &str, value: &str) -> (r: Result<(), NsError>)
        ensures
            match r {
                Ok(_) => resolve_from(old(self)@, 0, full@, key@, value@) == Ok::<
                    ConfigView,
                    NsErrorView,
                >(final(self)@),
                Err(e) => resolve_from(old(self)@, 0, full@, key@, value@) == Err::<
                    ConfigView,
                    NsErrorView,
                >(e@) && final(self)@ == old(self)@,
            },
        decreases *old(self), 1nat,
    {
        let n = self.fields.len();
        let mut i: usize = 0;
        while i < n
            invariant
                i <= n,
                n == self.fields.len(),
                *self == *old(self),
                resolve_from(self@, i as int, full@, key@, value@) == resolve_from(
                    old(self)@,
                    0,
                    full@,
                    key@,
                    value@,
                ),
            decreases n - i,
        {
            if self.fields[i].answers_to(key) {
                let ghost before = self@;
                let r = self.fields[i].take(full, key, value);
                proof {
                    assert(self@.fields =~= before.fields.update(i as int, self.fields[i as int]@));
                    if r is Err {
                        assert(self@.fields =~= before.fields);
                    }
                }
                return r;
            }
            i += 1;
        }
        Err(NsError::UnknownKey(String::from_str(full)))
    }

}

impl CliKeys for Config {
    open spec fn model(&self) -> ConfigView {
        self@
    }

    fn options_meta(&self) -> (metas: Vec<OptionMeta>) {
        self.entries_of()
    }

    fn apply_kv(&mut self, key: &str, value: &str) -> (r: Result<(), NsError>) {
        self.apply_from(key, key, value)
    }
}

} // verus!
