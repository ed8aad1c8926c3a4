//! The description of one overridable key.

use crate::text::is_blank;
use vstd::prelude::*;
use vstd::string::StringExecFns;

verus! {

/// One overridable key: where it is, what it holds and what it starts as.
#[derive(Debug)]
pub struct OptionMeta {
    /// Fully qualified key, such as `backend.d_model`.
    pub key: String,
    /// Name of the value's type, for the reader only.
    pub ty: String,
    /// Description, empty where none was given.
    pub help: String,
    /// The default value as text.
    pub default: String,
}

/// An `OptionMeta` as plain sequences of characters.
pub struct OptionMetaView {
    pub key: Seq<char>,
    pub ty: Seq<char>,
    pub help: Seq<char>,
    pub default: Seq<char>,
}

impl View for OptionMeta {
    type V = OptionMetaView;

    open spec fn view(&self) -> OptionMetaView {
        OptionMetaView { key: self.key@, ty: self.ty@, help: self.help@, default: self.default@ }
    }
}

impl Clone for OptionMeta {
    fn clone(&self) -> (copy: Self)
        ensures
            copy@ == self@,
    {
        OptionMeta {
            key: self.key.clone(),
            ty: self.ty.clone(),
            help: self.help.clone(),
            default: self.default.clone(),
        }
    }
}

impl OptionMeta {
    /// An entry made of its four parts.
    pub fn with_default(key: &str, ty: &str, help: &str, default: String) -> (meta: Self)
        ensures
            meta@ == (OptionMetaView { key: key@, ty: ty@, help: help@, default: default@ }),
    {
        OptionMeta {
            key: String::from_str(key),
            ty: String::from_str(ty),
            help: String::from_str(help),
            default,
        }
    }
}

/// The views of a listing, entry by entry.
pub open spec fn meta_views(metas: Seq<OptionMeta>) -> Seq<OptionMetaView> {
    metas.map_values(|m: OptionMeta| m@)
}

/// `m` with `prefix` and a dot put before its key.
pub open spec fn prefixed(prefix: Seq<char>, m: OptionMetaView) -> OptionMetaView {
    OptionMetaView { key: prefix + seq!['.'] + m.key, ty: m.ty, help: m.help, default: m.default }
}

/// A listing with `prefix` and a dot put before every key; the listing
/// itself where `prefix` is empty.
pub open spec fn prefixed_all(prefix: Seq<char>, metas: Seq<OptionMetaView>) -> Seq<
    OptionMetaView,
> {
    if prefix.len() == 0 {
        metas
    } else {
        metas.map_values(|m: OptionMetaView| prefixed(prefix, m))
    }
}

/// Puts `prefix` and a dot before the key of every entry of `meta`. An
/// empty prefix leaves the listing as it is.
pub fn prefix_meta(prefix: &str, meta: Vec<OptionMeta>) -> (out: Vec<OptionMeta>)
    ensures
        meta_views(out@) == prefixed_all(prefix@, meta_views(meta@)),
{
    if is_blank(prefix) {
        return meta;
    }
    let mut out: Vec<OptionMeta> = Vec::new();
    let mut i: usize = 0;
    while i < meta.len()
        invariant
            i <= meta.len(),
            out.len() == i,
            forall|j: int| 0 <= j < i ==> (#[trigger] out@[j])@ == prefixed(prefix@, meta@[j]@),
        decreases meta.len() - i,
    {
        let m = &meta[i];
        let mut key = String::from_str(prefix);
        proof {
            reveal_strlit(".");
            assert("."@ =~= seq!['.']);
        }
        key.append(".");
        key.append(m.key.as_str());
        out.push(
            OptionMeta { key, ty: m.ty.clone(), help: m.help.clone(), default: m.default.clone() },
        );
        i += 1;
    }
    assert(meta_views(out@) =~= prefixed_all(prefix@, meta_views(meta@)));
    out
}

} // verus!
