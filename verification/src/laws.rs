//! What holds of every configuration and every override.

use crate::error::NsErrorView;
use crate::meta::OptionMetaView;
use crate::namespace::{answers, field_listing, field_well_typed, found, found_from, listing};
use crate::namespace::{listing_from, offered, remainder, resolve, resolve_from};
use crate::namespace::{well_typed, well_typed_from, with_field, with_slot};
use crate::value::{kind_of, leaf_read, LeafView};
use crate::namespace::{ConfigView, FieldView, SlotView};
use vstd::prelude::*;

verus! {

/// `c` without the field at `at`.
pub open spec fn without_field(c: ConfigView, at: int) -> ConfigView {
    ConfigView { fields: c.fields.remove(at) }
}

/// What `value` is read as for the leaf that answers to `key`, among the
/// fields from `from` on.
pub open spec fn read_for(c: ConfigView, from: int, key: Seq<char>, value: Seq<char>) -> LeafView
    decreases c, c.fields.len() - from,
{
    if from < 0 || from >= c.fields.len() {
        arbitrary()
    } else if answers(c.fields[from], key) {
        match c.fields[from].slot {
            SlotView::Leaf { value: current, default } => leaf_read(kind_of(default), value)->Ok_0,
            SlotView::Nested(child) => read_for(
                child,
                0,
                remainder(key, c.fields[from].key),
                value,
            ),
        }
    } else {
        read_for(c, from + 1, key, value)
    }
}

/// Where no field from `from` on answers to `key`, the key is unknown.
proof fn lemma_none_answers(
    c: ConfigView,
    from: int,
    full: Seq<char>,
    key: Seq<char>,
    value: Seq<char>,
)
    requires
        0 <= from,
        forall|i: int| from <= i < c.fields.len() ==> !answers(#[trigger] c.fields[i], key),
    ensures
        resolve_from(c, from, full, key, value) == Err::<ConfigView, NsErrorView>(
            NsErrorView::UnknownKey(full),
        ),
    decreases c.fields.len() - from,
{
    if from < c.fields.len() {
        assert(!answers(c.fields[from], key));
        lemma_none_answers(c, from + 1, full, key, value);
    }
}

/// Unknown key: a key to which no field answers is refused as unknown,
/// under the key as it was given, whatever the value.
pub proof fn law_unknown_key(c: ConfigView, key: Seq<char>, value: Seq<char>)
    requires
        forall|i: int| 0 <= i < c.fields.len() ==> !answers(#[trigger] c.fields[i], key),
    ensures
        resolve(c, key, value) == Err::<ConfigView, NsErrorView>(NsErrorView::UnknownKey(key)),
{
    lemma_none_answers(c, 0, key, key, value);
}

/// A successful override from `from` on changes one field, the first that
/// answers, and leaves every other field as it was.
proof fn lemma_one_field_changes(
    c: ConfigView,
    from: int,
    full: Seq<char>,
    key: Seq<char>,
    value: Seq<char>,
)
    requires
        0 <= from,
        resolve_from(c, from, full, key, value) is Ok,
    ensures
        exists|i: int|
            {
                &&& from <= i < c.fields.len()
                &&& answers(#[trigger] c.fields[i], key)
                &&& forall|j: int| from <= j < i ==> !answers(#[trigger] c.fields[j], key)
                &&& offered(c.fields[i], full, key, value) is Ok
                &&& resolve_from(c, from, full, key, value)->Ok_0 == with_field(
                    c,
                    i,
                    offered(c.fields[i], full, key, value)->Ok_0,
                )
            },
    decreases c.fields.len() - from,
{
    if from < c.fields.len() {
        if answers(c.fields[from], key) {
            assert(from <= from < c.fields.len() && answers(c.fields[from], key));
        } else {
            lemma_one_field_changes(c, from + 1, full, key, value);
            let i = choose|i: int|
                {
                    &&& from + 1 <= i < c.fields.len()
                    &&& answers(#[trigger] c.fields[i], key)
                    &&& forall|j: int| from + 1 <= j < i ==> !answers(#[trigger] c.fields[j], key)
                    &&& offered(c.fields[i], full, key, value) is Ok
                    &&& resolve_from(c, from + 1, full, key, value)->Ok_0 == with_field(
                        c,
                        i,
                        offered(c.fields[i], full, key, value)->Ok_0,
                    )
                };
            assert forall|j: int| from <= j < i implies !answers(#[trigger] c.fields[j], key) by {}
            assert(from <= i < c.fields.len() && answers(c.fields[i], key));
        }
    }
}

/// Scoped mutation: an override that succeeds changes the first field that
/// answers to its key, and no other field of the configuration. The
/// changed field keeps its key, its help and its place.
pub proof fn law_scoped_mutation(c: ConfigView, key: Seq<char>, value: Seq<char>)
    requires
        resolve(c, key, value) is Ok,
    ensures
        resolve(c, key, value)->Ok_0.fields.len() == c.fields.len(),
        exists|i: int|
            {
                &&& 0 <= i < c.fields.len()
                &&& answers(#[trigger] c.fields[i], key)
                &&& forall|j: int| 0 <= j < i ==> !answers(#[trigger] c.fields[j], key)
                &&& forall|j: int|
                    0 <= j < c.fields.len() && j != i ==> (#[trigger] resolve(
                        c,
                        key,
                        value,
                    )->Ok_0.fields[j]) == c.fields[j]
                &&& resolve(c, key, value)->Ok_0.fields[i].key == c.fields[i].key
                &&& resolve(c, key, value)->Ok_0.fields[i].help == c.fields[i].help
                &&& resolve(c, key, value)->Ok_0.fields[i].skip == c.fields[i].skip
            },
{
    lemma_one_field_changes(c, 0, key, key, value);
    let i = choose|i: int|
        {
            &&& 0 <= i < c.fields.len()
            &&& answers(#[trigger] c.fields[i], key)
            &&& forall|j: int| 0 <= j < i ==> !answers(#[trigger] c.fields[j], key)
            &&& offered(c.fields[i], key, key, value) is Ok
            &&& resolve_from(c, 0, key, key, value)->Ok_0 == with_field(
                c,
                i,
                offered(c.fields[i], key, key, value)->Ok_0,
            )
        };
    let after = resolve(c, key, value)->Ok_0;
    assert(0 <= i < c.fields.len() && answers(c.fields[i], key));
    assert forall|j: int| 0 <= j < c.fields.len() && j != i implies (#[trigger] after.fields[j])
        == c.fields[j] by {}
}

/// A field with the listing of another in its place leaves the listing of
/// the configuration as it was.
proof fn lemma_listing_with_field(c: ConfigView, at: int, f: FieldView, from: int)
    requires
        0 <= at < c.fields.len(),
        0 <= from,
        field_listing(f) == field_listing(c.fields[at]),
    ensures
        listing_from(with_field(c, at, f), from) == listing_from(c, from),
    decreases c.fields.len() - from,
{
    if from < c.fields.len() {
        lemma_listing_with_field(c, at, f, from + 1);
    }
}

/// What an override makes of a field is listed as the field was.
proof fn lemma_offered_keeps_listing(
    f: FieldView,
    full: Seq<char>,
    key: Seq<char>,
    value: Seq<char>,
)
    requires
        offered(f, full, key, value) is Ok,
    ensures
        field_listing(offered(f, full, key, value)->Ok_0) == field_listing(f),
    decreases f, 0nat,
{
    match f.slot {
        SlotView::Leaf { value: current, default } => {},
        SlotView::Nested(child) => {
            lemma_resolve_keeps_listing(child, 0, full, remainder(key, f.key), value);
        },
    }
}

/// What an override makes of a configuration is listed as the
/// configuration was.
proof fn lemma_resolve_keeps_listing(
    c: ConfigView,
    from: int,
    full: Seq<char>,
    key: Seq<char>,
    value: Seq<char>,
)
    requires
        0 <= from,
        resolve_from(c, from, full, key, value) is Ok,
    ensures
        listing_from(resolve_from(c, from, full, key, value)->Ok_0, 0) == listing_from(c, 0),
    decreases c, c.fields.len() - from,
{
    if from < c.fields.len() {
        if answers(c.fields[from], key) {
            lemma_offered_keeps_listing(c.fields[from], full, key, value);
            lemma_listing_with_field(
                c,
                from,
                offered(c.fields[from], full, key, value)->Ok_0,
                0,
            );
        } else {
            lemma_resolve_keeps_listing(c, from + 1, full, key, value);
        }
    }
}

/// Defaults stay: no override changes what a configuration is listed
/// with, neither a key nor a default.
pub proof fn law_listing_unchanged(c: ConfigView, key: Seq<char>, value: Seq<char>)
    requires
        resolve(c, key, value) is Ok,
    ensures
        listing(resolve(c, key, value)->Ok_0) == listing(c),
{
    lemma_resolve_keeps_listing(c, 0, key, key, value);
}

/// The listing from `from` on takes no notice of a skipped field.
proof fn lemma_listing_without(c: ConfigView, at: int, from: int)
    requires
        0 <= at < c.fields.len(),
        c.fields[at].skip,
        0 <= from <= at,
    ensures
        listing_from(c, from) == listing_from(without_field(c, at), from),
    decreases c.fields.len() - from,
{
    let w = without_field(c, at);
    if from < at {
        lemma_listing_without(c, at, from + 1);
        assert(w.fields[from] == c.fields[from]);
    } else {
        assert(c.fields.skip(at + 1) =~= w.fields.skip(at));
        lemma_listing_tail(c, w, at + 1, at);
        assert(field_listing(c.fields[at]) =~= Seq::<OptionMetaView>::empty());
        assert(listing_from(c, at) =~= listing_from(c, at + 1));
    }
}

/// Two configurations whose fields agree from some place on are listed
/// alike from there on.
proof fn lemma_listing_tail(c: ConfigView, w: ConfigView, from: int, to: int)
    requires
        0 <= from <= c.fields.len(),
        0 <= to <= w.fields.len(),
        c.fields.skip(from) == w.fields.skip(to),
    ensures
        listing_from(c, from) == listing_from(w, to),
    decreases c.fields.len() - from,
{
    assert(c.fields.skip(from).len() == c.fields.len() - from);
    assert(w.fields.skip(to).len() == w.fields.len() - to);
    if from < c.fields.len() {
        assert(c.fields.skip(from)[0] == c.fields[from]);
        assert(w.fields.skip(to)[0] == w.fields[to]);
        assert(c.fields.skip(from + 1) =~= c.fields.skip(from).skip(1));
        assert(w.fields.skip(to + 1) =~= w.fields.skip(to).skip(1));
        lemma_listing_tail(c, w, from + 1, to + 1);
    }
}

/// Skip exclusion: a skipped field is not listed, and the listing is what
/// it would be without the field; and a key to which only a skipped field
/// could answer is unknown.
pub proof fn law_skip_exclusion(c: ConfigView, at: int, key: Seq<char>, value: Seq<char>)
    requires
        0 <= at < c.fields.len(),
        c.fields[at].skip,
    ensures
        field_listing(c.fields[at]).len() == 0,
        listing(c) == listing(without_field(c, at)),
        !answers(c.fields[at], key),
        (forall|j: int| 0 <= j < c.fields.len() && j != at ==> !answers(#[trigger] c.fields[j], key))
            ==> resolve(c, key, value) == Err::<ConfigView, NsErrorView>(
            NsErrorView::UnknownKey(key),
        ),
{
    lemma_listing_without(c, at, 0);
    if forall|j: int| 0 <= j < c.fields.len() && j != at ==> !answers(#[trigger] c.fields[j], key) {
        law_unknown_key(c, key, value);
    }
}

/// A well-typed field in the place of another leaves the well-typed part
/// of a configuration well-typed.
proof fn lemma_well_typed_with_field(c: ConfigView, at: int, f: FieldView, from: int)
    requires
        0 <= at < c.fields.len(),
        0 <= from,
        field_well_typed(f),
        well_typed_from(c, from) || (from <= at && well_typed_from(c, at + 1) && forall|k: int|
            from <= k < at ==> field_well_typed(#[trigger] c.fields[k])),
    ensures
        well_typed_from(with_field(c, at, f), from),
    decreases c.fields.len() - from,
{
    if from < c.fields.len() {
        if !well_typed_from(c, from) {
            if from < at {
                assert(field_well_typed(c.fields[from]));
            }
        }
        lemma_well_typed_with_field(c, at, f, from + 1);
    }
}

/// The fields of a well-typed part are well-typed.
proof fn lemma_well_typed_fields(c: ConfigView, from: int)
    requires
        0 <= from,
        well_typed_from(c, from),
    ensures
        forall|k: int| from <= k < c.fields.len() ==> field_well_typed(#[trigger] c.fields[k]),
    decreases c.fields.len() - from,
{
    if from < c.fields.len() {
        lemma_well_typed_fields(c, from + 1);
    }
}

/// What an override makes of a well-typed field is well-typed.
proof fn lemma_offered_well_typed(f: FieldView, full: Seq<char>, key: Seq<char>, value: Seq<char>)
    requires
        field_well_typed(f),
        offered(f, full, key, value) is Ok,
    ensures
        field_well_typed(offered(f, full, key, value)->Ok_0),
    decreases f, 0nat,
{
    match f.slot {
        SlotView::Leaf { value: current, default } => {},
        SlotView::Nested(child) => {
            lemma_resolve_well_typed(child, 0, full, remainder(key, f.key), value);
        },
    }
}

/// What an override makes of a well-typed configuration is well-typed.
proof fn lemma_resolve_well_typed(
    c: ConfigView,
    from: int,
    full: Seq<char>,
    key: Seq<char>,
    value: Seq<char>,
)
    requires
        0 <= from,
        well_typed_from(c, 0),
        resolve_from(c, from, full, key, value) is Ok,
    ensures
        well_typed_from(resolve_from(c, from, full, key, value)->Ok_0, 0),
    decreases c, c.fields.len() - from,
{
    if from < c.fields.len() {
        lemma_well_typed_fields(c, 0);
        if answers(c.fields[from], key) {
            lemma_offered_well_typed(c.fields[from], full, key, value);
            lemma_well_typed_with_field(
                c,
                from,
                offered(c.fields[from], full, key, value)->Ok_0,
                0,
            );
        } else {
            lemma_resolve_well_typed(c, from + 1, full, key, value);
        }
    }
}

/// Types stay: an override leaves every leaf with a value of the type of
/// its default.
pub proof fn law_types_kept(c: ConfigView, key: Seq<char>, value: Seq<char>)
    requires
        well_typed(c),
        resolve(c, key, value) is Ok,
    ensures
        well_typed(resolve(c, key, value)->Ok_0),
{
    lemma_resolve_well_typed(c, 0, key, key, value);
}

/// An override is found again: after it the key holds what the value was
/// read as.
proof fn lemma_found_after(
    c: ConfigView,
    from: int,
    full: Seq<char>,
    key: Seq<char>,
    value: Seq<char>,
)
    requires
        0 <= from,
        resolve_from(c, from, full, key, value) is Ok,
    ensures
        found_from(c, from, key) is Some,
        found_from(resolve_from(c, from, full, key, value)->Ok_0, from, key) == Some(
            read_for(c, from, key, value),
        ),
    decreases c, c.fields.len() - from,
{
    if from < c.fields.len() {
        let f = c.fields[from];
        if answers(f, key) {
            assert(offered(f, full, key, value) is Ok);
            let f2 = offered(f, full, key, value)->Ok_0;
            let after = resolve_from(c, from, full, key, value)->Ok_0;
            assert(after == with_field(c, from, f2));
            assert(after.fields[from] == f2);
            match f.slot {
                SlotView::Leaf { value: current, default } => {
                    assert(answers(f2, key));
                },
                SlotView::Nested(child) => {
                    assert(resolve_from(child, 0, full, remainder(key, f.key), value) is Ok);
                    lemma_found_after(child, 0, full, remainder(key, f.key), value);
                    assert(answers(f2, key));
                },
            }
        } else {
            lemma_found_after(c, from + 1, full, key, value);
            let after = resolve_from(c, from + 1, full, key, value)->Ok_0;
            lemma_one_field_changes(c, from + 1, full, key, value);
            assert(after.fields[from] == c.fields[from]);
        }
    }
}

/// Set, then get: after an override that succeeds, its key holds what
/// its value was read as.
pub proof fn law_found_after_override(c: ConfigView, key: Seq<char>, value: Seq<char>)
    requires
        resolve(c, key, value) is Ok,
    ensures
        found(resolve(c, key, value)->Ok_0, key) == Some(read_for(c, 0, key, value)),
{
    lemma_found_after(c, 0, key, key, value);
}

/// The fields before `to`, of which none answers, leave the outcome to the
/// fields from `to` on.
proof fn lemma_skip_to(
    c: ConfigView,
    from: int,
    to: int,
    full: Seq<char>,
    key: Seq<char>,
    value: Seq<char>,
)
    requires
        0 <= from <= to <= c.fields.len(),
        forall|j: int| from <= j < to ==> !answers(#[trigger] c.fields[j], key),
    ensures
        resolve_from(c, from, full, key, value) == resolve_from(c, to, full, key, value),
        found_from(c, from, key) == found_from(c, to, key),
    decreases to - from,
{
    if from < to {
        assert(!answers(c.fields[from], key));
        lemma_skip_to(c, from + 1, to, full, key, value);
    }
}

/// Addressing: a namespace takes every key that is its prefix, a dot and
/// a key of its own, unless a field before it answers to that key; what
/// follows the dot goes to its configuration. So a key is found, and
/// overridden, under the name that the listing gives it.
pub proof fn law_namespace_addressing(c: ConfigView, at: int, inner: Seq<char>, value: Seq<char>)
    requires
        0 <= at < c.fields.len(),
        !c.fields[at].skip,
        c.fields[at].slot is Nested,
        forall|j: int|
            0 <= j < at ==> !answers(
                #[trigger] c.fields[j],
                c.fields[at].key + seq!['.'] + inner,
            ),
    ensures
        answers(c.fields[at], c.fields[at].key + seq!['.'] + inner),
        found(c, c.fields[at].key + seq!['.'] + inner) == found(
            c.fields[at].slot->Nested_0,
            inner,
        ),
        resolve(c, c.fields[at].key + seq!['.'] + inner, value) == match resolve_from(
            c.fields[at].slot->Nested_0,
            0,
            c.fields[at].key + seq!['.'] + inner,
            inner,
            value,
        ) {
            Ok(after) => Ok::<ConfigView, NsErrorView>(
                with_field(c, at, with_slot(c.fields[at], SlotView::Nested(after))),
            ),
            Err(e) => Err::<ConfigView, NsErrorView>(e),
        },
{
    let f = c.fields[at];
    let prefix = f.key + seq!['.'];
    let key = prefix + inner;
    assert(key.subrange(0, prefix.len() as int) =~= prefix);
    assert(key.subrange(prefix.len() as int, key.len() as int) =~= inner);
    assert(remainder(key, f.key) == inner);
    lemma_skip_to(c, 0, at, key, key, value);
    let child = f.slot->Nested_0;
    assert(answers(f, key));
    assert(offered(f, key, key, value) == match resolve_from(child, 0, key, inner, value) {
        Ok(after) => Ok::<FieldView, NsErrorView>(with_slot(f, SlotView::Nested(after))),
        Err(e) => Err::<FieldView, NsErrorView>(e),
    });
    assert(resolve_from(c, at, key, key, value) == match offered(f, key, key, value) {
        Ok(g) => Ok::<ConfigView, NsErrorView>(with_field(c, at, g)),
        Err(e) => Err::<ConfigView, NsErrorView>(e),
    });
}

} // verus!
