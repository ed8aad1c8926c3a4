//! Building a configuration from `KEY=VALUE` options.

use crate::error::{NsError, NsErrorView};
use crate::namespace::{resolve, CliKeys, ConfigView};
use crate::text::{split_first, split_once};
use vstd::prelude::*;
use vstd::string::StringExecFns;

verus! {

/// The outcome of one option on `c`. An option without `=` is refused whole,
/// with an empty value; any other is the override of the key before its
/// first `=` with the value after it.
pub open spec fn override_of(c: ConfigView, option: Seq<char>) -> Result<ConfigView, NsErrorView> {
    match split_first(option, '=') {
        Some((key, value)) => resolve(c, key, value),
        None => Err(
            NsErrorView::ParseError {
                key: option,
                value: Seq::empty(),
                msg: "expected KEY=VALUE"@,
            },
        ),
    }
}

/// The outcome of the options from `from` on, applied in order to `c`: the
/// configuration as the last option that was applied left it, and the first
/// error, after which no option is applied.
pub open spec fn overrides_from(c: ConfigView, options: Seq<Seq<char>>, from: int) -> (
    ConfigView,
    Option<NsErrorView>,
)
    decreases options.len() - from,
{
    if from < 0 || from >= options.len() {
        (c, None)
    } else {
        match override_of(c, options[from]) {
            Ok(next) => overrides_from(next, options, from + 1),
            Err(e) => (c, Some(e)),
        }
    }
}

/// The options as sequences of characters.
pub open spec fn option_texts(options: Seq<String>) -> Seq<Seq<char>> {
    options.map_values(|s: String| s@)
}

/// Applies one `KEY=VALUE` option to `cfg`. On an error `cfg` stays as it
/// was.
pub fn apply_option<C: CliKeys>(cfg: &mut C, option: &str) -> (r: Result<(), NsError>)
    ensures
        match r {
            Ok(_) => override_of(old(cfg).model(), option@) == Ok::<ConfigView, NsErrorView>(
                final(cfg).model(),
            ),
            Err(e) => override_of(old(cfg).model(), option@) == Err::<ConfigView, NsErrorView>(e@)
                && final(cfg).model() == old(cfg).model(),
        },
{
    match split_once(option, '=') {
        Some((key, value)) => cfg.apply_kv(key, value),
        None => Err(
            NsError::ParseError {
                key: String::from_str(option),
                value: String::new(),
                msg: String::from_str("expected KEY=VALUE"),
            },
        ),
    }
}

/// Applies the options to `cfg` in order and stops at the first error.
/// What the options before it did stays done.
pub fn apply_options<C: CliKeys>(cfg: &mut C, options: &Vec<String>) -> (r: Result<(), NsError>)
    ensures
        final(cfg).model() == overrides_from(old(cfg).model(), option_texts(options@), 0).0,
        match r {
            Ok(_) => overrides_from(old(cfg).model(), option_texts(options@), 0).1 is None,
            Err(e) => overrides_from(old(cfg).model(), option_texts(options@), 0).1 == Some(e@),
        },
{
    let n = options.len();
    let mut i: usize = 0;
    while i < n
        invariant
            i <= n,
            n == options.len(),
            overrides_from(cfg.model(), option_texts(options@), i as int) == overrides_from(
                old(cfg).model(),
                option_texts(options@),
                0,
            ),
        decreases n - i,
    {
        assert(option_texts(options@)[i as int] == options@[i as int]@);
        match apply_option(cfg, options[i].as_str()) {
            Ok(_) => {},
            Err(e) => {
                return Err(e);
            },
        }
        i += 1;
    }
    Ok(())
}

/// The configuration that the options make of `defaults`, or the first
/// error among them.
pub fn build_from_options<C: CliKeys>(defaults: C, options: &Vec<String>) -> (r: Result<
    C,
    NsError,
>)
    ensures
        match r {
            Ok(cfg) => overrides_from(defaults.model(), option_texts(options@), 0) == (
                cfg.model(),
                None::<NsErrorView>,
            ),
            Err(e) => overrides_from(defaults.model(), option_texts(options@), 0).1 == Some(e@),
        },
{
    let mut cfg = defaults;
    match apply_options(&mut cfg, options) {
        Ok(_) => Ok(cfg),
        Err(e) => Err(e),
    }
}

} // verus!
