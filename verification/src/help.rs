//! The help text of a listing: the entries under their groups, groups and
//! entries in ascending order, as a table of fixed widths.

use crate::grouping::{ascending, group_names, group_of, members, name_views};
use crate::grouping::{lemma_ascending_unique, lemma_group_names, lemma_insert_name};
use crate::grouping::{by_key, law_sorted_entries};
use crate::grouping::{lemma_members_come_from, place_name, sort_entries, sorted_by_key};
use crate::meta::{meta_views, OptionMeta, OptionMetaView};
use crate::text::{is_blank, same_text, split_once};
use itertools::Itertools;
use vstd::prelude::*;
use vstd::string::StringExecFns;

verus! {

/// The entries of a listing that share a first segment.
#[derive(Debug)]
pub struct Group {
    pub name: String,
    pub members: Vec<OptionMeta>,
}

/// `s`, and behind it as many spaces as it lacks to `width` characters.
pub open spec fn padded(s: Seq<char>, width: nat) -> Seq<char> {
    if s.len() >= width {
        s
    } else {
        s + Seq::new((width - s.len()) as nat, |i: int| ' ')
    }
}

/// The line of one entry up to its type: the key and the default in
/// columns of fixed width, and the type in parentheses.
pub open spec fn entry_columns(m: OptionMetaView) -> Seq<char> {
    "  "@ + padded(m.key, 28) + "  default = "@ + padded(m.default, 10) + "  ("@ + m.ty + ")"@
}

/// The line of one entry: its columns, and behind them a space and the
/// help. Where the help is empty the line ends with the type: neither the
/// help nor the space before it is there.
pub open spec fn entry_line(m: OptionMetaView) -> Seq<char> {
    if m.help.len() == 0 {
        entry_columns(m)
    } else {
        entry_columns(m) + " "@ + m.help
    }
}

/// The heading of the group `g`, with the blank line before it.
pub open spec fn heading(g: Seq<char>) -> Seq<char> {
    "\n"@ + g + ".*"@
}

/// The first line of every help text.
pub open spec fn header() -> Seq<char> {
    "Options (set with -o/--option KEY=VALUE; repeatable):"@
}

/// The lines of the entries, one for each, in their order.
pub open spec fn entry_lines(entries: Seq<OptionMetaView>) -> Seq<Seq<char>> {
    entries.map_values(|m: OptionMetaView| entry_line(m))
}

/// The lines of the group `g`: its heading, then its entries by key.
pub open spec fn group_block(metas: Seq<OptionMetaView>, g: Seq<char>) -> Seq<Seq<char>> {
    seq![heading(g)] + entry_lines(sort_entries(members(metas, g)))
}

/// The lines of the first `n` groups of `names`.
pub open spec fn blocks_upto(metas: Seq<OptionMetaView>, names: Seq<Seq<char>>, n: int) -> Seq<
    Seq<char>,
>
    decreases n,
{
    if n <= 0 {
        Seq::empty()
    } else {
        blocks_upto(metas, names, n - 1) + group_block(metas, names[n - 1])
    }
}

/// The lines of the help text: the header, then group by group in the
/// ascending order of their names.
pub open spec fn help_lines(metas: Seq<OptionMetaView>) -> Seq<Seq<char>> {
    seq![header()] + blocks_upto(metas, group_names(metas), group_names(metas).len() as int)
}

/// The lines with a line feed between each two.
pub open spec fn join_lines(lines: Seq<Seq<char>>) -> Seq<char>
    decreases lines.len(),
{
    if lines.len() == 0 {
        Seq::empty()
    } else if lines.len() == 1 {
        lines[0]
    } else {
        join_lines(lines.drop_last()) + seq!['\n'] + lines.last()
    }
}

/// The help text of a listing.
pub open spec fn help_text(metas: Seq<OptionMetaView>) -> Seq<char> {
    join_lines(help_lines(metas))
}

/// Whether `groups` holds the listing `metas` by first segment: the group
/// of every entry is there, no name twice, and each group holds the
/// entries of its name, all of them and at least one, in the order of the
/// listing.
pub open spec fn is_grouping(groups: Seq<Group>, metas: Seq<OptionMetaView>) -> bool {
    &&& forall|i: int|
        0 <= i < metas.len() ==> exists|g: int|
            0 <= g < groups.len() && (#[trigger] groups[g]).name@ == group_of(
                (#[trigger] metas[i]).key,
            )
    &&& forall|g: int|
        0 <= g < groups.len() ==> (#[trigger] groups[g]).members.len() > 0 && meta_views(
            groups[g].members@,
        ) == members(metas, groups[g].name@)
    &&& forall|g: int, h: int|
        0 <= g < h < groups.len() ==> (#[trigger] groups[g]).name@ != (#[trigger] groups[h]).name@
}

/// The first segment of a key: what stands before its first dot, or all
/// of it.
pub fn first_segment(key: &str) -> (segment: &str)
    ensures
        segment@ == group_of(key@),
{
    match split_once(key, '.') {
        Some((head, tail)) => head,
        None => key,
    }
}

/// `Itertools::into_group_map_by` of itertools, on the entries by their
/// first segment, with the map it returns turned into a list of groups.
/// The source shows that each item is pushed to the list under its key in
/// the order of the iteration; a map holds no key twice. In which order
/// the groups stand is left open: a hash map is walked in no fixed order.
#[verifier::external_body]
fn group_by_segment(options: &[OptionMeta]) -> (groups: Vec<Group>)
    ensures
        is_grouping(groups@, meta_views(options@)),
{
    options
        .iter()
        .into_group_map_by(|m| first_segment(m.key.as_str()))
        .into_iter()
        .map(|(name, found)| Group {
            name: name.to_string(),
            members: found.into_iter().cloned().collect(),
        })
        .collect()
}

/// `s`, and behind it as many spaces as it lacks to `width` characters.
pub fn pad(s: &str, width: usize) -> (text: String)
    ensures
        text@ == padded(s@, width as nat),
{
    let mut text = String::from_str(s);
    let mut n: usize = s.unicode_len();
    proof {
        reveal_strlit(" ");
    }
    if n >= width {
        return text;
    }
    let ghost start = n;
    assert(text@ =~= s@ + Seq::new(0, |i: int| ' '));
    while n < width
        invariant
            start == s@.len(),
            start <= n <= width,
            text@ == s@ + Seq::new((n - start) as nat, |i: int| ' '),
            " "@.len() == 1,
            " "@[0] == ' ',
        decreases width - n,
    {
        text.append(" ");
        n += 1;
        assert(text@ =~= s@ + Seq::new((n - start) as nat, |i: int| ' '));
    }
    text
}

/// The line of one entry.
pub fn render_entry(m: &OptionMeta) -> (line: String)
    ensures
        line@ == entry_line(m@),
{
    let mut line = String::from_str("  ");
    let key = pad(m.key.as_str(), 28);
    line.append(key.as_str());
    line.append("  default = ");
    let default = pad(m.default.as_str(), 10);
    line.append(default.as_str());
    line.append("  (");
    line.append(m.ty.as_str());
    line.append(")");
    if !is_blank(m.help.as_str()) {
        line.append(" ");
        line.append(m.help.as_str());
    }
    line
}

/// Deterministic order: the groups of a help text stand in the ascending
/// order of their names, each group of the listing once; within each
/// group stand its entries, each as often as the listing has it, and
/// their keys never descend.
pub proof fn law_help_order(metas: Seq<OptionMetaView>, g: Seq<char>)
    ensures
        ascending(group_names(metas)),
        forall|y: Seq<char>| #[trigger]
            group_names(metas).contains(y) <==> exists|i: int|
                0 <= i < metas.len() && group_of(#[trigger] metas[i].key) == y,
        by_key(sort_entries(members(metas, g))),
        sort_entries(members(metas, g)).to_multiset() == members(metas, g).to_multiset(),
{
    lemma_group_names(metas);
    law_sorted_entries(members(metas, g));
}

/// A line more is a line feed and that line more of text.
proof fn lemma_join_push(lines: Seq<Seq<char>>, line: Seq<char>)
    requires
        lines.len() > 0,
    ensures
        join_lines(lines.push(line)) == join_lines(lines) + seq!['\n'] + line,
{
    assert(lines.push(line).drop_last() =~= lines);
}

/// The names of the groups, ascending.
fn sorted_names(groups: &Vec<Group>) -> (names: Vec<String>)
    ensures
        ascending(name_views(names@)),
        forall|y: Seq<char>| #[trigger]
            name_views(names@).contains(y) <==> exists|g: int|
                0 <= g < groups.len() && (#[trigger] groups[g]).name@ == y,
{
    let mut names: Vec<String> = Vec::new();
    let mut i: usize = 0;
    while i < groups.len()
        invariant
            i <= groups.len(),
            ascending(name_views(names@)),
            forall|y: Seq<char>| #[trigger]
                name_views(names@).contains(y) <==> exists|g: int|
                    0 <= g < i && (#[trigger] groups[g]).name@ == y,
        decreases groups.len() - i,
    {
        let ghost before = name_views(names@);
        let ghost x = groups[i as int].name@;
        proof {
            lemma_insert_name(before, x);
        }
        place_name(&mut names, groups[i].name.clone());
        proof {
            let after = name_views(names@);
            assert forall|y: Seq<char>| #[trigger]
                after.contains(y) <==> exists|g: int|
                    0 <= g < i + 1 && (#[trigger] groups[g]).name@ == y by {
                if before.contains(y) {
                    let g = choose|g: int| 0 <= g < i && (#[trigger] groups[g]).name@ == y;
                    assert(0 <= g < i + 1 && groups[g].name@ == y);
                }
                if y == x {
                    assert(groups[i as int].name@ == y);
                }
                if exists|g: int| 0 <= g < i + 1 && (#[trigger] groups[g]).name@ == y {
                    let g = choose|g: int| 0 <= g < i + 1 && (#[trigger] groups[g]).name@ == y;
                    if g < i {
                        assert(before.contains(y));
                    }
                }
            }
        }
        i += 1;
    }
    names
}

/// The place of the group with the name `name`.
fn find_group(groups: &Vec<Group>, name: &str) -> (g: usize)
    requires
        exists|j: int| 0 <= j < groups.len() && (#[trigger] groups[j]).name@ == name@,
    ensures
        g < groups.len(),
        groups[g as int].name@ == name@,
{
    let mut g: usize = 0;
    while g < groups.len()
        invariant
            g <= groups.len(),
            forall|j: int| 0 <= j < g ==> (#[trigger] groups[j]).name@ != name@,
        decreases groups.len() - g,
    {
        if same_text(groups[g].name.as_str(), name) {
            return g;
        }
        g += 1;
    }
    proof {
        let j = choose|j: int| 0 <= j < groups.len() && (#[trigger] groups[j]).name@ == name@;
        assert(groups[j].name@ != name@);
    }
    g
}

/// The help text of the listing `options`, of which `groups` holds the
/// entries by first segment, in any order.
pub fn render_help(options: &[OptionMeta], groups: &Vec<Group>) -> (text: String)
    requires
        is_grouping(groups@, meta_views(options@)),
    ensures
        text@ == help_text(meta_views(options@)),
{
    let ghost metas = meta_views(options@);
    let names = sorted_names(groups);
    proof {
        lemma_group_names(metas);
        let mine = name_views(names@);
        let theirs = group_names(metas);
        assert forall|y: Seq<char>| mine.contains(y) <==> theirs.contains(y) by {
            if mine.contains(y) {
                let g = choose|g: int| 0 <= g < groups.len() && (#[trigger] groups[g]).name@ == y;
                assert(groups[g].members.len() > 0);
                assert(meta_views(groups[g].members@).len() == groups[g].members@.len());
                lemma_members_come_from(metas, y);
            }
            if theirs.contains(y) {
                let i = choose|i: int|
                    0 <= i < metas.len() && group_of(#[trigger] metas[i].key) == y;
                let g = choose|g: int|
                    0 <= g < groups.len() && (#[trigger] groups[g]).name@ == group_of(
                        (#[trigger] metas[i]).key,
                    );
                assert(groups[g].name@ == y);
            }
        }
        lemma_ascending_unique(mine, theirs);
    }
    let mut text = String::from_str("Options (set with -o/--option KEY=VALUE; repeatable):");
    let ghost mut lines: Seq<Seq<char>> = seq![header()];
    proof {
        reveal_strlit("\n");
        assert(lines + blocks_upto(metas, name_views(names@), 0) =~= lines);
    }
    let mut k: usize = 0;
    while k < names.len()
        invariant
            k <= names.len(),
            metas == meta_views(options@),
            is_grouping(groups@, metas),
            name_views(names@) == group_names(metas),
            forall|y: Seq<char>| #[trigger]
                name_views(names@).contains(y) <==> exists|g: int|
                    0 <= g < groups.len() && (#[trigger] groups[g]).name@ == y,
            lines == seq![header()] + blocks_upto(metas, name_views(names@), k as int),
            text@ == join_lines(lines),
            "\n"@ == seq!['\n'],
        decreases names.len() - k,
    {
        let name = names[k].as_str();
        proof {
            assert(name_views(names@)[k as int] == name@);
            assert(name_views(names@).contains(name@));
        }
        let g = find_group(groups, name);
        let items = sorted_by_key(&groups[g].members);
        let ghost block_start = lines;
        let ghost sorted = meta_views(items@);
        proof {
            assert(sorted == sort_entries(members(metas, name@)));
            lemma_join_push(lines, heading(name@));
            lines = lines.push(heading(name@));
        }
        text.append("\n");
        text.append("\n");
        text.append(name);
        text.append(".*");
        assert(text@ =~= join_lines(lines));
        let mut j: usize = 0;
        proof {
            assert(entry_lines(sorted).take(0) =~= Seq::<Seq<char>>::empty());
            assert(lines =~= block_start + seq![heading(name@)] + entry_lines(sorted).take(0));
        }
        while j < items.len()
            invariant
                j <= items.len(),
                sorted == meta_views(items@),
                lines == block_start + seq![heading(name@)] + entry_lines(sorted).take(j as int),
                text@ == join_lines(lines),
                "\n"@ == seq!['\n'],
            decreases items.len() - j,
        {
            let line = render_entry(&items[j]);
            proof {
                assert(entry_lines(sorted)[j as int] == line@);
                lemma_join_push(lines, line@);
                assert(entry_lines(sorted).take(j as int + 1) =~= entry_lines(sorted).take(
                    j as int,
                ).push(line@));
                lines = lines.push(line@);
                assert(lines =~= block_start + seq![heading(name@)] + entry_lines(sorted).take(
                    j as int + 1,
                ));
            }
            text.append("\n");
            text.append(line.as_str());
            assert(text@ =~= join_lines(lines));
            j += 1;
        }
        proof {
            assert(entry_lines(sorted).take(j as int) =~= entry_lines(sorted));
            assert(lines =~= seq![header()] + blocks_upto(
                metas,
                name_views(names@),
                k as int + 1,
            ));
        }
        k += 1;
    }
    text
}

/// The help text of a listing: a header, then for each group a blank line,
/// its heading, and its entries by key; the groups by name. The text is
/// the same whenever the listing is.
pub fn format_options_help(options: &[OptionMeta]) -> (text: String)
    ensures
        text@ == help_text(meta_views(options@)),
{
    let groups = group_by_segment(options);
    render_help(options, &groups)
}

} // verus!
