//! What build tooling computes from values that it has read elsewhere:
//! directory names, compiler arguments, the number of jobs.

use crate::decimal::{format_unsigned, integer_text};
use crate::leaf::{integer_in, ParseFromStr};
use crate::text::{after_prefix, lemma_first_index, lemma_tokens_step, same_text};
use crate::text::{split_once, strip_prefix, tokens};
use vstd::prelude::*;
use vstd::string::StringExecFns;

verus! {

/// Whether `c` is an ASCII letter or digit.
pub open spec fn is_ascii_alphanumeric(c: char) -> bool {
    ('0' as int <= c as int <= '9' as int) || ('A' as int <= c as int <= 'Z' as int) || ('a' as int
        <= c as int <= 'z' as int)
}

/// `c` where it is an ASCII letter or digit, a hyphen in place of any
/// other character.
pub open spec fn sanitized_char(c: char) -> char {
    if is_ascii_alphanumeric(c) {
        c
    } else {
        '-'
    }
}

/// `s` with a hyphen in place of every character that is no ASCII letter
/// or digit.
pub open spec fn sanitized(s: Seq<char>) -> Seq<char> {
    s.map_values(|c: char| sanitized_char(c))
}

/// Whether `c` is an ASCII letter or digit.
fn ascii_alphanumeric(c: char) -> (yes: bool)
    ensures
        yes == is_ascii_alphanumeric(c),
{
    let u = c as u32;
    (u >= 48 && u <= 57) || (u >= 65 && u <= 90) || (u >= 97 && u <= 122)
}

/// A name fit for a directory: `value` with a hyphen in place of every
/// character that is no ASCII letter or digit.
pub fn sanitize_component(value: &str) -> (name: String)
    ensures
        name@ == sanitized(value@),
{
    let n = value.unicode_len();
    let mut name = String::new();
    let mut i: usize = 0;
    proof {
        reveal_strlit("-");
    }
    assert(name@ =~= sanitized(value@).take(0));
    while i < n
        invariant
            n == value@.len(),
            i <= n,
            name@ == sanitized(value@).take(i as int),
            "-"@.len() == 1,
            "-"@[0] == '-',
        decreases n - i,
    {
        if ascii_alphanumeric(value.get_char(i)) {
            name.append(value.substring_char(i, i + 1));
        } else {
            name.append("-");
        }
        assert(name@ =~= sanitized(value@).take(i as int + 1));
        i += 1;
    }
    assert(sanitized(value@).take(n as int) =~= sanitized(value@));
    name
}

/// The arguments that name `dirs` as system include directories: before
/// each directory the flag `-isystem`.
pub open spec fn include_args(dirs: Seq<Seq<char>>) -> Seq<Seq<char>> {
    Seq::new(
        2 * dirs.len(),
        |i: int|
            if i % 2 == 0 {
                "-isystem"@
            } else {
                dirs[i / 2]
            },
    )
}

/// The texts of a list of strings.
pub open spec fn texts(list: Seq<String>) -> Seq<Seq<char>> {
    list.map_values(|s: String| s@)
}

/// The compiler arguments that name `dirs` as system include directories.
pub fn clang_system_include_args(dirs: &Vec<String>) -> (args: Vec<String>)
    ensures
        texts(args@) == include_args(texts(dirs@)),
{
    let mut args: Vec<String> = Vec::new();
    let mut i: usize = 0;
    while i < dirs.len()
        invariant
            i <= dirs.len(),
            args.len() == 2 * i,
            forall|k: int|
                0 <= k < 2 * i ==> (#[trigger] args@[k])@ == include_args(texts(dirs@))[k],
        decreases dirs.len() - i,
    {
        args.push(String::from_str("-isystem"));
        args.push(dirs[i].clone());
        i += 1;
    }
    assert(texts(args@) =~= include_args(texts(dirs@)));
    args
}

/// The arguments that name the SDK root, where there is one.
pub open spec fn sysroot_args(sdk_root: Option<Seq<char>>) -> Seq<Seq<char>> {
    match sdk_root {
        Some(root) => seq!["-isysroot"@, root],
        None => Seq::empty(),
    }
}

/// The view of an optional text.
pub open spec fn optional_text(s: Option<&str>) -> Option<Seq<char>> {
    match s {
        Some(t) => Some(t@),
        None => None,
    }
}

/// The compiler arguments that name the SDK root: `-isysroot` and the
/// root, or none where no root was found.
pub fn clang_macos_sysroot_args(sdk_root: Option<&str>) -> (args: Vec<String>)
    ensures
        texts(args@) == sysroot_args(optional_text(sdk_root)),
{
    let mut args: Vec<String> = Vec::new();
    match sdk_root {
        Some(root) => {
            args.push(String::from_str("-isysroot"));
            args.push(String::from_str(root));
        },
        None => {},
    }
    assert(texts(args@) =~= sysroot_args(optional_text(sdk_root)));
    args
}

/// The number of jobs: what `num_jobs` asks for where it is a number
/// above zero, else what the machine offers, else one.
pub open spec fn jobs(num_jobs: Option<Seq<char>>, available: Option<usize>) -> int {
    let asked = match num_jobs {
        Some(s) => integer_in(s, false, 1, usize::MAX as int),
        None => None,
    };
    match asked {
        Some(n) => n,
        None => match available {
            Some(a) => a as int,
            None => 1,
        },
    }
}

/// The number of jobs to build with: what `num_jobs` asks for where it is
/// a number above zero, else what the machine offers, else one.
pub fn parallel_jobs(num_jobs: Option<&str>, available: Option<usize>) -> (n: usize)
    ensures
        n == jobs(optional_text(num_jobs), available),
{
    let asked: Option<usize> = match num_jobs {
        Some(s) => match usize::parse_str(s) {
            Ok(v) => if v > 0 {
                Some(v)
            } else {
                None
            },
            Err(_) => None,
        },
        None => None,
    };
    match asked {
        Some(v) => v,
        None => match available {
            Some(a) => a,
            None => 1,
        },
    }
}

/// The arguments of a command once the number of jobs is given to it: one
/// more, `-j` and the number, where there is more than one job.
pub open spec fn with_jobs(args: Seq<Seq<char>>, jobs: usize) -> Seq<Seq<char>> {
    if jobs > 1 {
        args.push("-j"@ + integer_text(jobs as int))
    } else {
        args
    }
}

/// Gives the number of jobs to a command, as one more of its arguments,
/// where there is more than one job.
pub fn apply_parallel(args: &mut Vec<String>, jobs: usize)
    ensures
        texts(final(args)@) == with_jobs(texts(old(args)@), jobs),
{
    if jobs > 1 {
        let mut flag = String::from_str("-j");
        let number = format_unsigned(jobs as u64);
        flag.append(number.as_str());
        args.push(flag);
        assert(texts(args@) =~= with_jobs(texts(old(args)@), jobs));
    }
}

/// The CPU that the compiler flag `token` names as the target, where it
/// names one.
pub open spec fn named_cpu(token: Seq<char>) -> Option<Seq<char>> {
    match after_prefix(token, "-Ctarget-cpu="@) {
        Some(cpu) => Some(cpu),
        None => after_prefix(token, "target-cpu="@),
    }
}

/// The CPU that the last of the flags that name one names.
pub open spec fn last_cpu(flags: Seq<Seq<char>>) -> Option<Seq<char>>
    decreases flags.len(),
{
    if flags.len() == 0 {
        None
    } else {
        match named_cpu(flags.last()) {
            Some(cpu) => Some(cpu),
            None => last_cpu(flags.drop_last()),
        }
    }
}

/// Whether the encoded compiler flags ask for the CPU of this machine: the
/// last flag among them that names a target CPU names `native`.
pub open spec fn asks_native(encoded: Option<Seq<char>>) -> bool {
    match encoded {
        Some(flags) => last_cpu(tokens(flags, '\u{1f}')) == Some("native"@),
        None => false,
    }
}

/// The CPU that the flag `token` names as the target, where it names one.
fn cpu_of<'a>(token: &'a str) -> (cpu: Option<&'a str>)
    ensures
        optional_text(cpu) == named_cpu(token@),
{
    match strip_prefix(token, "-Ctarget-cpu=") {
        Some(cpu) => Some(cpu),
        None => strip_prefix(token, "target-cpu="),
    }
}

/// Whether the encoded compiler flags, where there are any, ask for the
/// CPU of this machine. The flags stand between unit separators; a flag
/// names a target CPU as `-Ctarget-cpu=` or, behind `-C`, as
/// `target-cpu=`, and the last one decides.
pub fn wants_native_cpu_flags(encoded: Option<&str>) -> (yes: bool)
    ensures
        yes == asks_native(optional_text(encoded)),
{
    let flags = match encoded {
        Some(flags) => flags,
        None => {
            return false;
        },
    };
    let mut last: Option<&str> = None;
    let mut rest = flags;
    let ghost mut done: Seq<Seq<char>> = Seq::empty();
    assert(done + tokens(rest@, '\u{1f}') =~= tokens(flags@, '\u{1f}'));
    loop
        invariant_except_break
            done + tokens(rest@, '\u{1f}') == tokens(flags@, '\u{1f}'),
            optional_text(last) == last_cpu(done),
        ensures
            optional_text(last) == last_cpu(tokens(flags@, '\u{1f}')),
        decreases rest@.len(),
    {
        proof {
            lemma_tokens_step(rest@, '\u{1f}');
        }
        match split_once(rest, '\u{1f}') {
            Some((token, tail)) => {
                proof {
                    assert(done.push(token@).drop_last() =~= done);
                    assert(done.push(token@) + tokens(tail@, '\u{1f}') =~= done + (seq![token@]
                        + tokens(tail@, '\u{1f}')));
                    done = done.push(token@);
                    lemma_first_index(rest@, '\u{1f}');
                }
                match cpu_of(token) {
                    Some(cpu) => {
                        last = Some(cpu);
                    },
                    None => {},
                }
                rest = tail;
            },
            None => {
                proof {
                    assert(done.push(rest@).drop_last() =~= done);
                    assert(done.push(rest@) =~= done + seq![rest@]);
                    assert(tokens(flags@, '\u{1f}') == done.push(rest@));
                }
                match cpu_of(rest) {
                    Some(cpu) => {
                        last = Some(cpu);
                    },
                    None => {},
                }
                break ;
            },
        }
    }
    match last {
        Some(cpu) => same_text(cpu, "native"),
        None => false,
    }
}

} // verus!
