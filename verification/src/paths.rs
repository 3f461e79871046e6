//! Paths as text. How a path is read depends on the machine, which [`PathRules`] stands for. Where
//! a slash separates the parts of a path, this module says what it means: a path that starts with
//! a slash starts at the root. Other machines know drives, shares and a second separator, and there
//! the standard library reads the path.
use crate::text::{chars_of, opt_text, same_text};
use vstd::prelude::*;
use vstd::string::*;

verus! {

/// How paths are read on this machine, told by the character that separates their parts: a slash on
/// Unix, a backslash on Windows. A value is had from [`PathRules::current`] alone, so it always
/// stands for the machine at hand.
#[derive(Debug, Clone, Copy, PartialEq, Eq)]
pub struct PathRules {
    separator: char,
}

impl View for PathRules {
    type V = char;

    closed spec fn view(&self) -> char {
        self.separator
    }
}

/// What `std::path::Path::join` makes of two paths on a machine with this separator.
pub uninterp spec fn std_joined(
    separator: char,
    base: Seq<char>,
    path: Seq<char>,
) -> Seq<char>;

/// What `std::path::Path::file_name` finds in a path on a machine with this separator.
pub uninterp spec fn std_name(separator: char, path: Seq<char>) -> Option<Seq<char>>;

/// The character that separates the parts of a path, `std::path::MAIN_SEPARATOR`. It depends on
/// the machine, so nothing is claimed of it.
#[verifier::external_body]
fn machine_separator() -> (r: char) {
    std::path::MAIN_SEPARATOR
}

/// `std::path::Path::join`, between texts. Its result is given a name: it depends on the two paths
/// and on how this machine reads paths, which `rules` stands for. What it is where the separator
/// is no slash, that is how drives, shares and the second separator are read, is left unsaid.
#[verifier::external_body]
fn join_by_std(rules: PathRules, base: &str, path: &str) -> (r: String)
    requires
        rules@ != '/',
    ensures
        r@ == std_joined(rules@, base@, path@),
{
    std::path::Path::new(base).join(path).to_string_lossy().into_owned()
}

/// `std::path::Path::file_name`, between texts. Its result is given a name: it depends on the path
/// and on how this machine reads paths, which `rules` stands for. What it is where the separator
/// is no slash is left unsaid.
#[verifier::external_body]
fn file_name_by_std(rules: PathRules, path: &str) -> (r: Option<String>)
    requires
        rules@ != '/',
    ensures
        opt_text(r) == std_name(rules@, path@),
{
    match std::path::Path::new(path).file_name() {
        Some(name) => Some(name.to_string_lossy().into_owned()),
        None => None,
    }
}

/// Whether a path starts at the root, where a slash separates its parts.
pub open spec fn is_rooted(path: Seq<char>) -> bool {
    path.len() > 0 && path[0] == '/'
}

/// Where `path` leads from `base`, where a slash separates their parts: a path that starts at the
/// root leads where it leads from anywhere, and any other is put behind `base`, with a slash
/// between the two unless `base` is empty or ends in one.
pub open spec fn slash_joined(base: Seq<char>, path: Seq<char>) -> Seq<char> {
    if is_rooted(path) {
        path
    } else if base.len() == 0 || base.last() == '/' {
        base + path
    } else {
        base.push('/') + path
    }
}

/// Where `path` leads from `base`.
pub open spec fn joined(separator: char, base: Seq<char>, path: Seq<char>) -> Seq<char> {
    if separator == '/' {
        slash_joined(base, path)
    } else {
        std_joined(separator, base, path)
    }
}

/// Whether a path leads to the same place from anywhere.
pub open spec fn leads_from_anywhere(separator: char, path: Seq<char>) -> bool {
    forall|base: Seq<char>| #[trigger] joined(separator, base, path) == path
}

/// Where a slash separates the parts of a path, those that lead to the same place from anywhere are
/// those that start at the root.
pub proof fn law_rooted_paths(path: Seq<char>)
    ensures
        leads_from_anywhere('/', path) <==> is_rooted(path),
{
    let base = seq!['a'];
    assert(joined('/', base, path).len() != path.len() || is_rooted(path));
}

/// The index behind the last slash of a path, or zero where there is none.
pub open spec fn last_part_start(path: Seq<char>) -> nat
    decreases path.len(),
{
    if path.len() == 0 {
        0
    } else if path.last() == '/' {
        path.len()
    } else {
        last_part_start(path.drop_last())
    }
}

/// The last part of a path that names something, where a slash separates the parts: empty parts
/// and the part `.` name nothing, and a path whose last part is `..` has no name.
pub open spec fn slash_name(path: Seq<char>) -> Option<Seq<char>>
    decreases path.len(),
{
    let start = last_part_start(path);
    let part = path.skip(start as int);
    if part.len() == 0 || part == "."@ {
        if start == 0 || start > path.len() {
            None
        } else {
            slash_name(path.take(start - 1))
        }
    } else if part == ".."@ {
        None
    } else {
        Some(part)
    }
}

/// The last part of a path that names something.
pub open spec fn name_of(separator: char, path: Seq<char>) -> Option<Seq<char>> {
    if separator == '/' {
        slash_name(path)
    } else {
        std_name(separator, path)
    }
}

proof fn lemma_last_part_start(path: Seq<char>)
    ensures
        last_part_start(path) <= path.len(),
        last_part_start(path) > 0 ==> path[last_part_start(path) - 1] == '/',
        forall|k: int| last_part_start(path) <= k < path.len() ==> #[trigger] path[k] != '/',
    decreases path.len(),
{
    if path.len() > 0 && path.last() != '/' {
        lemma_last_part_start(path.drop_last());
        assert forall|k: int| last_part_start(path) <= k < path.len() implies #[trigger] path[k]
            != '/' by {
            if k < path.len() - 1 {
                assert(path[k] == path.drop_last()[k]);
            }
        }
    }
}

/// The last part starts where a slash precedes it and none is inside it.
pub proof fn lemma_last_part_start_is(path: Seq<char>, start: int)
    requires
        0 <= start <= path.len(),
        start > 0 ==> path[start - 1] == '/',
        forall|k: int| start <= k < path.len() ==> #[trigger] path[k] != '/',
    ensures
        last_part_start(path) == start,
{
    lemma_last_part_start(path);
    let found = last_part_start(path) as int;
    if found < start {
        assert(path[start - 1] != '/');
    }
    if start < found {
        assert(path[found - 1] != '/');
    }
}

/// Behind a slash, a part that names something is the name of the path.
pub proof fn lemma_name_of_joined(base: Seq<char>, part: Seq<char>)
    requires
        part.len() > 0,
        forall|k: int| 0 <= k < part.len() ==> #[trigger] part[k] != '/',
        part != "."@,
        part != ".."@,
    ensures
        name_of('/', joined('/', base, part)) == Some(part),
{
    let path = slash_joined(base, part);
    assert(part[0] != '/');
    let start = path.len() - part.len();
    assert forall|k: int| start <= k < path.len() implies #[trigger] path[k] != '/' by {
        assert(path[k] == part[k - start]);
    }
    lemma_last_part_start_is(path, start);
    assert(path.skip(start) =~= part);
}

/// Where a slash separates the parts of a path, joining puts exactly one between the two, keeps
/// both as they are, and does so part by part: what leads from a place that leads from another
/// leads there from the first.
pub proof fn law_joining_paths(base: Seq<char>, path: Seq<char>, further: Seq<char>)
    ensures
        path.len() == 0 || path[0] != '/' ==> path.is_suffix_of(joined('/', base, path)),
        path.len() == 0 || path[0] != '/' ==> base.is_prefix_of(joined('/', base, path)),
        (path.len() == 0 || path[0] != '/') && base.len() > 0 && base.last() != '/' ==> joined(
            '/',
            base,
            path,
        ) == base + seq!['/'] + path,
        (path.len() == 0 || path[0] != '/') && base.len() > 0 && base.last() == '/' ==> joined(
            '/',
            base,
            path,
        ) == base + path,
        path.len() > 0 && path[0] == '/' ==> joined('/', base, path) == path,
        joined('/', Seq::empty(), path) == path,
        path.len() > 0 ==> joined('/', joined('/', base, path), further) == joined(
            '/',
            base,
            joined('/', path, further),
        ),
{
    let all = joined('/', base, path);
    if path.len() == 0 || path[0] != '/' {
        assert(path =~= all.subrange(all.len() - path.len(), all.len() as int));
        assert(base =~= all.subrange(0, base.len() as int));
        assert(base.push('/') + path =~= base + seq!['/'] + path);
    }
    assert(Seq::<char>::empty() + path =~= path);
    if path.len() > 0 {
        assert(all.last() == path.last());
        assert(joined('/', all, further) =~= joined('/', base, joined('/', path, further)));
    }
}

impl PathRules {
    /// Returns how paths are read on this machine. Nothing can be said of which machine that is.
    pub fn current() -> (r: Self) {
        PathRules { separator: machine_separator() }
    }
}

/// Returns where `path` leads from `base`.
pub fn join_path(rules: PathRules, base: &str, path: &str) -> (r: String)
    ensures
        r@ == joined(rules@, base@, path@),
{
    if rules.separator != '/' {
        return join_by_std(rules, base, path);
    }
    if crate::text::first_char(path) == Some('/') {
        return path.to_owned();
    }
    let chars = chars_of(base);
    let mut r = base.to_owned();
    if chars.len() > 0 && chars[chars.len() - 1] != '/' {
        r.push('/');
    }
    r.append(path);
    r
}

/// Returns the last part of a path that names something.
pub fn file_name(rules: PathRules, path: &str) -> (r: Option<String>)
    ensures
        opt_text(r) == name_of(rules@, path@),
{
    if rules.separator != '/' {
        return file_name_by_std(rules, path);
    }
    let chars = chars_of(path);
    let mut end: usize = chars.len();
    assert(path@.take(end as int) =~= path@);
    loop
        invariant
            end <= chars.len(),
            chars@ == path@,
            rules@ == '/',
            slash_name(path@.take(end as int)) == slash_name(path@),
        decreases end,
    {
        let ghost rest = path@.take(end as int);
        let mut start: usize = end;
        while start > 0 && chars[start - 1] != '/'
            invariant
                start <= end <= chars.len(),
                chars@ == path@,
                rest == path@.take(end as int),
                forall|k: int| start <= k < end ==> #[trigger] rest[k] != '/',
            decreases start,
        {
            assert(rest[start - 1] == chars@[start - 1]);
            start -= 1;
        }
        proof {
            if start > 0 {
                assert(rest[start - 1] == chars@[start - 1]);
            }
            lemma_last_part_start_is(rest, start as int);
        }
        let part = path.substring_char(start, end);
        assert(rest.skip(start as int) =~= part@);
        if part.is_empty() || same_text(part, ".") {
            if start == 0 {
                return None;
            }
            assert(rest.take(start - 1) =~= path@.take(start - 1));
            end = start - 1;
        } else if same_text(part, "..") {
            return None;
        } else {
            return Some(part.to_owned());
        }
    }
}

/// Paths that are joined, and names that are asked for, are what they should be, and where a slash
/// separates their parts the name of what was joined last is found again.
pub proof fn law_joining_and_naming(
    rules: PathRules,
    base: &str,
    path: &str,
    both: String,
    whole: &str,
    name: Option<String>,
)
    requires
        call_ensures(join_path, (rules, base, path), both),
        call_ensures(file_name, (rules, whole), name),
        whole@ == both@,
        rules@ == '/',
        path@.len() > 0,
        forall|k: int| 0 <= k < path@.len() ==> #[trigger] path@[k] != '/',
        path@ != "."@,
        path@ != ".."@,
    ensures
        opt_text(name) == Some(path@),
        base@.is_prefix_of(both@),
        path@.is_suffix_of(both@),
{
    law_joining_paths(base@, path@, seq![]);
    lemma_name_of_joined(base@, path@);
    assert(path@[0] != '/');
}

} // verus!
