//! Working directories: the final component of a path and the text that
//! identifies a project.
use vstd::prelude::*;

verus! {

broadcast use vstd::std_specs::vec::group_vec_axioms;

/// Whether `c` separates path components: `/` (except in Windows verbatim
/// paths), and on Windows also `\`.
pub open spec fn is_path_separator(c: char, windows: bool, verbatim: bool) -> bool {
    (c == '/' && !verbatim) || (windows && c == '\\')
}

fn path_separator(c: char, windows: bool, verbatim: bool) -> (r: bool)
    ensures
        r == is_path_separator(c, windows, verbatim),
{
    (c == '/' && !verbatim) || (windows && c == '\\')
}

/// `std::path::MAIN_SEPARATOR`: the main separator of paths on the machine
/// the library runs on (`/` on Unix, `\` on Windows). Nothing is stated of
/// it, as it depends on the machine.
#[verifier::external_body]
pub(crate) fn host_separator() -> (separator: char) {
    std::path::MAIN_SEPARATOR
}

/// Where the component that starts at `i` ends: the next separator, or the end.
pub open spec fn component_end(p: Seq<char>, i: int, verbatim: bool) -> int
    decreases p.len() - i,
{
    if i < 0 || i >= p.len() || is_path_separator(p[i], true, verbatim) {
        i
    } else {
        component_end(p, i + 1, verbatim)
    }
}

/// A Windows verbatim path: it starts with `\\?\`.
pub open spec fn is_verbatim(p: Seq<char>, windows: bool) -> bool {
    windows && p.len() >= 4 && p[0] == '\\' && p[1] == '\\' && p[2] == '?' && p[3] == '\\'
}

/// The length of the prefix of a Windows path (`std::path::Prefix`):
/// `\\?\UNC\server\share`, `\\?\name` (also `\\?\C:`), `\\.\device`,
/// `\\server\share` (both parts present) or a drive such as `C:`; 0 when
/// there is none, and always on Unix.
pub open spec fn prefix_len(p: Seq<char>, windows: bool) -> int {
    if !windows {
        0
    } else if p.len() >= 2 && is_path_separator(p[0], true, false) && is_path_separator(
        p[1],
        true,
        false,
    ) {
        if is_verbatim(p, windows) {
            if p.len() >= 8 && p[4] == 'U' && p[5] == 'N' && p[6] == 'C' && is_path_separator(
                p[7],
                true,
                false,
            ) {
                let server_end = component_end(p, 8, true);
                if server_end < p.len() && component_end(p, server_end + 1, true) > server_end
                    + 1 {
                    component_end(p, server_end + 1, true)
                } else {
                    server_end
                }
            } else {
                component_end(p, 4, true)
            }
        } else if p.len() >= 4 && p[2] == '.' && is_path_separator(p[3], true, false) {
            component_end(p, 4, false)
        } else {
            let server_end = component_end(p, 2, false);
            if 2 < server_end < p.len() && component_end(p, server_end + 1, false) > server_end
                + 1 {
                component_end(p, server_end + 1, false)
            } else {
                0
            }
        }
    } else if p.len() >= 2 && p[1] == ':' && (('a' <= p[0] <= 'z') || ('A' <= p[0] <= 'Z')) {
        2
    } else {
        0
    }
}

/// Where the component that ends at `j` starts, looking no lower than `lo`.
pub open spec fn component_start(p: Seq<char>, lo: int, j: int, windows: bool, verbatim: bool) -> int
    decreases j - lo,
{
    if lo < j && !is_path_separator(p[j - 1], windows, verbatim) {
        component_start(p, lo, j - 1, windows, verbatim)
    } else {
        j
    }
}

/// The last component of `p[lo..j]` that is not `.`; nothing when there is
/// none or when it is `..` (or, in a verbatim path, `.`).
pub open spec fn final_from(p: Seq<char>, lo: int, j: int, windows: bool, verbatim: bool) -> Option<
    Seq<char>,
>
    decreases j - lo,
{
    if j <= lo || j > p.len() {
        None
    } else if is_path_separator(p[j - 1], windows, verbatim) {
        final_from(p, lo, j - 1, windows, verbatim)
    } else {
        let i = component_start(p, lo, j, windows, verbatim);
        if lo <= i < j {
            let component = p.subrange(i, j);
            if component == seq!['.'] {
                if verbatim {
                    None
                } else {
                    final_from(p, lo, i, windows, verbatim)
                }
            } else if component == seq!['.', '.'] {
                None
            } else {
                Some(component)
            }
        } else {
            None
        }
    }
}

/// The final component of a path, as `Path::file_name` gives it: after the
/// prefix, the last component that is neither empty nor `.`, unless that is
/// `..`; in a verbatim path `/` is no separator and a final `.` is no name.
pub open spec fn final_component(p: Seq<char>, windows: bool) -> Option<Seq<char>> {
    final_from(p, prefix_len(p, windows), p.len() as int, windows, is_verbatim(p, windows))
}

proof fn lemma_component_start(p: Seq<char>, lo: int, j: int, windows: bool, verbatim: bool)
    requires
        lo <= j <= p.len(),
    ensures
        lo <= component_start(p, lo, j, windows, verbatim) <= j,
        forall|m: int|
            component_start(p, lo, j, windows, verbatim) <= m < j ==> !is_path_separator(
                #[trigger] p[m],
                windows,
                verbatim,
            ),
    decreases j - lo,
{
    if lo < j && !is_path_separator(p[j - 1], windows, verbatim) {
        lemma_component_start(p, lo, j - 1, windows, verbatim);
    }
}

proof fn lemma_component_end(p: Seq<char>, i: int, verbatim: bool)
    requires
        0 <= i <= p.len(),
    ensures
        i <= component_end(p, i, verbatim) <= p.len(),
    decreases p.len() - i,
{
    if i < p.len() && !is_path_separator(p[i], true, verbatim) {
        lemma_component_end(p, i + 1, verbatim);
    }
}

fn component_end_of(path: &Vec<char>, i: usize, verbatim: bool) -> (e: usize)
    requires
        i <= path@.len(),
    ensures
        e == component_end(path@, i as int, verbatim),
        i <= e <= path@.len(),
{
    proof {
        lemma_component_end(path@, i as int, verbatim);
    }
    let mut k: usize = i;
    while k < path.len() && !path_separator(path[k], true, verbatim)
        invariant
            i <= k <= path@.len(),
            component_end(path@, i as int, verbatim) == component_end(path@, k as int, verbatim),
        decreases path@.len() - k,
    {
        k = k + 1;
    }
    k
}

fn prefix_len_of(path: &Vec<char>, windows: bool) -> (n: usize)
    ensures
        n == prefix_len(path@, windows),
        n <= path@.len(),
{
    let p = path;
    if !windows {
        return 0;
    }
    if p.len() >= 2 && path_separator(p[0], true, false) && path_separator(p[1], true, false) {
        if p.len() >= 4 && p[0] == '\\' && p[1] == '\\' && p[2] == '?' && p[3] == '\\' {
            if p.len() >= 8 && p[4] == 'U' && p[5] == 'N' && p[6] == 'C' && path_separator(
                p[7],
                true,
                false,
            ) {
                let server_end: usize = component_end_of(p, 8, true);
                if server_end < p.len() {
                    let share_end: usize = component_end_of(p, server_end + 1, true);
                    if share_end > server_end + 1 {
                        return share_end;
                    }
                }
                server_end
            } else {
                component_end_of(p, 4, true)
            }
        } else if p.len() >= 4 && p[2] == '.' && path_separator(p[3], true, false) {
            component_end_of(p, 4, false)
        } else {
            let server_end: usize = component_end_of(p, 2, false);
            if 2 < server_end && server_end < p.len() {
                let share_end: usize = component_end_of(p, server_end + 1, false);
                if share_end > server_end + 1 {
                    return share_end;
                }
            }
            0
        }
    } else if p.len() >= 2 && p[1] == ':' && (('a' <= p[0] && p[0] <= 'z') || ('A' <= p[0]
        && p[0] <= 'Z')) {
        2
    } else {
        0
    }
}

/// The final component of `path`, with Unix or Windows path rules.
pub fn final_component_of(path: &Vec<char>, windows: bool) -> (name: Option<Vec<char>>)
    ensures
        match name {
            Some(n) => final_component(path@, windows) == Some(n@),
            None => final_component(path@, windows).is_none(),
        },
{
    let ghost p = path@;
    let lo: usize = prefix_len_of(path, windows);
    let verbatim: bool = windows && path.len() >= 4 && path[0] == '\\' && path[1] == '\\'
        && path[2] == '?' && path[3] == '\\';
    assert(verbatim == is_verbatim(p, windows));
    let mut j: usize = path.len();
    while j > lo
        invariant
            p == path@,
            lo <= j <= p.len(),
            lo == prefix_len(p, windows),
            verbatim == is_verbatim(p, windows),
            final_component(p, windows) == final_from(p, lo as int, j as int, windows, verbatim),
        decreases j,
    {
        if path_separator(path[j - 1], windows, verbatim) {
            j = j - 1;
        } else {
            let mut i: usize = j - 1;
            while i > lo && !path_separator(path[i - 1], windows, verbatim)
                invariant
                    lo <= i < j <= p.len(),
                    p == path@,
                    component_start(p, lo as int, j as int, windows, verbatim) == component_start(
                        p,
                        lo as int,
                        i as int,
                        windows,
                        verbatim,
                    ),
                    forall|m: int|
                        i <= m < j ==> !is_path_separator(#[trigger] p[m], windows, verbatim),
                decreases i,
            {
                i = i - 1;
            }
            assert(component_start(p, lo as int, i as int, windows, verbatim) == i);
            let len: usize = j - i;
            if len == 1 && path[i] == '.' {
                assert(p.subrange(i as int, j as int) =~= seq!['.']);
                if verbatim {
                    return None;
                }
                j = i;
            } else if len == 2 && path[i] == '.' && path[i + 1] == '.' {
                assert(p.subrange(i as int, j as int) =~= seq!['.', '.']);
                return None;
            } else {
                let mut out: Vec<char> = Vec::new();
                let mut m: usize = i;
                while m < j
                    invariant
                        i <= m <= j <= p.len(),
                        p == path@,
                        out@ == p.subrange(i as int, m as int),
                    decreases j - m,
                {
                    out.push(path[m]);
                    m = m + 1;
                    assert(out@ =~= p.subrange(i as int, m as int));
                }
                proof {
                    if len == 1 {
                        assert(out@ != seq!['.']) by {
                            assert(out@[0] != '.');
                        }
                    } else if len == 2 {
                        assert(out@ != seq!['.', '.']) by {
                            assert(out@[0] != '.' || out@[1] != '.');
                        }
                    }
                }
                return Some(out);
            }
        }
    }
    None
}

/// `path` with every `/` written as `\`.
pub open spec fn backslashed(p: Seq<char>) -> Seq<char> {
    Seq::new(p.len(), |i: int| if p[i] == '/' { '\\' } else { p[i] })
}

fn to_backslashes(chars: &Vec<char>) -> (out: Vec<char>)
    ensures
        out@ == backslashed(chars@),
{
    let mut out: Vec<char> = Vec::new();
    let mut k: usize = 0;
    while k < chars.len()
        invariant
            k <= chars@.len(),
            out@ == backslashed(chars@).take(k as int),
        decreases chars@.len() - k,
    {
        let c: char = chars[k];
        out.push(if c == '/' { '\\' } else { c });
        k = k + 1;
        assert(out@ =~= backslashed(chars@).take(k as int));
    }
    assert(backslashed(chars@).take(chars@.len() as int) =~= backslashed(chars@));
    out
}

/// The text whose digest identifies a project: the directory itself, or on
/// Windows the directory with backslashes, lowercased.
pub open spec fn project_key(cwd: Seq<char>, windows: bool) -> Seq<char> {
    if windows {
        crate::text::unicode_lowercase(backslashed(cwd))
    } else {
        cwd
    }
}

/// The text whose digest identifies the project in `cwd`.
pub fn project_key_text(cwd: &str, windows: bool) -> (key: String)
    ensures
        key@ == project_key(cwd@, windows),
{
    if windows {
        let chars: Vec<char> = crate::text::chars_of(cwd);
        let slashed: Vec<char> = to_backslashes(&chars);
        let text: String = crate::text::string_from_chars(slashed.as_slice());
        crate::text::to_lowercase(text.as_str())
    } else {
        cwd.to_owned()
    }
}

} // verus!
