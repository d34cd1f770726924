//! Identifiers that the parser keeps: sanitized text and skill names.
use vstd::prelude::*;

use crate::text::{
    ascii_lower, byte_len, chars_of, control_char, is_control_char, lower_ascii, str_eq,
    string_from_chars, trim_chars, trimmed,
};

verus! {

/// The longest identifier that is kept, in bytes.
pub const MAX_IDENTIFIER_LENGTH: usize = 256;

/// An identifier is kept trimmed, when it is not empty, takes at most 256
/// bytes and holds no control character.
pub open spec fn sanitized_identifier(s: Seq<char>) -> Option<Seq<char>> {
    let t = trimmed(s);
    if t.len() > 0 && byte_len(t) <= 256 && (forall|i: int|
        0 <= i < t.len() ==> !is_control_char(#[trigger] t[i])) {
        Some(t)
    } else {
        None
    }
}

/// `text` holds exactly the characters `expected`, or both are absent.
pub open spec fn text_matches(text: Option<String>, expected: Option<Seq<char>>) -> bool {
    match (text, expected) {
        (Some(t), Some(e)) => t@ == e,
        (None, None) => true,
        _ => false,
    }
}

#[verifier::loop_isolation(false)]
pub fn sanitize_identifier(value: Option<&str>) -> (kept: Option<String>)
    ensures
        text_matches(
            kept,
            match value {
                Some(v) => sanitized_identifier(v@),
                None => None,
            },
        ),
{
    let value: &str = match value {
        Some(v) => v,
        None => {
            return None;
        },
    };
    let chars: Vec<char> = chars_of(value);
    let t: Vec<char> = trim_chars(&chars);
    if t.len() == 0 {
        return None;
    }
    let text: String = string_from_chars(t.as_slice());
    if text.as_str().len() > MAX_IDENTIFIER_LENGTH {
        return None;
    }
    let mut k: usize = 0;
    while k < t.len()
        invariant
            k <= t@.len(),
            forall|i: int| 0 <= i < k ==> !is_control_char(#[trigger] t@[i]),
        decreases t@.len() - k,
    {
        if control_char(t[k]) {
            assert(!(forall|i: int| 0 <= i < t@.len() ==> !is_control_char(#[trigger] t@[i])));
            return None;
        }
        k = k + 1;
    }
    Some(text)
}

pub open spec fn is_skill_char(c: char) -> bool {
    ('a' <= c <= 'z') || ('A' <= c <= 'Z') || ('0' <= c <= '9') || c == '-' || c == '_' || c
        == ':' || c == '.'
}

/// A skill name is a sanitized identifier made of ASCII letters, digits and `-_:.`.
pub open spec fn sanitized_skill_name(s: Seq<char>) -> Option<Seq<char>> {
    match sanitized_identifier(s) {
        Some(t) => if forall|i: int| 0 <= i < t.len() ==> is_skill_char(#[trigger] t[i]) {
            Some(t)
        } else {
            None
        },
        None => None,
    }
}

fn skill_char(c: char) -> (r: bool)
    ensures
        r == is_skill_char(c),
{
    ('a' <= c && c <= 'z') || ('A' <= c && c <= 'Z') || ('0' <= c && c <= '9') || c == '-' || c
        == '_' || c == ':' || c == '.'
}

#[verifier::loop_isolation(false)]
pub fn sanitize_skill_name(value: Option<&str>) -> (kept: Option<String>)
    ensures
        text_matches(
            kept,
            match value {
                Some(v) => sanitized_skill_name(v@),
                None => None,
            },
        ),
{
    let text: String = match sanitize_identifier(value) {
        Some(t) => t,
        None => {
            return None;
        },
    };
    let chars: Vec<char> = chars_of(text.as_str());
    let mut k: usize = 0;
    while k < chars.len()
        invariant
            k <= chars@.len(),
            forall|i: int| 0 <= i < k ==> is_skill_char(#[trigger] chars@[i]),
        decreases chars@.len() - k,
    {
        if !skill_char(chars[k]) {
            assert(!(forall|i: int| 0 <= i < chars@.len() ==> is_skill_char(#[trigger] chars@[i])));
            return None;
        }
        k = k + 1;
    }
    Some(text)
}

/// The skill names whose spelling is fixed: any capitalization of them reads as this one.
pub open spec fn known_skill(s: Seq<char>) -> bool {
    ||| s == "frontend-app-builder"@
    ||| s == "imagegen"@
    ||| s == "product-design:image-to-code"@
    ||| s == "impeccable"@
    ||| s == "vue-best-practices"@
    ||| s == "visualize"@
    ||| s == "lanshu-animated-architecture-diagram"@
    ||| s == "control-in-app-browser"@
    ||| s == "openai-docs"@
    ||| s == "data-visualization"@
    ||| s == "visual-verdict"@
    ||| s == "vue-testing-best-practices"@
}

fn is_known_skill(s: &str) -> (r: bool)
    ensures
        r == known_skill(s@),
{
    str_eq(s, "frontend-app-builder") || str_eq(s, "imagegen") || str_eq(
        s,
        "product-design:image-to-code",
    ) || str_eq(s, "impeccable") || str_eq(s, "vue-best-practices") || str_eq(s, "visualize")
        || str_eq(s, "lanshu-animated-architecture-diagram") || str_eq(
        s,
        "control-in-app-browser",
    ) || str_eq(s, "openai-docs") || str_eq(s, "data-visualization") || str_eq(
        s,
        "visual-verdict",
    ) || str_eq(s, "vue-testing-best-practices")
}

/// The canonical name of a skill: the trimmed text, in the fixed spelling
/// when it is a known skill, kept only as a valid skill name.
pub open spec fn canonical_skill(value: Seq<char>) -> Option<Seq<char>> {
    let v = trimmed(value);
    if v.len() == 0 || byte_len(v) > 256 {
        None
    } else if known_skill(ascii_lower(v)) {
        sanitized_skill_name(ascii_lower(v))
    } else {
        sanitized_skill_name(v)
    }
}

pub fn canonical_skill_name(value: &str) -> (name: Option<String>)
    ensures
        text_matches(name, canonical_skill(value@)),
{
    let chars: Vec<char> = chars_of(value);
    let v: Vec<char> = trim_chars(&chars);
    let text: String = string_from_chars(v.as_slice());
    if v.len() == 0 || text.as_str().len() > MAX_IDENTIFIER_LENGTH {
        return None;
    }
    let lower: Vec<char> = lower_ascii(&v);
    let lower_text: String = string_from_chars(lower.as_slice());
    if is_known_skill(lower_text.as_str()) {
        sanitize_skill_name(Some(lower_text.as_str()))
    } else {
        sanitize_skill_name(Some(text.as_str()))
    }
}

/// `pat` stands in `s` at index `i`.
pub open spec fn occurs_at(s: Seq<char>, pat: Seq<char>, i: int) -> bool {
    0 <= i && i + pat.len() <= s.len() && s.subrange(i, i + pat.len()) == pat
}

/// The last index below `k` at which `pat` stands in `s`.
pub open spec fn rfind_below(s: Seq<char>, pat: Seq<char>, k: int) -> Option<int>
    decreases k,
{
    if k <= 0 {
        None
    } else if occurs_at(s, pat, k - 1) {
        Some(k - 1)
    } else {
        rfind_below(s, pat, k - 1)
    }
}

/// The last index at which `pat` stands in `s`, as `str::rfind` finds it.
pub open spec fn rfind(s: Seq<char>, pat: Seq<char>) -> Option<int> {
    rfind_below(s, pat, s.len() as int + 1)
}

proof fn lemma_rfind_below_bounds(s: Seq<char>, pat: Seq<char>, k: int)
    ensures
        rfind_below(s, pat, k) matches Some(i) ==> 0 <= i < k && occurs_at(s, pat, i),
    decreases k,
{
    if k > 0 && !occurs_at(s, pat, k - 1) {
        lemma_rfind_below_bounds(s, pat, k - 1);
    }
}

#[verifier::loop_isolation(false)]
fn occurs_at_exec(s: &Vec<char>, pat: &Vec<char>, i: usize) -> (r: bool)
    ensures
        r == occurs_at(s@, pat@, i as int),
{
    if i > s.len() || pat.len() > s.len() - i {
        return false;
    }
    let mut k: usize = 0;
    while k < pat.len()
        invariant
            i <= s@.len(),
            i + pat@.len() <= s@.len(),
            k <= pat@.len(),
            forall|m: int| 0 <= m < k ==> s@[i + m] == pat@[m],
        decreases pat@.len() - k,
    {
        if s[i + k] != pat[k] {
            assert(s@.subrange(i as int, i + pat@.len())[k as int] != pat@[k as int]);
            return false;
        }
        k = k + 1;
    }
    assert(s@.subrange(i as int, i + pat@.len()) =~= pat@);
    true
}

pub fn rfind_chars(s: &Vec<char>, pat: &Vec<char>) -> (found: Option<usize>)
    ensures
        match found {
            Some(i) => rfind(s@, pat@) == Some(i as int),
            None => rfind(s@, pat@).is_none(),
        },
{
    let mut k: usize = s.len();
    // `k + 1` is the bound below which the search goes on.
    loop
        invariant
            k <= s@.len(),
            rfind(s@, pat@) == rfind_below(s@, pat@, k + 1),
        decreases k,
    {
        if occurs_at_exec(s, pat, k) {
            return Some(k);
        }
        if k == 0 {
            assert(rfind_below(s@, pat@, 0).is_none());
            return None;
        }
        k = k - 1;
    }
}

fn literal_chars(text: &str) -> (chars: Vec<char>)
    ensures
        chars@ == text@,
{
    chars_of(text)
}

/// `s` with backslashes written as slashes.
pub open spec fn forward_slashes(s: Seq<char>) -> Seq<char> {
    Seq::new(s.len(), |i: int| if s[i] == '\\' { '/' } else { s[i] })
}

fn to_forward_slashes(chars: &Vec<char>) -> (out: Vec<char>)
    ensures
        out@ == forward_slashes(chars@),
{
    let mut out: Vec<char> = Vec::new();
    let mut k: usize = 0;
    while k < chars.len()
        invariant
            k <= chars@.len(),
            out@ == forward_slashes(chars@).take(k as int),
        decreases chars@.len() - k,
    {
        let c: char = chars[k];
        out.push(if c == '\\' { '/' } else { c });
        k = k + 1;
        assert(out@ =~= forward_slashes(chars@).take(k as int));
    }
    assert(forward_slashes(chars@).take(chars@.len() as int) =~= forward_slashes(chars@));
    out
}

fn slice_chars(chars: &Vec<char>, from: usize, to: usize) -> (out: Vec<char>)
    requires
        from <= to <= chars@.len(),
    ensures
        out@ == chars@.subrange(from as int, to as int),
{
    let mut out: Vec<char> = Vec::new();
    let mut k: usize = from;
    while k < to
        invariant
            from <= k <= to <= chars@.len(),
            out@ == chars@.subrange(from as int, k as int),
        decreases to - k,
    {
        out.push(chars[k]);
        k = k + 1;
        assert(out@ =~= chars@.subrange(from as int, k as int));
    }
    out
}

/// The second-to-last `/`-separated segment of `p`, when `p` has at least three segments.
pub open spec fn plugin_segment(p: Seq<char>) -> Option<Seq<char>> {
    match rfind(p, seq!['/']) {
        Some(j) => match rfind(p.subrange(0, j), seq!['/']) {
            Some(i) => Some(p.subrange(i + 1, j)),
            None => None,
        },
        None => None,
    }
}

/// The skill that a path to a `SKILL.md` names: the directory right below
/// the last `/skills/`, prefixed with `product-design:` for that plugin's
/// cached skills, then canonicalized.
pub open spec fn skill_from_path(value: Seq<char>) -> Option<Seq<char>> {
    let n = forward_slashes(value);
    let l = ascii_lower(n);
    match rfind(l, "/skills/"@) {
        None => None,
        Some(m) => {
            let start = m + 8;
            let suffix = l.subrange(start, l.len() as int);
            if !(suffix.len() >= 9 && suffix.subrange(suffix.len() - 9, suffix.len() as int)
                == "/skill.md"@) {
                None
            } else {
                let end_len = suffix.len() - 9;
                if end_len == 0 || suffix.subrange(0, end_len).contains('/') {
                    None
                } else {
                    let skill = n.subrange(start, start + end_len);
                    let name = match rfind(l.subrange(0, m), "/plugins/cache/"@) {
                        Some(c) => if plugin_segment(n.subrange(c + 15, m)) == Some(
                            "product-design"@,
                        ) {
                            "product-design:"@ + skill
                        } else {
                            skill
                        },
                        None => skill,
                    };
                    canonical_skill(name)
                }
            }
        },
    }
}

fn contains_char(chars: &Vec<char>, from: usize, to: usize, c: char) -> (r: bool)
    requires
        from <= to <= chars@.len(),
    ensures
        r == chars@.subrange(from as int, to as int).contains(c),
{
    let mut k: usize = from;
    while k < to
        invariant
            from <= k <= to <= chars@.len(),
            forall|m: int| from <= m < k ==> chars@[m] != c,
        decreases to - k,
    {
        if chars[k] == c {
            assert(chars@.subrange(from as int, to as int)[k - from] == c);
            return true;
        }
        k = k + 1;
    }
    false
}

fn plugin_segment_exec(p: &Vec<char>) -> (segment: Option<Vec<char>>)
    ensures
        match segment {
            Some(s) => plugin_segment(p@) == Some(s@),
            None => plugin_segment(p@).is_none(),
        },
{
    let slash: Vec<char> = literal_chars("/");
    proof {
        reveal_strlit("/");
        assert(slash@ =~= seq!['/']);
    }
    match rfind_chars(p, &slash) {
        Some(j) => {
            proof {
                lemma_rfind_below_bounds(p@, slash@, p@.len() as int + 1);
            }
            let head: Vec<char> = slice_chars(p, 0, j);
            match rfind_chars(&head, &slash) {
                Some(i) => {
                    proof {
                        lemma_rfind_below_bounds(head@, slash@, head@.len() as int + 1);
                    }
                    Some(slice_chars(p, i + 1, j))
                },
                None => None,
            }
        },
        None => None,
    }
}

/// The skill that a path names, if it names one.
pub fn skill_name_from_path(value: &Vec<char>) -> (name: Option<String>)
    ensures
        text_matches(name, skill_from_path(value@)),
{
    let n: Vec<char> = to_forward_slashes(value);
    let l: Vec<char> = lower_ascii(&n);
    let skills_marker: Vec<char> = literal_chars("/skills/");
    let skill_md: Vec<char> = literal_chars("/skill.md");
    let cache_marker: Vec<char> = literal_chars("/plugins/cache/");
    proof {
        reveal_strlit("/skills/");
        reveal_strlit("/skill.md");
        reveal_strlit("/plugins/cache/");
    }
    let found: Option<usize> = rfind_chars(&l, &skills_marker);
    let m: usize = match found {
        Some(m) => m,
        None => {
            return None;
        },
    };
    proof {
        lemma_rfind_below_bounds(l@, skills_marker@, l@.len() as int + 1);
        assert(skills_marker@.len() == 8);
        assert(skill_md@.len() == 9);
        assert(cache_marker@.len() == 15);
        assert(rfind(l@, skills_marker@) == Some(m as int));
        assert(occurs_at(l@, skills_marker@, m as int));
        assert(m + 8 <= l@.len());
    }
    assert(l@.len() == l.len());
    let start: usize = m + 8;
    let suffix_len: usize = l.len() - start;
    if !(suffix_len >= 9 && occurs_at_exec(&l, &skill_md, l.len() - 9)) {
        proof {
            let suffix = l@.subrange(start as int, l@.len() as int);
            if suffix.len() >= 9 {
                assert(suffix.subrange(suffix.len() - 9, suffix.len() as int) =~= l@.subrange(
                    l@.len() - 9,
                    l@.len() as int,
                ));
            }
        }
        return None;
    }
    let end_len: usize = suffix_len - 9;
    proof {
        let suffix = l@.subrange(start as int, l@.len() as int);
        assert(suffix.subrange(suffix.len() - 9, suffix.len() as int) =~= l@.subrange(
            l@.len() - 9,
            l@.len() as int,
        ));
        assert(suffix.subrange(0, end_len as int) =~= l@.subrange(
            start as int,
            start + end_len,
        ));
    }
    if end_len == 0 || contains_char(&l, start, start + end_len, '/') {
        return None;
    }
    let skill: Vec<char> = slice_chars(&n, start, start + end_len);
    let prefix: Vec<char> = slice_chars(&l, 0, m);
    let name: Vec<char> = match rfind_chars(&prefix, &cache_marker) {
        Some(c) => {
            proof {
                lemma_rfind_below_bounds(prefix@, cache_marker@, prefix@.len() as int + 1);
            }
            let plugin_prefix: Vec<char> = slice_chars(&n, c + 15, m);
            let is_product_design: bool = match plugin_segment_exec(&plugin_prefix) {
                Some(segment) => {
                    let segment_text: String = string_from_chars(segment.as_slice());
                    str_eq(segment_text.as_str(), "product-design")
                },
                None => false,
            };
            if is_product_design {
                let mut joined: Vec<char> = literal_chars("product-design:");
                let mut k: usize = 0;
                let ghost head = joined@;
                while k < skill.len()
                    invariant
                        k <= skill@.len(),
                        joined@ == head + skill@.take(k as int),
                    decreases skill@.len() - k,
                {
                    joined.push(skill[k]);
                    k = k + 1;
                    assert(joined@ =~= head + skill@.take(k as int));
                }
                assert(skill@.take(skill@.len() as int) =~= skill@);
                joined
            } else {
                skill
            }
        },
        None => skill,
    };
    let name_text: String = string_from_chars(name.as_slice());
    canonical_skill_name(name_text.as_str())
}

} // verus!
