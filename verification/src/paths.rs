//! Filtering of file paths by markdown extension, case-insensitively.

use vstd::prelude::*;
use vstd::string::StrSliceExecFns;

verus! {

/// The last `/`-separated component of `s`, read off the raw characters:
/// empty when `s` ends in a separator.
pub open spec fn last_component(s: Seq<char>) -> Seq<char>
    decreases s.len(),
{
    if s.len() == 0 {
        Seq::empty()
    } else if s.last() == '/' {
        Seq::empty()
    } else {
        last_component(s.drop_last()).push(s.last())
    }
}

/// Whether `s` ends in a bare `.` component, which names its own directory
/// rather than a file.
pub open spec fn ends_in_dot_component(s: Seq<char>) -> bool {
    s.len() > 0 && s.last() == '.' && (s.len() == 1 || s[s.len() - 2] == '/')
}

/// The file name of a path, as std's `Path` reads it: trailing separators
/// and bare `.` components are ignored, and the component that then ends
/// the path is the name.
pub open spec fn file_name(s: Seq<char>) -> Seq<char>
    decreases s.len(),
{
    if s.len() == 0 {
        Seq::empty()
    } else if s.last() == '/' || ends_in_dot_component(s) {
        file_name(s.drop_last())
    } else {
        last_component(s)
    }
}

/// The extension of a file name: the characters after its last dot, possibly
/// none at all.  A name without a dot has no extension, and neither has one
/// whose only dot leads it (a hidden file).
pub open spec fn extension_of(name: Seq<char>) -> Option<Seq<char>>
    decreases name.len(),
{
    if name.len() <= 1 {
        None
    } else if name.last() == '.' {
        Some(Seq::empty())
    } else {
        match extension_of(name.drop_last()) {
            Some(e) => Some(e.push(name.last())),
            None => None,
        }
    }
}

/// `c` with an ASCII capital letter taken to its small form, as a code
/// point; other characters are left alone.
pub open spec fn lower_ascii(c: char) -> u32 {
    let u = c as u32;
    if 0x41 <= u && u <= 0x5a {
        (u + 0x20) as u32
    } else {
        u
    }
}

/// Equality of two strings up to ASCII case.
pub open spec fn eq_ignore_ascii_case(a: Seq<char>, b: Seq<char>) -> bool {
    a.len() == b.len() && forall|i: int|
        0 <= i < a.len() ==> lower_ascii(#[trigger] a[i]) == lower_ascii(b[i])
}

/// An extension that marks a markdown file.
pub open spec fn is_md_extension(e: Seq<char>) -> bool {
    eq_ignore_ascii_case(e, "md"@) || eq_ignore_ascii_case(e, "markdown"@)
}

/// Whether the path names a markdown file: its file name has an extension
/// that equals `md` or `markdown` up to ASCII case.
pub open spec fn spec_is_markdown_file(path: Seq<char>) -> bool {
    match extension_of(file_name(path)) {
        Some(e) => is_md_extension(e),
        None => false,
    }
}

proof fn lemma_last_component_suffix(s: Seq<char>, k: int)
    requires
        0 <= k <= s.len(),
        forall|i: int| k <= i < s.len() ==> s[i] != '/',
        k > 0 ==> s[k - 1] == '/',
    ensures
        last_component(s) == s.subrange(k, s.len() as int),
    decreases s.len(),
{
    if s.len() == 0 {
        assert(last_component(s) =~= s.subrange(k, s.len() as int));
    } else if s.last() == '/' {
        assert(k == s.len());
        assert(last_component(s) =~= s.subrange(k, s.len() as int));
    } else {
        assert(k < s.len());
        lemma_last_component_suffix(s.drop_last(), k);
        assert(last_component(s) =~= s.subrange(k, s.len() as int));
    }
}

proof fn lemma_extension_at(name: Seq<char>, p: int)
    requires
        0 < p < name.len(),
        name[p] == '.',
        forall|i: int| p < i < name.len() ==> name[i] != '.',
    ensures
        extension_of(name) == Some(name.subrange(p + 1, name.len() as int)),
    decreases name.len(),
{
    if p == name.len() - 1 {
        assert(name.last() == '.');
        assert(name.subrange(p + 1, name.len() as int) =~= Seq::<char>::empty());
    } else {
        assert(name.last() != '.');
        assert(name.len() > 1);
        lemma_extension_at(name.drop_last(), p);
        assert(name.subrange(p + 1, name.len() as int) =~= name.drop_last().subrange(
            p + 1,
            name.len() - 1,
        ).push(name.last()));
    }
}

proof fn lemma_no_extension(name: Seq<char>)
    requires
        forall|i: int| 0 < i < name.len() ==> name[i] != '.',
    ensures
        extension_of(name) is None,
    decreases name.len(),
{
    if name.len() <= 1 {
    } else {
        assert(name.last() != '.');
        lemma_no_extension(name.drop_last());
    }
}

fn lower_ascii_exec(c: char) -> (r: u32)
    ensures
        r == lower_ascii(c),
{
    let u = c as u32;
    if 0x41 <= u && u <= 0x5a {
        u + 0x20
    } else {
        u
    }
}

/// Whether the path names a markdown file: after trailing separators and
/// bare `.` components, its final `/`-separated component carries an `md`
/// or `markdown` extension, compared without regard to ASCII case.
#[verifier::rlimit(60)]
pub fn is_markdown_file(path: &str) -> (r: bool)
    ensures
        r == spec_is_markdown_file(path@),
{
    let n = path.unicode_len();
    let mut end: usize = n;
    let mut stripping: bool = true;
    proof {
        assert(path@.take(n as int) =~= path@);
    }
    while stripping && end > 0
        invariant
            n == path@.len(),
            end <= n,
            file_name(path@.take(end as int)) == file_name(path@),
            !stripping ==> end > 0 && path@[end - 1] != '/' && !ends_in_dot_component(
                path@.take(end as int),
            ),
        decreases end, (if stripping { 1int } else { 0int }),
    {
        let c = path.get_char(end - 1);
        let dot_component = c == '.' && (end == 1 || path.get_char(end - 2) == '/');
        proof {
            assert(path@.take(end as int).last() == path@[end - 1]);
            assert(ends_in_dot_component(path@.take(end as int)) == dot_component);
        }
        if c == '/' || dot_component {
            proof {
                assert(path@.take(end as int).drop_last() =~= path@.take(end - 1));
            }
            end -= 1;
        } else {
            stripping = false;
        }
    }
    if end == 0 {
        proof {
            assert(path@.take(0) =~= Seq::<char>::empty());
            lemma_no_extension(Seq::<char>::empty());
        }
        return false;
    }
    let ghost stripped = path@.take(end as int);
    proof {
        assert(file_name(stripped) == last_component(stripped));
    }
    let mut start: usize = 0;
    let mut i: usize = 0;
    while i < end
        invariant
            n == path@.len(),
            end <= n,
            start <= i <= end,
            forall|t: int| start <= t < i ==> path@[t] != '/',
            start > 0 ==> path@[start - 1] == '/',
        decreases end - i,
    {
        if path.get_char(i) == '/' {
            start = i + 1;
        }
        i += 1;
    }
    proof {
        lemma_last_component_suffix(stripped, start as int);
        assert(stripped.subrange(start as int, end as int) =~= path@.subrange(
            start as int,
            end as int,
        ));
    }
    let ghost name = path@.subrange(start as int, end as int);
    let mut has_dot: bool = false;
    let mut dot: usize = 0;
    let mut j: usize = start;
    while j < end
        invariant
            n == path@.len(),
            end <= n,
            start <= j <= end,
            has_dot ==> start <= dot < j && path@[dot as int] == '.',
            has_dot ==> forall|t: int| dot < t < j ==> path@[t] != '.',
            !has_dot ==> forall|t: int| start <= t < j ==> path@[t] != '.',
        decreases end - j,
    {
        if path.get_char(j) == '.' {
            has_dot = true;
            dot = j;
        }
        j += 1;
    }
    if !has_dot || dot == start {
        proof {
            lemma_no_extension(name);
        }
        return false;
    }
    proof {
        lemma_extension_at(name, dot - start);
        assert(name.subrange(dot - start + 1, name.len() as int) =~= path@.subrange(
            dot + 1,
            end as int,
        ));
    }
    let ghost ext = path@.subrange(dot + 1, end as int);
    let ext_len = end - (dot + 1);
    proof {
        reveal_strlit("md");
        reveal_strlit("markdown");
    }
    if ext_len == 2 {
        let c0 = lower_ascii_exec(path.get_char(dot + 1));
        let c1 = lower_ascii_exec(path.get_char(dot + 2));
        let r = c0 == 0x6d && c1 == 0x64;
        proof {
            assert(ext.len() == 2);
            assert(ext[0] == path@[dot + 1]);
            assert(ext[1] == path@[dot + 2]);
            assert(!eq_ignore_ascii_case(ext, "markdown"@));
            if r {
                assert(eq_ignore_ascii_case(ext, "md"@));
            } else {
                assert(!eq_ignore_ascii_case(ext, "md"@));
            }
        }
        r
    } else if ext_len == 8 {
        let c0 = lower_ascii_exec(path.get_char(dot + 1));
        let c1 = lower_ascii_exec(path.get_char(dot + 2));
        let c2 = lower_ascii_exec(path.get_char(dot + 3));
        let c3 = lower_ascii_exec(path.get_char(dot + 4));
        let c4 = lower_ascii_exec(path.get_char(dot + 5));
        let c5 = lower_ascii_exec(path.get_char(dot + 6));
        let c6 = lower_ascii_exec(path.get_char(dot + 7));
        let c7 = lower_ascii_exec(path.get_char(dot + 8));
        let r = c0 == 0x6d && c1 == 0x61 && c2 == 0x72 && c3 == 0x6b && c4 == 0x64 && c5 == 0x6f
            && c6 == 0x77 && c7 == 0x6e;
        proof {
            assert(ext.len() == 8);
            assert(forall|t: int| 0 <= t < 8 ==> #[trigger] ext[t] == path@[dot + 1 + t]);
            assert(lower_ascii(ext[0]) == c0);
            assert(lower_ascii(ext[1]) == c1);
            assert(lower_ascii(ext[2]) == c2);
            assert(lower_ascii(ext[3]) == c3);
            assert(lower_ascii(ext[4]) == c4);
            assert(lower_ascii(ext[5]) == c5);
            assert(lower_ascii(ext[6]) == c6);
            assert(lower_ascii(ext[7]) == c7);
            assert(!eq_ignore_ascii_case(ext, "md"@));
            if r {
                assert(eq_ignore_ascii_case(ext, "markdown"@));
            } else {
                assert(!eq_ignore_ascii_case(ext, "markdown"@));
            }
        }
        r
    } else {
        proof {
            assert(!eq_ignore_ascii_case(ext, "md"@));
            assert(!eq_ignore_ascii_case(ext, "markdown"@));
        }
        false
    }
}

} // verus!
