//! Character-level string utilities the dispatch pipeline's contracts are
//! stated with: ASCII case folding, substring search, blank detection, path
//! containment, extensions, and template substitution.

use vstd::prelude::*;

verus! {

/// Code point of `c` with an ASCII upper-case letter folded to lower case.
pub open spec fn lower_code(c: char) -> u32 {
    if 65 <= c as u32 && c as u32 <= 90 {
        (c as u32 + 32) as u32
    } else {
        c as u32
    }
}

/// Case-insensitive equality of two character sequences (ASCII folding).
pub open spec fn ieq(a: Seq<char>, b: Seq<char>) -> bool {
    a.len() == b.len() && forall|i: int| 0 <= i < a.len() ==> lower_code(a[i]) == lower_code(b[i])
}

fn lower_code_exec(c: char) -> (r: u32)
    ensures
        r == lower_code(c),
{
    let n = c as u32;
    if 65 <= n && n <= 90 {
        n + 32
    } else {
        n
    }
}

/// Compares two strings ignoring ASCII case.
pub fn str_ieq(a: &str, b: &str) -> (r: bool)
    ensures
        r == ieq(a@, b@),
{
    let alen = a.unicode_len();
    let blen = b.unicode_len();
    if alen != blen {
        return false;
    }
    let mut i: usize = 0;
    while i < alen
        invariant
            alen == a@.len(),
            blen == b@.len(),
            alen == blen,
            i <= alen,
            forall|k: int| 0 <= k < i ==> lower_code(a@[k]) == lower_code(b@[k]),
        decreases alen - i,
    {
        let ca = a.get_char(i);
        let cb = b.get_char(i);
        if lower_code_exec(ca) != lower_code_exec(cb) {
            return false;
        }
        i = i + 1;
    }
    true
}

/// `p` occurs as a contiguous run of characters somewhere in `s`.
pub open spec fn has_substring(s: Seq<char>, p: Seq<char>) -> bool {
    exists|i: int| 0 <= i && i + p.len() <= s.len() && #[trigger] s.subrange(i, i + p.len() as int)
        == p
}

/// The path contains the ignore pattern as a substring.
pub fn path_matches_pattern(path: &str, pattern: &str) -> (r: bool)
    ensures
        r == has_substring(path@, pattern@),
{
    let slen = path.unicode_len();
    let plen = pattern.unicode_len();
    if plen > slen {
        assert(!has_substring(path@, pattern@));
        return false;
    }
    if plen == 0 {
        proof {
            assert(path@.subrange(0, 0 + pattern@.len() as int) =~= pattern@);
        }
        return true;
    }
    let bound = slen - plen;
    let mut i: usize = 0;
    while i <= bound
        invariant
            slen == path@.len(),
            plen == pattern@.len(),
            1 <= plen <= slen,
            bound == slen - plen,
            i <= bound + 1,
            forall|k: int|
                0 <= k < i ==> #[trigger] path@.subrange(k, k + plen as int) != pattern@,
        decreases bound + 1 - i,
    {
        let mut j: usize = 0;
        let mut mismatch = false;
        while j < plen
            invariant
                slen == path@.len(),
                plen == pattern@.len(),
                plen <= slen,
                i + plen <= slen,
                j <= plen,
                !mismatch ==> forall|k: int| 0 <= k < j ==> path@[i + k] == pattern@[k],
                mismatch ==> path@.subrange(i as int, i + plen as int) != pattern@,
            decreases plen - j,
        {
            let ca = path.get_char(i + j);
            let cb = pattern.get_char(j);
            if ca != cb {
                proof {
                    let sub = path@.subrange(i as int, i + plen as int);
                    assert(sub[j as int] == path@[i + j]);
                }
                mismatch = true;
                j = plen;
            } else {
                j = j + 1;
            }
        }
        if !mismatch {
            proof {
                let sub = path@.subrange(i as int, i + plen as int);
                assert(sub =~= pattern@);
            }
            return true;
        }
        i = i + 1;
    }
    assert forall|k: int| 0 <= k && k + pattern@.len() <= path@.len() implies #[trigger] path@.subrange(
        k,
        k + pattern@.len() as int,
    ) != pattern@ by {
        assert(k < i);
    }
    false
}

/// ASCII whitespace, the characters `str::trim` strips from command text.
pub open spec fn is_space(c: char) -> bool {
    c == ' ' || c == '\t' || c == '\n' || c == '\r' || c as u32 == 11 || c as u32 == 12
}

/// Every character of `s` is whitespace (an empty `s` is blank).
pub open spec fn is_blank(s: Seq<char>) -> bool {
    forall|i: int| 0 <= i < s.len() ==> is_space(#[trigger] s[i])
}

/// Nothing but whitespace in `s`: trimming it would leave the empty string.
pub fn str_is_blank(s: &str) -> (r: bool)
    ensures
        r == is_blank(s@),
{
    let n = s.unicode_len();
    let mut i: usize = 0;
    while i < n
        invariant
            n == s@.len(),
            i <= n,
            forall|k: int| 0 <= k < i ==> is_space(#[trigger] s@[k]),
        decreases n - i,
    {
        let c = s.get_char(i);
        let code = c as u32;
        if !(c == ' ' || c == '\t' || c == '\n' || c == '\r' || code == 11 || code == 12) {
            return false;
        }
        i = i + 1;
    }
    true
}

/// `p` names the root itself or something below it in the directory tree:
/// `p` equals `root`, or extends it with a path separator.
pub open spec fn path_descends(p: Seq<char>, root: Seq<char>) -> bool {
    ||| p == root
    ||| (root.len() < p.len() && p.subrange(0, root.len() as int) == root && p[root.len() as int]
        == '/')
}

/// Component-wise containment of `path` under `root` (roots carry no
/// trailing separator, as the resolver hands them over).
pub fn path_starts_at_root(path: &str, root: &str) -> (r: bool)
    ensures
        r == path_descends(path@, root@),
{
    let plen = path.unicode_len();
    let rlen = root.unicode_len();
    if plen < rlen {
        return false;
    }
    let mut i: usize = 0;
    while i < rlen
        invariant
            plen == path@.len(),
            rlen == root@.len(),
            rlen <= plen,
            i <= rlen,
            forall|k: int| 0 <= k < i ==> path@[k] == root@[k],
        decreases rlen - i,
    {
        if path.get_char(i) != root.get_char(i) {
            proof {
                assert(path@.subrange(0, root@.len() as int)[i as int] == path@[i as int]);
                assert(path@ == root@ ==> path@[i as int] == root@[i as int]);
            }
            return false;
        }
        i = i + 1;
    }
    if plen == rlen {
        proof {
            assert(path@ =~= root@);
        }
        true
    } else {
        proof {
            assert(path@.subrange(0, root@.len() as int) =~= root@);
        }
        path.get_char(rlen) == '/'
    }
}

/// The (possibly empty) run of characters after the last occurrence of `c`
/// in `s`; all of `s` when `c` does not occur.
pub open spec fn tail_after_last(s: Seq<char>, c: char) -> Seq<char>
    decreases s.len(),
{
    if s.len() == 0 {
        s
    } else if s[s.len() - 1] == c {
        Seq::empty()
    } else {
        tail_after_last(s.drop_last(), c).push(s[s.len() - 1])
    }
}

/// `tail_after_last` is the suffix that begins right after the last `c`:
/// if no `c` occurs at or past position `k`, and `k` is either the start
/// or preceded by `c`, the tail is exactly `s` from `k` on.
proof fn lemma_tail_after_last(s: Seq<char>, c: char, k: int)
    requires
        0 <= k <= s.len(),
        forall|i: int| k <= i < s.len() ==> s[i] != c,
        k > 0 ==> s[k - 1] == c,
    ensures
        tail_after_last(s, c) == s.subrange(k, s.len() as int),
    decreases s.len(),
{
    if s.len() == 0 {
        assert(tail_after_last(s, c) =~= s.subrange(k, s.len() as int));
    } else if s[s.len() - 1] == c {
        assert(k == s.len());
        assert(tail_after_last(s, c) =~= s.subrange(k, s.len() as int));
    } else {
        assert(k < s.len());
        let front = s.drop_last();
        assert(forall|i: int| k <= i < front.len() ==> front[i] != c);
        lemma_tail_after_last(front, c, k);
        assert(tail_after_last(s, c) =~= s.subrange(k, s.len() as int));
    }
}

/// A `.` occurs in `f` somewhere past its first character.
pub open spec fn has_dot_past_first(f: Seq<char>) -> bool {
    exists|i: int| 1 <= i < f.len() && f[i] == '.'
}

/// The extension of a path: the run after the last `.` of its file name
/// (the part after the last `/`), provided that `.` is not the file name's
/// first character. A name with no dot past its first character has none.
pub open spec fn extension_of(p: Seq<char>) -> Option<Seq<char>> {
    let f = tail_after_last(p, '/');
    if has_dot_past_first(f) {
        Some(tail_after_last(f, '.'))
    } else {
        None
    }
}

/// Extracts the file-name extension of `path`, as `extension_of` defines it.
pub fn path_extension(path: &str) -> (r: Option<String>)
    ensures
        r.deep_view() == extension_of(path@),
{
    let n = path.unicode_len();
    let mut k: usize = n;
    let mut found_slash = false;
    while k > 0 && !found_slash
        invariant
            n == path@.len(),
            k <= n,
            forall|i: int| k <= i < n ==> path@[i] != '/',
            found_slash ==> k >= 1 && path@[k - 1] == '/',
        decreases k + (if found_slash { 0int } else { 1int }),
    {
        if path.get_char(k - 1) == '/' {
            found_slash = true;
        } else {
            k = k - 1;
        }
    }
    let fstart = k;
    proof {
        lemma_tail_after_last(path@, '/', fstart as int);
    }
    let ghost f = tail_after_last(path@, '/');
    let mut m: usize = n;
    let mut found_dot = false;
    while m > fstart && !found_dot
        invariant
            n == path@.len(),
            fstart <= m <= n,
            forall|i: int| m <= i < n ==> path@[i] != '.',
            found_dot ==> m >= fstart + 1 && path@[m - 1] == '.',
        decreases m + (if found_dot { 0int } else { 1int }),
    {
        if path.get_char(m - 1) == '.' {
            found_dot = true;
        } else {
            m = m - 1;
        }
    }
    proof {
        assert(f =~= path@.subrange(fstart as int, n as int));
        assert(forall|i: int| 0 <= i < f.len() ==> f[i] == path@[fstart + i]);
    }
    if found_dot && m - 1 > fstart {
        proof {
            assert(f[m - 1 - fstart] == path@[m - 1]);
            assert(has_dot_past_first(f));
            assert(forall|i: int|
                m - fstart <= i < f.len() ==> f[i] == path@[fstart + i] && path@[fstart + i]
                    != '.');
            lemma_tail_after_last(f, '.', m - fstart as int);
            assert(tail_after_last(f, '.') =~= path@.subrange(m as int, n as int));
        }
        let e = path.substring_char(m, n);
        Some(e.to_owned())
    } else {
        proof {
            assert forall|i: int| 1 <= i < f.len() implies f[i] != '.' by {
                assert(f[i] == path@[fstart + i]);
                if found_dot {
                    assert(m - 1 == fstart);
                    assert(fstart + i >= m);
                } else {
                    assert(m == fstart);
                    assert(fstart + i >= m);
                }
            }
            assert(!has_dot_past_first(f));
        }
        None
    }
}

/// The template with every `{}` placeholder replaced by `p`, scanning left
/// to right over non-overlapping occurrences.
pub open spec fn substituted(t: Seq<char>, p: Seq<char>) -> Seq<char>
    decreases t.len(),
{
    if t.len() >= 2 && t[0] == '{' && t[1] == '}' {
        p + substituted(t.skip(2), p)
    } else if t.len() >= 1 {
        seq![t[0]] + substituted(t.skip(1), p)
    } else {
        t
    }
}

/// Renders a command template for one path: every `{}` becomes `path`.
pub fn render_template(template: &str, path: &str) -> (r: String)
    ensures
        r@ == substituted(template@, path@),
{
    let n = template.unicode_len();
    let mut out = String::new();
    proof {
        assert(template@.skip(0) =~= template@);
        assert(Seq::<char>::empty() + substituted(template@, path@) =~= substituted(
            template@,
            path@,
        ));
    }
    let mut i: usize = 0;
    while i < n
        invariant
            n == template@.len(),
            i <= n,
            out@ + substituted(template@.skip(i as int), path@) == substituted(template@, path@),
        decreases n - i,
    {
        let ghost rest = template@.skip(i as int);
        let ghost out0 = out@;
        if template.get_char(i) == '{' && i + 1 < n && template.get_char(i + 1) == '}' {
            out.append(path);
            proof {
                assert(rest[0] == template@[i as int]);
                assert(rest[1] == template@[i + 1]);
                assert(rest.skip(2) =~= template@.skip(i + 2));
                assert(substituted(rest, path@) == path@ + substituted(rest.skip(2), path@));
                assert((out0 + path@) + substituted(template@.skip(i + 2), path@) =~= out0 + (
                path@ + substituted(template@.skip(i + 2), path@)));
            }
            i = i + 2;
        } else {
            let piece = template.substring_char(i, i + 1);
            out.append(piece);
            proof {
                assert(rest[0] == template@[i as int]);
                assert(rest.skip(1) =~= template@.skip(i + 1));
                assert(piece@ =~= seq![rest[0]]);
                assert(substituted(rest, path@) == seq![rest[0]] + substituted(
                    rest.skip(1),
                    path@,
                ));
                assert((out0 + piece@) + substituted(template@.skip(i + 1), path@) =~= out0 + (
                piece@ + substituted(template@.skip(i + 1), path@)));
            }
            i = i + 1;
        }
    }
    proof {
        assert(template@.skip(n as int) =~= Seq::<char>::empty());
        assert(out@ + Seq::<char>::empty() =~= out@);
    }
    out
}

} // verus!
